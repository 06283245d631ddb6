//! A USB 2.0 Full-Speed HID boot-keyboard device stack.
//!
//! The stack drives a USB peripheral whose endpoint buffers live in a
//! word-addressed packet memory (PMA) and whose endpoint registers use
//! toggle-XOR write semantics.  The peripheral state (endpoint registers,
//! packet memory, device address, interrupt status) is held as plain data in
//! the device model; every register mutation goes through the toggle-XOR
//! discipline of [`epreg`], and every buffer copy through the striding-aware
//! helpers of [`pma`].  A hardware shim polls the real interrupt status
//! register, mirrors completed transactions into the model, and copies the
//! model's register and packet-memory state back out.

pub mod cursor;
pub mod descr;
pub mod device;
pub mod epreg;
pub mod gpio;
pub mod pma;
