//! The USB HID keyboard device: endpoint layer, control pipe, HID function
//! and poll driver, over a plain-data model of the peripheral.
//!
//! [`UsbKbd`] holds the peripheral state the stack owns for its lifetime:
//! the eight endpoint registers, packet memory, the device address register
//! and the interrupt status.  The host side of the bus (completed
//! transactions, received packets, status flags the hardware sets) is
//! written into those fields from outside — by the hardware shim on a real
//! part, by the test harness in a simulation — and [`UsbKbd::usb_poll`]
//! drains one event per call exactly as the polled stack does.

use vstd::prelude::*;
use crate::cursor::{ReadCursor, WriteCursor};
use crate::descr::{
    ConfigDescriptor, DeviceDescriptor, EndpointDescriptor, HidDescriptor, HidFunction,
    HidReport, InterfaceDescriptor, build_string_descr, spec_string_descr0, string_descr0,
    utf16, spec_units_that_fit, lemma_utf16_len,
};
use crate::epreg::{
    EPStat, EPType, Epr, EprWrite, clear_rx_dtog, clear_tx_dtog, invariant_mask, set_rx_stat,
    set_tx_stat, spec_apply, write_from,
};
use crate::pma::{BTABLE_SIZE, PMA_BYTES, PMA_CELLS, Pma, bytes_of_cells, copy_to_pm,
    spec_rx_alloc_size, spec_rx_count_field};

verus! {

/// Transfer direction of a request or endpoint address.
#[derive(Debug, Clone, Copy, PartialEq, Eq, Structural)]
pub enum Direction {
    HostToDevice,
    DeviceToHost,
}

/// Request type class of a SETUP request.
#[derive(Debug, Clone, Copy, PartialEq, Eq, Structural)]
pub enum Type {
    Standard,
    Class,
    Vendor,
    Reserved,
}

/// Recipient of a SETUP request.
#[derive(Debug, Clone, Copy, PartialEq, Eq, Structural)]
pub enum Recipient {
    Device,
    Interface,
    Endpoint,
    Other,
    Reserved,
}

/// The bmRequestType byte of a SETUP packet.
#[derive(Debug, Clone, Copy, PartialEq, Eq, Structural)]
pub struct BmRequestType(pub u8);

impl BmRequestType {
    pub open spec fn spec_direction(self) -> Direction {
        if self.0 & 0x80 == 0 {
            Direction::HostToDevice
        } else {
            Direction::DeviceToHost
        }
    }

    pub fn bits(&self) -> (r: u8)
        ensures
            r == self.0,
    {
        self.0
    }

    pub fn direction(&self) -> (r: Direction)
        ensures
            r == self.spec_direction(),
    {
        if self.bits() & 0x80 == 0 {
            Direction::HostToDevice
        } else {
            Direction::DeviceToHost
        }
    }

    pub open spec fn spec_request_type(self) -> Type {
        match (self.0 >> 5) & 0b11 {
            0 => Type::Standard,
            1 => Type::Class,
            2 => Type::Vendor,
            _ => Type::Reserved,
        }
    }

    pub fn request_type(&self) -> (r: Type)
        ensures
            r == self.spec_request_type(),
    {
        match (self.bits() >> 5) & 0b11 {
            0 => Type::Standard,
            1 => Type::Class,
            2 => Type::Vendor,
            _ => Type::Reserved,
        }
    }

    pub open spec fn spec_recipient(self) -> Recipient {
        match self.0 & 0b11111 {
            0 => Recipient::Device,
            1 => Recipient::Interface,
            2 => Recipient::Endpoint,
            3 => Recipient::Other,
            _ => Recipient::Reserved,
        }
    }

    pub fn recipient(&self) -> (r: Recipient)
        ensures
            r == self.spec_recipient(),
    {
        match self.bits() & 0b11111 {
            0 => Recipient::Device,
            1 => Recipient::Interface,
            2 => Recipient::Endpoint,
            3 => Recipient::Other,
            _ => Recipient::Reserved,
        }
    }
}

/// A SETUP packet's eight bytes, parsed.
#[allow(non_snake_case)]
#[derive(Debug, Clone, Copy, PartialEq, Eq, Structural)]
pub struct DeviceRequest {
    pub bmRequestType: BmRequestType,
    pub bRequest: u8,
    pub wValue: u16,
    pub wIndex: u16,
    pub wLength: u16,
}

/// The little-endian parse of a SETUP packet's eight bytes.
pub open spec fn spec_parse_request(b: Seq<u8>) -> DeviceRequest {
    DeviceRequest {
        bmRequestType: BmRequestType(b[0]),
        bRequest: b[1],
        wValue: crate::pma::cell_of(b[2], b[3]),
        wIndex: crate::pma::cell_of(b[4], b[5]),
        wLength: crate::pma::cell_of(b[6], b[7]),
    }
}

impl DeviceRequest {
    pub fn from_bytes(b: &[u8]) -> (r: DeviceRequest)
        requires
            b@.len() == 8,
        ensures
            r == spec_parse_request(b@),
    {
        DeviceRequest {
            bmRequestType: BmRequestType(b[0]),
            bRequest: b[1],
            wValue: (b[2] as u16) | ((b[3] as u16) << 8),
            wIndex: (b[4] as u16) | ((b[5] as u16) << 8),
            wLength: (b[6] as u16) | ((b[7] as u16) << 8),
        }
    }
}

/// An endpoint address byte: a 7-bit endpoint number plus a direction bit
/// (set for IN, device to host).
#[derive(Debug, Clone, Copy, PartialEq, Eq, Structural)]
pub struct EPAddr(pub u8);

impl EPAddr {
    pub open spec fn spec_dir(self) -> Direction {
        if self.0 & 0x80 == 0 {
            Direction::HostToDevice
        } else {
            Direction::DeviceToHost
        }
    }

    pub open spec fn spec_ep_id(self) -> u8 {
        (self.0 & 0x7F) as u8
    }

    pub fn new(bits: u8) -> (r: EPAddr)
        ensures
            r == EPAddr(bits),
    {
        EPAddr(bits)
    }

    pub fn from(dir: Direction, ep_id: u8) -> (r: EPAddr)
        ensures
            dir == Direction::DeviceToHost ==> r == EPAddr((ep_id | 0x80) as u8),
            dir == Direction::HostToDevice ==> r == EPAddr(ep_id),
    {
        match dir {
            Direction::DeviceToHost => EPAddr::new(ep_id | 0x80),
            Direction::HostToDevice => EPAddr::new(ep_id),
        }
    }

    pub fn bits(&self) -> (r: u8)
        ensures
            r == self.0,
    {
        self.0
    }

    pub fn dir(&self) -> (r: Direction)
        ensures
            r == self.spec_dir(),
    {
        if self.bits() & 0x80 == 0 {
            Direction::HostToDevice
        } else {
            Direction::DeviceToHost
        }
    }

    pub fn ep_id(&self) -> (r: u8)
        ensures
            r == self.spec_ep_id(),
    {
        self.bits() & 0x7F
    }
}

/// Outcome of dispatching a standard request.
#[derive(Debug, Clone, Copy, PartialEq, Eq, Structural)]
pub enum RequestStatus {
    NotSupported,
    Handled,
}

/// The interrupt status register: which event is pending and, for a
/// completed transfer, the endpoint number and direction (`dir` set means
/// an OUT or SETUP transaction completed).
#[derive(Debug, Clone, Copy, PartialEq, Eq, Structural)]
pub struct Istr {
    pub reset: bool,
    pub ctr: bool,
    pub dir: bool,
    pub ep_id: u8,
}

impl Istr {
    pub fn cleared() -> (r: Istr)
        ensures
            r == (Istr { reset: false, ctr: false, dir: false, ep_id: 0 }),
    {
        Istr { reset: false, ctr: false, dir: false, ep_id: 0 }
    }
}

/// The control pipe's state.  Each variant owns the scratch buffer — bare,
/// or wrapped in the cursor that is dealing it out — so a transition hands
/// the buffer on without allocation.
pub enum ControlState {
    Idle { buf: Vec<u8> },
    Stalled { buf: Vec<u8> },
    DataIn { cur: ReadCursor, req: DeviceRequest },
    LastDataIn { cur: ReadCursor, req: DeviceRequest },
    StatusIn { buf: Vec<u8> },
    DataOut { cur: WriteCursor, req: DeviceRequest },
    LastDataOut { cur: WriteCursor, req: DeviceRequest },
    StatusOut { buf: Vec<u8> },
}

impl ControlState {
    /// The scratch buffer this state owns, whole.
    pub open spec fn spec_buf(self) -> Seq<u8> {
        match self {
            ControlState::Idle { buf } => buf@,
            ControlState::Stalled { buf } => buf@,
            ControlState::DataIn { cur, .. } => cur.buf@,
            ControlState::LastDataIn { cur, .. } => cur.buf@,
            ControlState::StatusIn { buf } => buf@,
            ControlState::DataOut { cur, .. } => cur.buf@,
            ControlState::LastDataOut { cur, .. } => cur.buf@,
            ControlState::StatusOut { buf } => buf@,
        }
    }

    pub open spec fn wf(self) -> bool {
        &&& self.spec_buf().len() == CTRL_BUF_LEN
        &&& match self {
            ControlState::DataIn { cur, .. } => cur.wf(),
            ControlState::LastDataIn { cur, .. } => cur.wf(),
            ControlState::DataOut { cur, .. } => cur.wf(),
            ControlState::LastDataOut { cur, .. } => cur.wf(),
            _ => true,
        }
    }

    /// Takes the scratch buffer out, whatever the state.
    pub fn into_buf(self) -> (r: Vec<u8>)
        ensures
            r@ == self.spec_buf(),
    {
        match self {
            ControlState::Idle { buf } => buf,
            ControlState::Stalled { buf } => buf,
            ControlState::DataIn { cur, .. } => cur.into_buf(),
            ControlState::LastDataIn { cur, .. } => cur.into_buf(),
            ControlState::StatusIn { buf } => buf,
            ControlState::DataOut { cur, .. } => cur.into_buf(),
            ControlState::LastDataOut { cur, .. } => cur.into_buf(),
            ControlState::StatusOut { buf } => buf,
        }
    }
}

/// Size of the control pipe's scratch buffer.
pub const CTRL_BUF_LEN: usize = 128;

/// Max packet size on endpoint 0.
pub const EP0_PACKET: u16 = 64;

/// The device descriptor this keyboard presents.
pub open spec fn spec_device_descr() -> DeviceDescriptor {
    DeviceDescriptor {
        bLength: 18,
        bDescriptorType: 1,
        bcdUSB: 0x0200,
        bDeviceClass: 0,
        bDeviceSubClass: 0,
        bDeviceProtocol: 0,
        bMaxPacketSize0: 64,
        idVendor: 0x0483,
        idProduct: 0x5710,
        bcdDevice: 0x0200,
        iManufacturer: 1,
        iProduct: 2,
        iSerialNumber: 3,
        bNumConfigurations: 1,
    }
}

pub fn device_descriptor() -> (r: DeviceDescriptor)
    ensures
        r == spec_device_descr(),
{
    DeviceDescriptor {
        bLength: 18,
        bDescriptorType: 1,
        bcdUSB: 0x0200,
        bDeviceClass: 0,
        bDeviceSubClass: 0,
        bDeviceProtocol: 0,
        bMaxPacketSize0: 64,
        idVendor: 0x0483,
        idProduct: 0x5710,
        bcdDevice: 0x0200,
        iManufacturer: 1,
        iProduct: 2,
        iSerialNumber: 3,
        bNumConfigurations: 1,
    }
}

/// The composite configuration block: configuration, one HID boot-keyboard
/// interface, the HID function descriptor, and the interrupt IN endpoint.
#[derive(Debug, Clone, Copy, PartialEq, Eq, Structural)]
pub struct CompositeConfigDescriptor {
    pub config: ConfigDescriptor,
    pub kbd_interf: InterfaceDescriptor,
    pub hid_func: HidFunction,
    pub hid_endpoint: EndpointDescriptor,
}

impl CompositeConfigDescriptor {
    /// The 34-byte wire image.
    pub open spec fn spec_bytes(self) -> Seq<u8> {
        self.config.spec_bytes() + self.kbd_interf.spec_bytes() + self.hid_func.spec_bytes()
            + self.hid_endpoint.spec_bytes()
    }

    pub fn to_bytes(&self) -> (r: Vec<u8>)
        ensures
            r@ == self.spec_bytes(),
    {
        let mut r = self.config.to_bytes();
        let mut b = self.kbd_interf.to_bytes();
        r.append(&mut b);
        let mut b = self.hid_func.to_bytes();
        r.append(&mut b);
        let mut b = self.hid_endpoint.to_bytes();
        r.append(&mut b);
        r
    }
}

/// The configuration block this keyboard presents.
pub open spec fn spec_composite_config() -> CompositeConfigDescriptor {
    CompositeConfigDescriptor {
        config: ConfigDescriptor {
            bLength: 9,
            bDescriptorType: 2,
            wTotalLength: 34,
            bNumInterfaces: 1,
            bConfigurationValue: 1,
            iConfiguration: 0,
            bmAttributes: 0xC0,
            bMaxPower: 0x32,
        },
        kbd_interf: InterfaceDescriptor {
            bLength: 9,
            bDescriptorType: 4,
            bInterfaceNumber: 0,
            bAlternateSetting: 0,
            bNumEndpoints: 1,
            bInterfaceClass: 3,
            bInterfaceSubClass: 1,
            bInterfaceProtocol: 1,
            iInterface: 0,
        },
        hid_func: HidFunction {
            hid_descriptor: HidDescriptor {
                bLength: 9,
                bDescriptorType: 0x21,
                bcdHID: 0x0101,
                bCountryCode: 0,
                bNumDescriptors: 1,
            },
            hid_report: HidReport { bReportDescriptorType: 0x22, wDescriptorLength: 63 },
        },
        hid_endpoint: EndpointDescriptor {
            bLength: 7,
            bDescriptorType: 5,
            bEndpointAddress: 0x81,
            bmAttributes: 0x03,
            wMaxPacketSize: 8,
            bInterval: 0x0A,
        },
    }
}

pub fn composite_config() -> (r: CompositeConfigDescriptor)
    ensures
        r == spec_composite_config(),
{
    CompositeConfigDescriptor {
        config: ConfigDescriptor {
            bLength: 9,
            bDescriptorType: 2,
            wTotalLength: 34,
            bNumInterfaces: 1,
            bConfigurationValue: 1,
            iConfiguration: 0,
            bmAttributes: 0xC0,
            bMaxPower: 0x32,
        },
        kbd_interf: InterfaceDescriptor {
            bLength: 9,
            bDescriptorType: 4,
            bInterfaceNumber: 0,
            bAlternateSetting: 0,
            bNumEndpoints: 1,
            bInterfaceClass: 3,
            bInterfaceSubClass: 1,
            bInterfaceProtocol: 1,
            iInterface: 0,
        },
        hid_func: HidFunction {
            hid_descriptor: HidDescriptor {
                bLength: 9,
                bDescriptorType: 0x21,
                bcdHID: 0x0101,
                bCountryCode: 0,
                bNumDescriptors: 1,
            },
            hid_report: HidReport { bReportDescriptorType: 0x22, wDescriptorLength: 63 },
        },
        hid_endpoint: EndpointDescriptor {
            bLength: 7,
            bDescriptorType: 5,
            bEndpointAddress: 0x81,
            bmAttributes: 0x03,
            wMaxPacketSize: 8,
            bInterval: 0x0A,
        },
    }
}

/// The configuration block's wire image.
pub open spec fn spec_config_descr_bytes() -> Seq<u8> {
    spec_composite_config().spec_bytes()
}

/// The boot-keyboard report descriptor: 8 modifier bits, 1 reserved byte,
/// 5 LED output bits plus 3 bits padding, 6 key-code bytes.
pub open spec fn spec_hid_report_descr() -> Seq<u8> {
    seq![
        0x05u8, 0x01, 0x09, 0x06, 0xA1, 0x01, 0x05, 0x07, 0x19, 0xE0, 0x29, 0xE7, 0x15, 0x00,
        0x25, 0x01, 0x75, 0x01, 0x95, 0x08, 0x81, 0x02, 0x95, 0x01, 0x75, 0x08, 0x81, 0x01,
        0x95, 0x06, 0x75, 0x01, 0x05, 0x08, 0x19, 0x01, 0x29, 0x05, 0x91, 0x02, 0x95, 0x01,
        0x75, 0x03, 0x91, 0x01, 0x95, 0x06, 0x75, 0x08, 0x15, 0x00, 0x25, 0x65, 0x05, 0x07,
        0x19, 0x00, 0x29, 0x65, 0x81, 0x00, 0xC0,
    ]
}

pub fn hid_report_descr() -> (r: Vec<u8>)
    ensures
        r@ == spec_hid_report_descr(),
{
    let v: Vec<u8> = vec![
        0x05u8, 0x01, 0x09, 0x06, 0xA1, 0x01, 0x05, 0x07, 0x19, 0xE0, 0x29, 0xE7, 0x15, 0x00,
        0x25, 0x01, 0x75, 0x01, 0x95, 0x08, 0x81, 0x02, 0x95, 0x01, 0x75, 0x08, 0x81, 0x01,
        0x95, 0x06, 0x75, 0x01, 0x05, 0x08, 0x19, 0x01, 0x29, 0x05, 0x91, 0x02, 0x95, 0x01,
        0x75, 0x03, 0x91, 0x01, 0x95, 0x06, 0x75, 0x08, 0x15, 0x00, 0x25, 0x65, 0x05, 0x07,
        0x19, 0x00, 0x29, 0x65, 0x81, 0x00, 0xC0,
    ];
    proof {
        assert(v@ =~= spec_hid_report_descr());
    }
    v
}

/// Number of string descriptors the device carries.
pub const STRING_COUNT: u16 = 3;

/// The device's strings, by descriptor index (1-based).
pub open spec fn spec_string(idx: int) -> Seq<char> {
    if idx == 1 {
        "KOBA789"@
    } else if idx == 2 {
        "KB789 MK-C"@
    } else {
        "789"@
    }
}

pub fn string_data(idx: u16) -> (s: &'static str)
    requires
        1 <= idx <= STRING_COUNT,
    ensures
        s@ == spec_string(idx as int),
{
    if idx == 1 {
        "KOBA789"
    } else if idx == 2 {
        "KB789 MK-C"
    } else {
        "789"
    }
}

/// Well-formed allocation list: ranges at or above the BTABLE, laid out in
/// order without overlap, the last ending at or below `pm_top`.
pub open spec fn allocs_wf(a: Seq<(u16, u16)>, pm_top: u16) -> bool {
    &&& pm_top <= PMA_BYTES
    &&& forall|i: int| 0 <= i < a.len() ==> BTABLE_SIZE <= (#[trigger] a[i]).0
    &&& forall|i: int| 0 <= i && i + 1 < a.len()
        ==> (#[trigger] a[i]).0 + a[i].1 <= a[i + 1].0
    &&& a.len() > 0 ==> a[a.len() - 1].0 + a[a.len() - 1].1 <= pm_top
}

/// Every allocated range ends at or below `pm_top` (so fits in PMA).
pub proof fn lemma_alloc_in_bounds(a: Seq<(u16, u16)>, pm_top: u16, i: int)
    requires
        allocs_wf(a, pm_top),
        0 <= i < a.len(),
    ensures
        a[i].0 + a[i].1 <= pm_top,
    decreases a.len() - i,
{
    if i + 1 < a.len() {
        lemma_alloc_in_bounds(a, pm_top, i + 1);
    }
}

/// No two allocated ranges overlap: the earlier one ends before the later
/// one starts.
pub proof fn lemma_alloc_disjoint(a: Seq<(u16, u16)>, pm_top: u16, i: int, j: int)
    requires
        allocs_wf(a, pm_top),
        0 <= i < j < a.len(),
    ensures
        a[i].0 + a[i].1 <= a[j].0,
    decreases j - i,
{
    if i + 1 < j {
        lemma_alloc_disjoint(a, pm_top, i + 1, j);
    }
}

/// The endpoint register value `ep_setup` leaves behind: address and type
/// programmed, the serviced directions' data toggles cleared and statuses
/// set (TX to NAK, RX to VALID), everything else as the toggle-XOR
/// discipline preserves it.
pub open spec fn spec_ep_setup_epr(e: Epr, addr: EPAddr, ep_type: EPType, tx_on: bool,
    rx_on: bool) -> Epr {
    Epr {
        ea: (addr.0 & 0xF) as u8,
        ep_type: ep_type.spec_bits(),
        dtog_tx: if tx_on { false } else { e.dtog_tx },
        stat_tx: if tx_on { EPStat::Nak.spec_bits() } else { e.stat_tx },
        dtog_rx: if rx_on { false } else { e.dtog_rx },
        stat_rx: if rx_on { EPStat::Valid.spec_bits() } else { e.stat_rx },
        ..e
    }
}

/// The USB keyboard device: the stack's entire state, hardware model
/// included.
pub struct UsbKbd {
    /// The eight endpoint registers.
    pub epr: Vec<Epr>,
    /// Packet memory.
    pub pma: Pma,
    /// The device address register (7 bits).
    pub daddr: u8,
    /// Enable-function bit of the address register.
    pub ef: bool,
    /// The interrupt status register.
    pub istr: Istr,
    /// Power-down control bit.
    pub cntr_pdwn: bool,
    /// Force-reset control bit.
    pub cntr_fres: bool,
    /// Reset interrupt mask.
    pub cntr_resetm: bool,
    /// Correct-transfer interrupt mask.
    pub cntr_ctrm: bool,
    /// The control pipe's state.
    pub ctrl_state: ControlState,
    /// An accepted SET_ADDRESS value not yet committed to the address
    /// register.
    pub pending_addr: Option<u8>,
    /// The PMA allocator's top-of-heap cursor, in bytes.
    pub pm_top: u16,
    /// The ranges handed out by the allocator since the last reset.
    pub allocs: Ghost<Seq<(u16, u16)>>,
    /// The device descriptor served to the host.
    pub device_descr: DeviceDescriptor,
    /// The configuration block served to the host, pre-assembled.
    pub config_descr: Vec<u8>,
}

impl UsbKbd {
    /// Shape invariants that hold from construction on.
    pub open spec fn structural_ok(self) -> bool {
        &&& self.epr@.len() == 8
        &&& forall|i: int| 0 <= i < 8 ==> (#[trigger] self.epr@[i]).wf()
        &&& self.pma.wf()
        &&& self.device_descr == spec_device_descr()
        &&& self.config_descr@ == spec_config_descr_bytes()
    }

    /// The hardware-side invariant: shapes, the PMA allocator cursor within
    /// bounds, and the control endpoint's buffers where reset put them.
    /// Holds also while the control pipe's scratch buffer is held out.
    pub open spec fn hw_ok(self) -> bool {
        &&& self.structural_ok()
        &&& self.pm_top % 2 == 0
        &&& 192 <= self.pm_top <= PMA_BYTES
        &&& self.pma.tx_addr(0) == 64
        &&& self.pma.rx_addr(0) == 128
        &&& allocs_wf(self.allocs@, self.pm_top)
    }

    /// Full well-formedness, established by `setup` / `reset` and preserved
    /// by every operation.
    pub open spec fn wf(self) -> bool {
        &&& self.hw_ok()
        &&& self.ctrl_state.wf()
    }

    pub open spec fn spec_pm_top(self) -> u16 {
        self.pm_top
    }

    pub open spec fn spec_pending_addr(self) -> Option<u8> {
        self.pending_addr
    }

    pub open spec fn spec_ctrl_state(self) -> ControlState {
        self.ctrl_state
    }

    pub open spec fn spec_allocs(self) -> Seq<(u16, u16)> {
        self.allocs@
    }

    /// Builds the device with the peripheral model in its power-on state.
    /// `setup` must run before the stack is polled.
    pub fn new() -> (r: UsbKbd)
        ensures
            r.structural_ok(),
            r.ctrl_state.wf(),
            r.pm_top == BTABLE_SIZE,
            r.daddr == 0,
            !r.ef,
            r.pending_addr is None,
            r.ctrl_state is Idle,
            r.istr == (Istr { reset: false, ctr: false, dir: false, ep_id: 0 }),
            forall|i: int| 0 <= i < 8
                ==> (#[trigger] r.epr@[i]) == crate::epreg::spec_reset_value(),
            forall|i: int| 0 <= i < PMA_CELLS ==> r.pma.spec_cell(i) == 0,
            r.spec_allocs() == Seq::<(u16, u16)>::empty(),
    {
        let mut epr: Vec<Epr> = Vec::new();
        let mut i: usize = 0;
        while i < 8
            invariant
                i <= 8,
                epr@.len() == i,
                forall|j: int| 0 <= j < i
                    ==> (#[trigger] epr@[j]) == crate::epreg::spec_reset_value(),
            decreases 8 - i,
        {
            epr.push(Epr::reset_value());
            i += 1;
        }
        let buf: Vec<u8> = vec![0u8; CTRL_BUF_LEN];
        let config = composite_config();
        let config_descr = config.to_bytes();
        proof {
            assert(spec_config_descr_bytes().len() == 34);
        }
        UsbKbd {
            epr,
            pma: Pma::new(),
            daddr: 0,
            ef: false,
            istr: Istr::cleared(),
            cntr_pdwn: false,
            cntr_fres: false,
            cntr_resetm: false,
            cntr_ctrm: false,
            ctrl_state: ControlState::Idle { buf },
            pending_addr: None,
            pm_top: BTABLE_SIZE,
            allocs: Ghost(Seq::empty()),
            device_descr: device_descriptor(),
            config_descr,
        }
    }

    /// Writes the device address register; the enable bit rides along.
    pub fn set_addr(&mut self, addr: u8)
        ensures
            *final(self) == (UsbKbd { daddr: (addr & 0x7F) as u8, ef: true, ..*old(self) }),
    {
        self.daddr = addr & 0x7F;
        self.ef = true;
    }

    /// Rewrites one endpoint register through the hardware's write
    /// semantics.
    fn epr_store(&mut self, ep_id: u8, e: Epr)
        requires
            old(self).epr@.len() == 8,
            ep_id < 8,
        ensures
            *final(self) == (UsbKbd { epr: final(self).epr, ..*old(self) }),
            final(self).epr@ == old(self).epr@.update(ep_id as int, e),
    {
        self.epr[ep_id as usize] = e;
    }

    /// Clears CTR_TX on an endpoint, preserving everything else.
    pub fn ep_clear_ctr_tx(&mut self, ep_id: u8)
        requires
            old(self).structural_ok(),
            ep_id < 8,
        ensures
            final(self).structural_ok(),
            *final(self) == (UsbKbd { epr: final(self).epr, ..*old(self) }),
            final(self).epr@ == old(self).epr@.update(ep_id as int,
                Epr { ctr_tx: false, ..old(self).epr@[ep_id as int] }),
    {
        let e = self.epr[ep_id as usize];
        let w = invariant_mask(write_from(&e));
        let w = EprWrite { ctr_tx: false, ..w };
        let e2 = e.apply(w);
        proof {
            assert(old(self).epr@[ep_id as int].wf());
            crate::epreg::lemma_stat_xor_zero(e.stat_tx);
            crate::epreg::lemma_stat_xor_zero(e.stat_rx);
            crate::epreg::lemma_mask2_id(e.ep_type);
            crate::epreg::lemma_mask4_id(e.ea);
            assert(e2 == (Epr { ctr_tx: false, ..e }));
        }
        self.epr_store(ep_id, e2);
    }

    /// Clears CTR_RX on an endpoint; the SETUP flag falls with it.
    pub fn ep_clear_ctr_rx(&mut self, ep_id: u8)
        requires
            old(self).structural_ok(),
            ep_id < 8,
        ensures
            final(self).structural_ok(),
            *final(self) == (UsbKbd { epr: final(self).epr, ..*old(self) }),
            final(self).epr@ == old(self).epr@.update(ep_id as int,
                Epr { ctr_rx: false, setup: false, ..old(self).epr@[ep_id as int] }),
    {
        let e = self.epr[ep_id as usize];
        let w = invariant_mask(write_from(&e));
        let w = EprWrite { ctr_rx: false, ..w };
        let e2 = e.apply(w);
        proof {
            assert(old(self).epr@[ep_id as int].wf());
            crate::epreg::lemma_stat_xor_zero(e.stat_tx);
            crate::epreg::lemma_stat_xor_zero(e.stat_rx);
            crate::epreg::lemma_mask2_id(e.ep_type);
            crate::epreg::lemma_mask4_id(e.ea);
            assert(e2 == (Epr { ctr_rx: false, setup: false, ..e }));
        }
        self.epr_store(ep_id, e2);
    }

    /// Programs an endpoint: address and type into the register, PMA
    /// allocated for the serviced directions (a control endpoint gets
    /// both), data toggles cleared, TX status NAK and RX status VALID.
    /// Advances the allocator cursor.
    #[verifier::rlimit(100)]
    #[verifier::spinoff_prover]
    pub fn ep_setup(&mut self, addr: EPAddr, ep_type: EPType, size: u16)
        requires
            old(self).structural_ok(),
            addr.spec_ep_id() < 8,
            size % 2 == 0,
            size <= PMA_BYTES,
            old(self).pm_top % 2 == 0,
            BTABLE_SIZE <= old(self).pm_top,
            old(self).pm_top
                + (if addr.spec_dir() == Direction::DeviceToHost || ep_type == EPType::Control {
                    size as int
                } else {
                    0
                })
                + (if addr.spec_dir() == Direction::HostToDevice {
                    spec_rx_alloc_size(size) as int
                } else {
                    0
                }) <= PMA_BYTES,
            allocs_wf(old(self).allocs@, old(self).pm_top),
        ensures
            ({
                let ep = addr.spec_ep_id() as int;
                let tx_on = addr.spec_dir() == Direction::DeviceToHost
                    || ep_type == EPType::Control;
                let rx_on = addr.spec_dir() == Direction::HostToDevice;
                let tx_need: int = if tx_on { size as int } else { 0 };
                let rx_need: int = if rx_on { spec_rx_alloc_size(size) as int } else { 0 };
                &&& final(self).structural_ok()
                &&& final(self).pm_top == old(self).pm_top + tx_need + rx_need
                &&& final(self).pm_top % 2 == 0
                &&& allocs_wf(final(self).allocs@, final(self).pm_top)
                &&& final(self).allocs@ == old(self).allocs@
                    + (if tx_on { seq![(old(self).pm_top, size)] } else { Seq::empty() })
                    + (if rx_on {
                        seq![(((old(self).pm_top + tx_need) as u16),
                            spec_rx_alloc_size(size))]
                    } else {
                        Seq::empty()
                    })
                &&& final(self).epr@ == old(self).epr@.update(ep,
                    spec_ep_setup_epr(old(self).epr@[ep], addr, ep_type, tx_on, rx_on))
                &&& tx_on ==> final(self).pma.tx_addr(ep) == old(self).pm_top
                    && final(self).pma.tx_count(ep) == 0
                &&& rx_on ==> final(self).pma.rx_addr(ep) == old(self).pm_top + tx_need
                    && final(self).pma.rx_count(ep) == spec_rx_count_field(size)
                &&& !tx_on ==> final(self).pma.tx_addr(ep) == old(self).pma.tx_addr(ep)
                    && final(self).pma.tx_count(ep) == old(self).pma.tx_count(ep)
                &&& !rx_on ==> final(self).pma.rx_addr(ep) == old(self).pma.rx_addr(ep)
                    && final(self).pma.rx_count(ep) == old(self).pma.rx_count(ep)
                &&& forall|j: int| 0 <= j < PMA_CELLS && !(4 * ep <= j < 4 * ep + 4)
                    ==> final(self).pma.spec_cell(j) == old(self).pma.spec_cell(j)
                &&& *final(self) == (UsbKbd {
                    epr: final(self).epr,
                    pma: final(self).pma,
                    pm_top: final(self).pm_top,
                    allocs: final(self).allocs,
                    ..*old(self)
                })
            }),
    {
        let ep_id = addr.ep_id();
        let ghost ep = ep_id as int;
        let ghost e0 = self.epr@[ep];
        let ghost tx_on = addr.spec_dir() == Direction::DeviceToHost
            || ep_type == EPType::Control;
        let ghost rx_on = addr.spec_dir() == Direction::HostToDevice;
        proof {
            assert(old(self).epr@[ep].wf());
        }
        {
            let e = self.epr[ep_id as usize];
            let w = invariant_mask(write_from(&e));
            let w = EprWrite { ea: addr.bits(), ep_type: ep_type.bits(), ..w };
            let e2 = e.apply(w);
            proof {
                crate::epreg::lemma_stat_xor_zero(e.stat_tx);
                crate::epreg::lemma_stat_xor_zero(e.stat_rx);
                crate::epreg::lemma_mask2_id(ep_type.spec_bits());
                assert(e2 == (Epr {
                    ea: (addr.0 & 0xF) as u8,
                    ep_type: ep_type.spec_bits(),
                    ..e0
                }));
            }
            self.epr_store(ep_id, e2);
        }
        let ghost e1 = Epr { ea: (addr.0 & 0xF) as u8, ep_type: ep_type.spec_bits(), ..e0 };
        proof {
            assert(self.epr@[ep] == e1);
            assert(e1.wf());
        }

        // IN or control endpoint: a TX buffer.
        if addr.dir() == Direction::DeviceToHost || ep_type == EPType::Control {
            let tx_addr = self.pm_top;
            let mut entry = self.pma.btable_entry(ep_id);
            entry.tx.set_addr(tx_addr);
            entry.tx.set_count(0);
            self.pma.set_btable_entry(ep_id, entry);
            let e = self.epr[ep_id as usize];
            let w = invariant_mask(write_from(&e));
            let w = clear_tx_dtog(&e, w);
            let w = set_tx_stat(&e, w, EPStat::Nak.bits());
            let e2 = e.apply(w);
            proof {
                assert(e == e1);
                crate::epreg::lemma_stat_xor_zero(e.stat_rx);
                crate::epreg::lemma_stat_toggle_lands(e.stat_tx, EPStat::Nak.spec_bits());
                crate::epreg::lemma_mask2_id(e.ep_type);
                crate::epreg::lemma_mask4_id(e.ea);
                assert(e2 == (Epr {
                    dtog_tx: false,
                    stat_tx: EPStat::Nak.spec_bits(),
                    ..e1
                }));
            }
            self.epr_store(ep_id, e2);
            self.pm_top = self.pm_top + size;
            self.allocs = Ghost(self.allocs@.push((tx_addr, size)));
        }
        let ghost e_tx = if tx_on {
            Epr { dtog_tx: false, stat_tx: EPStat::Nak.spec_bits(), ..e1 }
        } else {
            e1
        };
        proof {
            assert(self.epr@[ep] == e_tx);
            assert(e_tx.wf());
        }
        // OUT endpoint: an RX buffer.
        if addr.dir() == Direction::HostToDevice {
            let rx_addr = self.pm_top;
            let mut entry = self.pma.btable_entry(ep_id);
            entry.rx.set_addr(rx_addr);
            let realsize = entry.rx.set_buf_size(size);
            self.pma.set_btable_entry(ep_id, entry);
            let e = self.epr[ep_id as usize];
            let w = invariant_mask(write_from(&e));
            let w = clear_rx_dtog(&e, w);
            let w = set_rx_stat(&e, w, EPStat::Valid.bits());
            let e2 = e.apply(w);
            proof {
                assert(e == e_tx);
                crate::epreg::lemma_stat_xor_zero(e.stat_tx);
                crate::epreg::lemma_stat_toggle_lands(e.stat_rx, EPStat::Valid.spec_bits());
                crate::epreg::lemma_mask2_id(e.ep_type);
                crate::epreg::lemma_mask4_id(e.ea);
                assert(e2 == (Epr {
                    dtog_rx: false,
                    stat_rx: EPStat::Valid.spec_bits(),
                    ..e_tx
                }));
            }
            self.epr_store(ep_id, e2);
            self.pm_top = self.pm_top + realsize;
            self.allocs = Ghost(self.allocs@.push((rx_addr, realsize)));
        }
        proof {
            let ghost e_final = if rx_on {
                Epr { dtog_rx: false, stat_rx: EPStat::Valid.spec_bits(), ..e_tx }
            } else {
                e_tx
            };
            assert(self.epr@[ep] == e_final);
            assert(e_final == spec_ep_setup_epr(e0, addr, ep_type, tx_on, rx_on));
            assert(self.epr@ =~= old(self).epr@.update(ep,
                spec_ep_setup_epr(e0, addr, ep_type, tx_on, rx_on)));

            let tx_need: int = if tx_on { size as int } else { 0 };
            let rx_need: int = if rx_on { spec_rx_alloc_size(size) as int } else { 0 };
            assert(self.allocs@ =~= old(self).allocs@
                + (if tx_on { seq![(old(self).pm_top, size)] } else { Seq::<(u16, u16)>::empty() })
                + (if rx_on {
                    seq![(((old(self).pm_top + tx_need) as u16), spec_rx_alloc_size(size))]
                } else {
                    Seq::<(u16, u16)>::empty()
                }));

            // The extended allocation list is still laid out in order.
            let a = self.allocs@;
            let a0 = old(self).allocs@;
            let pt0 = old(self).pm_top;
            assert forall|i: int| 0 <= i < a.len() implies BTABLE_SIZE <= (#[trigger] a[i]).0 by {
                if i < a0.len() {
                    assert(BTABLE_SIZE <= a0[i].0);
                }
            }
            assert forall|i: int| 0 <= i && i + 1 < a.len()
                implies (#[trigger] a[i]).0 + a[i].1 <= a[i + 1].0 by {
                if i + 1 < a0.len() {
                    assert(a0[i].0 + a0[i].1 <= a0[i + 1].0);
                } else if i + 1 == a0.len() {
                    assert(a0[i].0 + a0[i].1 <= a0[i + 1 - 1].0 + a0[i + 1 - 1].1);
                    assert(a0[a0.len() - 1].0 + a0[a0.len() - 1].1 <= pt0);
                } else {
                    assert(i == a0.len() && tx_on && rx_on);
                }
            }
            if a.len() > 0 {
                if a.len() == a0.len() {
                    assert(a[a.len() - 1] == a0[a0.len() - 1]);
                    assert(a0[a0.len() - 1].0 + a0[a0.len() - 1].1 <= pt0);
                }
            }
        }
    }

    /// Forces the matching direction's status to STALL — and STAT_TX to
    /// STALL on endpoint 0 regardless, because a control pipe stalls both
    /// stages.
    pub fn ep_stall(&mut self, addr: EPAddr)
        requires
            old(self).structural_ok(),
            addr.spec_ep_id() < 8,
        ensures
            final(self).structural_ok(),
            *final(self) == (UsbKbd { epr: final(self).epr, ..*old(self) }),
            ({
                let ep = addr.spec_ep_id() as int;
                let e = old(self).epr@[ep];
                final(self).epr@ == old(self).epr@.update(ep, Epr {
                    stat_tx: if ep == 0 || addr.spec_dir() == Direction::DeviceToHost {
                        EPStat::Stall.spec_bits()
                    } else {
                        e.stat_tx
                    },
                    stat_rx: if addr.spec_dir() == Direction::HostToDevice {
                        EPStat::Stall.spec_bits()
                    } else {
                        e.stat_rx
                    },
                    ..e
                })
            }),
    {
        let ep_id = addr.ep_id();
        let e = self.epr[ep_id as usize];
        let w = invariant_mask(write_from(&e));
        let w = if ep_id == 0 {
            set_tx_stat(&e, w, EPStat::Stall.bits())
        } else {
            w
        };
        let w = match addr.dir() {
            Direction::HostToDevice => set_rx_stat(&e, w, EPStat::Stall.bits()),
            Direction::DeviceToHost => set_tx_stat(&e, w, EPStat::Stall.bits()),
        };
        let e2 = e.apply(w);
        proof {
            assert(old(self).epr@[ep_id as int].wf());
            crate::epreg::lemma_stat_xor_zero(e.stat_tx);
            crate::epreg::lemma_stat_xor_zero(e.stat_rx);
            crate::epreg::lemma_stat_toggle_lands(e.stat_tx, EPStat::Stall.spec_bits());
            crate::epreg::lemma_stat_toggle_lands(e.stat_rx, EPStat::Stall.spec_bits());
            crate::epreg::lemma_mask2_id(e.ep_type);
            crate::epreg::lemma_mask4_id(e.ea);
        }
        self.epr_store(ep_id, e2);
    }

    /// The bytes of packet memory an endpoint's TX buffer currently holds,
    /// `n` from its BTABLE address.
    pub open spec fn spec_tx_bytes(self, ep: int, n: int) -> Seq<u8> {
        self.pma.bytes_at(self.pma.tx_addr(ep) as int, n)
    }

    /// True when the endpoint's TX buffer address can take `n` bytes
    /// without leaving packet memory or touching the BTABLE.
    pub open spec fn tx_region_ok(self, ep: int, n: int) -> bool {
        &&& self.pma.tx_addr(ep) % 2 == 0
        &&& BTABLE_SIZE <= self.pma.tx_addr(ep)
        &&& self.pma.tx_addr(ep) + n <= PMA_BYTES
    }

    /// The same for the RX buffer.
    pub open spec fn rx_region_ok(self, ep: int, n: int) -> bool {
        &&& self.pma.rx_addr(ep) % 2 == 0
        &&& BTABLE_SIZE <= self.pma.rx_addr(ep)
        &&& self.pma.rx_addr(ep) + n <= PMA_BYTES
    }

    /// Loads one packet into an endpoint's TX buffer and hands it to the
    /// hardware: fails fast with `None` while the previous packet is still
    /// VALID (the host has not taken it), else copies the bytes into PMA,
    /// sets the count, and toggles STAT_TX to VALID.
    pub fn ep_write_packet(&mut self, addr: EPAddr, buf: &[u8]) -> (r: Option<()>)
        requires
            old(self).structural_ok(),
            addr.spec_ep_id() < 8,
            old(self).tx_region_ok(addr.spec_ep_id() as int, buf@.len() as int),
        ensures
            final(self).structural_ok(),
            r is Some <==> old(self).epr@[addr.spec_ep_id() as int].stat_tx
                != EPStat::Valid.spec_bits(),
            r is None ==> *final(self) == *old(self),
            r is Some ==> ({
                let ep = addr.spec_ep_id() as int;
                let t = old(self).pma.tx_addr(ep) as int;
                &&& final(self).epr@ == old(self).epr@.update(ep,
                    Epr { stat_tx: EPStat::Valid.spec_bits(), ..old(self).epr@[ep] })
                &&& final(self).pma.tx_addr(ep) == old(self).pma.tx_addr(ep)
                &&& final(self).pma.tx_count(ep) == buf@.len()
                &&& final(self).pma.bytes_at(t, buf@.len() as int) == buf@
                &&& forall|j: int| 0 <= j < PMA_CELLS && j != 4 * ep + 1
                    && !(t / 2 <= j < t / 2 + (buf@.len() + 1) as int / 2)
                    ==> final(self).pma.spec_cell(j) == old(self).pma.spec_cell(j)
                &&& *final(self) == (UsbKbd {
                    epr: final(self).epr,
                    pma: final(self).pma,
                    ..*old(self)
                })
            }),
    {
        let ep_id = addr.ep_id();
        let e = self.epr[ep_id as usize];
        if e.stat_tx == EPStat::Valid.bits() {
            return None;
        }
        let mut entry = self.pma.btable_entry(ep_id);
        let t = entry.tx.addr();
        entry.tx.set_count(buf.len() as u16);
        self.pma.set_btable_entry(ep_id, entry);
        copy_to_pm(&mut self.pma, t, buf);
        let e = self.epr[ep_id as usize];
        let w = invariant_mask(write_from(&e));
        let w = set_tx_stat(&e, w, EPStat::Valid.bits());
        let e2 = e.apply(w);
        proof {
            assert(old(self).epr@[ep_id as int].wf());
            crate::epreg::lemma_stat_xor_zero(e.stat_rx);
            crate::epreg::lemma_stat_toggle_lands(e.stat_tx, EPStat::Valid.spec_bits());
            crate::epreg::lemma_mask2_id(e.ep_type);
            crate::epreg::lemma_mask4_id(e.ea);
        }
        self.epr_store(ep_id, e2);
        Some(())
    }

    /// Reads a received packet out of an endpoint's RX buffer: up to
    /// `min(buf.len(), count)` bytes, then clears CTR_RX and toggles
    /// STAT_RX back to VALID.  `None` while the buffer is still VALID (no
    /// packet has landed).
    pub fn ep_read_packet(&mut self, addr: EPAddr, buf: &mut Vec<u8>) -> (r: Option<()>)
        requires
            old(self).structural_ok(),
            addr.spec_ep_id() < 8,
            old(self).rx_region_ok(addr.spec_ep_id() as int, old(buf)@.len() as int),
        ensures
            final(self).structural_ok(),
            final(buf)@.len() == old(buf)@.len(),
            r is Some <==> old(self).epr@[addr.spec_ep_id() as int].stat_rx
                != EPStat::Valid.spec_bits(),
            r is None ==> *final(self) == *old(self) && final(buf)@ == old(buf)@,
            r is Some ==> ({
                let ep = addr.spec_ep_id() as int;
                let ra = old(self).pma.rx_addr(ep) as int;
                let n: int = if old(buf)@.len() <= old(self).pma.rx_count(ep) {
                    old(buf)@.len() as int
                } else {
                    old(self).pma.rx_count(ep) as int
                };
                &&& final(buf)@ == old(self).pma.bytes_at(ra, n) + old(buf)@.skip(n)
                &&& final(self).epr@ == old(self).epr@.update(ep, Epr {
                    ctr_rx: false,
                    setup: false,
                    stat_rx: EPStat::Valid.spec_bits(),
                    ..old(self).epr@[ep]
                })
                &&& *final(self) == (UsbKbd { epr: final(self).epr, ..*old(self) })
            }),
    {
        let ep_id = addr.ep_id();
        let e = self.epr[ep_id as usize];
        if e.stat_rx == EPStat::Valid.bits() {
            return None;
        }

        let entry = self.pma.btable_entry(ep_id);
        let ra = entry.rx.addr();
        let count = entry.rx.count() as usize;
        let len = buf.len();
        let n = if len < count { len } else { count };
        let mut i: usize = 0;
        while i < n
            invariant
                i <= n,
                n <= buf@.len(),
                buf@.len() == old(buf)@.len(),
                ra == old(self).pma.rx_addr(ep_id as int),
                ra % 2 == 0,
                ra + n <= PMA_BYTES,
                self == old(self),
                self.pma.wf(),
                forall|j: int| 0 <= j < i ==> buf@[j] == self.pma.byte(ra + j),
                forall|j: int| i <= j < buf@.len() ==> buf@[j] == old(buf)@[j],
            decreases n - i,
        {
            let cell = self.pma.read_cell((ra as usize + i) / 2);
            let b: u8 = if i % 2 == 0 {
                (cell & 0xFF) as u8
            } else {
                (cell >> 8) as u8
            };
            proof {
                assert((ra as usize + i) / 2 == (ra + i as int) / 2);
                assert((ra + i as int) % 2 == i as int % 2);
            }
            buf[i] = b;
            i += 1;
        }
        proof {
            assert(buf@ =~= old(self).pma.bytes_at(ra as int, n as int)
                + old(buf)@.skip(n as int));
        }
        self.ep_clear_ctr_rx(ep_id);
        let e = self.epr[ep_id as usize];
        let w = invariant_mask(write_from(&e));
        let w = set_rx_stat(&e, w, EPStat::Valid.bits());
        let e2 = e.apply(w);
        proof {
            assert(old(self).epr@[ep_id as int].wf());
            assert(e == (Epr { ctr_rx: false, setup: false, ..old(self).epr@[ep_id as int] }));
            crate::epreg::lemma_stat_xor_zero(e.stat_tx);
            crate::epreg::lemma_stat_toggle_lands(e.stat_rx, EPStat::Valid.spec_bits());
            crate::epreg::lemma_mask2_id(e.ep_type);
            crate::epreg::lemma_mask4_id(e.ea);
        }
        self.epr_store(ep_id, e2);
        proof {
            assert(self.epr@ =~= old(self).epr@.update(ep_id as int, Epr {
                ctr_rx: false,
                setup: false,
                stat_rx: EPStat::Valid.spec_bits(),
                ..old(self).epr@[ep_id as int]
            }));
        }
        Some(())
    }

    /// Ships one 8-byte HID report on the interrupt IN endpoint; `None`
    /// means the previous report has not been picked up yet and this one is
    /// dropped.
    pub fn hid_send_keys(&mut self, keys: &[u8]) -> (r: Option<()>)
        requires
            old(self).structural_ok(),
            old(self).tx_region_ok(1, keys@.len() as int),
        ensures
            final(self).structural_ok(),
            r is Some <==> old(self).epr@[1].stat_tx != EPStat::Valid.spec_bits(),
            r is None ==> *final(self) == *old(self),
            r is Some ==> ({
                let t = old(self).pma.tx_addr(1) as int;
                &&& final(self).epr@ == old(self).epr@.update(1,
                    Epr { stat_tx: EPStat::Valid.spec_bits(), ..old(self).epr@[1] })
                &&& final(self).pma.tx_count(1) == keys@.len()
                &&& final(self).pma.bytes_at(t, keys@.len() as int) == keys@
                &&& forall|j: int| 0 <= j < PMA_CELLS && j != 5
                    && !(t / 2 <= j < t / 2 + (keys@.len() + 1) as int / 2)
                    ==> final(self).pma.spec_cell(j) == old(self).pma.spec_cell(j)
                &&& *final(self) == (UsbKbd {
                    epr: final(self).epr,
                    pma: final(self).pma,
                    ..*old(self)
                })
            }),
    {
        proof {
            assert(0x81u8 & 0x7F == 1) by (bit_vector);
        }
        self.ep_write_packet(EPAddr::new(0x81), keys)
    }

    /// Handles a bus reset: interrupt status cleared, the PMA allocator
    /// wound back to just past the BTABLE, endpoint 0 re-armed as a control
    /// endpoint with max packet 64, and the address register returned to 0.
    pub fn reset(&mut self)
        requires
            old(self).structural_ok(),
            old(self).ctrl_state.wf(),
        ensures
            final(self).wf(),
            final(self).pm_top == 192,
            final(self).daddr == 0,
            final(self).ef,
            final(self).istr == (Istr { reset: false, ctr: false, dir: false, ep_id: 0 }),
            final(self).pma.tx_addr(0) == 64,
            final(self).pma.tx_count(0) == 0,
            final(self).pma.rx_addr(0) == 128,
            final(self).pma.rx_count(0) == spec_rx_count_field(64),
            final(self).epr@ == old(self).epr@.update(0,
                spec_ep_setup_epr(old(self).epr@[0], EPAddr(0), EPType::Control, true, true)),
            final(self).spec_allocs() == seq![(64u16, 64u16), (128u16, 64u16)],
            forall|j: int| 4 <= j < PMA_CELLS
                ==> final(self).pma.spec_cell(j) == old(self).pma.spec_cell(j),
            final(self).ctrl_state == old(self).ctrl_state,
            final(self).pending_addr == old(self).pending_addr,
            *final(self) == (UsbKbd {
                epr: final(self).epr,
                pma: final(self).pma,
                pm_top: final(self).pm_top,
                allocs: final(self).allocs,
                istr: final(self).istr,
                daddr: final(self).daddr,
                ef: final(self).ef,
                ..*old(self)
            }),
    {
        self.istr = Istr::cleared();
        self.pm_top = BTABLE_SIZE;
        self.allocs = Ghost(Seq::empty());
        let size = self.device_descr.bMaxPacketSize0 as u16;
        proof {
            assert(0u8 & 0x7F == 0) by (bit_vector);
            assert(0u8 & 0x80 == 0) by (bit_vector);
            assert(0u8 & 0xF == 0) by (bit_vector);
            assert((((((((64u16 - 1) as u16) >> 5) & 0x1F) + 1) as u16) << 5) == 64u16)
                by (bit_vector);
        }
        self.ep_setup(EPAddr::new(0), EPType::Control, size);
        self.set_addr(0);
        proof {
            assert(self.spec_allocs() =~= seq![(64u16, 64u16), (128u16, 64u16)]);
        }
    }

    /// Brings the peripheral up: a reset, then interrupts unmasked and the
    /// forced-reset and power-down bits released.
    pub fn setup(&mut self)
        requires
            old(self).structural_ok(),
            old(self).ctrl_state.wf(),
        ensures
            final(self).wf(),
            final(self).pm_top == 192,
            final(self).daddr == 0,
            !final(self).cntr_pdwn,
            !final(self).cntr_fres,
            final(self).cntr_resetm,
            final(self).cntr_ctrm,
            final(self).epr@ == old(self).epr@.update(0,
                spec_ep_setup_epr(old(self).epr@[0], EPAddr(0), EPType::Control, true, true)),
            final(self).ctrl_state == old(self).ctrl_state,
            final(self).pending_addr == old(self).pending_addr,
    {
        self.reset();
        self.cntr_pdwn = false;
        self.cntr_resetm = true;
        self.cntr_ctrm = true;
        self.cntr_fres = false;
    }
}


/// The descriptor bytes GET_DESCRIPTOR serves, by the high byte of wValue;
/// `None` is NotSupported.
pub open spec fn spec_descr_data(req: DeviceRequest) -> Option<Seq<u8>> {
    let kind = req.wValue & 0xFF00;
    let idx = req.wValue & 0xFF;
    if kind == 0x0100 {
        Some(spec_device_descr().spec_bytes())
    } else if kind == 0x0200 {
        Some(spec_config_descr_bytes())
    } else if kind == 0x0300 {
        if idx == 0 {
            Some(spec_string_descr0())
        } else if 1 <= idx && idx <= STRING_COUNT {
            Some(spec_string_descr_data(idx as int))
        } else {
            None
        }
    } else if kind == 0x2200 {
        Some(spec_hid_report_descr())
    } else {
        None
    }
}

/// The string descriptor for string index `idx`, built in the 64-byte
/// staging buffer: {length, 0x03} then the UTF-16LE units that fit.
pub open spec fn spec_string_descr_data(idx: int) -> Seq<u8> {
    let u = utf16(spec_string(idx));
    let nfit = spec_units_that_fit(u, 64);
    seq![(2 + 2 * nfit) as u8, 3u8] + bytes_of_cells(u.take(nfit), 2 * nfit)
}

/// True when the standard-request dispatch answers Handled.
pub open spec fn spec_handles(pre: UsbKbd, req: DeviceRequest) -> bool {
    ||| req.bRequest == 0x05
    ||| (req.bRequest == 0x06 && spec_descr_data(req) is Some)
    ||| (req.bRequest == 0x09 && pre.pm_top + 8 <= PMA_BYTES)
}

/// The data staged for the IN data stage: the descriptor truncated to
/// wLength for GET_DESCRIPTOR, nothing for the other requests.
pub open spec fn spec_staged_data(req: DeviceRequest) -> Seq<u8> {
    if req.bRequest == 0x06 {
        match spec_descr_data(req) {
            Some(d) => d.take(
                if req.wLength <= d.len() {
                    req.wLength as int
                } else {
                    d.len() as int
                },
            ),
            None => Seq::empty(),
        }
    } else {
        Seq::empty()
    }
}

/// The eight bytes the SETUP read delivers: the packet in endpoint 0's RX
/// buffer, zero-filled if the count says fewer than eight landed.
pub open spec fn spec_setup_bytes(s: UsbKbd) -> Seq<u8> {
    let n: int = if 8 <= s.pma.rx_count(0) {
        8
    } else {
        s.pma.rx_count(0) as int
    };
    s.pma.bytes_at(128, n) + Seq::new((8 - n) as nat, |i: int| 0u8)
}

/// Endpoint 0 stalled: both statuses STALL, the scratch buffer parked in
/// `Stalled`, nothing else touched.
pub open spec fn rel_stall(pre: UsbKbd, post: UsbKbd) -> bool {
    &&& post.epr@ == pre.epr@.update(0, Epr {
        stat_tx: EPStat::Stall.spec_bits(),
        stat_rx: EPStat::Stall.spec_bits(),
        ..pre.epr@[0]
    })
    &&& post.ctrl_state is Stalled
    &&& post.ctrl_state.spec_buf() == pre.ctrl_state.spec_buf()
    &&& post == (UsbKbd { epr: post.epr, ctrl_state: post.ctrl_state, ..pre })
}

/// The zero-length OUT of the status stage taken: back to `Idle`, CTR_RX
/// cleared and the receiver re-armed.
pub open spec fn rel_status_out(pre: UsbKbd, post: UsbKbd) -> bool {
    &&& post.ctrl_state is Idle
    &&& post.ctrl_state.spec_buf() == pre.ctrl_state.spec_buf()
    &&& if pre.epr@[0].stat_rx == EPStat::Valid.spec_bits() {
        post == (UsbKbd { ctrl_state: post.ctrl_state, ..pre })
    } else {
        &&& post.epr@ == pre.epr@.update(0, Epr {
            ctr_rx: false,
            setup: false,
            stat_rx: EPStat::Valid.spec_bits(),
            ..pre.epr@[0]
        })
        &&& post == (UsbKbd { epr: post.epr, ctrl_state: post.ctrl_state, ..pre })
    }
}

/// Outcome of dispatching a read-direction SETUP whose endpoint 0 register
/// held `e0` when the dispatch began (the SETUP read has already cleared
/// CTR_RX on it when this runs from the OUT handler).
#[verifier::opaque]
pub open spec fn rel_setup_read(pre: UsbKbd, e0: Epr, req: DeviceRequest, post: UsbKbd)
    -> bool {
    let handles = spec_handles(pre, req);
    if !handles {
        &&& post.epr@ == pre.epr@.update(0, Epr {
            stat_tx: EPStat::Stall.spec_bits(),
            stat_rx: EPStat::Stall.spec_bits(),
            ..e0
        })
        &&& post.ctrl_state is Stalled
        &&& post.ctrl_state.spec_buf() == pre.ctrl_state.spec_buf()
        &&& post == (UsbKbd { epr: post.epr, ctrl_state: post.ctrl_state, ..pre })
    } else {
        &&& (req.bRequest == 0x05 ==> post.pending_addr == Some((req.wValue as u8)))
        &&& (req.bRequest != 0x05 ==> post.pending_addr == pre.pending_addr)
        &&& post.daddr == pre.daddr
        &&& (req.bRequest != 0x09 ==> post.pm_top == pre.pm_top
            && post.allocs == pre.allocs)
        &&& (req.bRequest == 0x09 ==> post.pm_top == pre.pm_top + 8
            && post.pma.tx_addr(1) == pre.pm_top
            && post.pma.tx_count(1) == 0
            && post.epr@[1] == spec_ep_setup_epr(pre.epr@[1], EPAddr(0x81),
                EPType::Interrupt, true, false))
        &&& post.epr@.len() == 8
        &&& (forall|i: int| 0 <= i < 8 && i != 0 && !(req.bRequest == 0x09 && i == 1)
            ==> post.epr@[i] == pre.epr@[i])
        &&& (forall|j: int| 0 <= j < PMA_CELLS && j != 1 && !(32 <= j < 64)
            && !(req.bRequest == 0x09 && 4 <= j < 8)
            ==> post.pma.spec_cell(j) == pre.pma.spec_cell(j))
        &&& (req.wLength == 0 ==> {
            if e0.stat_tx != EPStat::Valid.spec_bits() {
                &&& post.ctrl_state is StatusIn
                &&& post.ctrl_state.spec_buf().len() == CTRL_BUF_LEN
                &&& post.pma.tx_count(0) == 0
                &&& post.epr@[0] == (Epr { stat_tx: EPStat::Valid.spec_bits(), ..e0 })
            } else {
                &&& post.ctrl_state is Stalled
                &&& post.epr@[0] == (Epr {
                    stat_tx: EPStat::Stall.spec_bits(),
                    stat_rx: EPStat::Stall.spec_bits(),
                    ..e0
                })
            }
        })
        &&& (req.wLength > 0 ==> {
            let d = spec_staged_data(req);
            let c: int = if d.len() <= 64 { d.len() as int } else { 64 };
            if e0.stat_tx != EPStat::Valid.spec_bits() {
                &&& post.pma.bytes_at(64, c) == d.take(c)
                &&& post.pma.tx_count(0) == c
                &&& post.epr@[0] == (Epr { stat_tx: EPStat::Valid.spec_bits(), ..e0 })
                &&& (c == 64 ==> (post.ctrl_state matches ControlState::DataIn {
                    cur: c2, req: r2 } && r2 == req && c2.wf()
                    && c2.buf@.len() == CTRL_BUF_LEN
                    && c2.buf@.take(c2.len as int) == d && c2.pos == c))
                &&& (c < 64 ==> (post.ctrl_state matches ControlState::LastDataIn {
                    cur: c2, req: r2 } && r2 == req && c2.wf()
                    && c2.buf@.len() == CTRL_BUF_LEN
                    && c2.buf@.take(c2.len as int) == d && c2.pos == c))
            } else {
                &&& post.ctrl_state is Stalled
                &&& post.epr@[0] == (Epr {
                    stat_tx: EPStat::Stall.spec_bits(),
                    stat_rx: EPStat::Stall.spec_bits(),
                    ..e0
                })
            }
        })
        &&& post == (UsbKbd {
            epr: post.epr,
            pma: post.pma,
            ctrl_state: post.ctrl_state,
            pending_addr: post.pending_addr,
            pm_top: post.pm_top,
            allocs: post.allocs,
            ..pre
        })
    }
}


/// Outcome of taking a SETUP event: read the request, then dispatch — or
/// nothing, when no packet is there to read.
pub open spec fn rel_handle_setup(pre: UsbKbd, post: UsbKbd) -> bool {
    if pre.epr@[0].stat_rx == EPStat::Valid.spec_bits() {
        post == pre
    } else {
        let req = spec_parse_request(spec_setup_bytes(pre));
        let e0 = Epr {
            ctr_rx: false,
            setup: false,
            stat_rx: EPStat::Valid.spec_bits(),
            ..pre.epr@[0]
        };
        if req.wLength == 0 || req.bmRequestType.spec_direction() == Direction::DeviceToHost {
            rel_setup_read(pre, e0, req, post)
        } else {
            &&& post.epr@ == pre.epr@.update(0, e0)
            &&& post == (UsbKbd { epr: post.epr, ..pre })
        }
    }
}

/// Outcome of an OUT completion on endpoint 0: a SETUP is handled whatever
/// the state; otherwise only `StatusOut` accepts it, and anything else
/// stalls the pipe.
pub open spec fn rel_ctrl_out(pre: UsbKbd, post: UsbKbd) -> bool {
    if pre.epr@[0].setup {
        rel_handle_setup(pre, post)
    } else {
        match pre.ctrl_state {
            ControlState::StatusOut { .. } => rel_status_out(pre, post),
            _ => rel_stall(pre, post),
        }
    }
}

/// One chunking step of the IN data stage: the next `min(64, rest)` bytes
/// of the cursor land in endpoint 0's TX buffer; a full chunk stays in
/// `DataIn`, a short one moves to `LastDataIn`.
pub open spec fn rel_data_in_step(pre: UsbKbd, e0: Epr, cur: ReadCursor,
    req: DeviceRequest, post: UsbKbd) -> bool {
    let rest = cur.spec_rest();
    let c: int = if rest <= 64 { rest } else { 64 };
    if e0.stat_tx != EPStat::Valid.spec_bits() {
        &&& post.pma.bytes_at(64, c) == cur.buf@.subrange(cur.pos as int, cur.pos + c)
        &&& post.pma.tx_count(0) == c
        &&& post.epr@ == pre.epr@.update(0, Epr {
            stat_tx: EPStat::Valid.spec_bits(),
            ..e0
        })
        &&& (c == 64 ==> (post.ctrl_state matches ControlState::DataIn { cur: c2, req: r2 }
            && r2 == req && c2.buf@ == cur.buf@ && c2.len == cur.len
            && c2.pos == cur.pos + c))
        &&& (c < 64 ==> (post.ctrl_state matches ControlState::LastDataIn {
            cur: c2, req: r2 }
            && r2 == req && c2.buf@ == cur.buf@ && c2.len == cur.len
            && c2.pos == cur.pos + c))
        &&& (forall|j: int| 0 <= j < PMA_CELLS && j != 1 && !(32 <= j < 64)
            ==> post.pma.spec_cell(j) == pre.pma.spec_cell(j))
        &&& post == (UsbKbd {
            epr: post.epr,
            pma: post.pma,
            ctrl_state: post.ctrl_state,
            ..pre
        })
    } else {
        &&& post.epr@ == pre.epr@.update(0, Epr {
            stat_tx: EPStat::Stall.spec_bits(),
            stat_rx: EPStat::Stall.spec_bits(),
            ..e0
        })
        &&& post.ctrl_state is Stalled
        &&& post.ctrl_state.spec_buf() == cur.buf@
        &&& post == (UsbKbd { epr: post.epr, ctrl_state: post.ctrl_state, ..pre })
    }
}

/// Outcome of an IN completion on endpoint 0, with `e0` the endpoint 0
/// register after the poll driver cleared CTR_TX: the data stage advances,
/// the last data packet arms the status stage, the status stage commits a
/// pending address and returns to `Idle`; any other state stalls.
pub open spec fn rel_ctrl_in(pre: UsbKbd, e0: Epr, post: UsbKbd) -> bool {
    match pre.ctrl_state {
        ControlState::DataIn { cur, req } => rel_data_in_step(pre, e0, cur, req, post),
        ControlState::LastDataIn { .. } => {
            &&& post.epr@ == pre.epr@.update(0, Epr {
                stat_rx: EPStat::Valid.spec_bits(),
                ..e0
            })
            &&& post.ctrl_state is StatusOut
            &&& post.ctrl_state.spec_buf() == pre.ctrl_state.spec_buf()
            &&& post == (UsbKbd { epr: post.epr, ctrl_state: post.ctrl_state, ..pre })
        },
        ControlState::StatusIn { .. } => {
            &&& post.ctrl_state is Idle
            &&& post.ctrl_state.spec_buf() == pre.ctrl_state.spec_buf()
            &&& (match pre.pending_addr {
                Some(a) => post.daddr == (a & 0x7F) && post.ef
                    && post.pending_addr is None,
                None => post.daddr == pre.daddr && post.ef == pre.ef
                    && post.pending_addr == pre.pending_addr,
            })
            &&& post.epr@ == pre.epr@.update(0, e0)
            &&& post == (UsbKbd {
                epr: post.epr,
                ctrl_state: post.ctrl_state,
                daddr: post.daddr,
                ef: post.ef,
                pending_addr: post.pending_addr,
                ..pre
            })
        },
        _ => {
            &&& post.epr@ == pre.epr@.update(0, Epr {
                stat_tx: EPStat::Stall.spec_bits(),
                stat_rx: EPStat::Stall.spec_bits(),
                ..e0
            })
            &&& post.ctrl_state is Stalled
            &&& post.ctrl_state.spec_buf() == pre.ctrl_state.spec_buf()
            &&& post == (UsbKbd { epr: post.epr, ctrl_state: post.ctrl_state, ..pre })
        },
    }
}

/// A bus reset's outcome: address 0, allocator wound back and endpoint 0
/// re-armed, the control pipe's state and any pending address untouched.
pub open spec fn rel_reset(pre: UsbKbd, post: UsbKbd) -> bool {
    &&& post.pm_top == 192
    &&& post.daddr == 0
    &&& post.ef
    &&& post.istr == (Istr { reset: false, ctr: false, dir: false, ep_id: 0 })
    &&& post.pma.tx_addr(0) == 64
    &&& post.pma.tx_count(0) == 0
    &&& post.pma.rx_addr(0) == 128
    &&& post.epr@ == pre.epr@.update(0,
        spec_ep_setup_epr(pre.epr@[0], EPAddr(0), EPType::Control, true, true))
    &&& post.ctrl_state == pre.ctrl_state
    &&& post.pending_addr == pre.pending_addr
    &&& (forall|j: int| 4 <= j < PMA_CELLS ==> post.pma.spec_cell(j) == pre.pma.spec_cell(j))
    &&& post == (UsbKbd {
        epr: post.epr,
        pma: post.pma,
        pm_top: post.pm_top,
        allocs: post.allocs,
        istr: post.istr,
        daddr: post.daddr,
        ef: post.ef,
        ..pre
    })
}


impl UsbKbd {
    /// Takes the control-pipe state out, leaving a placeholder, so a
    /// transition can consume it by value.
    fn ctrl_take_state(&mut self) -> (st: ControlState)
        ensures
            st == old(self).ctrl_state,
            *final(self) == (UsbKbd { ctrl_state: final(self).ctrl_state, ..*old(self) }),
            final(self).ctrl_state is Idle,
    {
        let mut st = ControlState::Idle { buf: Vec::new() };
        core::mem::swap(&mut st, &mut self.ctrl_state);
        st
    }

    /// Reads the SETUP packet out of endpoint 0's RX buffer; `None` when no
    /// packet has landed.
    #[verifier::rlimit(100)]
    #[verifier::spinoff_prover]
    pub fn ctrl_read_req(&mut self) -> (r: Option<DeviceRequest>)
        requires
            old(self).hw_ok(),
        ensures
            final(self).hw_ok(),
            r is Some <==> old(self).epr@[0].stat_rx != EPStat::Valid.spec_bits(),
            r is None ==> *final(self) == *old(self),
            r is Some ==> ({
                &&& r == Some(spec_parse_request(spec_setup_bytes(*old(self))))
                &&& final(self).epr@ == old(self).epr@.update(0, Epr {
                    ctr_rx: false,
                    setup: false,
                    stat_rx: EPStat::Valid.spec_bits(),
                    ..old(self).epr@[0]
                })
                &&& *final(self) == (UsbKbd { epr: final(self).epr, ..*old(self) })
            }),
    {
        let mut buf: Vec<u8> = vec![0u8; 8];
        proof {
            assert(0u8 & 0x7F == 0) by (bit_vector);
            assert(0u8 & 0x80 == 0) by (bit_vector);
        }
        match self.ep_read_packet(EPAddr::new(0), &mut buf) {
            None => None,
            Some(_) => {
                proof {
                    assert(buf@ =~= spec_setup_bytes(*old(self)));
                }
                Some(DeviceRequest::from_bytes(buf.as_slice()))
            },
        }
    }

    /// Dispatches a standard read-direction request: records a pending
    /// address for SET_ADDRESS, stages the selected descriptor truncated to
    /// wLength for GET_DESCRIPTOR, arms the interrupt endpoint for
    /// SET_CONFIGURATION, and answers NotSupported to everything else.
    #[verifier::rlimit(100)]
    #[verifier::spinoff_prover]
    pub fn ctrl_handle_read_request(&mut self, req: &DeviceRequest, wcur: &mut WriteCursor)
        -> (st: RequestStatus)
        requires
            old(self).hw_ok(),
            old(wcur).wf(),
            old(wcur).buf@.len() == CTRL_BUF_LEN,
            old(wcur).len == 0,
        ensures
            final(self).hw_ok(),
            final(wcur).wf(),
            final(wcur).buf@.len() == CTRL_BUF_LEN,
            st == RequestStatus::Handled <==> spec_handles(*old(self), *req),
            req.bRequest == 0x05 ==> *final(self) == (UsbKbd {
                pending_addr: Some((req.wValue as u8)),
                ..*old(self)
            }) && *final(wcur) == *old(wcur),
            req.bRequest == 0x06 ==> *final(self) == *old(self)
                && (match spec_descr_data(*req) {
                    Some(d) => final(wcur).data() == spec_staged_data(*req)
                        && final(wcur).buf@.skip(final(wcur).len as int)
                            == old(wcur).buf@.skip(final(wcur).len as int),
                    None => *final(wcur) == *old(wcur),
                }),
            req.bRequest == 0x09 ==> *final(wcur) == *old(wcur)
                && (if old(self).pm_top + 8 <= PMA_BYTES {
                    &&& final(self).pm_top == old(self).pm_top + 8
                    &&& final(self).pma.tx_addr(1) == old(self).pm_top
                    &&& final(self).pma.tx_count(1) == 0
                    &&& final(self).epr@ == old(self).epr@.update(1,
                        spec_ep_setup_epr(old(self).epr@[1], EPAddr(0x81),
                            EPType::Interrupt, true, false))
                    &&& (forall|j: int| 0 <= j < PMA_CELLS && !(4 <= j < 8)
                        ==> final(self).pma.spec_cell(j) == old(self).pma.spec_cell(j))
                    &&& *final(self) == (UsbKbd {
                        epr: final(self).epr,
                        pma: final(self).pma,
                        pm_top: final(self).pm_top,
                        allocs: final(self).allocs,
                        ..*old(self)
                    })
                } else {
                    *final(self) == *old(self)
                }),
            !(req.bRequest == 0x05 || req.bRequest == 0x06 || req.bRequest == 0x09)
                ==> *final(self) == *old(self) && *final(wcur) == *old(wcur),
    {
        let mut str_buf: Vec<u8> = vec![0u8; 64];
        match req.bRequest {
            0x05 => {
                // SET_ADDRESS: only recorded here; committed when the
                // status stage completes.
                self.pending_addr = Some(#[verifier::truncate] (req.wValue as u8));
                RequestStatus::Handled
            },
            0x06 => {
                // GET_DESCRIPTOR
                let descr_index = req.wValue & 0xFF;
                let kind = req.wValue & 0xFF00;
                let bytes: Vec<u8>;
                if kind == 0x0100 {
                    bytes = self.device_descr.to_bytes();
                } else if kind == 0x0200 {
                    bytes = vstd::slice::slice_to_vec(self.config_descr.as_slice());
                } else if kind == 0x0300 {
                    if descr_index == 0 {
                        bytes = string_descr0();
                    } else if 1 <= descr_index && descr_index <= STRING_COUNT {
                        let str_data = string_data(descr_index);
                        proof {
                            reveal_strlit("KOBA789");
                            reveal_strlit("KB789 MK-C");
                            reveal_strlit("789");
                            lemma_utf16_len(spec_string(descr_index as int));
                        }
                        let slen = build_string_descr(&mut str_buf, str_data).unwrap();
                        bytes = vstd::slice::slice_to_vec(
                            vstd::slice::slice_subrange(str_buf.as_slice(), 0, slen));
                        proof {
                            assert(bytes@ =~= spec_string_descr_data(descr_index as int));
                        }
                    } else {
                        return RequestStatus::NotSupported;
                    }
                } else if kind == 0x2200 {
                    bytes = hid_report_descr();
                } else {
                    return RequestStatus::NotSupported;
                }
                let n = if (req.wLength as usize) < bytes.len() {
                    req.wLength as usize
                } else {
                    bytes.len()
                };
                proof {
                    assert(spec_config_descr_bytes().len() == 34);
                    assert(bytes@.len() <= CTRL_BUF_LEN);
                }
                wcur.write(vstd::slice::slice_subrange(bytes.as_slice(), 0, n));
                proof {
                    assert(old(wcur).data() =~= Seq::<u8>::empty());
                    assert(wcur.data() =~= spec_staged_data(*req));
                }
                RequestStatus::Handled
            },
            0x09 => {
                // SET_CONFIGURATION: arm the interrupt IN endpoint.
                if self.pm_top <= PMA_BYTES - 8 {
                    proof {
                        assert(0x81u8 & 0x7F == 1) by (bit_vector);
                        assert(0x81u8 & 0x80 == 0x80) by (bit_vector);
                    }
                    self.ep_setup(EPAddr::new(0x81), EPType::Interrupt, 8);
                    RequestStatus::Handled
                } else {
                    RequestStatus::NotSupported
                }
            },
            _ => RequestStatus::NotSupported,
        }
    }

    /// Sends the next chunk of an IN data stage and returns the state the
    /// pipe moves to.
    #[verifier::rlimit(100)]
    #[verifier::spinoff_prover]
    pub fn ctrl_send_chunk(&mut self, cur: ReadCursor, req: DeviceRequest)
        -> (st: ControlState)
        requires
            old(self).hw_ok(),
            cur.wf(),
            cur.buf@.len() == CTRL_BUF_LEN,
        ensures
            final(self).hw_ok(),
            st.wf(),
            ({
                let rest = cur.spec_rest();
                let c: int = if rest <= 64 { rest } else { 64 };
                if old(self).epr@[0].stat_tx != EPStat::Valid.spec_bits() {
                    &&& final(self).pma.bytes_at(64, c)
                        == cur.buf@.subrange(cur.pos as int, cur.pos + c)
                    &&& final(self).pma.tx_count(0) == c
                    &&& final(self).epr@ == old(self).epr@.update(0, Epr {
                        stat_tx: EPStat::Valid.spec_bits(),
                        ..old(self).epr@[0]
                    })
                    &&& (c == 64 ==> (st matches ControlState::DataIn { cur: c2, req: r2 }
                        && r2 == req && c2.buf@ == cur.buf@ && c2.len == cur.len
                        && c2.pos == cur.pos + c))
                    &&& (c < 64 ==> (st matches ControlState::LastDataIn { cur: c2, req: r2 }
                        && r2 == req && c2.buf@ == cur.buf@ && c2.len == cur.len
                        && c2.pos == cur.pos + c))
                    &&& (forall|j: int| 0 <= j < PMA_CELLS && j != 1 && !(32 <= j < 64)
                        ==> final(self).pma.spec_cell(j) == old(self).pma.spec_cell(j))
                    &&& *final(self) == (UsbKbd {
                        epr: final(self).epr,
                        pma: final(self).pma,
                        ..*old(self)
                    })
                } else {
                    &&& final(self).epr@ == old(self).epr@.update(0, Epr {
                        stat_tx: EPStat::Stall.spec_bits(),
                        stat_rx: EPStat::Stall.spec_bits(),
                        ..old(self).epr@[0]
                    })
                    &&& (st matches ControlState::Stalled { buf } && buf@ == cur.buf@)
                    &&& *final(self) == (UsbKbd { epr: final(self).epr, ..*old(self) })
                }
            }),
    {
        let b_max_packet_size0 = self.device_descr.bMaxPacketSize0 as usize;
        let mut cur = cur;
        let chunk = cur.read(b_max_packet_size0);
        proof {
            assert(0u8 & 0x7F == 0) by (bit_vector);
        }
        let ghost gcur = cur;
        match self.ep_write_packet(EPAddr::new(0), chunk.as_slice()) {
            Some(_) => {
                let st = if b_max_packet_size0 > chunk.len() {
                    ControlState::LastDataIn { cur, req }
                } else {
                    ControlState::DataIn { cur, req }
                };
                proof {
                    assert(st.spec_buf() == gcur.buf@);
                    assert(st.wf());
                }
                st
            },
            None => {
                proof {
                    assert(0u8 & 0x80 == 0) by (bit_vector);
                }
                self.ep_stall(EPAddr::new(0));
                let st = ControlState::Stalled { buf: cur.into_buf() };
                proof {
                    assert(st.spec_buf() == gcur.buf@);
                    assert(st.wf());
                }
                st
            },
        }
    }

    /// Finishes a handled no-data request: arms the zero-length IN of the
    /// status stage, or stalls when the transmitter was still busy.
    #[verifier::rlimit(100)]
    #[verifier::spinoff_prover]
    fn ctrl_finish_zlp(&mut self, buf: Vec<u8>, req: DeviceRequest, Ghost(pre): Ghost<UsbKbd>)
        requires
            old(self).hw_ok(),
            spec_handles(pre, req),
            req.wLength == 0,
            buf@.len() == CTRL_BUF_LEN,
            old(self).epr@[0] == pre.epr@[0],
            pre.epr@.len() == 8,
            req.bRequest == 0x05 ==> old(self).pending_addr == Some((req.wValue as u8)),
            req.bRequest != 0x05 ==> old(self).pending_addr == pre.pending_addr,
            req.bRequest != 0x09 ==> old(self).pm_top == pre.pm_top
                && old(self).allocs == pre.allocs
                && old(self).pma == pre.pma
                && old(self).epr == pre.epr,
            req.bRequest == 0x09 ==> ({
                &&& old(self).pm_top == pre.pm_top + 8
                &&& old(self).pma.tx_addr(1) == pre.pm_top
                &&& old(self).pma.tx_count(1) == 0
                &&& old(self).epr@ == pre.epr@.update(1,
                    spec_ep_setup_epr(pre.epr@[1], EPAddr(0x81), EPType::Interrupt, true,
                        false))
                &&& forall|j: int| 0 <= j < PMA_CELLS && !(4 <= j < 8)
                    ==> old(self).pma.spec_cell(j) == pre.pma.spec_cell(j)
            }),
            *old(self) == (UsbKbd {
                epr: old(self).epr,
                pma: old(self).pma,
                pending_addr: old(self).pending_addr,
                pm_top: old(self).pm_top,
                allocs: old(self).allocs,
                ctrl_state: old(self).ctrl_state,
                ..pre
            }),
        ensures
            final(self).wf(),
            rel_setup_read(pre, pre.epr@[0], req, *final(self)),
    {
        let empty: Vec<u8> = Vec::new();
        proof {
            assert(0u8 & 0x7F == 0) by (bit_vector);
            assert(0u8 & 0x80 == 0) by (bit_vector);
        }
        match self.ep_write_packet(EPAddr::new(0), empty.as_slice()) {
            Some(_) => {
                self.ctrl_state = ControlState::StatusIn { buf };
            },
            None => {
                self.ep_stall(EPAddr::new(0));
                self.ctrl_state = ControlState::Stalled { buf };
            },
        }
        proof {
            assert(rel_setup_read(pre, pre.epr@[0], req, *self)) by {
                reveal(rel_setup_read);
            }
        }
    }

    /// Begins serving a read-direction SETUP: dispatch, then either a
    /// zero-length handshake, the first data chunk, or a stall.
    #[verifier::rlimit(100)]
    #[verifier::spinoff_prover]
    pub fn ctrl_setup_read(&mut self, req: DeviceRequest)
        requires
            old(self).wf(),
        ensures
            final(self).wf(),
            rel_setup_read(*old(self), old(self).epr@[0], req, *final(self)),
    {
        let st = self.ctrl_take_state();
        let buf = st.into_buf();
        let mut wcur = WriteCursor::new(buf);
        match self.ctrl_handle_read_request(&req, &mut wcur) {
            RequestStatus::NotSupported => {
                proof {
                    assert(0u8 & 0x7F == 0) by (bit_vector);
                    assert(0u8 & 0x80 == 0) by (bit_vector);
                }
                self.ep_stall(EPAddr::new(0));
                self.ctrl_state = ControlState::Stalled { buf: wcur.into_buf() };
                proof {
                    assert(rel_setup_read(*old(self), old(self).epr@[0], req, *self)) by {
                        reveal(rel_setup_read);
                    }
                }
            },
            RequestStatus::Handled => {
                if req.wLength == 0 {
                    let buf2 = wcur.into_buf();
                    self.ctrl_finish_zlp(buf2, req, Ghost(*old(self)));
                } else {
                    let cur = wcur.into_read();
                    let ghost gcur = cur;
                    let st2 = self.ctrl_send_chunk(cur, req);
                    self.ctrl_state = st2;
                    proof {
                        let d = spec_staged_data(req);
                        let c: int = if d.len() <= 64 { d.len() as int } else { 64 };
                        assert(gcur.buf@.take(gcur.len as int) =~= d);
                        assert(gcur.spec_rest() == d.len());
                        assert(gcur.buf@.subrange(0, c) =~= d.take(c));
                        assert(rel_setup_read(*old(self), old(self).epr@[0], req, *self))
                            by {
                            reveal(rel_setup_read);
                        }
                    }
                }
            },
        }
    }

    /// A write-direction request's data: nothing this device supports.
    pub fn ctrl_handle_write_request(&mut self, _req: DeviceRequest, _buf: &[u8])
        ensures
            *final(self) == *old(self),
    {
    }

    /// Begins serving a write-direction SETUP: this device supports none,
    /// so the data is ignored.
    pub fn ctrl_setup_write(&mut self, req: DeviceRequest)
        ensures
            *final(self) == *old(self),
    {
        let empty: Vec<u8> = Vec::new();
        self.ctrl_handle_write_request(req, empty.as_slice());
    }

    /// Takes a SETUP event: reads the request and dispatches it.
    #[verifier::rlimit(100)]
    #[verifier::spinoff_prover]
    pub fn ctrl_handle_setup(&mut self)
        requires
            old(self).wf(),
        ensures
            final(self).wf(),
            rel_handle_setup(*old(self), *final(self)),
    {
        proof {
            reveal(rel_setup_read);
        }
        let ghost pre = *old(self);
        match self.ctrl_read_req() {
            None => {},
            Some(req) => {
                let ghost mid = *self;
                let ghost e0 = Epr {
                    ctr_rx: false,
                    setup: false,
                    stat_rx: EPStat::Valid.spec_bits(),
                    ..pre.epr@[0]
                };
                proof {
                    assert(mid.epr@ == pre.epr@.update(0, e0));
                    assert(mid.epr@[0] == e0);
                }
                if req.wLength == 0 {
                    self.ctrl_setup_read(req);
                    proof {
                        lemma_rel_setup_read_pre(pre, mid, e0, req, *self);
                    }
                } else {
                    match req.bmRequestType.direction() {
                        Direction::HostToDevice => {
                            self.ctrl_setup_write(req);
                            proof {
                                assert(self.epr@ =~= pre.epr@.update(0, e0));
                                assert(*self == (UsbKbd { epr: self.epr, ..pre }));
                            }
                        },
                        Direction::DeviceToHost => {
                            self.ctrl_setup_read(req);
                            proof {
                                lemma_rel_setup_read_pre(pre, mid, e0, req, *self);
                            }
                        },
                    }
                }
            },
        }
    }

    /// Takes an IN completion on endpoint 0.
    #[verifier::rlimit(100)]
    #[verifier::spinoff_prover]
    pub fn ctrl_handle_in(&mut self)
        requires
            old(self).wf(),
        ensures
            final(self).wf(),
            rel_ctrl_in(*old(self), old(self).epr@[0], *final(self)),
    {
        let st = self.ctrl_take_state();
        match st {
            ControlState::DataIn { cur, req } => {
                let st2 = self.ctrl_send_chunk(cur, req);
                self.ctrl_state = st2;
            },
            ControlState::LastDataIn { cur, req: _ } => {
                let e = self.epr[0];
                let w = invariant_mask(write_from(&e));
                let w = set_rx_stat(&e, w, EPStat::Valid.bits());
                let e2 = e.apply(w);
                proof {
                    assert(old(self).epr@[0].wf());
                    crate::epreg::lemma_stat_xor_zero(e.stat_tx);
                    crate::epreg::lemma_stat_toggle_lands(e.stat_rx,
                        EPStat::Valid.spec_bits());
                    crate::epreg::lemma_mask2_id(e.ep_type);
                    crate::epreg::lemma_mask4_id(e.ea);
                }
                self.epr_store(0, e2);
                let mut empty: Vec<u8> = Vec::new();
                proof {
                    assert(0u8 & 0x7F == 0) by (bit_vector);
                }
                let _ = self.ep_read_packet(EPAddr::new(0), &mut empty);
                let buf = cur.into_buf();
                self.ctrl_state = ControlState::StatusOut { buf };
            },
            ControlState::StatusIn { buf } => {
                match self.pending_addr {
                    Some(addr) => {
                        self.set_addr(addr);
                        self.pending_addr = None;
                    },
                    None => {},
                }
                self.ctrl_state = ControlState::Idle { buf };
                proof {
                    assert(self.epr@ =~= old(self).epr@.update(0, old(self).epr@[0]));
                }
            },
            other => {
                proof {
                    assert(0u8 & 0x7F == 0) by (bit_vector);
                    assert(0u8 & 0x80 == 0) by (bit_vector);
                }
                self.ep_stall(EPAddr::new(0));
                let buf = other.into_buf();
                self.ctrl_state = ControlState::Stalled { buf };
            },
        }
    }

    /// Takes an OUT or SETUP completion on endpoint 0.
    #[verifier::rlimit(100)]
    #[verifier::spinoff_prover]
    pub fn ctrl_handle_out(&mut self)
        requires
            old(self).wf(),
        ensures
            final(self).wf(),
            rel_ctrl_out(*old(self), *final(self)),
    {
        let is_setup = self.epr[0].setup;
        if is_setup {
            self.ctrl_handle_setup();
            return;
        }

        let st = self.ctrl_take_state();
        match st {
            ControlState::StatusOut { buf } => {
                let mut empty: Vec<u8> = Vec::new();
                proof {
                    assert(0u8 & 0x7F == 0) by (bit_vector);
                }
                let _ = self.ep_read_packet(EPAddr::new(0), &mut empty);
                self.ctrl_state = ControlState::Idle { buf };
            },
            other => {
                proof {
                    assert(0u8 & 0x7F == 0) by (bit_vector);
                    assert(0u8 & 0x80 == 0) by (bit_vector);
                }
                self.ep_stall(EPAddr::new(0));
                self.ctrl_state = ControlState::Stalled { buf: other.into_buf() };
            },
        }
    }

    /// An IN completion on the interrupt endpoint needs no action:
    /// transmission is initiated by the input layer.
    pub fn hid_handle_in(&mut self)
        ensures
            *final(self) == *old(self),
    {
    }

    /// Drains one pending event: a bus reset re-initialises the stack; a
    /// completed transfer is demultiplexed to the owning endpoint and
    /// direction.  The device address register changes only on a reset or
    /// when a status stage completes with an address pending.
    #[verifier::rlimit(100)]
    #[verifier::spinoff_prover]
    pub fn usb_poll(&mut self)
        requires
            old(self).wf(),
        ensures
            final(self).wf(),
            old(self).istr.reset ==> rel_reset(*old(self), *final(self)),
            !old(self).istr.reset && !old(self).istr.ctr ==> *final(self) == *old(self),
            ({
                let ist = old(self).istr;
                &&& (!ist.reset && ist.ctr && ist.dir && ist.ep_id == 0
                    ==> rel_ctrl_out(*old(self), *final(self)))
                &&& (!ist.reset && ist.ctr && ist.dir && 0 < ist.ep_id < 8
                    ==> final(self).epr@ == old(self).epr@.update(ist.ep_id as int, Epr {
                        ctr_rx: false,
                        setup: false,
                        ..old(self).epr@[ist.ep_id as int]
                    }) && *final(self) == (UsbKbd { epr: final(self).epr, ..*old(self) }))
                &&& (!ist.reset && ist.ctr && ist.dir && ist.ep_id >= 8
                    ==> *final(self) == *old(self))
                &&& (!ist.reset && ist.ctr && !ist.dir && ist.ep_id == 0
                    ==> rel_ctrl_in(*old(self),
                        Epr { ctr_tx: false, ..old(self).epr@[0] }, *final(self)))
                &&& (!ist.reset && ist.ctr && !ist.dir && 0 < ist.ep_id < 8
                    ==> final(self).epr@ == old(self).epr@.update(ist.ep_id as int, Epr {
                        ctr_tx: false,
                        ..old(self).epr@[ist.ep_id as int]
                    }) && *final(self) == (UsbKbd { epr: final(self).epr, ..*old(self) }))
                &&& (!ist.reset && ist.ctr && !ist.dir && ist.ep_id >= 8
                    ==> *final(self) == *old(self))
            }),
            final(self).daddr != old(self).daddr ==> old(self).istr.reset
                || (old(self).ctrl_state is StatusIn && old(self).pending_addr is Some
                    && old(self).istr.ctr && !old(self).istr.dir
                    && old(self).istr.ep_id == 0),
    {
        proof {
            reveal(rel_setup_read);
        }
        let istr_r = self.istr;
        if istr_r.reset {
            self.reset();
            return;
        }

        let ep_id = istr_r.ep_id;
        if istr_r.ctr {
            if istr_r.dir {
                // OUT or SETUP completed.
                if ep_id == 0 {
                    self.ctrl_handle_out();
                } else if ep_id < 8 {
                    self.ep_clear_ctr_rx(ep_id);
                }
            } else {
                // IN completed.
                if ep_id < 8 {
                    self.ep_clear_ctr_tx(ep_id);
                }
                if ep_id == 0 {
                    let ghost pre = *old(self);
                    let ghost mid = *self;
                    let ghost e0 = Epr { ctr_tx: false, ..pre.epr@[0] };
                    proof {
                        assert(mid.epr@ == pre.epr@.update(0, e0));
                        assert(mid.epr@[0] == e0);
                    }
                    self.ctrl_handle_in();
                    proof {
                        lemma_rel_ctrl_in_pre(pre, mid, e0, *self);
                    }
                } else if ep_id == 1 {
                    self.hid_handle_in();
                }
            }
        }
    }
}


/// Dispatch outcomes do not depend on endpoint 0's register being read
/// through the intermediate state: the register at dispatch entry is what
/// matters.
pub proof fn lemma_rel_setup_read_pre(pre: UsbKbd, mid: UsbKbd, e0: Epr,
    req: DeviceRequest, post: UsbKbd)
    requires
        pre.epr@.len() == 8,
        mid.epr@ == pre.epr@.update(0, e0),
        mid == (UsbKbd { epr: mid.epr, ..pre }),
        rel_setup_read(mid, e0, req, post),
    ensures
        rel_setup_read(pre, e0, req, post),
{
    reveal(rel_setup_read);
    assert(spec_handles(mid, req) == spec_handles(pre, req));
    if !spec_handles(pre, req) {
        assert(post.epr@ =~= pre.epr@.update(0, Epr {
            stat_tx: EPStat::Stall.spec_bits(),
            stat_rx: EPStat::Stall.spec_bits(),
            ..e0
        }));
        assert(post == (UsbKbd { epr: post.epr, ctrl_state: post.ctrl_state, ..pre }));
    } else {
        assert(forall|i: int| 0 <= i < 8 && i != 0 ==> mid.epr@[i] == pre.epr@[i]);
        assert(post == (UsbKbd {
            epr: post.epr,
            pma: post.pma,
            ctrl_state: post.ctrl_state,
            pending_addr: post.pending_addr,
            pm_top: post.pm_top,
            allocs: post.allocs,
            ..pre
        }));
    }
}

/// The same for an IN completion: the handler's outcome depends on the
/// endpoint 0 register it was handed, not on how it got there.
pub proof fn lemma_rel_ctrl_in_pre(pre: UsbKbd, mid: UsbKbd, e0: Epr, post: UsbKbd)
    requires
        pre.epr@.len() == 8,
        mid.epr@ == pre.epr@.update(0, e0),
        mid == (UsbKbd { epr: mid.epr, ..pre }),
        rel_ctrl_in(mid, e0, post),
    ensures
        rel_ctrl_in(pre, e0, post),
{
    match pre.ctrl_state {
        ControlState::DataIn { cur, req } => {
            let rest = cur.spec_rest();
            let c: int = if rest <= 64 { rest } else { 64 };
            if e0.stat_tx != EPStat::Valid.spec_bits() {
                assert(post.epr@ =~= pre.epr@.update(0, Epr {
                    stat_tx: EPStat::Valid.spec_bits(),
                    ..e0
                }));
                assert(post == (UsbKbd {
                    epr: post.epr,
                    pma: post.pma,
                    ctrl_state: post.ctrl_state,
                    ..pre
                }));
            } else {
                assert(post.epr@ =~= pre.epr@.update(0, Epr {
                    stat_tx: EPStat::Stall.spec_bits(),
                    stat_rx: EPStat::Stall.spec_bits(),
                    ..e0
                }));
                assert(post == (UsbKbd { epr: post.epr, ctrl_state: post.ctrl_state,
                    ..pre }));
            }
        },
        ControlState::LastDataIn { .. } => {
            assert(post.epr@ =~= pre.epr@.update(0, Epr {
                stat_rx: EPStat::Valid.spec_bits(),
                ..e0
            }));
            assert(post == (UsbKbd { epr: post.epr, ctrl_state: post.ctrl_state, ..pre }));
        },
        ControlState::StatusIn { .. } => {
            assert(post.epr@ =~= pre.epr@.update(0, e0));
            assert(post == (UsbKbd {
                epr: post.epr,
                ctrl_state: post.ctrl_state,
                daddr: post.daddr,
                ef: post.ef,
                pending_addr: post.pending_addr,
                ..pre
            }));
        },
        _ => {
            assert(post.epr@ =~= pre.epr@.update(0, Epr {
                stat_tx: EPStat::Stall.spec_bits(),
                stat_rx: EPStat::Stall.spec_bits(),
                ..e0
            }));
            assert(post == (UsbKbd { epr: post.epr, ctrl_state: post.ctrl_state, ..pre }));
        },
    }
}


/// The packets of an IN data stage over staged data `d` with packet size
/// `ps`: full packets while the data lasts, ended by the first short
/// (possibly empty) packet.
pub open spec fn chunks_of(d: Seq<u8>, ps: int) -> Seq<Seq<u8>>
    decreases d.len() when ps >= 1
{
    if d.len() < ps {
        seq![d]
    } else {
        seq![d.take(ps)] + chunks_of(d.skip(ps), ps)
    }
}

/// The IN data stage as a whole: its packets concatenate back to exactly
/// the staged data — for a served descriptor, the canonical bytes
/// truncated to `min(wLength, length)` — every packet except the last is a
/// full one, and the transfer ends on the first short or empty packet.
pub proof fn lemma_chunks_cover(d: Seq<u8>, ps: int)
    requires
        ps >= 1,
    ensures
        chunks_of(d, ps).len() >= 1,
        chunks_of(d, ps).flatten() == d,
        forall|i: int| 0 <= i < chunks_of(d, ps).len() - 1
            ==> (#[trigger] chunks_of(d, ps)[i]).len() == ps,
        chunks_of(d, ps).last().len() < ps,
    decreases d.len(),
{
    let c = chunks_of(d, ps);
    if d.len() < ps {
        c.lemma_flatten_one_element();
    } else {
        lemma_chunks_cover(d.skip(ps), ps);
        let rest = chunks_of(d.skip(ps), ps);
        vstd::seq_lib::lemma_flatten_concat(seq![d.take(ps)], rest);
        seq![d.take(ps)].lemma_flatten_one_element();
        assert(c.flatten() =~= d);
        assert forall|i: int| 0 <= i < c.len() - 1 implies (#[trigger] c[i]).len() == ps by {
            if i >= 1 {
                assert(c[i] == rest[i - 1]);
            }
        }
        assert(c.last() == rest.last());
    }
}

/// Each packet of the stage is the slice the cursor deals out at position
/// `i * ps`: the i-th chunking step (`rel_data_in_step` with the cursor at
/// `pos == i * ps`) sends exactly `chunks_of(d, ps)[i]`.
pub proof fn lemma_chunk_at(d: Seq<u8>, ps: int, i: int)
    requires
        ps >= 1,
        0 <= i < chunks_of(d, ps).len(),
    ensures
        i * ps <= d.len(),
        chunks_of(d, ps)[i] == d.subrange(i * ps,
            if d.len() <= i * ps + ps {
                d.len() as int
            } else {
                i * ps + ps
            }),
    decreases i,
{
    if i == 0 {
        if d.len() < ps {
            assert(chunks_of(d, ps)[0] =~= d.subrange(0, d.len() as int));
        } else {
            assert(chunks_of(d, ps)[0] =~= d.subrange(0, ps));
        }
    } else {
        let tail = d.skip(ps);
        lemma_chunk_at(tail, ps, i - 1);
        assert(chunks_of(d, ps)[i] == chunks_of(tail, ps)[i - 1]);
        assert((i - 1) * ps + ps == i * ps) by (nonlinear_arith);
        let lo = (i - 1) * ps;
        let hi = if tail.len() <= lo + ps {
            tail.len() as int
        } else {
            lo + ps
        };
        assert(tail.subrange(lo, hi) =~= d.subrange(lo + ps, hi + ps));
    }
}

} // verus!
