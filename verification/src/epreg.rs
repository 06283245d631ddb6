//! Endpoint register model and the toggle-XOR write discipline.
//!
//! An endpoint register mixes three field classes:
//! - invariant (read-write) bits: endpoint address `ea`, `ep_type`,
//!   `ep_kind` — the written value lands as is;
//! - toggle bits: `stat_tx`, `stat_rx`, `dtog_tx`, `dtog_rx` — the hardware
//!   XORs the written value into the current one, so writing 0 leaves them
//!   unchanged;
//! - rc_w0 bits: `ctr_tx`, `ctr_rx` — hardware-set, software-cleared by
//!   writing 0; writing 1 preserves them.
//!
//! [`spec_apply`] is the hardware's view of a register write.  Every write
//! the stack performs starts from [`invariant_mask`], which preserves the
//! CTR bits and zeroes every toggle bit it does not intend to change.

use vstd::prelude::*;

verus! {

/// Endpoint status values for `stat_tx` / `stat_rx`.
#[derive(Debug, Clone, Copy, PartialEq, Eq, Structural)]
pub enum EPStat {
    Disabled,
    Stall,
    Nak,
    Valid,
}

impl EPStat {
    pub open spec fn spec_bits(self) -> u8 {
        match self {
            EPStat::Disabled => 0b00,
            EPStat::Stall => 0b01,
            EPStat::Nak => 0b10,
            EPStat::Valid => 0b11,
        }
    }

    pub fn bits(&self) -> (r: u8)
        ensures
            r == self.spec_bits(),
    {
        match self {
            EPStat::Disabled => 0b00,
            EPStat::Stall => 0b01,
            EPStat::Nak => 0b10,
            EPStat::Valid => 0b11,
        }
    }
}

/// Endpoint transfer types for `ep_type`.
#[derive(Debug, Clone, Copy, PartialEq, Eq, Structural)]
pub enum EPType {
    Bulk,
    Control,
    Isochronous,
    Interrupt,
}

impl EPType {
    pub open spec fn spec_bits(self) -> u8 {
        match self {
            EPType::Bulk => 0b00,
            EPType::Control => 0b01,
            EPType::Isochronous => 0b10,
            EPType::Interrupt => 0b11,
        }
    }

    pub fn bits(&self) -> (r: u8)
        ensures
            r == self.spec_bits(),
    {
        match self {
            EPType::Bulk => 0b00,
            EPType::Control => 0b01,
            EPType::Isochronous => 0b10,
            EPType::Interrupt => 0b11,
        }
    }
}

/// The value of one endpoint register, field by field.
#[derive(Debug, Clone, Copy, PartialEq, Eq, Structural)]
pub struct Epr {
    /// Correct-transfer flag, RX side (rc_w0).
    pub ctr_rx: bool,
    /// Data toggle, RX side (toggle).
    pub dtog_rx: bool,
    /// RX status, 2 bits (toggle).
    pub stat_rx: u8,
    /// Set by hardware when the completed RX transaction was a SETUP;
    /// read-only, cleared together with `ctr_rx`.
    pub setup: bool,
    /// Endpoint type, 2 bits (read-write).
    pub ep_type: u8,
    /// Endpoint kind (read-write).
    pub ep_kind: bool,
    /// Correct-transfer flag, TX side (rc_w0).
    pub ctr_tx: bool,
    /// Data toggle, TX side (toggle).
    pub dtog_tx: bool,
    /// TX status, 2 bits (toggle).
    pub stat_tx: u8,
    /// Endpoint address, 4 bits (read-write).
    pub ea: u8,
}

impl Epr {
    pub open spec fn wf(self) -> bool {
        &&& self.stat_rx < 4
        &&& self.stat_tx < 4
        &&& self.ep_type < 4
        &&& self.ea < 16
    }

    /// The register's reset value: everything zero.
    pub fn reset_value() -> (r: Epr)
        ensures
            r == spec_reset_value(),
    {
        Epr {
            ctr_rx: false,
            dtog_rx: false,
            stat_rx: 0,
            setup: false,
            ep_type: 0,
            ep_kind: false,
            ctr_tx: false,
            dtog_tx: false,
            stat_tx: 0,
            ea: 0,
        }
    }
}

pub open spec fn spec_reset_value() -> Epr {
    Epr {
        ctr_rx: false,
        dtog_rx: false,
        stat_rx: 0,
        setup: false,
        ep_type: 0,
        ep_kind: false,
        ctr_tx: false,
        dtog_tx: false,
        stat_tx: 0,
        ea: 0,
    }
}

/// The value software puts on the bus when writing an endpoint register.
/// The `setup` flag has no write-side counterpart: it is read-only.
#[derive(Debug, Clone, Copy, PartialEq, Eq, Structural)]
pub struct EprWrite {
    pub ctr_rx: bool,
    pub dtog_rx: bool,
    pub stat_rx: u8,
    pub ep_type: u8,
    pub ep_kind: bool,
    pub ctr_tx: bool,
    pub dtog_tx: bool,
    pub stat_tx: u8,
    pub ea: u8,
}

/// What the hardware makes of writing `w` over current value `r`:
/// read-write fields land (masked to their width), toggle fields are XORed,
/// rc_w0 fields are ANDed, and the SETUP flag clears with `ctr_rx`.
pub open spec fn spec_apply(r: Epr, w: EprWrite) -> Epr {
    Epr {
        ctr_rx: r.ctr_rx && w.ctr_rx,
        dtog_rx: r.dtog_rx != w.dtog_rx,
        stat_rx: (r.stat_rx ^ (w.stat_rx & 3)) as u8,
        setup: r.setup && w.ctr_rx,
        ep_type: (w.ep_type & 3) as u8,
        ep_kind: w.ep_kind,
        ctr_tx: r.ctr_tx && w.ctr_tx,
        dtog_tx: r.dtog_tx != w.dtog_tx,
        stat_tx: (r.stat_tx ^ (w.stat_tx & 3)) as u8,
        ea: (w.ea & 0xF) as u8,
    }
}

/// XOR of two 2-bit values stays below 4.
pub proof fn lemma_stat_xor_wf(a: u8, b: u8)
    requires
        a < 4,
    ensures
        (a ^ (b & 3)) < 4,
{
    assert(a < 4 ==> (a ^ (b & 3)) < 4) by (bit_vector);
}

impl Epr {
    /// Performs a register write with the hardware's semantics.
    pub fn apply(self, w: EprWrite) -> (r: Epr)
        ensures
            r == spec_apply(self, w),
            self.wf() ==> r.wf(),
    {
        proof {
            lemma_stat_xor_wf(if self.stat_rx < 4 { self.stat_rx } else { 0 }, w.stat_rx);
            if self.wf() {
                lemma_stat_xor_wf(self.stat_rx, w.stat_rx);
                lemma_stat_xor_wf(self.stat_tx, w.stat_tx);
            }
            let wt = w.ep_type;
            let wa = w.ea;
            assert((wt & 3) < 4) by (bit_vector);
            assert((wa & 0xF) < 16) by (bit_vector);
        }
        Epr {
            ctr_rx: self.ctr_rx && w.ctr_rx,
            dtog_rx: self.dtog_rx != w.dtog_rx,
            stat_rx: self.stat_rx ^ (w.stat_rx & 3),
            setup: self.setup && w.ctr_rx,
            ep_type: w.ep_type & 3,
            ep_kind: w.ep_kind,
            ctr_tx: self.ctr_tx && w.ctr_tx,
            dtog_tx: self.dtog_tx != w.dtog_tx,
            stat_tx: self.stat_tx ^ (w.stat_tx & 3),
            ea: w.ea & 0xF,
        }
    }
}

/// The seed of a read-modify-write: the write value starts as a copy of the
/// current register, as the hardware presents it to software.
pub open spec fn spec_write_from(r: Epr) -> EprWrite {
    EprWrite {
        ctr_rx: r.ctr_rx,
        dtog_rx: r.dtog_rx,
        stat_rx: r.stat_rx,
        ep_type: r.ep_type,
        ep_kind: r.ep_kind,
        ctr_tx: r.ctr_tx,
        dtog_tx: r.dtog_tx,
        stat_tx: r.stat_tx,
        ea: r.ea,
    }
}

pub fn write_from(r: &Epr) -> (w: EprWrite)
    ensures
        w == spec_write_from(*r),
{
    EprWrite {
        ctr_rx: r.ctr_rx,
        dtog_rx: r.dtog_rx,
        stat_rx: r.stat_rx,
        ep_type: r.ep_type,
        ep_kind: r.ep_kind,
        ctr_tx: r.ctr_tx,
        dtog_tx: r.dtog_tx,
        stat_tx: r.stat_tx,
        ea: r.ea,
    }
}

/// The invariant part of every endpoint-register write: CTR bits written 1
/// (preserve), every toggle bit written 0 (leave unchanged).
pub open spec fn spec_invariant_mask(w: EprWrite) -> EprWrite {
    EprWrite {
        ctr_rx: true,
        dtog_rx: false,
        stat_rx: 0,
        ctr_tx: true,
        dtog_tx: false,
        stat_tx: 0,
        ..w
    }
}

pub fn invariant_mask(w: EprWrite) -> (r: EprWrite)
    ensures
        r == spec_invariant_mask(w),
{
    EprWrite {
        ctr_rx: true,
        dtog_rx: false,
        stat_rx: 0,
        ctr_tx: true,
        dtog_tx: false,
        stat_tx: 0,
        ..w
    }
}

/// Writes back the current TX data toggle, which the hardware XOR clears.
pub open spec fn spec_clear_tx_dtog(r: Epr, w: EprWrite) -> EprWrite {
    EprWrite { dtog_tx: r.dtog_tx, ..w }
}

pub fn clear_tx_dtog(r: &Epr, w: EprWrite) -> (res: EprWrite)
    ensures
        res == spec_clear_tx_dtog(*r, w),
{
    EprWrite { dtog_tx: r.dtog_tx, ..w }
}

/// Writes back the current RX data toggle, which the hardware XOR clears.
pub open spec fn spec_clear_rx_dtog(r: Epr, w: EprWrite) -> EprWrite {
    EprWrite { dtog_rx: r.dtog_rx, ..w }
}

pub fn clear_rx_dtog(r: &Epr, w: EprWrite) -> (res: EprWrite)
    ensures
        res == spec_clear_rx_dtog(*r, w),
{
    EprWrite { dtog_rx: r.dtog_rx, ..w }
}

/// Sets the TX status toggle field so that the write lands `stat` in it:
/// the XOR of the current value and the desired one.
pub open spec fn spec_set_tx_stat(r: Epr, w: EprWrite, stat: u8) -> EprWrite {
    EprWrite { stat_tx: (r.stat_tx ^ stat) as u8, ..w }
}

pub fn set_tx_stat(r: &Epr, w: EprWrite, stat: u8) -> (res: EprWrite)
    ensures
        res == spec_set_tx_stat(*r, w, stat),
{
    EprWrite { stat_tx: r.stat_tx ^ stat, ..w }
}

/// Sets the RX status toggle field so that the write lands `stat` in it.
pub open spec fn spec_set_rx_stat(r: Epr, w: EprWrite, stat: u8) -> EprWrite {
    EprWrite { stat_rx: (r.stat_rx ^ stat) as u8, ..w }
}

pub fn set_rx_stat(r: &Epr, w: EprWrite, stat: u8) -> (res: EprWrite)
    ensures
        res == spec_set_rx_stat(*r, w, stat),
{
    EprWrite { stat_rx: r.stat_rx ^ stat, ..w }
}

/// A status field is unchanged by a write whose toggle field is zero.
pub proof fn lemma_stat_xor_zero(a: u8)
    ensures
        (a ^ (0u8 & 3)) == a,
{
    assert((a ^ (0u8 & 3)) == a) by (bit_vector);
}

/// A 2-bit value is unchanged by its own mask.
pub proof fn lemma_mask2_id(a: u8)
    requires
        a < 4,
    ensures
        (a & 3) == a,
{
    assert(a < 4 ==> (a & 3) == a) by (bit_vector);
}

/// A 4-bit value is unchanged by its own mask.
pub proof fn lemma_mask4_id(a: u8)
    requires
        a < 16,
    ensures
        (a & 0xF) == a,
{
    assert(a < 16 ==> (a & 0xF) == a) by (bit_vector);
}

/// Writing the XOR of the current status and the desired one lands the
/// desired one.
pub proof fn lemma_stat_toggle_lands(a: u8, stat: u8)
    requires
        a < 4,
        stat < 4,
    ensures
        (a ^ (((a ^ stat) as u8) & 3)) == stat,
{
    assert(a < 4 && stat < 4 ==> (a ^ (((a ^ stat) as u8) & 3)) == stat) by (bit_vector);
}

/// A toggle-XOR write computed once lands the desired status; the same
/// write applied a second time restores the original status.  In
/// particular, applying the `set_tx_stat(VALID)` write twice returns the
/// register to its original `stat_tx`.
pub proof fn lemma_set_tx_stat_twice(r: Epr, stat: u8)
    requires
        r.wf(),
        stat < 4,
    ensures
        ({
            let w = spec_set_tx_stat(r, spec_invariant_mask(spec_write_from(r)), stat);
            &&& spec_apply(r, w).stat_tx == stat
            &&& spec_apply(spec_apply(r, w), w).stat_tx == r.stat_tx
        }),
{
    let a = r.stat_tx;
    assert(a < 4 && stat < 4 ==> (a ^ ((a ^ stat) & 3)) == stat) by (bit_vector);
    assert(a < 4 && stat < 4 ==> (((a ^ ((a ^ stat) & 3)) as u8) ^ ((a ^ stat) & 3)) == a)
        by (bit_vector);
}

/// The same involution on the RX side.
pub proof fn lemma_set_rx_stat_twice(r: Epr, stat: u8)
    requires
        r.wf(),
        stat < 4,
    ensures
        ({
            let w = spec_set_rx_stat(r, spec_invariant_mask(spec_write_from(r)), stat);
            &&& spec_apply(r, w).stat_rx == stat
            &&& spec_apply(spec_apply(r, w), w).stat_rx == r.stat_rx
        }),
{
    let a = r.stat_rx;
    assert(a < 4 && stat < 4 ==> (a ^ ((a ^ stat) & 3)) == stat) by (bit_vector);
    assert(a < 4 && stat < 4 ==> (((a ^ ((a ^ stat) & 3)) as u8) ^ ((a ^ stat) & 3)) == a)
        by (bit_vector);
}

} // verus!
