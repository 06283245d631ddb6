//! Packet memory (PMA) model and copy routines.
//!
//! The peripheral's packet memory is 512 bytes of dual-ported SRAM that
//! software sees as 16-bit cells on a 32-bit stride; the top half of every
//! 32-bit word is padding.  The model keeps only the meaningful cells: 256
//! cells of 16 bits, cell `i` backing PMA bytes `2*i` and `2*i + 1`.
//!
//! The buffer descriptor table (BTABLE) occupies the first 64 bytes: for each
//! endpoint number a pair of {addr, count} entries (TX then RX), each entry
//! one cell.

use vstd::prelude::*;

verus! {

/// Size of packet memory in bytes.
pub const PMA_BYTES: u16 = 512;

/// Number of 16-bit cells backing packet memory.
pub const PMA_CELLS: usize = 256;

/// Size of the buffer descriptor table in bytes.
pub const BTABLE_SIZE: u16 = 64;

/// Low byte of a 16-bit cell.
pub open spec fn lo_byte(c: u16) -> u8 {
    (c & 0xFF) as u8
}

/// High byte of a 16-bit cell.
pub open spec fn hi_byte(c: u16) -> u8 {
    (c >> 8) as u8
}

/// The 16-bit cell holding `lo` in its low byte and `hi` in its high byte.
pub open spec fn cell_of(lo: u8, hi: u8) -> u16 {
    (lo as u16) | ((hi as u16) << 8)
}

pub proof fn lemma_cell_of_bytes(lo: u8, hi: u8)
    ensures
        lo_byte(cell_of(lo, hi)) == lo,
        hi_byte(cell_of(lo, hi)) == hi,
{
    assert(((lo as u16) | ((hi as u16) << 8)) & 0xFF == lo as u16) by (bit_vector);
    assert((((lo as u16) | ((hi as u16) << 8)) >> 8) == hi as u16) by (bit_vector);
}

pub proof fn lemma_cell_split(c: u16)
    ensures
        cell_of(lo_byte(c), hi_byte(c)) == c,
{
    assert((((c & 0xFF) as u8) as u16) | ((((c >> 8) as u8) as u16) << 8) == c) by (bit_vector);
}

/// The cells a byte buffer is packed into: two bytes per cell,
/// little-endian, an odd tail zero-extended into the final cell.
pub open spec fn cells_of_bytes(b: Seq<u8>) -> Seq<u16> {
    Seq::new(((b.len() + 1) / 2) as nat, |i: int|
        if 2 * i + 1 < b.len() {
            cell_of(b[2 * i], b[2 * i + 1])
        } else {
            cell_of(b[2 * i], 0)
        })
}

/// The first `n` bytes stored in a sequence of cells.
pub open spec fn bytes_of_cells(c: Seq<u16>, n: int) -> Seq<u8> {
    Seq::new(n as nat, |i: int|
        if i % 2 == 0 {
            lo_byte(c[i / 2])
        } else {
            hi_byte(c[i / 2])
        })
}

/// Packing a byte buffer into cells and unpacking it again gives the
/// original buffer back, for every byte length.
pub proof fn lemma_pma_roundtrip(b: Seq<u8>)
    ensures
        bytes_of_cells(cells_of_bytes(b), b.len() as int) == b,
{
    let r = bytes_of_cells(cells_of_bytes(b), b.len() as int);
    assert forall|i: int| 0 <= i < b.len() implies r[i] == b[i] by {
        let c = cells_of_bytes(b)[i / 2];
        if i % 2 == 0 {
            if 2 * (i / 2) + 1 < b.len() {
                lemma_cell_of_bytes(b[i], b[i + 1]);
            } else {
                lemma_cell_of_bytes(b[i], 0);
            }
        } else {
            lemma_cell_of_bytes(b[i - 1], b[i]);
        }
    }
    assert(r =~= b);
}

/// The packet memory model: 256 cells of 16 bits.
pub struct Pma {
    pub cells: Vec<u16>,
}

impl Pma {
    pub open spec fn wf(self) -> bool {
        self.cells@.len() == PMA_CELLS
    }

    pub open spec fn spec_cell(self, i: int) -> u16 {
        self.cells@[i]
    }

    /// The byte at PMA byte offset `i`.
    pub open spec fn byte(self, i: int) -> u8 {
        if i % 2 == 0 {
            lo_byte(self.spec_cell(i / 2))
        } else {
            hi_byte(self.spec_cell(i / 2))
        }
    }

    /// The `n` bytes starting at PMA byte offset `addr`.
    pub open spec fn bytes_at(self, addr: int, n: int) -> Seq<u8> {
        Seq::new(n as nat, |k: int| self.byte(addr + k))
    }

    /// Fresh packet memory, all cells zero.
    pub fn new() -> (r: Pma)
        ensures
            r.wf(),
            forall|i: int| 0 <= i < PMA_CELLS ==> r.spec_cell(i) == 0,
    {
        let cells: Vec<u16> = vec![0u16; PMA_CELLS];
        Pma { cells }
    }

    /// Writes zero to the whole region; called once during bring-up.
    pub fn fill_with_zero(&mut self)
        requires
            old(self).wf(),
        ensures
            final(self).wf(),
            forall|i: int| 0 <= i < PMA_CELLS ==> final(self).spec_cell(i) == 0,
    {
        let mut i: usize = 0;
        while i < PMA_CELLS
            invariant
                self.wf(),
                i <= PMA_CELLS,
                forall|j: int| 0 <= j < i ==> self.cells@[j] == 0,
            decreases PMA_CELLS - i,
        {
            self.cells[i] = 0;
            i += 1;
        }
    }

    pub fn read_cell(&self, i: usize) -> (r: u16)
        requires
            self.wf(),
            i < PMA_CELLS,
        ensures
            r == self.spec_cell(i as int),
    {
        self.cells[i]
    }

    pub fn write_cell(&mut self, i: usize, v: u16)
        requires
            old(self).wf(),
            i < PMA_CELLS,
        ensures
            final(self).wf(),
            final(self).cells@ == old(self).cells@.update(i as int, v),
    {
        self.cells[i] = v;
    }
}

/// The count field written for an RX buffer of at least `min_size` bytes:
/// `num_block` in bits 10..15, with the "large" bit set for block size 32.
pub open spec fn spec_rx_count_field(min_size: u16) -> u16 {
    if min_size > 62 {
        ((((((min_size - 1) as u16) >> 5) & 0x1F) | 0x20) << 10) as u16
    } else {
        ((((min_size + 1) as u16) >> 1) << 10) as u16
    }
}

/// The number of bytes actually reserved for an RX buffer of at least
/// `min_size` bytes: `num_block * 2` below 62, `(num_block + 1) * 32` above.
pub open spec fn spec_rx_alloc_size(min_size: u16) -> u16 {
    if min_size > 62 {
        (((((((min_size - 1) as u16) >> 5) & 0x1F) + 1) as u16) << 5) as u16
    } else {
        ((((min_size + 1) as u16) >> 1) << 1) as u16
    }
}

/// A TX entry of the buffer descriptor table: PMA byte address of the
/// buffer and the byte count to transmit.
#[derive(Clone, Copy, PartialEq, Eq, Structural)]
pub struct BTableTxEntry {
    pub addr: u16,
    pub count: u16,
}

impl BTableTxEntry {
    pub fn addr(&self) -> (r: u16)
        ensures
            r == self.addr,
    {
        self.addr
    }

    pub fn set_addr(&mut self, value: u16)
        ensures
            *final(self) == (BTableTxEntry { addr: value, ..*old(self) }),
    {
        self.addr = value;
    }

    pub fn count(&self) -> (r: u16)
        ensures
            r == self.count,
    {
        self.count
    }

    pub fn set_count(&mut self, value: u16)
        ensures
            *final(self) == (BTableTxEntry { count: value, ..*old(self) }),
    {
        self.count = value;
    }
}

/// An RX entry of the buffer descriptor table: PMA byte address of the
/// buffer and a count field holding the block-size encoding plus, after a
/// reception, the received byte count.
#[derive(Clone, Copy, PartialEq, Eq, Structural)]
pub struct BTableRxEntry {
    pub addr: u16,
    pub count: u16,
}

impl BTableRxEntry {
    pub fn addr(&self) -> (r: u16)
        ensures
            r == self.addr,
    {
        self.addr
    }

    pub fn set_addr(&mut self, value: u16)
        ensures
            *final(self) == (BTableRxEntry { addr: value, ..*old(self) }),
    {
        self.addr = value;
    }

    pub fn count(&self) -> (r: u16)
        ensures
            r == self.count,
    {
        self.count
    }

    pub fn set_count(&mut self, value: u16)
        ensures
            *final(self) == (BTableRxEntry { count: value, ..*old(self) }),
    {
        self.count = value;
    }

    /// Programs the block-size encoding for a buffer of at least `min_size`
    /// bytes and returns the number of bytes actually reserved, so the PMA
    /// allocator can advance correctly.
    pub fn set_buf_size(&mut self, min_size: u16) -> (r: u16)
        requires
            min_size <= PMA_BYTES,
        ensures
            *final(self) == (BTableRxEntry {
                count: spec_rx_count_field(min_size),
                ..*old(self)
            }),
            r == spec_rx_alloc_size(min_size),
            r % 2 == 0,
            min_size <= r,
            min_size <= 62 ==> r <= min_size + 1,
            min_size > 62 ==> r <= min_size + 31,
    {
        if min_size > 62 {
            let num_block = ((min_size - 1) >> 5) & 0b1_1111;
            assert((((min_size - 1) as u16) >> 5) & 0x1F < 32) by (bit_vector);
            self.set_count((num_block | 0b10_0000) << 10);
            let r = (num_block + 1) << 5;
            assert(62 < min_size <= 512 ==> {
                let nb = (((min_size - 1) as u16) >> 5) & 0x1F;
                &&& ((((nb + 1) as u16) << 5) as u16) % 2 == 0
                &&& min_size <= ((((nb + 1) as u16) << 5) as u16)
                &&& ((((nb + 1) as u16) << 5) as u16) <= min_size + 31
            }) by (bit_vector);
            r
        } else {
            let num_block = (min_size + 1) >> 1;
            self.set_count(num_block << 10);
            let r = num_block << 1;
            assert(min_size <= 62 ==> {
                let nb = ((min_size + 1) as u16) >> 1;
                &&& ((nb << 1) as u16) % 2 == 0
                &&& min_size <= ((nb << 1) as u16)
                &&& ((nb << 1) as u16) <= min_size + 1
            }) by (bit_vector);
            r
        }
    }
}

/// The BTABLE entry pair for one endpoint number.
#[derive(Clone, Copy, PartialEq, Eq, Structural)]
pub struct BTableEntry {
    pub tx: BTableTxEntry,
    pub rx: BTableRxEntry,
}

impl Pma {
    /// TX buffer address of endpoint `ep`, as stored in the BTABLE.
    pub open spec fn tx_addr(self, ep: int) -> u16 {
        self.spec_cell(4 * ep)
    }

    /// TX byte count of endpoint `ep`.
    pub open spec fn tx_count(self, ep: int) -> u16 {
        self.spec_cell(4 * ep + 1)
    }

    /// RX buffer address of endpoint `ep`.
    pub open spec fn rx_addr(self, ep: int) -> u16 {
        self.spec_cell(4 * ep + 2)
    }

    /// RX count field of endpoint `ep`.
    pub open spec fn rx_count(self, ep: int) -> u16 {
        self.spec_cell(4 * ep + 3)
    }

    pub open spec fn spec_btable_entry(self, ep: int) -> BTableEntry {
        BTableEntry {
            tx: BTableTxEntry { addr: self.tx_addr(ep), count: self.tx_count(ep) },
            rx: BTableRxEntry { addr: self.rx_addr(ep), count: self.rx_count(ep) },
        }
    }

    /// Reads the BTABLE entry pair of an endpoint number; the entry for
    /// endpoint `ep` lives `ep * 16` bytes of address space (8 bytes of PMA)
    /// from the PMA base, TX then RX.
    pub fn btable_entry(&self, ep_id: u8) -> (r: BTableEntry)
        requires
            self.wf(),
            ep_id < 8,
        ensures
            r == self.spec_btable_entry(ep_id as int),
    {
        let base = 4 * (ep_id as usize);
        BTableEntry {
            tx: BTableTxEntry { addr: self.cells[base], count: self.cells[base + 1] },
            rx: BTableRxEntry { addr: self.cells[base + 2], count: self.cells[base + 3] },
        }
    }

    /// Writes back the BTABLE entry pair of an endpoint number.
    pub fn set_btable_entry(&mut self, ep_id: u8, e: BTableEntry)
        requires
            old(self).wf(),
            ep_id < 8,
        ensures
            final(self).wf(),
            final(self).spec_btable_entry(ep_id as int) == e,
            forall|j: int| 0 <= j < PMA_CELLS && !(4 * ep_id <= j < 4 * ep_id + 4)
                ==> final(self).spec_cell(j) == old(self).spec_cell(j),
    {
        let base = 4 * (ep_id as usize);
        self.cells[base] = e.tx.addr;
        self.cells[base + 1] = e.tx.count;
        self.cells[base + 2] = e.rx.addr;
        self.cells[base + 3] = e.rx.count;
    }
}

/// Copies a byte buffer into packet memory starting at (even) byte offset
/// `addr`.  An odd-length tail is zero-extended into the final cell.
pub fn copy_to_pm(pma: &mut Pma, addr: u16, buf: &[u8])
    requires
        old(pma).wf(),
        addr % 2 == 0,
        addr + buf@.len() <= PMA_BYTES,
    ensures
        final(pma).wf(),
        final(pma).cells@.subrange(addr as int / 2, addr as int / 2 + (buf@.len() + 1) as int / 2)
            == cells_of_bytes(buf@),
        forall|j: int|
            0 <= j < PMA_CELLS && !(addr / 2 <= j < addr as int / 2 + (buf@.len() + 1) as int / 2)
                ==> final(pma).spec_cell(j) == old(pma).spec_cell(j),
        final(pma).bytes_at(addr as int, buf@.len() as int) == buf@,
{
    let base: usize = (addr / 2) as usize;
    let pairs: usize = buf.len() / 2;
    let mut k: usize = 0;
    while k < pairs
        invariant
            pma.wf(),
            k <= pairs,
            pairs == buf@.len() / 2,
            base == addr as int / 2,
            addr % 2 == 0,
            addr + buf@.len() <= PMA_BYTES,
            forall|j: int| 0 <= j < k ==> pma.spec_cell(base + j) == cells_of_bytes(buf@)[j],
            forall|j: int| 0 <= j < PMA_CELLS && !(base <= j < base + k)
                ==> pma.spec_cell(j) == old(pma).spec_cell(j),
        decreases pairs - k,
    {
        let lo = buf[2 * k];
        let hi = buf[2 * k + 1];
        let c: u16 = (lo as u16) | ((hi as u16) << 8);
        pma.cells[base + k] = c;
        k += 1;
    }
    if buf.len() % 2 == 1 {
        let lo = buf[buf.len() - 1];
        let c: u16 = lo as u16;
        assert((lo as u16) | ((0u8 as u16) << 8) == lo as u16) by (bit_vector);
        assert(c == cell_of(lo, 0));
        pma.cells[base + pairs] = c;
    }
    proof {
        let nc = (buf@.len() + 1) as int / 2;
        assert forall|j: int| 0 <= j < nc
            implies pma.spec_cell(base + j) == cells_of_bytes(buf@)[j] by {}
        assert(pma.cells@.subrange(addr as int / 2, addr as int / 2 + nc)
            =~= cells_of_bytes(buf@));
        lemma_pma_roundtrip(buf@);
        assert forall|i: int| 0 <= i < buf@.len()
            implies pma.byte(addr + i) == buf@[i] by {
            let bc = bytes_of_cells(cells_of_bytes(buf@), buf@.len() as int);
            assert((addr + i) / 2 == addr as int / 2 + i / 2);
            assert((addr + i) % 2 == i % 2);
            assert(pma.spec_cell(addr as int / 2 + i / 2) == cells_of_bytes(buf@)[i / 2]);
            assert(bc[i] == buf@[i]);
        }
        assert(pma.bytes_at(addr as int, buf@.len() as int) =~= buf@);
    }
}

/// Copies `buf.len()` bytes out of packet memory starting at (even) byte
/// offset `addr`, skipping the padding half-words.  Inverse of
/// [`copy_to_pm`] over the bytes it wrote.
pub fn copy_from_pm(buf: &mut Vec<u8>, pma: &Pma, addr: u16)
    requires
        pma.wf(),
        addr % 2 == 0,
        addr + old(buf)@.len() <= PMA_BYTES,
    ensures
        final(buf)@ == pma.bytes_at(addr as int, old(buf)@.len() as int),
        final(buf)@.len() == old(buf)@.len(),
{
    let n = buf.len();
    let mut i: usize = 0;
    while i < n
        invariant
            pma.wf(),
            i <= n,
            buf@.len() == n,
            addr % 2 == 0,
            addr + n <= PMA_BYTES,
            forall|j: int| 0 <= j < i ==> buf@[j] == pma.byte(addr + j),
        decreases n - i,
    {
        let cell = pma.cells[(addr as usize + i) / 2];
        let b: u8 = if i % 2 == 0 {
            (cell & 0xFF) as u8
        } else {
            (cell >> 8) as u8
        };
        proof {
            assert((addr as usize + i) / 2 == (addr + i as int) / 2);
            assert((addr as usize + i) % 2 == (addr + i as int) % 2);
            assert((addr + i as int) % 2 == i as int % 2);
        }
        buf[i] = b;
        i += 1;
    }
    proof {
        assert(buf@ =~= pma.bytes_at(addr as int, n as int));
    }
}

} // verus!
