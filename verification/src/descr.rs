//! USB descriptor types, their wire encodings, and the string-descriptor
//! builder.
//!
//! Every descriptor is emitted with no padding and little-endian multi-byte
//! fields; each type's `spec_bytes` gives the exact wire image, and
//! `to_bytes` is proved to produce it.  String descriptors carry the
//! UTF-16LE encoding of the string after a 2-byte header; [`utf16`] and
//! [`decode_utf16`] specify the encoding, and
//! [`lemma_string_descr_roundtrip`] shows it loses nothing.

use vstd::prelude::*;
use crate::pma::{lo_byte, hi_byte, cell_of, cells_of_bytes, bytes_of_cells, lemma_cell_split};

verus! {

#[allow(non_snake_case)]
#[derive(Debug, Clone, Copy, PartialEq, Eq, Structural)]
pub struct DeviceDescriptor {
    pub bLength: u8,
    pub bDescriptorType: u8,
    pub bcdUSB: u16,
    pub bDeviceClass: u8,
    pub bDeviceSubClass: u8,
    pub bDeviceProtocol: u8,
    pub bMaxPacketSize0: u8,
    pub idVendor: u16,
    pub idProduct: u16,
    pub bcdDevice: u16,
    pub iManufacturer: u8,
    pub iProduct: u8,
    pub iSerialNumber: u8,
    pub bNumConfigurations: u8,
}

impl DeviceDescriptor {
    /// The 18-byte wire image.
    pub open spec fn spec_bytes(self) -> Seq<u8> {
        seq![
            self.bLength,
            self.bDescriptorType,
            lo_byte(self.bcdUSB),
            hi_byte(self.bcdUSB),
            self.bDeviceClass,
            self.bDeviceSubClass,
            self.bDeviceProtocol,
            self.bMaxPacketSize0,
            lo_byte(self.idVendor),
            hi_byte(self.idVendor),
            lo_byte(self.idProduct),
            hi_byte(self.idProduct),
            lo_byte(self.bcdDevice),
            hi_byte(self.bcdDevice),
            self.iManufacturer,
            self.iProduct,
            self.iSerialNumber,
            self.bNumConfigurations,
        ]
    }

    pub fn to_bytes(&self) -> (r: Vec<u8>)
        ensures
            r@ == self.spec_bytes(),
    {
        let mut r: Vec<u8> = Vec::new();
        r.push(self.bLength);
        r.push(self.bDescriptorType);
        r.push((self.bcdUSB & 0xFF) as u8);
        r.push((self.bcdUSB >> 8) as u8);
        r.push(self.bDeviceClass);
        r.push(self.bDeviceSubClass);
        r.push(self.bDeviceProtocol);
        r.push(self.bMaxPacketSize0);
        r.push((self.idVendor & 0xFF) as u8);
        r.push((self.idVendor >> 8) as u8);
        r.push((self.idProduct & 0xFF) as u8);
        r.push((self.idProduct >> 8) as u8);
        r.push((self.bcdDevice & 0xFF) as u8);
        r.push((self.bcdDevice >> 8) as u8);
        r.push(self.iManufacturer);
        r.push(self.iProduct);
        r.push(self.iSerialNumber);
        r.push(self.bNumConfigurations);
        proof {
            assert(r@ =~= self.spec_bytes());
        }
        r
    }
}

#[allow(non_snake_case)]
#[derive(Debug, Clone, Copy, PartialEq, Eq, Structural)]
pub struct ConfigDescriptor {
    pub bLength: u8,
    pub bDescriptorType: u8,
    pub wTotalLength: u16,
    pub bNumInterfaces: u8,
    pub bConfigurationValue: u8,
    pub iConfiguration: u8,
    pub bmAttributes: u8,
    pub bMaxPower: u8,
}

impl ConfigDescriptor {
    /// The 9-byte wire image.
    pub open spec fn spec_bytes(self) -> Seq<u8> {
        seq![
            self.bLength,
            self.bDescriptorType,
            lo_byte(self.wTotalLength),
            hi_byte(self.wTotalLength),
            self.bNumInterfaces,
            self.bConfigurationValue,
            self.iConfiguration,
            self.bmAttributes,
            self.bMaxPower,
        ]
    }

    pub fn to_bytes(&self) -> (r: Vec<u8>)
        ensures
            r@ == self.spec_bytes(),
    {
        let mut r: Vec<u8> = Vec::new();
        r.push(self.bLength);
        r.push(self.bDescriptorType);
        r.push((self.wTotalLength & 0xFF) as u8);
        r.push((self.wTotalLength >> 8) as u8);
        r.push(self.bNumInterfaces);
        r.push(self.bConfigurationValue);
        r.push(self.iConfiguration);
        r.push(self.bmAttributes);
        r.push(self.bMaxPower);
        proof {
            assert(r@ =~= self.spec_bytes());
        }
        r
    }
}

#[allow(non_snake_case)]
#[derive(Debug, Clone, Copy, PartialEq, Eq, Structural)]
pub struct InterfaceDescriptor {
    pub bLength: u8,
    pub bDescriptorType: u8,
    pub bInterfaceNumber: u8,
    pub bAlternateSetting: u8,
    pub bNumEndpoints: u8,
    pub bInterfaceClass: u8,
    pub bInterfaceSubClass: u8,
    pub bInterfaceProtocol: u8,
    pub iInterface: u8,
}

impl InterfaceDescriptor {
    /// The 9-byte wire image.
    pub open spec fn spec_bytes(self) -> Seq<u8> {
        seq![
            self.bLength,
            self.bDescriptorType,
            self.bInterfaceNumber,
            self.bAlternateSetting,
            self.bNumEndpoints,
            self.bInterfaceClass,
            self.bInterfaceSubClass,
            self.bInterfaceProtocol,
            self.iInterface,
        ]
    }

    pub fn to_bytes(&self) -> (r: Vec<u8>)
        ensures
            r@ == self.spec_bytes(),
    {
        let mut r: Vec<u8> = Vec::new();
        r.push(self.bLength);
        r.push(self.bDescriptorType);
        r.push(self.bInterfaceNumber);
        r.push(self.bAlternateSetting);
        r.push(self.bNumEndpoints);
        r.push(self.bInterfaceClass);
        r.push(self.bInterfaceSubClass);
        r.push(self.bInterfaceProtocol);
        r.push(self.iInterface);
        proof {
            assert(r@ =~= self.spec_bytes());
        }
        r
    }
}

#[allow(non_snake_case)]
#[derive(Debug, Clone, Copy, PartialEq, Eq, Structural)]
pub struct EndpointDescriptor {
    pub bLength: u8,
    pub bDescriptorType: u8,
    pub bEndpointAddress: u8,
    pub bmAttributes: u8,
    pub wMaxPacketSize: u16,
    pub bInterval: u8,
}

impl EndpointDescriptor {
    /// The 7-byte wire image.
    pub open spec fn spec_bytes(self) -> Seq<u8> {
        seq![
            self.bLength,
            self.bDescriptorType,
            self.bEndpointAddress,
            self.bmAttributes,
            lo_byte(self.wMaxPacketSize),
            hi_byte(self.wMaxPacketSize),
            self.bInterval,
        ]
    }

    pub fn to_bytes(&self) -> (r: Vec<u8>)
        ensures
            r@ == self.spec_bytes(),
    {
        let mut r: Vec<u8> = Vec::new();
        r.push(self.bLength);
        r.push(self.bDescriptorType);
        r.push(self.bEndpointAddress);
        r.push(self.bmAttributes);
        r.push((self.wMaxPacketSize & 0xFF) as u8);
        r.push((self.wMaxPacketSize >> 8) as u8);
        r.push(self.bInterval);
        proof {
            assert(r@ =~= self.spec_bytes());
        }
        r
    }
}

#[allow(non_snake_case)]
#[derive(Debug, Clone, Copy, PartialEq, Eq, Structural)]
pub struct HidDescriptor {
    pub bLength: u8,
    pub bDescriptorType: u8,
    pub bcdHID: u16,
    pub bCountryCode: u8,
    pub bNumDescriptors: u8,
}

impl HidDescriptor {
    /// The 6-byte wire image.
    pub open spec fn spec_bytes(self) -> Seq<u8> {
        seq![
            self.bLength,
            self.bDescriptorType,
            lo_byte(self.bcdHID),
            hi_byte(self.bcdHID),
            self.bCountryCode,
            self.bNumDescriptors,
        ]
    }

    pub fn to_bytes(&self) -> (r: Vec<u8>)
        ensures
            r@ == self.spec_bytes(),
    {
        let mut r: Vec<u8> = Vec::new();
        r.push(self.bLength);
        r.push(self.bDescriptorType);
        r.push((self.bcdHID & 0xFF) as u8);
        r.push((self.bcdHID >> 8) as u8);
        r.push(self.bCountryCode);
        r.push(self.bNumDescriptors);
        proof {
            assert(r@ =~= self.spec_bytes());
        }
        r
    }
}

/// Reference to one class-specific report descriptor inside a HID function
/// descriptor.
#[allow(non_snake_case)]
#[derive(Debug, Clone, Copy, PartialEq, Eq, Structural)]
pub struct HidReport {
    pub bReportDescriptorType: u8,
    pub wDescriptorLength: u16,
}

impl HidReport {
    /// The 3-byte wire image.
    pub open spec fn spec_bytes(self) -> Seq<u8> {
        seq![
            self.bReportDescriptorType,
            lo_byte(self.wDescriptorLength),
            hi_byte(self.wDescriptorLength),
        ]
    }

    pub fn to_bytes(&self) -> (r: Vec<u8>)
        ensures
            r@ == self.spec_bytes(),
    {
        let mut r: Vec<u8> = Vec::new();
        r.push(self.bReportDescriptorType);
        r.push((self.wDescriptorLength & 0xFF) as u8);
        r.push((self.wDescriptorLength >> 8) as u8);
        proof {
            assert(r@ =~= self.spec_bytes());
        }
        r
    }
}

/// A HID function descriptor with one report-descriptor reference.
#[derive(Debug, Clone, Copy, PartialEq, Eq, Structural)]
pub struct HidFunction {
    pub hid_descriptor: HidDescriptor,
    pub hid_report: HidReport,
}

impl HidFunction {
    /// The 9-byte wire image.
    pub open spec fn spec_bytes(self) -> Seq<u8> {
        self.hid_descriptor.spec_bytes() + self.hid_report.spec_bytes()
    }

    pub fn to_bytes(&self) -> (r: Vec<u8>)
        ensures
            r@ == self.spec_bytes(),
    {
        let mut r = self.hid_descriptor.to_bytes();
        let mut tail = self.hid_report.to_bytes();
        r.append(&mut tail);
        r
    }
}

/// The language-ID string descriptor (index 0): US English.
pub open spec fn spec_string_descr0() -> Seq<u8> {
    seq![0x04u8, 0x03, 0x09, 0x04]
}

pub fn string_descr0() -> (r: Vec<u8>)
    ensures
        r@ == spec_string_descr0(),
{
    let mut r: Vec<u8> = Vec::new();
    r.push(0x04);
    r.push(0x03);
    r.push(0x09);
    r.push(0x04);
    proof {
        assert(r@ =~= spec_string_descr0());
    }
    r
}

/// The UTF-16 code units of one character: the scalar itself below
/// 0x10000, a surrogate pair above.
pub open spec fn utf16_of_char(c: char) -> Seq<u16> {
    let u = c as u32;
    if u < 0x10000 {
        seq![u as u16]
    } else {
        seq![
            (0xD800 + (u - 0x10000) / 0x400) as u16,
            (0xDC00 + (u - 0x10000) % 0x400) as u16,
        ]
    }
}

/// The UTF-16 encoding of a character sequence.
pub open spec fn utf16(s: Seq<char>) -> Seq<u16>
    decreases s.len(),
{
    if s.len() == 0 {
        Seq::empty()
    } else {
        utf16_of_char(s[0]) + utf16(s.drop_first())
    }
}

/// True of the first unit of a surrogate pair.
pub open spec fn is_high_surrogate(u: u16) -> bool {
    0xD800 <= u < 0xDC00
}

/// The characters a well-formed UTF-16 unit sequence encodes.
pub open spec fn decode_utf16(u: Seq<u16>) -> Seq<char>
    decreases u.len(),
{
    if u.len() == 0 {
        Seq::empty()
    } else if is_high_surrogate(u[0]) && u.len() >= 2 {
        seq![((0x10000 + (u[0] - 0xD800) * 0x400 + (u[1] - 0xDC00)) as u32) as char]
            + decode_utf16(u.skip(2))
    } else {
        seq![(u[0] as u32) as char] + decode_utf16(u.skip(1))
    }
}

pub proof fn lemma_utf16_push(s: Seq<char>, c: char)
    ensures
        utf16(s.push(c)) == utf16(s) + utf16_of_char(c),
    decreases s.len(),
{
    let sp = s.push(c);
    if s.len() == 0 {
        assert(sp.len() == 1);
        assert(sp[0] == c);
        assert(sp.drop_first() =~= Seq::<char>::empty());
        assert(utf16(sp) == utf16_of_char(c) + utf16(Seq::<char>::empty()));
        assert(utf16(sp) =~= utf16(s) + utf16_of_char(c));
    } else {
        assert(sp[0] == s[0]);
        assert(sp.drop_first() =~= s.drop_first().push(c));
        lemma_utf16_push(s.drop_first(), c);
        assert(utf16(sp) == utf16_of_char(s[0]) + (utf16(s.drop_first()) + utf16_of_char(c)));
        assert(utf16(sp) =~= utf16(s) + utf16_of_char(c));
    }
}

/// A character takes one or two units; in particular the encoding is empty
/// exactly for the empty sequence.
pub proof fn lemma_utf16_len(s: Seq<char>)
    ensures
        s.len() <= utf16(s).len() <= 2 * s.len(),
    decreases s.len(),
{
    if s.len() > 0 {
        lemma_utf16_len(s.drop_first());
    }
}

/// Decoding the UTF-16 encoding of a character sequence gives the original
/// sequence back.
pub proof fn lemma_utf16_roundtrip(s: Seq<char>)
    ensures
        decode_utf16(utf16(s)) == s,
    decreases s.len(),
{
    if s.len() == 0 {
        assert(decode_utf16(utf16(s)) =~= s);
    } else {
        let c = s[0];
        let u = c as u32;
        vstd::utf8::char_is_scalar(c);
        vstd::utf8::char_u32_cast(c, u);
        let e = utf16(s);
        let head = utf16_of_char(c);
        let tail = utf16(s.drop_first());
        lemma_utf16_roundtrip(s.drop_first());
        if u < 0x10000 {
            assert(!is_high_surrogate(e[0]));
            assert(e.skip(1) =~= tail);
            assert((e[0] as u32) == u);
            assert(decode_utf16(e) =~= s);
        } else {
            let v = u - 0x10000;
            assert(0 <= v < 0x100000);
            assert(v / 0x400 < 0x400) by (nonlinear_arith)
                requires 0 <= v < 0x100000;
            vstd::arithmetic::div_mod::lemma_fundamental_div_mod(v as int, 0x400);
            assert(e[0] == head[0] && e[1] == head[1]);
            assert(is_high_surrogate(e[0]));
            assert(e.skip(2) =~= tail);
            assert((e[0] - 0xD800) == v / 0x400);
            assert((e[1] - 0xDC00) == v % 0x400);
            assert(0x10000 + (v / 0x400) * 0x400 + v % 0x400 == u);
            assert(decode_utf16(e) =~= s);
        }
    }
}

/// Unpacking a unit sequence to little-endian bytes and packing it again
/// gives the original units back.
pub proof fn lemma_words_roundtrip(u: Seq<u16>)
    ensures
        cells_of_bytes(bytes_of_cells(u, 2 * u.len() as int)) == u,
{
    let b = bytes_of_cells(u, 2 * u.len() as int);
    let r = cells_of_bytes(b);
    assert forall|i: int| 0 <= i < u.len() implies r[i] == u[i] by {
        assert(b[2 * i] == lo_byte(u[i]));
        assert(b[2 * i + 1] == hi_byte(u[i]));
        lemma_cell_split(u[i]);
        assert(r[i] == cell_of(lo_byte(u[i]), hi_byte(u[i])));
    }
    assert(r =~= u);
}

/// A string descriptor round-trips: the UTF-16LE payload bytes, packed back
/// into units and decoded, give the original string back.
pub proof fn lemma_string_descr_roundtrip(s: Seq<char>)
    ensures
        decode_utf16(cells_of_bytes(bytes_of_cells(utf16(s), 2 * utf16(s).len() as int))) == s,
{
    lemma_words_roundtrip(utf16(s));
    lemma_utf16_roundtrip(s);
}

/// How many UTF-16 units of `u` fit in a descriptor buffer of `cap` bytes
/// (2 bytes of header, 2 bytes per unit).
pub open spec fn spec_units_that_fit(u: Seq<u16>, cap: int) -> int {
    if u.len() <= (cap - 2) / 2 {
        u.len() as int
    } else {
        (cap - 2) / 2
    }
}

/// Builds a string descriptor in `buf` from the UTF-16LE encoding of
/// `data`, prefixed with a {length, 0x03} header, writing as many whole
/// units as fit.  Returns the descriptor length, or `None` when not a
/// single unit was written.
pub fn build_string_descr(buf: &mut Vec<u8>, data: &str) -> (r: Option<usize>)
    requires
        old(buf)@.len() >= 2,
    ensures
        final(buf)@.len() == old(buf)@.len(),
        ({
            let u = utf16(data@);
            let nfit = spec_units_that_fit(u, old(buf)@.len() as int);
            &&& (r is Some <==> nfit > 0)
            &&& r is Some ==> {
                let len = 2 + 2 * nfit;
                &&& r == Some(len as usize)
                &&& final(buf)@[0] == len as u8
                &&& final(buf)@[1] == 0x03
                &&& final(buf)@.subrange(2, len) == bytes_of_cells(u.take(nfit), 2 * nfit)
                &&& final(buf)@.skip(len) == old(buf)@.skip(len)
            }
            &&& r is None ==> final(buf)@ == old(buf)@
        }),
{
    let n_chars = data.unicode_len();
    let mut units: Vec<u16> = Vec::new();
    let mut i: usize = 0;
    while i < n_chars
        invariant
            i <= n_chars,
            n_chars == data@.len(),
            units@ == utf16(data@.take(i as int)),
            units@.len() <= 2 * i,
        decreases n_chars - i,
    {
        let c = data.get_char(i);
        let v = c as u32;
        proof {
            vstd::utf8::char_is_scalar(c);
            lemma_utf16_push(data@.take(i as int), c);
            assert(data@.take(i + 1) =~= data@.take(i as int).push(data@[i as int]));
        }
        if v < 0x10000 {
            units.push(v as u16);
        } else {
            let w = v - 0x10000;
            proof {
                assert(w / 0x400 < 0x400) by (nonlinear_arith)
                    requires 0 <= w < 0x100000;
                vstd::arithmetic::div_mod::lemma_mod_bound(w as int, 0x400);
            }
            units.push((0xD800 + w / 0x400) as u16);
            units.push((0xDC00 + w % 0x400) as u16);
        }
        i += 1;
    }
    proof {
        assert(data@.take(n_chars as int) =~= data@);
    }

    let cap = buf.len();
    let space = (cap - 2) / 2;
    let nfit = if units.len() < space { units.len() } else { space };
    if nfit == 0 {
        return None;
    }
    let mut k: usize = 0;
    while k < nfit
        invariant
            k <= nfit,
            cap == buf@.len(),
            2 + 2 * nfit <= cap,
            nfit <= units@.len(),
            buf@.len() == old(buf)@.len(),
            forall|j: int| 0 <= j < k ==> buf@[2 + 2 * j] == lo_byte(units@[j]),
            forall|j: int| 0 <= j < k ==> buf@[2 + 2 * j + 1] == hi_byte(units@[j]),
            forall|j: int| 0 <= j < buf@.len() && !(2 <= j < 2 + 2 * k)
                ==> buf@[j] == old(buf)@[j],
        decreases nfit - k,
    {
        let unit = units[k];
        buf[2 + 2 * k] = (unit & 0xFF) as u8;
        buf[2 + 2 * k + 1] = (unit >> 8) as u8;
        k += 1;
    }
    let len = 2 * nfit + 2;
    buf[0] = #[verifier::truncate] (len as u8);
    buf[1] = 0x03;
    proof {
        let u = utf16(data@);
        let nf = spec_units_that_fit(u, old(buf)@.len() as int);
        assert(nf == nfit);
        assert(buf@.subrange(2, len as int) =~= bytes_of_cells(u.take(nf), 2 * nf));
        assert(buf@.skip(len as int) =~= old(buf)@.skip(len as int));
    }
    Some(len)
}

} // verus!
