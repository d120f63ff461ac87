//! Little-endian binary helpers used when parsing and rebuilding PE files.

use vstd::prelude::*;

verus! {

/// The unsigned 16-bit value stored little-endian at `off` in `b`.
pub open spec fn le_u16(b: Seq<u8>, off: int) -> u16 {
    (b[off] as int + b[off + 1] as int * 0x100) as u16
}

/// The unsigned 32-bit value stored little-endian at `off` in `b`.
pub open spec fn le_u32(b: Seq<u8>, off: int) -> u32 {
    (b[off] as int + b[off + 1] as int * 0x100 + b[off + 2] as int * 0x1_0000 + b[off + 3] as int
        * 0x100_0000) as u32
}

/// The unsigned 64-bit value stored little-endian at `off` in `b`.
pub open spec fn le_u64(b: Seq<u8>, off: int) -> u64 {
    (le_u32(b, off) as int + le_u32(b, off + 4) as int * 0x1_0000_0000) as u64
}

/// The signed 16-bit value stored little-endian (two's complement) at `off` in `b`.
pub open spec fn le_i16(b: Seq<u8>, off: int) -> i16 {
    let u = le_u16(b, off) as int;
    (if u >= 0x8000 { u - 0x1_0000 } else { u }) as i16
}

/// The signed 32-bit value stored little-endian (two's complement) at `off` in `b`.
pub open spec fn le_i32(b: Seq<u8>, off: int) -> i32 {
    let u = le_u32(b, off) as int;
    (if u >= 0x8000_0000 { u - 0x1_0000_0000 } else { u }) as i32
}

/// Whether `n` bytes starting at `off` lie within a buffer of length `len`.
pub open spec fn in_bounds(len: int, off: int, n: int) -> bool {
    0 <= off && off + n <= len
}

/// The little-endian encoding of a 16-bit value.
pub open spec fn le_bytes_u16(v: u16) -> Seq<u8> {
    seq![(v % 0x100) as u8, (v / 0x100) as u8]
}

/// The little-endian encoding of a 32-bit value.
pub open spec fn le_bytes_u32(v: u32) -> Seq<u8> {
    seq![
        (v % 0x100) as u8,
        ((v / 0x100) % 0x100) as u8,
        ((v / 0x1_0000) % 0x100) as u8,
        (v / 0x100_0000) as u8,
    ]
}

/// The little-endian encoding of a 64-bit value.
pub open spec fn le_bytes_u64(v: u64) -> Seq<u8> {
    le_bytes_u32((v % 0x1_0000_0000) as u32) + le_bytes_u32((v / 0x1_0000_0000) as u32)
}

/// `b` with the bytes of `bytes` written over it starting at `off`.
pub open spec fn splice(b: Seq<u8>, off: int, bytes: Seq<u8>) -> Seq<u8> {
    b.take(off) + bytes + b.skip(off + bytes.len())
}

/// Decoding the little-endian encoding of `v` gives `v` back.
pub proof fn lemma_le_u16_roundtrip(v: u16)
    ensures
        le_u16(le_bytes_u16(v), 0) == v,
{
}

/// Decoding the little-endian encoding of `v` gives `v` back.
pub proof fn lemma_le_u32_roundtrip(v: u32)
    ensures
        le_u32(le_bytes_u32(v), 0) == v,
{
    let b = le_bytes_u32(v);
    assert(b[0] as int + b[1] as int * 0x100 + b[2] as int * 0x1_0000 + b[3] as int * 0x100_0000
        == v) by (nonlinear_arith)
        requires
            b[0] == v % 0x100,
            b[1] == (v / 0x100) % 0x100,
            b[2] == (v / 0x1_0000) % 0x100,
            b[3] == v / 0x100_0000,
            v < 0x1_0000_0000,
    ;
}

/// Decoding the little-endian encoding of `v` gives `v` back.
pub proof fn lemma_le_u64_roundtrip(v: u64)
    ensures
        le_u64(le_bytes_u64(v), 0) == v,
{
    let lo = (v % 0x1_0000_0000) as u32;
    let hi = (v / 0x1_0000_0000) as u32;
    lemma_le_u32_roundtrip(lo);
    lemma_le_u32_roundtrip(hi);
    let b = le_bytes_u64(v);
    assert(le_u32(b, 0) == le_u32(le_bytes_u32(lo), 0));
    assert(le_u32(b, 4) == le_u32(le_bytes_u32(hi), 0));
}

/// Bounds-checked little-endian read/write helpers over a byte slice.
pub trait Buf {
    fn rd_u8(&self, off: usize) -> Option<u8>;

    fn rd_i16(&self, off: usize) -> Option<i16>;

    fn rd_u16(&self, off: usize) -> Option<u16>;

    fn rd_u32(&self, off: usize) -> Option<u32>;

    fn rd_u64(&self, off: usize) -> Option<u64>;

    fn rd_bytes(&self, off: usize, len: usize) -> Option<&[u8]>;

    fn wr_u16(&mut self, off: usize, value: u16)
        requires
            off + 2 <= usize::MAX,
    ;

    fn wr_u32(&mut self, off: usize, value: u32)
        requires
            off + 4 <= usize::MAX,
    ;

    fn wr_u64(&mut self, off: usize, value: u64)
        requires
            off + 8 <= usize::MAX,
    ;
}

/// Reads the little-endian `u32` at `off`; the caller guarantees the bounds.
pub fn read_u32_at(b: &[u8], off: usize) -> (r: u32)
    requires
        off + 4 <= b@.len(),
    ensures
        r == le_u32(b@, off as int),
{
    b[off] as u32 + (b[off + 1] as u32) * 0x100 + (b[off + 2] as u32) * 0x1_0000 + (b[off
        + 3] as u32) * 0x100_0000
}

impl Buf for [u8] {
    fn rd_u8(&self, off: usize) -> (r: Option<u8>)
        ensures
            r == (if off < self@.len() {
                Some(self@[off as int])
            } else {
                None
            }),
    {
        if off < self.len() {
            Some(self[off])
        } else {
            None
        }
    }

    fn rd_i16(&self, off: usize) -> (r: Option<i16>)
        ensures
            r == (if in_bounds(self@.len() as int, off as int, 2) {
                Some(le_i16(self@, off as int))
            } else {
                None
            }),
    {
        match self.rd_u16(off) {
            Some(u) => {
                let v: i16 = if u >= 0x8000 {
                    (u as i32 - 0x1_0000) as i16
                } else {
                    u as i16
                };
                Some(v)
            },
            None => None,
        }
    }

    fn rd_u16(&self, off: usize) -> (r: Option<u16>)
        ensures
            r == (if in_bounds(self@.len() as int, off as int, 2) {
                Some(le_u16(self@, off as int))
            } else {
                None
            }),
    {
        if off < self.len() && 2 <= self.len() - off {
            Some(self[off] as u16 + (self[off + 1] as u16) * 0x100)
        } else {
            None
        }
    }

    fn rd_u32(&self, off: usize) -> (r: Option<u32>)
        ensures
            r == (if in_bounds(self@.len() as int, off as int, 4) {
                Some(le_u32(self@, off as int))
            } else {
                None
            }),
    {
        if off < self.len() && 4 <= self.len() - off {
            Some(read_u32_at(self, off))
        } else {
            None
        }
    }

    fn rd_u64(&self, off: usize) -> (r: Option<u64>)
        ensures
            r == (if in_bounds(self@.len() as int, off as int, 8) {
                Some(le_u64(self@, off as int))
            } else {
                None
            }),
    {
        if off < self.len() && 8 <= self.len() - off {
            let lo = read_u32_at(self, off);
            let hi = read_u32_at(self, off + 4);
            Some(lo as u64 + (hi as u64) * 0x1_0000_0000)
        } else {
            None
        }
    }

    fn rd_bytes(&self, off: usize, len: usize) -> (r: Option<&[u8]>)
        ensures
            in_bounds(self@.len() as int, off as int, len as int) ==> (r matches Some(s) && s@
                == self@.subrange(off as int, off + len)),
            !in_bounds(self@.len() as int, off as int, len as int) ==> r is None,
    {
        if off <= self.len() && len <= self.len() - off {
            Some(vstd::slice::slice_subrange(self, off, off + len))
        } else {
            None
        }
    }

    fn wr_u16(&mut self, off: usize, value: u16)
        ensures
            final(self)@ == (if in_bounds(old(self)@.len() as int, off as int, 2) {
                splice(old(self)@, off as int, le_bytes_u16(value))
            } else {
                old(self)@
            }),
    {
        if off + 2 <= self.len() {
            self[off] = (value % 0x100) as u8;
            self[off + 1] = (value / 0x100) as u8;
            assert(self@ =~= splice(old(self)@, off as int, le_bytes_u16(value)));
        }
    }

    fn wr_u32(&mut self, off: usize, value: u32)
        ensures
            final(self)@ == (if in_bounds(old(self)@.len() as int, off as int, 4) {
                splice(old(self)@, off as int, le_bytes_u32(value))
            } else {
                old(self)@
            }),
    {
        if off + 4 <= self.len() {
            self[off] = (value % 0x100) as u8;
            self[off + 1] = ((value / 0x100) % 0x100) as u8;
            self[off + 2] = ((value / 0x1_0000) % 0x100) as u8;
            self[off + 3] = (value / 0x100_0000) as u8;
            assert(self@ =~= splice(old(self)@, off as int, le_bytes_u32(value)));
        }
    }

    fn wr_u64(&mut self, off: usize, value: u64)
        ensures
            final(self)@ == (if in_bounds(old(self)@.len() as int, off as int, 8) {
                splice(old(self)@, off as int, le_bytes_u64(value))
            } else {
                old(self)@
            }),
    {
        if off + 8 <= self.len() {
            let lo = (value % 0x1_0000_0000) as u32;
            let hi = (value / 0x1_0000_0000) as u32;
            self[off] = (lo % 0x100) as u8;
            self[off + 1] = ((lo / 0x100) % 0x100) as u8;
            self[off + 2] = ((lo / 0x1_0000) % 0x100) as u8;
            self[off + 3] = (lo / 0x100_0000) as u8;
            self[off + 4] = (hi % 0x100) as u8;
            self[off + 5] = ((hi / 0x100) % 0x100) as u8;
            self[off + 6] = ((hi / 0x1_0000) % 0x100) as u8;
            self[off + 7] = (hi / 0x100_0000) as u8;
            assert(self@ =~= splice(old(self)@, off as int, le_bytes_u64(value)));
        }
    }
}

/// A little-endian write followed by a read of the same width at the same
/// offset gives back the written value, and leaves every other byte alone.
pub proof fn lemma_write_then_read_u32(b: Seq<u8>, off: int, v: u32)
    requires
        in_bounds(b.len() as int, off, 4),
    ensures
        le_u32(splice(b, off, le_bytes_u32(v)), off) == v,
        splice(b, off, le_bytes_u32(v)).len() == b.len(),
        forall|i: int|
            0 <= i < b.len() && !(off <= i < off + 4) ==> #[trigger] splice(
                b,
                off,
                le_bytes_u32(v),
            )[i] == b[i],
{
    let w = splice(b, off, le_bytes_u32(v));
    lemma_le_u32_roundtrip(v);
    assert(le_u32(w, off) == le_u32(le_bytes_u32(v), 0));
}

/// As [`lemma_write_then_read_u32`], for 16-bit values.
pub proof fn lemma_write_then_read_u16(b: Seq<u8>, off: int, v: u16)
    requires
        in_bounds(b.len() as int, off, 2),
    ensures
        le_u16(splice(b, off, le_bytes_u16(v)), off) == v,
        splice(b, off, le_bytes_u16(v)).len() == b.len(),
        forall|i: int|
            0 <= i < b.len() && !(off <= i < off + 2) ==> #[trigger] splice(
                b,
                off,
                le_bytes_u16(v),
            )[i] == b[i],
{
    let w = splice(b, off, le_bytes_u16(v));
    lemma_le_u16_roundtrip(v);
    assert(le_u16(w, off) == le_u16(le_bytes_u16(v), 0));
}

/// As [`lemma_write_then_read_u32`], for 64-bit values.
pub proof fn lemma_write_then_read_u64(b: Seq<u8>, off: int, v: u64)
    requires
        in_bounds(b.len() as int, off, 8),
    ensures
        le_u64(splice(b, off, le_bytes_u64(v)), off) == v,
        splice(b, off, le_bytes_u64(v)).len() == b.len(),
        forall|i: int|
            0 <= i < b.len() && !(off <= i < off + 8) ==> #[trigger] splice(
                b,
                off,
                le_bytes_u64(v),
            )[i] == b[i],
{
    let w = splice(b, off, le_bytes_u64(v));
    lemma_le_u64_roundtrip(v);
    let e = le_bytes_u64(v);
    assert(le_u32(w, off) == le_u32(e, 0));
    assert(le_u32(w, off + 4) == le_u32(e, 4));
}

/// The value `value` rounded up to the next multiple of `align` (unchanged when `align` is 0).
pub open spec fn spec_align_up(value: int, align: int) -> int {
    if align == 0 {
        value
    } else {
        ((value + align - 1) / align) * align
    }
}

/// Aligns `value` up to the next multiple of `align`.
pub fn align_up(value: u64, align: u64) -> (r: u64)
    requires
        spec_align_up(value as int, align as int) <= u64::MAX,
    ensures
        r == spec_align_up(value as int, align as int),
{
    if align == 0 {
        return value;
    }
    let q = value / align;
    let c = if value % align == 0 {
        q
    } else {
        assert(q < u64::MAX) by (nonlinear_arith)
            requires
                align > 0,
                q == value / align,
                value % align != 0,
        ;
        q + 1
    };
    proof {
        let v = value as int;
        let a = align as int;
        assert(c as int == (v + a - 1) / a) by (nonlinear_arith)
            requires
                a > 0,
                v >= 0,
                q == v / a,
                c == (if v % a == 0 { q as int } else { q + 1 }),
        ;
    }
    c * align
}

/// The aligned value is a multiple of `align`, is at least `value`, and
/// exceeds it by less than `align`.
pub proof fn lemma_align_up(value: int, align: int)
    requires
        value >= 0,
        align > 0,
    ensures
        spec_align_up(value, align) % align == 0,
        value <= spec_align_up(value, align) < value + align,
        spec_align_up(spec_align_up(value, align), align) == spec_align_up(value, align),
{
    let r = spec_align_up(value, align);
    assert(r % align == 0) by (nonlinear_arith)
        requires
            align > 0,
            r == ((value + align - 1) / align) * align,
    ;
    assert(value <= r < value + align) by (nonlinear_arith)
        requires
            align > 0,
            value >= 0,
            r == ((value + align - 1) / align) * align,
    ;
    assert(spec_align_up(r, align) == r) by (nonlinear_arith)
        requires
            align > 0,
            r >= 0,
            r % align == 0,
            spec_align_up(r, align) == ((r + align - 1) / align) * align,
    ;
}

/// The index of the first NUL byte at or after `i` in `raw`, or its length if there is none.
pub open spec fn nul_pos(raw: Seq<u8>, i: int) -> int
    decreases raw.len() - i,
{
    if i < 0 || i >= raw.len() || raw[i] == 0 {
        i
    } else {
        nul_pos(raw, i + 1)
    }
}

/// Names what `String::from_utf8_lossy` makes of the given bytes.
pub uninterp spec fn utf8_lossy(bytes: Seq<u8>) -> Seq<char>;

/// The text of a NUL-terminated section name buffer: the bytes before the
/// first NUL decoded as UTF-8, with invalid sequences replaced as
/// `String::from_utf8_lossy` does.
pub open spec fn spec_section_name(raw: Seq<u8>) -> Seq<char> {
    let bytes = raw.take(nul_pos(raw, 0));
    if vstd::utf8::valid_utf8(bytes) {
        vstd::utf8::decode_utf8(bytes)
    } else {
        utf8_lossy(bytes)
    }
}

/// A name buffer whose bytes before the first NUL encode `text` in UTF-8
/// reads as `text`.
pub proof fn lemma_section_name_of_text(raw: Seq<u8>, text: Seq<char>)
    requires
        raw.take(nul_pos(raw, 0)) == vstd::utf8::encode_utf8(text),
    ensures
        spec_section_name(raw) == text,
{
    vstd::utf8::encode_utf8_valid_utf8(text);
    vstd::utf8::encode_utf8_decode_utf8(text);
}

/// ASCII bytes read as the characters with the same codes.
pub open spec fn ascii_text(bytes: Seq<u8>) -> Seq<char> {
    bytes.map_values(|b: u8| b as char)
}

/// ASCII bytes are valid UTF-8 and decode to the characters with the same codes.
proof fn lemma_ascii_utf8(bytes: Seq<u8>)
    requires
        forall|i: int| 0 <= i < bytes.len() ==> #[trigger] bytes[i] < 0x80,
    ensures
        vstd::utf8::valid_utf8(bytes),
        vstd::utf8::decode_utf8(bytes) == ascii_text(bytes),
    decreases bytes.len(),
{
    if bytes.len() > 0 {
        let b = bytes[0];
        let rest = bytes.subrange(1, bytes.len() as int);
        assert((b & 0x7f) == b) by (bit_vector)
            requires
                b < 0x80,
        ;
        assert(vstd::utf8::pop_first_scalar(bytes) == rest);
        lemma_ascii_utf8(rest);
        assert(ascii_text(bytes) == seq![b as char] + ascii_text(rest));
    }
}

/// A name buffer holding ASCII before its first NUL reads as those
/// characters.
pub proof fn lemma_ascii_section_name(raw: Seq<u8>)
    requires
        forall|i: int| 0 <= i < nul_pos(raw, 0) ==> #[trigger] raw[i] < 0x80,
    ensures
        spec_section_name(raw) == ascii_text(raw.take(nul_pos(raw, 0))),
{
    let bytes = raw.take(nul_pos(raw, 0));
    lemma_nul_pos_bounds(raw, 0);
    assert forall|i: int| 0 <= i < bytes.len() implies #[trigger] bytes[i] < 0x80 by {
        assert(bytes[i] == raw[i]);
    }
    lemma_ascii_utf8(bytes);
}

/// The NUL position lies between the start and the length.
proof fn lemma_nul_pos_bounds(raw: Seq<u8>, i: int)
    requires
        0 <= i <= raw.len(),
    ensures
        i <= nul_pos(raw, i) <= raw.len(),
    decreases raw.len() - i,
{
    if i < raw.len() && raw[i] != 0 {
        lemma_nul_pos_bounds(raw, i + 1);
    }
}

/// A name buffer whose bytes before the first NUL are valid UTF-8 reads as
/// text that encodes back to exactly those bytes.
pub proof fn lemma_section_name_bytes(raw: Seq<u8>)
    requires
        vstd::utf8::valid_utf8(raw.take(nul_pos(raw, 0))),
    ensures
        vstd::utf8::encode_utf8(spec_section_name(raw)) == raw.take(nul_pos(raw, 0)),
{
    vstd::utf8::decode_utf8_encode_utf8(raw.take(nul_pos(raw, 0)));
}

/// Calls `String::from_utf8_lossy` and takes ownership of the result.
///
/// The contract names the decoded text, and states what the standard
/// library documents: valid UTF-8 is decoded unchanged. How invalid
/// sequences are replaced is left to the name.
#[verifier::external_body]
fn from_utf8_lossy_owned(bytes: &[u8]) -> (r: String)
    ensures
        r@ == utf8_lossy(bytes@),
        vstd::utf8::valid_utf8(bytes@) ==> r@ == vstd::utf8::decode_utf8(bytes@),
{
    String::from_utf8_lossy(bytes).into_owned()
}

/// Reads a null-terminated section name buffer (8 bytes) into a string.
pub fn section_name(raw: &[u8]) -> (r: String)
    ensures
        r@ == spec_section_name(raw@),
        vstd::utf8::valid_utf8(raw@.take(nul_pos(raw@, 0))) ==> r@ == vstd::utf8::decode_utf8(
            raw@.take(nul_pos(raw@, 0)),
        ),
{
    let mut end: usize = 0;
    while end < raw.len() && raw[end] != 0
        invariant
            end <= raw@.len(),
            nul_pos(raw@, end as int) == nul_pos(raw@, 0),
        decreases raw@.len() - end,
    {
        end = end + 1;
    }
    let s = vstd::slice::slice_subrange(raw, 0, end);
    assert(s@ == raw@.take(nul_pos(raw@, 0)));
    from_utf8_lossy_owned(s)
}

} // verus!
