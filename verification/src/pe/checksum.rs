//! PE image checksum, the value `imagehlp!MapFileAndCheckSum` computes: the
//! sum of all 16-bit words of the image (with the embedded checksum field
//! treated as zeroed), folded to 16 bits through the carry-reduce step, plus
//! the file size.

use vstd::prelude::*;

use super::reader::le_u32;

verus! {

/// Adds `word` to `sum` and folds the carry back into the low 16 bits.
pub open spec fn spec_fold(sum: int, word: int) -> int {
    (sum + word) % 0x1_0000 + (sum + word) / 0x1_0000
}

/// The byte at `i`, or zero when it lies in the 4-byte checksum field at `off`.
pub open spec fn masked_byte(data: Seq<u8>, off: int, i: int) -> int {
    if off <= i < off + 4 {
        0
    } else {
        data[i] as int
    }
}

/// The little-endian 16-bit word at `i` with the checksum field masked out.
pub open spec fn masked_word(data: Seq<u8>, off: int, i: int) -> int {
    masked_byte(data, off, i) + masked_byte(data, off, i + 1) * 0x100
}

/// The folded sum of the first `k` whole words of `data`.
pub open spec fn words_sum(data: Seq<u8>, off: int, k: nat) -> int
    decreases k,
{
    if k == 0 {
        0
    } else {
        spec_fold(words_sum(data, off, (k - 1) as nat), masked_word(data, off, 2 * (k - 1)))
    }
}

/// The folded sum of every word, a trailing odd byte counted as a word with
/// a zero high byte.
pub open spec fn body_sum(data: Seq<u8>, off: int) -> int {
    let whole = words_sum(data, off, data.len() / 2);
    if data.len() % 2 != 0 {
        spec_fold(whole, masked_byte(data, off, data.len() - 1))
    } else {
        whole
    }
}

/// Repeats the carry fold until the value fits in 16 bits.
pub open spec fn reduce(sum: int) -> int
    decreases sum,
{
    if sum >= 0x1_0000 {
        reduce(sum % 0x1_0000 + sum / 0x1_0000)
    } else {
        sum
    }
}

/// The checksum of `data` with the checksum field at `off` ignored: the
/// folded word sum plus the file length, as a 32-bit value.
pub open spec fn spec_checksum(data: Seq<u8>, off: int) -> int {
    (reduce(body_sum(data, off)) + data.len()) % 0x1_0000_0000
}

/// The value of a 16-bit word folded into `sum` with carry propagation.
#[inline]
fn fold_word(sum: u32, word: u32) -> (r: u32)
    requires
        sum <= 0x1_0000,
        word <= 0xffff,
    ensures
        r == spec_fold(sum as int, word as int),
        r <= 0x1_0000,
{
    let sum = sum + word;
    (sum % 0x1_0000) + (sum / 0x1_0000)
}

/// Computes the PE checksum for the given image data.
///
/// `checksum_offset` is the file offset of the 4-byte `CheckSum` field in the
/// optional header; those bytes are ignored during summation.
pub fn compute_checksum(data: &[u8], checksum_offset: usize) -> (r: u32)
    ensures
        r == spec_checksum(data@, checksum_offset as int),
{
    let ghost off = checksum_offset as int;
    let field_end = checksum_offset.saturating_add(4);
    let mut sum: u32 = 0;

    let mut w: usize = 0;
    while w + 1 < data.len()
        invariant
            off == checksum_offset as int,
            w % 2 == 0,
            w <= data@.len(),
            field_end == (if off + 4 > usize::MAX { usize::MAX as int } else { off + 4 }),
            sum <= 0x1_0000,
            sum == words_sum(data@, off, (w / 2) as nat),
        decreases data@.len() - w,
    {
        assert(w + 1 < data@.len() <= usize::MAX);
        assert((w >= checksum_offset && w < field_end) == (off <= w < off + 4));
        assert((w + 1 >= checksum_offset && w + 1 < field_end) == (off <= w + 1 < off + 4));
        let a: u8 = if w >= checksum_offset && w < field_end {
            0
        } else {
            data[w]
        };
        let b: u8 = if w + 1 >= checksum_offset && w + 1 < field_end {
            0
        } else {
            data[w + 1]
        };
        assert(a as int == masked_byte(data@, off, w as int));
        assert(b as int == masked_byte(data@, off, w + 1));
        let word = (a as u32) + (b as u32) * 0x100;
        sum = fold_word(sum, word);
        w += 2;
        assert((w / 2) as nat == ((w - 2) / 2 + 1) as nat);
    }
    assert(w / 2 == data@.len() / 2);

    // Trailing lone byte is treated as a word with a zero high byte.
    if data.len() % 2 != 0 {
        assert((w >= checksum_offset && w < field_end) == (off <= w < off + 4));
        let byte: u8 = if w >= checksum_offset && w < field_end {
            0
        } else {
            data[w]
        };
        sum = fold_word(sum, byte as u32);
    }
    assert(sum == body_sum(data@, off));

    // Carry reduction to 16 bits.
    while sum / 0x1_0000 != 0
        invariant
            off == checksum_offset as int,
            sum <= 0x1_0000,
            reduce(sum as int) == reduce(body_sum(data@, off)),
        decreases sum,
    {
        sum = (sum % 0x1_0000) + (sum / 0x1_0000);
    }
    assert(reduce(sum as int) == sum as int);

    // Add the file size.
    let len = (data.len() as u64 % 0x1_0000_0000) as u32;
    ((sum as u64 + len as u64) % 0x1_0000_0000) as u32
}

/// The file offset of the NT headers named by `e_lfanew`, when `data` starts
/// with a DOS header and that offset holds the `PE` signature.
pub open spec fn spec_nt_headers_offset(data: Seq<u8>) -> Option<int> {
    if data.len() < 0x40 || data[0] != 0x4d || data[1] != 0x5a {
        None
    } else {
        let e = le_u32(data, 0x3c) as int;
        if e + 2 <= data.len() && data[e] == 0x50 && data[e + 1] == 0x45 {
            Some(e)
        } else {
            None
        }
    }
}

/// Reads the `e_lfanew` field from a DOS header.
pub fn checksum_argument_offset(data: &[u8]) -> (r: Option<usize>)
    requires
        data@.len() >= 0x40 && data@[0] == 0x4d && data@[1] == 0x5a ==> le_u32(data@, 0x3c) + 2
            <= usize::MAX,
    ensures
        r matches Some(e) ==> spec_nt_headers_offset(data@) == Some(e as int),
        r is None ==> spec_nt_headers_offset(data@) is None,
{
    if data.len() < 0x40 || data[0] != 0x4d || data[1] != 0x5a {
        return None;
    }
    let e_lfanew = super::reader::read_u32_at(data, 0x3c) as usize;
    if e_lfanew + 2 <= data.len() && data[e_lfanew] == 0x50 && data[e_lfanew + 1] == 0x45 {
        Some(e_lfanew)
    } else {
        None
    }
}

/// `data` with the 32-bit value `sum` stored little-endian at `off`.
pub open spec fn with_checksum(data: Seq<u8>, off: int, sum: u32) -> Seq<u8> {
    super::reader::splice(data, off, super::reader::le_bytes_u32(sum))
}

/// Updates the checksum of a PE image held in memory, in place.
///
/// Returns the computed checksum value.
pub fn update_checksum_in_buffer(data: &mut [u8]) -> (r: Option<u32>)
    requires
        old(data)@.len() >= 0x40 && old(data)@[0] == 0x4d && old(data)@[1] == 0x5a ==> le_u32(
            old(data)@,
            0x3c,
        ) + 2 <= usize::MAX,
        spec_nt_headers_offset(old(data)@) matches Some(e) ==> e + 24 + 64 + 4 <= old(
            data,
        )@.len(),
    ensures
        spec_nt_headers_offset(old(data)@) is None ==> r is None && final(data)@ == old(data)@,
        spec_nt_headers_offset(old(data)@) matches Some(e) ==> ({
            let sum = spec_checksum(old(data)@, e + 24 + 64) as u32;
            &&& r == Some(sum)
            &&& final(data)@ == with_checksum(old(data)@, e + 24 + 64, sum)
        }),
{
    let nt_headers_offset = match checksum_argument_offset(data) {
        Some(o) => o,
        None => return None,
    };
    assert(spec_nt_headers_offset(data@) == Some(nt_headers_offset as int));
    assert(data@ == old(data)@);
    assert(nt_headers_offset + 92 <= old(data)@.len());
    assert(old(data)@.len() == data.len());
    let checksum_offset = nt_headers_offset + 24 + 64;
    let sum = compute_checksum(data, checksum_offset);
    data[checksum_offset] = (sum % 0x100) as u8;
    data[checksum_offset + 1] = ((sum / 0x100) % 0x100) as u8;
    data[checksum_offset + 2] = ((sum / 0x1_0000) % 0x100) as u8;
    data[checksum_offset + 3] = ((sum / 0x100_0000) % 0x100) as u8;
    assert(data@ =~= with_checksum(old(data)@, checksum_offset as int, sum));
    Some(sum)
}

/// Two images that agree outside the checksum field have equal folded word sums.
proof fn lemma_words_sum_agree(a: Seq<u8>, b: Seq<u8>, off: int, k: nat)
    requires
        a.len() == b.len(),
        2 * k <= a.len(),
        forall|i: int| 0 <= i < a.len() && !(off <= i < off + 4) ==> a[i] == b[i],
    ensures
        words_sum(a, off, k) == words_sum(b, off, k),
    decreases k,
{
    if k > 0 {
        lemma_words_sum_agree(a, b, off, (k - 1) as nat);
        let w = 2 * (k - 1);
        assert(masked_byte(a, off, w) == masked_byte(b, off, w));
        assert(masked_byte(a, off, w + 1) == masked_byte(b, off, w + 1));
    }
}

/// The checksum only depends on the bytes outside the checksum field.
pub proof fn lemma_checksum_ignores_field(a: Seq<u8>, b: Seq<u8>, off: int)
    requires
        a.len() == b.len(),
        forall|i: int| 0 <= i < a.len() && !(off <= i < off + 4) ==> a[i] == b[i],
    ensures
        spec_checksum(a, off) == spec_checksum(b, off),
{
    lemma_words_sum_agree(a, b, off, a.len() / 2);
    if a.len() % 2 != 0 {
        assert(masked_byte(a, off, a.len() - 1) == masked_byte(b, off, a.len() - 1));
    }
}

/// Recomputing the checksum of an image whose checksum was just updated in
/// place gives back the stored value: writing the field does not change the
/// sum it was computed from.
pub proof fn lemma_update_then_compute(data: Seq<u8>)
    requires
        spec_nt_headers_offset(data) matches Some(e) && e + 24 + 64 + 4 <= data.len(),
    ensures
        ({
            let off = spec_nt_headers_offset(data).unwrap() + 24 + 64;
            let sum = spec_checksum(data, off) as u32;
            spec_checksum(with_checksum(data, off, sum), off) == sum
        }),
{
    let off = spec_nt_headers_offset(data).unwrap() + 24 + 64;
    let sum = spec_checksum(data, off) as u32;
    let updated = with_checksum(data, off, sum);
    assert(updated.len() == data.len());
    assert forall|i: int| 0 <= i < data.len() && !(off <= i < off + 4) implies updated[i]
        == data[i] by {
        if i < off {
            assert(updated[i] == data.take(off)[i]);
        } else {
            assert(updated[i] == data.skip(off + 4)[i - off - 4]);
        }
    }
    lemma_checksum_ignores_field(updated, data, off);
    assert(0 <= spec_checksum(data, off) < 0x1_0000_0000) by {
        lemma_checksum_range(data, off);
    }
}

/// Updating the checksum of an image whose checksum was just updated finds
/// the same NT headers, computes the same value and writes the bytes that
/// are already there: a second `update_checksum_in_buffer` returns the same
/// value and leaves the buffer unchanged.
pub proof fn lemma_update_idempotent(data: Seq<u8>)
    requires
        spec_nt_headers_offset(data) matches Some(e) && e + 24 + 64 + 4 <= data.len(),
    ensures
        ({
            let e = spec_nt_headers_offset(data).unwrap();
            let off = e + 24 + 64;
            let sum = spec_checksum(data, off) as u32;
            let once = with_checksum(data, off, sum);
            &&& once.len() == data.len()
            &&& le_u32(once, 0x3c) == le_u32(data, 0x3c)
            &&& spec_nt_headers_offset(once) == Some(e)
            &&& spec_checksum(once, off) as u32 == sum
            &&& with_checksum(once, off, sum) == once
        }),
{
    let e = spec_nt_headers_offset(data).unwrap();
    let off = e + 24 + 64;
    let sum = spec_checksum(data, off) as u32;
    let bytes = super::reader::le_bytes_u32(sum);
    let once = with_checksum(data, off, sum);
    lemma_update_then_compute(data);
    assert(bytes.len() == 4);
    assert(once.len() == data.len());
    assert forall|i: int| 0 <= i < off implies #[trigger] once[i] == data[i] by {
        assert(once[i] == data.take(off)[i]);
    }
    assert(once[0] == data[0] && once[1] == data[1]);
    assert(once[0x3c] == data[0x3c] && once[0x3d] == data[0x3d] && once[0x3e] == data[0x3e]
        && once[0x3f] == data[0x3f]);
    assert(once[e] == data[e] && once[e + 1] == data[e + 1]);
    assert forall|i: int| 0 <= i < 4 implies #[trigger] once[off + i] == bytes[i] by {
        assert(once[off + i] == (data.take(off) + bytes)[off + i]);
    }
    assert(with_checksum(once, off, sum) =~= once);
}

/// A checksum is a 32-bit value.
pub proof fn lemma_checksum_range(data: Seq<u8>, off: int)
    ensures
        0 <= spec_checksum(data, off) < 0x1_0000_0000,
{
    lemma_reduce_nonneg(body_sum(data, off));
}

proof fn lemma_reduce_nonneg(s: int)
    ensures
        s >= 0 ==> reduce(s) >= 0,
    decreases s,
{
    if s >= 0x1_0000 {
        lemma_reduce_nonneg(s % 0x1_0000 + s / 0x1_0000);
    }
}

} // verus!
