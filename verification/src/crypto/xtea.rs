//! SteamStub XOR and XTEA decryption helpers.

use vstd::prelude::*;

use crate::pe::reader::{le_u32, read_u32_at, lemma_write_then_read_u32, Buf};

verus! {

/// Offset of the first dword that `steam_xor` decodes: the first dword is
/// the key itself when no key is given.
pub open spec fn xor_start(size: u32, key: u32) -> int {
    if key == 0 && size >= 4 {
        4
    } else {
        0
    }
}

/// Number of whole dwords that `steam_xor` decodes.
pub open spec fn xor_count(size: u32, key: u32) -> int {
    (size - xor_start(size, key)) / 4
}

/// The key that the `j`-th decoded dword is XORed with: the initial key for
/// the first, the previous encoded dword after that.
pub open spec fn xor_key_at(data: Seq<u8>, size: u32, key: u32, j: int) -> u32 {
    if j == 0 {
        if xor_start(size, key) == 4 {
            le_u32(data, 0)
        } else {
            key
        }
    } else {
        le_u32(data, xor_start(size, key) + 4 * (j - 1))
    }
}

/// Byte `k` (0 = lowest) of the 32-bit value `w`.
pub open spec fn byte_of(w: u32, k: int) -> u8 {
    ((w >> ((8 * k) as u32)) & 0xff) as u8
}

/// The bytes `steam_xor` leaves in `raw`: each decoded dword XORed with
/// its key, every other byte unchanged.
pub open spec fn xor_decode(raw: Seq<u8>, size: u32, key: u32) -> Seq<u8> {
    let s = xor_start(size, key);
    let c = xor_count(size, key);
    Seq::new(
        raw.len(),
        |i: int|
            if s <= i < s + 4 * c {
                byte_of(
                    le_u32(raw, s + 4 * ((i - s) / 4)) ^ xor_key_at(raw, size, key, (i - s) / 4),
                    (i - s) % 4,
                )
            } else {
                raw[i]
            },
    )
}

/// Each byte of a little-endian dword is the matching byte of its value.
pub proof fn lemma_le_u32_bytes(d: Seq<u8>, off: int)
    requires
        0 <= off,
        off + 4 <= d.len(),
    ensures
        d[off] == byte_of(le_u32(d, off), 0),
        d[off + 1] == byte_of(le_u32(d, off), 1),
        d[off + 2] == byte_of(le_u32(d, off), 2),
        d[off + 3] == byte_of(le_u32(d, off), 3),
{
    let b0 = d[off];
    let b1 = d[off + 1];
    let b2 = d[off + 2];
    let b3 = d[off + 3];
    let w = le_u32(d, off);
    assert(w == (b0 as u32) + (b1 as u32) * 0x100 + (b2 as u32) * 0x1_0000 + (b3 as u32) * 0x100_0000);
    assert(((w >> 0u32) & 0xff) as u8 == b0 && ((w >> 8u32) & 0xff) as u8 == b1 && ((w >> 16u32) & 0xff) as u8 == b2
        && ((w >> 24u32) & 0xff) as u8 == b3) by (bit_vector)
        requires
            w == (b0 as u32) + (b1 as u32) * 0x100 + (b2 as u32) * 0x1_0000 + (b3 as u32) * 0x100_0000,
    ;
}

/// A buffer related to `raw` as `steam_xor` relates its output to its input
/// is `xor_decode(raw, ..)`.
proof fn lemma_xor_decode(raw: Seq<u8>, d: Seq<u8>, size: u32, key: u32)
    requires
        steam_xor_fits(raw.len() as int, size, key),
        d.len() == raw.len(),
        forall|j: int|
            0 <= j < xor_count(size, key) ==> #[trigger] le_u32(d, xor_start(size, key) + 4 * j)
                == le_u32(raw, xor_start(size, key) + 4 * j) ^ xor_key_at(raw, size, key, j),
        forall|i: int|
            0 <= i < raw.len() && !(xor_start(size, key) <= i < xor_start(size, key) + 4
                * xor_count(size, key)) ==> #[trigger] d[i] == raw[i],
    ensures
        d == xor_decode(raw, size, key),
{
    let s = xor_start(size, key);
    let c = xor_count(size, key);
    assert forall|i: int| 0 <= i < d.len() implies #[trigger] d[i] == xor_decode(raw, size, key)[i] by {
        if s <= i < s + 4 * c {
            let j = (i - s) / 4;
            let k = (i - s) % 4;
            assert(0 <= j < c);
            assert(i == s + 4 * j + k);
            assert(s + 4 * j + 4 <= s + 4 * c) by (nonlinear_arith)
                requires
                    j < c,
            ;
            lemma_le_u32_bytes(d, s + 4 * j);
            assert(le_u32(d, s + 4 * j) == le_u32(raw, s + 4 * j) ^ xor_key_at(raw, size, key, j));
        }
    }
    assert(d =~= xor_decode(raw, size, key));
}

/// The buffer contains everything `steam_xor` reads.
pub open spec fn steam_xor_fits(len: int, size: u32, key: u32) -> bool {
    &&& (xor_start(size, key) == 4 ==> len >= 4)
    &&& xor_start(size, key) + 4 * xor_count(size, key) <= len
}

/// XOR-decodes `data` starting with `key` (or the first dword when `key == 0`).
///
/// Returns the resulting XOR key so it can be chained into the next stage.
pub fn steam_xor(data: &mut [u8], size: u32, key: u32) -> (r: u32)
    requires
        steam_xor_fits(old(data)@.len() as int, size, key),
    ensures
        final(data)@.len() == old(data)@.len(),
        forall|j: int|
            0 <= j < xor_count(size, key) ==> #[trigger] le_u32(
                final(data)@,
                xor_start(size, key) + 4 * j,
            ) == le_u32(old(data)@, xor_start(size, key) + 4 * j) ^ xor_key_at(
                old(data)@,
                size,
                key,
                j,
            ),
        forall|i: int|
            0 <= i < old(data)@.len() && !(xor_start(size, key) <= i < xor_start(size, key) + 4
                * xor_count(size, key)) ==> #[trigger] final(data)@[i] == old(data)@[i],
        r == xor_key_at(old(data)@, size, key, xor_count(size, key)),
        final(data)@ == xor_decode(old(data)@, size, key),
{
    let ghost start = xor_start(size, key);
    let ghost count = xor_count(size, key);
    let ghost key0 = key;
    let ghost size0 = size;
    let ghost orig = data@;
    let mut key = key;
    let mut offset: usize = 0;

    // Read the first key as the base XOR key if none was given.
    if key == 0 && size >= 4 {
        offset += 4;
        key = read_u32_at(data, 0);
    }

    let size = size as usize;
    let mut x = offset;
    while size >= 4 && x <= size - 4
        invariant
            size == size0 as usize,
            start == xor_start(size0, key0),
            count == xor_count(size0, key0),
            steam_xor_fits(orig.len() as int, size0, key0),
            start == offset,
            (x - start) % 4 == 0,
            start <= x <= start + 4 * count,
            data@.len() == orig.len(),
            key == xor_key_at(orig, size0, key0, (x - start) / 4),
            forall|j: int|
                0 <= j < (x - start) / 4 ==> #[trigger] le_u32(data@, start + 4 * j) == le_u32(
                    orig,
                    start + 4 * j,
                ) ^ xor_key_at(orig, size0, key0, j),
            forall|i: int|
                0 <= i < orig.len() && !(start <= i < x) ==> #[trigger] data@[i] == orig[i],
        decreases size - x,
    {
        let ghost before = data@;
        let ghost j0 = (x - start) / 4;
        assert(x + 4 <= start + 4 * count) by {
            assert(x + 4 <= size);
            assert((size - start) / 4 * 4 + start >= x + 4) by (nonlinear_arith)
                requires
                    x + 4 <= size,
                    (x - start) % 4 == 0,
                    start <= x,
            ;
        }
        let val = read_u32_at(data, x);
        assert(val == le_u32(orig, x as int));
        let enc = val ^ key;
        data.wr_u32(x, enc);
        proof {
            lemma_write_then_read_u32(before, x as int, enc);
            assert forall|j: int| 0 <= j < j0 implies #[trigger] le_u32(data@, start + 4 * j)
                == le_u32(before, start + 4 * j) by {
                assert(data@[start + 4 * j] == before[start + 4 * j]);
                assert(data@[start + 4 * j + 1] == before[start + 4 * j + 1]);
                assert(data@[start + 4 * j + 2] == before[start + 4 * j + 2]);
                assert(data@[start + 4 * j + 3] == before[start + 4 * j + 3]);
            }
            assert(x == start + 4 * j0);
        }
        key = val;
        x += 4;
    }
    assert((x - start) / 4 == count);
    proof {
        lemma_xor_decode(orig, data@, size0, key0);
    }
    key
}

/// The XTEA round constant.
pub const DELTA: u32 = 0x9e37_79b9;

/// Index of the key used for the first half of a round with running sum `sum`.
pub open spec fn key_index_a(sum: u32) -> int {
    ((sum >> 11u32) & 3u32) as int
}

/// Index of the key used for the second half of a round with running sum `sum`.
pub open spec fn key_index_b(sum: u32) -> int {
    (sum & 3u32) as int
}

/// Every key index that `rounds` XTEA decryption rounds starting at `sum` use
/// lies within `len` keys.
pub open spec fn xtea_keys_fit(len: int, sum: u32, rounds: nat) -> bool
    decreases rounds,
{
    rounds == 0 || {
        &&& key_index_a(sum) < len
        &&& key_index_b(sum.wrapping_sub(DELTA)) < len
        &&& xtea_keys_fit(len, sum.wrapping_sub(DELTA), (rounds - 1) as nat)
    }
}

/// The mixing function of one XTEA half round.
pub open spec fn xtea_mix(v: u32, sum: u32, key: u32) -> u32 {
    (((v << 4u32) ^ (v >> 5u32)).wrapping_add(v)) ^ (sum.wrapping_add(key))
}

/// The words after `rounds` XTEA decryption rounds, starting at running sum `sum`.
pub open spec fn xtea_decrypt(keys: Seq<u32>, v1: u32, v2: u32, sum: u32, rounds: nat) -> (u32, u32)
    decreases rounds,
{
    if rounds == 0 {
        (v1, v2)
    } else {
        let nv2 = v2.wrapping_sub(xtea_mix(v1, sum, keys[key_index_a(sum)]));
        let nsum = sum.wrapping_sub(DELTA);
        let nv1 = v1.wrapping_sub(xtea_mix(nv2, nsum, keys[key_index_b(nsum)]));
        xtea_decrypt(keys, nv1, nv2, nsum, (rounds - 1) as nat)
    }
}

/// The words after `rounds` XTEA encryption rounds that end at running sum
/// `end` (and so start at `end` less `rounds` times `DELTA`): each round adds
/// the mix of the second word to the first, steps the sum by `DELTA`, then
/// adds the mix of the new first word to the second.
pub open spec fn xtea_encrypt(keys: Seq<u32>, v1: u32, v2: u32, end: u32, rounds: nat) -> (u32, u32)
    decreases rounds,
{
    if rounds == 0 {
        (v1, v2)
    } else {
        let sum = end.wrapping_sub(DELTA);
        let (a, b) = xtea_encrypt(keys, v1, v2, sum, (rounds - 1) as nat);
        let na = a.wrapping_add(xtea_mix(b, sum, keys[key_index_b(sum)]));
        let nb = b.wrapping_add(xtea_mix(na, end, keys[key_index_a(end)]));
        (na, nb)
    }
}

/// XTEA decryption from running sum `end` undoes XTEA encryption that ends
/// at `end`, for the same keys and number of rounds.
pub proof fn lemma_xtea_decrypt_inverts(keys: Seq<u32>, v1: u32, v2: u32, end: u32, rounds: nat)
    ensures
        xtea_decrypt(
            keys,
            xtea_encrypt(keys, v1, v2, end, rounds).0,
            xtea_encrypt(keys, v1, v2, end, rounds).1,
            end,
            rounds,
        ) == (v1, v2),
    decreases rounds,
{
    if rounds > 0 {
        let sum = end.wrapping_sub(DELTA);
        let (a, b) = xtea_encrypt(keys, v1, v2, sum, (rounds - 1) as nat);
        let na = a.wrapping_add(xtea_mix(b, sum, keys[key_index_b(sum)]));
        let nb = b.wrapping_add(xtea_mix(na, end, keys[key_index_a(end)]));
        assert(nb.wrapping_sub(xtea_mix(na, end, keys[key_index_a(end)])) == b);
        assert(na.wrapping_sub(xtea_mix(b, sum, keys[key_index_b(sum)])) == a);
        lemma_xtea_decrypt_inverts(keys, v1, v2, sum, (rounds - 1) as nat);
    }
}

/// The running sum after `k` steps of `DELTA` from `sum`.
pub open spec fn sum_after(sum: u32, k: nat) -> u32
    decreases k,
{
    if k == 0 {
        sum
    } else {
        sum_after(sum, (k - 1) as nat).wrapping_add(DELTA)
    }
}

/// XTEA encryption as it is usually run: `rounds` rounds from running sum
/// `sum`, each adding the mix of the second word to the first, stepping the
/// sum by `DELTA`, then adding the mix of the new first word to the second.
pub open spec fn xtea_encrypt_from(keys: Seq<u32>, v1: u32, v2: u32, sum: u32, rounds: nat) -> (u32, u32)
    decreases rounds,
{
    if rounds == 0 {
        (v1, v2)
    } else {
        let na = v1.wrapping_add(xtea_mix(v2, sum, keys[key_index_b(sum)]));
        let nsum = sum.wrapping_add(DELTA);
        let nb = v2.wrapping_add(xtea_mix(na, nsum, keys[key_index_a(nsum)]));
        xtea_encrypt_from(keys, na, nb, nsum, (rounds - 1) as nat)
    }
}

/// Stepping back by `DELTA` undoes a step forward.
proof fn lemma_step_back(x: u32)
    ensures
        x.wrapping_add(DELTA).wrapping_sub(DELTA) == x,
{
}

/// Stepping once and then `k` times reaches the same sum as `k + 1` steps.
proof fn lemma_sum_after_shift(sum: u32, k: nat)
    ensures
        sum_after(sum.wrapping_add(DELTA), k) == sum_after(sum, k + 1),
    decreases k,
{
    let s1 = sum.wrapping_add(DELTA);
    if k > 0 {
        lemma_sum_after_shift(sum, (k - 1) as nat);
        assert(sum_after(s1, k) == sum_after(s1, (k - 1) as nat).wrapping_add(DELTA));
        assert(sum_after(sum, k + 1) == sum_after(sum, k).wrapping_add(DELTA));
        assert(((k - 1) as nat + 1) as nat == k);
    } else {
        assert(sum_after(s1, 0) == s1);
        assert(sum_after(sum, 0) == sum);
        assert(sum_after(sum, 1) == sum_after(sum, 0).wrapping_add(DELTA));
    }
}

/// The first round of `rounds + 1` encryption rounds can be taken out in front.
proof fn lemma_encrypt_first_round(keys: Seq<u32>, v1: u32, v2: u32, sum: u32, rounds: nat)
    ensures
        ({
            let na = v1.wrapping_add(xtea_mix(v2, sum, keys[key_index_b(sum)]));
            let nsum = sum.wrapping_add(DELTA);
            let nb = v2.wrapping_add(xtea_mix(na, nsum, keys[key_index_a(nsum)]));
            xtea_encrypt(keys, v1, v2, sum_after(sum, rounds + 1), rounds + 1) == xtea_encrypt(
                keys,
                na,
                nb,
                sum_after(nsum, rounds),
                rounds,
            )
        }),
    decreases rounds,
{
    let na = v1.wrapping_add(xtea_mix(v2, sum, keys[key_index_b(sum)]));
    let nsum = sum.wrapping_add(DELTA);
    let nb = v2.wrapping_add(xtea_mix(na, nsum, keys[key_index_a(nsum)]));
    let end = sum_after(sum, rounds + 1);
    let prev = sum_after(sum, rounds);
    assert(end == prev.wrapping_add(DELTA));
    lemma_step_back(prev);
    assert(end.wrapping_sub(DELTA) == prev);
    lemma_sum_after_shift(sum, rounds);
    assert(sum_after(nsum, rounds) == end);
    if rounds == 0 {
        assert(prev == sum);
        assert(end == nsum);
        assert(xtea_encrypt(keys, v1, v2, prev, 0) == (v1, v2));
        assert(xtea_encrypt(keys, na, nb, sum_after(nsum, 0), 0) == (na, nb));
    } else {
        let r1 = (rounds - 1) as nat;
        lemma_encrypt_first_round(keys, v1, v2, sum, r1);
        lemma_sum_after_shift(sum, r1);
        assert((r1 + 1) as nat == rounds);
        let t = sum_after(nsum, r1);
        assert(sum_after(nsum, rounds) == t.wrapping_add(DELTA));
        lemma_step_back(t);
        assert(prev == t);
        assert(xtea_encrypt(keys, v1, v2, prev, rounds) == xtea_encrypt(keys, na, nb, t, r1));
    }
}

/// The usual forward XTEA encryption from `sum` is the encryption that ends
/// at `sum` stepped `rounds` times.
pub proof fn lemma_encrypt_forward(keys: Seq<u32>, v1: u32, v2: u32, sum: u32, rounds: nat)
    ensures
        xtea_encrypt_from(keys, v1, v2, sum, rounds) == xtea_encrypt(
            keys,
            v1,
            v2,
            sum_after(sum, rounds),
            rounds,
        ),
    decreases rounds,
{
    if rounds > 0 {
        let na = v1.wrapping_add(xtea_mix(v2, sum, keys[key_index_b(sum)]));
        let nsum = sum.wrapping_add(DELTA);
        let nb = v2.wrapping_add(xtea_mix(na, nsum, keys[key_index_a(nsum)]));
        lemma_encrypt_forward(keys, na, nb, nsum, (rounds - 1) as nat);
        lemma_encrypt_first_round(keys, v1, v2, sum, (rounds - 1) as nat);
    }
}

/// `DELTA` stepped `n` times from zero is `DELTA * n`, wrapped to 32 bits.
proof fn lemma_sum_after_zero(n: nat)
    requires
        n <= u32::MAX,
    ensures
        sum_after(0, n) == DELTA.wrapping_mul(n as u32),
    decreases n,
{
    if n > 0 {
        lemma_sum_after_zero((n - 1) as nat);
        let m: int = 0x1_0000_0000;
        let p: int = DELTA as int * (n - 1);
        assert(DELTA as int * n == p + DELTA as int) by (nonlinear_arith)
            requires
                p == DELTA as int * (n - 1),
        ;
        vstd::arithmetic::div_mod::lemma_add_mod_noop(p, DELTA as int, m);
        vstd::arithmetic::div_mod::lemma_mod_twice(DELTA as int, m);
        vstd::arithmetic::div_mod::lemma_mod_bound(p, m);
        vstd::arithmetic::div_mod::lemma_mod_bound(p + DELTA as int, m);
        let q = sum_after(0, (n - 1) as nat);
        assert(q as int == p % m);
        assert(DELTA as int % m == DELTA as int);
        assert((q as int + DELTA as int) % m == (p + DELTA as int) % m);
        assert(q.wrapping_add(DELTA) as int == (q as int + DELTA as int) % m);
    }
}

/// `steam_drmp_pass2` with `n` rounds undoes `n` rounds of XTEA encryption
/// run forward from running sum zero, whatever the keys.
pub proof fn lemma_pass2_inverts_encryption(keys: Seq<u32>, v1: u32, v2: u32, n: u32)
    ensures
        ({
            let e = xtea_encrypt_from(keys, v1, v2, 0, n as nat);
            xtea_decrypt(keys, e.0, e.1, DELTA.wrapping_mul(n), n as nat) == (v1, v2)
        }),
{
    lemma_encrypt_forward(keys, v1, v2, 0, n as nat);
    lemma_sum_after_zero(n as nat);
    lemma_xtea_decrypt_inverts(keys, v1, v2, DELTA.wrapping_mul(n), n as nat);
}

/// Second pass of SteamDRMP.dll decryption (XTEA).
pub fn steam_drmp_pass2(res: &mut [u32; 2], keys: &[u32], v1: u32, v2: u32, n: u32)
    requires
        xtea_keys_fit(keys@.len() as int, DELTA.wrapping_mul(n), n as nat),
    ensures
        final(res)@ == seq![
            xtea_decrypt(keys@, v1, v2, DELTA.wrapping_mul(n), n as nat).0,
            xtea_decrypt(keys@, v1, v2, DELTA.wrapping_mul(n), n as nat).1,
        ],
{
    let ghost sum0 = DELTA.wrapping_mul(n);
    let ghost w1 = v1;
    let ghost w2 = v2;
    let mut v1 = v1;
    let mut v2 = v2;
    let mut sum = DELTA.wrapping_mul(n);

    let mut i: u32 = 0;
    while i < n
        invariant
            i <= n,
            xtea_keys_fit(keys@.len() as int, sum, (n - i) as nat),
            xtea_decrypt(keys@, v1, v2, sum, (n - i) as nat) == xtea_decrypt(
                keys@,
                w1,
                w2,
                sum0,
                n as nat,
            ),
        decreases n - i,
    {
        let ka = keys[((sum >> 11) & 3) as usize];
        v2 = v2.wrapping_sub((((v1 << 4) ^ (v1 >> 5)).wrapping_add(v1)) ^ (sum.wrapping_add(ka)));
        sum = sum.wrapping_sub(DELTA);
        let kb = keys[(sum & 3) as usize];
        v1 = v1.wrapping_sub((((v2 << 4) ^ (v2 >> 5)).wrapping_add(v2)) ^ (sum.wrapping_add(kb)));
        i += 1;
    }

    res[0] = v1;
    res[1] = v2;
    assert(res@ =~= seq![v1, v2]);
}

/// The chaining words XORed into the `j`-th decrypted block: a fixed seed
/// for the first block, the previous encrypted block after that.
pub open spec fn drmp_chain(data: Seq<u8>, j: int) -> (u32, u32) {
    if j == 0 {
        (0x5555_5555u32, 0x5555_5555u32)
    } else {
        (le_u32(data, 8 * (j - 1)), le_u32(data, 8 * (j - 1) + 4))
    }
}

/// The XTEA decryption of the `j`-th 8-byte block of `data`.
pub open spec fn drmp_block(data: Seq<u8>, keys: Seq<u32>, j: int) -> (u32, u32) {
    xtea_decrypt(keys, le_u32(data, 8 * j), le_u32(data, 8 * j + 4), DELTA.wrapping_mul(32), 32)
}

/// The bytes `steam_drmp_pass1` leaves in `raw`: every whole 8-byte block
/// of the first `size` bytes decrypted and chained, the rest unchanged.
pub open spec fn drmp_decode(raw: Seq<u8>, keys: Seq<u32>, size: u32) -> Seq<u8> {
    Seq::new(
        raw.len(),
        |i: int|
            if i < 8 * (size / 8) {
                let j = i / 8;
                if i % 8 < 4 {
                    byte_of(drmp_block(raw, keys, j).0 ^ drmp_chain(raw, j).0, i % 8)
                } else {
                    byte_of(drmp_block(raw, keys, j).1 ^ drmp_chain(raw, j).1, i % 8 - 4)
                }
            } else {
                raw[i]
            },
    )
}

/// With at least four keys every XTEA round finds its keys.
pub proof fn lemma_four_keys_fit(len: int, sum: u32, rounds: nat)
    requires
        len >= 4,
    ensures
        xtea_keys_fit(len, sum, rounds),
    decreases rounds,
{
    if rounds > 0 {
        let n = sum.wrapping_sub(DELTA);
        assert((sum >> 11u32) & 3u32 < 4u32) by (bit_vector);
        assert(n & 3u32 < 4u32) by (bit_vector);
        lemma_four_keys_fit(len, n, (rounds - 1) as nat);
    }
}

/// A buffer related to `raw` as `steam_drmp_pass1` relates its output to
/// its input is `drmp_decode(raw, ..)`.
proof fn lemma_drmp_decode(raw: Seq<u8>, d: Seq<u8>, keys: Seq<u32>, size: u32)
    requires
        8 * (size / 8) <= raw.len(),
        d.len() == raw.len(),
        forall|j: int|
            0 <= j < size / 8 ==> {
                &&& #[trigger] le_u32(d, 8 * j) == drmp_block(raw, keys, j).0 ^ drmp_chain(raw, j).0
                &&& le_u32(d, 8 * j + 4) == drmp_block(raw, keys, j).1 ^ drmp_chain(raw, j).1
            },
        forall|i: int| 8 * (size / 8) <= i < raw.len() ==> #[trigger] d[i] == raw[i],
    ensures
        d == drmp_decode(raw, keys, size),
{
    assert forall|i: int| 0 <= i < d.len() implies #[trigger] d[i] == drmp_decode(raw, keys, size)[i] by {
        if i < 8 * (size / 8) {
            let j = i / 8;
            assert(0 <= j < size / 8);
            assert(8 * j + 8 <= 8 * (size / 8)) by (nonlinear_arith)
                requires
                    j < size / 8,
            ;
            assert(le_u32(d, 8 * j) == drmp_block(raw, keys, j).0 ^ drmp_chain(raw, j).0);
            lemma_le_u32_bytes(d, 8 * j);
            lemma_le_u32_bytes(d, 8 * j + 4);
        }
    }
    assert(d =~= drmp_decode(raw, keys, size));
}

/// First pass of SteamDRMP.dll decryption (modded XTEA with XOR chaining).
pub fn steam_drmp_pass1(data: &mut [u8], size: u32, keys: &[u32])
    requires
        8 * (size / 8) <= old(data)@.len(),
        size >= 8 ==> xtea_keys_fit(keys@.len() as int, DELTA.wrapping_mul(32), 32),
    ensures
        final(data)@.len() == old(data)@.len(),
        forall|j: int|
            0 <= j < size / 8 ==> {
                &&& #[trigger] le_u32(final(data)@, 8 * j) == drmp_block(old(data)@, keys@, j).0
                    ^ drmp_chain(old(data)@, j).0
                &&& le_u32(final(data)@, 8 * j + 4) == drmp_block(old(data)@, keys@, j).1
                    ^ drmp_chain(old(data)@, j).1
            },
        forall|i: int|
            8 * (size / 8) <= i < old(data)@.len() ==> #[trigger] final(data)@[i] == old(data)@[i],
        final(data)@ == drmp_decode(old(data)@, keys@, size),
{
    let ghost orig = data@;
    let ghost blocks = size / 8;
    let mut v1: u32 = 0x5555_5555;
    let mut v2: u32 = 0x5555_5555;

    let size = size as usize;
    let mut x: usize = 0;
    while size >= 8 && x <= size - 8
        invariant
            blocks == size / 8,
            8 * blocks <= orig.len(),
            blocks > 0 ==> xtea_keys_fit(keys@.len() as int, DELTA.wrapping_mul(32), 32),
            x % 8 == 0,
            x <= 8 * blocks,
            data@.len() == orig.len(),
            (v1, v2) == drmp_chain(orig, (x / 8) as int),
            forall|j: int|
                0 <= j < x / 8 ==> {
                    &&& #[trigger] le_u32(data@, 8 * j) == drmp_block(orig, keys@, j).0
                        ^ drmp_chain(orig, j).0
                    &&& le_u32(data@, 8 * j + 4) == drmp_block(orig, keys@, j).1 ^ drmp_chain(
                        orig,
                        j,
                    ).1
                },
            forall|i: int| x <= i < orig.len() ==> #[trigger] data@[i] == orig[i],
        decreases size - x,
    {
        let ghost before = data@;
        let ghost j0 = (x / 8) as int;
        assert(x + 8 <= 8 * blocks) by (nonlinear_arith)
            requires
                x + 8 <= size,
                x % 8 == 0,
                blocks == size / 8,
        ;
        let d1 = read_u32_at(data, x);
        let d2 = read_u32_at(data, x + 4);
        assert(d1 == le_u32(orig, 8 * j0) && d2 == le_u32(orig, 8 * j0 + 4));

        let mut res = [0u32; 2];
        steam_drmp_pass2(&mut res, keys, d1, d2, 32);

        data.wr_u32(x, res[0] ^ v1);
        let ghost mid = data@;
        data.wr_u32(x + 4, res[1] ^ v2);
        proof {
            lemma_write_then_read_u32(before, x as int, res[0] ^ v1);
            lemma_write_then_read_u32(mid, x + 4, res[1] ^ v2);
            assert(le_u32(data@, x as int) == le_u32(mid, x as int)) by {
                assert(data@[x as int] == mid[x as int]);
                assert(data@[x + 1] == mid[x + 1]);
                assert(data@[x + 2] == mid[x + 2]);
                assert(data@[x + 3] == mid[x + 3]);
            }
            assert forall|j: int| 0 <= j < j0 implies #[trigger] le_u32(data@, 8 * j) == le_u32(
                before,
                8 * j,
            ) && le_u32(data@, 8 * j + 4) == le_u32(before, 8 * j + 4) by {
                assert(data@[8 * j] == before[8 * j]);
                assert(data@[8 * j + 1] == before[8 * j + 1]);
                assert(data@[8 * j + 2] == before[8 * j + 2]);
                assert(data@[8 * j + 3] == before[8 * j + 3]);
                assert(data@[8 * j + 4] == before[8 * j + 4]);
                assert(data@[8 * j + 5] == before[8 * j + 5]);
                assert(data@[8 * j + 6] == before[8 * j + 6]);
                assert(data@[8 * j + 7] == before[8 * j + 7]);
            }
            assert(x == 8 * j0);
            assert((x + 8) / 8 == j0 + 1);
            assert(res[0] == drmp_block(orig, keys@, j0).0);
            assert(res[1] == drmp_block(orig, keys@, j0).1);
            assert(le_u32(data@, 8 * j0) == drmp_block(orig, keys@, j0).0 ^ drmp_chain(orig, j0).0);
            assert(le_u32(data@, 8 * j0 + 4) == drmp_block(orig, keys@, j0).1 ^ drmp_chain(
                orig,
                j0,
            ).1);
        }
        v1 = d1;
        v2 = d2;
        x += 8;
    }
    assert(x / 8 == blocks);
    proof {
        lemma_drmp_decode(orig, data@, keys@, size as u32);
    }
}

/// A value is the little-endian dword of its own bytes.
pub proof fn lemma_bytes_le_u32(d: Seq<u8>, off: int, w: u32)
    requires
        0 <= off,
        off + 4 <= d.len(),
        d[off] == byte_of(w, 0),
        d[off + 1] == byte_of(w, 1),
        d[off + 2] == byte_of(w, 2),
        d[off + 3] == byte_of(w, 3),
    ensures
        le_u32(d, off) == w,
{
    let b0 = d[off];
    let b1 = d[off + 1];
    let b2 = d[off + 2];
    let b3 = d[off + 3];
    assert(b0 == ((w >> 0u32) & 0xff) as u8 && b1 == ((w >> 8u32) & 0xff) as u8 && b2 == ((w
        >> 16u32) & 0xff) as u8 && b3 == ((w >> 24u32) & 0xff) as u8);
    assert((b0 as u32) + (b1 as u32) * 0x100 + (b2 as u32) * 0x1_0000 + (b3 as u32) * 0x100_0000
        == w) by (bit_vector)
        requires
            b0 == ((w >> 0u32) & 0xff) as u8,
            b1 == ((w >> 8u32) & 0xff) as u8,
            b2 == ((w >> 16u32) & 0xff) as u8,
            b3 == ((w >> 24u32) & 0xff) as u8,
    ;
}

/// Decoding two dwords without a key twice gives them back: the first dword
/// stays as it is and keys the second both times.
pub proof fn lemma_xor_two_dwords_round_trip(raw: Seq<u8>)
    requires
        raw.len() >= 8,
    ensures
        xor_decode(xor_decode(raw, 8, 0), 8, 0) == raw,
{
    let d1 = xor_decode(raw, 8, 0);
    let d2 = xor_decode(d1, 8, 0);
    assert(xor_start(8, 0) == 4);
    assert(xor_count(8, 0) == 1);
    assert(d1[0] == raw[0] && d1[1] == raw[1] && d1[2] == raw[2] && d1[3] == raw[3]);
    assert(le_u32(d1, 0) == le_u32(raw, 0));
    let w = le_u32(raw, 4) ^ le_u32(raw, 0);
    assert(d1[4] == byte_of(w, 0) && d1[5] == byte_of(w, 1) && d1[6] == byte_of(w, 2) && d1[7]
        == byte_of(w, 3));
    lemma_bytes_le_u32(d1, 4, w);
    let a = le_u32(raw, 4);
    let k = le_u32(raw, 0);
    let v = le_u32(d1, 4) ^ le_u32(d1, 0);
    assert(v == a) by (bit_vector)
        requires
            v == (a ^ k) ^ k,
    ;
    lemma_le_u32_bytes(raw, 4);
    assert(d2 =~= raw);
}

} // verus!
