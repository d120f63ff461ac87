//! AES-256 decryption helpers: ECB for the IV rebuild and CBC for the code
//! section, always without padding.

use aes::Aes256;
use cipher::generic_array::GenericArray;
use cipher::{BlockDecrypt, KeyInit};
use vstd::prelude::*;

verus! {

/// Incomplete blocks must only be handled by the caller; this is the block size.
pub const BLOCK_SIZE: usize = 16;

/// `v` cut or zero-padded to exactly `n` bytes.
pub open spec fn pad_to(v: Seq<u8>, n: int) -> Seq<u8> {
    Seq::new(n as nat, |i: int| if i < v.len() { v[i] } else { 0u8 })
}

/// Names what AES-256 decryption of one 16-byte `block` under `key` gives.
pub uninterp spec fn aes256_decrypt(key: Seq<u8>, block: Seq<u8>) -> Seq<u8>;

fn key_from(v: &[u8]) -> (r: [u8; 32])
    ensures
        r@ == pad_to(v@, 32),
{
    let mut key = [0u8; 32];
    let n = if v.len() < 32 {
        v.len()
    } else {
        32
    };
    let mut i: usize = 0;
    while i < n
        invariant
            n <= 32,
            n <= v@.len(),
            n == v@.len() || n == 32,
            i <= n,
            forall|k: int| 0 <= k < i ==> key@[k] == v@[k],
            forall|k: int| i <= k < 32 ==> key@[k] == 0,
        decreases n - i,
    {
        key[i] = v[i];
        i += 1;
    }
    assert(key@ =~= pad_to(v@, 32));
    key
}

fn iv_from(v: &[u8]) -> (r: [u8; 16])
    ensures
        r@ == pad_to(v@, 16),
{
    let mut iv = [0u8; 16];
    let n = if v.len() < 16 {
        v.len()
    } else {
        16
    };
    let mut i: usize = 0;
    while i < n
        invariant
            n <= 16,
            n <= v@.len(),
            n == v@.len() || n == 16,
            i <= n,
            forall|k: int| 0 <= k < i ==> iv@[k] == v@[k],
            forall|k: int| i <= k < 16 ==> iv@[k] == 0,
        decreases n - i,
    {
        iv[i] = v[i];
        i += 1;
    }
    assert(iv@ =~= pad_to(v@, 16));
    iv
}

/// Decrypts a single block with AES-256 in raw ECB mode, through
/// `aes::Aes256` and `cipher::BlockDecrypt::decrypt_block`.
///
/// The contract names the decrypted block; AES itself is not stated.
#[verifier::external_body]
fn decrypt_block(key: &[u8; 32], block: &[u8]) -> (r: [u8; 16])
    requires
        block@.len() == 16,
    ensures
        r@ == aes256_decrypt(key@, block@),
{
    let cipher = Aes256::new(GenericArray::from_slice(key));
    let mut buf = GenericArray::clone_from_slice(block);
    cipher.decrypt_block(&mut buf);
    buf.into()
}

/// The cipher mode used by [`AesHelper::decrypt`].
#[derive(Clone, Copy, PartialEq, Eq)]
pub enum AesMode {
    Ecb,
    Cbc,
}

/// The `j`-th 16-byte block of `data`.
pub open spec fn block_at(data: Seq<u8>, j: int) -> Seq<u8> {
    data.subrange(16 * j, 16 * j + 16)
}

/// The bytes XORed into the `j`-th decrypted CBC block: the IV first, the
/// previous ciphertext block after that.
pub open spec fn cbc_chain(iv: Seq<u8>, data: Seq<u8>, j: int) -> Seq<u8> {
    if j == 0 {
        iv
    } else {
        block_at(data, j - 1)
    }
}

/// The number of bytes in the whole blocks of `data`.
pub open spec fn whole_blocks_len(len: int) -> int {
    (len / 16) * 16
}

/// The decryption of the whole blocks of `data`; a trailing partial block is dropped.
pub open spec fn spec_decrypt(key: Seq<u8>, iv: Seq<u8>, data: Seq<u8>, mode: AesMode) -> Seq<u8> {
    Seq::new(
        whole_blocks_len(data.len() as int) as nat,
        |i: int|
            {
                let plain = aes256_decrypt(key, block_at(data, i / 16))[i % 16];
                match mode {
                    AesMode::Ecb => plain,
                    AesMode::Cbc => plain ^ cbc_chain(iv, data, i / 16)[i % 16],
                }
            },
    )
}

/// AES-256 decrypt wrapper holding the key and IV.
pub struct AesHelper {
    original_key: [u8; 32],
    original_iv: [u8; 16],
}

impl AesHelper {
    /// The 32-byte key in use.
    pub closed spec fn key(&self) -> Seq<u8> {
        self.original_key@
    }

    /// The 16-byte IV in use.
    pub closed spec fn iv(&self) -> Seq<u8> {
        self.original_iv@
    }

    /// The key holds 32 bytes and the IV 16.
    pub proof fn lemma_key_iv_lengths(&self)
        ensures
            self.key().len() == 32,
            self.iv().len() == 16,
    {
    }

    pub fn new(key: &[u8], iv: &[u8]) -> (r: Self)
        ensures
            r.key() == pad_to(key@, 32),
            r.iv() == pad_to(iv@, 16),
    {
        Self { original_key: key_from(key), original_iv: iv_from(iv) }
    }

    /// Rebuilds the stored IV by decoding it with ECB.
    pub fn rebuild_iv(&mut self, iv: Option<&[u8]>) -> (r: bool)
        ensures
            r,
            final(self).key() == old(self).key(),
            final(self).iv().len() == 16,
            final(self).iv() == aes256_decrypt(
                old(self).key(),
                match iv {
                    Some(v) => pad_to(v@, 16),
                    None => old(self).iv(),
                },
            ),
    {
        let input = match iv {
            Some(v) => iv_from(v),
            None => self.original_iv,
        };
        self.original_iv = decrypt_block(&self.original_key, input.as_slice());
        true
    }

    /// Decrypts `data` using the given mode, dropping any trailing partial block.
    pub fn decrypt(&self, data: &[u8], mode: AesMode) -> (r: Vec<u8>)
        ensures
            r@ == spec_decrypt(self.key(), self.iv(), data@, mode),
    {
        let blocks = data.len() / BLOCK_SIZE;
        let mut out: Vec<u8> = Vec::new();
        let mut prev: [u8; 16] = self.original_iv;

        let mut x: usize = 0;
        while x < blocks
            invariant
                blocks == data@.len() / 16,
                x <= blocks,
                out@.len() == 16 * x,
                prev@ == cbc_chain(self.iv(), data@, x as int),
                forall|i: int|
                    0 <= i < out@.len() ==> #[trigger] out@[i] == spec_decrypt(
                        self.key(),
                        self.iv(),
                        data@,
                        mode,
                    )[i],
            decreases blocks - x,
        {
            assert(data@.len() == data.len());
            assert((x + 1) * 16 <= data@.len()) by (nonlinear_arith)
                requires
                    x < blocks,
                    blocks == data@.len() / 16,
            ;
            let b = vstd::slice::slice_subrange(data, x * 16, (x + 1) * 16);
            let plain = decrypt_block(&self.original_key, b);
            assert(b@ == block_at(data@, x as int));
            let ghost before = out@;
            let mut i: usize = 0;
            while i < BLOCK_SIZE
                invariant
                    blocks == data@.len() / 16,
                    x < blocks,
                    i <= 16,
                    out@.len() == 16 * x + i,
                    plain@ == aes256_decrypt(self.key(), block_at(data@, x as int)),
                    prev@ == cbc_chain(self.iv(), data@, x as int),
                    forall|k: int| 0 <= k < 16 * x ==> #[trigger] out@[k] == before[k],
                    forall|k: int|
                        16 * x <= k < out@.len() ==> #[trigger] out@[k] == spec_decrypt(
                            self.key(),
                            self.iv(),
                            data@,
                            mode,
                        )[k],
                decreases 16 - i,
            {
                let byte = match mode {
                    AesMode::Ecb => plain[i],
                    AesMode::Cbc => plain[i] ^ prev[i],
                };
                proof {
                    let k = 16 * x + i;
                    assert(k / 16 == x as int && k % 16 == i as int) by (nonlinear_arith)
                        requires
                            k == 16 * x + i,
                            i < 16,
                    ;
                    assert(k < whole_blocks_len(data@.len() as int)) by (nonlinear_arith)
                        requires
                            k == 16 * x + i,
                            i < 16,
                            x < blocks,
                            blocks == data@.len() / 16,
                    ;
                }
                out.push(byte);
                i += 1;
            }
            let mut k: usize = 0;
            while k < BLOCK_SIZE
                invariant
                    b@ == block_at(data@, x as int),
                    b@.len() == 16,
                    k <= 16,
                    forall|t: int| 0 <= t < k ==> prev@[t] == b@[t],
                decreases 16 - k,
            {
                prev[k] = b[k];
                k += 1;
            }
            assert(prev@ =~= cbc_chain(self.iv(), data@, x + 1));
            x += 1;
        }
        assert(out@ =~= spec_decrypt(self.key(), self.iv(), data@, mode));
        out
    }

    /// Decrypts the full dataset, appending any trailing bytes unchanged so the
    /// output length always matches the input.
    pub fn decrypt_preserving_tail(&self, data: &[u8], mode: AesMode) -> (r: Vec<u8>)
        ensures
            r@ == spec_decrypt(self.key(), self.iv(), data@, mode) + data@.skip(
                whole_blocks_len(data@.len() as int),
            ),
    {
        let mut out = self.decrypt(data, mode);
        let consumed = (data.len() / BLOCK_SIZE) * BLOCK_SIZE;
        if consumed < data.len() {
            let tail = vstd::slice::slice_subrange(data, consumed, data.len());
            let ghost before = out@;
            let mut i: usize = 0;
            while i < tail.len()
                invariant
                    i <= tail@.len(),
                    out@ == before + tail@.take(i as int),
                decreases tail@.len() - i,
            {
                out.push(tail[i]);
                i += 1;
                assert(out@ =~= before + tail@.take(i as int));
            }
            assert(tail@.take(tail@.len() as int) =~= tail@);
        } else {
            assert(data@.skip(whole_blocks_len(data@.len() as int)) =~= Seq::<u8>::empty());
        }
        assert(out@ =~= spec_decrypt(self.key(), self.iv(), data@, mode) + data@.skip(
            whole_blocks_len(data@.len() as int),
        ));
        out
    }
}

/// The decryption keeps exactly the whole blocks: its length is the input
/// length rounded down to a multiple of the block size; the tail-preserving
/// form has the input's length, and its tail is the input's tail unchanged.
pub proof fn lemma_decrypt_lengths(key: Seq<u8>, iv: Seq<u8>, data: Seq<u8>, mode: AesMode)
    ensures
        spec_decrypt(key, iv, data, mode).len() == (data.len() / 16) * 16,
        (data.len() / 16) * 16 <= data.len() < (data.len() / 16) * 16 + 16,
        (spec_decrypt(key, iv, data, mode) + data.skip(whole_blocks_len(data.len() as int))).len()
            == data.len(),
{
}

/// A CBC-decrypted block is the ECB decryption of the same block XORed with
/// the previous ciphertext block (the IV for the first block).
pub proof fn lemma_cbc_is_chained_ecb(key: Seq<u8>, iv: Seq<u8>, data: Seq<u8>, i: int)
    requires
        0 <= i < whole_blocks_len(data.len() as int),
    ensures
        spec_decrypt(key, iv, data, AesMode::Cbc)[i] == spec_decrypt(key, iv, data, AesMode::Ecb)[i]
            ^ cbc_chain(iv, data, i / 16)[i % 16],
{
}

} // verus!
