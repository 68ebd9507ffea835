use vstd::prelude::*;

use gm_sm4::Sm4Cipher;

use crate::crypter::{CipherAlgorithmTrait, CipherAlgorithmType};
use crate::error::{AnguluError, AnguluResult, CrypterError};
use crate::memory::xor_seq;

verus! {

/// Length of the SM4 IV.
pub const SM4_IV_LENGTH: usize = 16;

/// Length of an SM4 key.
pub const SM4_KEY_LENGTH: usize = 16;

/// Length of an SM4 block.
pub const SM4_BLOCK_LENGTH: usize = 16;

/// SM4 encryption of the 16-byte `block` under the 16-byte `key`.
pub uninterp spec fn sm4_encrypt_block(key: Seq<u8>, block: Seq<u8>) -> Seq<u8>;

/// Relies on the `gm_sm4` crate: `Sm4Cipher::new` expands the key and
/// `Sm4Cipher::encrypt` enciphers one block. For a 16-byte key and a 16-byte
/// block both return `Ok`, and the block returned has 16 bytes.
#[verifier::external_body]
fn sm4_encrypt(key: &[u8; 16], block: &[u8; 16]) -> (r: Option<Vec<u8>>)
    ensures
        r is Some,
        r->Some_0@ == sm4_encrypt_block(key@, block@),
        r->Some_0@.len() == 16,
{
    match Sm4Cipher::new(key) {
        Ok(cipher) => cipher.encrypt(block).ok(),
        Err(_) => None,
    }
}

/// CBC encryption of the whole blocks of `src` under `key`, chaining from
/// `prev`: each block is XORed with the previous ciphertext block (`prev`
/// for the first) and then enciphered.
pub open spec fn cbc_encrypt(key: Seq<u8>, prev: Seq<u8>, src: Seq<u8>) -> Seq<u8>
    decreases src.len(),
{
    if src.len() < SM4_BLOCK_LENGTH {
        Seq::empty()
    } else {
        let c = sm4_encrypt_block(key, xor_seq(src.take(SM4_BLOCK_LENGTH as int), prev));
        c + cbc_encrypt(key, c, src.skip(SM4_BLOCK_LENGTH as int))
    }
}

/// The block that chaining continues from once `src` has been encrypted
/// after `prev`: the last ciphertext block, or `prev` for an empty input.
pub open spec fn cbc_chain(key: Seq<u8>, prev: Seq<u8>, src: Seq<u8>) -> Seq<u8>
    decreases src.len(),
{
    if src.len() < SM4_BLOCK_LENGTH {
        prev
    } else {
        let c = sm4_encrypt_block(key, xor_seq(src.take(SM4_BLOCK_LENGTH as int), prev));
        cbc_chain(key, c, src.skip(SM4_BLOCK_LENGTH as int))
    }
}

/// Encrypting `p1 ++ p2`, where `p1` is a whole number of blocks, gives the
/// encryption of `p1` followed by the encryption of `p2` chained from where
/// `p1` left off; and it leaves the same chaining block.
pub proof fn lemma_cbc_split(key: Seq<u8>, prev: Seq<u8>, p1: Seq<u8>, p2: Seq<u8>)
    requires
        p1.len() % (SM4_BLOCK_LENGTH as nat) == 0,
    ensures
        cbc_encrypt(key, prev, p1 + p2) == cbc_encrypt(key, prev, p1) + cbc_encrypt(
            key,
            cbc_chain(key, prev, p1),
            p2,
        ),
        cbc_chain(key, prev, p1 + p2) == cbc_chain(key, cbc_chain(key, prev, p1), p2),
    decreases p1.len(),
{
    if p1.len() == 0 {
        assert(p1 + p2 =~= p2);
        assert(cbc_encrypt(key, prev, p1) + cbc_encrypt(key, prev, p2) =~= cbc_encrypt(
            key,
            prev,
            p2,
        ));
    } else {
        let bs = SM4_BLOCK_LENGTH as int;
        let c = sm4_encrypt_block(key, xor_seq(p1.take(bs), prev));
        assert((p1 + p2).take(bs) =~= p1.take(bs));
        assert((p1 + p2).skip(bs) =~= p1.skip(bs) + p2);
        lemma_cbc_split(key, c, p1.skip(bs), p2);
        let a = cbc_encrypt(key, c, p1.skip(bs));
        let b = cbc_encrypt(key, cbc_chain(key, c, p1.skip(bs)), p2);
        assert(c + (a + b) =~= (c + a) + b);
    }
}

/// Encrypting exactly one block.
proof fn lemma_cbc_one_block(key: Seq<u8>, prev: Seq<u8>, block: Seq<u8>)
    requires
        block.len() == SM4_BLOCK_LENGTH,
    ensures
        cbc_encrypt(key, prev, block) == sm4_encrypt_block(key, xor_seq(block, prev)),
        cbc_chain(key, prev, block) == sm4_encrypt_block(key, xor_seq(block, prev)),
{
    let bs = SM4_BLOCK_LENGTH as int;
    let c = sm4_encrypt_block(key, xor_seq(block.take(bs), prev));
    assert(block.take(bs) =~= block);
    assert(block.skip(bs).len() == 0);
    assert(cbc_encrypt(key, c, block.skip(bs)) == Seq::<u8>::empty());
    assert(cbc_chain(key, c, block.skip(bs)) == c);
    assert(c + Seq::<u8>::empty() =~= c);
}

/// SM4 in CBC mode, encrypting: the last ciphertext block of each call is
/// kept and chains into the next call.
pub struct Sm4CipherAlgorithm {
    m_key: [u8; 16],
    m_iv: [u8; 16],
    m_prev_block: [u8; 16],
}

impl Sm4CipherAlgorithm {
    pub const IV_LENGTH: usize = SM4_IV_LENGTH;

    pub const KEY_LENGTH: usize = SM4_KEY_LENGTH;

    /// SM4 is a block cipher with 16-byte blocks.
    pub fn cipher_algorithm_type() -> (r: CipherAlgorithmType)
        ensures
            r == CipherAlgorithmType::Block(SM4_BLOCK_LENGTH),
    {
        CipherAlgorithmType::Block(SM4_BLOCK_LENGTH)
    }

    /// The key.
    pub closed spec fn key(&self) -> Seq<u8> {
        self.m_key@
    }

    /// The IV the instance was made with.
    pub closed spec fn iv(&self) -> Seq<u8> {
        self.m_iv@
    }

    /// The block the next call chains from.
    pub closed spec fn prev_block(&self) -> Seq<u8> {
        self.m_prev_block@
    }

    /// Makes a fresh instance whose chaining starts from `iv`, after checking
    /// the lengths of `iv` and `key`.
    pub fn new(iv: &[u8], key: &[u8]) -> (r: AnguluResult<Self>)
        ensures
            iv@.len() != SM4_IV_LENGTH ==> r == Err::<Self, AnguluError>(
                AnguluError::Crypter(CrypterError::InvalidIVLength),
            ),
            iv@.len() == SM4_IV_LENGTH && key@.len() != SM4_KEY_LENGTH ==> r == Err::<
                Self,
                AnguluError,
            >(AnguluError::Crypter(CrypterError::InvalidKeyLength)),
            iv@.len() == SM4_IV_LENGTH && key@.len() == SM4_KEY_LENGTH ==> (r matches Ok(c)
                && c.key() == key@ && c.iv() == iv@ && c.prev_block() == iv@),
    {
        if iv.len() != SM4_IV_LENGTH {
            return Err(AnguluError::Crypter(CrypterError::InvalidIVLength));
        }
        if key.len() != SM4_KEY_LENGTH {
            return Err(AnguluError::Crypter(CrypterError::InvalidKeyLength));
        }
        let mut m_key: [u8; 16] = [0u8; 16];
        let mut m_iv: [u8; 16] = [0u8; 16];
        let mut i: usize = 0;
        while i < 16
            invariant
                i <= 16,
                key@.len() == 16,
                iv@.len() == 16,
                m_key@.len() == 16,
                m_iv@.len() == 16,
                forall|j: int| 0 <= j < i ==> m_key@[j] == key@[j] && m_iv@[j] == iv@[j],
            decreases 16 - i,
        {
            m_key[i] = key[i];
            m_iv[i] = iv[i];
            i = i + 1;
        }
        assert(m_key@ =~= key@);
        assert(m_iv@ =~= iv@);
        Ok(Sm4CipherAlgorithm { m_key, m_iv, m_prev_block: m_iv })
    }

    /// Encrypts `src_data` into `dst_data` block by block, chaining from the
    /// block the previous call ended on. Fails, changing nothing, when the
    /// lengths differ or `src_data` is not a whole number of blocks.
    pub fn crypt(&mut self, src_data: &[u8], dst_data: &mut [u8]) -> (r: AnguluResult<()>)
        ensures
            final(self).key() == old(self).key(),
            final(self).iv() == old(self).iv(),
            src_data@.len() != old(dst_data)@.len() || src_data@.len() % (SM4_BLOCK_LENGTH as nat)
                != 0 ==> {
                &&& r == Err::<(), AnguluError>(AnguluError::Crypter(CrypterError::CryptionFailed))
                &&& *final(self) == *old(self)
            },
            src_data@.len() == old(dst_data)@.len() && src_data@.len() % (SM4_BLOCK_LENGTH as nat)
                == 0 ==> {
                &&& r is Ok
                &&& final(dst_data)@ == cbc_encrypt(old(self).key(), old(self).prev_block(), src_data@)
                &&& final(self).prev_block() == cbc_chain(
                    old(self).key(),
                    old(self).prev_block(),
                    src_data@,
                )
            },
    {
        if src_data.len() != dst_data.len() {
            return Err(AnguluError::Crypter(CrypterError::CryptionFailed));
        }
        if src_data.len() % SM4_BLOCK_LENGTH != 0 {
            return Err(AnguluError::Crypter(CrypterError::CryptionFailed));
        }
        let n = src_data.len();
        let nblocks = n / SM4_BLOCK_LENGTH;
        let ghost key = self.m_key@;
        let ghost p0 = self.m_prev_block@;
        let mut prev_block: [u8; 16] = self.m_prev_block;
        let mut b: usize = 0;
        proof {
            assert(src_data@.subrange(0, 0) =~= Seq::<u8>::empty());
            assert(dst_data@.subrange(0, 0) =~= Seq::<u8>::empty());
        }
        while b < nblocks
            invariant
                n == src_data@.len(),
                n == dst_data@.len(),
                n == nblocks * 16,
                b <= nblocks,
                key == self.m_key@,
                prev_block@.len() == 16,
                dst_data@.subrange(0, b * 16) == cbc_encrypt(
                    key,
                    p0,
                    src_data@.subrange(0, b * 16),
                ),
                prev_block@ == cbc_chain(key, p0, src_data@.subrange(0, b * 16)),
            decreases nblocks - b,
        {
            assert(b * 16 + 16 <= nblocks * 16) by (nonlinear_arith)
                requires
                    b < nblocks,
            ;
            let base = b * 16;
            let mut block: [u8; 16] = [0u8; 16];
            let mut i: usize = 0;
            while i < 16
                invariant
                    i <= 16,
                    base + 16 <= n,
                    n == src_data@.len(),
                    block@.len() == 16,
                    prev_block@.len() == 16,
                    forall|j: int|
                        0 <= j < i ==> block@[j] == src_data@[base + j] ^ prev_block@[j],
                decreases 16 - i,
            {
                block[i] = src_data[base + i] ^ prev_block[i];
                i = i + 1;
            }
            let ghost chunk = src_data@.subrange(base as int, base + 16);
            assert(block@ =~= xor_seq(chunk, prev_block@));
            let enc = match sm4_encrypt(&self.m_key, &block) {
                Some(v) => v,
                None => {
                    return Err(AnguluError::Crypter(CrypterError::CryptionFailed));
                },
            };
            let ghost old_dst = dst_data@;
            let mut i: usize = 0;
            while i < 16
                invariant
                    i <= 16,
                    base + 16 <= n,
                    n == dst_data@.len(),
                    enc@.len() == 16,
                    prev_block@.len() == 16,
                    forall|j: int| 0 <= j < i ==> dst_data@[base + j] == enc@[j],
                    forall|j: int| 0 <= j < i ==> prev_block@[j] == enc@[j],
                    forall|j: int|
                        0 <= j < n && !(base <= j < base + i) ==> dst_data@[j] == old_dst[j],
                decreases 16 - i,
            {
                dst_data[base + i] = enc[i];
                prev_block[i] = enc[i];
                i = i + 1;
            }
            proof {
                let done = src_data@.subrange(0, base as int);
                let prev = cbc_chain(key, p0, done);
                lemma_cbc_split(key, p0, done, chunk);
                lemma_cbc_one_block(key, prev, chunk);
                assert(done + chunk =~= src_data@.subrange(0, base + 16));
                assert(prev_block@ =~= enc@);
                assert(dst_data@.subrange(0, base + 16) =~= old_dst.subrange(0, base as int)
                    + enc@);
            }
            b = b + 1;
        }
        proof {
            assert(src_data@.subrange(0, n as int) =~= src_data@);
            assert(dst_data@.subrange(0, n as int) =~= dst_data@);
        }
        self.m_prev_block = prev_block;
        Ok(())
    }
}

impl CipherAlgorithmTrait for Sm4CipherAlgorithm {
    open spec fn spec_iv_length() -> nat {
        SM4_IV_LENGTH as nat
    }

    open spec fn spec_key_length() -> nat {
        SM4_KEY_LENGTH as nat
    }

    open spec fn spec_algorithm_type() -> CipherAlgorithmType {
        CipherAlgorithmType::Block(SM4_BLOCK_LENGTH)
    }

    open spec fn spec_fresh(&self, iv: Seq<u8>, key: Seq<u8>) -> bool {
        self.key() == key && self.iv() == iv && self.prev_block() == iv
    }

    open spec fn spec_accepts(&self, len: nat) -> bool {
        len % (SM4_BLOCK_LENGTH as nat) == 0
    }

    open spec fn spec_output(&self, src: Seq<u8>) -> Seq<u8> {
        cbc_encrypt(self.key(), self.prev_block(), src)
    }

    open spec fn spec_advanced(&self, next: &Self, src: Seq<u8>) -> bool {
        &&& next.key() == self.key()
        &&& next.iv() == self.iv()
        &&& next.prev_block() == cbc_chain(self.key(), self.prev_block(), src)
    }

    fn iv_length() -> (r: usize) {
        SM4_IV_LENGTH
    }

    fn key_length() -> (r: usize) {
        SM4_KEY_LENGTH
    }

    fn algorithm_type() -> (r: CipherAlgorithmType) {
        Sm4CipherAlgorithm::cipher_algorithm_type()
    }

    fn new(iv: &[u8], key: &[u8]) -> (r: AnguluResult<Self>) {
        Sm4CipherAlgorithm::new(iv, key)
    }

    fn crypt(&mut self, src_data: &[u8], dst_data: &mut [u8]) -> (r: AnguluResult<()>) {
        Sm4CipherAlgorithm::crypt(self, src_data, dst_data)
    }
}

} // verus!
