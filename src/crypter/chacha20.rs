use vstd::prelude::*;

use ::chacha20::cipher::{KeyIvInit, StreamCipher, StreamCipherSeek};
use ::chacha20::ChaCha20;

use crate::crypter::{CipherAlgorithmTrait, CipherAlgorithmType};
use crate::error::{AnguluError, AnguluResult, CrypterError};
use crate::memory::{lemma_xor_involutive, memcpy, xor_seq};

verus! {

/// Length of a ChaCha20 nonce.
pub const CHACHA20_IV_LENGTH: usize = 12;

/// Length of a ChaCha20 key.
pub const CHACHA20_KEY_LENGTH: usize = 32;

/// Number of keystream bytes ChaCha20 offers for one key and nonce: its
/// 32-bit block counter leaves `u32::MAX` blocks of 64 bytes.
pub const CHACHA20_KEYSTREAM_LENGTH: u64 = 274877906880;

/// The byte at offset `pos` of the ChaCha20 keystream for `key` and `iv`.
pub uninterp spec fn chacha20_keystream_byte(key: Seq<u8>, iv: Seq<u8>, pos: int) -> u8;

/// `len` keystream bytes for `key` and `iv`, starting at offset `pos`.
pub open spec fn chacha20_keystream(key: Seq<u8>, iv: Seq<u8>, pos: int, len: nat) -> Seq<u8> {
    Seq::new(len, |i: int| chacha20_keystream_byte(key, iv, pos + i))
}

/// Two instances made with the same key and nonce that stand at the same
/// position undo each other: applying the keystream to `p` and then to the
/// result gives back `p`.
pub proof fn lemma_chacha20_round_trip(key: Seq<u8>, iv: Seq<u8>, pos: int, p: Seq<u8>)
    ensures
        xor_seq(
            xor_seq(p, chacha20_keystream(key, iv, pos, p.len())),
            chacha20_keystream(key, iv, pos, p.len()),
        ) == p,
{
    lemma_xor_involutive(p, chacha20_keystream(key, iv, pos, p.len()));
}

/// Transforming `p1 ++ p2` in one call gives what transforming `p1` and then
/// `p2` gives, the second call continuing the keystream after `p1`.
pub proof fn lemma_chacha20_split(key: Seq<u8>, iv: Seq<u8>, pos: int, p1: Seq<u8>, p2: Seq<u8>)
    ensures
        xor_seq(p1 + p2, chacha20_keystream(key, iv, pos, p1.len() + p2.len())) == xor_seq(
            p1,
            chacha20_keystream(key, iv, pos, p1.len()),
        ) + xor_seq(p2, chacha20_keystream(key, iv, pos + p1.len(), p2.len())),
{
    let whole = xor_seq(p1 + p2, chacha20_keystream(key, iv, pos, p1.len() + p2.len()));
    let parts = xor_seq(p1, chacha20_keystream(key, iv, pos, p1.len())) + xor_seq(
        p2,
        chacha20_keystream(key, iv, pos + p1.len(), p2.len()),
    );
    assert forall|i: int| 0 <= i < whole.len() implies #[trigger] whole[i] == parts[i] by {
        if i >= p1.len() {
            assert(pos + i == (pos + p1.len()) + (i - p1.len()));
        }
    }
    assert(whole =~= parts);
}

/// Relies on the `chacha20` crate: a `ChaCha20` made with `KeyIvInit::new`,
/// moved to byte `pos` with `StreamCipherSeek::seek`, then
/// `StreamCipher::apply_keystream` XORs `buf` with the keystream bytes from
/// `pos` on. It panics only past the end of the keystream, which `requires`
/// leaves out.
#[verifier::external_body]
fn apply_chacha20_keystream(key: &[u8; 32], iv: &[u8; 12], pos: u64, buf: &mut [u8])
    requires
        pos + old(buf)@.len() <= CHACHA20_KEYSTREAM_LENGTH,
    ensures
        final(buf)@ == Seq::new(
            old(buf)@.len(),
            |i: int| old(buf)@[i] ^ chacha20_keystream_byte(key@, iv@, pos + i),
        ),
{
    let mut cipher = ChaCha20::new(key.into(), iv.into());
    cipher.seek(pos);
    cipher.apply_keystream(buf);
}

/// ChaCha20 as a stream cipher: every call continues the keystream where
/// the previous one stopped.
pub struct ChaCha20CipherAlgorithm {
    m_key: [u8; 32],
    m_iv: [u8; 12],
    m_pos: u64,
}

impl ChaCha20CipherAlgorithm {
    pub const IV_LENGTH: usize = CHACHA20_IV_LENGTH;

    pub const KEY_LENGTH: usize = CHACHA20_KEY_LENGTH;

    /// ChaCha20 is a stream cipher.
    pub fn cipher_algorithm_type() -> (r: CipherAlgorithmType)
        ensures
            r == CipherAlgorithmType::Stream,
    {
        CipherAlgorithmType::Stream
    }

    /// The key.
    pub closed spec fn key(&self) -> Seq<u8> {
        self.m_key@
    }

    /// The nonce.
    pub closed spec fn iv(&self) -> Seq<u8> {
        self.m_iv@
    }

    /// How many keystream bytes have been used.
    pub closed spec fn position(&self) -> nat {
        self.m_pos as nat
    }

    /// Makes a fresh instance at the start of the keystream of `key` and
    /// `iv`, after checking their lengths.
    pub fn new(iv: &[u8], key: &[u8]) -> (r: AnguluResult<Self>)
        ensures
            iv@.len() != CHACHA20_IV_LENGTH ==> r == Err::<Self, AnguluError>(
                AnguluError::Crypter(CrypterError::InvalidIVLength),
            ),
            iv@.len() == CHACHA20_IV_LENGTH && key@.len() != CHACHA20_KEY_LENGTH ==> r == Err::<
                Self,
                AnguluError,
            >(AnguluError::Crypter(CrypterError::InvalidKeyLength)),
            iv@.len() == CHACHA20_IV_LENGTH && key@.len() == CHACHA20_KEY_LENGTH ==> (r matches Ok(
                c,
            ) && c.key() == key@ && c.iv() == iv@ && c.position() == 0),
    {
        if iv.len() != CHACHA20_IV_LENGTH {
            return Err(AnguluError::Crypter(CrypterError::InvalidIVLength));
        }
        if key.len() != CHACHA20_KEY_LENGTH {
            return Err(AnguluError::Crypter(CrypterError::InvalidKeyLength));
        }
        let mut m_key: [u8; 32] = [0u8; 32];
        let mut i: usize = 0;
        while i < 32
            invariant
                i <= 32,
                key@.len() == 32,
                m_key@.len() == 32,
                forall|j: int| 0 <= j < i ==> m_key@[j] == key@[j],
            decreases 32 - i,
        {
            m_key[i] = key[i];
            i = i + 1;
        }
        let mut m_iv: [u8; 12] = [0u8; 12];
        let mut i: usize = 0;
        while i < 12
            invariant
                i <= 12,
                iv@.len() == 12,
                m_iv@.len() == 12,
                forall|j: int| 0 <= j < i ==> m_iv@[j] == iv@[j],
            decreases 12 - i,
        {
            m_iv[i] = iv[i];
            i = i + 1;
        }
        assert(m_key@ =~= key@);
        assert(m_iv@ =~= iv@);
        Ok(ChaCha20CipherAlgorithm { m_key, m_iv, m_pos: 0 })
    }

    /// Writes into `dst_data` the bytes of `src_data` XORed with the next
    /// `src_data.len()` keystream bytes, and moves past them. Fails, changing
    /// nothing, when the lengths differ or the keystream would run out.
    pub fn crypt(&mut self, src_data: &[u8], dst_data: &mut [u8]) -> (r: AnguluResult<()>)
        ensures
            final(self).key() == old(self).key(),
            final(self).iv() == old(self).iv(),
            src_data@.len() != old(dst_data)@.len() || old(self).position() + src_data@.len()
                > CHACHA20_KEYSTREAM_LENGTH ==> {
                &&& r == Err::<(), AnguluError>(AnguluError::Crypter(CrypterError::CryptionFailed))
                &&& *final(self) == *old(self)
            },
            src_data@.len() == old(dst_data)@.len() && old(self).position() + src_data@.len()
                <= CHACHA20_KEYSTREAM_LENGTH ==> {
                &&& r is Ok
                &&& final(dst_data)@ == xor_seq(
                    src_data@,
                    chacha20_keystream(
                        old(self).key(),
                        old(self).iv(),
                        old(self).position() as int,
                        src_data@.len(),
                    ),
                )
                &&& final(self).position() == old(self).position() + src_data@.len()
            },
    {
        if self.m_pos > CHACHA20_KEYSTREAM_LENGTH || src_data.len() as u64
            > CHACHA20_KEYSTREAM_LENGTH - self.m_pos {
            return Err(AnguluError::Crypter(CrypterError::CryptionFailed));
        }
        match memcpy(dst_data, src_data) {
            Ok(()) => {},
            Err(_) => {
                return Err(AnguluError::Crypter(CrypterError::CryptionFailed));
            },
        }
        apply_chacha20_keystream(&self.m_key, &self.m_iv, self.m_pos, dst_data);
        assert(dst_data@ =~= xor_seq(
            src_data@,
            chacha20_keystream(self.m_key@, self.m_iv@, self.m_pos as int, src_data@.len()),
        ));
        self.m_pos = self.m_pos + src_data.len() as u64;
        Ok(())
    }
}

impl CipherAlgorithmTrait for ChaCha20CipherAlgorithm {
    open spec fn spec_iv_length() -> nat {
        CHACHA20_IV_LENGTH as nat
    }

    open spec fn spec_key_length() -> nat {
        CHACHA20_KEY_LENGTH as nat
    }

    open spec fn spec_algorithm_type() -> CipherAlgorithmType {
        CipherAlgorithmType::Stream
    }

    open spec fn spec_fresh(&self, iv: Seq<u8>, key: Seq<u8>) -> bool {
        self.key() == key && self.iv() == iv && self.position() == 0
    }

    open spec fn spec_accepts(&self, len: nat) -> bool {
        self.position() + len <= CHACHA20_KEYSTREAM_LENGTH
    }

    open spec fn spec_output(&self, src: Seq<u8>) -> Seq<u8> {
        xor_seq(src, chacha20_keystream(self.key(), self.iv(), self.position() as int, src.len()))
    }

    open spec fn spec_advanced(&self, next: &Self, src: Seq<u8>) -> bool {
        &&& next.key() == self.key()
        &&& next.iv() == self.iv()
        &&& next.position() == self.position() + src.len()
    }

    fn iv_length() -> (r: usize) {
        CHACHA20_IV_LENGTH
    }

    fn key_length() -> (r: usize) {
        CHACHA20_KEY_LENGTH
    }

    fn algorithm_type() -> (r: CipherAlgorithmType) {
        ChaCha20CipherAlgorithm::cipher_algorithm_type()
    }

    fn new(iv: &[u8], key: &[u8]) -> (r: AnguluResult<Self>) {
        ChaCha20CipherAlgorithm::new(iv, key)
    }

    fn crypt(&mut self, src_data: &[u8], dst_data: &mut [u8]) -> (r: AnguluResult<()>) {
        ChaCha20CipherAlgorithm::crypt(self, src_data, dst_data)
    }
}

} // verus!
