use vstd::prelude::*;

pub mod chacha20;
pub mod sm4;

use crate::error::{AnguluError, AnguluResult, CrypterError};

verus! {

/// How an algorithm consumes its input.
#[derive(Debug, Clone, Copy, PartialEq, Eq, Structural)]
pub enum CipherAlgorithmType {
    /// Any length is accepted; consecutive calls continue one keystream.
    Stream,
    /// Inputs must be a whole number of blocks of the given size.
    Block(usize),
}

/// What every cipher algorithm offers: fixed IV and key lengths, its kind,
/// construction from an IV and a key, and a transform that carries its state
/// from one call to the next.
pub trait CipherAlgorithmTrait: Sized {
    /// The IV length the algorithm requires.
    spec fn spec_iv_length() -> nat;

    /// The key length the algorithm requires.
    spec fn spec_key_length() -> nat;

    /// The kind of the algorithm.
    spec fn spec_algorithm_type() -> CipherAlgorithmType;

    /// `self` is a fresh instance for `iv` and `key`.
    spec fn spec_fresh(&self, iv: Seq<u8>, key: Seq<u8>) -> bool;

    /// Whether `self` transforms an input of `len` bytes.
    spec fn spec_accepts(&self, len: nat) -> bool;

    /// What `self` writes for the input `src`.
    spec fn spec_output(&self, src: Seq<u8>) -> Seq<u8>;

    /// `next` is the state `self` moves on to after transforming `src`.
    spec fn spec_advanced(&self, next: &Self, src: Seq<u8>) -> bool;

    fn iv_length() -> (r: usize)
        ensures
            r == Self::spec_iv_length(),
    ;

    fn key_length() -> (r: usize)
        ensures
            r == Self::spec_key_length(),
    ;

    fn algorithm_type() -> (r: CipherAlgorithmType)
        ensures
            r == Self::spec_algorithm_type(),
    ;

    /// Checks the IV length, then the key length, and on success makes a
    /// fresh instance.
    fn new(iv: &[u8], key: &[u8]) -> (r: AnguluResult<Self>)
        ensures
            iv@.len() != Self::spec_iv_length() ==> r == Err::<Self, AnguluError>(
                AnguluError::Crypter(CrypterError::InvalidIVLength),
            ),
            iv@.len() == Self::spec_iv_length() && key@.len() != Self::spec_key_length() ==> r
                == Err::<Self, AnguluError>(AnguluError::Crypter(CrypterError::InvalidKeyLength)),
            iv@.len() == Self::spec_iv_length() && key@.len() == Self::spec_key_length() ==> (r
                matches Ok(c) && c.spec_fresh(iv@, key@)),
    ;

    /// Transforms `src_data` into `dst_data` and moves the state on. It
    /// succeeds exactly when the lengths match and the algorithm accepts an
    /// input of that length; a refusal is `CryptionFailed` and changes nothing.
    fn crypt(&mut self, src_data: &[u8], dst_data: &mut [u8]) -> (r: AnguluResult<()>)
        ensures
            src_data@.len() == old(dst_data)@.len() && old(self).spec_accepts(src_data@.len())
                ==> r is Ok,
            r is Ok ==> {
                &&& src_data@.len() == old(dst_data)@.len()
                &&& old(self).spec_accepts(src_data@.len())
                &&& final(dst_data)@ == old(self).spec_output(src_data@)
                &&& old(self).spec_advanced(&*final(self), src_data@)
            },
            r is Err ==> {
                &&& r == Err::<(), AnguluError>(AnguluError::Crypter(CrypterError::CryptionFailed))
                &&& *final(self) == *old(self)
            },
    ;
}

} // verus!
