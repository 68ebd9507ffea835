//! Length-checked byte utilities and a uniform interface over a stream
//! cipher (ChaCha20) and a chained block cipher (SM4 in CBC mode).
pub mod crypter;
pub mod encoding;
pub mod error;
pub mod memory;

pub use crypter::chacha20::{
    ChaCha20CipherAlgorithm, CHACHA20_IV_LENGTH, CHACHA20_KEYSTREAM_LENGTH, CHACHA20_KEY_LENGTH,
};
pub use crypter::sm4::{Sm4CipherAlgorithm, SM4_BLOCK_LENGTH, SM4_IV_LENGTH, SM4_KEY_LENGTH};
pub use crypter::{CipherAlgorithmTrait, CipherAlgorithmType};
pub use encoding::EncodingTrait;
pub use error::{AnguluError, AnguluResult, CrypterError, EncodingError, EtcError};
pub use memory::{lemma_xor_involutive, memcpy, xor, xor_seq, ByteArray, ByteVector, MemoryTaker};
