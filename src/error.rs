use vstd::prelude::*;

verus! {

/// Errors of the text encodings that sit on top of the ciphers.
#[derive(Debug, Clone, Copy, PartialEq, Eq, Structural)]
pub enum EncodingError {
    InvalidHex,
    InvalidBase64,
    BinaryEncoding,
}

/// Errors of the cipher algorithms and of the string encryption built on them.
#[derive(Debug, Clone, Copy, PartialEq, Eq, Structural)]
pub enum CrypterError {
    /// The IV does not have the length the algorithm requires.
    InvalidIVLength,
    /// The key does not have the length the algorithm requires.
    InvalidKeyLength,
    /// A transform was refused: mismatched lengths, a misaligned block
    /// input, or a failure of the underlying primitive.
    CryptionFailed,
    FinalizationFailed,
    BufferFlushFailed,
    ChecksumValidationFailed,
    StringEncodingFailed,
    StringDecodingFailed,
    EmptyStringNotAllowed,
    EmptyPasswordNotAllowed,
}

/// Errors of the memory utilities.
#[derive(Debug, Clone, Copy, PartialEq, Eq, Structural)]
pub enum EtcError {
    /// `memcpy` was given buffers of different lengths.
    MemoryLengthMismatch,
    /// `xor` was given buffers of different lengths.
    XorMemoryLengthMismatch,
    /// A `MemoryTaker` has fewer bytes left than were asked for.
    InsufficientMemoryContent,
}

/// The error type of the whole library.
#[derive(Debug, Clone, Copy, PartialEq, Eq, Structural)]
pub enum AnguluError {
    Encoding(EncodingError),
    Crypter(CrypterError),
    Etc(EtcError),
}

pub type AnguluResult<T> = Result<T, AnguluError>;

} // verus!
