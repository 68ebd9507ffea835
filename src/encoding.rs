use vstd::prelude::*;

use crate::error::AnguluResult;
use crate::memory::ByteVector;

verus! {

/// A text encoding of binary data, such as hex or base64, through which
/// callers render ciphertext as text and read it back.
pub trait EncodingTrait {
    /// The text form of `data`.
    fn encode(&self, data: &[u8]) -> String;

    /// The bytes that `data` encodes, or an `EncodingError` when it is not a
    /// valid encoding.
    fn decode(&self, data: &str) -> AnguluResult<ByteVector>;
}

} // verus!
