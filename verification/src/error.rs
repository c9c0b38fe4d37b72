//! The ways in which chunk encryption and decryption fail.

use vstd::prelude::*;

verus! {

/// Why an operation on chunks failed. Failures are returned, never retried.
#[derive(Clone, Copy, Debug, PartialEq, Eq, Structural)]
pub enum ChunkError {
    /// The key is not `KEY_LEN` bytes long.
    InvalidKeyLength,
    /// The cipher refused to seal a chunk.
    EncryptionFailure,
    /// The cipher refused to open a chunk: wrong key, altered or truncated
    /// data. Which of these it was is deliberately not told.
    DecryptionFailure,
    /// A record handed over by the host could not be read as an asset or a
    /// chunk. Host bindings report it; no function of this crate returns it.
    MalformedInput,
}

} // verus!
