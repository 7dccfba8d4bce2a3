use vstd::prelude::*;

verus! {

/// Why an operation of this library failed.
#[derive(Debug, Clone, Copy, PartialEq, Eq, Structural)]
pub enum PngError {
    /// A chunk type tag is not made of exactly four ASCII letters.
    InvalidChunkType,
    /// The checksum stored in a chunk is not the checksum of its contents.
    CrcMismatch,
    /// A buffer does not begin with the PNG signature.
    InvalidSignature,
    /// The bytes of a chunk are not as many as its length field declares:
    /// the buffer ends before the chunk does, or, where one chunk is parsed by
    /// itself, the bytes go on after it.
    TruncatedChunk,
    /// A chunk's payload was asked for as text and is not valid UTF-8.
    Utf8DecodeError,
    /// No chunk of the container carries the requested type tag.
    ChunkNotFound,
}

} // verus!
