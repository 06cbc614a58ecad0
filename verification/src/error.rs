//! The errors of decoding and encoding.
use vstd::prelude::*;

verus! {

/// Why reading from a byte source or writing to a byte sink failed.
#[derive(Debug, Clone, Copy, PartialEq, Eq)]
pub enum IoFailure {
    /// The source ended before the bytes that the format announces.
    UnexpectedEof,
    /// Any other failure of a reader, of a writer or of the compressor.
    Other,
}

/// What decoding or encoding can fail with.
#[derive(Debug, Clone, Copy, PartialEq, Eq)]
pub enum Error {
    /// Bytes could not be read or written.
    Io(IoFailure),
    /// The compressed part of a literal table is no valid zlib stream.
    Compression,
    /// A length does not fit the 32-bit field that has to hold it.
    TooLarge,
    /// The bytes of an atom's name are no valid UTF-8.
    InvalidString,
    /// The container does not start with the magic number `FOR1`.
    UnexpectedMagicNumber { magic_number: [u8; 4] },
    /// The container's form type is not `BEAM`.
    UnexpectedFormType { form_type: [u8; 4] },
    /// A chunk's payload was handed to the codec of another kind of chunk.
    UnexpectedChunk { id: [u8; 4], expected: [u8; 4] },
}

/// The error of a read that found too few bytes.
pub open spec fn spec_eof() -> Error {
    Error::Io(IoFailure::UnexpectedEof)
}

} // verus!
