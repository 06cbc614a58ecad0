//! This crate provides functionality to process Erlang BEAM file.
//!
//! A BEAM file is a container of chunks. Each chunk has a four-byte
//! identifier, a length and a payload, which is padded to a multiple of four
//! bytes. `BeamFile` reads the chunks of a file from bytes and writes them to
//! bytes; the `Chunk` trait says how one kind of chunk is read and written.
//!
//! What the functions do is stated over the views of the values: the chunks
//! as mathematical sequences, and the bytes that they are stored in. A file
//! that was written is read back as the same file.
//!
//! # Examples
//!
//! Collects ID of chunks in a BEAM file:
//!
//! ```
//! use beam_file::chunk::{Chunk, RawChunk};
//! use beam_file::{RawBeamFile, StandardBeamFile};
//!
//! let chunk = RawChunk { id: *b"Line", data: vec![0, 0, 0, 0] };
//! let mut bytes = Vec::new();
//! RawBeamFile { chunks: vec![chunk] }.to_writer(&mut bytes).unwrap();
//!
//! let beam = StandardBeamFile::from_reader(&bytes).unwrap();
//! assert_eq!(vec![b"Line"], beam.chunks.iter().map(|c| c.id()).collect::<Vec<_>>());
//! ```
pub mod beam_file;
pub mod bytes;
pub mod chunk;
pub mod error;
pub mod parts;
pub mod table;
pub mod zlib;

pub use crate::beam_file::BeamFile;
pub use crate::error::Error;

use vstd::prelude::*;

verus! {

/// A BEAM file whose chunks are kept as they are.
pub type RawBeamFile = BeamFile<chunk::RawChunk>;

/// A BEAM file whose commonly used chunks are decoded.
pub type StandardBeamFile = BeamFile<chunk::StandardChunk>;

/// What a function that can fail gives back.
pub type Result<T> = std::result::Result<T, Error>;

} // verus!
