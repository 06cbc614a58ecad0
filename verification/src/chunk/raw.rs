//! The chunk whose payload is kept as it is.
use crate::bytes::{read_to_end, write_all};
use crate::chunk::{Chunk, Id};
use crate::error::Error;
use vstd::prelude::*;

verus! {

/// A raw representation of a chunk.
///
/// This implementation does not interpret the data of a chunk at the time of
/// reading it from a BEAM file.
#[derive(Debug, PartialEq, Eq)]
pub struct RawChunk {
    /// The identifier of the chunk.
    pub id: Id,
    /// The bare data of the chunk.
    pub data: Vec<u8>,
}

/// What a `RawChunk` stands for.
pub struct RawChunkView {
    pub id: Id,
    pub data: Seq<u8>,
}

impl View for RawChunk {
    type V = RawChunkView;

    open spec fn view(&self) -> RawChunkView {
        RawChunkView { id: self.id, data: self.data@ }
    }
}

impl Chunk for RawChunk {
    open spec fn spec_id(v: RawChunkView) -> Id {
        v.id
    }

    open spec fn spec_decode_data(id: Id, data: Seq<u8>) -> Result<RawChunkView, Error> {
        Ok(RawChunkView { id, data })
    }

    open spec fn spec_encodable(v: RawChunkView) -> bool {
        true
    }

    open spec fn spec_encode_data(v: RawChunkView) -> Result<Seq<u8>, Error> {
        Ok(v.data)
    }

    open spec fn spec_canonical(v: RawChunkView) -> bool {
        true
    }

    fn id(&self) -> (id: &Id) {
        &self.id
    }

    fn decode_data(id: &Id, reader: &[u8]) -> (r: Result<Self, Error>) {
        let mut reader: &[u8] = reader;
        let buf = read_to_end(&mut reader);
        Ok(RawChunk { id: *id, data: buf })
    }

    fn encode_data(&self, writer: &mut Vec<u8>) -> (r: Result<(), Error>) {
        write_all(writer, self.data.as_slice());
        Ok(())
    }

    fn is_encodable(&self) -> (b: bool) {
        true
    }
}

} // verus!
