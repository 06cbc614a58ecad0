//! The header of a chunk, its padding, and the check of its identifier.
use crate::bytes::{
    read_tag, read_u32, spec_u32_from_be, spec_u32_to_be, write_all, write_u32, write_zeros,
};
use crate::chunk::{spec_frame, spec_frame_checked, spec_padding, spec_tag, Id};
use crate::error::{spec_eof, Error};
use vstd::prelude::*;

verus! {

/// What stands before the payload of a chunk.
pub struct Header {
    pub chunk_id: Id,
    pub data_size: u32,
}

impl Header {
    /// The eight bytes of the header.
    pub open spec fn spec_bytes(self) -> Seq<u8> {
        self.chunk_id@ + spec_u32_to_be(self.data_size)
    }

    pub fn new(chunk_id: &Id, data_size: u32) -> (header: Self)
        ensures
            header.chunk_id == *chunk_id,
            header.data_size == data_size,
    {
        Header { chunk_id: *chunk_id, data_size: data_size }
    }

    /// Takes a header off `reader`, which needs eight bytes for that.
    pub fn decode(reader: &mut &[u8]) -> (r: Result<Self, Error>)
        ensures
            old(reader)@.len() >= 8 ==> r is Ok && r->Ok_0.chunk_id == spec_tag(old(reader)@)
                && r->Ok_0.data_size == spec_u32_from_be(old(reader)@.skip(4)),
            old(reader)@.len() >= 8 ==> final(reader)@ == old(reader)@.skip(8),
            old(reader)@.len() < 8 ==> r is Err && r->Err_0 == spec_eof(),
            old(reader)@.len() < 8 ==> final(reader)@ == old(reader)@,
    {
        let mut rest: &[u8] = *reader;
        let id: Id = read_tag(&mut rest)?;
        let size: u32 = read_u32(&mut rest)?;
        *reader = rest;
        proof {
            assert(id =~= spec_tag(old(reader)@));
            assert(old(reader)@.skip(4).skip(4) =~= old(reader)@.skip(8));
        }
        Ok(Header::new(&id, size))
    }

    /// Appends the eight bytes of the header to `writer`.
    pub fn encode(&self, writer: &mut Vec<u8>) -> (r: Result<(), Error>)
        ensures
            r is Ok,
            final(writer)@ == old(writer)@ + self.spec_bytes(),
    {
        write_all(writer, self.chunk_id.as_slice());
        write_u32(writer, self.data_size);
        assert(writer@ =~= old(writer)@ + self.spec_bytes());
        Ok(())
    }
}

/// The number of zero bytes that follow a payload of `data_size` bytes, so
/// that the next chunk starts at a multiple of four.
pub fn padding_size(data_size: u32) -> (padding: u32)
    ensures
        padding == spec_padding(data_size as int),
        padding < 4,
        (data_size + padding) % 4 == 0,
{
    (4 - data_size % 4) % 4
}

/// Tells a codec whether the identifier `passed` is the one that it is for.
pub fn check_chunk_id(passed: &Id, expected: &Id) -> (r: Result<(), Error>)
    ensures
        *passed == *expected ==> r is Ok,
        *passed != *expected ==> r == Err::<(), Error>(
            Error::UnexpectedChunk { id: *passed, expected: *expected },
        ),
{
    if id_eq(passed, expected) {
        Ok(())
    } else {
        Err(Error::UnexpectedChunk { id: *passed, expected: *expected })
    }
}

/// Tells whether two identifiers are the same.
pub fn id_eq(a: &Id, b: &Id) -> (same: bool)
    ensures
        same == (*a == *b),
{
    let same = a[0] == b[0] && a[1] == b[1] && a[2] == b[2] && a[3] == b[3];
    proof {
        if same {
            assert(*a =~= *b);
        }
    }
    same
}

/// The length of a payload of `len` bytes as the header of its chunk holds
/// it, where four bytes can hold it.
pub fn data_size(len: usize) -> (r: Result<u32, Error>)
    ensures
        len <= u32::MAX ==> r == Ok::<u32, Error>(len as u32),
        len > u32::MAX ==> r == Err::<u32, Error>(Error::TooLarge),
{
    if len > u32::MAX as usize {
        Err(Error::TooLarge)
    } else {
        Ok(len as u32)
    }
}

/// Appends the chunk with the identifier `id` and the payload `data` to
/// `writer`: header, payload and padding. Where the header cannot hold the
/// length of the payload, nothing is written.
pub fn write_chunk(id: &Id, data: &[u8], writer: &mut Vec<u8>) -> (r: Result<(), Error>)
    ensures
        match spec_frame_checked(*id, Ok(data@)) {
            Ok(bytes) => r is Ok && final(writer)@ == old(writer)@ + bytes,
            Err(e) => r == Err::<(), Error>(e) && final(writer)@ == old(writer)@,
        },
{
    let size: u32 = data_size(data.len())?;
    Header::new(id, size).encode(writer)?;
    write_all(writer, data);
    write_zeros(writer, padding_size(size));
    assert(writer@ =~= old(writer)@ + spec_frame(*id, data@));
    Ok(())
}

} // verus!
