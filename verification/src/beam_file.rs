//! The BEAM file: a header and chunks, one after the other.
//!
//! The header is the magic number `FOR1`, the number of bytes that follow it
//! as a big-endian `u32`, and the form type `BEAM`, which is counted among
//! those bytes. The chunks fill the rest of them.
use crate::bytes::{
    lemma_skip_prefix, lemma_u32_be_prefix, read_exact, read_tag, read_u32, spec_u32_from_be,
    spec_u32_to_be, write_all, write_u32,
};
use crate::chunk::aux::id_eq;
use crate::chunk::standard::lemma_standard_round_trip;
use crate::chunk::{
    lemma_frame_len, lemma_frame_unframe, lemma_truncated_chunk, spec_encode_chunk,
    spec_round_trips, spec_tag, spec_unframe, Chunk, Id, RawChunk, RawChunkView, StandardChunk,
    StandardChunkView,
};
use crate::error::{spec_eof, Error, IoFailure};
use crate::table::{spec_prepend, spec_table_bytes, spec_views};
use crate::zlib::spec_zlib_round_trips;
use vstd::prelude::*;
use vstd::seq_lib::lemma_concat_associative;

verus! {

/// `FOR1`, which a BEAM file starts with.
pub const MAGIC_NUMBER: [u8; 4] = [0x46, 0x4f, 0x52, 0x31];

/// `BEAM`, the form type of a BEAM file.
pub const FORM_TYPE: [u8; 4] = [0x42, 0x45, 0x41, 0x4d];

/// A BEAM File
#[derive(Debug)]
pub struct BeamFile<C> {
    pub chunks: Vec<C>,
}

impl<C: Chunk> View for BeamFile<C> {
    type V = Seq<C::V>;

    open spec fn view(&self) -> Seq<C::V> {
        spec_views(self.chunks@)
    }
}

/// What stands before the chunks of a BEAM file.
pub struct Header {
    pub magic_number: [u8; 4],
    pub payload_size: u32,
    pub type_id: [u8; 4],
}

/// The number of bytes that the header at the start of `b` announces, the
/// four of the form type included. The magic number is looked at before
/// anything behind it is read, the form type before anything behind it.
pub open spec fn spec_parse_header(b: Seq<u8>) -> Result<u32, Error> {
    if b.len() < 4 {
        Err(spec_eof())
    } else if spec_tag(b) != MAGIC_NUMBER {
        Err(Error::UnexpectedMagicNumber { magic_number: spec_tag(b) })
    } else if b.len() < 12 {
        Err(spec_eof())
    } else if spec_tag(b.skip(8)) != FORM_TYPE {
        Err(Error::UnexpectedFormType { form_type: spec_tag(b.skip(8)) })
    } else {
        Ok(spec_u32_from_be(b.skip(4)))
    }
}

/// The number of bytes that are taken off a reader of `b` for the header:
/// all twelve where the form type was reached, the four of a magic number
/// that is wrong, and none where `b` ends too early.
pub open spec fn spec_header_taken(b: Seq<u8>) -> int {
    match spec_parse_header(b) {
        Ok(_) => 12,
        Err(Error::UnexpectedFormType { .. }) => 12,
        Err(Error::UnexpectedMagicNumber { .. }) => 4,
        Err(_) => 0,
    }
}

impl Header {
    /// The twelve bytes of the header.
    pub open spec fn spec_bytes(self) -> Seq<u8> {
        self.magic_number@ + spec_u32_to_be(self.payload_size) + self.type_id@
    }

    /// The header of a BEAM file with `payload_size` bytes behind the size.
    pub fn new(payload_size: u32) -> (header: Self)
        ensures
            header.magic_number == MAGIC_NUMBER,
            header.payload_size == payload_size,
            header.type_id == FORM_TYPE,
    {
        Header { magic_number: MAGIC_NUMBER, payload_size: payload_size, type_id: FORM_TYPE }
    }

    /// Takes the header of a BEAM file off `reader`.
    ///
    /// Where `reader` ends before the header does, nothing is taken off it.
    /// A magic number or a form type that is wrong was read before it was
    /// judged, so `reader` stands behind it.
    pub fn from_reader(reader: &mut &[u8]) -> (r: Result<Self, Error>)
        ensures
            match spec_parse_header(old(reader)@) {
                Ok(size) => r is Ok && r->Ok_0.magic_number == MAGIC_NUMBER && r->Ok_0.payload_size
                    == size && r->Ok_0.type_id == FORM_TYPE,
                Err(e) => r is Err && r->Err_0 == e,
            },
            final(reader)@ == old(reader)@.skip(spec_header_taken(old(reader)@)),
    {
        let mut rest: &[u8] = *reader;
        let magic_number = read_tag(&mut rest)?;
        assert(magic_number =~= spec_tag(old(reader)@));
        if !id_eq(&magic_number, &MAGIC_NUMBER) {
            *reader = rest;
            return Err(Error::UnexpectedMagicNumber { magic_number: magic_number });
        }
        let payload_size: u32 = read_u32(&mut rest)?;
        let type_id = read_tag(&mut rest)?;
        proof {
            let b = old(reader)@;
            assert(b.skip(4).skip(4) =~= b.skip(8));
            assert(b.skip(8).skip(4) =~= b.skip(12));
            assert(type_id =~= spec_tag(b.skip(8)));
        }
        *reader = rest;
        if !id_eq(&type_id, &FORM_TYPE) {
            return Err(Error::UnexpectedFormType { form_type: type_id });
        }
        Ok(Header { magic_number: magic_number, payload_size: payload_size, type_id: type_id })
    }

    /// Appends the twelve bytes of the header to `writer`.
    pub fn to_writer(&self, writer: &mut Vec<u8>) -> (r: Result<(), Error>)
        ensures
            r is Ok,
            final(writer)@ == old(writer)@ + self.spec_bytes(),
    {
        write_all(writer, self.magic_number.as_slice());
        write_u32(writer, self.payload_size);
        write_all(writer, self.type_id.as_slice());
        assert(writer@ =~= old(writer)@ + self.spec_bytes());
        Ok(())
    }
}

/// The chunks that fill `b` to its end.
pub open spec fn spec_decode_chunks<C: Chunk>(b: Seq<u8>) -> Result<Seq<C::V>, Error>
    decreases b.len(),
{
    if b.len() == 0 {
        Ok(Seq::empty())
    } else {
        match spec_unframe(b) {
            None => Err(spec_eof()),
            Some((id, payload, n)) => match C::spec_decode_data(id, payload) {
                Err(e) => Err(e),
                Ok(v) => spec_prepend(seq![v], spec_decode_chunks::<C>(b.skip(n))),
            },
        }
    }
}

/// The chunks of the BEAM file at the start of `b`. What follows the bytes
/// that the header announces is not looked at.
pub open spec fn spec_decode<C: Chunk>(b: Seq<u8>) -> Result<Seq<C::V>, Error> {
    match spec_parse_header(b) {
        Err(e) => Err(e),
        Ok(size) => if size < 4 || b.len() - 12 < size - 4 {
            Err(spec_eof())
        } else {
            spec_decode_chunks::<C>(b.subrange(12, 12 + size - 4))
        },
    }
}

/// The bytes of the chunks, one after the other; the error of the first
/// chunk that has one.
pub open spec fn spec_encode_chunks<C: Chunk>(chunks: Seq<C::V>) -> Result<Seq<u8>, Error>
    decreases chunks.len(),
{
    if chunks.len() == 0 {
        Ok(Seq::empty())
    } else {
        match spec_encode_chunks::<C>(chunks.drop_last()) {
            Err(e) => Err(e),
            Ok(bytes) => match spec_encode_chunk::<C>(chunks.last()) {
                Err(e) => Err(e),
                Ok(chunk) => Ok(bytes + chunk),
            },
        }
    }
}

/// The bytes of the BEAM file with the given chunks.
pub open spec fn spec_encode<C: Chunk>(chunks: Seq<C::V>) -> Result<Seq<u8>, Error> {
    match spec_encode_chunks::<C>(chunks) {
        Err(e) => Err(e),
        Ok(body) => if body.len() + 4 > u32::MAX {
            Err(Error::TooLarge)
        } else {
            Ok(
                MAGIC_NUMBER@ + spec_u32_to_be((body.len() + 4) as u32) + FORM_TYPE@ + body,
            )
        },
    }
}

/// The number of bytes that the header announces where the chunks take `len`
/// bytes: the four bytes of the form type are counted too. Four bytes have
/// to hold the number.
pub fn payload_size(len: usize) -> (r: Result<u32, Error>)
    ensures
        len + 4 <= u32::MAX ==> r == Ok::<u32, Error>((len + 4) as u32),
        len + 4 > u32::MAX ==> r == Err::<u32, Error>(Error::TooLarge),
{
    if len > (u32::MAX - 4) as usize {
        Err(Error::TooLarge)
    } else {
        Ok(len as u32 + 4)
    }
}

/// Whether each of the chunks can be encoded.
pub open spec fn spec_chunks_encodable<C: Chunk>(chunks: Seq<C::V>) -> bool {
    forall|i: int| 0 <= i < chunks.len() ==> C::spec_encodable(#[trigger] chunks[i])
}

/// Whether each of the chunks is in the form that decoding gives to it.
pub open spec fn spec_chunks_canonical<C: Chunk>(chunks: Seq<C::V>) -> bool {
    forall|i: int| 0 <= i < chunks.len() ==> C::spec_canonical(#[trigger] chunks[i])
}

/// The position of the first of the chunks that has the identifier `id`.
pub open spec fn spec_position<C: Chunk>(chunks: Seq<C::V>, id: Id) -> Option<int>
    decreases chunks.len(),
{
    if chunks.len() == 0 {
        None
    } else if C::spec_id(chunks.first()) == id {
        Some(0)
    } else {
        match spec_position::<C>(chunks.drop_first(), id) {
            Some(i) => Some(i + 1),
            None => None,
        }
    }
}

impl<C: Chunk> BeamFile<C> {
    /// The chunk at `position`, counted from zero.
    pub fn get(&self, position: usize) -> (r: Option<&C>)
        ensures
            position < self.chunks@.len() ==> r == Some(&self.chunks@[position as int]),
            position >= self.chunks@.len() ==> r is None,
    {
        if position < self.chunks.len() {
            Some(&self.chunks[position])
        } else {
            None
        }
    }

    /// The first chunk that has the identifier `id`.
    pub fn find(&self, id: &Id) -> (r: Option<&C>)
        ensures
            match spec_position::<C>(self@, *id) {
                Some(i) => 0 <= i < self.chunks@.len() && r == Some(&self.chunks@[i]),
                None => r is None,
            },
    {
        let ghost all = self@;
        let mut i: usize = 0;
        assert(all.skip(0) =~= all);
        while i < self.chunks.len()
            invariant
                i <= self.chunks@.len(),
                all == spec_views(self.chunks@),
                spec_position::<C>(all, *id) == match spec_position::<C>(all.skip(i as int), *id) {
                    Some(k) => Some(k + i),
                    None => None,
                },
            decreases self.chunks@.len() - i,
        {
            proof {
                assert(all.skip(i as int).first() == self.chunks@[i as int]@);
                assert(all.skip(i as int).drop_first() =~= all.skip(i + 1));
            }
            if id_eq(self.chunks[i].id(), id) {
                return Some(&self.chunks[i]);
            }
            i = i + 1;
        }
        None
    }

    /// Decodes the BEAM file at the start of `reader`. The chunks that were
    /// decoded are in canonical form.
    pub fn from_reader(reader: &[u8]) -> (r: Result<Self, Error>)
        ensures
            match spec_decode::<C>(reader@) {
                Ok(chunks) => r is Ok && r->Ok_0@ == chunks,
                Err(e) => r is Err && r->Err_0 == e,
            },
            r matches Ok(beam) ==> spec_chunks_canonical::<C>(beam@),
    {
        let mut rest: &[u8] = reader;
        let header = Header::from_reader(&mut rest)?;
        if header.payload_size < 4 {
            return Err(Error::Io(IoFailure::UnexpectedEof));
        }
        let buf = read_exact(&mut rest, (header.payload_size - 4) as usize)?;
        assert(buf@ =~= reader@.subrange(12, 12 + header.payload_size - 4));
        let mut chunks: Vec<C> = Vec::new();
        let mut cursor: &[u8] = buf;
        proof {
            assert(spec_views(chunks@) =~= Seq::<C::V>::empty());
            if let Ok(tail) = spec_decode_chunks::<C>(buf@) {
                assert(Seq::<C::V>::empty() + tail =~= tail);
            }
        }
        while cursor.len() > 0
            invariant
                spec_decode::<C>(reader@) == spec_decode_chunks::<C>(buf@),
                spec_decode_chunks::<C>(buf@) == spec_prepend(
                    spec_views(chunks@),
                    spec_decode_chunks::<C>(cursor@),
                ),
                spec_chunks_canonical::<C>(spec_views(chunks@)),
            decreases cursor@.len(),
        {
            let ghost head = spec_views(chunks@);
            let chunk = C::decode(&mut cursor)?;
            proof {
                assert(spec_views(chunks@.push(chunk)) =~= head.push(chunk@));
                if let Ok(tail) = spec_decode_chunks::<C>(cursor@) {
                    assert(head + (seq![chunk@] + tail) =~= head.push(chunk@) + tail);
                }
            }
            chunks.push(chunk);
        }
        proof {
            assert(spec_views(chunks@) + Seq::<C::V>::empty() =~= spec_views(chunks@));
        }
        Ok(BeamFile { chunks: chunks })
    }

    /// Appends the bytes of the BEAM file to `writer`. On failure nothing is
    /// written. A file of chunks in canonical form that was written is
    /// decoded as itself.
    pub fn to_writer(&self, writer: &mut Vec<u8>) -> (r: Result<(), Error>)
        requires
            spec_chunks_encodable::<C>(self@),
        ensures
            match spec_encode::<C>(self@) {
                Ok(bytes) => r is Ok && final(writer)@ == old(writer)@ + bytes,
                Err(e) => r == Err::<(), Error>(e) && final(writer)@ == old(writer)@,
            },
            r is Ok && spec_chunks_canonical::<C>(self@) ==> spec_decode::<C>(
                spec_encode::<C>(self@)->Ok_0,
            ) == Ok::<Seq<C::V>, Error>(self@),
    {
        let ghost all = self@;
        let mut buf: Vec<u8> = Vec::new();
        let mut i: usize = 0;
        assert(all.take(0) =~= Seq::<C::V>::empty());
        while i < self.chunks.len()
            invariant
                i <= self.chunks@.len(),
                all == spec_views(self.chunks@),
                spec_chunks_encodable::<C>(all),
                spec_encode_chunks::<C>(all.take(i as int)) == Ok::<Seq<u8>, Error>(buf@),
                forall|j: int|
                    0 <= j < i && C::spec_canonical(all[j]) ==> spec_round_trips::<C>(
                        #[trigger] all[j],
                    ),
            decreases self.chunks@.len() - i,
        {
            proof {
                assert(all[i as int] == self.chunks@[i as int]@);
                assert(all.take(i + 1).drop_last() =~= all.take(i as int));
                assert(all.take(i + 1).last() == all[i as int]);
            }
            match self.chunks[i].encode(&mut buf) {
                Ok(_) => {},
                Err(e) => {
                    proof {
                        lemma_encode_chunks_error::<C>(all, i + 1);
                    }
                    return Err(e);
                },
            }
            i = i + 1;
        }
        assert(all.take(i as int) =~= all);
        let header = Header::new(payload_size(buf.len())?);
        header.to_writer(writer)?;
        write_all(writer, buf.as_slice());
        proof {
            let bytes = spec_encode::<C>(all)->Ok_0;
            assert(writer@ =~= old(writer)@ + bytes);
            if spec_chunks_canonical::<C>(all) {
                lemma_round_trip::<C>(all, Seq::empty());
                assert(bytes + Seq::<u8>::empty() =~= bytes);
            }
        }
        Ok(())
    }

    /// Tells whether each of the chunks can be encoded.
    pub fn is_encodable(&self) -> (b: bool)
        ensures
            b == spec_chunks_encodable::<C>(self@),
    {
        let mut i: usize = 0;
        while i < self.chunks.len()
            invariant
                i <= self.chunks@.len(),
                forall|j: int| 0 <= j < i ==> C::spec_encodable(#[trigger] self@[j]),
            decreases self.chunks@.len() - i,
        {
            if !self.chunks[i].is_encodable() {
                assert(!C::spec_encodable(self@[i as int]));
                return false;
            }
            i = i + 1;
        }
        true
    }
}

/// Where the first `k` chunks have no bytes, all of them have none, for the
/// same reason.
pub proof fn lemma_encode_chunks_error<C: Chunk>(chunks: Seq<C::V>, k: int)
    requires
        0 <= k <= chunks.len(),
        spec_encode_chunks::<C>(chunks.take(k)) is Err,
    ensures
        spec_encode_chunks::<C>(chunks) == spec_encode_chunks::<C>(chunks.take(k)),
    decreases chunks.len() - k,
{
    if k < chunks.len() {
        assert(chunks.take(k + 1).drop_last() =~= chunks.take(k));
        lemma_encode_chunks_error::<C>(chunks, k + 1);
    } else {
        assert(chunks.take(k) =~= chunks);
    }
}

/// The bytes of chunks are the bytes of the first of them, then the bytes of
/// the others.
pub proof fn lemma_encode_chunks_first<C: Chunk>(chunks: Seq<C::V>)
    requires
        chunks.len() > 0,
        spec_encode_chunks::<C>(chunks) is Ok,
    ensures
        spec_encode_chunk::<C>(chunks.first()) is Ok,
        spec_encode_chunks::<C>(chunks.drop_first()) is Ok,
        spec_encode_chunks::<C>(chunks)->Ok_0 == spec_encode_chunk::<C>(chunks.first())->Ok_0
            + spec_encode_chunks::<C>(chunks.drop_first())->Ok_0,
    decreases chunks.len(),
{
    if chunks.len() == 1 {
        assert(chunks.drop_last() =~= Seq::<C::V>::empty());
        assert(chunks.drop_first() =~= Seq::<C::V>::empty());
        assert(Seq::<u8>::empty() + spec_encode_chunk::<C>(chunks.last())->Ok_0
            =~= spec_encode_chunk::<C>(chunks.first())->Ok_0 + Seq::<u8>::empty());
    } else {
        let front = chunks.drop_last();
        lemma_encode_chunks_first::<C>(front);
        assert(front.first() == chunks.first());
        assert(chunks.drop_first().drop_last() =~= front.drop_first());
        assert(chunks.drop_first().last() == chunks.last());
        let a = spec_encode_chunk::<C>(chunks.first())->Ok_0;
        let m = spec_encode_chunks::<C>(front.drop_first())->Ok_0;
        let z = spec_encode_chunk::<C>(chunks.last())->Ok_0;
        assert((a + m) + z =~= a + (m + z));
    }
}

/// Chunks that are encoded are decoded as the same chunks, and decoding goes
/// on with what follows their bytes, where the payload of each is read back
/// as the chunk.
pub proof fn lemma_decode_chunks_append<C: Chunk>(chunks: Seq<C::V>, rest: Seq<u8>)
    requires
        spec_encode_chunks::<C>(chunks) is Ok,
        forall|i: int| 0 <= i < chunks.len() ==> spec_round_trips::<C>(#[trigger] chunks[i]),
    ensures
        spec_decode_chunks::<C>(spec_encode_chunks::<C>(chunks)->Ok_0 + rest) == spec_prepend(
            chunks,
            spec_decode_chunks::<C>(rest),
        ),
    decreases chunks.len(),
{
    let body = spec_encode_chunks::<C>(chunks)->Ok_0;
    if chunks.len() == 0 {
        assert(body + rest =~= rest);
        if let Ok(tail) = spec_decode_chunks::<C>(rest) {
            assert(chunks + tail =~= tail);
        }
    } else {
        let first = chunks.first();
        let others = chunks.drop_first();
        lemma_encode_chunks_first::<C>(chunks);
        let frame = spec_encode_chunk::<C>(first)->Ok_0;
        let tail = spec_encode_chunks::<C>(others)->Ok_0;
        let b = frame + (tail + rest);
        lemma_concat_associative(frame, tail, rest);
        assert(body + rest == b);
        let (id, payload) = (C::spec_id(first), C::spec_encode_data(first)->Ok_0);
        lemma_frame_len(id, payload);
        lemma_frame_unframe(id, payload, tail + rest);
        lemma_skip_prefix(frame, tail + rest);
        assert(b.len() != 0);
        assert(spec_unframe(b) == Some((id, payload, frame.len() as int)));
        assert(C::spec_decode_data(id, payload) == Ok::<C::V, Error>(first));
        assert(spec_decode_chunks::<C>(b) == spec_prepend(
            seq![first],
            spec_decode_chunks::<C>(b.skip(frame.len() as int)),
        ));
        assert forall|i: int| 0 <= i < others.len() implies spec_round_trips::<C>(
            #[trigger] others[i],
        ) by {
            assert(others[i] == chunks[i + 1]);
        }
        lemma_decode_chunks_append::<C>(others, rest);
        if let Ok(found) = spec_decode_chunks::<C>(rest) {
            lemma_concat_associative(seq![first], others, found);
            assert(seq![first] + others =~= chunks);
        }
    }
}

/// A BEAM file that is encoded and then decoded holds the same chunks,
/// whatever follows its bytes, where the payload of each chunk is read back
/// as the chunk.
pub proof fn lemma_round_trip<C: Chunk>(chunks: Seq<C::V>, rest: Seq<u8>)
    requires
        spec_encode::<C>(chunks) is Ok,
        forall|i: int| 0 <= i < chunks.len() ==> spec_round_trips::<C>(#[trigger] chunks[i]),
    ensures
        spec_decode::<C>(spec_encode::<C>(chunks)->Ok_0 + rest) == Ok::<Seq<C::V>, Error>(chunks),
{
    let body = spec_encode_chunks::<C>(chunks)->Ok_0;
    let size = (body.len() + 4) as u32;
    let b = spec_encode::<C>(chunks)->Ok_0 + rest;
    lemma_u32_be_prefix(size, FORM_TYPE@ + body + rest);
    assert(spec_tag(b) =~= MAGIC_NUMBER);
    assert(b.skip(4) =~= spec_u32_to_be(size) + (FORM_TYPE@ + body + rest));
    assert(spec_tag(b.skip(8)) =~= FORM_TYPE);
    assert(b.subrange(12, 12 + size - 4) =~= body);
    lemma_decode_chunks_append::<C>(chunks, Seq::empty());
    assert(body + Seq::<u8>::empty() =~= body);
    assert(chunks + Seq::<C::V>::empty() =~= chunks);
}

/// A BEAM file of raw chunks that is encoded and then decoded holds the same
/// chunks, whatever their identifiers are.
pub proof fn lemma_raw_round_trip(chunks: Seq<RawChunkView>)
    requires
        spec_encode::<RawChunk>(chunks) is Ok,
    ensures
        spec_decode::<RawChunk>(spec_encode::<RawChunk>(chunks)->Ok_0) == Ok::<
            Seq<RawChunkView>,
            Error,
        >(chunks),
{
    lemma_round_trip::<RawChunk>(chunks, Seq::empty());
    assert(spec_encode::<RawChunk>(chunks)->Ok_0 + Seq::<u8>::empty() =~= spec_encode::<RawChunk>(
        chunks,
    )->Ok_0);
}

/// A BEAM file of commonly used chunks in canonical form that is encoded and
/// then decoded holds the same chunks, where the decompressor gives back
/// each table of literals that the compressor was given.
pub proof fn lemma_standard_file_round_trip(chunks: Seq<StandardChunkView>)
    requires
        spec_encode::<StandardChunk>(chunks) is Ok,
        spec_chunks_encodable::<StandardChunk>(chunks),
        spec_chunks_canonical::<StandardChunk>(chunks),
        forall|i: int|
            0 <= i < chunks.len() ==> (#[trigger] chunks[i] matches StandardChunkView::LitT(c)
                ==> spec_zlib_round_trips(spec_table_bytes::<Vec<u8>>(c))),
    ensures
        spec_decode::<StandardChunk>(spec_encode::<StandardChunk>(chunks)->Ok_0) == Ok::<
            Seq<StandardChunkView>,
            Error,
        >(chunks),
{
    assert forall|i: int| 0 <= i < chunks.len() implies spec_round_trips::<StandardChunk>(
        #[trigger] chunks[i],
    ) by {
        lemma_standard_round_trip(chunks[i]);
    }
    lemma_round_trip::<StandardChunk>(chunks, Seq::empty());
    assert(spec_encode::<StandardChunk>(chunks)->Ok_0 + Seq::<u8>::empty() =~= spec_encode::<
        StandardChunk,
    >(chunks)->Ok_0);
}

/// The sum of two multiples of four is a multiple of four.
pub proof fn lemma_sum_of_multiples(a: int, b: int)
    requires
        a % 4 == 0,
        b % 4 == 0,
    ensures
        (a + b) % 4 == 0,
{
}

/// The bytes of chunks are a multiple of four long.
pub proof fn lemma_encode_chunks_len<C: Chunk>(chunks: Seq<C::V>)
    requires
        spec_encode_chunks::<C>(chunks) is Ok,
    ensures
        spec_encode_chunks::<C>(chunks)->Ok_0.len() % 4 == 0,
    decreases chunks.len(),
{
    if chunks.len() > 0 {
        let before = spec_encode_chunks::<C>(chunks.drop_last())->Ok_0;
        let last = spec_encode_chunk::<C>(chunks.last())->Ok_0;
        lemma_encode_chunks_len::<C>(chunks.drop_last());
        lemma_frame_len(C::spec_id(chunks.last()), C::spec_encode_data(chunks.last())->Ok_0);
        assert(spec_encode_chunks::<C>(chunks)->Ok_0 == before + last);
        lemma_sum_of_multiples(before.len() as int, last.len() as int);
    }
}

/// The bytes of chunks start with the bytes of the first `k` of them.
pub proof fn lemma_encode_chunks_prefix<C: Chunk>(chunks: Seq<C::V>, k: int)
    requires
        spec_encode_chunks::<C>(chunks) is Ok,
        0 <= k <= chunks.len(),
    ensures
        spec_encode_chunks::<C>(chunks.take(k)) is Ok,
        spec_encode_chunks::<C>(chunks.take(k))->Ok_0.is_prefix_of(
            spec_encode_chunks::<C>(chunks)->Ok_0,
        ),
    decreases chunks.len(),
{
    let all = spec_encode_chunks::<C>(chunks)->Ok_0;
    if k == chunks.len() {
        assert(chunks.take(k) =~= chunks);
        assert(all.subrange(0, all.len() as int) =~= all);
    } else {
        let front = chunks.drop_last();
        let before = spec_encode_chunks::<C>(front)->Ok_0;
        assert(chunks.take(k) =~= front.take(k));
        lemma_encode_chunks_prefix::<C>(front, k);
        let first = spec_encode_chunks::<C>(front.take(k))->Ok_0;
        assert(first =~= before.subrange(0, first.len() as int));
        assert(before.subrange(0, first.len() as int) =~= all.subrange(0, first.len() as int));
    }
}

/// In the bytes of chunks each chunk starts at a multiple of four: the bytes
/// of the first `k` chunks are a multiple of four long, and the bytes of all
/// start with them.
pub proof fn lemma_chunks_aligned<C: Chunk>(chunks: Seq<C::V>, k: int)
    requires
        spec_encode_chunks::<C>(chunks) is Ok,
        0 <= k <= chunks.len(),
    ensures
        spec_encode_chunks::<C>(chunks.take(k)) is Ok,
        spec_encode_chunks::<C>(chunks.take(k))->Ok_0.len() % 4 == 0,
        spec_encode_chunks::<C>(chunks.take(k))->Ok_0.is_prefix_of(
            spec_encode_chunks::<C>(chunks)->Ok_0,
        ),
{
    lemma_encode_chunks_prefix::<C>(chunks, k);
    lemma_encode_chunks_len::<C>(chunks.take(k));
}

/// Chunks behind which the bytes end within a chunk are not decoded: the
/// source ends too early. This holds behind any number of chunks that are
/// read back as they were encoded.
pub proof fn lemma_truncated_chunks<C: Chunk>(chunks: Seq<C::V>, tail: Seq<u8>)
    requires
        spec_encode_chunks::<C>(chunks) is Ok,
        forall|i: int| 0 <= i < chunks.len() ==> spec_round_trips::<C>(#[trigger] chunks[i]),
        tail.len() > 0,
        spec_unframe(tail) is None,
    ensures
        spec_decode_chunks::<C>(spec_encode_chunks::<C>(chunks)->Ok_0 + tail) == Err::<
            Seq<C::V>,
            Error,
        >(spec_eof()),
{
    lemma_decode_chunks_append::<C>(chunks, tail);
}

/// A BEAM file whose first chunk announces more bytes than the file has for
/// it is not decoded: the source ends too early.
pub proof fn lemma_truncated<C: Chunk>(b: Seq<u8>)
    requires
        spec_parse_header(b) matches Ok(size) && size >= 12 && b.len() - 12 >= size - 4
            && spec_u32_from_be(b.skip(16)) > size - 12,
    ensures
        spec_decode::<C>(b) == Err::<Seq<C::V>, Error>(spec_eof()),
{
    let size = spec_parse_header(b)->Ok_0;
    let region = b.subrange(12, 12 + size - 4);
    assert(region.skip(4) =~= b.subrange(16, 12 + size - 4));
    assert(spec_u32_from_be(region.skip(4)) == spec_u32_from_be(b.skip(16)));
    lemma_truncated_chunk::<C>(region);
}

/// Bytes that do not start with the magic number are no BEAM file, whatever
/// follows their first four.
pub proof fn lemma_unexpected_magic_number<C: Chunk>(b: Seq<u8>)
    requires
        b.len() >= 4,
        spec_tag(b) != MAGIC_NUMBER,
    ensures
        spec_decode::<C>(b) == Err::<Seq<C::V>, Error>(
            Error::UnexpectedMagicNumber { magic_number: spec_tag(b) },
        ),
{
}

/// Bytes that start with the magic number and have another form type than
/// `BEAM` are no BEAM file, whatever follows the form type.
pub proof fn lemma_unexpected_form_type<C: Chunk>(b: Seq<u8>)
    requires
        b.len() >= 12,
        spec_tag(b) == MAGIC_NUMBER,
        spec_tag(b.skip(8)) != FORM_TYPE,
    ensures
        spec_decode::<C>(b) == Err::<Seq<C::V>, Error>(
            Error::UnexpectedFormType { form_type: spec_tag(b.skip(8)) },
        ),
{
}

/// The position that is found is that of a chunk with the identifier, and
/// no chunk before it has the identifier; where none is found, no chunk has
/// it.
pub proof fn lemma_position<C: Chunk>(chunks: Seq<C::V>, id: Id)
    ensures
        match spec_position::<C>(chunks, id) {
            Some(i) => 0 <= i < chunks.len() && C::spec_id(chunks[i]) == id && forall|j: int|
                0 <= j < i ==> C::spec_id(#[trigger] chunks[j]) != id,
            None => forall|j: int| 0 <= j < chunks.len() ==> C::spec_id(#[trigger] chunks[j]) != id,
        },
    decreases chunks.len(),
{
    if chunks.len() > 0 && C::spec_id(chunks.first()) != id {
        let others = chunks.drop_first();
        lemma_position::<C>(others, id);
        match spec_position::<C>(others, id) {
            Some(i) => {
                assert(chunks[i + 1] == others[i]);
                assert forall|j: int| 0 <= j < i + 1 implies C::spec_id(#[trigger] chunks[j])
                    != id by {
                    if j > 0 {
                        assert(chunks[j] == others[j - 1]);
                    }
                }
            },
            None => {
                assert forall|j: int| 0 <= j < chunks.len() implies C::spec_id(
                    #[trigger] chunks[j],
                ) != id by {
                    if j > 0 {
                        assert(chunks[j] == others[j - 1]);
                    }
                }
            },
        }
    }
}

} // verus!
