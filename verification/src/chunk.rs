//! The `Chunk` trait and the chunks that are commonly found in a BEAM file.
//!
//! A chunk is framed as its four-byte identifier, the length of its payload
//! as a big-endian `u32`, the payload, and zero bytes up to the next multiple
//! of four. What the payload holds depends on the kind of chunk.
use crate::bytes::{
    lemma_u32_be_prefix, read_exact, spec_u32_from_be, spec_u32_to_be, spec_zeros,
};
use crate::error::{spec_eof, Error};
use vstd::prelude::*;

pub mod atom;
pub mod aux;
pub mod blob;
pub mod code;
pub mod litt;
pub mod raw;
pub mod standard;
pub mod tables;

pub use crate::chunk::atom::{AtomChunk, AtomChunkView};
pub use crate::chunk::blob::{AbstChunk, AttrChunk, CInfChunk, DbgiChunk, DocsChunk, StrTChunk};
pub use crate::chunk::code::{CodeChunk, CodeChunkView};
pub use crate::chunk::litt::LitTChunk;
pub use crate::chunk::raw::{RawChunk, RawChunkView};
pub use crate::chunk::standard::{StandardChunk, StandardChunkView};
pub use crate::chunk::tables::{ExpTChunk, FunTChunk, ImpTChunk, LocTChunk};

verus! {

/// The identifier which indicates the type of a chunk.
pub type Id = [u8; 4];

/// `Atom`: atoms whose names are Latin-1 by convention.
pub const ATOM: Id = [0x41, 0x74, 0x6f, 0x6d];

/// `AtU8`: atoms whose names are UTF-8.
pub const ATU8: Id = [0x41, 0x74, 0x55, 0x38];

/// `Code`: the byte code.
pub const CODE: Id = [0x43, 0x6f, 0x64, 0x65];

/// `StrT`: the strings.
pub const STRT: Id = [0x53, 0x74, 0x72, 0x54];

/// `ImpT`: the imported functions.
pub const IMPT: Id = [0x49, 0x6d, 0x70, 0x54];

/// `ExpT`: the exported functions.
pub const EXPT: Id = [0x45, 0x78, 0x70, 0x54];

/// `LitT`: the literals.
pub const LITT: Id = [0x4c, 0x69, 0x74, 0x54];

/// `LocT`: the local functions.
pub const LOCT: Id = [0x4c, 0x6f, 0x63, 0x54];

/// `FunT`: the anonymous functions.
pub const FUNT: Id = [0x46, 0x75, 0x6e, 0x54];

/// `Attr`: the attributes of the module.
pub const ATTR: Id = [0x41, 0x74, 0x74, 0x72];

/// `CInf`: what the compiler says of the module.
pub const CINF: Id = [0x43, 0x49, 0x6e, 0x66];

/// `Abst`: the abstract code.
pub const ABST: Id = [0x41, 0x62, 0x73, 0x74];

/// `Dbgi`: the debug information.
pub const DBGI: Id = [0x44, 0x62, 0x67, 0x69];

/// `Docs`: the documentation.
pub const DOCS: Id = [0x44, 0x6f, 0x63, 0x73];

/// Whether the payload of `v` is read back as `v`.
pub open spec fn spec_round_trips<C: Chunk>(v: C::V) -> bool {
    C::spec_encode_data(v) matches Ok(payload) && C::spec_decode_data(C::spec_id(v), payload)
        == Ok::<C::V, Error>(v)
}

/// The number of zero bytes that follow a payload of `n` bytes.
pub open spec fn spec_padding(n: int) -> int {
    (4 - n % 4) % 4
}

/// The identifier that `b` starts with.
pub open spec fn spec_tag(b: Seq<u8>) -> Id
    recommends
        b.len() >= 4,
{
    [b[0], b[1], b[2], b[3]]
}

/// A payload with its header before it and its padding behind it.
pub open spec fn spec_frame(id: Id, payload: Seq<u8>) -> Seq<u8>
    recommends
        payload.len() <= u32::MAX,
{
    id@ + spec_u32_to_be(payload.len() as u32) + payload + spec_zeros(
        spec_padding(payload.len() as int) as nat,
    )
}

/// The bytes of a chunk with the identifier `id`, given its payload: the
/// framed payload, where the payload could be made and its length fits the
/// header.
pub open spec fn spec_frame_checked(id: Id, payload: Result<Seq<u8>, Error>) -> Result<
    Seq<u8>,
    Error,
> {
    match payload {
        Err(e) => Err(e),
        Ok(payload) => if payload.len() > u32::MAX {
            Err(Error::TooLarge)
        } else {
            Ok(spec_frame(id, payload))
        },
    }
}

/// Where the first chunk of `b` lies: its identifier, its payload, and the
/// number of bytes that it takes with header and padding. `None` where `b`
/// ends before the header, the payload or the padding does.
pub open spec fn spec_unframe(b: Seq<u8>) -> Option<(Id, Seq<u8>, int)> {
    if b.len() < 8 {
        None
    } else {
        let len = spec_u32_from_be(b.skip(4)) as int;
        if b.len() - 8 < len + spec_padding(len) {
            None
        } else {
            Some((spec_tag(b), b.subrange(8, 8 + len), 8 + len + spec_padding(len)))
        }
    }
}

/// The bytes of the chunk `v`.
pub open spec fn spec_encode_chunk<C: Chunk>(v: C::V) -> Result<Seq<u8>, Error> {
    spec_frame_checked(C::spec_id(v), C::spec_encode_data(v))
}

/// The chunk at the start of `b` and the number of bytes that it takes.
pub open spec fn spec_decode_chunk<C: Chunk>(b: Seq<u8>) -> Result<(C::V, int), Error> {
    match spec_unframe(b) {
        None => Err(spec_eof()),
        Some((id, payload, n)) => match C::spec_decode_data(id, payload) {
            Err(e) => Err(e),
            Ok(v) => Ok((v, n)),
        },
    }
}

/// The padding is less than four bytes, and it fills a payload up to a
/// multiple of four.
pub proof fn lemma_padding(n: int)
    requires
        0 <= n,
    ensures
        0 <= spec_padding(n) < 4,
        (n + spec_padding(n)) % 4 == 0,
        (8 + n + spec_padding(n)) % 4 == 0,
{
    let r = n % 4;
    let m = n - r;
    assert(m % 4 == 0 && 0 <= r < 4);
    if r == 0 {
        assert(spec_padding(n) == 0);
    } else {
        assert(spec_padding(n) == 4 - r);
        assert(n + spec_padding(n) == m + 4);
    }
}

/// A frame is a multiple of four bytes long.
pub proof fn lemma_frame_len(id: Id, payload: Seq<u8>)
    ensures
        spec_frame(id, payload).len() == 8 + payload.len() + spec_padding(payload.len() as int),
        spec_frame(id, payload).len() % 4 == 0,
{
    lemma_padding(payload.len() as int);
    assert(id@.len() == 4);
    assert(spec_u32_to_be(payload.len() as u32).len() == 4);
}

/// A frame is taken apart into the identifier and the payload that it was
/// made of, whatever follows it.
pub proof fn lemma_frame_unframe(id: Id, payload: Seq<u8>, rest: Seq<u8>)
    requires
        payload.len() <= u32::MAX,
    ensures
        spec_unframe(spec_frame(id, payload) + rest) == Some(
            (id, payload, spec_frame(id, payload).len() as int),
        ),
{
    let size = spec_u32_to_be(payload.len() as u32);
    let zeros = spec_zeros(spec_padding(payload.len() as int) as nat);
    let b = spec_frame(id, payload) + rest;
    lemma_frame_len(id, payload);
    lemma_u32_be_prefix(payload.len() as u32, payload + zeros + rest);
    assert(b.skip(4) =~= size + (payload + zeros + rest));
    assert(spec_tag(b) =~= id);
    assert(b.subrange(8, 8 + payload.len() as int) =~= payload);
}

/// A chunk whose header announces more bytes than follow it is not decoded:
/// the source ends too early.
pub proof fn lemma_truncated_chunk<C: Chunk>(b: Seq<u8>)
    requires
        b.len() >= 8,
        spec_u32_from_be(b.skip(4)) > b.len() - 8,
    ensures
        spec_unframe(b) is None,
        spec_decode_chunk::<C>(b) == Err::<(C::V, int), Error>(spec_eof()),
{
}

/// A chunk that is encoded and then decoded is the same chunk, whatever
/// follows its bytes, where its payload is read back as the chunk.
pub proof fn lemma_chunk_round_trip<C: Chunk>(v: C::V, rest: Seq<u8>)
    requires
        spec_round_trips::<C>(v),
        spec_encode_chunk::<C>(v) is Ok,
    ensures
        spec_decode_chunk::<C>(spec_encode_chunk::<C>(v)->Ok_0 + rest) == Ok::<(C::V, int), Error>(
            (v, spec_encode_chunk::<C>(v)->Ok_0.len() as int),
        ),
        spec_encode_chunk::<C>(v)->Ok_0.len() % 4 == 0,
        spec_encode_chunk::<C>(v)->Ok_0.len() >= 8,
{
    lemma_frame_len(C::spec_id(v), C::spec_encode_data(v)->Ok_0);
    lemma_frame_unframe(C::spec_id(v), C::spec_encode_data(v)->Ok_0, rest);
}

/// The `Chunk` trait represents a type of chunk in a BEAM file.
///
/// The view of a chunk is what it stands for; the spec functions say, over
/// views, which bytes are which chunk.
pub trait Chunk: Sized + View {
    /// The identifier of the chunk `v`.
    spec fn spec_id(v: Self::V) -> Id;

    /// The chunk that the payload `data` holds under the identifier `id`.
    spec fn spec_decode_data(id: Id, data: Seq<u8>) -> Result<Self::V, Error>;

    /// Whether each count and each length of `v` fits the field that the
    /// format gives it.
    spec fn spec_encodable(v: Self::V) -> bool;

    /// The payload of the chunk `v`.
    spec fn spec_encode_data(v: Self::V) -> Result<Seq<u8>, Error>;

    /// Whether `v` is the form that decoding gives to a chunk. A chunk in
    /// this form is read back as itself from the payload that it was encoded
    /// to.
    spec fn spec_canonical(v: Self::V) -> bool;

    /// Returns the identifier of the chunk.
    fn id(&self) -> (id: &Id)
        ensures
            *id == Self::spec_id(self@),
    ;

    /// Reads a chunk from `reader`: its header, its payload and its padding.
    ///
    /// Where `reader` ends before the header, the payload or the padding
    /// does, nothing is taken off it. Else all of the three are taken off it
    /// before the payload is decoded, so that `reader` stands at what follows
    /// the chunk, whether the payload holds a chunk or not. The chunk that
    /// was read is in canonical form, and its identifier is the one in the
    /// header.
    fn decode(reader: &mut &[u8]) -> (r: Result<Self, Error>)
        ensures
            match spec_unframe(old(reader)@) {
                None => r is Err && r->Err_0 == spec_eof() && final(reader)@ == old(reader)@,
                Some((id, payload, n)) => match Self::spec_decode_data(id, payload) {
                    Ok(v) => r is Ok && r->Ok_0@ == v && final(reader)@ == old(reader)@.skip(n),
                    Err(e) => r is Err && r->Err_0 == e && final(reader)@ == old(reader)@.skip(n),
                },
            },
            r matches Ok(chunk) ==> (Self::spec_canonical(chunk@) && Self::spec_id(chunk@)
                == spec_tag(old(reader)@)),
    {
        let mut rest: &[u8] = *reader;
        let header = aux::Header::decode(&mut rest)?;
        let data = read_exact(&mut rest, header.data_size as usize)?;
        read_exact(&mut rest, aux::padding_size(header.data_size) as usize)?;
        proof {
            let b = old(reader)@;
            let len = header.data_size as int;
            assert(b.skip(8).take(len) =~= b.subrange(8, 8 + len));
            assert(b.skip(8).skip(len).skip(spec_padding(len)) =~= b.skip(
                8 + len + spec_padding(len),
            ));
            assert(header.chunk_id =~= spec_tag(b));
        }
        *reader = rest;
        Self::decode_data(&header.chunk_id, data)
    }

    /// Reads a chunk which has the identifier `id` from `reader`.
    ///
    /// NOTICE: `reader` has no chunk header (i.e., the identifier and data
    /// size of the chunk). The chunk that was read is in canonical form, and
    /// `id` is its identifier.
    fn decode_data(id: &Id, reader: &[u8]) -> (r: Result<Self, Error>)
        ensures
            match r {
                Ok(chunk) => Self::spec_decode_data(*id, reader@) == Ok::<Self::V, Error>(chunk@),
                Err(e) => Self::spec_decode_data(*id, reader@) == Err::<Self::V, Error>(e),
            },
            r matches Ok(chunk) ==> (Self::spec_canonical(chunk@) && Self::spec_id(chunk@) == *id),
    ;

    /// Writes the chunk to `writer`: its header, its payload and its padding.
    ///
    /// On failure nothing is written. A chunk in canonical form that was
    /// written is read back as itself.
    fn encode(&self, writer: &mut Vec<u8>) -> (r: Result<(), Error>)
        requires
            Self::spec_encodable(self@),
        ensures
            match spec_frame_checked(Self::spec_id(self@), Self::spec_encode_data(self@)) {
                Ok(bytes) => r is Ok && final(writer)@ == old(writer)@ + bytes,
                Err(e) => r == Err::<(), Error>(e) && final(writer)@ == old(writer)@,
            },
            r is Ok && Self::spec_canonical(self@) ==> Self::spec_decode_data(
                Self::spec_id(self@),
                Self::spec_encode_data(self@)->Ok_0,
            ) == Ok::<Self::V, Error>(self@),
    {
        let mut buf: Vec<u8> = Vec::new();
        self.encode_data(&mut buf)?;
        assert(buf@ =~= Self::spec_encode_data(self@)->Ok_0);
        aux::write_chunk(self.id(), buf.as_slice(), writer)
    }

    /// Writes the data of the chunk to `writer`.
    ///
    /// NOTICE: The header (i.e., identifier and data size) of the chunk must
    /// not write in the function. On failure nothing is written. A chunk in
    /// canonical form that was written is read back as itself.
    fn encode_data(&self, writer: &mut Vec<u8>) -> (r: Result<(), Error>)
        requires
            Self::spec_encodable(self@),
        ensures
            match Self::spec_encode_data(self@) {
                Ok(bytes) => r is Ok && final(writer)@ == old(writer)@ + bytes,
                Err(e) => r == Err::<(), Error>(e) && final(writer)@ == old(writer)@,
            },
            r is Ok && Self::spec_canonical(self@) ==> Self::spec_decode_data(
                Self::spec_id(self@),
                Self::spec_encode_data(self@)->Ok_0,
            ) == Ok::<Self::V, Error>(self@),
    ;

    /// Tells whether the chunk can be encoded.
    fn is_encodable(&self) -> (b: bool)
        ensures
            b == Self::spec_encodable(self@),
    ;
}

} // verus!
