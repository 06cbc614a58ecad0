//! The table of literals, which is stored compressed.
use crate::bytes::{read_u32, spec_u32_to_be, write_all, write_u32};
use crate::chunk::aux::check_chunk_id;
use crate::chunk::{spec_round_trips, Chunk, Id, LITT};
use crate::error::{spec_eof, Error, IoFailure};
use crate::parts::{ExternalTermFormatBinary, Part};
use crate::table::{
    lemma_parts_bytes_grow, lemma_table_round_trip, read_table, spec_parse_table,
    spec_parts_bytes, spec_table_bytes, spec_table_encodable, spec_views, table_is_encodable,
    write_table,
};
use crate::zlib::{deflate, inflate, spec_deflated, spec_inflated, spec_zlib_round_trips};
use vstd::prelude::*;

verus! {

/// A representation of the `"LitT"` chunk.
#[derive(Debug, PartialEq, Eq)]
pub struct LitTChunk {
    /// The list of literal terms.
    ///
    /// Each term is encoded in the [External Term Format]
    /// (http://erlang.org/doc/apps/erts/erl_ext_dist.html).
    pub literals: Vec<ExternalTermFormatBinary>,
}

impl View for LitTChunk {
    type V = Seq<Seq<u8>>;

    open spec fn view(&self) -> Seq<Seq<u8>> {
        spec_views(self.literals@)
    }
}

/// The payload of a literal table, given the size of the table before
/// compression and what the compressor made of the table: the size in four
/// bytes, then the compressed table.
pub open spec fn spec_litt_payload_of(size: u32, stream: Option<Seq<u8>>) -> Result<
    Seq<u8>,
    Error,
> {
    match stream {
        Some(stream) => Ok(spec_u32_to_be(size) + stream),
        None => Err(Error::Io(IoFailure::Other)),
    }
}

/// The literals of a payload, given what the decompressor made of the
/// payload without its first four bytes.
pub open spec fn spec_litt_literals(table: Option<Seq<u8>>) -> Result<Seq<Seq<u8>>, Error> {
    match table {
        Some(table) => spec_parse_table::<Vec<u8>>(table),
        None => Err(Error::Compression),
    }
}

/// The payload of the literals `v`: the table of them, compressed, behind
/// the size that it has before compression.
pub open spec fn spec_litt_encode(v: Seq<Seq<u8>>) -> Result<Seq<u8>, Error> {
    spec_litt_payload_of(
        spec_table_bytes::<Vec<u8>>(v).len() as u32,
        spec_deflated(spec_table_bytes::<Vec<u8>>(v)),
    )
}

/// The literals that the payload `data` holds. Its first four bytes, the
/// size before compression as the writer saw it, are not looked at.
pub open spec fn spec_litt_decode(data: Seq<u8>) -> Result<Seq<Seq<u8>>, Error> {
    if data.len() < 4 {
        Err(spec_eof())
    } else {
        spec_litt_literals(spec_inflated(data.skip(4)))
    }
}

/// What the decompressor or the compressor gave, without the error.
pub open spec fn spec_stream(r: Result<Vec<u8>, std::io::Error>) -> Option<Seq<u8>> {
    match r {
        Ok(bytes) => Some(bytes@),
        Err(_) => None,
    }
}

impl LitTChunk {
    /// The chunk of the literals in the table that the decompressor gave;
    /// where it gave an error, the payload was no zlib stream.
    pub fn from_inflated(inflated: Result<Vec<u8>, std::io::Error>) -> (r: Result<Self, Error>)
        ensures
            match spec_litt_literals(spec_stream(inflated)) {
                Ok(literals) => r is Ok && r->Ok_0@ == literals,
                Err(e) => r is Err && r->Err_0 == e,
            },
    {
        match inflated {
            Ok(table) => Ok(LitTChunk { literals: read_table::<Vec<u8>>(table.as_slice())? }),
            Err(_) => Err(Error::Compression),
        }
    }
}

/// Appends the payload of a table of literals to `writer`, given the size of
/// the table before compression and what the compressor gave for it. Where
/// that is an error, nothing is written.
pub fn write_deflated(
    uncompressed_size: u32,
    deflated: Result<Vec<u8>, std::io::Error>,
    writer: &mut Vec<u8>,
) -> (r: Result<(), Error>)
    ensures
        match spec_litt_payload_of(uncompressed_size, spec_stream(deflated)) {
            Ok(bytes) => r is Ok && final(writer)@ == old(writer)@ + bytes,
            Err(e) => r == Err::<(), Error>(e) && final(writer)@ == old(writer)@,
        },
{
    match deflated {
        Ok(stream) => {
            write_u32(writer, uncompressed_size);
            write_all(writer, stream.as_slice());
            assert(writer@ =~= old(writer)@ + (spec_u32_to_be(uncompressed_size) + stream@));
            Ok(())
        },
        Err(_) => Err(Error::Io(IoFailure::Other)),
    }
}

impl Chunk for LitTChunk {
    open spec fn spec_id(v: Seq<Seq<u8>>) -> Id {
        LITT
    }

    open spec fn spec_decode_data(id: Id, data: Seq<u8>) -> Result<Seq<Seq<u8>>, Error> {
        if id != LITT {
            Err(Error::UnexpectedChunk { id: id, expected: LITT })
        } else {
            spec_litt_decode(data)
        }
    }

    /// The table fits its count and its lengths, and its size before
    /// compression fits four bytes.
    open spec fn spec_encodable(v: Seq<Seq<u8>>) -> bool {
        spec_table_encodable::<Vec<u8>>(v) && spec_table_bytes::<Vec<u8>>(v).len() <= u32::MAX
    }

    open spec fn spec_encode_data(v: Seq<Seq<u8>>) -> Result<Seq<u8>, Error> {
        spec_litt_encode(v)
    }

    open spec fn spec_canonical(v: Seq<Seq<u8>>) -> bool {
        true
    }

    fn id(&self) -> (id: &Id) {
        &LITT
    }

    fn decode_data(id: &Id, reader: &[u8]) -> (r: Result<Self, Error>) {
        check_chunk_id(id, &LITT)?;
        let mut rest: &[u8] = reader;
        let _uncompressed_size: u32 = read_u32(&mut rest)?;
        LitTChunk::from_inflated(inflate(rest))
    }

    /// Besides what holds of every chunk: the decompressor gives back the
    /// table that the compressor was given.
    fn encode_data(&self, writer: &mut Vec<u8>) -> (r: Result<(), Error>)
        ensures
            r is Ok ==> spec_zlib_round_trips(spec_table_bytes::<Vec<u8>>(self@)),
    {
        let mut table: Vec<u8> = Vec::new();
        write_table(&self.literals, &mut table);
        assert(table@ =~= spec_table_bytes::<Vec<u8>>(self@));
        let r = write_deflated(table.len() as u32, deflate(table.as_slice()), writer);
        proof {
            if r is Ok {
                lemma_litt_payload_round_trip(self@, spec_u32_to_be(table@.len() as u32));
            }
        }
        r
    }

    fn is_encodable(&self) -> (b: bool) {
        if !table_is_encodable(&self.literals) {
            return false;
        }
        let ghost all = self@;
        let mut size: u64 = 4;
        let mut i: usize = 0;
        assert(spec_parts_bytes::<Vec<u8>>(all.take(0)) =~= Seq::<u8>::empty());
        while i < self.literals.len()
            invariant
                i <= self.literals@.len(),
                all == spec_views(self.literals@),
                spec_table_encodable::<Vec<u8>>(all),
                size == 4 + spec_parts_bytes::<Vec<u8>>(all.take(i as int)).len(),
                size <= u32::MAX,
            decreases self.literals@.len() - i,
        {
            let len: u64 = self.literals[i].len() as u64;
            proof {
                let f = |v: Seq<u8>| <Vec<u8> as Part>::spec_bytes(v);
                let done = all.take(i as int);
                assert(all[i as int] == self.literals@[i as int]@);
                assert(all.take(i + 1).map_values(f) =~= done.map_values(f).push(
                    f(all[i as int]),
                ));
                done.map_values(f).lemma_flatten_push(f(all[i as int]));
                lemma_parts_bytes_grow::<Vec<u8>>(all, i + 1);
            }
            if size + 4 + len > u32::MAX as u64 {
                return false;
            }
            size = size + 4 + len;
            i = i + 1;
        }
        assert(all.take(i as int) =~= all);
        true
    }
}

/// A table of literals that was compressed is read back as the same table,
/// whatever stands in the first four bytes of the payload, where the
/// decompressor gives back what the compressor was given.
pub proof fn lemma_litt_payload_round_trip(v: Seq<Seq<u8>>, size: Seq<u8>)
    requires
        spec_table_encodable::<Vec<u8>>(v),
        size.len() == 4,
        spec_zlib_round_trips(spec_table_bytes::<Vec<u8>>(v)),
    ensures
        spec_litt_decode(size + spec_deflated(spec_table_bytes::<Vec<u8>>(v))->Some_0) == Ok::<
            Seq<Seq<u8>>,
            Error,
        >(v),
{
    let table = spec_table_bytes::<Vec<u8>>(v);
    let stream = spec_deflated(table)->Some_0;
    lemma_table_round_trip::<Vec<u8>>(v, Seq::empty());
    assert(table + Seq::<u8>::empty() =~= table);
    assert((size + stream).skip(4) =~= stream);
}

/// A chunk of literals that is encoded and then decoded is the same chunk,
/// where the decompressor gives back what the compressor was given.
pub proof fn lemma_litt_round_trip(v: Seq<Seq<u8>>)
    requires
        LitTChunk::spec_encodable(v),
        spec_zlib_round_trips(spec_table_bytes::<Vec<u8>>(v)),
    ensures
        spec_round_trips::<LitTChunk>(v),
{
    lemma_litt_payload_round_trip(
        v,
        spec_u32_to_be(spec_table_bytes::<Vec<u8>>(v).len() as u32),
    );
}

} // verus!
