//! The chunks whose payload is one run of bytes that is kept as it is: the
//! strings, and the terms in the external term format.
use crate::bytes::{read_to_end, write_all};
use crate::chunk::aux::check_chunk_id;
use crate::chunk::{spec_round_trips, Chunk, Id, ABST, ATTR, CINF, DBGI, DOCS, STRT};
use crate::error::Error;
use crate::parts::ExternalTermFormatBinary;
use vstd::prelude::*;

verus! {

/// The payload `data` of a chunk that goes by `expected`, where `id` is that
/// identifier.
pub open spec fn spec_decode_blob(id: Id, expected: Id, data: Seq<u8>) -> Result<Seq<u8>, Error> {
    if id != expected {
        Err(Error::UnexpectedChunk { id: id, expected: expected })
    } else {
        Ok(data)
    }
}

/// Reads the payload of a chunk that goes by `expected`: all of `reader`,
/// where `id` is that identifier.
pub fn decode_blob(id: &Id, expected: &Id, reader: &[u8]) -> (r: Result<Vec<u8>, Error>)
    ensures
        match spec_decode_blob(*id, *expected, reader@) {
            Ok(data) => r is Ok && r->Ok_0@ == data,
            Err(e) => r is Err && r->Err_0 == e,
        },
{
    check_chunk_id(id, expected)?;
    let mut reader: &[u8] = reader;
    Ok(read_to_end(&mut reader))
}

/// A representation of the `"StrT"` chunk.
#[derive(Debug, PartialEq, Eq)]
pub struct StrTChunk {
    /// Concatenated strings.
    pub strings: Vec<u8>,
}

impl View for StrTChunk {
    type V = Seq<u8>;

    open spec fn view(&self) -> Seq<u8> {
        self.strings@
    }
}

impl Chunk for StrTChunk {
    open spec fn spec_id(v: Seq<u8>) -> Id {
        STRT
    }

    open spec fn spec_decode_data(id: Id, data: Seq<u8>) -> Result<Seq<u8>, Error> {
        spec_decode_blob(id, STRT, data)
    }

    open spec fn spec_encodable(v: Seq<u8>) -> bool {
        true
    }

    open spec fn spec_encode_data(v: Seq<u8>) -> Result<Seq<u8>, Error> {
        Ok(v)
    }

    open spec fn spec_canonical(v: Seq<u8>) -> bool {
        true
    }

    fn id(&self) -> (id: &Id) {
        &STRT
    }

    fn decode_data(id: &Id, reader: &[u8]) -> (r: Result<Self, Error>) {
        Ok(StrTChunk { strings: decode_blob(id, &STRT, reader)? })
    }

    fn encode_data(&self, writer: &mut Vec<u8>) -> (r: Result<(), Error>) {
        write_all(writer, self.strings.as_slice());
        Ok(())
    }

    fn is_encodable(&self) -> (b: bool) {
        true
    }
}

/// The strings that are encoded and then decoded are the same strings.
pub proof fn lemma_strt_round_trip(v: Seq<u8>)
    ensures
        spec_round_trips::<StrTChunk>(v),
{
}

/// A representation of the `"Attr"` chunk.
#[derive(Debug, PartialEq, Eq)]
pub struct AttrChunk {
    /// The attributes of a module (i.e., BEAM file).
    ///
    /// The value is equivalent to the result of the following erlang code.
    /// ```erlang
    /// term_to_binary(Module:module_info(attributes)).
    /// ```
    pub term: ExternalTermFormatBinary,
}

impl View for AttrChunk {
    type V = Seq<u8>;

    open spec fn view(&self) -> Seq<u8> {
        self.term@
    }
}

impl Chunk for AttrChunk {
    open spec fn spec_id(v: Seq<u8>) -> Id {
        ATTR
    }

    open spec fn spec_decode_data(id: Id, data: Seq<u8>) -> Result<Seq<u8>, Error> {
        spec_decode_blob(id, ATTR, data)
    }

    open spec fn spec_encodable(v: Seq<u8>) -> bool {
        true
    }

    open spec fn spec_encode_data(v: Seq<u8>) -> Result<Seq<u8>, Error> {
        Ok(v)
    }

    open spec fn spec_canonical(v: Seq<u8>) -> bool {
        true
    }

    fn id(&self) -> (id: &Id) {
        &ATTR
    }

    fn decode_data(id: &Id, reader: &[u8]) -> (r: Result<Self, Error>) {
        Ok(AttrChunk { term: decode_blob(id, &ATTR, reader)? })
    }

    fn encode_data(&self, writer: &mut Vec<u8>) -> (r: Result<(), Error>) {
        write_all(writer, self.term.as_slice());
        Ok(())
    }

    fn is_encodable(&self) -> (b: bool) {
        true
    }
}

/// The attributes that are encoded and then decoded are the same bytes.
pub proof fn lemma_attr_round_trip(v: Seq<u8>)
    ensures
        spec_round_trips::<AttrChunk>(v),
{
}

/// A representation of the `"CInf"` chunk.
#[derive(Debug, PartialEq, Eq)]
pub struct CInfChunk {
    /// The compile information of a module (i.e., BEAM file).
    ///
    /// The value is equivalent to the result of the following erlang code.
    /// ```erlang
    /// term_to_binary(Module:module_info(compile)).
    /// ```
    pub term: ExternalTermFormatBinary,
}

impl View for CInfChunk {
    type V = Seq<u8>;

    open spec fn view(&self) -> Seq<u8> {
        self.term@
    }
}

impl Chunk for CInfChunk {
    open spec fn spec_id(v: Seq<u8>) -> Id {
        CINF
    }

    open spec fn spec_decode_data(id: Id, data: Seq<u8>) -> Result<Seq<u8>, Error> {
        spec_decode_blob(id, CINF, data)
    }

    open spec fn spec_encodable(v: Seq<u8>) -> bool {
        true
    }

    open spec fn spec_encode_data(v: Seq<u8>) -> Result<Seq<u8>, Error> {
        Ok(v)
    }

    open spec fn spec_canonical(v: Seq<u8>) -> bool {
        true
    }

    fn id(&self) -> (id: &Id) {
        &CINF
    }

    fn decode_data(id: &Id, reader: &[u8]) -> (r: Result<Self, Error>) {
        Ok(CInfChunk { term: decode_blob(id, &CINF, reader)? })
    }

    fn encode_data(&self, writer: &mut Vec<u8>) -> (r: Result<(), Error>) {
        write_all(writer, self.term.as_slice());
        Ok(())
    }

    fn is_encodable(&self) -> (b: bool) {
        true
    }
}

/// The compile information that is encoded and then decoded is the same bytes.
pub proof fn lemma_cinf_round_trip(v: Seq<u8>)
    ensures
        spec_round_trips::<CInfChunk>(v),
{
}

/// A representation of the `"Abst"` chunk.
#[derive(Debug, PartialEq, Eq)]
pub struct AbstChunk {
    /// The abstract code of a module (i.e., BEAM file).
    ///
    /// The value is encoded in the [External Term Format]
    /// (http://erlang.org/doc/apps/erts/erl_ext_dist.html) and
    /// represents [The Abstract Format](http://erlang.org/doc/apps/erts/absform.html).
    pub term: ExternalTermFormatBinary,
}

impl View for AbstChunk {
    type V = Seq<u8>;

    open spec fn view(&self) -> Seq<u8> {
        self.term@
    }
}

impl Chunk for AbstChunk {
    open spec fn spec_id(v: Seq<u8>) -> Id {
        ABST
    }

    open spec fn spec_decode_data(id: Id, data: Seq<u8>) -> Result<Seq<u8>, Error> {
        spec_decode_blob(id, ABST, data)
    }

    open spec fn spec_encodable(v: Seq<u8>) -> bool {
        true
    }

    open spec fn spec_encode_data(v: Seq<u8>) -> Result<Seq<u8>, Error> {
        Ok(v)
    }

    open spec fn spec_canonical(v: Seq<u8>) -> bool {
        true
    }

    fn id(&self) -> (id: &Id) {
        &ABST
    }

    fn decode_data(id: &Id, reader: &[u8]) -> (r: Result<Self, Error>) {
        Ok(AbstChunk { term: decode_blob(id, &ABST, reader)? })
    }

    fn encode_data(&self, writer: &mut Vec<u8>) -> (r: Result<(), Error>) {
        write_all(writer, self.term.as_slice());
        Ok(())
    }

    fn is_encodable(&self) -> (b: bool) {
        true
    }
}

/// The abstract code that is encoded and then decoded is the same bytes.
pub proof fn lemma_abst_round_trip(v: Seq<u8>)
    ensures
        spec_round_trips::<AbstChunk>(v),
{
}

/// A representation of the `"Dbgi"` chunk.
#[derive(Debug, PartialEq, Eq)]
pub struct DbgiChunk {
    /// The debug information for a module (i.e., BEAM file).
    ///
    /// Supercedes 'Abst' in recent versions of OTP by supporting arbitrary
    /// abstract formats.
    ///
    /// The value is encoded in the [External Term Format]
    /// (http://erlang.org/doc/apps/erts/erl_ext_dist.html) and
    /// represents custom debug information in the following term format:
    ///
    ///     {debug_info, {Backend, Data}}
    ///
    /// Where `Backend` is a module which implements `debug_info/4`, and
    /// turns `Data` into different representations as described
    /// [here](http://erlang.org/doc/man/beam_lib.html#type-debug_info).
    /// Debug information can be used to reconstruct the source code of the
    /// module.
    pub term: ExternalTermFormatBinary,
}

impl View for DbgiChunk {
    type V = Seq<u8>;

    open spec fn view(&self) -> Seq<u8> {
        self.term@
    }
}

impl Chunk for DbgiChunk {
    open spec fn spec_id(v: Seq<u8>) -> Id {
        DBGI
    }

    open spec fn spec_decode_data(id: Id, data: Seq<u8>) -> Result<Seq<u8>, Error> {
        spec_decode_blob(id, DBGI, data)
    }

    open spec fn spec_encodable(v: Seq<u8>) -> bool {
        true
    }

    open spec fn spec_encode_data(v: Seq<u8>) -> Result<Seq<u8>, Error> {
        Ok(v)
    }

    open spec fn spec_canonical(v: Seq<u8>) -> bool {
        true
    }

    fn id(&self) -> (id: &Id) {
        &DBGI
    }

    fn decode_data(id: &Id, reader: &[u8]) -> (r: Result<Self, Error>) {
        Ok(DbgiChunk { term: decode_blob(id, &DBGI, reader)? })
    }

    fn encode_data(&self, writer: &mut Vec<u8>) -> (r: Result<(), Error>) {
        write_all(writer, self.term.as_slice());
        Ok(())
    }

    fn is_encodable(&self) -> (b: bool) {
        true
    }
}

/// The debug information that is encoded and then decoded is the same bytes.
pub proof fn lemma_dbgi_round_trip(v: Seq<u8>)
    ensures
        spec_round_trips::<DbgiChunk>(v),
{
}

/// A representation of the `"Docs"` chunk.
#[derive(Debug, PartialEq, Eq)]
pub struct DocsChunk {
    /// The 'Docs' chunk contains embedded module documentation, such as
    /// moduledoc/doc in Elixir.
    ///
    /// The value is encoded in the [External Term Format]
    /// (http://erlang.org/doc/apps/erts/erl_ext_dist.html) and
    /// represents a term in the following format:
    ///
    ///     {Module, [{"Docs", DocsBin}]}
    ///
    /// Where `Module` is the documented module, and `DocsBin` is a binary in
    /// External Term Format containing the documentation.
    pub term: ExternalTermFormatBinary,
}

impl View for DocsChunk {
    type V = Seq<u8>;

    open spec fn view(&self) -> Seq<u8> {
        self.term@
    }
}

impl Chunk for DocsChunk {
    open spec fn spec_id(v: Seq<u8>) -> Id {
        DOCS
    }

    open spec fn spec_decode_data(id: Id, data: Seq<u8>) -> Result<Seq<u8>, Error> {
        spec_decode_blob(id, DOCS, data)
    }

    open spec fn spec_encodable(v: Seq<u8>) -> bool {
        true
    }

    open spec fn spec_encode_data(v: Seq<u8>) -> Result<Seq<u8>, Error> {
        Ok(v)
    }

    open spec fn spec_canonical(v: Seq<u8>) -> bool {
        true
    }

    fn id(&self) -> (id: &Id) {
        &DOCS
    }

    fn decode_data(id: &Id, reader: &[u8]) -> (r: Result<Self, Error>) {
        Ok(DocsChunk { term: decode_blob(id, &DOCS, reader)? })
    }

    fn encode_data(&self, writer: &mut Vec<u8>) -> (r: Result<(), Error>) {
        write_all(writer, self.term.as_slice());
        Ok(())
    }

    fn is_encodable(&self) -> (b: bool) {
        true
    }
}

/// The documentation that is encoded and then decoded is the same bytes.
pub proof fn lemma_docs_round_trip(v: Seq<u8>)
    ensures
        spec_round_trips::<DocsChunk>(v),
{
}

} // verus!
