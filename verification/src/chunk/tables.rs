//! The tables of records of fixed width: imports, exports, local functions
//! and anonymous functions.
use crate::chunk::aux::check_chunk_id;
use crate::chunk::{spec_round_trips, Chunk, Id, EXPT, FUNT, IMPT, LOCT};
use crate::error::Error;
use crate::parts::{Export, Function, Import, Local};
use crate::table::{
    lemma_table_round_trip, read_table, spec_parse_table, spec_table_bytes, spec_table_encodable,
    spec_views, table_is_encodable, write_table,
};
use vstd::prelude::*;

verus! {

/// A representation of the `"ImpT"` chunk.
#[derive(Debug, PartialEq, Eq)]
pub struct ImpTChunk {
    /// The list of imported functions.
    pub imports: Vec<Import>,
}

impl View for ImpTChunk {
    type V = Seq<Import>;

    open spec fn view(&self) -> Seq<Import> {
        spec_views(self.imports@)
    }
}

impl Chunk for ImpTChunk {
    open spec fn spec_id(v: Seq<Import>) -> Id {
        IMPT
    }

    open spec fn spec_decode_data(id: Id, data: Seq<u8>) -> Result<Seq<Import>, Error> {
        if id != IMPT {
            Err(Error::UnexpectedChunk { id: id, expected: IMPT })
        } else {
            spec_parse_table::<Import>(data)
        }
    }

    open spec fn spec_encodable(v: Seq<Import>) -> bool {
        spec_table_encodable::<Import>(v)
    }

    open spec fn spec_encode_data(v: Seq<Import>) -> Result<Seq<u8>, Error> {
        Ok(spec_table_bytes::<Import>(v))
    }

    open spec fn spec_canonical(v: Seq<Import>) -> bool {
        true
    }

    fn id(&self) -> (id: &Id) {
        &IMPT
    }

    fn decode_data(id: &Id, reader: &[u8]) -> (r: Result<Self, Error>) {
        check_chunk_id(id, &IMPT)?;
        Ok(ImpTChunk { imports: read_table::<Import>(reader)? })
    }

    fn encode_data(&self, writer: &mut Vec<u8>) -> (r: Result<(), Error>) {
        write_table(&self.imports, writer);
        proof {
            lemma_table_round_trip::<Import>(self@, Seq::empty());
            assert(spec_table_bytes::<Import>(self@) + Seq::<u8>::empty() =~= spec_table_bytes::<
                Import,
            >(self@));
        }
        Ok(())
    }

    fn is_encodable(&self) -> (b: bool) {
        table_is_encodable(&self.imports)
    }
}

/// A table of imports that is encoded and then decoded is the same table.
pub proof fn lemma_impt_round_trip(v: Seq<Import>)
    requires
        ImpTChunk::spec_encodable(v),
    ensures
        spec_round_trips::<ImpTChunk>(v),
{
    lemma_table_round_trip::<Import>(v, Seq::empty());
    assert(spec_table_bytes::<Import>(v) + Seq::<u8>::empty() =~= spec_table_bytes::<Import>(v));
}

/// A representation of the `"ExpT"` chunk.
#[derive(Debug, PartialEq, Eq)]
pub struct ExpTChunk {
    /// The list of exported functions.
    pub exports: Vec<Export>,
}

impl View for ExpTChunk {
    type V = Seq<Export>;

    open spec fn view(&self) -> Seq<Export> {
        spec_views(self.exports@)
    }
}

impl Chunk for ExpTChunk {
    open spec fn spec_id(v: Seq<Export>) -> Id {
        EXPT
    }

    open spec fn spec_decode_data(id: Id, data: Seq<u8>) -> Result<Seq<Export>, Error> {
        if id != EXPT {
            Err(Error::UnexpectedChunk { id: id, expected: EXPT })
        } else {
            spec_parse_table::<Export>(data)
        }
    }

    open spec fn spec_encodable(v: Seq<Export>) -> bool {
        spec_table_encodable::<Export>(v)
    }

    open spec fn spec_encode_data(v: Seq<Export>) -> Result<Seq<u8>, Error> {
        Ok(spec_table_bytes::<Export>(v))
    }

    open spec fn spec_canonical(v: Seq<Export>) -> bool {
        true
    }

    fn id(&self) -> (id: &Id) {
        &EXPT
    }

    fn decode_data(id: &Id, reader: &[u8]) -> (r: Result<Self, Error>) {
        check_chunk_id(id, &EXPT)?;
        Ok(ExpTChunk { exports: read_table::<Export>(reader)? })
    }

    fn encode_data(&self, writer: &mut Vec<u8>) -> (r: Result<(), Error>) {
        write_table(&self.exports, writer);
        proof {
            lemma_table_round_trip::<Export>(self@, Seq::empty());
            assert(spec_table_bytes::<Export>(self@) + Seq::<u8>::empty() =~= spec_table_bytes::<
                Export,
            >(self@));
        }
        Ok(())
    }

    fn is_encodable(&self) -> (b: bool) {
        table_is_encodable(&self.exports)
    }
}

/// A table of exports that is encoded and then decoded is the same table.
pub proof fn lemma_expt_round_trip(v: Seq<Export>)
    requires
        ExpTChunk::spec_encodable(v),
    ensures
        spec_round_trips::<ExpTChunk>(v),
{
    lemma_table_round_trip::<Export>(v, Seq::empty());
    assert(spec_table_bytes::<Export>(v) + Seq::<u8>::empty() =~= spec_table_bytes::<Export>(v));
}

/// A representation of the `"LocT"` chunk.
#[derive(Debug, PartialEq, Eq)]
pub struct LocTChunk {
    /// The list of local functions.
    pub locals: Vec<Local>,
}

impl View for LocTChunk {
    type V = Seq<Local>;

    open spec fn view(&self) -> Seq<Local> {
        spec_views(self.locals@)
    }
}

impl Chunk for LocTChunk {
    open spec fn spec_id(v: Seq<Local>) -> Id {
        LOCT
    }

    open spec fn spec_decode_data(id: Id, data: Seq<u8>) -> Result<Seq<Local>, Error> {
        if id != LOCT {
            Err(Error::UnexpectedChunk { id: id, expected: LOCT })
        } else {
            spec_parse_table::<Local>(data)
        }
    }

    open spec fn spec_encodable(v: Seq<Local>) -> bool {
        spec_table_encodable::<Local>(v)
    }

    open spec fn spec_encode_data(v: Seq<Local>) -> Result<Seq<u8>, Error> {
        Ok(spec_table_bytes::<Local>(v))
    }

    open spec fn spec_canonical(v: Seq<Local>) -> bool {
        true
    }

    fn id(&self) -> (id: &Id) {
        &LOCT
    }

    fn decode_data(id: &Id, reader: &[u8]) -> (r: Result<Self, Error>) {
        check_chunk_id(id, &LOCT)?;
        Ok(LocTChunk { locals: read_table::<Local>(reader)? })
    }

    fn encode_data(&self, writer: &mut Vec<u8>) -> (r: Result<(), Error>) {
        write_table(&self.locals, writer);
        proof {
            lemma_table_round_trip::<Local>(self@, Seq::empty());
            assert(spec_table_bytes::<Local>(self@) + Seq::<u8>::empty() =~= spec_table_bytes::<
                Local,
            >(self@));
        }
        Ok(())
    }

    fn is_encodable(&self) -> (b: bool) {
        table_is_encodable(&self.locals)
    }
}

/// A table of local functions that is encoded and then decoded is the same
/// table.
pub proof fn lemma_loct_round_trip(v: Seq<Local>)
    requires
        LocTChunk::spec_encodable(v),
    ensures
        spec_round_trips::<LocTChunk>(v),
{
    lemma_table_round_trip::<Local>(v, Seq::empty());
    assert(spec_table_bytes::<Local>(v) + Seq::<u8>::empty() =~= spec_table_bytes::<Local>(v));
}

/// A representation of the `"FunT"` chunk.
#[derive(Debug, PartialEq, Eq)]
pub struct FunTChunk {
    /// The list of anonymous functions.
    pub functions: Vec<Function>,
}

impl View for FunTChunk {
    type V = Seq<Function>;

    open spec fn view(&self) -> Seq<Function> {
        spec_views(self.functions@)
    }
}

impl Chunk for FunTChunk {
    open spec fn spec_id(v: Seq<Function>) -> Id {
        FUNT
    }

    open spec fn spec_decode_data(id: Id, data: Seq<u8>) -> Result<Seq<Function>, Error> {
        if id != FUNT {
            Err(Error::UnexpectedChunk { id: id, expected: FUNT })
        } else {
            spec_parse_table::<Function>(data)
        }
    }

    open spec fn spec_encodable(v: Seq<Function>) -> bool {
        spec_table_encodable::<Function>(v)
    }

    open spec fn spec_encode_data(v: Seq<Function>) -> Result<Seq<u8>, Error> {
        Ok(spec_table_bytes::<Function>(v))
    }

    open spec fn spec_canonical(v: Seq<Function>) -> bool {
        true
    }

    fn id(&self) -> (id: &Id) {
        &FUNT
    }

    fn decode_data(id: &Id, reader: &[u8]) -> (r: Result<Self, Error>) {
        check_chunk_id(id, &FUNT)?;
        Ok(FunTChunk { functions: read_table::<Function>(reader)? })
    }

    fn encode_data(&self, writer: &mut Vec<u8>) -> (r: Result<(), Error>) {
        write_table(&self.functions, writer);
        proof {
            lemma_table_round_trip::<Function>(self@, Seq::empty());
            assert(spec_table_bytes::<Function>(self@) + Seq::<u8>::empty() =~= spec_table_bytes::<
                Function,
            >(self@));
        }
        Ok(())
    }

    fn is_encodable(&self) -> (b: bool) {
        table_is_encodable(&self.functions)
    }
}

/// A table of anonymous functions that is encoded and then decoded is the
/// same table.
pub proof fn lemma_funt_round_trip(v: Seq<Function>)
    requires
        FunTChunk::spec_encodable(v),
    ensures
        spec_round_trips::<FunTChunk>(v),
{
    lemma_table_round_trip::<Function>(v, Seq::empty());
    assert(spec_table_bytes::<Function>(v) + Seq::<u8>::empty() =~= spec_table_bytes::<Function>(v));
}

} // verus!
