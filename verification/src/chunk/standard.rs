//! The chunk that is whichever of the commonly used chunks its identifier
//! says, or a raw chunk where the identifier says none of them.
use crate::chunk::atom::lemma_atom_round_trip;
use crate::chunk::aux::id_eq;
use crate::chunk::blob::{
    lemma_abst_round_trip, lemma_attr_round_trip, lemma_cinf_round_trip, lemma_dbgi_round_trip,
    lemma_docs_round_trip, lemma_strt_round_trip,
};
use crate::chunk::code::lemma_code_round_trip;
use crate::chunk::litt::lemma_litt_round_trip;
use crate::chunk::tables::{
    lemma_expt_round_trip, lemma_funt_round_trip, lemma_impt_round_trip, lemma_loct_round_trip,
};
use crate::chunk::{
    spec_round_trips, AbstChunk, AtomChunk, AtomChunkView, AttrChunk, CInfChunk, Chunk,
    CodeChunk, CodeChunkView, DbgiChunk, DocsChunk, ExpTChunk, FunTChunk, Id, ImpTChunk,
    LitTChunk, LocTChunk, RawChunk, RawChunkView, StrTChunk, ABST, ATOM, ATTR, ATU8, CINF, CODE,
    DBGI, DOCS, EXPT, FUNT, IMPT, LITT, LOCT, STRT,
};
use crate::error::{spec_eof, Error};
use crate::parts::{Atom, Export, Function, Import, Local};
use crate::table::{lemma_parse_table_errors, spec_table_bytes};
use crate::zlib::{spec_inflated, spec_zlib_round_trips};
use vstd::prelude::*;

verus! {

/// A representation of commonly used chunk.
#[derive(Debug, PartialEq, Eq)]
pub enum StandardChunk {
    Atom(AtomChunk),
    Code(CodeChunk),
    StrT(StrTChunk),
    ImpT(ImpTChunk),
    ExpT(ExpTChunk),
    LitT(LitTChunk),
    LocT(LocTChunk),
    FunT(FunTChunk),
    Attr(AttrChunk),
    CInf(CInfChunk),
    Abst(AbstChunk),
    Dbgi(DbgiChunk),
    Docs(DocsChunk),
    Unknown(RawChunk),
}

/// What a `StandardChunk` stands for.
pub enum StandardChunkView {
    Atom(AtomChunkView),
    Code(CodeChunkView),
    StrT(Seq<u8>),
    ImpT(Seq<Import>),
    ExpT(Seq<Export>),
    LitT(Seq<Seq<u8>>),
    LocT(Seq<Local>),
    FunT(Seq<Function>),
    Attr(Seq<u8>),
    CInf(Seq<u8>),
    Abst(Seq<u8>),
    Dbgi(Seq<u8>),
    Docs(Seq<u8>),
    Unknown(RawChunkView),
}

impl View for StandardChunk {
    type V = StandardChunkView;

    open spec fn view(&self) -> StandardChunkView {
        match self {
            StandardChunk::Atom(c) => StandardChunkView::Atom(c@),
            StandardChunk::Code(c) => StandardChunkView::Code(c@),
            StandardChunk::StrT(c) => StandardChunkView::StrT(c@),
            StandardChunk::ImpT(c) => StandardChunkView::ImpT(c@),
            StandardChunk::ExpT(c) => StandardChunkView::ExpT(c@),
            StandardChunk::LitT(c) => StandardChunkView::LitT(c@),
            StandardChunk::LocT(c) => StandardChunkView::LocT(c@),
            StandardChunk::FunT(c) => StandardChunkView::FunT(c@),
            StandardChunk::Attr(c) => StandardChunkView::Attr(c@),
            StandardChunk::CInf(c) => StandardChunkView::CInf(c@),
            StandardChunk::Abst(c) => StandardChunkView::Abst(c@),
            StandardChunk::Dbgi(c) => StandardChunkView::Dbgi(c@),
            StandardChunk::Docs(c) => StandardChunkView::Docs(c@),
            StandardChunk::Unknown(c) => StandardChunkView::Unknown(c@),
        }
    }
}

/// Whether `id` is the identifier of one of the commonly used chunks.
pub open spec fn spec_is_standard_id(id: Id) -> bool {
    ||| id == ATOM
    ||| id == ATU8
    ||| id == CODE
    ||| id == STRT
    ||| id == IMPT
    ||| id == EXPT
    ||| id == LITT
    ||| id == LOCT
    ||| id == FUNT
    ||| id == ATTR
    ||| id == CINF
    ||| id == ABST
    ||| id == DBGI
    ||| id == DOCS
}

/// Tells whether `id` is the identifier of one of the commonly used chunks.
pub fn is_standard_id(id: &Id) -> (b: bool)
    ensures
        b == spec_is_standard_id(*id),
{
    let atoms = id_eq(id, &ATOM) || id_eq(id, &ATU8);
    let code = id_eq(id, &CODE) || id_eq(id, &STRT) || id_eq(id, &LITT);
    let tables = id_eq(id, &IMPT) || id_eq(id, &EXPT) || id_eq(id, &LOCT) || id_eq(id, &FUNT);
    let terms = id_eq(id, &ATTR) || id_eq(id, &CINF) || id_eq(id, &ABST) || id_eq(id, &DBGI)
        || id_eq(id, &DOCS);
    atoms || code || tables || terms
}

/// The identifiers of the commonly used chunks differ from one another.
pub proof fn lemma_standard_ids_differ()
    ensures
        ATOM != ATU8,
        ATOM != CODE,
        ATOM != STRT,
        ATOM != IMPT,
        ATOM != EXPT,
        ATOM != LITT,
        ATOM != LOCT,
        ATOM != FUNT,
        ATOM != ATTR,
        ATOM != CINF,
        ATOM != ABST,
        ATOM != DBGI,
        ATOM != DOCS,
        ATU8 != CODE,
        ATU8 != STRT,
        ATU8 != IMPT,
        ATU8 != EXPT,
        ATU8 != LITT,
        ATU8 != LOCT,
        ATU8 != FUNT,
        ATU8 != ATTR,
        ATU8 != CINF,
        ATU8 != ABST,
        ATU8 != DBGI,
        ATU8 != DOCS,
        CODE != STRT,
        CODE != IMPT,
        CODE != EXPT,
        CODE != LITT,
        CODE != LOCT,
        CODE != FUNT,
        CODE != ATTR,
        CODE != CINF,
        CODE != ABST,
        CODE != DBGI,
        CODE != DOCS,
        STRT != IMPT,
        STRT != EXPT,
        STRT != LITT,
        STRT != LOCT,
        STRT != FUNT,
        STRT != ATTR,
        STRT != CINF,
        STRT != ABST,
        STRT != DBGI,
        STRT != DOCS,
        IMPT != EXPT,
        IMPT != LITT,
        IMPT != LOCT,
        IMPT != FUNT,
        IMPT != ATTR,
        IMPT != CINF,
        IMPT != ABST,
        IMPT != DBGI,
        IMPT != DOCS,
        EXPT != LITT,
        EXPT != LOCT,
        EXPT != FUNT,
        EXPT != ATTR,
        EXPT != CINF,
        EXPT != ABST,
        EXPT != DBGI,
        EXPT != DOCS,
        LITT != LOCT,
        LITT != FUNT,
        LITT != ATTR,
        LITT != CINF,
        LITT != ABST,
        LITT != DBGI,
        LITT != DOCS,
        LOCT != FUNT,
        LOCT != ATTR,
        LOCT != CINF,
        LOCT != ABST,
        LOCT != DBGI,
        LOCT != DOCS,
        FUNT != ATTR,
        FUNT != CINF,
        FUNT != ABST,
        FUNT != DBGI,
        FUNT != DOCS,
        ATTR != CINF,
        ATTR != ABST,
        ATTR != DBGI,
        ATTR != DOCS,
        CINF != ABST,
        CINF != DBGI,
        CINF != DOCS,
        ABST != DBGI,
        ABST != DOCS,
        DBGI != DOCS,
{
    assert(ATOM[2] != ATU8[2]);
    assert(ATOM[0] != CODE[0]);
    assert(ATOM[0] != STRT[0]);
    assert(ATOM[0] != IMPT[0]);
    assert(ATOM[0] != EXPT[0]);
    assert(ATOM[0] != LITT[0]);
    assert(ATOM[0] != LOCT[0]);
    assert(ATOM[0] != FUNT[0]);
    assert(ATOM[2] != ATTR[2]);
    assert(ATOM[0] != CINF[0]);
    assert(ATOM[1] != ABST[1]);
    assert(ATOM[0] != DBGI[0]);
    assert(ATOM[0] != DOCS[0]);
    assert(ATU8[0] != CODE[0]);
    assert(ATU8[0] != STRT[0]);
    assert(ATU8[0] != IMPT[0]);
    assert(ATU8[0] != EXPT[0]);
    assert(ATU8[0] != LITT[0]);
    assert(ATU8[0] != LOCT[0]);
    assert(ATU8[0] != FUNT[0]);
    assert(ATU8[2] != ATTR[2]);
    assert(ATU8[0] != CINF[0]);
    assert(ATU8[1] != ABST[1]);
    assert(ATU8[0] != DBGI[0]);
    assert(ATU8[0] != DOCS[0]);
    assert(CODE[0] != STRT[0]);
    assert(CODE[0] != IMPT[0]);
    assert(CODE[0] != EXPT[0]);
    assert(CODE[0] != LITT[0]);
    assert(CODE[0] != LOCT[0]);
    assert(CODE[0] != FUNT[0]);
    assert(CODE[0] != ATTR[0]);
    assert(CODE[1] != CINF[1]);
    assert(CODE[0] != ABST[0]);
    assert(CODE[0] != DBGI[0]);
    assert(CODE[0] != DOCS[0]);
    assert(STRT[0] != IMPT[0]);
    assert(STRT[0] != EXPT[0]);
    assert(STRT[0] != LITT[0]);
    assert(STRT[0] != LOCT[0]);
    assert(STRT[0] != FUNT[0]);
    assert(STRT[0] != ATTR[0]);
    assert(STRT[0] != CINF[0]);
    assert(STRT[0] != ABST[0]);
    assert(STRT[0] != DBGI[0]);
    assert(STRT[0] != DOCS[0]);
    assert(IMPT[0] != EXPT[0]);
    assert(IMPT[0] != LITT[0]);
    assert(IMPT[0] != LOCT[0]);
    assert(IMPT[0] != FUNT[0]);
    assert(IMPT[0] != ATTR[0]);
    assert(IMPT[0] != CINF[0]);
    assert(IMPT[0] != ABST[0]);
    assert(IMPT[0] != DBGI[0]);
    assert(IMPT[0] != DOCS[0]);
    assert(EXPT[0] != LITT[0]);
    assert(EXPT[0] != LOCT[0]);
    assert(EXPT[0] != FUNT[0]);
    assert(EXPT[0] != ATTR[0]);
    assert(EXPT[0] != CINF[0]);
    assert(EXPT[0] != ABST[0]);
    assert(EXPT[0] != DBGI[0]);
    assert(EXPT[0] != DOCS[0]);
    assert(LITT[1] != LOCT[1]);
    assert(LITT[0] != FUNT[0]);
    assert(LITT[0] != ATTR[0]);
    assert(LITT[0] != CINF[0]);
    assert(LITT[0] != ABST[0]);
    assert(LITT[0] != DBGI[0]);
    assert(LITT[0] != DOCS[0]);
    assert(LOCT[0] != FUNT[0]);
    assert(LOCT[0] != ATTR[0]);
    assert(LOCT[0] != CINF[0]);
    assert(LOCT[0] != ABST[0]);
    assert(LOCT[0] != DBGI[0]);
    assert(LOCT[0] != DOCS[0]);
    assert(FUNT[0] != ATTR[0]);
    assert(FUNT[0] != CINF[0]);
    assert(FUNT[0] != ABST[0]);
    assert(FUNT[0] != DBGI[0]);
    assert(FUNT[0] != DOCS[0]);
    assert(ATTR[0] != CINF[0]);
    assert(ATTR[1] != ABST[1]);
    assert(ATTR[0] != DBGI[0]);
    assert(ATTR[0] != DOCS[0]);
    assert(CINF[0] != ABST[0]);
    assert(CINF[0] != DBGI[0]);
    assert(CINF[0] != DOCS[0]);
    assert(ABST[0] != DBGI[0]);
    assert(ABST[0] != DOCS[0]);
    assert(DBGI[1] != DOCS[1]);
}

impl Chunk for StandardChunk {
    open spec fn spec_id(v: StandardChunkView) -> Id {
        match v {
            StandardChunkView::Atom(c) => AtomChunk::spec_id(c),
            StandardChunkView::Code(c) => CodeChunk::spec_id(c),
            StandardChunkView::StrT(c) => StrTChunk::spec_id(c),
            StandardChunkView::ImpT(c) => ImpTChunk::spec_id(c),
            StandardChunkView::ExpT(c) => ExpTChunk::spec_id(c),
            StandardChunkView::LitT(c) => LitTChunk::spec_id(c),
            StandardChunkView::LocT(c) => LocTChunk::spec_id(c),
            StandardChunkView::FunT(c) => FunTChunk::spec_id(c),
            StandardChunkView::Attr(c) => AttrChunk::spec_id(c),
            StandardChunkView::CInf(c) => CInfChunk::spec_id(c),
            StandardChunkView::Abst(c) => AbstChunk::spec_id(c),
            StandardChunkView::Dbgi(c) => DbgiChunk::spec_id(c),
            StandardChunkView::Docs(c) => DocsChunk::spec_id(c),
            StandardChunkView::Unknown(c) => RawChunk::spec_id(c),
        }
    }

    /// The chunk of the kind that `id` names, or a raw chunk where it names
    /// none.
    open spec fn spec_decode_data(id: Id, data: Seq<u8>) -> Result<StandardChunkView, Error> {
        if id == ATOM || id == ATU8 {
            match AtomChunk::spec_decode_data(id, data) {
                Ok(c) => Ok(StandardChunkView::Atom(c)),
                Err(e) => Err(e),
            }
        } else if id == CODE {
            match CodeChunk::spec_decode_data(id, data) {
                Ok(c) => Ok(StandardChunkView::Code(c)),
                Err(e) => Err(e),
            }
        } else if id == STRT {
            match StrTChunk::spec_decode_data(id, data) {
                Ok(c) => Ok(StandardChunkView::StrT(c)),
                Err(e) => Err(e),
            }
        } else if id == IMPT {
            match ImpTChunk::spec_decode_data(id, data) {
                Ok(c) => Ok(StandardChunkView::ImpT(c)),
                Err(e) => Err(e),
            }
        } else if id == EXPT {
            match ExpTChunk::spec_decode_data(id, data) {
                Ok(c) => Ok(StandardChunkView::ExpT(c)),
                Err(e) => Err(e),
            }
        } else if id == LITT {
            match LitTChunk::spec_decode_data(id, data) {
                Ok(c) => Ok(StandardChunkView::LitT(c)),
                Err(e) => Err(e),
            }
        } else if id == LOCT {
            match LocTChunk::spec_decode_data(id, data) {
                Ok(c) => Ok(StandardChunkView::LocT(c)),
                Err(e) => Err(e),
            }
        } else if id == FUNT {
            match FunTChunk::spec_decode_data(id, data) {
                Ok(c) => Ok(StandardChunkView::FunT(c)),
                Err(e) => Err(e),
            }
        } else if id == ATTR {
            match AttrChunk::spec_decode_data(id, data) {
                Ok(c) => Ok(StandardChunkView::Attr(c)),
                Err(e) => Err(e),
            }
        } else if id == CINF {
            match CInfChunk::spec_decode_data(id, data) {
                Ok(c) => Ok(StandardChunkView::CInf(c)),
                Err(e) => Err(e),
            }
        } else if id == ABST {
            match AbstChunk::spec_decode_data(id, data) {
                Ok(c) => Ok(StandardChunkView::Abst(c)),
                Err(e) => Err(e),
            }
        } else if id == DBGI {
            match DbgiChunk::spec_decode_data(id, data) {
                Ok(c) => Ok(StandardChunkView::Dbgi(c)),
                Err(e) => Err(e),
            }
        } else if id == DOCS {
            match DocsChunk::spec_decode_data(id, data) {
                Ok(c) => Ok(StandardChunkView::Docs(c)),
                Err(e) => Err(e),
            }
        } else {
            match RawChunk::spec_decode_data(id, data) {
                Ok(c) => Ok(StandardChunkView::Unknown(c)),
                Err(e) => Err(e),
            }
        }
    }

    open spec fn spec_encodable(v: StandardChunkView) -> bool {
        match v {
            StandardChunkView::Atom(c) => AtomChunk::spec_encodable(c),
            StandardChunkView::Code(c) => CodeChunk::spec_encodable(c),
            StandardChunkView::StrT(c) => StrTChunk::spec_encodable(c),
            StandardChunkView::ImpT(c) => ImpTChunk::spec_encodable(c),
            StandardChunkView::ExpT(c) => ExpTChunk::spec_encodable(c),
            StandardChunkView::LitT(c) => LitTChunk::spec_encodable(c),
            StandardChunkView::LocT(c) => LocTChunk::spec_encodable(c),
            StandardChunkView::FunT(c) => FunTChunk::spec_encodable(c),
            StandardChunkView::Attr(c) => AttrChunk::spec_encodable(c),
            StandardChunkView::CInf(c) => CInfChunk::spec_encodable(c),
            StandardChunkView::Abst(c) => AbstChunk::spec_encodable(c),
            StandardChunkView::Dbgi(c) => DbgiChunk::spec_encodable(c),
            StandardChunkView::Docs(c) => DocsChunk::spec_encodable(c),
            StandardChunkView::Unknown(c) => RawChunk::spec_encodable(c),
        }
    }

    open spec fn spec_encode_data(v: StandardChunkView) -> Result<Seq<u8>, Error> {
        match v {
            StandardChunkView::Atom(c) => AtomChunk::spec_encode_data(c),
            StandardChunkView::Code(c) => CodeChunk::spec_encode_data(c),
            StandardChunkView::StrT(c) => StrTChunk::spec_encode_data(c),
            StandardChunkView::ImpT(c) => ImpTChunk::spec_encode_data(c),
            StandardChunkView::ExpT(c) => ExpTChunk::spec_encode_data(c),
            StandardChunkView::LitT(c) => LitTChunk::spec_encode_data(c),
            StandardChunkView::LocT(c) => LocTChunk::spec_encode_data(c),
            StandardChunkView::FunT(c) => FunTChunk::spec_encode_data(c),
            StandardChunkView::Attr(c) => AttrChunk::spec_encode_data(c),
            StandardChunkView::CInf(c) => CInfChunk::spec_encode_data(c),
            StandardChunkView::Abst(c) => AbstChunk::spec_encode_data(c),
            StandardChunkView::Dbgi(c) => DbgiChunk::spec_encode_data(c),
            StandardChunkView::Docs(c) => DocsChunk::spec_encode_data(c),
            StandardChunkView::Unknown(c) => RawChunk::spec_encode_data(c),
        }
    }

    /// A raw chunk stands for a chunk whose identifier is none of the
    /// commonly used ones; a chunk of one of those kinds is never decoded as
    /// a raw chunk.
    open spec fn spec_canonical(v: StandardChunkView) -> bool {
        match v {
            StandardChunkView::Atom(c) => AtomChunk::spec_canonical(c),
            StandardChunkView::Code(c) => CodeChunk::spec_canonical(c),
            StandardChunkView::StrT(c) => StrTChunk::spec_canonical(c),
            StandardChunkView::ImpT(c) => ImpTChunk::spec_canonical(c),
            StandardChunkView::ExpT(c) => ExpTChunk::spec_canonical(c),
            StandardChunkView::LitT(c) => LitTChunk::spec_canonical(c),
            StandardChunkView::LocT(c) => LocTChunk::spec_canonical(c),
            StandardChunkView::FunT(c) => FunTChunk::spec_canonical(c),
            StandardChunkView::Attr(c) => AttrChunk::spec_canonical(c),
            StandardChunkView::CInf(c) => CInfChunk::spec_canonical(c),
            StandardChunkView::Abst(c) => AbstChunk::spec_canonical(c),
            StandardChunkView::Dbgi(c) => DbgiChunk::spec_canonical(c),
            StandardChunkView::Docs(c) => DocsChunk::spec_canonical(c),
            StandardChunkView::Unknown(c) => !spec_is_standard_id(c.id) && RawChunk::spec_canonical(
                c,
            ),
        }
    }

    fn id(&self) -> (id: &Id) {
        match self {
            StandardChunk::Atom(c) => c.id(),
            StandardChunk::Code(c) => c.id(),
            StandardChunk::StrT(c) => c.id(),
            StandardChunk::ImpT(c) => c.id(),
            StandardChunk::ExpT(c) => c.id(),
            StandardChunk::LitT(c) => c.id(),
            StandardChunk::LocT(c) => c.id(),
            StandardChunk::FunT(c) => c.id(),
            StandardChunk::Attr(c) => c.id(),
            StandardChunk::CInf(c) => c.id(),
            StandardChunk::Abst(c) => c.id(),
            StandardChunk::Dbgi(c) => c.id(),
            StandardChunk::Docs(c) => c.id(),
            StandardChunk::Unknown(c) => c.id(),
        }
    }

    fn decode_data(id: &Id, reader: &[u8]) -> (r: Result<Self, Error>) {
        if id_eq(id, &ATOM) || id_eq(id, &ATU8) {
            Ok(StandardChunk::Atom(AtomChunk::decode_data(id, reader)?))
        } else if id_eq(id, &CODE) {
            Ok(StandardChunk::Code(CodeChunk::decode_data(id, reader)?))
        } else if id_eq(id, &STRT) {
            Ok(StandardChunk::StrT(StrTChunk::decode_data(id, reader)?))
        } else if id_eq(id, &IMPT) {
            Ok(StandardChunk::ImpT(ImpTChunk::decode_data(id, reader)?))
        } else if id_eq(id, &EXPT) {
            Ok(StandardChunk::ExpT(ExpTChunk::decode_data(id, reader)?))
        } else if id_eq(id, &LITT) {
            Ok(StandardChunk::LitT(LitTChunk::decode_data(id, reader)?))
        } else if id_eq(id, &LOCT) {
            Ok(StandardChunk::LocT(LocTChunk::decode_data(id, reader)?))
        } else if id_eq(id, &FUNT) {
            Ok(StandardChunk::FunT(FunTChunk::decode_data(id, reader)?))
        } else if id_eq(id, &ATTR) {
            Ok(StandardChunk::Attr(AttrChunk::decode_data(id, reader)?))
        } else if id_eq(id, &CINF) {
            Ok(StandardChunk::CInf(CInfChunk::decode_data(id, reader)?))
        } else if id_eq(id, &ABST) {
            Ok(StandardChunk::Abst(AbstChunk::decode_data(id, reader)?))
        } else if id_eq(id, &DBGI) {
            Ok(StandardChunk::Dbgi(DbgiChunk::decode_data(id, reader)?))
        } else if id_eq(id, &DOCS) {
            Ok(StandardChunk::Docs(DocsChunk::decode_data(id, reader)?))
        } else {
            Ok(StandardChunk::Unknown(RawChunk::decode_data(id, reader)?))
        }
    }

    fn encode_data(&self, writer: &mut Vec<u8>) -> (r: Result<(), Error>) {
        proof {
            lemma_standard_ids_differ();
        }
        match self {
            StandardChunk::Atom(c) => c.encode_data(writer),
            StandardChunk::Code(c) => c.encode_data(writer),
            StandardChunk::StrT(c) => c.encode_data(writer),
            StandardChunk::ImpT(c) => c.encode_data(writer),
            StandardChunk::ExpT(c) => c.encode_data(writer),
            StandardChunk::LitT(c) => c.encode_data(writer),
            StandardChunk::LocT(c) => c.encode_data(writer),
            StandardChunk::FunT(c) => c.encode_data(writer),
            StandardChunk::Attr(c) => c.encode_data(writer),
            StandardChunk::CInf(c) => c.encode_data(writer),
            StandardChunk::Abst(c) => c.encode_data(writer),
            StandardChunk::Dbgi(c) => c.encode_data(writer),
            StandardChunk::Docs(c) => c.encode_data(writer),
            StandardChunk::Unknown(c) => c.encode_data(writer),
        }
    }

    fn is_encodable(&self) -> (b: bool) {
        match self {
            StandardChunk::Atom(c) => c.is_encodable(),
            StandardChunk::Code(c) => c.is_encodable(),
            StandardChunk::StrT(c) => c.is_encodable(),
            StandardChunk::ImpT(c) => c.is_encodable(),
            StandardChunk::ExpT(c) => c.is_encodable(),
            StandardChunk::LitT(c) => c.is_encodable(),
            StandardChunk::LocT(c) => c.is_encodable(),
            StandardChunk::FunT(c) => c.is_encodable(),
            StandardChunk::Attr(c) => c.is_encodable(),
            StandardChunk::CInf(c) => c.is_encodable(),
            StandardChunk::Abst(c) => c.is_encodable(),
            StandardChunk::Dbgi(c) => c.is_encodable(),
            StandardChunk::Docs(c) => c.is_encodable(),
            StandardChunk::Unknown(c) => c.is_encodable(),
        }
    }
}

/// A chunk in canonical form that is encoded and then decoded is the same
/// chunk; for the literals, where the decompressor gives back what the
/// compressor was given.
pub proof fn lemma_standard_round_trip(v: StandardChunkView)
    requires
        StandardChunk::spec_encodable(v),
        StandardChunk::spec_canonical(v),
        v matches StandardChunkView::LitT(c) ==> spec_zlib_round_trips(
            spec_table_bytes::<Vec<u8>>(c),
        ),
    ensures
        spec_round_trips::<StandardChunk>(v),
{
    lemma_standard_ids_differ();
    match v {
        StandardChunkView::Atom(c) => lemma_atom_round_trip(c),
        StandardChunkView::Code(c) => lemma_code_round_trip(c),
        StandardChunkView::StrT(c) => lemma_strt_round_trip(c),
        StandardChunkView::ImpT(c) => lemma_impt_round_trip(c),
        StandardChunkView::ExpT(c) => lemma_expt_round_trip(c),
        StandardChunkView::LitT(c) => lemma_litt_round_trip(c),
        StandardChunkView::LocT(c) => lemma_loct_round_trip(c),
        StandardChunkView::FunT(c) => lemma_funt_round_trip(c),
        StandardChunkView::Attr(c) => lemma_attr_round_trip(c),
        StandardChunkView::CInf(c) => lemma_cinf_round_trip(c),
        StandardChunkView::Abst(c) => lemma_abst_round_trip(c),
        StandardChunkView::Dbgi(c) => lemma_dbgi_round_trip(c),
        StandardChunkView::Docs(c) => lemma_docs_round_trip(c),
        StandardChunkView::Unknown(c) => {},
    }
}

/// Every identifier finds its codec. No payload is handed to the codec of
/// another kind of chunk: a chunk is not decoded for want of bytes, for a name
/// that is no UTF-8 or for literals that are no zlib stream, and for no
/// other reason. Under an identifier that is none of the commonly used ones
/// the payload is kept as it is.
pub proof fn lemma_standard_dispatch(id: Id, data: Seq<u8>)
    ensures
        StandardChunk::spec_decode_data(id, data) matches Err(e) ==> e == spec_eof() || e
            == Error::InvalidString || e == Error::Compression,
        !spec_is_standard_id(id) ==> StandardChunk::spec_decode_data(id, data) == Ok::<
            StandardChunkView,
            Error,
        >(StandardChunkView::Unknown(RawChunkView { id: id, data: data })),
{
    lemma_parse_table_errors::<Atom>(data);
    lemma_parse_table_errors::<Import>(data);
    lemma_parse_table_errors::<Export>(data);
    lemma_parse_table_errors::<Local>(data);
    lemma_parse_table_errors::<Function>(data);
    if data.len() >= 4 {
        if let Some(table) = spec_inflated(data.skip(4)) {
            lemma_parse_table_errors::<Vec<u8>>(table);
        }
    }
}

} // verus!
