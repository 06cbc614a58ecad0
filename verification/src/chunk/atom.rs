//! The table of atoms.
use crate::chunk::aux::check_chunk_id;
use crate::chunk::{spec_round_trips, Chunk, Id, ATOM, ATU8};
use crate::error::Error;
use crate::parts::Atom;
use crate::table::{
    lemma_table_round_trip, read_table, spec_parse_table, spec_table_bytes, spec_table_encodable,
    spec_views, table_is_encodable, write_table,
};
use vstd::prelude::*;

verus! {

/// A representation of the `"Atom"` and `"AtU8"` chunks.
#[derive(Debug, PartialEq, Eq)]
pub struct AtomChunk {
    /// Whether or not this Atom chunk contains UTF-8 atoms: it then goes by
    /// the identifier `AtU8`, else by `Atom`.
    pub is_unicode: bool,
    /// The list of atoms contained in a BEAM file.
    pub atoms: Vec<Atom>,
}

/// What an `AtomChunk` stands for.
pub struct AtomChunkView {
    /// Whether the chunk goes by the identifier `AtU8`.
    pub is_unicode: bool,
    /// The names of the atoms.
    pub atoms: Seq<Seq<char>>,
}

impl View for AtomChunk {
    type V = AtomChunkView;

    open spec fn view(&self) -> AtomChunkView {
        AtomChunkView { is_unicode: self.is_unicode, atoms: spec_views(self.atoms@) }
    }
}

impl Chunk for AtomChunk {
    open spec fn spec_id(v: AtomChunkView) -> Id {
        if v.is_unicode {
            ATU8
        } else {
            ATOM
        }
    }

    /// A table of atoms under either of the two identifiers, which says
    /// whether the chunk is a Unicode one.
    open spec fn spec_decode_data(id: Id, data: Seq<u8>) -> Result<AtomChunkView, Error> {
        if id != ATOM && id != ATU8 {
            Err(Error::UnexpectedChunk { id: id, expected: ATU8 })
        } else {
            match spec_parse_table::<Atom>(data) {
                Ok(atoms) => Ok(AtomChunkView { is_unicode: id != ATOM, atoms: atoms }),
                Err(e) => Err(e),
            }
        }
    }

    open spec fn spec_encodable(v: AtomChunkView) -> bool {
        spec_table_encodable::<Atom>(v.atoms)
    }

    open spec fn spec_encode_data(v: AtomChunkView) -> Result<Seq<u8>, Error> {
        Ok(spec_table_bytes::<Atom>(v.atoms))
    }

    open spec fn spec_canonical(v: AtomChunkView) -> bool {
        true
    }

    fn id(&self) -> (id: &Id) {
        if self.is_unicode {
            &ATU8
        } else {
            &ATOM
        }
    }

    fn decode_data(id: &Id, reader: &[u8]) -> (r: Result<Self, Error>) {
        // This chunk can be either Atom or AtU8
        let unicode: bool;
        match check_chunk_id(id, &ATOM) {
            Err(_) => {
                check_chunk_id(id, &ATU8)?;
                unicode = true;
            },
            Ok(_) => {
                unicode = false;
            },
        }
        let atoms = read_table::<Atom>(reader)?;
        Ok(AtomChunk { is_unicode: unicode, atoms: atoms })
    }

    fn encode_data(&self, writer: &mut Vec<u8>) -> (r: Result<(), Error>) {
        write_table(&self.atoms, writer);
        proof {
            lemma_table_round_trip::<Atom>(self@.atoms, Seq::empty());
            assert(spec_table_bytes::<Atom>(self@.atoms) + Seq::<u8>::empty()
                =~= spec_table_bytes::<Atom>(self@.atoms));
            assert(ATOM[2] != ATU8[2]);
        }
        Ok(())
    }

    fn is_encodable(&self) -> (b: bool) {
        table_is_encodable(&self.atoms)
    }
}

/// A table of atoms that is encoded and then decoded under its own
/// identifier is the same table, with the same identifier.
pub proof fn lemma_atom_round_trip(v: AtomChunkView)
    requires
        AtomChunk::spec_encodable(v),
    ensures
        spec_round_trips::<AtomChunk>(v),
{
    lemma_table_round_trip::<Atom>(v.atoms, Seq::empty());
    assert(spec_table_bytes::<Atom>(v.atoms) + Seq::<u8>::empty() =~= spec_table_bytes::<Atom>(
        v.atoms,
    ));
    assert(ATOM[0] != ATU8[0] || ATOM[2] != ATU8[2]);
}

} // verus!
