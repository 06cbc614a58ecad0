//! The parts that the tables of a BEAM file are made of, and how each of
//! them is stored.
use crate::bytes::{
    lemma_u32_be_prefix, read_exact, read_u32, read_u8, spec_u32_from_be, spec_u32_to_be,
    write_all, write_u32, write_u8,
};
use crate::error::{spec_eof, Error};
use vstd::prelude::*;
use vstd::seq_lib::lemma_concat_associative;
use vstd::slice::slice_to_vec;
use vstd::utf8::{
    decode_utf8, encode_utf8, encode_utf8_decode_utf8, encode_utf8_valid_utf8, valid_utf8,
};

verus! {

pub type AtomId = u32;

pub type Arity = u32;

/// A term in the external term format, kept as its bytes.
pub type ExternalTermFormatBinary = Vec<u8>;

/// The error of a string given as bytes that are no UTF-8.
#[verifier::external_type_specification]
#[verifier::external_body]
pub struct ExUtf8Error(core::str::Utf8Error);

/// `core::str::from_utf8`: the string whose UTF-8 form the bytes `v` are,
/// for the bytes that are valid UTF-8 and for no others.
pub assume_specification[ core::str::from_utf8 ](v: &[u8]) -> (r: core::result::Result<
    &str,
    core::str::Utf8Error,
>)
    ensures
        r is Ok <==> valid_utf8(v@),
        r matches Ok(s) ==> encode_utf8(s@) == v@,
;

/// A part of a table: something of which a counted run is stored, one after
/// the other, in the payload of a chunk.
pub trait Part: Sized + View {
    /// Whether each length in `v` fits the field that the format gives it.
    spec fn spec_encodable(v: Self::V) -> bool;

    /// The bytes that store `v`.
    spec fn spec_bytes(v: Self::V) -> Seq<u8>;

    /// The part at the start of `data` and the number of bytes that store it.
    spec fn spec_parse(data: Seq<u8>) -> Result<(Self::V, int), Error>;

    /// What was stored is read back, whatever follows it.
    proof fn lemma_round_trip(v: Self::V, rest: Seq<u8>)
        requires
            Self::spec_encodable(v),
        ensures
            Self::spec_parse(Self::spec_bytes(v) + rest) == Ok::<(Self::V, int), Error>(
                (v, Self::spec_bytes(v).len() as int),
            ),
    ;

    /// A part is not read for want of bytes, or because a name is no UTF-8,
    /// and for no other reason.
    proof fn lemma_parse_errors(data: Seq<u8>)
        ensures
            Self::spec_parse(data) matches Err(e) ==> e == spec_eof() || e == Error::InvalidString,
    ;

    /// Reads the part at the start of `data`, and gives it with the number
    /// of bytes of `data` that store it.
    fn read(data: &[u8]) -> (r: Result<(Self, usize), Error>)
        ensures
            match Self::spec_parse(data@) {
                Ok((v, n)) => r is Ok && r->Ok_0.0@ == v && r->Ok_0.1 == n && n <= data@.len(),
                Err(e) => r is Err && r->Err_0 == e,
            },
    ;

    /// Appends the bytes that store the part to `writer`.
    fn write(&self, writer: &mut Vec<u8>)
        requires
            Self::spec_encodable(self@),
        ensures
            final(writer)@ == old(writer)@ + Self::spec_bytes(self@),
    ;

    /// Tells whether the part can be stored.
    fn is_encodable(&self) -> (b: bool)
        ensures
            b == Self::spec_encodable(self@),
    ;
}

/// An atom: a name of at most 255 bytes of UTF-8.
#[derive(Debug, PartialEq, Eq)]
pub struct Atom {
    pub name: String,
}

impl View for Atom {
    type V = Seq<char>;

    open spec fn view(&self) -> Seq<char> {
        self.name@
    }
}

impl Atom {
    pub fn new(name: String) -> (atom: Self)
        ensures
            atom.name == name,
    {
        Atom { name: name }
    }
}

impl Part for Atom {
    open spec fn spec_encodable(v: Seq<char>) -> bool {
        encode_utf8(v).len() < 0x100
    }

    /// One byte with the length of the name in bytes, then the name.
    open spec fn spec_bytes(v: Seq<char>) -> Seq<u8> {
        seq![encode_utf8(v).len() as u8] + encode_utf8(v)
    }

    open spec fn spec_parse(data: Seq<u8>) -> Result<(Seq<char>, int), Error> {
        if data.len() < 1 {
            Err(spec_eof())
        } else if data.len() - 1 < data[0] {
            Err(spec_eof())
        } else if !valid_utf8(data.subrange(1, 1 + data[0])) {
            Err(Error::InvalidString)
        } else {
            Ok((decode_utf8(data.subrange(1, 1 + data[0])), 1 + data[0]))
        }
    }

    proof fn lemma_round_trip(v: Seq<char>, rest: Seq<u8>) {
        let name = encode_utf8(v);
        let data = Self::spec_bytes(v) + rest;
        assert(data[0] == name.len());
        assert(data.subrange(1, 1 + data[0]) =~= name);
        encode_utf8_valid_utf8(v);
        encode_utf8_decode_utf8(v);
    }

    proof fn lemma_parse_errors(data: Seq<u8>) {
    }

    fn read(data: &[u8]) -> (r: Result<(Self, usize), Error>) {
        let mut rest: &[u8] = data;
        let len: u8 = read_u8(&mut rest)?;
        let buf = read_exact(&mut rest, len as usize)?;
        assert(buf@ =~= data@.subrange(1, 1 + len));
        match core::str::from_utf8(buf) {
            Ok(name) => {
                proof {
                    encode_utf8_decode_utf8(name@);
                }
                Ok((Atom { name: name.to_owned() }, 1 + len as usize))
            },
            Err(_) => Err(Error::InvalidString),
        }
    }

    fn write(&self, writer: &mut Vec<u8>) {
        let name = self.name.as_str().as_bytes();
        write_u8(writer, name.len() as u8);
        write_all(writer, name);
        assert(writer@ =~= old(writer)@ + Self::spec_bytes(self@));
    }

    fn is_encodable(&self) -> (b: bool) {
        self.name.as_str().as_bytes().len() < 0x100
    }
}

/// A function that the module takes from another module.
#[derive(Debug, PartialEq, Eq)]
pub struct Import {
    pub module: AtomId,
    pub function: AtomId,
    pub arity: Arity,
}

impl View for Import {
    type V = Import;

    open spec fn view(&self) -> Import {
        *self
    }
}

impl Import {
    pub fn new(module: AtomId, function: AtomId, arity: Arity) -> (import: Self)
        ensures
            import == (Import { module, function, arity }),
    {
        Import { module: module, function: function, arity: arity }
    }
}

impl Part for Import {
    open spec fn spec_encodable(v: Import) -> bool {
        true
    }

    /// Module, function and arity, four bytes each.
    open spec fn spec_bytes(v: Import) -> Seq<u8> {
        spec_u32_to_be(v.module) + spec_u32_to_be(v.function) + spec_u32_to_be(v.arity)
    }

    open spec fn spec_parse(data: Seq<u8>) -> Result<(Import, int), Error> {
        if data.len() < 12 {
            Err(spec_eof())
        } else {
            Ok(
                (
                    Import {
                        module: spec_u32_from_be(data),
                        function: spec_u32_from_be(data.skip(4)),
                        arity: spec_u32_from_be(data.skip(8)),
                    },
                    12,
                ),
            )
        }
    }

    proof fn lemma_round_trip(v: Import, rest: Seq<u8>) {
        let data = Self::spec_bytes(v) + rest;
        lemma_u32_be_prefix(v.module, spec_u32_to_be(v.function) + spec_u32_to_be(v.arity) + rest);
        lemma_u32_be_prefix(v.function, spec_u32_to_be(v.arity) + rest);
        lemma_u32_be_prefix(v.arity, rest);
        assert(data =~= spec_u32_to_be(v.module) + (spec_u32_to_be(v.function) + spec_u32_to_be(
            v.arity,
        ) + rest));
        assert(data.skip(4) =~= spec_u32_to_be(v.function) + (spec_u32_to_be(v.arity) + rest));
        assert(data.skip(8) =~= spec_u32_to_be(v.arity) + rest);
    }

    proof fn lemma_parse_errors(data: Seq<u8>) {
    }

    fn read(data: &[u8]) -> (r: Result<(Self, usize), Error>) {
        let mut rest: &[u8] = data;
        let module: u32 = read_u32(&mut rest)?;
        let function: u32 = read_u32(&mut rest)?;
        let arity: u32 = read_u32(&mut rest)?;
        proof {
            assert(data@.skip(4).skip(4) =~= data@.skip(8));
        }
        Ok((Import { module, function, arity }, 12))
    }

    fn write(&self, writer: &mut Vec<u8>) {
        write_u32(writer, self.module);
        write_u32(writer, self.function);
        write_u32(writer, self.arity);
        assert(writer@ =~= old(writer)@ + Self::spec_bytes(self@));
    }

    fn is_encodable(&self) -> (b: bool) {
        true
    }
}

/// A function that the module offers to other modules.
#[derive(Debug, PartialEq, Eq)]
pub struct Export {
    pub function: AtomId,
    pub arity: Arity,
    pub label: u32,
}

impl View for Export {
    type V = Export;

    open spec fn view(&self) -> Export {
        *self
    }
}

impl Part for Export {
    open spec fn spec_encodable(v: Export) -> bool {
        true
    }

    /// Function, arity and label, four bytes each.
    open spec fn spec_bytes(v: Export) -> Seq<u8> {
        spec_u32_to_be(v.function) + spec_u32_to_be(v.arity) + spec_u32_to_be(v.label)
    }

    open spec fn spec_parse(data: Seq<u8>) -> Result<(Export, int), Error> {
        if data.len() < 12 {
            Err(spec_eof())
        } else {
            Ok(
                (
                    Export {
                        function: spec_u32_from_be(data),
                        arity: spec_u32_from_be(data.skip(4)),
                        label: spec_u32_from_be(data.skip(8)),
                    },
                    12,
                ),
            )
        }
    }

    proof fn lemma_round_trip(v: Export, rest: Seq<u8>) {
        let data = Self::spec_bytes(v) + rest;
        lemma_u32_be_prefix(v.function, spec_u32_to_be(v.arity) + spec_u32_to_be(v.label) + rest);
        lemma_u32_be_prefix(v.arity, spec_u32_to_be(v.label) + rest);
        lemma_u32_be_prefix(v.label, rest);
        assert(data =~= spec_u32_to_be(v.function) + (spec_u32_to_be(v.arity) + spec_u32_to_be(
            v.label,
        ) + rest));
        assert(data.skip(4) =~= spec_u32_to_be(v.arity) + (spec_u32_to_be(v.label) + rest));
        assert(data.skip(8) =~= spec_u32_to_be(v.label) + rest);
    }

    proof fn lemma_parse_errors(data: Seq<u8>) {
    }

    fn read(data: &[u8]) -> (r: Result<(Self, usize), Error>) {
        let mut rest: &[u8] = data;
        let function: u32 = read_u32(&mut rest)?;
        let arity: u32 = read_u32(&mut rest)?;
        let label: u32 = read_u32(&mut rest)?;
        proof {
            assert(data@.skip(4).skip(4) =~= data@.skip(8));
        }
        Ok((Export { function, arity, label }, 12))
    }

    fn write(&self, writer: &mut Vec<u8>) {
        write_u32(writer, self.function);
        write_u32(writer, self.arity);
        write_u32(writer, self.label);
        assert(writer@ =~= old(writer)@ + Self::spec_bytes(self@));
    }

    fn is_encodable(&self) -> (b: bool) {
        true
    }
}

/// A function that only the module itself calls.
#[derive(Debug, PartialEq, Eq)]
pub struct Local {
    pub function: AtomId,
    pub arity: Arity,
    pub label: u32,
}

impl View for Local {
    type V = Local;

    open spec fn view(&self) -> Local {
        *self
    }
}

impl Part for Local {
    open spec fn spec_encodable(v: Local) -> bool {
        true
    }

    /// Function, arity and label, four bytes each.
    open spec fn spec_bytes(v: Local) -> Seq<u8> {
        spec_u32_to_be(v.function) + spec_u32_to_be(v.arity) + spec_u32_to_be(v.label)
    }

    open spec fn spec_parse(data: Seq<u8>) -> Result<(Local, int), Error> {
        if data.len() < 12 {
            Err(spec_eof())
        } else {
            Ok(
                (
                    Local {
                        function: spec_u32_from_be(data),
                        arity: spec_u32_from_be(data.skip(4)),
                        label: spec_u32_from_be(data.skip(8)),
                    },
                    12,
                ),
            )
        }
    }

    proof fn lemma_round_trip(v: Local, rest: Seq<u8>) {
        let data = Self::spec_bytes(v) + rest;
        lemma_u32_be_prefix(v.function, spec_u32_to_be(v.arity) + spec_u32_to_be(v.label) + rest);
        lemma_u32_be_prefix(v.arity, spec_u32_to_be(v.label) + rest);
        lemma_u32_be_prefix(v.label, rest);
        assert(data =~= spec_u32_to_be(v.function) + (spec_u32_to_be(v.arity) + spec_u32_to_be(
            v.label,
        ) + rest));
        assert(data.skip(4) =~= spec_u32_to_be(v.arity) + (spec_u32_to_be(v.label) + rest));
        assert(data.skip(8) =~= spec_u32_to_be(v.label) + rest);
    }

    proof fn lemma_parse_errors(data: Seq<u8>) {
    }

    fn read(data: &[u8]) -> (r: Result<(Self, usize), Error>) {
        let mut rest: &[u8] = data;
        let function: u32 = read_u32(&mut rest)?;
        let arity: u32 = read_u32(&mut rest)?;
        let label: u32 = read_u32(&mut rest)?;
        proof {
            assert(data@.skip(4).skip(4) =~= data@.skip(8));
        }
        Ok((Local { function, arity, label }, 12))
    }

    fn write(&self, writer: &mut Vec<u8>) {
        write_u32(writer, self.function);
        write_u32(writer, self.arity);
        write_u32(writer, self.label);
        assert(writer@ =~= old(writer)@ + Self::spec_bytes(self@));
    }

    fn is_encodable(&self) -> (b: bool) {
        true
    }
}

/// An anonymous function.
#[derive(Debug, PartialEq, Eq)]
pub struct Function {
    pub function: AtomId,
    pub arity: Arity,
    pub label: u32,
    pub index: u32,
    pub num_free: u32,
    pub old_uniq: u32,
}

impl View for Function {
    type V = Function;

    open spec fn view(&self) -> Function {
        *self
    }
}

impl Part for Function {
    open spec fn spec_encodable(v: Function) -> bool {
        true
    }

    /// Function, arity, label, index, number of free variables and old
    /// unique number, four bytes each.
    open spec fn spec_bytes(v: Function) -> Seq<u8> {
        spec_u32_to_be(v.function) + spec_u32_to_be(v.arity) + spec_u32_to_be(v.label)
            + spec_u32_to_be(v.index) + spec_u32_to_be(v.num_free) + spec_u32_to_be(v.old_uniq)
    }

    open spec fn spec_parse(data: Seq<u8>) -> Result<(Function, int), Error> {
        if data.len() < 24 {
            Err(spec_eof())
        } else {
            Ok(
                (
                    Function {
                        function: spec_u32_from_be(data),
                        arity: spec_u32_from_be(data.skip(4)),
                        label: spec_u32_from_be(data.skip(8)),
                        index: spec_u32_from_be(data.skip(12)),
                        num_free: spec_u32_from_be(data.skip(16)),
                        old_uniq: spec_u32_from_be(data.skip(20)),
                    },
                    24,
                ),
            )
        }
    }

    proof fn lemma_round_trip(v: Function, rest: Seq<u8>) {
        let (a, b, c) = (
            spec_u32_to_be(v.function),
            spec_u32_to_be(v.arity),
            spec_u32_to_be(v.label),
        );
        let (d, e, f) = (
            spec_u32_to_be(v.index),
            spec_u32_to_be(v.num_free),
            spec_u32_to_be(v.old_uniq),
        );
        let data = Self::spec_bytes(v) + rest;
        let t5 = f + rest;
        let t4 = e + t5;
        let t3 = d + t4;
        let t2 = c + t3;
        let t1 = b + t2;
        lemma_concat_associative(a + b + c + d + e, f, rest);
        lemma_concat_associative(a + b + c + d, e, t5);
        lemma_concat_associative(a + b + c, d, t4);
        lemma_concat_associative(a + b, c, t3);
        lemma_concat_associative(a, b, t2);
        assert(data == a + t1);
        lemma_u32_be_prefix(v.function, t1);
        lemma_u32_be_prefix(v.arity, t2);
        lemma_u32_be_prefix(v.label, t3);
        lemma_u32_be_prefix(v.index, t4);
        lemma_u32_be_prefix(v.num_free, t5);
        lemma_u32_be_prefix(v.old_uniq, rest);
        assert(data.skip(8) =~= data.skip(4).skip(4));
        assert(data.skip(12) =~= data.skip(8).skip(4));
        assert(data.skip(16) =~= data.skip(12).skip(4));
        assert(data.skip(20) =~= data.skip(16).skip(4));
    }

    proof fn lemma_parse_errors(data: Seq<u8>) {
    }

    fn read(data: &[u8]) -> (r: Result<(Self, usize), Error>) {
        let mut rest: &[u8] = data;
        let function: u32 = read_u32(&mut rest)?;
        let arity: u32 = read_u32(&mut rest)?;
        let label: u32 = read_u32(&mut rest)?;
        let index: u32 = read_u32(&mut rest)?;
        let num_free: u32 = read_u32(&mut rest)?;
        let old_uniq: u32 = read_u32(&mut rest)?;
        proof {
            let b = data@;
            assert(b.skip(4).skip(4) =~= b.skip(8));
            assert(b.skip(8).skip(4) =~= b.skip(12));
            assert(b.skip(12).skip(4) =~= b.skip(16));
            assert(b.skip(16).skip(4) =~= b.skip(20));
        }
        Ok((Function { function, arity, label, index, num_free, old_uniq }, 24))
    }

    fn write(&self, writer: &mut Vec<u8>) {
        write_u32(writer, self.function);
        write_u32(writer, self.arity);
        write_u32(writer, self.label);
        write_u32(writer, self.index);
        write_u32(writer, self.num_free);
        write_u32(writer, self.old_uniq);
        assert(writer@ =~= old(writer)@ + Self::spec_bytes(self@));
    }

    fn is_encodable(&self) -> (b: bool) {
        true
    }
}

/// A literal is stored as the length of its bytes, in four bytes, and the
/// bytes.
impl Part for Vec<u8> {
    open spec fn spec_encodable(v: Seq<u8>) -> bool {
        v.len() <= u32::MAX
    }

    open spec fn spec_bytes(v: Seq<u8>) -> Seq<u8> {
        spec_u32_to_be(v.len() as u32) + v
    }

    open spec fn spec_parse(data: Seq<u8>) -> Result<(Seq<u8>, int), Error> {
        if data.len() < 4 {
            Err(spec_eof())
        } else if data.len() - 4 < spec_u32_from_be(data) {
            Err(spec_eof())
        } else {
            Ok((data.subrange(4, 4 + spec_u32_from_be(data)), 4 + spec_u32_from_be(data)))
        }
    }

    proof fn lemma_round_trip(v: Seq<u8>, rest: Seq<u8>) {
        let data = Self::spec_bytes(v) + rest;
        lemma_u32_be_prefix(v.len() as u32, v + rest);
        assert(data =~= spec_u32_to_be(v.len() as u32) + (v + rest));
        assert(data.subrange(4, 4 + v.len() as int) =~= v);
    }

    proof fn lemma_parse_errors(data: Seq<u8>) {
    }

    fn read(data: &[u8]) -> (r: Result<(Self, usize), Error>) {
        let mut rest: &[u8] = data;
        let size: u32 = read_u32(&mut rest)?;
        let buf = read_exact(&mut rest, size as usize)?;
        assert(buf@ =~= data@.subrange(4, 4 + size));
        Ok((slice_to_vec(buf), data.len() - rest.len()))
    }

    fn write(&self, writer: &mut Vec<u8>) {
        write_u32(writer, self.len() as u32);
        write_all(writer, self.as_slice());
        assert(writer@ =~= old(writer)@ + Self::spec_bytes(self@));
    }

    fn is_encodable(&self) -> (b: bool) {
        self.len() <= u32::MAX as usize
    }
}

} // verus!
