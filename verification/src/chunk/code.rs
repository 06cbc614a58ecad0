//! The byte code and the numbers that stand before it.
use crate::bytes::{
    lemma_u32_be_prefix, read_to_end, read_u32, spec_u32_from_be, spec_u32_to_be, write_all,
    write_u32,
};
use crate::chunk::aux::check_chunk_id;
use crate::chunk::{spec_round_trips, Chunk, Id, CODE};
use crate::error::{spec_eof, Error};
use vstd::prelude::*;
use vstd::seq_lib::lemma_concat_associative;

verus! {

/// A representation of the `"Code"` chunk.
#[derive(Debug, PartialEq, Eq)]
pub struct CodeChunk {
    /// Length of the information fields before code.
    pub info_size: u32,
    /// Instruction set version.
    pub version: u32,
    /// The highest opcode used in the code section.
    pub opcode_max: u32,
    /// The number of labels.
    pub label_count: u32,
    /// The number of functions.
    pub function_count: u32,
    /// The byte code.
    pub bytecode: Vec<u8>,
}

/// What a `CodeChunk` stands for.
pub struct CodeChunkView {
    pub info_size: u32,
    pub version: u32,
    pub opcode_max: u32,
    pub label_count: u32,
    pub function_count: u32,
    pub bytecode: Seq<u8>,
}

impl View for CodeChunk {
    type V = CodeChunkView;

    open spec fn view(&self) -> CodeChunkView {
        CodeChunkView {
            info_size: self.info_size,
            version: self.version,
            opcode_max: self.opcode_max,
            label_count: self.label_count,
            function_count: self.function_count,
            bytecode: self.bytecode@,
        }
    }
}

/// The payload of a code chunk: five numbers of four bytes each, then the
/// byte code.
pub open spec fn spec_code_payload(v: CodeChunkView) -> Seq<u8> {
    spec_u32_to_be(v.info_size) + spec_u32_to_be(v.version) + spec_u32_to_be(v.opcode_max)
        + spec_u32_to_be(v.label_count) + spec_u32_to_be(v.function_count) + v.bytecode
}

/// The code chunk that the payload `data` holds: five numbers of four bytes
/// each, and all that follows as the byte code.
pub open spec fn spec_code_parse(data: Seq<u8>) -> Result<CodeChunkView, Error> {
    if data.len() < 20 {
        Err(spec_eof())
    } else {
        Ok(
            CodeChunkView {
                info_size: spec_u32_from_be(data),
                version: spec_u32_from_be(data.skip(4)),
                opcode_max: spec_u32_from_be(data.skip(8)),
                label_count: spec_u32_from_be(data.skip(12)),
                function_count: spec_u32_from_be(data.skip(16)),
                bytecode: data.skip(20),
            },
        )
    }
}

/// The payload of a code chunk holds that code chunk.
pub proof fn lemma_code_payload_round_trip(v: CodeChunkView)
    ensures
        spec_code_parse(spec_code_payload(v)) == Ok::<CodeChunkView, Error>(v),
{
    let (a, b, c) = (
        spec_u32_to_be(v.info_size),
        spec_u32_to_be(v.version),
        spec_u32_to_be(v.opcode_max),
    );
    let (d, e) = (spec_u32_to_be(v.label_count), spec_u32_to_be(v.function_count));
    let data = spec_code_payload(v);
    let t4 = e + v.bytecode;
    let t3 = d + t4;
    let t2 = c + t3;
    let t1 = b + t2;
    lemma_concat_associative(a + b + c + d, e, v.bytecode);
    lemma_concat_associative(a + b + c, d, t4);
    lemma_concat_associative(a + b, c, t3);
    lemma_concat_associative(a, b, t2);
    assert(data == a + t1);
    lemma_u32_be_prefix(v.info_size, t1);
    lemma_u32_be_prefix(v.version, t2);
    lemma_u32_be_prefix(v.opcode_max, t3);
    lemma_u32_be_prefix(v.label_count, t4);
    lemma_u32_be_prefix(v.function_count, v.bytecode);
    assert(data.skip(8) =~= data.skip(4).skip(4));
    assert(data.skip(12) =~= data.skip(8).skip(4));
    assert(data.skip(16) =~= data.skip(12).skip(4));
    assert(data.skip(20) =~= data.skip(16).skip(4));
}

impl Chunk for CodeChunk {
    open spec fn spec_id(v: CodeChunkView) -> Id {
        CODE
    }

    open spec fn spec_decode_data(id: Id, data: Seq<u8>) -> Result<CodeChunkView, Error> {
        if id != CODE {
            Err(Error::UnexpectedChunk { id: id, expected: CODE })
        } else {
            spec_code_parse(data)
        }
    }

    open spec fn spec_encodable(v: CodeChunkView) -> bool {
        true
    }

    open spec fn spec_encode_data(v: CodeChunkView) -> Result<Seq<u8>, Error> {
        Ok(spec_code_payload(v))
    }

    open spec fn spec_canonical(v: CodeChunkView) -> bool {
        true
    }

    fn id(&self) -> (id: &Id) {
        &CODE
    }

    fn decode_data(id: &Id, reader: &[u8]) -> (r: Result<Self, Error>) {
        check_chunk_id(id, &CODE)?;
        let mut rest: &[u8] = reader;
        let info_size: u32 = read_u32(&mut rest)?;
        let version: u32 = read_u32(&mut rest)?;
        let opcode_max: u32 = read_u32(&mut rest)?;
        let label_count: u32 = read_u32(&mut rest)?;
        let function_count: u32 = read_u32(&mut rest)?;
        proof {
            let b = reader@;
            assert(b.skip(4).skip(4) =~= b.skip(8));
            assert(b.skip(8).skip(4) =~= b.skip(12));
            assert(b.skip(12).skip(4) =~= b.skip(16));
            assert(b.skip(16).skip(4) =~= b.skip(20));
        }
        let bytecode = read_to_end(&mut rest);
        Ok(
            CodeChunk {
                info_size: info_size,
                version: version,
                opcode_max: opcode_max,
                label_count: label_count,
                function_count: function_count,
                bytecode: bytecode,
            },
        )
    }

    fn encode_data(&self, writer: &mut Vec<u8>) -> (r: Result<(), Error>) {
        write_u32(writer, self.info_size);
        write_u32(writer, self.version);
        write_u32(writer, self.opcode_max);
        write_u32(writer, self.label_count);
        write_u32(writer, self.function_count);
        write_all(writer, self.bytecode.as_slice());
        proof {
            let (a, b, c) = (
                spec_u32_to_be(self.info_size),
                spec_u32_to_be(self.version),
                spec_u32_to_be(self.opcode_max),
            );
            let (d, e) = (spec_u32_to_be(self.label_count), spec_u32_to_be(self.function_count));
            let w = old(writer)@;
            lemma_concat_associative(w, a, b);
            lemma_concat_associative(w, a + b, c);
            lemma_concat_associative(w, a + b + c, d);
            lemma_concat_associative(w, a + b + c + d, e);
            lemma_concat_associative(w, a + b + c + d + e, self.bytecode@);
            assert(writer@ == w + spec_code_payload(self@));
            lemma_code_payload_round_trip(self@);
        }
        Ok(())
    }

    fn is_encodable(&self) -> (b: bool) {
        true
    }
}

/// A code chunk that is encoded and then decoded is the same chunk.
pub proof fn lemma_code_round_trip(v: CodeChunkView)
    ensures
        spec_round_trips::<CodeChunk>(v),
{
    lemma_code_payload_round_trip(v);
}

} // verus!
