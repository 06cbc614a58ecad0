use beam_file::chunk::{
    AbstChunk, AtomChunk, AttrChunk, CInfChunk, Chunk, CodeChunk, ExpTChunk, ImpTChunk,
    LitTChunk, LocTChunk, RawChunk, StandardChunk, StrTChunk,
};
use beam_file::parts;
use beam_file::RawBeamFile;
use beam_file::StandardBeamFile;

#[test]
fn raw_chunks() {
    let beam = RawBeamFile::from_reader(&test_beam()).unwrap();

    // Chunk List
    assert_eq!(
        vec!["Atom", "Code", "StrT", "ImpT", "ExpT", "LitT", "LocT", "Attr", "CInf", "Abst", "Line"],
        collect_id(&beam.chunks)
    );
}

#[test]
fn standard_chunks() {
    let beam = StandardBeamFile::from_reader(&test_beam()).unwrap();

    // Chunk List
    assert_eq!(
        vec!["Atom", "Code", "StrT", "ImpT", "ExpT", "LitT", "LocT", "Attr", "CInf", "Abst", "Line"],
        collect_id(&beam.chunks)
    );

    // Atom Chunk
    let atoms = &beam
        .chunks
        .iter()
        .filter_map(|c| if let StandardChunk::Atom(ref x) = *c { Some(x) } else { None })
        .nth(0)
        .unwrap()
        .atoms;
    assert_eq!(
        vec!["test", "hello", "io", "format", "ok", "module_info", "erlang", "get_module_info"],
        atoms.iter().map(|a| &a.name).collect::<Vec<_>>()
    );

    // Code Chunk
    let code = beam
        .chunks
        .iter()
        .filter_map(|c| if let StandardChunk::Code(ref x) = *c { Some(x) } else { None })
        .nth(0)
        .unwrap();
    assert_eq!(16, code.info_size);
    assert_eq!(0, code.version);
    assert_eq!(153, code.opcode_max);
    assert_eq!(7, code.label_count);
    assert_eq!(3, code.function_count);
    assert_eq!(73, code.bytecode.len());

    // StrT Chunk
    let strt = beam
        .chunks
        .iter()
        .filter_map(|c| if let StandardChunk::StrT(ref x) = *c { Some(x) } else { None })
        .nth(0)
        .unwrap();
    assert_eq!(0, strt.strings.len());

    // ImpT Chunk
    let atom_name = |id: u32| &atoms[id as usize - 1].name;
    let import_to_string = |i: &parts::Import| {
        format!("{}:{}/{}", atom_name(i.module), atom_name(i.function), i.arity)
    };
    let impt = beam
        .chunks
        .iter()
        .filter_map(|c| if let StandardChunk::ImpT(ref x) = *c { Some(x) } else { None })
        .nth(0)
        .unwrap();
    assert_eq!(
        vec!["io:format/2", "erlang:get_module_info/1", "erlang:get_module_info/2"],
        impt.imports.iter().map(import_to_string).collect::<Vec<_>>()
    );
}

/// The bytes of a BEAM file for a module `test` with a function `hello/0`.
fn test_beam() -> Vec<u8> {
    let names = ["test", "hello", "io", "format", "ok", "module_info", "erlang", "get_module_info"];
    let atoms = names.iter().map(|n| parts::Atom::new(n.to_string())).collect();
    let beam = StandardBeamFile {
        chunks: vec![
            StandardChunk::Atom(AtomChunk { is_unicode: false, atoms: atoms }),
            StandardChunk::Code(CodeChunk {
                info_size: 16,
                version: 0,
                opcode_max: 153,
                label_count: 7,
                function_count: 3,
                bytecode: (0..73).collect(),
            }),
            StandardChunk::StrT(StrTChunk { strings: Vec::new() }),
            StandardChunk::ImpT(ImpTChunk {
                imports: vec![
                    parts::Import::new(3, 4, 2),
                    parts::Import::new(7, 8, 1),
                    parts::Import::new(7, 8, 2),
                ],
            }),
            StandardChunk::ExpT(ExpTChunk {
                exports: vec![
                    parts::Export { function: 6, arity: 1, label: 6 },
                    parts::Export { function: 6, arity: 0, label: 4 },
                    parts::Export { function: 2, arity: 0, label: 2 },
                ],
            }),
            StandardChunk::LitT(LitTChunk { literals: vec![vec![131, 107, 0, 2, 104, 105]] }),
            StandardChunk::LocT(LocTChunk { locals: Vec::new() }),
            StandardChunk::Attr(AttrChunk { term: vec![131, 106] }),
            StandardChunk::CInf(CInfChunk { term: vec![131, 106] }),
            StandardChunk::Abst(AbstChunk { term: Vec::new() }),
            StandardChunk::Unknown(RawChunk { id: *b"Line", data: vec![0, 0, 0, 0, 0, 0, 0, 0] }),
        ],
    };
    assert!(beam.is_encodable());
    let mut bytes = Vec::new();
    beam.to_writer(&mut bytes).unwrap();
    bytes
}

fn collect_id<C: Chunk>(chunks: &Vec<C>) -> Vec<String> {
    chunks.iter().map(|c| std::str::from_utf8(c.id()).unwrap().to_string()).collect()
}
