use beam_file::beam_file::payload_size;
use beam_file::bytes::{read_exact, read_to_end, read_u32, read_u8, write_all, write_u32, write_zeros};
use beam_file::chunk::aux::{check_chunk_id, data_size, id_eq, padding_size, write_chunk, Header};
use beam_file::chunk::blob::decode_blob;
use beam_file::chunk::litt::write_deflated;
use beam_file::chunk::standard::is_standard_id;
use beam_file::chunk::{
    AbstChunk, AtomChunk, AttrChunk, CInfChunk, Chunk, CodeChunk, DbgiChunk, DocsChunk, ExpTChunk,
    FunTChunk, ImpTChunk, LitTChunk, LocTChunk, RawChunk, StandardChunk, StrTChunk,
};
use beam_file::error::IoFailure;
use beam_file::parts::{Atom, Export, Function, Import, Local, Part};
use beam_file::table::{read_parts, read_table, table_is_encodable, write_parts, write_table};
use beam_file::Error;
use std::io::{Read, Write};

const EOF: Error = Error::Io(IoFailure::UnexpectedEof);

fn atoms(names: &[&str]) -> Vec<Atom> {
    names.iter().map(|n| Atom::new(n.to_string())).collect()
}

fn payload<C: Chunk>(chunk: &C) -> Vec<u8> {
    let mut bytes = Vec::new();
    chunk.encode_data(&mut bytes).unwrap();
    bytes
}

fn framed<C: Chunk>(chunk: &C) -> Vec<u8> {
    let mut bytes = Vec::new();
    chunk.encode(&mut bytes).unwrap();
    bytes
}

fn round_trip<C: Chunk + PartialEq + std::fmt::Debug>(chunk: &C) {
    assert!(chunk.is_encodable());
    let bytes = framed(chunk);
    assert_eq!(bytes.len() % 4, 0);
    let mut reader: &[u8] = &bytes;
    let back = C::decode(&mut reader).unwrap();
    assert_eq!(&back, chunk);
    assert!(reader.is_empty());
    let back = C::decode_data(chunk.id(), &payload(chunk)).unwrap();
    assert_eq!(&back, chunk);
}

#[test]
fn padding_size_rounds_up_to_four() {
    assert_eq!(padding_size(0), 0);
    assert_eq!(padding_size(1), 3);
    assert_eq!(padding_size(2), 2);
    assert_eq!(padding_size(3), 1);
    assert_eq!(padding_size(4), 0);
    assert_eq!(padding_size(13), 3);
    assert_eq!(padding_size(14), 2);
    assert_eq!(padding_size(u32::MAX), 1);
    assert_eq!(padding_size(u32::MAX - 3), 0);
    for n in 0..1000u32 {
        assert!(padding_size(n) < 4);
        assert_eq!((n + padding_size(n)) % 4, 0);
    }
}

#[test]
fn big_endian_numbers() {
    let mut reader: &[u8] = &[0x00, 0x00, 0x01, 0x0b, 0x47, 0xd9, 0x3d, 0x66, 0xff];
    assert_eq!(read_u32(&mut reader), Ok(267));
    assert_eq!(read_u32(&mut reader), Ok(1205419366));
    assert_eq!(read_u32(&mut reader), Err(EOF));
    assert_eq!(reader, &[0xff]);
    assert_eq!(read_u8(&mut reader), Ok(0xff));
    assert_eq!(read_u8(&mut reader), Err(EOF));
    let mut writer = vec![1];
    write_u32(&mut writer, 267);
    write_u32(&mut writer, 1205419366);
    write_u32(&mut writer, 0x01020304);
    write_u32(&mut writer, u32::MAX);
    assert_eq!(writer, b"\x01\x00\x00\x01\x0b\x47\xd9\x3d\x66\x01\x02\x03\x04\xff\xff\xff\xff".to_vec());
}

#[test]
fn exact_reads_and_writes() {
    let mut reader: &[u8] = &[1, 2, 3, 4, 5];
    assert_eq!(read_exact(&mut reader, 2), Ok(&[1u8, 2][..]));
    assert_eq!(read_exact(&mut reader, 4), Err(EOF));
    assert_eq!(reader, &[3, 4, 5]);
    assert_eq!(read_exact(&mut reader, 0), Ok(&[][..]));
    assert_eq!(read_to_end(&mut reader), vec![3, 4, 5]);
    assert!(reader.is_empty());
    let mut writer = vec![7];
    write_all(&mut writer, &[8, 9]);
    write_zeros(&mut writer, 3);
    write_all(&mut writer, &[]);
    write_zeros(&mut writer, 0);
    assert_eq!(writer, vec![7, 8, 9, 0, 0, 0]);
}

#[test]
fn chunk_header_reads_and_writes() {
    let header = Header::new(b"Code", 0x0a0b0c0d);
    assert_eq!(header.chunk_id, *b"Code");
    assert_eq!(header.data_size, 0x0a0b0c0d);
    let mut bytes = vec![];
    header.encode(&mut bytes).unwrap();
    assert_eq!(bytes, b"Code\x0a\x0b\x0c\x0d".to_vec());
    bytes.push(1);
    let mut reader: &[u8] = &bytes;
    let back = Header::decode(&mut reader).unwrap();
    assert_eq!(back.chunk_id, *b"Code");
    assert_eq!(back.data_size, 0x0a0b0c0d);
    assert_eq!(reader, &[1]);
    let mut short: &[u8] = b"Code\x00\x00\x00";
    assert_eq!(Header::decode(&mut short).err(), Some(EOF));
    assert_eq!(short.len(), 7);
}

#[test]
fn chunk_identifiers_are_compared() {
    assert_eq!(check_chunk_id(b"Atom", b"Atom"), Ok(()));
    assert_eq!(
        check_chunk_id(b"Atom", b"AtU8"),
        Err(Error::UnexpectedChunk { id: *b"Atom", expected: *b"AtU8" })
    );
    assert_eq!(
        check_chunk_id(b"Code", b"Cod3"),
        Err(Error::UnexpectedChunk { id: *b"Code", expected: *b"Cod3" })
    );
    assert!(id_eq(b"LitT", b"LitT"));
    assert!(!id_eq(b"LitT", b"LocT"));
    assert!(!id_eq(b"xitT", b"LitT"));
    for id in [
        b"Atom", b"AtU8", b"Code", b"StrT", b"ImpT", b"ExpT", b"LitT", b"LocT", b"FunT", b"Attr",
        b"CInf", b"Abst", b"Dbgi", b"Docs",
    ] {
        assert!(is_standard_id(id));
    }
    for id in [b"Line", b"atom", b"Meta", b"Type", b"\0\0\0\0"] {
        assert!(!is_standard_id(id));
    }
}

#[test]
fn a_chunk_is_framed() {
    let mut writer = vec![0xaa];
    assert_eq!(write_chunk(b"Abcd", &[1, 2, 3, 4, 5, 6], &mut writer), Ok(()));
    assert_eq!(writer, b"\xaaAbcd\x00\x00\x00\x06\x01\x02\x03\x04\x05\x06\x00\x00".to_vec());
}

#[test]
fn a_length_beyond_four_bytes_is_too_large() {
    assert_eq!(data_size(0), Ok(0));
    assert_eq!(data_size(13), Ok(13));
    assert_eq!(data_size(u32::MAX as usize), Ok(u32::MAX));
    assert_eq!(data_size(u32::MAX as usize + 1), Err(Error::TooLarge));
    assert_eq!(data_size(usize::MAX), Err(Error::TooLarge));
    assert_eq!(payload_size(0), Ok(4));
    assert_eq!(payload_size(24), Ok(28));
    assert_eq!(payload_size(u32::MAX as usize - 4), Ok(u32::MAX));
    assert_eq!(payload_size(u32::MAX as usize - 3), Err(Error::TooLarge));
    assert_eq!(payload_size(usize::MAX), Err(Error::TooLarge));
}

#[test]
fn atom_chunk_bytes_are_exact() {
    let chunk = AtomChunk { is_unicode: false, atoms: atoms(&["ok", "error"]) };
    assert_eq!(chunk.id(), b"Atom");
    let bytes = framed(&chunk);
    assert_eq!(bytes, b"Atom\x00\x00\x00\x0d\x00\x00\x00\x02\x02ok\x05error\x00\x00\x00".to_vec());
    let mut reader: &[u8] = &bytes;
    let back = AtomChunk::decode(&mut reader).unwrap();
    assert!(reader.is_empty());
    assert_eq!(back.atoms, atoms(&["ok", "error"]));
    assert_eq!(back, chunk);
    // The payload has 13 bytes, and the chunk 8 + 13 + 3.
    assert_eq!(payload(&chunk).len(), 13);
    assert_eq!(bytes.len() - 8 - 13, padding_size(13) as usize);
}

#[test]
fn atom_chunk_keeps_its_identifier() {
    let chunk = AtomChunk { is_unicode: true, atoms: atoms(&["ok", "h\u{e9}llo", "\u{65e5}\u{672c}"]) };
    assert_eq!(chunk.id(), b"AtU8");
    let bytes = framed(&chunk);
    assert_eq!(&bytes[..4], b"AtU8");
    assert_eq!(
        payload(&chunk),
        b"\x00\x00\x00\x03\x02ok\x06h\xc3\xa9llo\x06\xe6\x97\xa5\xe6\x9c\xac".to_vec()
    );
    round_trip(&chunk);
    let back = AtomChunk::decode_data(b"AtU8", &payload(&chunk)).unwrap();
    assert!(back.is_unicode);
    let back = AtomChunk::decode_data(b"Atom", &payload(&chunk)).unwrap();
    assert!(!back.is_unicode);
    assert_eq!(back.id(), b"Atom");
    assert_eq!(back.atoms, chunk.atoms);
    round_trip(&AtomChunk { is_unicode: false, atoms: Vec::new() });
    round_trip(&AtomChunk { is_unicode: true, atoms: atoms(&["", "a", ""]) });
}

#[test]
fn atom_chunk_errors() {
    assert_eq!(
        AtomChunk::decode_data(b"Code", b"\x00\x00\x00\x00"),
        Err(Error::UnexpectedChunk { id: *b"Code", expected: *b"AtU8" })
    );
    assert_eq!(AtomChunk::decode_data(b"Atom", b"\x00\x00\x00"), Err(EOF));
    assert_eq!(AtomChunk::decode_data(b"Atom", b"\x00\x00\x00\x01"), Err(EOF));
    assert_eq!(AtomChunk::decode_data(b"Atom", b"\x00\x00\x00\x01\x03ok"), Err(EOF));
    assert_eq!(AtomChunk::decode_data(b"Atom", b"\x00\x00\x00\x02\x02ok"), Err(EOF));
    assert_eq!(
        AtomChunk::decode_data(b"Atom", b"\x00\x00\x00\x01\x02\xc3\x28"),
        Err(Error::InvalidString)
    );
    assert_eq!(
        AtomChunk::decode_data(b"AtU8", b"\x00\x00\x00\x02\x01a\x01\xff"),
        Err(Error::InvalidString)
    );
    // The first thing that is wrong is reported.
    assert_eq!(
        AtomChunk::decode_data(b"AtU8", b"\x00\x00\x00\x03\x01\xff\x09"),
        Err(Error::InvalidString)
    );
    // What follows the atoms is not looked at.
    let back = AtomChunk::decode_data(b"Atom", b"\x00\x00\x00\x01\x02ok\xff\xff").unwrap();
    assert_eq!(back.atoms, atoms(&["ok"]));
}

#[test]
fn atom_names_are_at_most_255_bytes() {
    let longest = "x".repeat(255);
    let chunk = AtomChunk { is_unicode: true, atoms: atoms(&[&longest]) };
    assert!(chunk.is_encodable());
    round_trip(&chunk);
    assert_eq!(payload(&chunk)[4], 255);
    let too_long = "x".repeat(256);
    let chunk = AtomChunk { is_unicode: true, atoms: atoms(&["ok", &too_long]) };
    assert!(!chunk.is_encodable());
    assert!(!StandardChunk::Atom(chunk).is_encodable());
    // Bytes count, not characters.
    let chunk = AtomChunk { is_unicode: true, atoms: atoms(&[&"\u{e9}".repeat(128)]) };
    assert!(!chunk.is_encodable());
    assert!(Atom::new("\u{e9}".repeat(127)).is_encodable());
}

#[test]
fn code_chunk_round_trip() {
    let chunk = CodeChunk {
        info_size: 16,
        version: 0,
        opcode_max: 153,
        label_count: 7,
        function_count: 3,
        bytecode: vec![1, 16, 153, 16, 2, 18, 34, 0],
    };
    assert_eq!(chunk.id(), b"Code");
    let expected = b"\x00\x00\x00\x10\x00\x00\x00\x00\x00\x00\x00\x99\x00\x00\x00\x07\x00\x00\x00\x03\x01\x10\x99\x10\x02\x12\x22\x00";
    assert_eq!(payload(&chunk), expected.to_vec());
    round_trip(&chunk);
    let empty = CodeChunk {
        info_size: u32::MAX,
        version: 1,
        opcode_max: 2,
        label_count: 3,
        function_count: 4,
        bytecode: Vec::new(),
    };
    round_trip(&empty);
    assert_eq!(CodeChunk::decode_data(b"Code", &expected[..19]), Err(EOF));
    assert_eq!(CodeChunk::decode_data(b"Code", &expected[..20]).unwrap().bytecode, Vec::<u8>::new());
    assert_eq!(
        CodeChunk::decode_data(b"StrT", expected),
        Err(Error::UnexpectedChunk { id: *b"StrT", expected: *b"Code" })
    );
}

#[test]
fn byte_chunks_round_trip() {
    let bytes = vec![131, 108, 0, 0, 0, 1, 104, 2];
    let strt = StrTChunk { strings: b"helloworld".to_vec() };
    assert_eq!(strt.id(), b"StrT");
    assert_eq!(payload(&strt), b"helloworld".to_vec());
    round_trip(&strt);
    round_trip(&StrTChunk { strings: Vec::new() });
    let attr = AttrChunk { term: bytes.clone() };
    assert_eq!(attr.id(), b"Attr");
    assert_eq!(payload(&attr), bytes);
    round_trip(&attr);
    let cinf = CInfChunk { term: bytes.clone() };
    assert_eq!(cinf.id(), b"CInf");
    round_trip(&cinf);
    let abst = AbstChunk { term: bytes.clone() };
    assert_eq!(abst.id(), b"Abst");
    round_trip(&abst);
    let dbgi = DbgiChunk { term: bytes.clone() };
    assert_eq!(dbgi.id(), b"Dbgi");
    round_trip(&dbgi);
    let docs = DocsChunk { term: bytes.clone() };
    assert_eq!(docs.id(), b"Docs");
    round_trip(&docs);
    assert_eq!(
        DocsChunk::decode_data(b"Dbgi", &bytes),
        Err(Error::UnexpectedChunk { id: *b"Dbgi", expected: *b"Docs" })
    );
    assert_eq!(
        StrTChunk::decode_data(b"Attr", &bytes),
        Err(Error::UnexpectedChunk { id: *b"Attr", expected: *b"StrT" })
    );
    assert_eq!(decode_blob(b"Abst", b"Abst", &bytes), Ok(bytes.clone()));
    assert_eq!(
        decode_blob(b"Abst", b"CInf", &bytes),
        Err(Error::UnexpectedChunk { id: *b"Abst", expected: *b"CInf" })
    );
}

#[test]
fn record_tables_round_trip() {
    let impt = ImpTChunk { imports: vec![Import::new(3, 4, 2), Import::new(7, 8, 1)] };
    assert_eq!(impt.id(), b"ImpT");
    assert_eq!(
        payload(&impt),
        b"\x00\x00\x00\x02\x00\x00\x00\x03\x00\x00\x00\x04\x00\x00\x00\x02\x00\x00\x00\x07\x00\x00\x00\x08\x00\x00\x00\x01".to_vec()
    );
    round_trip(&impt);
    round_trip(&ImpTChunk { imports: Vec::new() });
    let expt = ExpTChunk {
        exports: vec![Export { function: 0x01020304, arity: 0x05060708, label: 0x090a0b0c }],
    };
    assert_eq!(expt.id(), b"ExpT");
    assert_eq!(
        payload(&expt),
        b"\x00\x00\x00\x01\x01\x02\x03\x04\x05\x06\x07\x08\x09\x0a\x0b\x0c".to_vec()
    );
    round_trip(&expt);
    let loct = LocTChunk {
        locals: vec![
            Local { function: 1, arity: 2, label: 3 },
            Local { function: u32::MAX, arity: 0, label: 0x80000000 },
        ],
    };
    assert_eq!(loct.id(), b"LocT");
    assert_eq!(
        payload(&loct),
        b"\x00\x00\x00\x02\x00\x00\x00\x01\x00\x00\x00\x02\x00\x00\x00\x03\xff\xff\xff\xff\x00\x00\x00\x00\x80\x00\x00\x00".to_vec()
    );
    round_trip(&loct);
    let funt = FunTChunk {
        functions: vec![Function {
            function: 1,
            arity: 2,
            label: 3,
            index: 4,
            num_free: 5,
            old_uniq: 0x0a0b0c0d,
        }],
    };
    assert_eq!(funt.id(), b"FunT");
    assert_eq!(
        payload(&funt),
        b"\x00\x00\x00\x01\x00\x00\x00\x01\x00\x00\x00\x02\x00\x00\x00\x03\x00\x00\x00\x04\x00\x00\x00\x05\x0a\x0b\x0c\x0d".to_vec()
    );
    round_trip(&funt);
}

#[test]
fn record_tables_errors() {
    let one = b"\x00\x00\x00\x01\x00\x00\x00\x03\x00\x00\x00\x04\x00\x00\x00\x02";
    assert_eq!(ImpTChunk::decode_data(b"ImpT", &one[..15]), Err(EOF));
    assert_eq!(ExpTChunk::decode_data(b"ExpT", &one[..3]), Err(EOF));
    assert_eq!(LocTChunk::decode_data(b"LocT", b"\xff\xff\xff\xff"), Err(EOF));
    assert_eq!(FunTChunk::decode_data(b"FunT", one), Err(EOF));
    assert_eq!(
        ImpTChunk::decode_data(b"ExpT", one),
        Err(Error::UnexpectedChunk { id: *b"ExpT", expected: *b"ImpT" })
    );
    assert_eq!(
        ExpTChunk::decode_data(b"LocT", one),
        Err(Error::UnexpectedChunk { id: *b"LocT", expected: *b"ExpT" })
    );
    assert_eq!(
        LocTChunk::decode_data(b"FunT", one),
        Err(Error::UnexpectedChunk { id: *b"FunT", expected: *b"LocT" })
    );
    assert_eq!(
        FunTChunk::decode_data(b"ImpT", one),
        Err(Error::UnexpectedChunk { id: *b"ImpT", expected: *b"FunT" })
    );
    // What follows the records is not looked at.
    let mut more = one.to_vec();
    more.extend_from_slice(&[9, 9, 9]);
    assert_eq!(ExpTChunk::decode_data(b"ExpT", &more).unwrap().exports, vec![Export { function: 3, arity: 4, label: 2 }]);
}

#[test]
fn parts_and_tables() {
    let mut writer = vec![1];
    let imports = vec![Import::new(1, 2, 3), Import::new(4, 5, 6)];
    write_parts(&imports, &mut writer);
    assert_eq!(writer.len(), 25);
    assert_eq!(read_parts::<Import>(&writer[1..], 2), Ok(vec![Import::new(1, 2, 3), Import::new(4, 5, 6)]));
    assert_eq!(read_parts::<Import>(&writer[1..], 1), Ok(vec![Import::new(1, 2, 3)]));
    assert_eq!(read_parts::<Import>(&writer[1..], 0), Ok(vec![]));
    assert_eq!(read_parts::<Import>(&writer[1..], 3), Err(EOF));
    let mut table = Vec::new();
    let names = atoms(&["a", "bc"]);
    assert!(table_is_encodable(&names));
    write_table(&names, &mut table);
    assert_eq!(table, b"\x00\x00\x00\x02\x01a\x02bc".to_vec());
    assert_eq!(read_table::<Atom>(&table), Ok(atoms(&["a", "bc"])));
    assert_eq!(Atom::read(b"\x02hi\x01"), Ok((Atom::new("hi".to_string()), 3)));
    assert_eq!(Atom::read(b"\x00"), Ok((Atom::new(String::new()), 1)));
    assert_eq!(Atom::read(b"\x01"), Err(EOF));
    assert_eq!(Atom::read(b""), Err(EOF));
    assert_eq!(Atom::read(b"\x02\xc3\x28tail"), Err(Error::InvalidString));
    assert_eq!(Vec::<u8>::read(b"\x00\x00\x00\x02\x07\x08\x09"), Ok((vec![7, 8], 6)));
    assert_eq!(Vec::<u8>::read(b"\x00\x00\x00\x00"), Ok((vec![], 4)));
    assert_eq!(Vec::<u8>::read(b"\x00\x00\x00\x0b\x07\x08\x09"), Err(EOF));
    assert_eq!(Import::read(&[0, 0, 0, 1, 0, 0, 0, 2, 0, 0, 0, 3, 9]), Ok((Import::new(1, 2, 3), 12)));
    assert_eq!(Import::read(&[0; 11]), Err(EOF));
    assert_eq!(Export::read(&[0, 0, 0, 1, 0, 0, 0, 2, 0, 0, 0, 3]), Ok((Export { function: 1, arity: 2, label: 3 }, 12)));
    assert_eq!(Local::read(&[0, 0, 0, 1, 0, 0, 0, 2, 0, 0, 0, 3]), Ok((Local { function: 1, arity: 2, label: 3 }, 12)));
    assert_eq!(Function::read(&[0; 23]), Err(EOF));
    assert_eq!(
        Function::read(&[0; 24]),
        Ok((Function { function: 0, arity: 0, label: 0, index: 0, num_free: 0, old_uniq: 0 }, 24))
    );
}

fn adler32(data: &[u8]) -> u32 {
    let (mut a, mut b) = (1u32, 0u32);
    for &x in data {
        a = (a + x as u32) % 65521;
        b = (b + a) % 65521;
    }
    (b << 16) | a
}

/// A zlib stream of one stored block.
fn stored(data: &[u8]) -> Vec<u8> {
    let mut stream = vec![0x78, 0x01, 0x01];
    stream.extend_from_slice(&(data.len() as u16).to_le_bytes());
    stream.extend_from_slice(&(!(data.len() as u16)).to_le_bytes());
    stream.extend_from_slice(data);
    stream.extend_from_slice(&adler32(data).to_be_bytes());
    stream
}

#[test]
fn literals_round_trip() {
    let chunk = LitTChunk {
        literals: vec![vec![131, 107, 0, 2, 104, 105], vec![], vec![131, 106], vec![0; 300]],
    };
    assert_eq!(chunk.id(), b"LitT");
    assert!(chunk.is_encodable());
    round_trip(&chunk);
    round_trip(&LitTChunk { literals: Vec::new() });
    let bytes = payload(&chunk);
    // The size before compression: 4 + (4 + 6) + (4 + 0) + (4 + 2) + (4 + 300).
    assert_eq!(&bytes[..4], &[0, 0, 1, 72]);
    // What follows is a zlib stream of the table, as the compressor writes it.
    let mut table = Vec::new();
    write_table(&chunk.literals, &mut table);
    assert_eq!(table.len(), 328);
    let mut encoder = libflate::zlib::Encoder::new(Vec::new()).unwrap();
    encoder.write_all(&table).unwrap();
    let stream = encoder.finish().into_result().unwrap();
    assert_eq!(&bytes[4..], &stream[..]);
    assert_ne!(&bytes[4..], &table[..]);
    let mut decoder = libflate::zlib::Decoder::new(&bytes[4..]).unwrap();
    let mut back = Vec::new();
    decoder.read_to_end(&mut back).unwrap();
    assert_eq!(back, table);
}

#[test]
fn literals_are_read_whatever_size_is_declared() {
    let chunk = LitTChunk { literals: vec![vec![131, 106], vec![1, 2, 3]] };
    let mut bytes = payload(&chunk);
    assert_eq!(&bytes[..4], &[0, 0, 0, 17]);
    for size in [[0, 0, 0, 0], [0xff, 0xff, 0xff, 0xff], [0, 0, 0, 16], [0x12, 0x34, 0x56, 0x78]] {
        bytes[..4].copy_from_slice(&size);
        assert_eq!(LitTChunk::decode_data(b"LitT", &bytes).as_ref(), Ok(&chunk));
    }
}

#[test]
fn literals_from_a_stream_written_by_hand() {
    let table = b"\x00\x00\x00\x02\x00\x00\x00\x02\x83\x6a\x00\x00\x00\x00";
    let mut bytes = vec![0, 0, 0, 14];
    bytes.extend_from_slice(&stored(table));
    let back = LitTChunk::decode_data(b"LitT", &bytes).unwrap();
    assert_eq!(back.literals, vec![vec![131, 106], vec![]]);
    // The stream that the library's documentation gives for "Hello World!":
    // it is read, and holds no table.
    let hello = [120, 156, 243, 72, 205, 201, 201, 87, 8, 207, 47, 202, 73, 81, 4, 0, 28, 73, 4, 62];
    let mut bytes = vec![0, 0, 0, 12];
    bytes.extend_from_slice(&hello);
    assert_eq!(LitTChunk::decode_data(b"LitT", &bytes), Err(EOF));
}

#[test]
fn literals_errors() {
    assert_eq!(
        LitTChunk::decode_data(b"LocT", b"\x00\x00\x00\x00"),
        Err(Error::UnexpectedChunk { id: *b"LocT", expected: *b"LitT" })
    );
    assert_eq!(LitTChunk::decode_data(b"LitT", b"\x00\x00\x00"), Err(EOF));
    // No stream at all, and no zlib stream.
    assert_eq!(LitTChunk::decode_data(b"LitT", b"\x00\x00\x00\x00"), Err(Error::Compression));
    assert_eq!(
        LitTChunk::decode_data(b"LitT", b"\x00\x00\x00\x04\x00\x00\x00\x00"),
        Err(Error::Compression)
    );
    // A stream that is cut short, and one with a wrong checksum.
    let table = b"\x00\x00\x00\x01\x00\x00\x00\x02\x83\x6a";
    let mut bytes = vec![0, 0, 0, 10];
    bytes.extend_from_slice(&stored(table));
    assert!(LitTChunk::decode_data(b"LitT", &bytes).is_ok());
    assert_eq!(LitTChunk::decode_data(b"LitT", &bytes[..bytes.len() - 1]), Err(Error::Compression));
    let last = bytes.len() - 1;
    bytes[last] ^= 1;
    assert_eq!(LitTChunk::decode_data(b"LitT", &bytes), Err(Error::Compression));
    // A stream that holds less than its table announces.
    let mut bytes = vec![0, 0, 0, 0];
    bytes.extend_from_slice(&stored(b"\x00\x00\x00\x01\x00\x00\x00\x03\x83\x6a"));
    assert_eq!(LitTChunk::decode_data(b"LitT", &bytes), Err(EOF));
    let mut bytes = vec![0, 0, 0, 0];
    bytes.extend_from_slice(&stored(b"\x00\x00"));
    assert_eq!(LitTChunk::decode_data(b"LitT", &bytes), Err(EOF));
}

#[test]
fn standard_chunk_goes_by_the_identifier() {
    let data = b"\x00\x00\x00\x00";
    assert!(matches!(StandardChunk::decode_data(b"Atom", data), Ok(StandardChunk::Atom(_))));
    assert!(matches!(StandardChunk::decode_data(b"AtU8", data), Ok(StandardChunk::Atom(_))));
    assert!(matches!(StandardChunk::decode_data(b"StrT", data), Ok(StandardChunk::StrT(_))));
    assert!(matches!(StandardChunk::decode_data(b"ImpT", data), Ok(StandardChunk::ImpT(_))));
    assert!(matches!(StandardChunk::decode_data(b"ExpT", data), Ok(StandardChunk::ExpT(_))));
    assert!(matches!(StandardChunk::decode_data(b"LocT", data), Ok(StandardChunk::LocT(_))));
    assert!(matches!(StandardChunk::decode_data(b"FunT", data), Ok(StandardChunk::FunT(_))));
    assert!(matches!(StandardChunk::decode_data(b"Attr", data), Ok(StandardChunk::Attr(_))));
    assert!(matches!(StandardChunk::decode_data(b"CInf", data), Ok(StandardChunk::CInf(_))));
    assert!(matches!(StandardChunk::decode_data(b"Abst", data), Ok(StandardChunk::Abst(_))));
    assert!(matches!(StandardChunk::decode_data(b"Dbgi", data), Ok(StandardChunk::Dbgi(_))));
    assert!(matches!(StandardChunk::decode_data(b"Docs", data), Ok(StandardChunk::Docs(_))));
    assert!(matches!(StandardChunk::decode_data(b"Line", data), Ok(StandardChunk::Unknown(_))));
    assert!(matches!(StandardChunk::decode_data(b"atom", data), Ok(StandardChunk::Unknown(_))));
    assert_eq!(StandardChunk::decode_data(b"Code", data), Err(EOF));
    assert_eq!(StandardChunk::decode_data(b"LitT", data), Err(Error::Compression));
    let code = [0u8; 20];
    assert!(matches!(StandardChunk::decode_data(b"Code", &code), Ok(StandardChunk::Code(_))));
    match StandardChunk::decode_data(b"AtU8", data) {
        Ok(StandardChunk::Atom(c)) => assert!(c.is_unicode),
        _ => unreachable!(),
    }
    match StandardChunk::decode_data(b"Wxyz", &[1, 2]) {
        Ok(StandardChunk::Unknown(c)) => assert_eq!(c, RawChunk { id: *b"Wxyz", data: vec![1, 2] }),
        _ => unreachable!(),
    }
}

#[test]
fn standard_chunks_round_trip() {
    let chunks = vec![
        StandardChunk::Atom(AtomChunk { is_unicode: true, atoms: atoms(&["m", "f"]) }),
        StandardChunk::Atom(AtomChunk { is_unicode: false, atoms: atoms(&["m", "f"]) }),
        StandardChunk::Code(CodeChunk {
            info_size: 16,
            version: 0,
            opcode_max: 169,
            label_count: 1,
            function_count: 1,
            bytecode: vec![3],
        }),
        StandardChunk::StrT(StrTChunk { strings: vec![b'a'] }),
        StandardChunk::ImpT(ImpTChunk { imports: vec![Import::new(1, 2, 0)] }),
        StandardChunk::ExpT(ExpTChunk { exports: vec![Export { function: 2, arity: 0, label: 2 }] }),
        StandardChunk::LitT(LitTChunk { literals: vec![vec![131, 100, 0, 2, 111, 107]] }),
        StandardChunk::LocT(LocTChunk { locals: vec![Local { function: 2, arity: 1, label: 4 }] }),
        StandardChunk::FunT(FunTChunk {
            functions: vec![Function {
                function: 2,
                arity: 1,
                label: 4,
                index: 0,
                num_free: 1,
                old_uniq: 77,
            }],
        }),
        StandardChunk::Attr(AttrChunk { term: vec![131, 106] }),
        StandardChunk::CInf(CInfChunk { term: vec![131, 106] }),
        StandardChunk::Abst(AbstChunk { term: vec![] }),
        StandardChunk::Dbgi(DbgiChunk { term: vec![131, 106] }),
        StandardChunk::Docs(DocsChunk { term: vec![131, 106] }),
        StandardChunk::Unknown(RawChunk { id: *b"Line", data: vec![0, 0, 0, 0] }),
    ];
    let ids: Vec<&[u8; 4]> = chunks.iter().map(|c| c.id()).collect();
    assert_eq!(
        ids,
        vec![
            b"AtU8", b"Atom", b"Code", b"StrT", b"ImpT", b"ExpT", b"LitT", b"LocT", b"FunT",
            b"Attr", b"CInf", b"Abst", b"Dbgi", b"Docs", b"Line"
        ]
    );
    for chunk in &chunks {
        round_trip(chunk);
    }
    let beam = beam_file::StandardBeamFile { chunks: chunks };
    assert!(beam.is_encodable());
    let mut bytes = Vec::new();
    beam.to_writer(&mut bytes).unwrap();
    let back = beam_file::StandardBeamFile::from_reader(&bytes).unwrap();
    assert_eq!(back.chunks, beam.chunks);
    let raw = beam_file::RawBeamFile::from_reader(&bytes).unwrap();
    let mut again = Vec::new();
    raw.to_writer(&mut again).unwrap();
    assert_eq!(again, bytes);
}

#[test]
fn a_chunk_that_is_whole_is_taken_before_it_is_decoded() {
    // The payload is no table of atoms: the chunk is taken all the same.
    let bytes = b"Atom\x00\x00\x00\x06\x00\x00\x00\x01\x01\xff\x00\x00Line\x00\x00\x00\x01\x07\x00\x00\x00rest".to_vec();
    let mut reader: &[u8] = &bytes;
    assert_eq!(AtomChunk::decode(&mut reader), Err(Error::InvalidString));
    assert_eq!(reader.len(), bytes.len() - 16);
    assert_eq!(AtomChunk::decode(&mut reader), Err(Error::UnexpectedChunk { id: *b"Line", expected: *b"AtU8" }));
    assert_eq!(reader, b"rest");
    let mut reader: &[u8] = &bytes;
    assert_eq!(StandardChunk::decode(&mut reader), Err(Error::InvalidString));
    assert_eq!(
        StandardChunk::decode(&mut reader),
        Ok(StandardChunk::Unknown(RawChunk { id: *b"Line", data: vec![7] }))
    );
    assert_eq!(reader, b"rest");
    let mut reader: &[u8] = &bytes;
    assert_eq!(
        RawChunk::decode(&mut reader),
        Ok(RawChunk { id: *b"Atom", data: vec![0, 0, 0, 1, 1, 0xff] })
    );
    assert_eq!(reader.len(), bytes.len() - 16);
}

#[test]
fn a_chunk_that_is_cut_short_is_not_taken() {
    // The header is cut short, the payload is, the padding is.
    for bytes in [&b"Atom\x00\x00\x00"[..], &b"Atom\x00\x00\x00\x06\x00\x00\x00\x01\x01"[..], &b"Atom\x00\x00\x00\x06\x00\x00\x00\x01\x01\xff\x00"[..]] {
        let mut reader: &[u8] = bytes;
        assert_eq!(AtomChunk::decode(&mut reader), Err(EOF));
        assert_eq!(reader, bytes);
        assert_eq!(RawChunk::decode(&mut reader), Err(EOF));
        assert_eq!(reader, bytes);
    }
}

#[test]
fn constructors_keep_their_arguments() {
    assert_eq!(Atom::new("erlang".to_string()), Atom { name: "erlang".to_string() });
    assert_eq!(Import::new(1, 2, 3), Import { module: 1, function: 2, arity: 3 });
}

#[test]
fn literals_from_what_the_decompressor_gave() {
    let table = b"\x00\x00\x00\x02\x00\x00\x00\x01\x07\x00\x00\x00\x02\x08\x09tail".to_vec();
    assert_eq!(
        LitTChunk::from_inflated(Ok(table)),
        Ok(LitTChunk { literals: vec![vec![7], vec![8, 9]] })
    );
    assert_eq!(LitTChunk::from_inflated(Ok(vec![0, 0, 0])), Err(EOF));
    assert_eq!(LitTChunk::from_inflated(Ok(vec![0, 0, 0, 1, 0, 0, 0, 1])), Err(EOF));
    let failed = std::io::Error::from(std::io::ErrorKind::InvalidData);
    assert_eq!(LitTChunk::from_inflated(Err(failed)), Err(Error::Compression));
}

#[test]
fn payload_from_what_the_compressor_gave() {
    let mut writer = vec![1];
    assert_eq!(write_deflated(0x0102, Ok(vec![0x78, 0x9c, 3]), &mut writer), Ok(()));
    assert_eq!(writer, vec![1, 0, 0, 1, 2, 0x78, 0x9c, 3]);
    let failed = std::io::Error::from(std::io::ErrorKind::Other);
    assert_eq!(
        write_deflated(0x0102, Err(failed), &mut writer),
        Err(Error::Io(IoFailure::Other))
    );
    assert_eq!(writer, vec![1, 0, 0, 1, 2, 0x78, 0x9c, 3]);
}
