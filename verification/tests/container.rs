use beam_file::beam_file::Header;
use beam_file::chunk::{Chunk, RawChunk, StandardChunk};
use beam_file::error::IoFailure;
use beam_file::Error;
use beam_file::{RawBeamFile, StandardBeamFile};

fn raw(id: &[u8; 4], data: &[u8]) -> RawChunk {
    RawChunk { id: *id, data: data.to_vec() }
}

fn encode(beam: &RawBeamFile) -> Vec<u8> {
    let mut bytes = Vec::new();
    beam.to_writer(&mut bytes).unwrap();
    bytes
}

#[test]
fn empty_container_is_twelve_bytes() {
    let beam = RawBeamFile { chunks: Vec::new() };
    let bytes = encode(&beam);
    assert_eq!(bytes, b"FOR1\x00\x00\x00\x04BEAM".to_vec());
    let back = RawBeamFile::from_reader(&bytes).unwrap();
    assert_eq!(back.chunks.len(), 0);
    let back = StandardBeamFile::from_reader(&bytes).unwrap();
    assert_eq!(back.chunks.len(), 0);
}

#[test]
fn container_bytes_are_exact() {
    let beam = RawBeamFile { chunks: vec![raw(b"Line", &[1, 2, 3, 4, 5]), raw(b"XyZw", &[])] };
    let bytes = encode(&beam);
    let mut expected = b"FOR1\x00\x00\x00\x1cBEAM".to_vec();
    expected.extend_from_slice(b"Line\x00\x00\x00\x05\x01\x02\x03\x04\x05\x00\x00\x00");
    expected.extend_from_slice(b"XyZw\x00\x00\x00\x00");
    assert_eq!(bytes, expected);
}

#[test]
fn to_writer_appends() {
    let beam = RawBeamFile { chunks: Vec::new() };
    let mut bytes = vec![9, 9];
    beam.to_writer(&mut bytes).unwrap();
    assert_eq!(bytes, b"\x09\x09FOR1\x00\x00\x00\x04BEAM".to_vec());
}

#[test]
fn raw_round_trip_with_any_identifier() {
    let chunks = vec![
        raw(b"Atom", &[0xff, 0xfe, 0xfd]),
        raw(b"LitT", &[]),
        raw(b"Zzzz", &[0; 7]),
        raw(&[0, 0, 0, 0], &[1]),
        raw(b"Atom", &[0xff, 0xfe, 0xfd]),
        raw(b"Code", &(0..=255).collect::<Vec<u8>>()),
    ];
    let beam = RawBeamFile { chunks: chunks };
    let bytes = encode(&beam);
    let back = RawBeamFile::from_reader(&bytes).unwrap();
    assert_eq!(back.chunks, beam.chunks);
}

#[test]
fn unknown_chunks_round_trip_in_a_standard_file() {
    let beam = StandardBeamFile {
        chunks: vec![
            StandardChunk::Unknown(raw(b"Line", &[1, 2, 3])),
            StandardChunk::Unknown(raw(b"Meta", &[])),
            StandardChunk::Unknown(raw(b"Line", &[4, 5, 6, 7])),
        ],
    };
    let mut bytes = Vec::new();
    beam.to_writer(&mut bytes).unwrap();
    let back = StandardBeamFile::from_reader(&bytes).unwrap();
    assert_eq!(back.chunks, beam.chunks);
}

#[test]
fn each_chunk_starts_at_a_multiple_of_four() {
    let mut chunks = Vec::new();
    for n in 0..9u8 {
        chunks.push(raw(&[b'C', b'h', b'k', b'0' + n], &vec![n; n as usize]));
    }
    let beam = RawBeamFile { chunks: chunks };
    let bytes = encode(&beam);
    let body = &bytes[12..];
    let mut offset = 0;
    for n in 0..9u8 {
        assert_eq!(offset % 4, 0);
        assert_eq!(&body[offset..offset + 4], &[b'C', b'h', b'k', b'0' + n]);
        let len = n as usize;
        assert_eq!(&body[offset + 4..offset + 8], &[0, 0, 0, n]);
        offset += 8 + len + (4 - len % 4) % 4;
    }
    assert_eq!(offset, body.len());
}

#[test]
fn chunk_length_beyond_the_end_is_truncation() {
    let bytes = b"FOR1\x00\x00\x00\x10BEAMLine\x00\x00\x00\x05\x01\x02\x03\x04".to_vec();
    let r = RawBeamFile::from_reader(&bytes);
    assert_eq!(r.err(), Some(Error::Io(IoFailure::UnexpectedEof)));
    let r = StandardBeamFile::from_reader(&bytes);
    assert_eq!(r.err(), Some(Error::Io(IoFailure::UnexpectedEof)));
}

#[test]
fn missing_padding_is_truncation() {
    let bytes = b"FOR1\x00\x00\x00\x11BEAMLine\x00\x00\x00\x05\x01\x02\x03\x04\x05".to_vec();
    let r = RawBeamFile::from_reader(&bytes);
    assert_eq!(r.err(), Some(Error::Io(IoFailure::UnexpectedEof)));
}

#[test]
fn a_header_cut_short_is_truncation() {
    let bytes = b"FOR1\x00\x00\x00\x0bBEAMLine\x00\x00\x00".to_vec();
    let r = RawBeamFile::from_reader(&bytes);
    assert_eq!(r.err(), Some(Error::Io(IoFailure::UnexpectedEof)));
}

#[test]
fn a_file_shorter_than_it_says_is_truncation() {
    let bytes = b"FOR1\x00\x00\x00\x10BEAMLine\x00\x00\x00\x00".to_vec();
    let r = RawBeamFile::from_reader(&bytes);
    assert_eq!(r.err(), Some(Error::Io(IoFailure::UnexpectedEof)));
    for n in 0..4 {
        let r = RawBeamFile::from_reader(&b"FOR1"[..n]);
        assert_eq!(r.err(), Some(Error::Io(IoFailure::UnexpectedEof)));
    }
    for n in 4..12 {
        let r = RawBeamFile::from_reader(&b"FOR1\x00\x00\x00\x04BEAM"[..n]);
        assert_eq!(r.err(), Some(Error::Io(IoFailure::UnexpectedEof)));
    }
}

#[test]
fn a_size_below_four_is_truncation() {
    for n in 0..4u8 {
        let mut bytes = b"FOR1\x00\x00\x00".to_vec();
        bytes.push(n);
        bytes.extend_from_slice(b"BEAM");
        let r = RawBeamFile::from_reader(&bytes);
        assert_eq!(r.err(), Some(Error::Io(IoFailure::UnexpectedEof)));
    }
}

#[test]
fn what_follows_the_file_is_not_read() {
    let bytes = b"FOR1\x00\x00\x00\x0cBEAMLine\x00\x00\x00\x00garbage".to_vec();
    let back = RawBeamFile::from_reader(&bytes).unwrap();
    assert_eq!(back.chunks, vec![raw(b"Line", &[])]);
}

#[test]
fn wrong_magic_number_comes_first() {
    let bytes = b"FOR2\x00\x00\x00\x10XXXXLine\xff\xff\xff\xff".to_vec();
    let r = RawBeamFile::from_reader(&bytes);
    assert_eq!(r.err(), Some(Error::UnexpectedMagicNumber { magic_number: *b"FOR2" }));
    let r = RawBeamFile::from_reader(b"RIFF");
    assert_eq!(r.err(), Some(Error::UnexpectedMagicNumber { magic_number: *b"RIFF" }));
}

#[test]
fn wrong_form_type_comes_before_the_chunks() {
    let bytes = b"FOR1\x00\x00\x00\x10AIFFLine\xff\xff\xff\xff".to_vec();
    let r = StandardBeamFile::from_reader(&bytes);
    assert_eq!(r.err(), Some(Error::UnexpectedFormType { form_type: *b"AIFF" }));
    let bytes = b"FOR1\xff\xff\xff\xffbeam".to_vec();
    let r = StandardBeamFile::from_reader(&bytes);
    assert_eq!(r.err(), Some(Error::UnexpectedFormType { form_type: *b"beam" }));
}

#[test]
fn the_first_error_of_the_chunks_is_reported() {
    // An atom table with an invalid name, then a chunk that is cut short.
    let mut bytes = b"FOR1\x00\x00\x00\x1cBEAM".to_vec();
    bytes.extend_from_slice(b"Atom\x00\x00\x00\x06\x00\x00\x00\x01\x01\xff\x00\x00");
    bytes.extend_from_slice(b"Line\x00\x00\x00\x09");
    let r = StandardBeamFile::from_reader(&bytes);
    assert_eq!(r.err(), Some(Error::InvalidString));
    let r = RawBeamFile::from_reader(&bytes);
    assert_eq!(r.err(), Some(Error::Io(IoFailure::UnexpectedEof)));
}

#[test]
fn container_header_reads_and_writes() {
    let header = Header::new(0x01020304);
    assert_eq!(header.magic_number, *b"FOR1");
    assert_eq!(header.type_id, *b"BEAM");
    let mut bytes = Vec::new();
    header.to_writer(&mut bytes).unwrap();
    assert_eq!(bytes, b"FOR1\x01\x02\x03\x04BEAM".to_vec());
    bytes.push(7);
    let mut reader: &[u8] = &bytes;
    let back = Header::from_reader(&mut reader).unwrap();
    assert_eq!(back.payload_size, 0x01020304);
    assert_eq!(reader, &[7]);
}

#[test]
fn container_header_takes_what_it_has_read() {
    // A wrong magic number is judged when its four bytes are read.
    let mut reader: &[u8] = b"FOR2\x00\x00\x00\x04BEAMrest";
    assert_eq!(
        Header::from_reader(&mut reader).err(),
        Some(Error::UnexpectedMagicNumber { magic_number: *b"FOR2" })
    );
    assert_eq!(reader, b"\x00\x00\x00\x04BEAMrest");
    // A wrong form type is judged when all twelve bytes are read.
    let mut reader: &[u8] = b"FOR1\x00\x00\x00\x04AIFFrest";
    assert_eq!(
        Header::from_reader(&mut reader).err(),
        Some(Error::UnexpectedFormType { form_type: *b"AIFF" })
    );
    assert_eq!(reader, b"rest");
    // A header that is cut short is not taken.
    for n in [0, 3, 4, 8, 11] {
        let bytes = &b"FOR1\x00\x00\x00\x04BEAM"[..n];
        let mut reader: &[u8] = bytes;
        assert_eq!(Header::from_reader(&mut reader).err(), Some(Error::Io(IoFailure::UnexpectedEof)));
        assert_eq!(reader, bytes);
    }
}

#[test]
fn duplicate_identifiers_are_kept_in_order() {
    let beam = RawBeamFile {
        chunks: vec![raw(b"Same", &[1]), raw(b"Same", &[2]), raw(b"Same", &[1])],
    };
    let back = RawBeamFile::from_reader(&encode(&beam)).unwrap();
    assert_eq!(back.chunks, beam.chunks);
    let ids: Vec<&[u8; 4]> = back.chunks.iter().map(|c| c.id()).collect();
    assert_eq!(ids, vec![b"Same", b"Same", b"Same"]);
}

#[test]
fn chunks_are_found_by_position_and_by_identifier() {
    let beam = RawBeamFile {
        chunks: vec![raw(b"Atom", &[1]), raw(b"Code", &[2]), raw(b"Atom", &[3])],
    };
    assert_eq!(beam.get(0), Some(&raw(b"Atom", &[1])));
    assert_eq!(beam.get(2), Some(&raw(b"Atom", &[3])));
    assert_eq!(beam.get(3), None);
    assert_eq!(beam.find(b"Atom"), Some(&raw(b"Atom", &[1])));
    assert_eq!(beam.find(b"Code"), Some(&raw(b"Code", &[2])));
    assert_eq!(beam.find(b"StrT"), None);
    let empty = RawBeamFile { chunks: Vec::new() };
    assert_eq!(empty.get(0), None);
    assert_eq!(empty.find(b"Atom"), None);
}

#[test]
fn padding_is_skipped_and_not_looked_at() {
    let bytes = b"FOR1\x00\x00\x00\x1cBEAMLine\x00\x00\x00\x01\x07\xff\xfe\xfdCode\x00\x00\x00\x02\x08\x09\x01\x02".to_vec();
    let back = RawBeamFile::from_reader(&bytes).unwrap();
    assert_eq!(back.chunks, vec![raw(b"Line", &[7]), raw(b"Code", &[8, 9])]);
    // Written again, the padding is zero.
    let again = encode(&back);
    assert_eq!(
        again,
        b"FOR1\x00\x00\x00\x1cBEAMLine\x00\x00\x00\x01\x07\x00\x00\x00Code\x00\x00\x00\x02\x08\x09\x00\x00".to_vec()
    );
}

#[test]
fn chunks_are_read_one_after_the_other() {
    let bytes = b"Line\x00\x00\x00\x01\x07\x00\x00\x00Code\x00\x00\x00\x04\x08\x09\x0a\x0bEnd".to_vec();
    let mut reader: &[u8] = &bytes;
    assert_eq!(RawChunk::decode(&mut reader), Ok(raw(b"Line", &[7])));
    assert_eq!(reader.len(), 15);
    assert_eq!(RawChunk::decode(&mut reader), Ok(raw(b"Code", &[8, 9, 10, 11])));
    assert_eq!(reader, b"End");
    assert_eq!(RawChunk::decode(&mut reader), Err(Error::Io(IoFailure::UnexpectedEof)));
    assert_eq!(reader, b"End");
}
