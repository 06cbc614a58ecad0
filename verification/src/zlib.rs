//! The zlib format, as `libflate` writes and reads it.
//!
//! What the compressor makes of given bytes takes pages to say, so it has a
//! name here and no definition; likewise what the decompressor makes of given
//! bytes. The two functions at the end make the calls, and what they state is
//! believed, not proved.
use std::io::{Read, Write};
use vstd::prelude::*;

verus! {

/// The error of a reader or a writer of the standard library, and of the
/// code that reads from or writes to one.
#[verifier::external_type_specification]
#[verifier::external_body]
pub struct ExIoError(std::io::Error);

/// The zlib stream that `libflate::zlib::Encoder`, made by `Encoder::new`,
/// writes for `data`; `None` where it reports an error.
pub uninterp spec fn spec_deflated(data: Seq<u8>) -> Option<Seq<u8>>;

/// The bytes that `libflate::zlib::Decoder` reads out of the zlib stream at
/// the start of `data`, up to the end of the stream; `None` where it reports
/// an error.
pub uninterp spec fn spec_inflated(data: Seq<u8>) -> Option<Seq<u8>>;

/// Whether the decompressor gives back `data` from what the compressor makes
/// of it.
pub open spec fn spec_zlib_round_trips(data: Seq<u8>) -> bool {
    spec_deflated(data) matches Some(stream) && spec_inflated(stream) == Some(data)
}

/// `libflate::zlib::Encoder`: `new` on an empty vector, `write_all` of
/// `data`, `finish`.
///
/// Two things are claimed of it. What it writes depends on `data` alone: the
/// encoder is made with its default options, and the hash map that it keeps
/// of earlier positions is only looked up, never walked. And what it writes
/// is a zlib stream of `data`, which `libflate::zlib::Decoder` reads back as
/// `data`: the documentation of `libflate::zlib` shows the two as each
/// other's inverse.
#[verifier::external_body]
pub(crate) fn deflate(data: &[u8]) -> (r: Result<Vec<u8>, std::io::Error>)
    ensures
        match r {
            Ok(stream) => spec_deflated(data@) == Some(stream@) && spec_inflated(stream@) == Some(
                data@,
            ),
            Err(_) => spec_deflated(data@) is None,
        },
{
    let mut encoder = libflate::zlib::Encoder::new(Vec::new())?;
    encoder.write_all(data)?;
    encoder.finish().into_result()
}

/// `libflate::zlib::Decoder`: `new` on `data`, `read_to_end`.
///
/// It is claimed that what it reads depends on `data` alone. It reads the
/// header of the stream, the compressed blocks up to the last one and the
/// checksum behind them, and reports an error where one of them is missing
/// or wrong; what follows the checksum in `data` it does not read.
#[verifier::external_body]
pub(crate) fn inflate(data: &[u8]) -> (r: Result<Vec<u8>, std::io::Error>)
    ensures
        match r {
            Ok(bytes) => spec_inflated(data@) == Some(bytes@),
            Err(_) => spec_inflated(data@) is None,
        },
{
    let mut decoder = libflate::zlib::Decoder::new(data)?;
    let mut bytes = Vec::new();
    decoder.read_to_end(&mut bytes)?;
    Ok(bytes)
}

} // verus!
