//! Big-endian integers, and exact reads and writes on in-memory bytes.
//!
//! A reader is a byte slice that shrinks from the front as it is read, a
//! writer is a vector that grows at the back.
use crate::error::{spec_eof, Error, IoFailure};
use byteorder::{BigEndian, ByteOrder};
use vstd::prelude::*;
use vstd::slice::{slice_subrange, slice_to_vec};

verus! {

/// The four bytes that hold `n`, the most significant first.
pub open spec fn spec_u32_to_be(n: u32) -> Seq<u8> {
    seq![
        (n / 0x100_0000) as u8,
        (n / 0x1_0000 % 0x100) as u8,
        (n / 0x100 % 0x100) as u8,
        (n % 0x100) as u8,
    ]
}

/// The number that the first four bytes of `b` hold, the most significant
/// first.
pub open spec fn spec_u32_from_be(b: Seq<u8>) -> u32
    recommends
        b.len() >= 4,
{
    (b[0] * 0x100_0000 + b[1] * 0x1_0000 + b[2] * 0x100 + b[3]) as u32
}

/// `n` zero bytes.
pub open spec fn spec_zeros(n: nat) -> Seq<u8> {
    Seq::new(n, |i: int| 0u8)
}

/// Reading back what was written gives the number that was written.
pub proof fn lemma_u32_be_round_trip(n: u32)
    ensures
        spec_u32_to_be(n).len() == 4,
        spec_u32_from_be(spec_u32_to_be(n)) == n,
{
}

/// Reading back what was written gives the number that was written,
/// whatever follows it, and leaves what follows it.
pub proof fn lemma_u32_be_prefix(n: u32, rest: Seq<u8>)
    ensures
        spec_u32_to_be(n).len() == 4,
        spec_u32_from_be(spec_u32_to_be(n) + rest) == n,
        (spec_u32_to_be(n) + rest).skip(4) == rest,
{
    lemma_u32_be_round_trip(n);
    assert((spec_u32_to_be(n) + rest).skip(4) =~= rest);
}

/// Without the bytes `a` before them, the bytes `b` are left.
pub proof fn lemma_skip_prefix(a: Seq<u8>, b: Seq<u8>)
    ensures
        (a + b).skip(a.len() as int) == b,
{
    assert((a + b).skip(a.len() as int) =~= b);
}

/// `byteorder::BigEndian::read_u32`: the number that the first four bytes of
/// `buf` hold in big-endian order. It panics on a shorter `buf`, which
/// `requires` leaves out.
#[verifier::external_body]
fn be_read_u32(buf: &[u8]) -> (n: u32)
    requires
        buf@.len() >= 4,
    ensures
        n == spec_u32_from_be(buf@),
{
    BigEndian::read_u32(buf)
}

/// `byteorder::BigEndian::write_u32` on a buffer of four bytes: the
/// big-endian form of `n`.
#[verifier::external_body]
fn be_write_u32(n: u32) -> (buf: [u8; 4])
    ensures
        buf@ == spec_u32_to_be(n),
{
    let mut buf = [0u8; 4];
    BigEndian::write_u32(&mut buf, n);
    buf
}

/// Takes the next byte off `reader`.
pub fn read_u8(reader: &mut &[u8]) -> (r: Result<u8, Error>)
    ensures
        old(reader)@.len() >= 1 ==> r == Ok::<u8, Error>(old(reader)@[0]),
        old(reader)@.len() >= 1 ==> final(reader)@ == old(reader)@.skip(1),
        old(reader)@.len() < 1 ==> r == Err::<u8, Error>(spec_eof()),
        old(reader)@.len() < 1 ==> final(reader)@ == old(reader)@,
{
    if reader.len() < 1 {
        return Err(Error::Io(IoFailure::UnexpectedEof));
    }
    let b: u8 = reader[0];
    *reader = slice_subrange(*reader, 1, reader.len());
    Ok(b)
}

/// Takes the next four bytes off `reader`, as a big-endian number.
pub fn read_u32(reader: &mut &[u8]) -> (r: Result<u32, Error>)
    ensures
        old(reader)@.len() >= 4 ==> r == Ok::<u32, Error>(spec_u32_from_be(old(reader)@)),
        old(reader)@.len() >= 4 ==> final(reader)@ == old(reader)@.skip(4),
        old(reader)@.len() < 4 ==> r == Err::<u32, Error>(spec_eof()),
        old(reader)@.len() < 4 ==> final(reader)@ == old(reader)@,
{
    if reader.len() < 4 {
        return Err(Error::Io(IoFailure::UnexpectedEof));
    }
    let n: u32 = be_read_u32(*reader);
    *reader = slice_subrange(*reader, 4, reader.len());
    Ok(n)
}

/// Takes the next `n` bytes off `reader`.
pub fn read_exact<'a>(reader: &mut &'a [u8], n: usize) -> (r: Result<&'a [u8], Error>)
    ensures
        old(reader)@.len() >= n ==> r is Ok && r->Ok_0@ == old(reader)@.take(n as int),
        old(reader)@.len() >= n ==> final(reader)@ == old(reader)@.skip(n as int),
        old(reader)@.len() < n ==> r == Err::<&[u8], Error>(spec_eof()),
        old(reader)@.len() < n ==> final(reader)@ == old(reader)@,
{
    if reader.len() < n {
        return Err(Error::Io(IoFailure::UnexpectedEof));
    }
    let head = slice_subrange(*reader, 0, n);
    *reader = slice_subrange(*reader, n, reader.len());
    Ok(head)
}

/// Takes the next four bytes off `reader`, as they are.
pub fn read_tag(reader: &mut &[u8]) -> (r: Result<[u8; 4], Error>)
    ensures
        old(reader)@.len() >= 4 ==> r is Ok && r->Ok_0@ == old(reader)@.take(4),
        old(reader)@.len() >= 4 ==> final(reader)@ == old(reader)@.skip(4),
        old(reader)@.len() < 4 ==> r == Err::<[u8; 4], Error>(spec_eof()),
        old(reader)@.len() < 4 ==> final(reader)@ == old(reader)@,
{
    if reader.len() < 4 {
        return Err(Error::Io(IoFailure::UnexpectedEof));
    }
    let tag = [reader[0], reader[1], reader[2], reader[3]];
    *reader = slice_subrange(*reader, 4, reader.len());
    assert(tag@ =~= old(reader)@.take(4));
    Ok(tag)
}

/// Takes all that is left of `reader`.
pub fn read_to_end(reader: &mut &[u8]) -> (bytes: Vec<u8>)
    ensures
        bytes@ == old(reader)@,
        final(reader)@.len() == 0,
{
    let bytes = slice_to_vec(*reader);
    *reader = slice_subrange(*reader, reader.len(), reader.len());
    bytes
}

/// Appends one byte to `writer`.
pub fn write_u8(writer: &mut Vec<u8>, n: u8)
    ensures
        final(writer)@ == old(writer)@.push(n),
{
    writer.push(n);
}

/// Appends `data` to `writer`.
pub fn write_all(writer: &mut Vec<u8>, data: &[u8])
    ensures
        final(writer)@ == old(writer)@ + data@,
{
    writer.extend_from_slice(data);
    assert(writer@ =~= old(writer)@ + data@);
}

/// Appends the big-endian form of `n` to `writer`.
pub fn write_u32(writer: &mut Vec<u8>, n: u32)
    ensures
        final(writer)@ == old(writer)@ + spec_u32_to_be(n),
{
    let buf = be_write_u32(n);
    write_all(writer, buf.as_slice());
}

/// Appends `n` zero bytes to `writer`.
pub fn write_zeros(writer: &mut Vec<u8>, n: u32)
    ensures
        final(writer)@ == old(writer)@ + spec_zeros(n as nat),
{
    let mut i: u32 = 0;
    while i < n
        invariant
            i <= n,
            writer@ == old(writer)@ + spec_zeros(i as nat),
        decreases n - i,
    {
        writer.push(0u8);
        i = i + 1;
        assert(writer@ =~= old(writer)@ + spec_zeros(i as nat));
    }
}

} // verus!
