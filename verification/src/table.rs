//! Tables: a count in four bytes, and that many parts one after the other.
use crate::bytes::{
    lemma_u32_be_prefix, read_u32, spec_u32_from_be, spec_u32_to_be, write_u32,
};
use crate::error::{spec_eof, Error};
use crate::parts::Part;
use vstd::prelude::*;
use vstd::slice::slice_subrange;

verus! {

/// The bytes of a run of parts, one after the other.
pub open spec fn spec_parts_bytes<T: Part>(parts: Seq<T::V>) -> Seq<u8> {
    parts.map_values(|v: T::V| T::spec_bytes(v)).flatten()
}

/// Whether each part of a run can be stored.
pub open spec fn spec_parts_encodable<T: Part>(parts: Seq<T::V>) -> bool {
    forall|i: int| 0 <= i < parts.len() ==> T::spec_encodable(#[trigger] parts[i])
}

/// The `count` parts at the start of `data`. What follows them is not looked
/// at.
pub open spec fn spec_parse_parts<T: Part>(data: Seq<u8>, count: nat) -> Result<Seq<T::V>, Error>
    decreases count,
{
    if count == 0 {
        Ok(Seq::empty())
    } else {
        match T::spec_parse(data) {
            Err(e) => Err(e),
            Ok((v, n)) => spec_prepend(seq![v], spec_parse_parts::<T>(data.skip(n), (count - 1) as nat)),
        }
    }
}

/// The outcome `r` with `head` put before what it found.
pub open spec fn spec_prepend<V>(head: Seq<V>, r: Result<Seq<V>, Error>) -> Result<Seq<V>, Error> {
    match r {
        Ok(tail) => Ok(head + tail),
        Err(e) => Err(e),
    }
}

/// What each of the values `s` stands for.
pub open spec fn spec_views<T: View>(s: Seq<T>) -> Seq<T::V> {
    s.map_values(|t: T| t@)
}

/// Reads `count` parts from the start of `data`.
pub fn read_parts<T: Part>(data: &[u8], count: u32) -> (r: Result<Vec<T>, Error>)
    ensures
        match spec_parse_parts::<T>(data@, count as nat) {
            Ok(parts) => r is Ok && spec_views(r->Ok_0@) == parts,
            Err(e) => r is Err && r->Err_0 == e,
        },
{
    let mut parts: Vec<T> = Vec::new();
    let mut rest: &[u8] = data;
    let mut i: u32 = 0;
    assert(spec_views(parts@) =~= Seq::<T::V>::empty());
    assert(spec_prepend(Seq::<T::V>::empty(), spec_parse_parts::<T>(data@, count as nat))
        == spec_parse_parts::<T>(data@, count as nat)) by {
        if let Ok(tail) = spec_parse_parts::<T>(data@, count as nat) {
            assert(Seq::<T::V>::empty() + tail =~= tail);
        }
    }
    while i < count
        invariant
            i <= count,
            spec_parse_parts::<T>(data@, count as nat) == spec_prepend(
                spec_views(parts@),
                spec_parse_parts::<T>(rest@, (count - i) as nat),
            ),
        decreases count - i,
    {
        let ghost head = spec_views(parts@);
        let (part, n): (T, usize) = T::read(rest)?;
        rest = slice_subrange(rest, n, rest.len());
        proof {
            assert(spec_views(parts@.push(part)) =~= head.push(part@));
            if let Ok(tail) = spec_parse_parts::<T>(rest@, (count - i - 1) as nat) {
                assert(head + (seq![part@] + tail) =~= head.push(part@) + tail);
            }
        }
        parts.push(part);
        i = i + 1;
    }
    proof {
        assert(spec_views(parts@) + Seq::<T::V>::empty() =~= spec_views(parts@));
    }
    Ok(parts)
}

/// Appends the bytes of the parts to `writer`, one after the other.
pub fn write_parts<T: Part>(parts: &Vec<T>, writer: &mut Vec<u8>)
    requires
        spec_parts_encodable::<T>(spec_views(parts@)),
    ensures
        final(writer)@ == old(writer)@ + spec_parts_bytes::<T>(spec_views(parts@)),
{
    let ghost all = spec_views(parts@);
    let mut i: usize = 0;
    assert(spec_parts_bytes::<T>(all.take(0)) =~= Seq::<u8>::empty());
    while i < parts.len()
        invariant
            i <= parts@.len(),
            all == spec_views(parts@),
            spec_parts_encodable::<T>(all),
            writer@ == old(writer)@ + spec_parts_bytes::<T>(all.take(i as int)),
        decreases parts@.len() - i,
    {
        assert(all[i as int] == parts@[i as int]@);
        parts[i].write(writer);
        proof {
            let f = |v: T::V| T::spec_bytes(v);
            let done = all.take(i as int);
            assert(all.take(i + 1).map_values(f) =~= done.map_values(f).push(f(all[i as int])));
            done.map_values(f).lemma_flatten_push(f(all[i as int]));
        }
        i = i + 1;
    }
    assert(all.take(i as int) =~= all);
}

/// Tells whether each of the parts can be stored.
pub fn parts_are_encodable<T: Part>(parts: &Vec<T>) -> (b: bool)
    ensures
        b == spec_parts_encodable::<T>(spec_views(parts@)),
{
    let mut i: usize = 0;
    while i < parts.len()
        invariant
            i <= parts@.len(),
            forall|j: int| 0 <= j < i ==> T::spec_encodable(#[trigger] spec_views(parts@)[j]),
        decreases parts@.len() - i,
    {
        if !parts[i].is_encodable() {
            assert(!T::spec_encodable(spec_views(parts@)[i as int]));
            return false;
        }
        i = i + 1;
    }
    true
}

/// A run of parts that is stored and then read is the same run, whatever
/// follows it in the bytes.
pub proof fn lemma_parts_round_trip<T: Part>(parts: Seq<T::V>, rest: Seq<u8>)
    requires
        spec_parts_encodable::<T>(parts),
    ensures
        spec_parse_parts::<T>(spec_parts_bytes::<T>(parts) + rest, parts.len()) == Ok::<
            Seq<T::V>,
            Error,
        >(parts),
    decreases parts.len(),
{
    let f = |v: T::V| T::spec_bytes(v);
    if parts.len() == 0 {
        assert(parts =~= Seq::<T::V>::empty());
    } else {
        let first = parts.first();
        let others = parts.drop_first();
        assert(parts.map_values(f).drop_first() =~= others.map_values(f));
        assert(spec_parts_bytes::<T>(parts) == f(first) + spec_parts_bytes::<T>(others));
        let data = spec_parts_bytes::<T>(parts) + rest;
        assert(data =~= T::spec_bytes(first) + (spec_parts_bytes::<T>(others) + rest));
        T::lemma_round_trip(first, spec_parts_bytes::<T>(others) + rest);
        assert(data.skip(T::spec_bytes(first).len() as int) =~= spec_parts_bytes::<T>(others)
            + rest);
        assert(spec_parts_encodable::<T>(others)) by {
            assert forall|i: int| 0 <= i < others.len() implies T::spec_encodable(
                #[trigger] others[i],
            ) by {
                assert(others[i] == parts[i + 1]);
            }
        }
        lemma_parts_round_trip::<T>(others, rest);
        assert(seq![first] + others =~= parts);
    }
}

/// A run of parts is not read for want of bytes, or because a name is no
/// UTF-8, and for no other reason.
pub proof fn lemma_parse_parts_errors<T: Part>(data: Seq<u8>, count: nat)
    ensures
        spec_parse_parts::<T>(data, count) matches Err(e) ==> e == spec_eof() || e
            == Error::InvalidString,
    decreases count,
{
    if count > 0 {
        T::lemma_parse_errors(data);
        if let Ok((v, n)) = T::spec_parse(data) {
            lemma_parse_parts_errors::<T>(data.skip(n), (count - 1) as nat);
        }
    }
}

/// The bytes of the first `k` parts are no more than the bytes of all.
pub proof fn lemma_parts_bytes_grow<T: Part>(all: Seq<T::V>, k: int)
    requires
        0 <= k <= all.len(),
    ensures
        spec_parts_bytes::<T>(all.take(k)).len() <= spec_parts_bytes::<T>(all).len(),
    decreases all.len() - k,
{
    if k < all.len() {
        let f = |v: T::V| T::spec_bytes(v);
        let done = all.take(k);
        assert(all.take(k + 1).map_values(f) =~= done.map_values(f).push(f(all[k])));
        done.map_values(f).lemma_flatten_push(f(all[k]));
        lemma_parts_bytes_grow::<T>(all, k + 1);
    } else {
        assert(all.take(k) =~= all);
    }
}

/// Whether a table can be stored: its count fits four bytes, and each of
/// its parts can be stored.
pub open spec fn spec_table_encodable<T: Part>(parts: Seq<T::V>) -> bool {
    parts.len() <= u32::MAX && spec_parts_encodable::<T>(parts)
}

/// The bytes of a table: the count of its parts, then the parts.
pub open spec fn spec_table_bytes<T: Part>(parts: Seq<T::V>) -> Seq<u8> {
    spec_u32_to_be(parts.len() as u32) + spec_parts_bytes::<T>(parts)
}

/// The table at the start of `data`. What follows it is not looked at.
pub open spec fn spec_parse_table<T: Part>(data: Seq<u8>) -> Result<Seq<T::V>, Error> {
    if data.len() < 4 {
        Err(spec_eof())
    } else {
        spec_parse_parts::<T>(data.skip(4), spec_u32_from_be(data) as nat)
    }
}

/// Reads a table from the start of `data`.
pub fn read_table<T: Part>(data: &[u8]) -> (r: Result<Vec<T>, Error>)
    ensures
        match spec_parse_table::<T>(data@) {
            Ok(parts) => r is Ok && spec_views(r->Ok_0@) == parts,
            Err(e) => r is Err && r->Err_0 == e,
        },
{
    let mut rest: &[u8] = data;
    let count: u32 = read_u32(&mut rest)?;
    read_parts(rest, count)
}

/// Appends the bytes of a table to `writer`.
pub fn write_table<T: Part>(parts: &Vec<T>, writer: &mut Vec<u8>)
    requires
        spec_table_encodable::<T>(spec_views(parts@)),
    ensures
        final(writer)@ == old(writer)@ + spec_table_bytes::<T>(spec_views(parts@)),
{
    write_u32(writer, parts.len() as u32);
    write_parts(parts, writer);
    assert(writer@ =~= old(writer)@ + spec_table_bytes::<T>(spec_views(parts@)));
}

/// Tells whether a table can be stored.
pub fn table_is_encodable<T: Part>(parts: &Vec<T>) -> (b: bool)
    ensures
        b == spec_table_encodable::<T>(spec_views(parts@)),
{
    parts.len() <= u32::MAX as usize && parts_are_encodable(parts)
}

/// A table that is stored and then read is the same table, whatever follows
/// it in the bytes.
pub proof fn lemma_table_round_trip<T: Part>(parts: Seq<T::V>, rest: Seq<u8>)
    requires
        spec_table_encodable::<T>(parts),
    ensures
        spec_parse_table::<T>(spec_table_bytes::<T>(parts) + rest) == Ok::<Seq<T::V>, Error>(
            parts,
        ),
{
    let data = spec_table_bytes::<T>(parts) + rest;
    lemma_u32_be_prefix(parts.len() as u32, spec_parts_bytes::<T>(parts) + rest);
    assert(data =~= spec_u32_to_be(parts.len() as u32) + (spec_parts_bytes::<T>(parts) + rest));
    assert(data.skip(4) =~= spec_parts_bytes::<T>(parts) + rest);
    lemma_parts_round_trip::<T>(parts, rest);
}

/// A table is not read for want of bytes, or because a name is no UTF-8,
/// and for no other reason.
pub proof fn lemma_parse_table_errors<T: Part>(data: Seq<u8>)
    ensures
        spec_parse_table::<T>(data) matches Err(e) ==> e == spec_eof() || e
            == Error::InvalidString,
{
    if data.len() >= 4 {
        lemma_parse_parts_errors::<T>(data.skip(4), spec_u32_from_be(data) as nat);
    }
}

} // verus!
