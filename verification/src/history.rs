//! The traversal history: the indices of the actions chosen on the way from
//! the root to the node the solver stood at when the instance was saved.

use crate::error::{FaultKind, StreamFault};
use crate::reader::Reader;
use crate::sequence::{
    counted_wire, inverts, items_wire, lemma_items_wire_push, lemma_parse_counted_wire,
    lemma_parse_items_done, lemma_parse_items_step, lemma_parsed_counted, parse_counted,
    parse_items, prepend, same, Parsed,
};
use crate::wire::{lemma_parse_u64, lemma_parsed_u64, parse_u64, put_u64, u64_wire};
use vstd::prelude::*;

verus! {

/// The layout of an index, as a value.
pub open spec fn index_writer() -> spec_fn(u64) -> Seq<u8> {
    |v: u64| u64_wire(v)
}

/// Reads an index from the front of `s`.
pub open spec fn parse_index(s: Seq<u8>) -> Parsed<u64> {
    match parse_u64(s) {
        None => Err(FaultKind::Primitive),
        Some((v, rest)) => Ok((v, rest)),
    }
}

/// The reading of an index, as a value.
pub open spec fn index_reader() -> spec_fn(Seq<u8>) -> Parsed<u64> {
    |s: Seq<u8>| parse_index(s)
}

/// Layout of a history: its length, then its indices.
pub open spec fn history_wire(h: Seq<u64>) -> Seq<u8> {
    counted_wire(h, index_writer())
}

/// Reads a history from the front of `s`.
pub open spec fn parse_history(s: Seq<u8>) -> Parsed<Seq<u64>> {
    parse_counted(s, index_reader())
}

/// Appends a history to `out`: its length, then its indices in order.
pub fn encode_history(h: &Vec<u64>, out: &mut Vec<u8>)
    ensures
        final(out)@ == old(out)@ + history_wire(h@),
{
    let ghost start = out@;
    let n = h.len();
    put_u64(out, n as u64);
    let mut i: usize = 0;
    while i < n
        invariant
            n == h.len(),
            i <= n,
            out@ == start + u64_wire(n as u64) + items_wire(h@.take(i as int), index_writer()),
        decreases n - i,
    {
        put_u64(out, h[i]);
        proof {
            lemma_items_wire_push(h@.take(i as int), h@[i as int], index_writer());
            assert(h@.take(i + 1) =~= h@.take(i as int).push(h@[i as int]));
            assert(out@ =~= start + u64_wire(n as u64) + items_wire(
                h@.take(i + 1),
                index_writer(),
            ));
        }
        i = i + 1;
    }
    assert(h@.take(n as int) =~= h@);
    assert(out@ =~= start + history_wire(h@));
}

/// Reads a history: a length, then that many indices.
pub fn decode_history(reader: &mut Reader) -> (r: Result<Vec<u64>, StreamFault>)
    ensures
        match parse_history(old(reader).remaining()) {
            Ok((v, rest)) => r matches Ok(w) && w@ == v && final(reader).remaining() == rest,
            Err(k) => r matches Err(e) && e.kind() == k,
        },
{
    let n = reader.take_u64()?;
    let ghost s0 = reader.remaining();
    let mut acc: Vec<u64> = Vec::new();
    let mut i: u64 = 0;
    while i < n
        invariant
            i <= n,
            parse_u64(old(reader).remaining()) == Some((n, s0)),
            parse_items(n as nat, s0, index_reader()) == prepend(
                acc@,
                parse_items((n - i) as nat, reader.remaining(), index_reader()),
            ),
        decreases n - i,
    {
        proof {
            lemma_parse_items_step(acc@, (n - i) as nat, reader.remaining(), index_reader());
        }
        let v = reader.take_u64()?;
        acc.push(v);
        i = i + 1;
    }
    proof {
        lemma_parse_items_done(acc@, reader.remaining(), index_reader());
    }
    Ok(acc)
}

/// A history short enough for its length to fit a `u64`, written in front
/// of `rest`, is read back, leaving `rest`.
pub proof fn lemma_parse_history(h: Seq<u64>, rest: Seq<u8>)
    requires
        h.len() <= u64::MAX,
    ensures
        parse_history(history_wire(h) + rest) == Ok::<(Seq<u64>, Seq<u8>), FaultKind>((h, rest)),
{
    assert forall|i: int| 0 <= i < h.len() implies inverts(
        index_reader(),
        index_writer(),
        same::<u64>(),
        #[trigger] h[i],
    ) by {
        assert forall|r: Seq<u8>|
            #[trigger] index_reader()(index_writer()(h[i]) + r) == Ok::<(u64, Seq<u8>), FaultKind>(
                (same::<u64>()(h[i]), r),
            ) by {
            lemma_parse_u64(h[i], r);
        }
    }
    lemma_parse_counted_wire(h, index_writer(), index_reader(), same::<u64>(), rest);
    assert(h.map_values(same::<u64>()) =~= h);
}

/// Whatever `parse_history` reads a history from starts with the layout of
/// that history.
pub proof fn lemma_parsed_history(s: Seq<u8>)
    ensures
        parse_history(s) matches Ok((v, rest)) ==> s == history_wire(v) + rest,
{
    assert forall|t: Seq<u8>| (#[trigger] index_reader()(t)) is Ok implies t == index_writer()(
        index_reader()(t).unwrap().0,
    ) + index_reader()(t).unwrap().1 by {
        lemma_parsed_u64(t);
    }
    lemma_parsed_counted(s, index_reader(), index_writer());
}

} // verus!
