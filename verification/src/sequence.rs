//! Layout of a sequence of items: the items one after another, and, where
//! the sequence is length-prefixed, its length as a `u64` in front.
//!
//! The functions here are generic in the item: they take the item's layout
//! and the item's reading as spec closures.

use crate::error::FaultKind;
use crate::wire::{lemma_parse_u64, lemma_parsed_u64, parse_u64, u64_wire};
use vstd::prelude::*;

verus! {

/// The outcome of reading a `T` from the front of a byte sequence: the value
/// and the bytes that follow it, or the kind of fault met.
pub type Parsed<T> = Result<(T, Seq<u8>), FaultKind>;

/// The layouts of `items`, in order.
pub open spec fn items_wire<T>(items: Seq<T>, f: spec_fn(T) -> Seq<u8>) -> Seq<u8>
    decreases items.len(),
{
    if items.len() == 0 {
        Seq::<u8>::empty()
    } else {
        items_wire(items.drop_last(), f) + f(items.last())
    }
}

/// Reads `n` items from the front of `s`, stopping at the first fault.
pub open spec fn parse_items<T>(n: nat, s: Seq<u8>, p: spec_fn(Seq<u8>) -> Parsed<T>) -> Parsed<
    Seq<T>,
>
    decreases n,
{
    if n == 0 {
        Ok((Seq::<T>::empty(), s))
    } else {
        match p(s) {
            Err(k) => Err(k),
            Ok((x, s1)) => match parse_items((n - 1) as nat, s1, p) {
                Err(k) => Err(k),
                Ok((xs, s2)) => Ok((seq![x] + xs, s2)),
            },
        }
    }
}

/// Layout of a length-prefixed sequence.
pub open spec fn counted_wire<T>(items: Seq<T>, f: spec_fn(T) -> Seq<u8>) -> Seq<u8> {
    u64_wire(items.len() as u64) + items_wire(items, f)
}

/// Reads a length-prefixed sequence from the front of `s`.
pub open spec fn parse_counted<T>(s: Seq<u8>, p: spec_fn(Seq<u8>) -> Parsed<T>) -> Parsed<Seq<T>> {
    match parse_u64(s) {
        None => Err(FaultKind::Primitive),
        Some((n, rest)) => parse_items(n as nat, rest, p),
    }
}

/// Puts `acc` in front of the items of a reading.
pub open spec fn prepend<T>(acc: Seq<T>, r: Parsed<Seq<T>>) -> Parsed<Seq<T>> {
    match r {
        Ok((xs, rest)) => Ok((acc + xs, rest)),
        Err(k) => Err(k),
    }
}

/// Reading `x`'s layout with `p`, whatever follows it, gives `g(x)` and
/// leaves what follows.
pub open spec fn inverts<T>(
    p: spec_fn(Seq<u8>) -> Parsed<T>,
    f: spec_fn(T) -> Seq<u8>,
    g: spec_fn(T) -> T,
    x: T,
) -> bool {
    forall|r: Seq<u8>| #[trigger] p(f(x) + r) == Ok::<(T, Seq<u8>), FaultKind>((g(x), r))
}

/// The function that leaves an item as it is.
pub open spec fn same<T>() -> spec_fn(T) -> T {
    |x: T| x
}

/// Appending an item appends its layout.
pub proof fn lemma_items_wire_push<T>(items: Seq<T>, x: T, f: spec_fn(T) -> Seq<u8>)
    ensures
        items_wire(items.push(x), f) == items_wire(items, f) + f(x),
{
    assert(items.push(x).drop_last() =~= items);
}

/// The layout of a non-empty sequence starts with the layout of its first
/// item.
pub proof fn lemma_items_wire_first<T>(items: Seq<T>, f: spec_fn(T) -> Seq<u8>)
    requires
        items.len() > 0,
    ensures
        items_wire(items, f) == f(items[0]) + items_wire(items.skip(1), f),
    decreases items.len(),
{
    if items.len() == 1 {
        assert(items.drop_last() =~= Seq::<T>::empty());
        assert(items.skip(1) =~= Seq::<T>::empty());
        assert(items_wire(items, f) =~= f(items[0]) + items_wire(items.skip(1), f));
    } else {
        lemma_items_wire_first(items.drop_last(), f);
        assert(items.drop_last().skip(1) =~= items.skip(1).drop_last());
        assert(items.skip(1).last() == items.last());
        assert(items_wire(items, f) =~= f(items[0]) + items_wire(items.skip(1), f));
    }
}

/// One step of reading: the next item moves from the stream to `acc`.
pub proof fn lemma_parse_items_step<T>(
    acc: Seq<T>,
    k: nat,
    s: Seq<u8>,
    p: spec_fn(Seq<u8>) -> Parsed<T>,
)
    requires
        k > 0,
    ensures
        match p(s) {
            Err(e) => prepend(acc, parse_items(k, s, p)) == Err::<(Seq<T>, Seq<u8>), FaultKind>(e),
            Ok((x, s1)) => prepend(acc, parse_items(k, s, p)) == prepend(
                acc.push(x),
                parse_items((k - 1) as nat, s1, p),
            ),
        },
{
    match p(s) {
        Err(e) => {},
        Ok((x, s1)) => {
            match parse_items((k - 1) as nat, s1, p) {
                Err(e) => {},
                Ok((xs, s2)) => {
                    assert(acc + (seq![x] + xs) =~= acc.push(x) + xs);
                },
            }
        },
    }
}

/// Reading no items leaves everything as it is.
pub proof fn lemma_parse_items_done<T>(acc: Seq<T>, s: Seq<u8>, p: spec_fn(Seq<u8>) -> Parsed<T>)
    ensures
        prepend(acc, parse_items(0, s, p)) == Ok::<(Seq<T>, Seq<u8>), FaultKind>((acc, s)),
{
    assert(acc + Seq::<T>::empty() =~= acc);
}

/// Where reading inverts the layout of every item, reading as many items as
/// were laid out gives them back, each through `g`, and leaves what follows.
pub proof fn lemma_parse_items_wire<T>(
    items: Seq<T>,
    f: spec_fn(T) -> Seq<u8>,
    p: spec_fn(Seq<u8>) -> Parsed<T>,
    g: spec_fn(T) -> T,
    rest: Seq<u8>,
)
    requires
        forall|i: int| 0 <= i < items.len() ==> inverts(p, f, g, #[trigger] items[i]),
    ensures
        parse_items(items.len(), items_wire(items, f) + rest, p) == Ok::<
            (Seq<T>, Seq<u8>),
            FaultKind,
        >((items.map_values(g), rest)),
    decreases items.len(),
{
    if items.len() == 0 {
        assert(items_wire(items, f) + rest =~= rest);
        assert(items.map_values(g) =~= Seq::<T>::empty());
    } else {
        let tail = items.skip(1);
        lemma_items_wire_first(items, f);
        let after = items_wire(tail, f) + rest;
        assert(items_wire(items, f) + rest =~= f(items[0]) + after);
        assert(inverts(p, f, g, items[0]));
        assert(p(f(items[0]) + after) == Ok::<(T, Seq<u8>), FaultKind>((g(items[0]), after)));
        assert forall|i: int| 0 <= i < tail.len() implies inverts(p, f, g, #[trigger] tail[i]) by {
            assert(tail[i] == items[i + 1]);
        }
        lemma_parse_items_wire(tail, f, p, g, rest);
        assert(seq![g(items[0])] + tail.map_values(g) =~= items.map_values(g));
    }
}

/// The length-prefixed form of the same.
pub proof fn lemma_parse_counted_wire<T>(
    items: Seq<T>,
    f: spec_fn(T) -> Seq<u8>,
    p: spec_fn(Seq<u8>) -> Parsed<T>,
    g: spec_fn(T) -> T,
    rest: Seq<u8>,
)
    requires
        items.len() <= u64::MAX,
        forall|i: int| 0 <= i < items.len() ==> inverts(p, f, g, #[trigger] items[i]),
    ensures
        parse_counted(counted_wire(items, f) + rest, p) == Ok::<(Seq<T>, Seq<u8>), FaultKind>(
            (items.map_values(g), rest),
        ),
{
    let body = items_wire(items, f) + rest;
    assert(counted_wire(items, f) + rest =~= u64_wire(items.len() as u64) + body);
    lemma_parse_u64(items.len() as u64, body);
    lemma_parse_items_wire(items, f, p, g, rest);
}

/// Where `f2` lays out `g(x)` as `f1` lays out `x`, for every item, the
/// layouts of the whole sequences agree as well.
pub proof fn lemma_items_wire_map<T>(
    items: Seq<T>,
    g: spec_fn(T) -> T,
    f1: spec_fn(T) -> Seq<u8>,
    f2: spec_fn(T) -> Seq<u8>,
)
    requires
        forall|i: int| 0 <= i < items.len() ==> f2(g(#[trigger] items[i])) == f1(items[i]),
    ensures
        items_wire(items.map_values(g), f2) == items_wire(items, f1),
    decreases items.len(),
{
    if items.len() > 0 {
        let front = items.drop_last();
        assert forall|i: int| 0 <= i < front.len() implies f2(g(#[trigger] front[i])) == f1(
            front[i],
        ) by {
            assert(front[i] == items[i]);
        }
        lemma_items_wire_map(front, g, f1, f2);
        assert(items.map_values(g).drop_last() =~= front.map_values(g));
        assert(items.map_values(g).last() == g(items.last()));
        assert(items[items.len() - 1] == items.last());
    } else {
        assert(items.map_values(g) =~= Seq::<T>::empty());
    }
}

/// Whatever `p` reads an item from starts with the layout of that item.
pub open spec fn accepts_only<T>(p: spec_fn(Seq<u8>) -> Parsed<T>, f: spec_fn(T) -> Seq<u8>) -> bool {
    forall|s: Seq<u8>| (#[trigger] p(s)) is Ok ==> s == f(p(s).unwrap().0) + p(s).unwrap().1
}

/// Where the reading of an item accepts only its layout, whatever `n`
/// items are read from starts with the layouts of those items.
pub proof fn lemma_parsed_items<T>(
    n: nat,
    s: Seq<u8>,
    p: spec_fn(Seq<u8>) -> Parsed<T>,
    f: spec_fn(T) -> Seq<u8>,
)
    requires
        accepts_only(p, f),
    ensures
        parse_items(n, s, p) matches Ok((xs, rest)) ==> xs.len() == n && s == items_wire(xs, f)
            + rest,
    decreases n,
{
    if n == 0 {
        assert(s =~= items_wire(Seq::<T>::empty(), f) + s);
    } else if parse_items(n, s, p) is Ok {
        let (x, s1) = p(s).unwrap();
        let (tail, rest) = parse_items((n - 1) as nat, s1, p).unwrap();
        lemma_parsed_items((n - 1) as nat, s1, p, f);
        let xs = seq![x] + tail;
        lemma_items_wire_first(xs, f);
        assert(xs.skip(1) =~= tail);
        assert(s =~= items_wire(xs, f) + rest);
    }
}

/// The length-prefixed form of the same.
pub proof fn lemma_parsed_counted<T>(
    s: Seq<u8>,
    p: spec_fn(Seq<u8>) -> Parsed<T>,
    f: spec_fn(T) -> Seq<u8>,
)
    requires
        accepts_only(p, f),
    ensures
        parse_counted(s, p) matches Ok((xs, rest)) ==> s == counted_wire(xs, f) + rest,
{
    if parse_counted(s, p) is Ok {
        let (n, after) = parse_u64(s).unwrap();
        let (xs, rest) = parse_counted(s, p).unwrap();
        lemma_parsed_u64(s);
        lemma_parsed_items(n as nat, after, p, f);
        assert(s =~= counted_wire(xs, f) + rest);
    }
}

/// Where everything that `p` reads satisfies `q`, every one of the items
/// read satisfies it.
pub proof fn lemma_parsed_items_all<T>(
    n: nat,
    s: Seq<u8>,
    p: spec_fn(Seq<u8>) -> Parsed<T>,
    q: spec_fn(T) -> bool,
)
    requires
        forall|t: Seq<u8>| (#[trigger] p(t)) is Ok ==> q(p(t).unwrap().0),
    ensures
        parse_items(n, s, p) matches Ok((xs, rest)) ==> forall|i: int|
            0 <= i < xs.len() ==> q(#[trigger] xs[i]),
    decreases n,
{
    if n > 0 && parse_items(n, s, p) is Ok {
        let (x, s1) = p(s).unwrap();
        lemma_parsed_items_all((n - 1) as nat, s1, p, q);
    }
}

} // verus!
