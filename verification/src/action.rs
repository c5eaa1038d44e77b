//! Actions, and the lines of actions that make up the edit log.

use crate::error::{FaultKind, StreamFault};
use crate::reader::Reader;
use crate::sequence::{
    accepts_only, counted_wire, inverts, items_wire, lemma_items_wire_push,
    lemma_parse_counted_wire, lemma_parse_items_done, lemma_parse_items_step,
    lemma_parsed_counted, parse_counted, parse_items, prepend, same, Parsed,
};
use crate::wire::{
    i32_wire, lemma_parse_i32, lemma_parse_u32, lemma_parse_u8, lemma_parsed_i32,
    lemma_parsed_u32, lemma_parsed_u8, parse_i32, parse_u32, parse_u64, parse_u8, put_i32,
    put_u32, put_u64, put_u8, u32_wire, u64_wire, u8_wire,
};
use vstd::prelude::*;

verus! {

/// One move in the tree, as the tree builder identifies it.
#[derive(Clone, Copy, Debug, PartialEq, Eq, Structural, Hash)]
pub enum Action {
    /// No move: what the root was reached by.
    Start,
    /// Give up the pot.
    Fold,
    /// Pass without betting.
    Check,
    /// Match the bet faced.
    Call,
    /// Open the betting with the given amount.
    Bet(i32),
    /// Raise to the given amount.
    Raise(i32),
    /// Commit the whole stack, the given amount.
    AllIn(i32),
    /// A chance outcome: the given card is dealt.
    Chance(u8),
}

/// Layout of an action: the index of its variant as a `u32`, then its
/// amount or card where it has one.
pub open spec fn action_wire(a: Action) -> Seq<u8> {
    match a {
        Action::Start => u32_wire(0),
        Action::Fold => u32_wire(1),
        Action::Check => u32_wire(2),
        Action::Call => u32_wire(3),
        Action::Bet(x) => u32_wire(4) + i32_wire(x),
        Action::Raise(x) => u32_wire(5) + i32_wire(x),
        Action::AllIn(x) => u32_wire(6) + i32_wire(x),
        Action::Chance(c) => u32_wire(7) + u8_wire(c),
    }
}

/// Reads the amount of a betting action whose variant is already known.
pub open spec fn parse_amount(tag: u32, s: Seq<u8>) -> Parsed<Action> {
    match parse_i32(s) {
        None => Err(FaultKind::Primitive),
        Some((x, rest)) => if tag == 4 {
            Ok((Action::Bet(x), rest))
        } else if tag == 5 {
            Ok((Action::Raise(x), rest))
        } else {
            Ok((Action::AllIn(x), rest))
        },
    }
}

/// Reads an action from the front of `s`.
pub open spec fn parse_action(s: Seq<u8>) -> Parsed<Action> {
    match parse_u32(s) {
        None => Err(FaultKind::Primitive),
        Some((tag, rest)) => if tag == 0 {
            Ok((Action::Start, rest))
        } else if tag == 1 {
            Ok((Action::Fold, rest))
        } else if tag == 2 {
            Ok((Action::Check, rest))
        } else if tag == 3 {
            Ok((Action::Call, rest))
        } else if 4 <= tag <= 6 {
            parse_amount(tag, rest)
        } else if tag == 7 {
            match parse_u8(rest) {
                None => Err(FaultKind::Primitive),
                Some((c, rest2)) => Ok((Action::Chance(c), rest2)),
            }
        } else {
            Err(FaultKind::UnknownVariant)
        },
    }
}

/// The layout of an action, as a value.
pub open spec fn action_writer() -> spec_fn(Action) -> Seq<u8> {
    |a: Action| action_wire(a)
}

/// The reading of an action, as a value.
pub open spec fn action_reader() -> spec_fn(Seq<u8>) -> Parsed<Action> {
    |s: Seq<u8>| parse_action(s)
}

/// Layout of a line: its length, then its actions.
pub open spec fn line_wire(line: Seq<Action>) -> Seq<u8> {
    counted_wire(line, action_writer())
}

/// Reads a line from the front of `s`.
pub open spec fn parse_line(s: Seq<u8>) -> Parsed<Seq<Action>> {
    parse_counted(s, action_reader())
}

/// The layout of a line, as a value.
pub open spec fn line_writer() -> spec_fn(Seq<Action>) -> Seq<u8> {
    |l: Seq<Action>| line_wire(l)
}

/// The reading of a line, as a value.
pub open spec fn line_reader() -> spec_fn(Seq<u8>) -> Parsed<Seq<Action>> {
    |s: Seq<u8>| parse_line(s)
}

/// Layout of a list of lines: its length, then its lines.
pub open spec fn lines_wire(lines: Seq<Seq<Action>>) -> Seq<u8> {
    counted_wire(lines, line_writer())
}

/// Reads a list of lines from the front of `s`.
pub open spec fn parse_lines(s: Seq<u8>) -> Parsed<Seq<Seq<Action>>> {
    parse_counted(s, line_reader())
}

/// A list of lines as a sequence of sequences.
pub open spec fn lines_model(v: Seq<Vec<Action>>) -> Seq<Seq<Action>> {
    v.map_values(|l: Vec<Action>| l@)
}

impl Action {
    /// Appends the action to `out`.
    pub fn encode(&self, out: &mut Vec<u8>)
        ensures
            final(out)@ == old(out)@ + action_wire(*self),
    {
        let ghost start = out@;
        match self {
            Action::Start => put_u32(out, 0),
            Action::Fold => put_u32(out, 1),
            Action::Check => put_u32(out, 2),
            Action::Call => put_u32(out, 3),
            Action::Bet(x) => {
                put_u32(out, 4);
                put_i32(out, *x);
                assert(out@ =~= start + (u32_wire(4) + i32_wire(*x)));
            },
            Action::Raise(x) => {
                put_u32(out, 5);
                put_i32(out, *x);
                assert(out@ =~= start + (u32_wire(5) + i32_wire(*x)));
            },
            Action::AllIn(x) => {
                put_u32(out, 6);
                put_i32(out, *x);
                assert(out@ =~= start + (u32_wire(6) + i32_wire(*x)));
            },
            Action::Chance(c) => {
                put_u32(out, 7);
                put_u8(out, *c);
                assert(out@ =~= start + (u32_wire(7) + u8_wire(*c)));
            },
        }
    }

    /// Reads an action. A variant index above 7 is refused.
    pub fn decode(reader: &mut Reader) -> (r: Result<Action, StreamFault>)
        ensures
            match parse_action(old(reader).remaining()) {
                Ok((v, rest)) => r == Ok::<Action, StreamFault>(v) && final(reader).remaining()
                    == rest,
                Err(k) => r matches Err(e) && e.kind() == k,
            },
    {
        let tag = reader.take_u32()?;
        if tag == 0 {
            Ok(Action::Start)
        } else if tag == 1 {
            Ok(Action::Fold)
        } else if tag == 2 {
            Ok(Action::Check)
        } else if tag == 3 {
            Ok(Action::Call)
        } else if tag <= 6 {
            let x = reader.take_i32()?;
            if tag == 4 {
                Ok(Action::Bet(x))
            } else if tag == 5 {
                Ok(Action::Raise(x))
            } else {
                Ok(Action::AllIn(x))
            }
        } else if tag == 7 {
            let c = reader.take_u8()?;
            Ok(Action::Chance(c))
        } else {
            Err(StreamFault::UnknownVariant)
        }
    }
}

/// Appends a line to `out`: its length, then its actions in order.
pub fn encode_line(line: &Vec<Action>, out: &mut Vec<u8>)
    ensures
        final(out)@ == old(out)@ + line_wire(line@),
{
    let ghost start = out@;
    let n = line.len();
    put_u64(out, n as u64);
    let mut i: usize = 0;
    while i < n
        invariant
            n == line.len(),
            i <= n,
            out@ == start + u64_wire(n as u64) + items_wire(line@.take(i as int), action_writer()),
        decreases n - i,
    {
        line[i].encode(out);
        proof {
            lemma_items_wire_push(line@.take(i as int), line@[i as int], action_writer());
            assert(line@.take(i + 1) =~= line@.take(i as int).push(line@[i as int]));
            assert(out@ =~= start + u64_wire(n as u64) + items_wire(
                line@.take(i + 1),
                action_writer(),
            ));
        }
        i = i + 1;
    }
    assert(line@.take(n as int) =~= line@);
    assert(out@ =~= start + line_wire(line@));
}

/// Reads a line: a length, then that many actions.
pub fn decode_line(reader: &mut Reader) -> (r: Result<Vec<Action>, StreamFault>)
    ensures
        match parse_line(old(reader).remaining()) {
            Ok((v, rest)) => r matches Ok(w) && w@ == v && final(reader).remaining() == rest,
            Err(k) => r matches Err(e) && e.kind() == k,
        },
{
    let n = reader.take_u64()?;
    let ghost s0 = reader.remaining();
    let mut acc: Vec<Action> = Vec::new();
    let mut i: u64 = 0;
    while i < n
        invariant
            i <= n,
            parse_u64(old(reader).remaining()) == Some((n, s0)),
            parse_items(n as nat, s0, action_reader()) == prepend(
                acc@,
                parse_items((n - i) as nat, reader.remaining(), action_reader()),
            ),
        decreases n - i,
    {
        proof {
            lemma_parse_items_step(acc@, (n - i) as nat, reader.remaining(), action_reader());
        }
        let a = Action::decode(reader)?;
        acc.push(a);
        i = i + 1;
    }
    proof {
        lemma_parse_items_done(acc@, reader.remaining(), action_reader());
    }
    Ok(acc)
}

/// Appends a list of lines to `out`: its length, then its lines in order.
pub fn encode_lines(lines: &Vec<Vec<Action>>, out: &mut Vec<u8>)
    ensures
        final(out)@ == old(out)@ + lines_wire(lines_model(lines@)),
{
    let ghost start = out@;
    let ghost model = lines_model(lines@);
    let n = lines.len();
    put_u64(out, n as u64);
    let mut i: usize = 0;
    while i < n
        invariant
            n == lines.len(),
            model == lines_model(lines@),
            i <= n,
            out@ == start + u64_wire(n as u64) + items_wire(model.take(i as int), line_writer()),
        decreases n - i,
    {
        encode_line(&lines[i], out);
        proof {
            lemma_items_wire_push(model.take(i as int), model[i as int], line_writer());
            assert(model.take(i + 1) =~= model.take(i as int).push(model[i as int]));
            assert(out@ =~= start + u64_wire(n as u64) + items_wire(
                model.take(i + 1),
                line_writer(),
            ));
        }
        i = i + 1;
    }
    assert(model.take(n as int) =~= model);
    assert(out@ =~= start + lines_wire(model));
}

/// Reads a list of lines: a length, then that many lines.
pub fn decode_lines(reader: &mut Reader) -> (r: Result<Vec<Vec<Action>>, StreamFault>)
    ensures
        match parse_lines(old(reader).remaining()) {
            Ok((v, rest)) => r matches Ok(w) && lines_model(w@) == v && final(reader).remaining()
                == rest,
            Err(k) => r matches Err(e) && e.kind() == k,
        },
{
    let n = reader.take_u64()?;
    let ghost s0 = reader.remaining();
    let mut acc: Vec<Vec<Action>> = Vec::new();
    let mut i: u64 = 0;
    assert(lines_model(acc@) =~= Seq::<Seq<Action>>::empty());
    while i < n
        invariant
            i <= n,
            parse_u64(old(reader).remaining()) == Some((n, s0)),
            parse_items(n as nat, s0, line_reader()) == prepend(
                lines_model(acc@),
                parse_items((n - i) as nat, reader.remaining(), line_reader()),
            ),
        decreases n - i,
    {
        proof {
            lemma_parse_items_step(
                lines_model(acc@),
                (n - i) as nat,
                reader.remaining(),
                line_reader(),
            );
        }
        let ghost before = acc@;
        let line = decode_line(reader)?;
        acc.push(line);
        assert(lines_model(acc@) =~= lines_model(before).push(line@));
        i = i + 1;
    }
    proof {
        lemma_parse_items_done(lines_model(acc@), reader.remaining(), line_reader());
    }
    Ok(acc)
}

/// An action written in front of `rest` is read back, leaving `rest`.
pub proof fn lemma_parse_action(a: Action, rest: Seq<u8>)
    ensures
        parse_action(action_wire(a) + rest) == Ok::<(Action, Seq<u8>), FaultKind>((a, rest)),
{
    match a {
        Action::Start => lemma_parse_u32(0, rest),
        Action::Fold => lemma_parse_u32(1, rest),
        Action::Check => lemma_parse_u32(2, rest),
        Action::Call => lemma_parse_u32(3, rest),
        Action::Bet(x) => {
            assert(action_wire(a) + rest =~= u32_wire(4) + (i32_wire(x) + rest));
            lemma_parse_u32(4, i32_wire(x) + rest);
            lemma_parse_i32(x, rest);
        },
        Action::Raise(x) => {
            assert(action_wire(a) + rest =~= u32_wire(5) + (i32_wire(x) + rest));
            lemma_parse_u32(5, i32_wire(x) + rest);
            lemma_parse_i32(x, rest);
        },
        Action::AllIn(x) => {
            assert(action_wire(a) + rest =~= u32_wire(6) + (i32_wire(x) + rest));
            lemma_parse_u32(6, i32_wire(x) + rest);
            lemma_parse_i32(x, rest);
        },
        Action::Chance(c) => {
            assert(action_wire(a) + rest =~= u32_wire(7) + (u8_wire(c) + rest));
            lemma_parse_u32(7, u8_wire(c) + rest);
            lemma_parse_u8(c, rest);
        },
    }
}

/// A line short enough for its length to fit a `u64`, written in front of
/// `rest`, is read back, leaving `rest`.
pub proof fn lemma_parse_line(line: Seq<Action>, rest: Seq<u8>)
    requires
        line.len() <= u64::MAX,
    ensures
        parse_line(line_wire(line) + rest) == Ok::<(Seq<Action>, Seq<u8>), FaultKind>(
            (line, rest),
        ),
{
    assert forall|i: int| 0 <= i < line.len() implies inverts(
        action_reader(),
        action_writer(),
        same::<Action>(),
        #[trigger] line[i],
    ) by {
        assert forall|r: Seq<u8>|
            #[trigger] action_reader()(action_writer()(line[i]) + r) == Ok::<
                (Action, Seq<u8>),
                FaultKind,
            >((same::<Action>()(line[i]), r)) by {
            lemma_parse_action(line[i], r);
        }
    }
    lemma_parse_counted_wire(line, action_writer(), action_reader(), same::<Action>(), rest);
    assert(line.map_values(same::<Action>()) =~= line);
}

/// A list of lines, each and the list itself short enough for its length
/// to fit a `u64`, written in front of `rest`, is read back, leaving `rest`.
pub proof fn lemma_parse_lines(lines: Seq<Seq<Action>>, rest: Seq<u8>)
    requires
        lines.len() <= u64::MAX,
        forall|i: int| 0 <= i < lines.len() ==> (#[trigger] lines[i]).len() <= u64::MAX,
    ensures
        parse_lines(lines_wire(lines) + rest) == Ok::<(Seq<Seq<Action>>, Seq<u8>), FaultKind>(
            (lines, rest),
        ),
{
    assert forall|i: int| 0 <= i < lines.len() implies inverts(
        line_reader(),
        line_writer(),
        same::<Seq<Action>>(),
        #[trigger] lines[i],
    ) by {
        assert forall|r: Seq<u8>|
            #[trigger] line_reader()(line_writer()(lines[i]) + r) == Ok::<
                (Seq<Action>, Seq<u8>),
                FaultKind,
            >((same::<Seq<Action>>()(lines[i]), r)) by {
            lemma_parse_line(lines[i], r);
        }
    }
    lemma_parse_counted_wire(lines, line_writer(), line_reader(), same::<Seq<Action>>(), rest);
    assert(lines.map_values(same::<Seq<Action>>()) =~= lines);
}

/// Whatever `parse_action` reads an action from starts with the layout of
/// that action.
pub proof fn lemma_parsed_action(s: Seq<u8>)
    ensures
        parse_action(s) matches Ok((v, rest)) ==> s == action_wire(v) + rest,
{
    if parse_action(s) is Ok {
        let (tag, s1) = parse_u32(s).unwrap();
        let (v, rest) = parse_action(s).unwrap();
        lemma_parsed_u32(s);
        if 4 <= tag <= 6 {
            lemma_parsed_i32(s1);
            let x = parse_i32(s1).unwrap().0;
            assert(s =~= u32_wire(tag) + i32_wire(x) + rest);
        } else if tag == 7 {
            lemma_parsed_u8(s1);
            let c = parse_u8(s1).unwrap().0;
            assert(s =~= u32_wire(tag) + u8_wire(c) + rest);
        }
    }
}

/// The reading of an action accepts only its layout.
pub proof fn lemma_action_reader_accepts_only()
    ensures
        accepts_only(action_reader(), action_writer()),
{
    assert forall|s: Seq<u8>| (#[trigger] action_reader()(s)) is Ok implies s == action_writer()(
        action_reader()(s).unwrap().0,
    ) + action_reader()(s).unwrap().1 by {
        lemma_parsed_action(s);
    }
}

/// Whatever `parse_line` reads a line from starts with the layout of that
/// line.
pub proof fn lemma_parsed_line(s: Seq<u8>)
    ensures
        parse_line(s) matches Ok((v, rest)) ==> s == line_wire(v) + rest,
{
    lemma_action_reader_accepts_only();
    lemma_parsed_counted(s, action_reader(), action_writer());
}

/// Whatever `parse_lines` reads a list of lines from starts with the layout
/// of that list.
pub proof fn lemma_parsed_lines(s: Seq<u8>)
    ensures
        parse_lines(s) matches Ok((v, rest)) ==> s == lines_wire(v) + rest,
{
    assert forall|t: Seq<u8>| (#[trigger] line_reader()(t)) is Ok implies t == line_writer()(
        line_reader()(t).unwrap().0,
    ) + line_reader()(t).unwrap().1 by {
        lemma_parsed_line(t);
    }
    lemma_parsed_counted(s, line_reader(), line_writer());
}

} // verus!
