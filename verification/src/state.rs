//! The lifecycle of a solver instance.

use crate::error::{FaultKind, StreamFault};
use crate::reader::Reader;
use crate::sequence::Parsed;
use crate::wire::{lemma_parse_u32, lemma_parsed_u32, parse_u32, put_u32, u32_wire};
use vstd::prelude::*;

verus! {

/// How far an instance has come. The stages are ordered: each one includes
/// what the earlier ones established.
#[derive(Clone, Copy, Debug, PartialEq, Eq, Structural, PartialOrd, Ord, Hash)]
pub enum State {
    /// Nothing has been set up.
    Uninitialized,
    /// The storage arenas exist and have live base addresses.
    MemoryAllocated,
    /// The node arena and the structures derived from it exist.
    TreeBuilt,
    /// Solving has run on the built tree.
    Solved,
}

impl State {
    /// The position of the stage in the order, from 0.
    pub open spec fn rank(self) -> u32 {
        match self {
            State::Uninitialized => 0,
            State::MemoryAllocated => 1,
            State::TreeBuilt => 2,
            State::Solved => 3,
        }
    }

    /// Whether this stage is `other` or a later one.
    pub open spec fn reached(self, other: State) -> bool {
        self.rank() >= other.rank()
    }

    /// The position of the stage in the order, from 0.
    pub fn ordinal(&self) -> (r: u32)
        ensures
            r == self.rank(),
    {
        match self {
            State::Uninitialized => 0,
            State::MemoryAllocated => 1,
            State::TreeBuilt => 2,
            State::Solved => 3,
        }
    }

    /// Whether this stage is `other` or a later one.
    pub fn at_least(&self, other: State) -> (b: bool)
        ensures
            b == self.reached(other),
    {
        self.ordinal() >= other.ordinal()
    }

    /// Appends the stage to `out` as its ordinal.
    pub fn encode(&self, out: &mut Vec<u8>)
        ensures
            final(out)@ == old(out)@ + state_wire(*self),
    {
        put_u32(out, self.ordinal());
    }

    /// Reads a stage. An ordinal that names no stage is refused.
    pub fn decode(reader: &mut Reader) -> (r: Result<State, StreamFault>)
        ensures
            match parse_state(old(reader).remaining()) {
                Ok((v, rest)) => r == Ok::<State, StreamFault>(v) && final(reader).remaining()
                    == rest,
                Err(k) => r matches Err(e) && e.kind() == k,
            },
    {
        let tag = reader.take_u32()?;
        if tag == 0 {
            Ok(State::Uninitialized)
        } else if tag == 1 {
            Ok(State::MemoryAllocated)
        } else if tag == 2 {
            Ok(State::TreeBuilt)
        } else if tag == 3 {
            Ok(State::Solved)
        } else {
            Err(StreamFault::UnknownVariant)
        }
    }
}

/// Layout of a stage: its ordinal as a `u32`.
pub open spec fn state_wire(s: State) -> Seq<u8> {
    u32_wire(s.rank())
}

/// Reads a stage from the front of `s`.
pub open spec fn parse_state(s: Seq<u8>) -> Parsed<State> {
    match parse_u32(s) {
        None => Err(FaultKind::Primitive),
        Some((tag, rest)) => if tag == 0 {
            Ok((State::Uninitialized, rest))
        } else if tag == 1 {
            Ok((State::MemoryAllocated, rest))
        } else if tag == 2 {
            Ok((State::TreeBuilt, rest))
        } else if tag == 3 {
            Ok((State::Solved, rest))
        } else {
            Err(FaultKind::UnknownVariant)
        },
    }
}

/// A stage written in front of `rest` is read back, leaving `rest`.
pub proof fn lemma_parse_state(s: State, rest: Seq<u8>)
    ensures
        parse_state(state_wire(s) + rest) == Ok::<(State, Seq<u8>), FaultKind>((s, rest)),
{
    lemma_parse_u32(s.rank(), rest);
}

/// Whatever `parse_state` reads a stage from starts with the layout of that
/// stage.
pub proof fn lemma_parsed_state(s: Seq<u8>)
    ensures
        parse_state(s) matches Ok((v, rest)) ==> s == state_wire(v) + rest,
{
    lemma_parsed_u32(s);
}

} // verus!
