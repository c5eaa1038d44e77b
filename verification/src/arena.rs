//! Where the storage arenas live, and the addressing context that a codec
//! session is given.
//!
//! An address is a position in a flat address space, counted in elements.
//! A node never owns storage: it holds addresses into an arena, and only
//! their distance from the arena's base is ever persisted.

use crate::state::State;
use vstd::prelude::*;

verus! {

/// The base addresses of the four storage arenas.
#[derive(Clone, Copy, Debug, PartialEq, Eq, Structural, Hash)]
pub struct ArenaBases {
    /// Base of the first primary arena.
    pub storage1: usize,
    /// Base of the second primary arena, laid out like the first.
    pub storage2: usize,
    /// Base of the in-position arena.
    pub storage_ip: usize,
    /// Base of the chance arena.
    pub storage_chance: usize,
}

/// A live arena as the codec sees it: where it starts and how many elements
/// it holds.
#[derive(Clone, Copy, Debug, PartialEq, Eq, Structural, Hash)]
pub struct ArenaSpan {
    /// Address of the arena's first element.
    pub base: usize,
    /// Number of elements in the arena.
    pub len: usize,
}

impl ArenaSpan {
    /// The arena ends within the address space.
    pub open spec fn fits(self) -> bool {
        self.base + self.len <= usize::MAX
    }

    /// The `extent` elements from `addr` on lie within the arena.
    pub open spec fn holds(self, addr: usize, extent: u32) -> bool {
        self.base <= addr && (addr - self.base) + extent <= self.len
    }

    /// Whether the arena ends within the address space.
    pub fn is_fitting(&self) -> (b: bool)
        ensures
            b == self.fits(),
    {
        self.len <= usize::MAX - self.base
    }

    /// Whether the `extent` elements from `addr` on lie within the arena.
    pub fn contains(&self, addr: usize, extent: u32) -> (b: bool)
        ensures
            b == self.holds(addr, extent),
    {
        if addr < self.base {
            false
        } else {
            let offset: u128 = (addr - self.base) as u128;
            offset + (extent as u128) <= self.len as u128
        }
    }
}

/// The addressing state of one encode or decode session: for each arena its
/// live span, or nothing where the arena does not exist. It is made once per
/// session, handed to every node's codec call, and never persisted.
#[derive(Clone, Copy, Debug, PartialEq, Eq, Structural, Hash)]
pub struct RebaseContext {
    /// The first primary arena.
    pub storage1: Option<ArenaSpan>,
    /// The second primary arena.
    pub storage2: Option<ArenaSpan>,
    /// The in-position arena.
    pub storage_ip: Option<ArenaSpan>,
    /// The chance arena.
    pub storage_chance: Option<ArenaSpan>,
}

impl RebaseContext {
    /// Every arena present ends within the address space, and the two
    /// primary arenas, where both are present, have the same length.
    pub open spec fn wf(self) -> bool {
        &&& self.storage1 matches Some(s) ==> s.fits()
        &&& self.storage2 matches Some(s) ==> s.fits()
        &&& self.storage_ip matches Some(s) ==> s.fits()
        &&& self.storage_chance matches Some(s) ==> s.fits()
        &&& (self.storage1 is Some && self.storage2 is Some) ==> self.storage1.unwrap().len
            == self.storage2.unwrap().len
    }

    /// The same arenas are present in both contexts, with the same lengths.
    /// Their bases may differ.
    pub open spec fn same_shape(self, other: RebaseContext) -> bool {
        &&& same_len(self.storage1, other.storage1)
        &&& same_len(self.storage2, other.storage2)
        &&& same_len(self.storage_ip, other.storage_ip)
        &&& same_len(self.storage_chance, other.storage_chance)
    }

    /// The context in which no arena exists.
    pub open spec fn spec_absent() -> RebaseContext {
        RebaseContext { storage1: None, storage2: None, storage_ip: None, storage_chance: None }
    }

    /// The context of an instance in the given stage whose arenas have the
    /// given spans: all four arenas from `MemoryAllocated` on, none before.
    pub open spec fn spec_establish(
        state: State,
        storage1: ArenaSpan,
        storage2: ArenaSpan,
        storage_ip: ArenaSpan,
        storage_chance: ArenaSpan,
    ) -> RebaseContext {
        if state.reached(State::MemoryAllocated) {
            RebaseContext {
                storage1: Some(storage1),
                storage2: Some(storage2),
                storage_ip: Some(storage_ip),
                storage_chance: Some(storage_chance),
            }
        } else {
            RebaseContext::spec_absent()
        }
    }

    /// The context in which no arena exists.
    pub fn absent() -> (ctx: RebaseContext)
        ensures
            ctx == RebaseContext::spec_absent(),
            ctx.wf(),
    {
        RebaseContext { storage1: None, storage2: None, storage_ip: None, storage_chance: None }
    }

    /// The context of an instance in the given stage whose arenas have the
    /// given spans.
    pub fn establish(
        state: State,
        storage1: ArenaSpan,
        storage2: ArenaSpan,
        storage_ip: ArenaSpan,
        storage_chance: ArenaSpan,
    ) -> (ctx: RebaseContext)
        ensures
            ctx == RebaseContext::spec_establish(
                state,
                storage1,
                storage2,
                storage_ip,
                storage_chance,
            ),
    {
        if state.at_least(State::MemoryAllocated) {
            RebaseContext {
                storage1: Some(storage1),
                storage2: Some(storage2),
                storage_ip: Some(storage_ip),
                storage_chance: Some(storage_chance),
            }
        } else {
            RebaseContext::absent()
        }
    }

    /// Whether the context is well formed.
    pub fn is_well_formed(&self) -> (b: bool)
        ensures
            b == self.wf(),
    {
        let fit1 = match self.storage1 {
            Some(s) => s.is_fitting(),
            None => true,
        };
        let fit2 = match self.storage2 {
            Some(s) => s.is_fitting(),
            None => true,
        };
        let fit3 = match self.storage_ip {
            Some(s) => s.is_fitting(),
            None => true,
        };
        let fit4 = match self.storage_chance {
            Some(s) => s.is_fitting(),
            None => true,
        };
        let mirrored = match (self.storage1, self.storage2) {
            (Some(a), Some(b)) => a.len == b.len,
            _ => true,
        };
        fit1 && fit2 && fit3 && fit4 && mirrored
    }
}

/// Both spans are absent, or both are present with the same length.
pub open spec fn same_len(a: Option<ArenaSpan>, b: Option<ArenaSpan>) -> bool {
    match (a, b) {
        (Some(x), Some(y)) => x.len == y.len,
        (None, None) => true,
        _ => false,
    }
}

/// The address at the same distance from `to`'s base as `addr` is from
/// `from`'s.
pub open spec fn rebase(addr: usize, from: ArenaSpan, to: ArenaSpan) -> usize {
    (to.base + (addr - from.base)) as usize
}

} // verus!
