//! Bringing a decoded instance back to life.
//!
//! The stream never holds the tree or anything derived from it. After an
//! instance has been decoded, the tree builder and the solver have to redo
//! a fixed sequence of steps. They are not part of this crate: it only
//! decides which step comes next, and gives up when a step is refused.

use crate::error::{DecodeFailure, FailureKind, FaultKind, StreamFault};
use crate::game::{GameModel, PostFlopGame};
use crate::state::State;
use vstd::prelude::*;

verus! {

/// One thing the tree builder or the solver has to do.
#[derive(Clone, Copy, Debug, PartialEq, Eq, Structural, Hash)]
pub enum RebuildStep {
    /// Create the tree builder from the tree configuration.
    CreateTree,
    /// Add the line with the given index in the list of added lines.
    AddLine(usize),
    /// Remove the line with the given index in the list of removed lines.
    RemoveLine(usize),
    /// Take the finished tree out of the builder.
    EjectTree,
    /// Set up the hands.
    InitHands,
    /// Set up the fields that depend on the cards.
    InitCardFields,
    /// Set up the interpreter.
    InitInterpreter,
    /// Replay the traversal history, which restores the cursor.
    ApplyHistory,
    /// Recompute the cached normalized weights.
    CacheNormalizedWeights,
}

/// The steps that rebuild the tree: create, add every added line in order,
/// remove every removed line in order, eject.
pub open spec fn tree_steps(added: nat, removed: nat) -> Seq<RebuildStep> {
    seq![RebuildStep::CreateTree] + Seq::new(added, |i: int| RebuildStep::AddLine(i as usize))
        + Seq::new(removed, |i: int| RebuildStep::RemoveLine(i as usize))
        + seq![RebuildStep::EjectTree]
}

/// The steps that restore what is derived from the tree. They are taken
/// only from `TreeBuilt` on, and the weights are recomputed only where they
/// were cached when the instance was saved.
pub open spec fn solver_steps(state: State, cached: bool) -> Seq<RebuildStep> {
    if !state.reached(State::TreeBuilt) {
        Seq::empty()
    } else if cached {
        seq![
            RebuildStep::InitHands,
            RebuildStep::InitCardFields,
            RebuildStep::InitInterpreter,
            RebuildStep::ApplyHistory,
            RebuildStep::CacheNormalizedWeights,
        ]
    } else {
        seq![
            RebuildStep::InitHands,
            RebuildStep::InitCardFields,
            RebuildStep::InitInterpreter,
            RebuildStep::ApplyHistory,
        ]
    }
}

/// Everything that has to be done for `g`, in order.
pub open spec fn plan(g: GameModel) -> Seq<RebuildStep> {
    tree_steps(g.added_lines.len(), g.removed_lines.len()) + solver_steps(
        g.state,
        g.is_normalized_weight_cached,
    )
}

/// The step that follows the last line edit.
pub open spec fn after_edits() -> Option<RebuildStep> {
    Some(RebuildStep::EjectTree)
}

/// The first removal, or what follows the line edits where nothing is
/// removed.
pub open spec fn first_removal(g: GameModel) -> Option<RebuildStep> {
    if g.removed_lines.len() > 0 {
        Some(RebuildStep::RemoveLine(0))
    } else {
        after_edits()
    }
}

/// The step that follows `done` for `g`, where `None` for `done` means that
/// nothing has been done yet, and `None` as the result that nothing is left
/// to do.
pub open spec fn successor(g: GameModel, done: Option<RebuildStep>) -> Option<RebuildStep> {
    match done {
        None => Some(RebuildStep::CreateTree),
        Some(RebuildStep::CreateTree) => if g.added_lines.len() > 0 {
            Some(RebuildStep::AddLine(0))
        } else {
            first_removal(g)
        },
        Some(RebuildStep::AddLine(i)) => if i + 1 < g.added_lines.len() {
            Some(RebuildStep::AddLine((i + 1) as usize))
        } else {
            first_removal(g)
        },
        Some(RebuildStep::RemoveLine(i)) => if i + 1 < g.removed_lines.len() {
            Some(RebuildStep::RemoveLine((i + 1) as usize))
        } else {
            after_edits()
        },
        Some(RebuildStep::EjectTree) => if g.state.reached(State::TreeBuilt) {
            Some(RebuildStep::InitHands)
        } else {
            None
        },
        Some(RebuildStep::InitHands) => Some(RebuildStep::InitCardFields),
        Some(RebuildStep::InitCardFields) => Some(RebuildStep::InitInterpreter),
        Some(RebuildStep::InitInterpreter) => Some(RebuildStep::ApplyHistory),
        Some(RebuildStep::ApplyHistory) => if g.is_normalized_weight_cached {
            Some(RebuildStep::CacheNormalizedWeights)
        } else {
            None
        },
        Some(RebuildStep::CacheNormalizedWeights) => None,
    }
}

/// What follows after `done` was tried: the next step where it was
/// accepted, and the end of the attempt where it was refused.
pub open spec fn verdict(g: GameModel, done: Option<RebuildStep>, accepted: bool) -> Result<
    Option<RebuildStep>,
    FailureKind,
> {
    if accepted {
        Ok(successor(g, done))
    } else {
        Err(FailureKind::MalformedStream(FaultKind::EditReplay))
    }
}

impl PostFlopGame {
    /// Decides what to do after `done` was tried and was accepted or not.
    /// `None` for `done` asks for the first step, and `accepted` is then
    /// `true`. A refused step ends the attempt: the stream is malformed,
    /// and no instance is to be used.
    pub fn next_step(&self, done: Option<RebuildStep>, accepted: bool) -> (r: Result<
        Option<RebuildStep>,
        DecodeFailure,
    >)
        ensures
            match verdict(self@, done, accepted) {
                Ok(step) => r == Ok::<Option<RebuildStep>, DecodeFailure>(step),
                Err(k) => r matches Err(e) && e.kind() == k,
            },
    {
        if !accepted {
            return Err(DecodeFailure::MalformedStream(StreamFault::EditReplay));
        }
        let added = self.added_lines.len();
        let removed = self.removed_lines.len();
        let first_removal = if removed > 0 {
            Some(RebuildStep::RemoveLine(0))
        } else {
            Some(RebuildStep::EjectTree)
        };
        let step = match done {
            None => Some(RebuildStep::CreateTree),
            Some(RebuildStep::CreateTree) => if added > 0 {
                Some(RebuildStep::AddLine(0))
            } else {
                first_removal
            },
            Some(RebuildStep::AddLine(i)) => if i < added && i + 1 < added {
                Some(RebuildStep::AddLine(i + 1))
            } else {
                first_removal
            },
            Some(RebuildStep::RemoveLine(i)) => if i < removed && i + 1 < removed {
                Some(RebuildStep::RemoveLine(i + 1))
            } else {
                Some(RebuildStep::EjectTree)
            },
            Some(RebuildStep::EjectTree) => if self.state.at_least(State::TreeBuilt) {
                Some(RebuildStep::InitHands)
            } else {
                None
            },
            Some(RebuildStep::InitHands) => Some(RebuildStep::InitCardFields),
            Some(RebuildStep::InitCardFields) => Some(RebuildStep::InitInterpreter),
            Some(RebuildStep::InitInterpreter) => Some(RebuildStep::ApplyHistory),
            Some(RebuildStep::ApplyHistory) => if self.is_normalized_weight_cached {
                Some(RebuildStep::CacheNormalizedWeights)
            } else {
                None
            },
            Some(RebuildStep::CacheNormalizedWeights) => None,
        };
        Ok(step)
    }
}

/// Following `successor` from the start visits the steps of `plan`, in
/// order, and stops behind the last.
pub proof fn lemma_successor_walks_plan(g: GameModel, k: int)
    requires
        g.added_lines.len() <= usize::MAX,
        g.removed_lines.len() <= usize::MAX,
        0 <= k < plan(g).len(),
    ensures
        successor(g, None) == Some(plan(g)[0]),
        k + 1 < plan(g).len() ==> successor(g, Some(plan(g)[k])) == Some(plan(g)[k + 1]),
        k + 1 == plan(g).len() ==> successor(g, Some(plan(g)[k])) is None,
{
    let n = g.added_lines.len() as int;
    let m = g.removed_lines.len() as int;
    let t = tree_steps(n as nat, m as nat);
    let s = solver_steps(g.state, g.is_normalized_weight_cached);
    let p = plan(g);
    assert(t.len() == n + m + 2);
    assert(p[0] == RebuildStep::CreateTree);
    if 1 <= n {
        assert(p[1] == RebuildStep::AddLine(0));
    }
    if 1 <= m {
        assert(p[1 + n] == RebuildStep::RemoveLine(0));
    }
    assert(p[n + m + 1] == RebuildStep::EjectTree);
    if s.len() > 0 {
        assert(p[n + m + 2] == s[0]);
    }
    if k == 0 {
    } else if k <= n {
        assert(p[k] == RebuildStep::AddLine((k - 1) as usize));
        if k < n {
            assert(p[k + 1] == RebuildStep::AddLine(k as usize));
        }
    } else if k <= n + m {
        assert(p[k] == RebuildStep::RemoveLine((k - 1 - n) as usize));
        if k < n + m {
            assert(p[k + 1] == RebuildStep::RemoveLine((k - n) as usize));
        }
    } else if k == n + m + 1 {
    } else {
        assert(p[k] == s[k - t.len()]);
        if k + 1 < p.len() {
            assert(p[k + 1] == s[k + 1 - t.len()]);
        }
    }
}

/// From `TreeBuilt` on, the replay of the history is one of the steps.
pub proof fn lemma_plan_replays_history(g: GameModel)
    requires
        g.state.reached(State::TreeBuilt),
    ensures
        plan(g).contains(RebuildStep::ApplyHistory),
{
    let t = tree_steps(g.added_lines.len(), g.removed_lines.len());
    let s = solver_steps(g.state, g.is_normalized_weight_cached);
    assert(s[3] == RebuildStep::ApplyHistory);
    assert(plan(g)[t.len() as int + 3] == s[3]);
}

} // verus!
