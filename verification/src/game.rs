//! The solver instance, and the codec of the whole instance.
//!
//! The stream holds, in this order: the version tag; the tree
//! configuration; the added and the removed lines; the lifecycle state; the
//! card configuration; the combination count; the compression flag; the
//! storage element counts; the memory accounting; the four storage arenas;
//! the locking strategy; the traversal history; the weight-cache flag; the
//! node arena.

use crate::action::{
    decode_lines, encode_lines, lemma_parse_lines, lemma_parsed_lines, lines_model, lines_wire,
    parse_lines, Action,
};
use crate::arena::{ArenaBases, ArenaSpan, RebaseContext};
use crate::error::{DecodeFailure, FailureKind, FaultKind, StreamFault};
use crate::history::{
    decode_history, encode_history, history_wire, lemma_parse_history, lemma_parsed_history,
    parse_history,
};
use crate::node::{
    all_placed, decode_nodes, encode_nodes, nodes_wire, parse_nodes, rebaser, Category,
    PostFlopNode,
};
use crate::reader::Reader;
use crate::sequence::Parsed;
use crate::state::{lemma_parse_state, lemma_parsed_state, parse_state, state_wire, State};
use crate::wire::{
    bool_wire, bytes_wire, lemma_parse_bool, lemma_parse_bytes, lemma_parse_u64,
    lemma_parsed_bool, lemma_parsed_bytes, lemma_parsed_u64, parse_bool, parse_bytes, parse_u64,
    put_bool, put_bytes, put_u64, u64_wire,
};
use vstd::prelude::*;
use vstd::slice::slice_subrange;
use vstd::string::StringSliceAdditionalSpecFns;

verus! {

/// The version tag of the format. A stream with any other tag is refused.
pub const VERSION_STR: &'static str = "2023-03-01";

/// The bytes of the version tag.
pub open spec fn version_bytes() -> Seq<u8> {
    VERSION_STR.spec_bytes()
}

/// The complete state of a solver.
///
/// The instance owns the four storage arenas and the node arena. The tree
/// itself is not part of it: it is always rebuilt from the tree
/// configuration and the recorded line edits. The tree configuration, the
/// card configuration and the locking strategy belong to the solver's other
/// parts; here they are byte strings that are carried unchanged.
#[derive(Clone, Debug, PartialEq, Eq)]
pub struct PostFlopGame {
    /// The configuration the tree is built from.
    pub tree_config: Vec<u8>,
    /// The lines added to the configured tree, in the order they were added.
    pub added_lines: Vec<Vec<Action>>,
    /// The lines removed from the configured tree, in the order they were
    /// removed.
    pub removed_lines: Vec<Vec<Action>>,
    /// How far the instance has come.
    pub state: State,
    /// The configuration of ranges and board cards.
    pub card_config: Vec<u8>,
    /// The number of card combinations.
    pub num_combinations: u64,
    /// Whether stored values are compressed.
    pub is_compression_enabled: bool,
    /// How many elements action nodes store in all.
    pub num_storage_actions: u64,
    /// How many elements chance nodes store in all.
    pub num_storage_chances: u64,
    /// Memory used apart from the arenas.
    pub misc_memory_usage: u64,
    /// Where the four arenas live. This is never persisted.
    pub bases: ArenaBases,
    /// The first primary arena.
    pub storage1: Vec<u8>,
    /// The second primary arena, laid out like the first.
    pub storage2: Vec<u8>,
    /// The in-position arena.
    pub storage_ip: Vec<u8>,
    /// The chance arena.
    pub storage_chance: Vec<u8>,
    /// The locked strategies.
    pub locking_strategy: Vec<u8>,
    /// The traversal history.
    pub history: Vec<u64>,
    /// Whether the normalized weights were cached when the instance was
    /// saved.
    pub is_normalized_weight_cached: bool,
    /// The nodes of the tree.
    pub node_arena: Vec<PostFlopNode>,
}

impl Default for PostFlopGame {
    /// The empty, uninitialized instance, with every base at 0.
    fn default() -> (r: PostFlopGame)
        ensures
            r@ == GameModel::blank(
                ArenaBases { storage1: 0, storage2: 0, storage_ip: 0, storage_chance: 0 },
            ),
            r@.wf(),
    {
        let r = PostFlopGame {
            tree_config: Vec::new(),
            added_lines: Vec::new(),
            removed_lines: Vec::new(),
            state: State::Uninitialized,
            card_config: Vec::new(),
            num_combinations: 0,
            is_compression_enabled: false,
            num_storage_actions: 0,
            num_storage_chances: 0,
            misc_memory_usage: 0,
            bases: ArenaBases { storage1: 0, storage2: 0, storage_ip: 0, storage_chance: 0 },
            storage1: Vec::new(),
            storage2: Vec::new(),
            storage_ip: Vec::new(),
            storage_chance: Vec::new(),
            locking_strategy: Vec::new(),
            history: Vec::new(),
            is_normalized_weight_cached: false,
            node_arena: Vec::new(),
        };
        assert(lines_model(r.added_lines@) =~= Seq::<Seq<Action>>::empty());
        assert(lines_model(r.removed_lines@) =~= Seq::<Seq<Action>>::empty());
        r
    }
}

/// A solver instance as a mathematical value: the fields of
/// [`PostFlopGame`], with sequences in place of vectors.
pub struct GameModel {
    /// The configuration the tree is built from.
    pub tree_config: Seq<u8>,
    /// The lines added to the configured tree.
    pub added_lines: Seq<Seq<Action>>,
    /// The lines removed from the configured tree.
    pub removed_lines: Seq<Seq<Action>>,
    /// How far the instance has come.
    pub state: State,
    /// The configuration of ranges and board cards.
    pub card_config: Seq<u8>,
    /// The number of card combinations.
    pub num_combinations: u64,
    /// Whether stored values are compressed.
    pub is_compression_enabled: bool,
    /// How many elements action nodes store in all.
    pub num_storage_actions: u64,
    /// How many elements chance nodes store in all.
    pub num_storage_chances: u64,
    /// Memory used apart from the arenas.
    pub misc_memory_usage: u64,
    /// Where the four arenas live.
    pub bases: ArenaBases,
    /// The first primary arena.
    pub storage1: Seq<u8>,
    /// The second primary arena.
    pub storage2: Seq<u8>,
    /// The in-position arena.
    pub storage_ip: Seq<u8>,
    /// The chance arena.
    pub storage_chance: Seq<u8>,
    /// The locked strategies.
    pub locking_strategy: Seq<u8>,
    /// The traversal history.
    pub history: Seq<u64>,
    /// Whether the normalized weights were cached.
    pub is_normalized_weight_cached: bool,
    /// The nodes of the tree.
    pub node_arena: Seq<PostFlopNode>,
}

impl View for PostFlopGame {
    type V = GameModel;

    open spec fn view(&self) -> GameModel {
        GameModel {
            tree_config: self.tree_config@,
            added_lines: lines_model(self.added_lines@),
            removed_lines: lines_model(self.removed_lines@),
            state: self.state,
            card_config: self.card_config@,
            num_combinations: self.num_combinations,
            is_compression_enabled: self.is_compression_enabled,
            num_storage_actions: self.num_storage_actions,
            num_storage_chances: self.num_storage_chances,
            misc_memory_usage: self.misc_memory_usage,
            bases: self.bases,
            storage1: self.storage1@,
            storage2: self.storage2@,
            storage_ip: self.storage_ip@,
            storage_chance: self.storage_chance@,
            locking_strategy: self.locking_strategy@,
            history: self.history@,
            is_normalized_weight_cached: self.is_normalized_weight_cached,
            node_arena: self.node_arena@,
        }
    }
}

/// The `extent` elements of `cells` from `offset` on.
pub open spec fn window(cells: Seq<u8>, offset: int, extent: int) -> Seq<u8> {
    cells.subrange(offset, offset + extent)
}

/// Two node arenas have the same length and, node by node, the same scalar
/// fields.
pub open spec fn same_scalars(a: Seq<PostFlopNode>, b: Seq<PostFlopNode>) -> bool {
    &&& a.len() == b.len()
    &&& forall|i: int| 0 <= i < a.len() ==> (#[trigger] a[i]).scalars() == b[i].scalars()
}

/// Every storage reference that node `i` holds in `g` it holds in `d` too,
/// and there it addresses elements with the same values.
pub open spec fn same_stored_at(g: GameModel, d: GameModel, i: int) -> bool {
    &&& g.node_arena[i].storage1 is Some ==> d.node_arena[i].storage1 is Some && d.stored1(i)
        == g.stored1(i)
    &&& g.node_arena[i].storage2 is Some ==> d.node_arena[i].storage2 is Some && d.stored2(i)
        == g.stored2(i)
    &&& g.node_arena[i].storage3 is Some ==> d.node_arena[i].storage3 is Some && d.stored3(i)
        == g.stored3(i)
}

/// Every storage reference of `g` is held in `d` too, and there it
/// addresses elements with the same values.
pub open spec fn same_stored(g: GameModel, d: GameModel) -> bool {
    forall|i: int| 0 <= i < g.node_arena.len() ==> #[trigger] same_stored_at(g, d, i)
}

/// The tree configuration, both lists of lines and every line have a
/// length that the machine can hold.
pub open spec fn lines_bounded(
    tree_config: Seq<u8>,
    added: Seq<Seq<Action>>,
    removed: Seq<Seq<Action>>,
) -> bool {
    &&& tree_config.len() <= usize::MAX
    &&& added.len() <= usize::MAX
    &&& forall|i: int| 0 <= i < added.len() ==> (#[trigger] added[i]).len() <= usize::MAX
    &&& removed.len() <= usize::MAX
    &&& forall|i: int| 0 <= i < removed.len() ==> (#[trigger] removed[i]).len() <= usize::MAX
}

/// The span of an arena of the given contents at the given base.
pub open spec fn span_of(base: usize, cells: Seq<u8>) -> ArenaSpan {
    ArenaSpan { base, len: cells.len() as usize }
}

impl GameModel {
    /// The instance before anything is known of it: empty, uninitialized,
    /// with its arenas at the given bases.
    pub open spec fn blank(bases: ArenaBases) -> GameModel {
        GameModel {
            tree_config: Seq::empty(),
            added_lines: Seq::empty(),
            removed_lines: Seq::empty(),
            state: State::Uninitialized,
            card_config: Seq::empty(),
            num_combinations: 0,
            is_compression_enabled: false,
            num_storage_actions: 0,
            num_storage_chances: 0,
            misc_memory_usage: 0,
            bases,
            storage1: Seq::empty(),
            storage2: Seq::empty(),
            storage_ip: Seq::empty(),
            storage_chance: Seq::empty(),
            locking_strategy: Seq::empty(),
            history: Seq::empty(),
            is_normalized_weight_cached: false,
            node_arena: Seq::empty(),
        }
    }

    /// Every sequence of the instance has a length that the machine can
    /// hold.
    pub open spec fn bounded(self) -> bool {
        &&& lines_bounded(self.tree_config, self.added_lines, self.removed_lines)
        &&& self.card_config.len() <= usize::MAX
        &&& self.storage1.len() <= usize::MAX
        &&& self.storage2.len() <= usize::MAX
        &&& self.storage_ip.len() <= usize::MAX
        &&& self.storage_chance.len() <= usize::MAX
        &&& self.locking_strategy.len() <= usize::MAX
        &&& self.history.len() <= usize::MAX
        &&& self.node_arena.len() <= usize::MAX
    }

    /// The addressing context of the instance: its four arenas where they
    /// live now, from `MemoryAllocated` on; nothing before.
    pub open spec fn context(self) -> RebaseContext {
        RebaseContext::spec_establish(
            self.state,
            span_of(self.bases.storage1, self.storage1),
            span_of(self.bases.storage2, self.storage2),
            span_of(self.bases.storage_ip, self.storage_ip),
            span_of(self.bases.storage_chance, self.storage_chance),
        )
    }

    /// The instance with its arenas at other bases, every node still
    /// holding the references it held.
    pub open spec fn at(self, to: ArenaBases) -> GameModel {
        GameModel { bases: to, ..self }
    }

    /// The arenas of the instance would end within the address space if
    /// they lived at `to`.
    pub open spec fn fits_at(self, to: ArenaBases) -> bool {
        self.at(to).context().wf()
    }

    /// The instance moved to other bases: every storage reference of every
    /// node lies as far from its new base as it did from the old one.
    pub open spec fn moved(self, to: ArenaBases) -> GameModel {
        GameModel {
            bases: to,
            node_arena: self.node_arena.map_values(rebaser(self.context(), self.at(to).context())),
            ..self
        }
    }

    /// The elements that the first storage reference of node `i`
    /// addresses: in the chance arena for a chance node, in the first
    /// primary arena otherwise.
    pub open spec fn stored1(self, i: int) -> Seq<u8> {
        let n = self.node_arena[i];
        match n.category {
            Category::Chance => window(
                self.storage_chance,
                n.storage1.unwrap() - self.bases.storage_chance,
                n.num_elements_chance as int,
            ),
            _ => window(
                self.storage1,
                n.storage1.unwrap() - self.bases.storage1,
                n.num_elements as int,
            ),
        }
    }

    /// The elements that the second storage reference of node `i`
    /// addresses, in the second primary arena.
    pub open spec fn stored2(self, i: int) -> Seq<u8> {
        let n = self.node_arena[i];
        window(self.storage2, n.storage2.unwrap() - self.bases.storage2, n.num_elements as int)
    }

    /// The elements that the third storage reference of node `i`
    /// addresses, in the in-position arena.
    pub open spec fn stored3(self, i: int) -> Seq<u8> {
        let n = self.node_arena[i];
        window(
            self.storage_ip,
            n.storage3.unwrap() - self.bases.storage_ip,
            n.num_elements_ip as int,
        )
    }

    /// The instance with another node arena.
    pub open spec fn with_nodes(self, nodes: Seq<PostFlopNode>) -> GameModel {
        GameModel { node_arena: nodes, ..self }
    }

    /// The instance is well formed: its sequences are bounded; from
    /// `MemoryAllocated` on its arenas end within the address space and the
    /// two primary arenas have the same length; and every node's storage
    /// references are what its category and the arenas call for. Below
    /// `MemoryAllocated` this means that no node holds a storage reference.
    pub open spec fn wf(self) -> bool {
        &&& self.bounded()
        &&& self.context().wf()
        &&& all_placed(self.node_arena, self.context())
    }
}

// ---------------------------------------------------------------------------
// Layout
// ---------------------------------------------------------------------------

/// Layout of what the tree is rebuilt from: the tree configuration, then
/// the added and the removed lines.
pub open spec fn tree_wire(g: GameModel) -> Seq<u8> {
    bytes_wire(g.tree_config) + lines_wire(g.added_lines) + lines_wire(g.removed_lines)
}

/// Layout of the scalar fields of the instance.
pub open spec fn settings_wire(g: GameModel) -> Seq<u8> {
    state_wire(g.state) + bytes_wire(g.card_config) + u64_wire(g.num_combinations) + bool_wire(
        g.is_compression_enabled,
    ) + u64_wire(g.num_storage_actions) + u64_wire(g.num_storage_chances) + u64_wire(
        g.misc_memory_usage,
    )
}

/// Layout of the four storage arenas, each in full.
pub open spec fn arenas_wire(g: GameModel) -> Seq<u8> {
    bytes_wire(g.storage1) + bytes_wire(g.storage2) + bytes_wire(g.storage_ip) + bytes_wire(
        g.storage_chance,
    )
}

/// Layout of the locking strategy, the traversal history and the
/// weight-cache flag.
pub open spec fn tail_wire(g: GameModel) -> Seq<u8> {
    bytes_wire(g.locking_strategy) + history_wire(g.history) + bool_wire(
        g.is_normalized_weight_cached,
    )
}

/// Layout of every field in front of the node arena.
pub open spec fn fields_wire(g: GameModel) -> Seq<u8> {
    tree_wire(g) + settings_wire(g) + arenas_wire(g) + tail_wire(g)
}

/// Layout of everything after the version tag.
pub open spec fn body_wire(g: GameModel) -> Seq<u8> {
    fields_wire(g) + nodes_wire(g.node_arena, g.context())
}

/// Layout of an instance.
pub open spec fn game_wire(g: GameModel) -> Seq<u8> {
    bytes_wire(version_bytes()) + body_wire(g)
}

// ---------------------------------------------------------------------------
// Reading
// ---------------------------------------------------------------------------

/// Reads what the tree is rebuilt from into `g`.
pub open spec fn parse_tree(g: GameModel, s: Seq<u8>) -> Parsed<GameModel> {
    match parse_bytes(s) {
        None => Err(FaultKind::Primitive),
        Some((tree_config, s1)) => match parse_lines(s1) {
            Err(k) => Err(k),
            Ok((added_lines, s2)) => match parse_lines(s2) {
                Err(k) => Err(k),
                Ok((removed_lines, s3)) => Ok(
                    (GameModel { tree_config, added_lines, removed_lines, ..g }, s3),
                ),
            },
        },
    }
}

/// Reads the scalar fields of the instance into `g`.
pub open spec fn parse_settings(g: GameModel, s: Seq<u8>) -> Parsed<GameModel> {
    match parse_state(s) {
        Err(k) => Err(k),
        Ok((state, s1)) => match parse_bytes(s1) {
            None => Err(FaultKind::Primitive),
            Some((card_config, s2)) => match parse_u64(s2) {
                None => Err(FaultKind::Primitive),
                Some((num_combinations, s3)) => match parse_bool(s3) {
                    None => Err(FaultKind::Primitive),
                    Some((is_compression_enabled, s4)) => match parse_u64(s4) {
                        None => Err(FaultKind::Primitive),
                        Some((num_storage_actions, s5)) => match parse_u64(s5) {
                            None => Err(FaultKind::Primitive),
                            Some((num_storage_chances, s6)) => match parse_u64(s6) {
                                None => Err(FaultKind::Primitive),
                                Some((misc_memory_usage, s7)) => Ok(
                                    (
                                        GameModel {
                                            state,
                                            card_config,
                                            num_combinations,
                                            is_compression_enabled,
                                            num_storage_actions,
                                            num_storage_chances,
                                            misc_memory_usage,
                                            ..g
                                        },
                                        s7,
                                    ),
                                ),
                            },
                        },
                    },
                },
            },
        },
    }
}

/// Reads the four storage arenas into `g`.
pub open spec fn parse_arenas(g: GameModel, s: Seq<u8>) -> Parsed<GameModel> {
    match parse_bytes(s) {
        None => Err(FaultKind::Primitive),
        Some((storage1, s1)) => match parse_bytes(s1) {
            None => Err(FaultKind::Primitive),
            Some((storage2, s2)) => match parse_bytes(s2) {
                None => Err(FaultKind::Primitive),
                Some((storage_ip, s3)) => match parse_bytes(s3) {
                    None => Err(FaultKind::Primitive),
                    Some((storage_chance, s4)) => Ok(
                        (GameModel { storage1, storage2, storage_ip, storage_chance, ..g }, s4),
                    ),
                },
            },
        },
    }
}

/// Reads the locking strategy, the traversal history and the weight-cache
/// flag into `g`.
pub open spec fn parse_tail(g: GameModel, s: Seq<u8>) -> Parsed<GameModel> {
    match parse_bytes(s) {
        None => Err(FaultKind::Primitive),
        Some((locking_strategy, s1)) => match parse_history(s1) {
            Err(k) => Err(k),
            Ok((history, s2)) => match parse_bool(s2) {
                None => Err(FaultKind::Primitive),
                Some((is_normalized_weight_cached, s3)) => Ok(
                    (GameModel { locking_strategy, history, is_normalized_weight_cached, ..g }, s3),
                ),
            },
        },
    }
}

/// Reads the node arena into `g`, addressing every node on the arenas that
/// `g` already holds. Arenas that do not fit behind their bases, or primary
/// arenas of different lengths, are refused before any node is read.
pub open spec fn parse_arena_of_nodes(g: GameModel, s: Seq<u8>) -> Parsed<GameModel> {
    if !g.context().wf() {
        Err(FaultKind::ArenaMismatch)
    } else {
        match parse_nodes(s, g.context()) {
            Err(k) => Err(k),
            Ok((node_arena, rest)) => Ok((GameModel { node_arena, ..g }, rest)),
        }
    }
}

/// Reads every field in front of the node arena, for an instance whose
/// arenas will live at `bases`.
pub open spec fn parse_fields(s: Seq<u8>, bases: ArenaBases) -> Parsed<GameModel> {
    match parse_tree(GameModel::blank(bases), s) {
        Err(k) => Err(k),
        Ok((g1, s1)) => match parse_settings(g1, s1) {
            Err(k) => Err(k),
            Ok((g2, s2)) => match parse_arenas(g2, s2) {
                Err(k) => Err(k),
                Ok((g3, s3)) => parse_tail(g3, s3),
            },
        },
    }
}

/// Reads everything after the version tag, for an instance whose arenas
/// will live at `bases`.
pub open spec fn parse_body(s: Seq<u8>, bases: ArenaBases) -> Parsed<GameModel> {
    match parse_fields(s, bases) {
        Err(k) => Err(k),
        Ok((g, rest)) => parse_arena_of_nodes(g, rest),
    }
}

/// Reads an instance from the front of `s`, for arenas that will live at
/// `bases`. The version tag is held against the current one before anything
/// after it is looked at.
pub open spec fn parse_game(s: Seq<u8>, bases: ArenaBases) -> Result<
    (GameModel, Seq<u8>),
    FailureKind,
> {
    match parse_bytes(s) {
        None => Err(FailureKind::MalformedStream(FaultKind::Primitive)),
        Some((tag, s1)) => if tag != version_bytes() {
            Err(FailureKind::FormatVersionMismatch)
        } else {
            match parse_body(s1, bases) {
                Err(k) => Err(FailureKind::MalformedStream(k)),
                Ok((g, rest)) => Ok((g, rest)),
            }
        },
    }
}

// ---------------------------------------------------------------------------
// The codec
// ---------------------------------------------------------------------------

/// Whether two byte strings are the same.
fn same_bytes(a: &[u8], b: &[u8]) -> (r: bool)
    ensures
        r == (a@ == b@),
{
    if a.len() != b.len() {
        return false;
    }
    let mut i: usize = 0;
    while i < a.len()
        invariant
            a@.len() == b@.len(),
            i <= a@.len(),
            forall|j: int| 0 <= j < i ==> a@[j] == b@[j],
        decreases a@.len() - i,
    {
        if a[i] != b[i] {
            return false;
        }
        i = i + 1;
    }
    assert(a@ =~= b@);
    true
}

impl PostFlopGame {
    /// The addressing context of the instance: its four arenas where they
    /// live now, from `MemoryAllocated` on; nothing before.
    pub fn context(&self) -> (ctx: RebaseContext)
        ensures
            ctx == self@.context(),
    {
        RebaseContext::establish(
            self.state,
            ArenaSpan { base: self.bases.storage1, len: self.storage1.len() },
            ArenaSpan { base: self.bases.storage2, len: self.storage2.len() },
            ArenaSpan { base: self.bases.storage_ip, len: self.storage_ip.len() },
            ArenaSpan { base: self.bases.storage_chance, len: self.storage_chance.len() },
        )
    }

    /// The elements that the first storage reference of node `i`
    /// addresses, or nothing where the node holds no such reference.
    pub fn storage1_of(&self, i: usize) -> (r: Option<&[u8]>)
        requires
            self@.wf(),
            i < self.node_arena@.len(),
        ensures
            r is Some == self.node_arena@[i as int].storage1 is Some,
            r matches Some(s) ==> s@ == self@.stored1(i as int),
    {
        let ctx = self.context();
        let node = &self.node_arena[i];
        assert(node.placed_in(ctx));
        match (node.storage1, node.category) {
            (Some(a), Category::Chance) => {
                let off = a - self.bases.storage_chance;
                let end = off + node.num_elements_chance as usize;
                Some(slice_subrange(self.storage_chance.as_slice(), off, end))
            },
            (Some(a), Category::Action(_)) => {
                let off = a - self.bases.storage1;
                let end = off + node.num_elements as usize;
                Some(slice_subrange(self.storage1.as_slice(), off, end))
            },
            _ => None,
        }
    }

    /// The elements that the second storage reference of node `i`
    /// addresses, or nothing where the node holds no such reference.
    pub fn storage2_of(&self, i: usize) -> (r: Option<&[u8]>)
        requires
            self@.wf(),
            i < self.node_arena@.len(),
        ensures
            r is Some == self.node_arena@[i as int].storage2 is Some,
            r matches Some(s) ==> s@ == self@.stored2(i as int),
    {
        let ctx = self.context();
        let node = &self.node_arena[i];
        assert(node.placed_in(ctx));
        match (node.storage2, node.category) {
            (Some(b), Category::Action(_)) => {
                let off = b - self.bases.storage2;
                let end = off + node.num_elements as usize;
                Some(slice_subrange(self.storage2.as_slice(), off, end))
            },
            _ => None,
        }
    }

    /// The elements that the third storage reference of node `i`
    /// addresses, or nothing where the node holds no such reference.
    pub fn storage3_of(&self, i: usize) -> (r: Option<&[u8]>)
        requires
            self@.wf(),
            i < self.node_arena@.len(),
        ensures
            r is Some == self.node_arena@[i as int].storage3 is Some,
            r matches Some(s) ==> s@ == self@.stored3(i as int),
    {
        let ctx = self.context();
        let node = &self.node_arena[i];
        assert(node.placed_in(ctx));
        match (node.storage3, node.category) {
            (Some(c), Category::Action(_)) => {
                let off = c - self.bases.storage_ip;
                let end = off + node.num_elements_ip as usize;
                Some(slice_subrange(self.storage_ip.as_slice(), off, end))
            },
            _ => None,
        }
    }

    /// The lengths of an instance in memory are bounded.
    proof fn lemma_bounded(&self)
        ensures
            self@.bounded(),
    {
        let g = self@;
        assert forall|i: int| 0 <= i < g.added_lines.len() implies (#[trigger] g.added_lines[i]).len()
            <= usize::MAX by {
            assert(g.added_lines[i] == self.added_lines@[i]@);
            assert(self.added_lines@[i].len() <= usize::MAX);
        }
        assert forall|i: int|
            0 <= i < g.removed_lines.len() implies (#[trigger] g.removed_lines[i]).len()
            <= usize::MAX by {
            assert(g.removed_lines[i] == self.removed_lines@[i]@);
            assert(self.removed_lines@[i].len() <= usize::MAX);
        }
        assert(self.tree_config.len() <= usize::MAX);
        assert(self.added_lines.len() <= usize::MAX);
        assert(self.removed_lines.len() <= usize::MAX);
        assert(self.card_config.len() <= usize::MAX);
        assert(self.storage1.len() <= usize::MAX);
        assert(self.storage2.len() <= usize::MAX);
        assert(self.storage_ip.len() <= usize::MAX);
        assert(self.storage_chance.len() <= usize::MAX);
        assert(self.locking_strategy.len() <= usize::MAX);
        assert(self.history.len() <= usize::MAX);
        assert(self.node_arena.len() <= usize::MAX);
    }

    /// Whether the instance is well formed.
    pub fn is_well_formed(&self) -> (b: bool)
        ensures
            b == self@.wf(),
    {
        proof {
            self.lemma_bounded();
        }
        let ctx = self.context();
        if !ctx.is_well_formed() {
            return false;
        }
        let n = self.node_arena.len();
        let mut i: usize = 0;
        while i < n
            invariant
                n == self.node_arena@.len(),
                i <= n,
                ctx == self@.context(),
                forall|j: int| 0 <= j < i ==> (#[trigger] self.node_arena@[j]).placed_in(ctx),
            decreases n - i,
        {
            if !self.node_arena[i].is_placed_in(&ctx) {
                assert(!(self@.node_arena[i as int]).placed_in(self@.context()));
                return false;
            }
            i = i + 1;
        }
        true
    }

    /// The nodes of the instance, each moved from `from` to `to`.
    fn moved_nodes(&self, from: &RebaseContext, to: &RebaseContext) -> (nodes: Vec<PostFlopNode>)
        requires
            all_placed(self.node_arena@, *from),
            to.wf(),
            to.same_shape(*from),
        ensures
            nodes@ == self.node_arena@.map_values(rebaser(*from, *to)),
    {
        let n = self.node_arena.len();
        let mut nodes: Vec<PostFlopNode> = Vec::new();
        let mut i: usize = 0;
        while i < n
            invariant
                n == self.node_arena@.len(),
                i <= n,
                all_placed(self.node_arena@, *from),
                to.wf(),
                to.same_shape(*from),
                nodes@ == self.node_arena@.take(i as int).map_values(rebaser(*from, *to)),
            decreases n - i,
        {
            let ghost before = nodes@;
            assert(self.node_arena@[i as int].placed_in(*from));
            nodes.push(self.node_arena[i].rebase(from, to));
            assert(nodes@ =~= self.node_arena@.take(i + 1).map_values(rebaser(*from, *to))) by {
                assert(self.node_arena@.take(i + 1) =~= self.node_arena@.take(i as int).push(
                    self.node_arena@[i as int],
                ));
            }
            i = i + 1;
        }
        assert(self.node_arena@.take(n as int) =~= self.node_arena@);
        nodes
    }

    /// Moves the arenas of a well-formed instance to other bases where
    /// they fit: every storage reference of every node then lies as far
    /// from its new base as it did from the old one. An instance that is
    /// not well formed, or whose arenas would not fit, is left as it is.
    pub fn move_to(&mut self, to: ArenaBases) -> (moved: bool)
        ensures
            moved == (old(self)@.wf() && old(self)@.fits_at(to)),
            moved ==> final(self)@ == old(self)@.moved(to),
            !moved ==> final(self)@ == old(self)@,
    {
        if !self.is_well_formed() {
            return false;
        }
        let from = self.context();
        let target = RebaseContext::establish(
            self.state,
            ArenaSpan { base: to.storage1, len: self.storage1.len() },
            ArenaSpan { base: to.storage2, len: self.storage2.len() },
            ArenaSpan { base: to.storage_ip, len: self.storage_ip.len() },
            ArenaSpan { base: to.storage_chance, len: self.storage_chance.len() },
        );
        assert(target == self@.at(to).context());
        if !target.is_well_formed() {
            return false;
        }
        let nodes = self.moved_nodes(&from, &target);
        self.node_arena = nodes;
        self.bases = to;
        true
    }

    /// Appends what the tree is rebuilt from.
    fn encode_tree(&self, out: &mut Vec<u8>)
        ensures
            final(out)@ == old(out)@ + tree_wire(self@),
    {
        let ghost start = out@;
        put_bytes(out, self.tree_config.as_slice());
        encode_lines(&self.added_lines, out);
        encode_lines(&self.removed_lines, out);
        assert(out@ =~= start + tree_wire(self@));
    }

    /// Appends the scalar fields of the instance.
    fn encode_settings(&self, out: &mut Vec<u8>)
        ensures
            final(out)@ == old(out)@ + settings_wire(self@),
    {
        let ghost start = out@;
        self.state.encode(out);
        put_bytes(out, self.card_config.as_slice());
        put_u64(out, self.num_combinations);
        put_bool(out, self.is_compression_enabled);
        put_u64(out, self.num_storage_actions);
        put_u64(out, self.num_storage_chances);
        put_u64(out, self.misc_memory_usage);
        assert(out@ =~= start + settings_wire(self@));
    }

    /// Appends the four storage arenas, each in full.
    fn encode_arenas(&self, out: &mut Vec<u8>)
        ensures
            final(out)@ == old(out)@ + arenas_wire(self@),
    {
        let ghost start = out@;
        put_bytes(out, self.storage1.as_slice());
        put_bytes(out, self.storage2.as_slice());
        put_bytes(out, self.storage_ip.as_slice());
        put_bytes(out, self.storage_chance.as_slice());
        assert(out@ =~= start + arenas_wire(self@));
    }

    /// Appends the locking strategy, the traversal history and the
    /// weight-cache flag.
    fn encode_tail(&self, out: &mut Vec<u8>)
        ensures
            final(out)@ == old(out)@ + tail_wire(self@),
    {
        let ghost start = out@;
        put_bytes(out, self.locking_strategy.as_slice());
        encode_history(&self.history, out);
        put_bool(out, self.is_normalized_weight_cached);
        assert(out@ =~= start + tail_wire(self@));
    }

    /// Appends the instance to `out`. Of a node's storage only the distance
    /// from the arena's base is written, so the stream does not depend on
    /// where the arenas live.
    pub fn encode(&self, out: &mut Vec<u8>)
        requires
            self@.wf(),
        ensures
            final(out)@ == old(out)@ + game_wire(self@),
    {
        let ghost start = out@;
        let ghost g = self@;
        let ctx = self.context();
        put_bytes(out, VERSION_STR.as_bytes());
        self.encode_tree(out);
        self.encode_settings(out);
        self.encode_arenas(out);
        self.encode_tail(out);
        encode_nodes(&self.node_arena, &ctx, out);
        assert(out@ =~= start + (bytes_wire(version_bytes()) + (tree_wire(g) + settings_wire(g)
            + arenas_wire(g) + tail_wire(g) + nodes_wire(g.node_arena, g.context()))));
        assert(out@ =~= start + game_wire(g));
    }

    /// The instance as a stream of its own.
    pub fn to_bytes(&self) -> (out: Vec<u8>)
        requires
            self@.wf(),
        ensures
            out@ == game_wire(self@),
    {
        let mut out: Vec<u8> = Vec::new();
        self.encode(&mut out);
        assert(out@ =~= game_wire(self@));
        out
    }

    /// The instance as a stream of its own, or nothing where the instance
    /// is not well formed.
    pub fn checked_to_bytes(&self) -> (r: Option<Vec<u8>>)
        ensures
            r is Some == self@.wf(),
            r matches Some(out) ==> out@ == game_wire(self@),
    {
        if self.is_well_formed() {
            Some(self.to_bytes())
        } else {
            None
        }
    }

    /// Reads everything after the version tag.
    fn decode_body(reader: &mut Reader, bases: ArenaBases) -> (r: Result<PostFlopGame, StreamFault>)
        ensures
            match parse_body(old(reader).remaining(), bases) {
                Ok((g, rest)) => {
                    &&& r matches Ok(v)
                    &&& v@ == g
                    &&& final(reader).remaining() == rest
                    &&& g.wf()
                },
                Err(k) => r matches Err(e) && e.kind() == k,
            },
    {
        let tree_config = reader.take_bytes()?;
        let added_lines = decode_lines(reader)?;
        let removed_lines = decode_lines(reader)?;
        let state = State::decode(reader)?;
        let card_config = reader.take_bytes()?;
        let num_combinations = reader.take_u64()?;
        let is_compression_enabled = reader.take_bool()?;
        let num_storage_actions = reader.take_u64()?;
        let num_storage_chances = reader.take_u64()?;
        let misc_memory_usage = reader.take_u64()?;
        let storage1 = reader.take_bytes()?;
        let storage2 = reader.take_bytes()?;
        let storage_ip = reader.take_bytes()?;
        let storage_chance = reader.take_bytes()?;
        let locking_strategy = reader.take_bytes()?;
        let history = decode_history(reader)?;
        let is_normalized_weight_cached = reader.take_bool()?;
        let ctx = RebaseContext::establish(
            state,
            ArenaSpan { base: bases.storage1, len: storage1.len() },
            ArenaSpan { base: bases.storage2, len: storage2.len() },
            ArenaSpan { base: bases.storage_ip, len: storage_ip.len() },
            ArenaSpan { base: bases.storage_chance, len: storage_chance.len() },
        );
        if !ctx.is_well_formed() {
            return Err(StreamFault::ArenaMismatch);
        }
        let node_arena = decode_nodes(reader, &ctx)?;
        let game = PostFlopGame {
            tree_config,
            added_lines,
            removed_lines,
            state,
            card_config,
            num_combinations,
            is_compression_enabled,
            num_storage_actions,
            num_storage_chances,
            misc_memory_usage,
            bases,
            storage1,
            storage2,
            storage_ip,
            storage_chance,
            locking_strategy,
            history,
            is_normalized_weight_cached,
            node_arena,
        };
        proof {
            game.lemma_bounded();
        }
        Ok(game)
    }

    /// Reads an instance whose arenas will live at `bases`.
    ///
    /// The version tag is checked first: a stream with another tag is
    /// refused as `FormatVersionMismatch` whatever follows the tag. Every
    /// other defect refuses the stream as `MalformedStream`. An instance
    /// that comes out is well formed: every storage reference is rebuilt on
    /// the given bases and lies within its arena.
    pub fn decode(reader: &mut Reader, bases: ArenaBases) -> (r: Result<
        PostFlopGame,
        DecodeFailure,
    >)
        ensures
            match parse_game(old(reader).remaining(), bases) {
                Ok((g, rest)) => {
                    &&& r matches Ok(v)
                    &&& v@ == g
                    &&& final(reader).remaining() == rest
                    &&& g.wf()
                },
                Err(k) => r matches Err(e) && e.kind() == k,
            },
    {
        let tag = match reader.take_bytes() {
            Ok(tag) => tag,
            Err(e) => {
                return Err(DecodeFailure::MalformedStream(e));
            },
        };
        if !same_bytes(tag.as_slice(), VERSION_STR.as_bytes()) {
            return Err(DecodeFailure::FormatVersionMismatch);
        }
        match Self::decode_body(reader, bases) {
            Ok(game) => Ok(game),
            Err(e) => Err(DecodeFailure::MalformedStream(e)),
        }
    }

    /// Reads an instance from the front of `bytes`, for arenas that will
    /// live at `bases`. Bytes after the instance are ignored.
    pub fn from_bytes(bytes: &[u8], bases: ArenaBases) -> (r: Result<PostFlopGame, DecodeFailure>)
        ensures
            match parse_game(bytes@, bases) {
                Ok((g, rest)) => r matches Ok(v) && v@ == g && g.wf(),
                Err(k) => r matches Err(e) && e.kind() == k,
            },
    {
        let mut reader = Reader::new(bytes);
        Self::decode(&mut reader, bases)
    }
}

// ---------------------------------------------------------------------------
// Reading inverts writing
// ---------------------------------------------------------------------------

/// The version tag is ten bytes long.
pub proof fn lemma_version_bytes()
    ensures
        version_bytes().len() == 10,
{
    reveal_strlit("2023-03-01");
    vstd::string::is_ascii_spec_bytes(VERSION_STR);
    assert(vstd::string::is_ascii(VERSION_STR));
}

/// What the tree of `g` is rebuilt from, written in front of `rest`, is
/// read back into `m`, leaving `rest`.
pub proof fn lemma_parse_tree(m: GameModel, g: GameModel, rest: Seq<u8>)
    requires
        lines_bounded(g.tree_config, g.added_lines, g.removed_lines),
    ensures
        parse_tree(m, tree_wire(g) + rest) == Ok::<(GameModel, Seq<u8>), FaultKind>(
            (
                GameModel {
                    tree_config: g.tree_config,
                    added_lines: g.added_lines,
                    removed_lines: g.removed_lines,
                    ..m
                },
                rest,
            ),
        ),
{
    let w3 = lines_wire(g.removed_lines) + rest;
    let w2 = lines_wire(g.added_lines) + w3;
    assert(tree_wire(g) + rest =~= bytes_wire(g.tree_config) + w2);
    lemma_parse_bytes(g.tree_config, w2);
    lemma_parse_lines(g.added_lines, w3);
    lemma_parse_lines(g.removed_lines, rest);
}

/// The scalar fields of `g`, written in front of `rest`, are read back into
/// `m`, leaving `rest`.
#[verifier::rlimit(40)]
pub proof fn lemma_parse_settings(m: GameModel, g: GameModel, rest: Seq<u8>)
    requires
        g.card_config.len() <= usize::MAX,
    ensures
        parse_settings(m, settings_wire(g) + rest) == Ok::<(GameModel, Seq<u8>), FaultKind>(
            (
                GameModel {
                    state: g.state,
                    card_config: g.card_config,
                    num_combinations: g.num_combinations,
                    is_compression_enabled: g.is_compression_enabled,
                    num_storage_actions: g.num_storage_actions,
                    num_storage_chances: g.num_storage_chances,
                    misc_memory_usage: g.misc_memory_usage,
                    ..m
                },
                rest,
            ),
        ),
{
    let w7 = u64_wire(g.misc_memory_usage) + rest;
    let w6 = u64_wire(g.num_storage_chances) + w7;
    let w5 = u64_wire(g.num_storage_actions) + w6;
    let w4 = bool_wire(g.is_compression_enabled) + w5;
    let w3 = u64_wire(g.num_combinations) + w4;
    let w2 = bytes_wire(g.card_config) + w3;
    assert(settings_wire(g) + rest =~= state_wire(g.state) + w2);
    lemma_parse_state(g.state, w2);
    lemma_parse_bytes(g.card_config, w3);
    lemma_parse_u64(g.num_combinations, w4);
    lemma_parse_bool(g.is_compression_enabled, w5);
    lemma_parse_u64(g.num_storage_actions, w6);
    lemma_parse_u64(g.num_storage_chances, w7);
    lemma_parse_u64(g.misc_memory_usage, rest);
}

/// The arenas of `g`, written in front of `rest`, are read back into `m`,
/// leaving `rest`.
pub proof fn lemma_parse_arenas(m: GameModel, g: GameModel, rest: Seq<u8>)
    requires
        g.storage1.len() <= usize::MAX,
        g.storage2.len() <= usize::MAX,
        g.storage_ip.len() <= usize::MAX,
        g.storage_chance.len() <= usize::MAX,
    ensures
        parse_arenas(m, arenas_wire(g) + rest) == Ok::<(GameModel, Seq<u8>), FaultKind>(
            (
                GameModel {
                    storage1: g.storage1,
                    storage2: g.storage2,
                    storage_ip: g.storage_ip,
                    storage_chance: g.storage_chance,
                    ..m
                },
                rest,
            ),
        ),
{
    let w4 = bytes_wire(g.storage_chance) + rest;
    let w3 = bytes_wire(g.storage_ip) + w4;
    let w2 = bytes_wire(g.storage2) + w3;
    assert(arenas_wire(g) + rest =~= bytes_wire(g.storage1) + w2);
    lemma_parse_bytes(g.storage1, w2);
    lemma_parse_bytes(g.storage2, w3);
    lemma_parse_bytes(g.storage_ip, w4);
    lemma_parse_bytes(g.storage_chance, rest);
}

/// The locking strategy, history and cache flag of `g`, written in front of
/// `rest`, are read back into `m`, leaving `rest`.
pub proof fn lemma_parse_tail(m: GameModel, g: GameModel, rest: Seq<u8>)
    requires
        g.locking_strategy.len() <= usize::MAX,
        g.history.len() <= usize::MAX,
    ensures
        parse_tail(m, tail_wire(g) + rest) == Ok::<(GameModel, Seq<u8>), FaultKind>(
            (
                GameModel {
                    locking_strategy: g.locking_strategy,
                    history: g.history,
                    is_normalized_weight_cached: g.is_normalized_weight_cached,
                    ..m
                },
                rest,
            ),
        ),
{
    let w3 = bool_wire(g.is_normalized_weight_cached) + rest;
    let w2 = history_wire(g.history) + w3;
    assert(tail_wire(g) + rest =~= bytes_wire(g.locking_strategy) + w2);
    lemma_parse_bytes(g.locking_strategy, w2);
    lemma_parse_history(g.history, w3);
    lemma_parse_bool(g.is_normalized_weight_cached, rest);
}

/// Every field of `g` in front of the node arena, written in front of
/// `rest`, is read back for arenas at `to`, leaving `rest`.
#[verifier::rlimit(40)]
pub proof fn lemma_parse_fields(g: GameModel, to: ArenaBases, rest: Seq<u8>)
    requires
        g.bounded(),
    ensures
        parse_fields(fields_wire(g) + rest, to) == Ok::<(GameModel, Seq<u8>), FaultKind>(
            (g.at(to).with_nodes(Seq::empty()), rest),
        ),
{
    let w4 = tail_wire(g) + rest;
    let w3 = arenas_wire(g) + w4;
    let w2 = settings_wire(g) + w3;
    let w1 = tree_wire(g) + w2;
    assert(fields_wire(g) + rest =~= w1);
    let g0 = GameModel::blank(to);
    let g1 = GameModel {
        tree_config: g.tree_config,
        added_lines: g.added_lines,
        removed_lines: g.removed_lines,
        ..g0
    };
    let g2 = GameModel {
        state: g.state,
        card_config: g.card_config,
        num_combinations: g.num_combinations,
        is_compression_enabled: g.is_compression_enabled,
        num_storage_actions: g.num_storage_actions,
        num_storage_chances: g.num_storage_chances,
        misc_memory_usage: g.misc_memory_usage,
        ..g1
    };
    let g3 = GameModel {
        storage1: g.storage1,
        storage2: g.storage2,
        storage_ip: g.storage_ip,
        storage_chance: g.storage_chance,
        ..g2
    };
    let g4 = GameModel {
        locking_strategy: g.locking_strategy,
        history: g.history,
        is_normalized_weight_cached: g.is_normalized_weight_cached,
        ..g3
    };
    lemma_parse_tree(g0, g, w2);
    lemma_parse_settings(g1, g, w3);
    lemma_parse_arenas(g2, g, w4);
    lemma_parse_tail(g3, g, rest);
    assert(g4 == g.at(to).with_nodes(Seq::empty()));
}

// ---------------------------------------------------------------------------
// What is read was written
// ---------------------------------------------------------------------------

/// Whatever `parse_tree` reads from starts with the layout of what it read.
pub proof fn lemma_parsed_tree(m: GameModel, s: Seq<u8>)
    ensures
        parse_tree(m, s) matches Ok((g, rest)) ==> s == tree_wire(g) + rest,
{
    if parse_tree(m, s) is Ok {
        let (g, rest) = parse_tree(m, s).unwrap();
        let s1 = parse_bytes(s).unwrap().1;
        let s2 = parse_lines(s1).unwrap().1;
        lemma_parsed_bytes(s);
        lemma_parsed_lines(s1);
        lemma_parsed_lines(s2);
        assert(s =~= tree_wire(g) + rest);
    }
}

/// Whatever `parse_settings` reads from starts with the layout of what it
/// read.
#[verifier::rlimit(40)]
pub proof fn lemma_parsed_settings(m: GameModel, s: Seq<u8>)
    ensures
        parse_settings(m, s) matches Ok((g, rest)) ==> s == settings_wire(g) + rest,
{
    if parse_settings(m, s) is Ok {
        let (g, rest) = parse_settings(m, s).unwrap();
        let s1 = parse_state(s).unwrap().1;
        let s2 = parse_bytes(s1).unwrap().1;
        let s3 = parse_u64(s2).unwrap().1;
        let s4 = parse_bool(s3).unwrap().1;
        let s5 = parse_u64(s4).unwrap().1;
        let s6 = parse_u64(s5).unwrap().1;
        lemma_parsed_state(s);
        lemma_parsed_bytes(s1);
        lemma_parsed_u64(s2);
        lemma_parsed_bool(s3);
        lemma_parsed_u64(s4);
        lemma_parsed_u64(s5);
        lemma_parsed_u64(s6);
        assert(s =~= settings_wire(g) + rest);
    }
}

/// Whatever `parse_arenas` reads from starts with the layout of what it
/// read.
pub proof fn lemma_parsed_arenas(m: GameModel, s: Seq<u8>)
    ensures
        parse_arenas(m, s) matches Ok((g, rest)) ==> s == arenas_wire(g) + rest,
{
    if parse_arenas(m, s) is Ok {
        let (g, rest) = parse_arenas(m, s).unwrap();
        let s1 = parse_bytes(s).unwrap().1;
        let s2 = parse_bytes(s1).unwrap().1;
        let s3 = parse_bytes(s2).unwrap().1;
        lemma_parsed_bytes(s);
        lemma_parsed_bytes(s1);
        lemma_parsed_bytes(s2);
        lemma_parsed_bytes(s3);
        assert(s =~= arenas_wire(g) + rest);
    }
}

/// Whatever `parse_tail` reads from starts with the layout of what it read.
pub proof fn lemma_parsed_tail(m: GameModel, s: Seq<u8>)
    ensures
        parse_tail(m, s) matches Ok((g, rest)) ==> s == tail_wire(g) + rest,
{
    if parse_tail(m, s) is Ok {
        let (g, rest) = parse_tail(m, s).unwrap();
        let s1 = parse_bytes(s).unwrap().1;
        let s2 = parse_history(s1).unwrap().1;
        lemma_parsed_bytes(s);
        lemma_parsed_history(s1);
        lemma_parsed_bool(s2);
        assert(s =~= tail_wire(g) + rest);
    }
}

/// Whatever `parse_fields` reads from starts with the layout of the fields
/// it read; the instance that comes out has its arenas at the given bases
/// and no nodes yet.
#[verifier::rlimit(40)]
pub proof fn lemma_parsed_fields(s: Seq<u8>, bases: ArenaBases)
    ensures
        parse_fields(s, bases) matches Ok((g, rest)) ==> s == fields_wire(g) + rest && g.bases
            == bases,
{
    if parse_fields(s, bases) is Ok {
        let (g, rest) = parse_fields(s, bases).unwrap();
        let g0 = GameModel::blank(bases);
        let (g1, s1) = parse_tree(g0, s).unwrap();
        let (g2, s2) = parse_settings(g1, s1).unwrap();
        let (g3, s3) = parse_arenas(g2, s2).unwrap();
        lemma_parsed_tree(g0, s);
        lemma_parsed_settings(g1, s1);
        lemma_parsed_arenas(g2, s2);
        lemma_parsed_tail(g3, s3);
        assert(tree_wire(g) == tree_wire(g1));
        assert(settings_wire(g) == settings_wire(g2));
        assert(arenas_wire(g) == arenas_wire(g3));
        assert(s =~= fields_wire(g) + rest);
    }
}

} // verus!
