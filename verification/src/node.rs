//! A node of the tree, and its codec.
//!
//! A node's scalar fields are always persisted. Its storage references are
//! persisted as distances from the bases of the arenas they point into, and
//! only where the node has storage; the reference into the second primary
//! arena is never persisted, because it lies at the same distance from its
//! base as the reference into the first.

use crate::action::{action_wire, lemma_parse_action, lemma_parsed_action, parse_action, Action};
use crate::arena::{rebase, RebaseContext};
use crate::error::{FaultKind, StreamFault};
use crate::reader::Reader;
use crate::sequence::{
    counted_wire, inverts, items_wire, lemma_items_wire_map, lemma_items_wire_push,
    lemma_parse_counted_wire, lemma_parse_items_done, lemma_parse_items_step,
    lemma_parsed_counted, lemma_parsed_items_all, parse_counted, parse_items, prepend, Parsed,
};
use crate::wire::{
    bool_wire, i32_wire, lemma_parse_bool, lemma_parse_i32, lemma_parse_u32, lemma_parse_u64,
    lemma_parse_u8, lemma_parsed_bool, lemma_parsed_i32, lemma_parsed_u32, lemma_parsed_u64,
    lemma_parsed_u8, parse_bool, parse_i32, parse_u32, parse_u64, parse_u8, put_bool, put_i32,
    put_u32, put_u64, put_u8, u32_wire, u64_wire, u8_wire,
};
use vstd::prelude::*;

verus! {

/// One of the two players.
#[derive(Clone, Copy, Debug, PartialEq, Eq, Structural, Hash)]
pub enum Player {
    /// The player who acts first.
    OutOfPosition,
    /// The player who acts second.
    InPosition,
}

/// What kind of node this is, and with it what storage it may address.
#[derive(Clone, Copy, Debug, PartialEq, Eq, Structural, Hash)]
pub enum Category {
    /// The hand is over. A terminal node addresses no storage.
    Terminal,
    /// A card is dealt. A chance node addresses the chance arena.
    Chance,
    /// The given player decides. An action node addresses both primary
    /// arenas, at the same distance from their bases, and the in-position
    /// arena.
    Action(Player),
}

impl Category {
    /// The byte that stands for the category in a stream.
    pub open spec fn tag(self) -> u8 {
        match self {
            Category::Action(Player::OutOfPosition) => 0,
            Category::Action(Player::InPosition) => 1,
            Category::Chance => 2,
            Category::Terminal => 3,
        }
    }

    /// The byte that stands for the category in a stream.
    pub fn code(&self) -> (t: u8)
        ensures
            t == self.tag(),
    {
        match self {
            Category::Action(Player::OutOfPosition) => 0,
            Category::Action(Player::InPosition) => 1,
            Category::Chance => 2,
            Category::Terminal => 3,
        }
    }
}

/// Layout of a category: its tag.
pub open spec fn category_wire(c: Category) -> Seq<u8> {
    u8_wire(c.tag())
}

/// Reads a category from the front of `s`. A tag above 3 is refused.
pub open spec fn parse_category(s: Seq<u8>) -> Parsed<Category> {
    match parse_u8(s) {
        None => Err(FaultKind::Primitive),
        Some((tag, rest)) => if tag == 0 {
            Ok((Category::Action(Player::OutOfPosition), rest))
        } else if tag == 1 {
            Ok((Category::Action(Player::InPosition), rest))
        } else if tag == 2 {
            Ok((Category::Chance, rest))
        } else if tag == 3 {
            Ok((Category::Terminal, rest))
        } else {
            Err(FaultKind::UnknownVariant)
        },
    }
}

/// A node of the tree. Its children are the `num_children` nodes of the
/// node arena from `children_offset` on.
#[derive(Clone, Copy, Debug, PartialEq, Eq, Structural, Hash)]
pub struct PostFlopNode {
    /// The action that led to this node.
    pub prev_action: Action,
    /// Terminal, chance, or the player to act.
    pub category: Category,
    /// The turn card.
    pub turn: u8,
    /// The river card.
    pub river: u8,
    /// Whether the strategy at this node is locked.
    pub is_locked: bool,
    /// The amount bet so far.
    pub amount: i32,
    /// Where the node's children start in the node arena.
    pub children_offset: u32,
    /// How many children the node has.
    pub num_children: u32,
    /// How many elements the node addresses in the in-position arena.
    pub num_elements_ip: u32,
    /// How many elements the node addresses in each primary arena.
    pub num_elements: u32,
    /// How many elements the node addresses in the chance arena.
    pub num_elements_chance: u32,
    /// Scale factor of the first stored vector, as the bit pattern of a
    /// single-precision number.
    pub scale1: u32,
    /// Scale factor of the second stored vector, as a bit pattern.
    pub scale2: u32,
    /// Scale factor of the third stored vector, as a bit pattern.
    pub scale3: u32,
    /// Address of the node's storage in the first primary arena, or, for a
    /// chance node, in the chance arena.
    pub storage1: Option<usize>,
    /// Address of the node's storage in the second primary arena.
    pub storage2: Option<usize>,
    /// Address of the node's storage in the in-position arena.
    pub storage3: Option<usize>,
}

impl Default for PostFlopNode {
    /// The node every field of which has its documented default.
    fn default() -> (r: PostFlopNode)
        ensures
            r == blank(),
    {
        PostFlopNode {
            prev_action: Action::Start,
            category: Category::Terminal,
            turn: 0,
            river: 0,
            is_locked: false,
            amount: 0,
            children_offset: 0,
            num_children: 0,
            num_elements_ip: 0,
            num_elements: 0,
            num_elements_chance: 0,
            scale1: 0,
            scale2: 0,
            scale3: 0,
            storage1: None,
            storage2: None,
            storage3: None,
        }
    }
}

// ---------------------------------------------------------------------------
// Layout
// ---------------------------------------------------------------------------

/// Layout of the first group of scalar fields.
pub open spec fn head_wire(n: PostFlopNode) -> Seq<u8> {
    action_wire(n.prev_action) + category_wire(n.category) + u8_wire(n.turn) + u8_wire(n.river)
        + bool_wire(n.is_locked) + i32_wire(n.amount)
}

/// Layout of the children range and the three storage extents.
pub open spec fn counts_wire(n: PostFlopNode) -> Seq<u8> {
    u32_wire(n.children_offset) + u32_wire(n.num_children) + u32_wire(n.num_elements_ip)
        + u32_wire(n.num_elements) + u32_wire(n.num_elements_chance)
}

/// Layout of the three scale factors.
pub open spec fn scales_wire(n: PostFlopNode) -> Seq<u8> {
    u32_wire(n.scale1) + u32_wire(n.scale2) + u32_wire(n.scale3)
}

/// Layout of the storage references: nothing for a node without storage or
/// a terminal node; for a chance node the distance of its storage from the
/// chance base; for an action node the distance of its storage from the
/// first primary base, then from the in-position base.
pub open spec fn storage_wire(n: PostFlopNode, ctx: RebaseContext) -> Seq<u8> {
    match n.storage1 {
        None => Seq::<u8>::empty(),
        Some(a1) => match n.category {
            Category::Terminal => Seq::<u8>::empty(),
            Category::Chance => u64_wire((a1 - ctx.storage_chance.unwrap().base) as u64),
            Category::Action(_) => u64_wire((a1 - ctx.storage1.unwrap().base) as u64) + u64_wire(
                (n.storage3.unwrap() - ctx.storage_ip.unwrap().base) as u64,
            ),
        },
    }
}

/// Layout of a node in the given context.
pub open spec fn node_wire(n: PostFlopNode, ctx: RebaseContext) -> Seq<u8> {
    head_wire(n) + counts_wire(n) + scales_wire(n) + storage_wire(n, ctx)
}

// ---------------------------------------------------------------------------
// Reading
// ---------------------------------------------------------------------------

/// The node every field of which has its documented default: no action,
/// terminal, zeros, and no storage.
pub open spec fn blank() -> PostFlopNode {
    PostFlopNode {
        prev_action: Action::Start,
        category: Category::Terminal,
        turn: 0,
        river: 0,
        is_locked: false,
        amount: 0,
        children_offset: 0,
        num_children: 0,
        num_elements_ip: 0,
        num_elements: 0,
        num_elements_chance: 0,
        scale1: 0,
        scale2: 0,
        scale3: 0,
        storage1: None,
        storage2: None,
        storage3: None,
    }
}

/// Reads the first group of scalar fields into a blank node.
pub open spec fn parse_head(s: Seq<u8>) -> Parsed<PostFlopNode> {
    match parse_action(s) {
        Err(k) => Err(k),
        Ok((prev_action, s1)) => match parse_category(s1) {
            Err(k) => Err(k),
            Ok((category, s2)) => match parse_u8(s2) {
                None => Err(FaultKind::Primitive),
                Some((turn, s3)) => match parse_u8(s3) {
                    None => Err(FaultKind::Primitive),
                    Some((river, s4)) => match parse_bool(s4) {
                        None => Err(FaultKind::Primitive),
                        Some((is_locked, s5)) => match parse_i32(s5) {
                            None => Err(FaultKind::Primitive),
                            Some((amount, s6)) => Ok(
                                (
                                    PostFlopNode {
                                        prev_action,
                                        category,
                                        turn,
                                        river,
                                        is_locked,
                                        amount,
                                        ..blank()
                                    },
                                    s6,
                                ),
                            ),
                        },
                    },
                },
            },
        },
    }
}

/// Reads the children range and the storage extents into `n`.
pub open spec fn parse_counts(n: PostFlopNode, s: Seq<u8>) -> Parsed<PostFlopNode> {
    match parse_u32(s) {
        None => Err(FaultKind::Primitive),
        Some((children_offset, s1)) => match parse_u32(s1) {
            None => Err(FaultKind::Primitive),
            Some((num_children, s2)) => match parse_u32(s2) {
                None => Err(FaultKind::Primitive),
                Some((num_elements_ip, s3)) => match parse_u32(s3) {
                    None => Err(FaultKind::Primitive),
                    Some((num_elements, s4)) => match parse_u32(s4) {
                        None => Err(FaultKind::Primitive),
                        Some((num_elements_chance, s5)) => Ok(
                            (
                                PostFlopNode {
                                    children_offset,
                                    num_children,
                                    num_elements_ip,
                                    num_elements,
                                    num_elements_chance,
                                    ..n
                                },
                                s5,
                            ),
                        ),
                    },
                },
            },
        },
    }
}

/// Reads the scale factors into `n`.
pub open spec fn parse_scales(n: PostFlopNode, s: Seq<u8>) -> Parsed<PostFlopNode> {
    match parse_u32(s) {
        None => Err(FaultKind::Primitive),
        Some((scale1, s1)) => match parse_u32(s1) {
            None => Err(FaultKind::Primitive),
            Some((scale2, s2)) => match parse_u32(s2) {
                None => Err(FaultKind::Primitive),
                Some((scale3, s3)) => Ok((PostFlopNode { scale1, scale2, scale3, ..n }, s3)),
            },
        },
    }
}

/// Reads the storage references of `n`, whose scalar fields are known, and
/// rebuilds its addresses on the bases of `ctx`. Where the arenas the node's
/// category addresses are not all present, nothing is read and the node
/// keeps no storage. A range that leaves its arena is refused.
pub open spec fn parse_storage(n: PostFlopNode, s: Seq<u8>, ctx: RebaseContext) -> Parsed<
    PostFlopNode,
> {
    match n.category {
        Category::Terminal => Ok((n, s)),
        Category::Chance => match ctx.storage_chance {
            None => Ok((n, s)),
            Some(span) => match parse_u64(s) {
                None => Err(FaultKind::Primitive),
                Some((off, rest)) => if off + n.num_elements_chance <= span.len {
                    Ok((PostFlopNode { storage1: Some((span.base + off) as usize), ..n }, rest))
                } else {
                    Err(FaultKind::ArenaMismatch)
                },
            },
        },
        Category::Action(_) => match (ctx.storage1, ctx.storage2, ctx.storage_ip) {
            (Some(sa), Some(sb), Some(si)) => match parse_u64(s) {
                None => Err(FaultKind::Primitive),
                Some((off, s1)) => match parse_u64(s1) {
                    None => Err(FaultKind::Primitive),
                    Some((off_ip, s2)) => if off + n.num_elements <= sa.len && off_ip
                        + n.num_elements_ip <= si.len {
                        Ok(
                            (
                                PostFlopNode {
                                    storage1: Some((sa.base + off) as usize),
                                    storage2: Some((sb.base + off) as usize),
                                    storage3: Some((si.base + off_ip) as usize),
                                    ..n
                                },
                                s2,
                            ),
                        )
                    } else {
                        Err(FaultKind::ArenaMismatch)
                    },
                },
            },
            _ => Ok((n, s)),
        },
    }
}

/// Reads a node from the front of `s` in the given context.
pub open spec fn parse_node(s: Seq<u8>, ctx: RebaseContext) -> Parsed<PostFlopNode> {
    match parse_head(s) {
        Err(k) => Err(k),
        Ok((n1, s1)) => match parse_counts(n1, s1) {
            Err(k) => Err(k),
            Ok((n2, s2)) => match parse_scales(n2, s2) {
                Err(k) => Err(k),
                Ok((n3, s3)) => parse_storage(n3, s3, ctx),
            },
        },
    }
}

// ---------------------------------------------------------------------------
// The node and its arenas
// ---------------------------------------------------------------------------

impl PostFlopNode {
    /// Whether the node is terminal.
    pub fn is_terminal(&self) -> (b: bool)
        ensures
            b == (self.category is Terminal),
    {
        match self.category {
            Category::Terminal => true,
            _ => false,
        }
    }

    /// Whether the node is a chance node.
    pub fn is_chance(&self) -> (b: bool)
        ensures
            b == (self.category is Chance),
    {
        match self.category {
            Category::Chance => true,
            _ => false,
        }
    }

    /// The node without its storage references: its scalar fields.
    pub open spec fn scalars(self) -> PostFlopNode {
        PostFlopNode { storage1: None, storage2: None, storage3: None, ..self }
    }

    /// The node holds no storage reference.
    pub open spec fn unaddressed(self) -> bool {
        self.storage1 is None && self.storage2 is None && self.storage3 is None
    }

    /// The node's storage references are what its category and the arenas
    /// of `ctx` call for: none for a terminal node or where an arena it
    /// would address is absent; otherwise every reference present, its
    /// range within its arena, and the two primary references at the same
    /// distance from their bases.
    pub open spec fn placed_in(self, ctx: RebaseContext) -> bool {
        match self.category {
            Category::Terminal => self.unaddressed(),
            Category::Chance => match ctx.storage_chance {
                None => self.unaddressed(),
                Some(span) => {
                    &&& self.storage1 is Some
                    &&& self.storage2 is None
                    &&& self.storage3 is None
                    &&& span.holds(self.storage1.unwrap(), self.num_elements_chance)
                },
            },
            Category::Action(_) => match (ctx.storage1, ctx.storage2, ctx.storage_ip) {
                (Some(sa), Some(sb), Some(si)) => {
                    &&& self.storage1 is Some
                    &&& self.storage2 is Some
                    &&& self.storage3 is Some
                    &&& sa.holds(self.storage1.unwrap(), self.num_elements)
                    &&& sb.holds(self.storage2.unwrap(), self.num_elements)
                    &&& si.holds(self.storage3.unwrap(), self.num_elements_ip)
                    &&& self.storage1.unwrap() - sa.base == self.storage2.unwrap() - sb.base
                },
                _ => self.unaddressed(),
            },
        }
    }

    /// The node with every storage reference moved from the arenas of
    /// `from` to those of `to`, keeping its distance from the base.
    pub open spec fn rebased(self, from: RebaseContext, to: RebaseContext) -> PostFlopNode {
        if self.storage1 is None {
            self
        } else {
            match self.category {
                Category::Terminal => self,
                Category::Chance => PostFlopNode {
                    storage1: Some(
                        rebase(
                            self.storage1.unwrap(),
                            from.storage_chance.unwrap(),
                            to.storage_chance.unwrap(),
                        ),
                    ),
                    ..self
                },
                Category::Action(_) => PostFlopNode {
                    storage1: Some(
                        rebase(self.storage1.unwrap(), from.storage1.unwrap(), to.storage1.unwrap()),
                    ),
                    storage2: Some(
                        rebase(self.storage2.unwrap(), from.storage2.unwrap(), to.storage2.unwrap()),
                    ),
                    storage3: Some(
                        rebase(
                            self.storage3.unwrap(),
                            from.storage_ip.unwrap(),
                            to.storage_ip.unwrap(),
                        ),
                    ),
                    ..self
                },
            }
        }
    }

    /// Whether the node's storage references are what its category and the
    /// arenas of `ctx` call for.
    pub fn is_placed_in(&self, ctx: &RebaseContext) -> (b: bool)
        ensures
            b == self.placed_in(*ctx),
    {
        let bare = self.storage1.is_none() && self.storage2.is_none() && self.storage3.is_none();
        match self.category {
            Category::Terminal => bare,
            Category::Chance => match ctx.storage_chance {
                None => bare,
                Some(span) => match (self.storage1, self.storage2, self.storage3) {
                    (Some(a), None, None) => span.contains(a, self.num_elements_chance),
                    _ => false,
                },
            },
            Category::Action(_) => match (ctx.storage1, ctx.storage2, ctx.storage_ip) {
                (Some(sa), Some(sb), Some(si)) => match (
                    self.storage1,
                    self.storage2,
                    self.storage3,
                ) {
                    (Some(a), Some(b), Some(c)) => sa.contains(a, self.num_elements) && sb.contains(
                        b,
                        self.num_elements,
                    ) && si.contains(c, self.num_elements_ip) && a - sa.base == b - sb.base,
                    _ => false,
                },
                _ => bare,
            },
        }
    }

    /// The node moved from the arenas of `from` to those of `to`: every
    /// reference as far from its new base as it was from the old one.
    pub fn rebase(&self, from: &RebaseContext, to: &RebaseContext) -> (r: PostFlopNode)
        requires
            self.placed_in(*from),
            to.wf(),
            to.same_shape(*from),
        ensures
            r == self.rebased(*from, *to),
            r.placed_in(*to),
    {
        let mut node = *self;
        match (self.storage1, self.category) {
            (Some(a), Category::Chance) => {
                if let (Some(f), Some(t)) = (from.storage_chance, to.storage_chance) {
                    node.storage1 = Some(t.base + (a - f.base));
                }
            },
            (Some(a), Category::Action(_)) => {
                if let (Some(fa), Some(fb), Some(fi), Some(ta), Some(tb), Some(ti), Some(b), Some(c)) =
                    (
                    from.storage1,
                    from.storage2,
                    from.storage_ip,
                    to.storage1,
                    to.storage2,
                    to.storage_ip,
                    self.storage2,
                    self.storage3,
                ) {
                    node.storage1 = Some(ta.base + (a - fa.base));
                    node.storage2 = Some(tb.base + (b - fb.base));
                    node.storage3 = Some(ti.base + (c - fi.base));
                }
            },
            _ => {},
        }
        node
    }

    /// Appends the node to `out`: its scalar fields, then, where it has
    /// storage, the distances of its references from the bases of `ctx`.
    pub fn encode(&self, ctx: &RebaseContext, out: &mut Vec<u8>)
        requires
            self.placed_in(*ctx),
        ensures
            final(out)@ == old(out)@ + node_wire(*self, *ctx),
    {
        let ghost start = out@;
        self.prev_action.encode(out);
        put_u8(out, self.category.code());
        put_u8(out, self.turn);
        put_u8(out, self.river);
        put_bool(out, self.is_locked);
        put_i32(out, self.amount);
        assert(out@ =~= start + head_wire(*self));
        put_u32(out, self.children_offset);
        put_u32(out, self.num_children);
        put_u32(out, self.num_elements_ip);
        put_u32(out, self.num_elements);
        put_u32(out, self.num_elements_chance);
        assert(out@ =~= start + head_wire(*self) + counts_wire(*self));
        put_u32(out, self.scale1);
        put_u32(out, self.scale2);
        put_u32(out, self.scale3);
        assert(out@ =~= start + head_wire(*self) + counts_wire(*self) + scales_wire(*self));
        let ghost scalars = out@;
        match self.storage1 {
            None => {},
            Some(a1) => match self.category {
                Category::Terminal => {},
                Category::Chance => {
                    if let Some(span) = ctx.storage_chance {
                        put_u64(out, (a1 - span.base) as u64);
                    }
                },
                Category::Action(_) => {
                    if let (Some(sa), Some(si), Some(a3)) = (
                        ctx.storage1,
                        ctx.storage_ip,
                        self.storage3,
                    ) {
                        put_u64(out, (a1 - sa.base) as u64);
                        put_u64(out, (a3 - si.base) as u64);
                    }
                },
            },
        }
        assert(out@ =~= scalars + storage_wire(*self, *ctx));
    }

    /// Reads a node: its scalar fields, then, where the arenas its category
    /// addresses are present in `ctx`, the distances of its references,
    /// from which its addresses are rebuilt on the bases of `ctx`. No node
    /// comes out of a stream that is truncated, holds an invalid scalar, or
    /// addresses a range outside an arena.
    #[verifier::rlimit(40)]
    pub fn decode(reader: &mut Reader, ctx: &RebaseContext) -> (r: Result<
        PostFlopNode,
        StreamFault,
    >)
        requires
            ctx.wf(),
        ensures
            match parse_node(old(reader).remaining(), *ctx) {
                Ok((v, rest)) => {
                    &&& r == Ok::<PostFlopNode, StreamFault>(v)
                    &&& final(reader).remaining() == rest
                    &&& v.placed_in(*ctx)
                },
                Err(k) => r matches Err(e) && e.kind() == k,
            },
    {
        let prev_action = Action::decode(reader)?;
        let tag = reader.take_u8()?;
        let category = if tag == 0 {
            Category::Action(Player::OutOfPosition)
        } else if tag == 1 {
            Category::Action(Player::InPosition)
        } else if tag == 2 {
            Category::Chance
        } else if tag == 3 {
            Category::Terminal
        } else {
            return Err(StreamFault::UnknownVariant);
        };
        let turn = reader.take_u8()?;
        let river = reader.take_u8()?;
        let is_locked = reader.take_bool()?;
        let amount = reader.take_i32()?;
        let children_offset = reader.take_u32()?;
        let num_children = reader.take_u32()?;
        let num_elements_ip = reader.take_u32()?;
        let num_elements = reader.take_u32()?;
        let num_elements_chance = reader.take_u32()?;
        let scale1 = reader.take_u32()?;
        let scale2 = reader.take_u32()?;
        let scale3 = reader.take_u32()?;
        let mut node = PostFlopNode {
            prev_action,
            category,
            turn,
            river,
            is_locked,
            amount,
            children_offset,
            num_children,
            num_elements_ip,
            num_elements,
            num_elements_chance,
            scale1,
            scale2,
            scale3,
            storage1: None,
            storage2: None,
            storage3: None,
        };
        match category {
            Category::Terminal => {},
            Category::Chance => {
                if let Some(span) = ctx.storage_chance {
                    let off = reader.take_u64()?;
                    if !within(off, num_elements_chance, span.len) {
                        return Err(StreamFault::ArenaMismatch);
                    }
                    node.storage1 = Some(span.base + (off as usize));
                }
            },
            Category::Action(_) => {
                if let (Some(sa), Some(sb), Some(si)) = (
                    ctx.storage1,
                    ctx.storage2,
                    ctx.storage_ip,
                ) {
                    let off = reader.take_u64()?;
                    let off_ip = reader.take_u64()?;
                    if !within(off, num_elements, sa.len) || !within(
                        off_ip,
                        num_elements_ip,
                        si.len,
                    ) {
                        return Err(StreamFault::ArenaMismatch);
                    }
                    node.storage1 = Some(sa.base + (off as usize));
                    node.storage2 = Some(sb.base + (off as usize));
                    node.storage3 = Some(si.base + (off_ip as usize));
                }
            },
        }
        Ok(node)
    }
}

/// Whether `extent` elements at distance `off` from the base of an arena of
/// `len` elements lie within it.
fn within(off: u64, extent: u32, len: usize) -> (b: bool)
    ensures
        b == (off + extent <= len),
{
    off as u128 + extent as u128 <= len as u128
}

// ---------------------------------------------------------------------------
// The node arena
// ---------------------------------------------------------------------------

/// The layout of a node in `ctx`, as a value.
pub open spec fn node_writer(ctx: RebaseContext) -> spec_fn(PostFlopNode) -> Seq<u8> {
    |n: PostFlopNode| node_wire(n, ctx)
}

/// The reading of a node in `ctx`, as a value.
pub open spec fn node_reader(ctx: RebaseContext) -> spec_fn(Seq<u8>) -> Parsed<PostFlopNode> {
    |s: Seq<u8>| parse_node(s, ctx)
}

/// The move of a node from the arenas of `from` to those of `to`, as a
/// value.
pub open spec fn rebaser(from: RebaseContext, to: RebaseContext) -> spec_fn(
    PostFlopNode,
) -> PostFlopNode {
    |n: PostFlopNode| n.rebased(from, to)
}

/// Layout of the node arena: its length, then its nodes in order.
pub open spec fn nodes_wire(nodes: Seq<PostFlopNode>, ctx: RebaseContext) -> Seq<u8> {
    counted_wire(nodes, node_writer(ctx))
}

/// Reads the node arena from the front of `s`.
pub open spec fn parse_nodes(s: Seq<u8>, ctx: RebaseContext) -> Parsed<Seq<PostFlopNode>> {
    parse_counted(s, node_reader(ctx))
}

/// Every node's storage references are what `ctx` calls for.
pub open spec fn all_placed(nodes: Seq<PostFlopNode>, ctx: RebaseContext) -> bool {
    forall|i: int| 0 <= i < nodes.len() ==> (#[trigger] nodes[i]).placed_in(ctx)
}

/// Appends the node arena to `out`.
pub fn encode_nodes(nodes: &Vec<PostFlopNode>, ctx: &RebaseContext, out: &mut Vec<u8>)
    requires
        all_placed(nodes@, *ctx),
    ensures
        final(out)@ == old(out)@ + nodes_wire(nodes@, *ctx),
{
    let ghost start = out@;
    let n = nodes.len();
    put_u64(out, n as u64);
    let mut i: usize = 0;
    while i < n
        invariant
            n == nodes.len(),
            i <= n,
            all_placed(nodes@, *ctx),
            out@ == start + u64_wire(n as u64) + items_wire(
                nodes@.take(i as int),
                node_writer(*ctx),
            ),
        decreases n - i,
    {
        assert(nodes@[i as int].placed_in(*ctx));
        nodes[i].encode(ctx, out);
        proof {
            lemma_items_wire_push(nodes@.take(i as int), nodes@[i as int], node_writer(*ctx));
            assert(nodes@.take(i + 1) =~= nodes@.take(i as int).push(nodes@[i as int]));
            assert(out@ =~= start + u64_wire(n as u64) + items_wire(
                nodes@.take(i + 1),
                node_writer(*ctx),
            ));
        }
        i = i + 1;
    }
    assert(nodes@.take(n as int) =~= nodes@);
    assert(out@ =~= start + nodes_wire(nodes@, *ctx));
}

/// Reads the node arena: a length, then that many nodes, each addressed on
/// the bases of `ctx`.
pub fn decode_nodes(reader: &mut Reader, ctx: &RebaseContext) -> (r: Result<
    Vec<PostFlopNode>,
    StreamFault,
>)
    requires
        ctx.wf(),
    ensures
        match parse_nodes(old(reader).remaining(), *ctx) {
            Ok((v, rest)) => {
                &&& r matches Ok(w)
                &&& w@ == v
                &&& final(reader).remaining() == rest
                &&& all_placed(v, *ctx)
            },
            Err(k) => r matches Err(e) && e.kind() == k,
        },
{
    let n = reader.take_u64()?;
    let ghost s0 = reader.remaining();
    let mut acc: Vec<PostFlopNode> = Vec::new();
    let mut i: u64 = 0;
    while i < n
        invariant
            i <= n,
            ctx.wf(),
            parse_u64(old(reader).remaining()) == Some((n, s0)),
            all_placed(acc@, *ctx),
            parse_items(n as nat, s0, node_reader(*ctx)) == prepend(
                acc@,
                parse_items((n - i) as nat, reader.remaining(), node_reader(*ctx)),
            ),
        decreases n - i,
    {
        proof {
            lemma_parse_items_step(acc@, (n - i) as nat, reader.remaining(), node_reader(*ctx));
        }
        let node = PostFlopNode::decode(reader, ctx)?;
        acc.push(node);
        i = i + 1;
    }
    proof {
        lemma_parse_items_done(acc@, reader.remaining(), node_reader(*ctx));
    }
    Ok(acc)
}

// ---------------------------------------------------------------------------
// Reading inverts writing
// ---------------------------------------------------------------------------

/// A category written in front of `rest` is read back, leaving `rest`.
pub proof fn lemma_parse_category(c: Category, rest: Seq<u8>)
    ensures
        parse_category(category_wire(c) + rest) == Ok::<(Category, Seq<u8>), FaultKind>(
            (c, rest),
        ),
{
    lemma_parse_u8(c.tag(), rest);
}

/// The first group of scalar fields of `n`, written in front of `rest`, is
/// read back into a blank node, leaving `rest`.
pub proof fn lemma_parse_head(n: PostFlopNode, rest: Seq<u8>)
    ensures
        parse_head(head_wire(n) + rest) == Ok::<(PostFlopNode, Seq<u8>), FaultKind>(
            (
                PostFlopNode {
                    prev_action: n.prev_action,
                    category: n.category,
                    turn: n.turn,
                    river: n.river,
                    is_locked: n.is_locked,
                    amount: n.amount,
                    ..blank()
                },
                rest,
            ),
        ),
{
    let w6 = i32_wire(n.amount) + rest;
    let w5 = bool_wire(n.is_locked) + w6;
    let w4 = u8_wire(n.river) + w5;
    let w3 = u8_wire(n.turn) + w4;
    let w2 = category_wire(n.category) + w3;
    assert(head_wire(n) + rest =~= action_wire(n.prev_action) + w2);
    lemma_parse_action(n.prev_action, w2);
    lemma_parse_category(n.category, w3);
    lemma_parse_u8(n.turn, w4);
    lemma_parse_u8(n.river, w5);
    lemma_parse_bool(n.is_locked, w6);
    lemma_parse_i32(n.amount, rest);
}

/// The children range and storage extents of `n`, written in front of
/// `rest`, are read back into `m`, leaving `rest`.
pub proof fn lemma_parse_counts(m: PostFlopNode, n: PostFlopNode, rest: Seq<u8>)
    ensures
        parse_counts(m, counts_wire(n) + rest) == Ok::<(PostFlopNode, Seq<u8>), FaultKind>(
            (
                PostFlopNode {
                    children_offset: n.children_offset,
                    num_children: n.num_children,
                    num_elements_ip: n.num_elements_ip,
                    num_elements: n.num_elements,
                    num_elements_chance: n.num_elements_chance,
                    ..m
                },
                rest,
            ),
        ),
{
    let w5 = u32_wire(n.num_elements_chance) + rest;
    let w4 = u32_wire(n.num_elements) + w5;
    let w3 = u32_wire(n.num_elements_ip) + w4;
    let w2 = u32_wire(n.num_children) + w3;
    assert(counts_wire(n) + rest =~= u32_wire(n.children_offset) + w2);
    lemma_parse_u32(n.children_offset, w2);
    lemma_parse_u32(n.num_children, w3);
    lemma_parse_u32(n.num_elements_ip, w4);
    lemma_parse_u32(n.num_elements, w5);
    lemma_parse_u32(n.num_elements_chance, rest);
}

/// The scale factors of `n`, written in front of `rest`, are read back into
/// `m`, leaving `rest`.
pub proof fn lemma_parse_scales(m: PostFlopNode, n: PostFlopNode, rest: Seq<u8>)
    ensures
        parse_scales(m, scales_wire(n) + rest) == Ok::<(PostFlopNode, Seq<u8>), FaultKind>(
            (PostFlopNode { scale1: n.scale1, scale2: n.scale2, scale3: n.scale3, ..m }, rest),
        ),
{
    let w3 = u32_wire(n.scale3) + rest;
    let w2 = u32_wire(n.scale2) + w3;
    assert(scales_wire(n) + rest =~= u32_wire(n.scale1) + w2);
    lemma_parse_u32(n.scale1, w2);
    lemma_parse_u32(n.scale2, w3);
    lemma_parse_u32(n.scale3, rest);
}

/// The storage references of a node placed in `from`, written in front of
/// `rest`, are read back in a context of the same shape as the references
/// at the same distances from the bases of `to`.
pub proof fn lemma_parse_storage(
    n: PostFlopNode,
    from: RebaseContext,
    to: RebaseContext,
    rest: Seq<u8>,
)
    requires
        n.placed_in(from),
        to.wf(),
        to.same_shape(from),
    ensures
        parse_storage(
            PostFlopNode { storage1: None, storage2: None, storage3: None, ..n },
            storage_wire(n, from) + rest,
            to,
        ) == Ok::<(PostFlopNode, Seq<u8>), FaultKind>((n.rebased(from, to), rest)),
        n.rebased(from, to).placed_in(to),
{
    let m = PostFlopNode { storage1: None, storage2: None, storage3: None, ..n };
    match n.category {
        Category::Terminal => {
            assert(storage_wire(n, from) + rest =~= rest);
        },
        Category::Chance => {
            match from.storage_chance {
                None => {
                    assert(storage_wire(n, from) + rest =~= rest);
                },
                Some(f) => {
                    let off = (n.storage1.unwrap() - f.base) as u64;
                    lemma_parse_u64(off, rest);
                },
            }
        },
        Category::Action(_) => {
            match (from.storage1, from.storage2, from.storage_ip) {
                (Some(fa), Some(fb), Some(fi)) => {
                    let off = (n.storage1.unwrap() - fa.base) as u64;
                    let off_ip = (n.storage3.unwrap() - fi.base) as u64;
                    assert(storage_wire(n, from) + rest =~= u64_wire(off) + (u64_wire(off_ip)
                        + rest));
                    lemma_parse_u64(off, u64_wire(off_ip) + rest);
                    lemma_parse_u64(off_ip, rest);
                },
                _ => {
                    assert(storage_wire(n, from) + rest =~= rest);
                },
            }
        },
    }
}

/// A node placed in `from`, written in that context in front of `rest`, is
/// read back in a context of the same shape as the same node moved to the
/// arenas of `to`, leaving `rest`.
#[verifier::rlimit(40)]
pub proof fn lemma_parse_node(
    n: PostFlopNode,
    from: RebaseContext,
    to: RebaseContext,
    rest: Seq<u8>,
)
    requires
        n.placed_in(from),
        to.wf(),
        to.same_shape(from),
    ensures
        parse_node(node_wire(n, from) + rest, to) == Ok::<(PostFlopNode, Seq<u8>), FaultKind>(
            (n.rebased(from, to), rest),
        ),
        n.rebased(from, to).placed_in(to),
{
    let w4 = storage_wire(n, from) + rest;
    let w3 = scales_wire(n) + w4;
    let w2 = counts_wire(n) + w3;
    assert(node_wire(n, from) + rest =~= head_wire(n) + w2);
    lemma_parse_head(n, w2);
    let n1 = parse_head(head_wire(n) + w2).unwrap().0;
    lemma_parse_counts(n1, n, w3);
    let n2 = parse_counts(n1, w2).unwrap().0;
    lemma_parse_scales(n2, n, w4);
    let n3 = parse_scales(n2, w3).unwrap().0;
    assert(n3 == PostFlopNode { storage1: None, storage2: None, storage3: None, ..n });
    lemma_parse_storage(n, from, to, rest);
}

/// A node arena placed in `from`, written in that context in front of
/// `rest`, is read back in a context of the same shape as the same nodes
/// moved to the arenas of `to`, leaving `rest`.
pub proof fn lemma_parse_nodes(
    nodes: Seq<PostFlopNode>,
    from: RebaseContext,
    to: RebaseContext,
    rest: Seq<u8>,
)
    requires
        nodes.len() <= u64::MAX,
        all_placed(nodes, from),
        to.wf(),
        to.same_shape(from),
    ensures
        parse_nodes(nodes_wire(nodes, from) + rest, to) == Ok::<
            (Seq<PostFlopNode>, Seq<u8>),
            FaultKind,
        >((nodes.map_values(rebaser(from, to)), rest)),
        all_placed(nodes.map_values(rebaser(from, to)), to),
{
    assert forall|i: int| 0 <= i < nodes.len() implies inverts(
        node_reader(to),
        node_writer(from),
        rebaser(from, to),
        #[trigger] nodes[i],
    ) by {
        assert forall|r: Seq<u8>|
            #[trigger] node_reader(to)(node_writer(from)(nodes[i]) + r) == Ok::<
                (PostFlopNode, Seq<u8>),
                FaultKind,
            >((rebaser(from, to)(nodes[i]), r)) by {
            lemma_parse_node(nodes[i], from, to, r);
        }
    }
    lemma_parse_counted_wire(nodes, node_writer(from), node_reader(to), rebaser(from, to), rest);
    assert forall|i: int| 0 <= i < nodes.len() implies (#[trigger] nodes.map_values(
        rebaser(from, to),
    )[i]).placed_in(to) by {
        lemma_parse_node(nodes[i], from, to, rest);
    }
}

/// A node placed in `from` and moved to `to` is laid out in `to` as it was
/// in `from`: the layout does not depend on where the arenas live.
pub proof fn lemma_rebased_wire(n: PostFlopNode, from: RebaseContext, to: RebaseContext)
    requires
        n.placed_in(from),
        to.wf(),
        to.same_shape(from),
    ensures
        node_wire(n.rebased(from, to), to) == node_wire(n, from),
        n.rebased(from, to).placed_in(to),
{
    let m = n.rebased(from, to);
    assert(head_wire(m) == head_wire(n));
    assert(counts_wire(m) == counts_wire(n));
    assert(scales_wire(m) == scales_wire(n));
    assert(storage_wire(m, to) == storage_wire(n, from));
}

/// A node arena placed in `from` and moved to `to` is laid out in `to` as
/// it was in `from`.
pub proof fn lemma_rebased_nodes_wire(
    nodes: Seq<PostFlopNode>,
    from: RebaseContext,
    to: RebaseContext,
)
    requires
        all_placed(nodes, from),
        to.wf(),
        to.same_shape(from),
    ensures
        nodes_wire(nodes.map_values(rebaser(from, to)), to) == nodes_wire(nodes, from),
{
    assert forall|i: int| 0 <= i < nodes.len() implies node_writer(to)(
        rebaser(from, to)(#[trigger] nodes[i]),
    ) == node_writer(from)(nodes[i]) by {
        lemma_rebased_wire(nodes[i], from, to);
    }
    lemma_items_wire_map(nodes, rebaser(from, to), node_writer(from), node_writer(to));
}

// ---------------------------------------------------------------------------
// What is read was written
// ---------------------------------------------------------------------------

/// Whatever `parse_category` reads a category from starts with the layout
/// of that category.
pub proof fn lemma_parsed_category(s: Seq<u8>)
    ensures
        parse_category(s) matches Ok((c, rest)) ==> s == category_wire(c) + rest,
{
    lemma_parsed_u8(s);
}

/// Whatever `parse_head` reads from starts with the layout of what it
/// read.
pub proof fn lemma_parsed_head(s: Seq<u8>)
    ensures
        parse_head(s) matches Ok((n, rest)) ==> s == head_wire(n) + rest,
{
    if parse_head(s) is Ok {
        let (n, rest) = parse_head(s).unwrap();
        let s1 = parse_action(s).unwrap().1;
        let s2 = parse_category(s1).unwrap().1;
        let s3 = parse_u8(s2).unwrap().1;
        let s4 = parse_u8(s3).unwrap().1;
        let s5 = parse_bool(s4).unwrap().1;
        lemma_parsed_action(s);
        lemma_parsed_category(s1);
        lemma_parsed_u8(s2);
        lemma_parsed_u8(s3);
        lemma_parsed_bool(s4);
        lemma_parsed_i32(s5);
        assert(s =~= head_wire(n) + rest);
    }
}

/// Whatever `parse_counts` reads from starts with the layout of what it
/// read.
pub proof fn lemma_parsed_counts(m: PostFlopNode, s: Seq<u8>)
    ensures
        parse_counts(m, s) matches Ok((n, rest)) ==> s == counts_wire(n) + rest,
{
    if parse_counts(m, s) is Ok {
        let (n, rest) = parse_counts(m, s).unwrap();
        let s1 = parse_u32(s).unwrap().1;
        let s2 = parse_u32(s1).unwrap().1;
        let s3 = parse_u32(s2).unwrap().1;
        let s4 = parse_u32(s3).unwrap().1;
        lemma_parsed_u32(s);
        lemma_parsed_u32(s1);
        lemma_parsed_u32(s2);
        lemma_parsed_u32(s3);
        lemma_parsed_u32(s4);
        assert(s =~= counts_wire(n) + rest);
    }
}

/// Whatever `parse_scales` reads from starts with the layout of what it
/// read.
pub proof fn lemma_parsed_scales(m: PostFlopNode, s: Seq<u8>)
    ensures
        parse_scales(m, s) matches Ok((n, rest)) ==> s == scales_wire(n) + rest,
{
    if parse_scales(m, s) is Ok {
        let (n, rest) = parse_scales(m, s).unwrap();
        let s1 = parse_u32(s).unwrap().1;
        let s2 = parse_u32(s1).unwrap().1;
        lemma_parsed_u32(s);
        lemma_parsed_u32(s1);
        lemma_parsed_u32(s2);
        assert(s =~= scales_wire(n) + rest);
    }
}

/// Whatever `parse_storage` reads the references of an unaddressed node
/// from starts with the layout of the references it rebuilt, and the node
/// that comes out is placed in the context.
pub proof fn lemma_parsed_storage(m: PostFlopNode, s: Seq<u8>, ctx: RebaseContext)
    requires
        ctx.wf(),
        m.unaddressed(),
    ensures
        parse_storage(m, s, ctx) matches Ok((n, rest)) ==> s == storage_wire(n, ctx) + rest
            && n.placed_in(ctx),
{
    if parse_storage(m, s, ctx) is Ok {
        let (n, rest) = parse_storage(m, s, ctx).unwrap();
        if n.storage1 is None {
            assert(s =~= storage_wire(n, ctx) + rest);
        } else {
            lemma_parsed_u64(s);
            match m.category {
                Category::Chance => {},
                _ => {
                    let s1 = parse_u64(s).unwrap().1;
                    lemma_parsed_u64(s1);
                    assert(s =~= storage_wire(n, ctx) + rest);
                },
            }
        }
    }
}

/// Whatever `parse_node` reads a node from starts with the layout of that
/// node, and the node is placed in the context.
pub proof fn lemma_parsed_node(s: Seq<u8>, ctx: RebaseContext)
    requires
        ctx.wf(),
    ensures
        parse_node(s, ctx) matches Ok((n, rest)) ==> s == node_wire(n, ctx) + rest && n.placed_in(
            ctx,
        ),
{
    if parse_node(s, ctx) is Ok {
        let (n, rest) = parse_node(s, ctx).unwrap();
        let (n1, s1) = parse_head(s).unwrap();
        let (n2, s2) = parse_counts(n1, s1).unwrap();
        let (n3, s3) = parse_scales(n2, s2).unwrap();
        lemma_parsed_head(s);
        lemma_parsed_counts(n1, s1);
        lemma_parsed_scales(n2, s2);
        lemma_parsed_storage(n3, s3, ctx);
        assert(head_wire(n) == head_wire(n1));
        assert(counts_wire(n) == counts_wire(n2));
        assert(scales_wire(n) == scales_wire(n3));
        assert(s =~= node_wire(n, ctx) + rest);
    }
}

/// Whatever `parse_nodes` reads a node arena from starts with the layout of
/// that arena, and every node of it is placed in the context.
pub proof fn lemma_parsed_nodes(s: Seq<u8>, ctx: RebaseContext)
    requires
        ctx.wf(),
    ensures
        parse_nodes(s, ctx) matches Ok((v, rest)) ==> s == nodes_wire(v, ctx) + rest && all_placed(
            v,
            ctx,
        ),
{
    let p = node_reader(ctx);
    let f = node_writer(ctx);
    let q = |n: PostFlopNode| n.placed_in(ctx);
    assert forall|t: Seq<u8>| (#[trigger] p(t)) is Ok implies t == f(p(t).unwrap().0) + p(
        t,
    ).unwrap().1 && q(p(t).unwrap().0) by {
        lemma_parsed_node(t, ctx);
    }
    lemma_parsed_counted(s, p, f);
    if parse_nodes(s, ctx) is Ok {
        let (n, after) = parse_u64(s).unwrap();
        lemma_parsed_items_all(n as nat, after, p, q);
    }
}

} // verus!
