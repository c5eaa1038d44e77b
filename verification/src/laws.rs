//! What holds of the codec as a whole.
//!
//! Every statement here is about the layout `game_wire` and the reading
//! `parse_game`, which are what `PostFlopGame::encode` and
//! `PostFlopGame::decode` are proved to compute.

use crate::arena::ArenaBases;
use crate::error::{FailureKind, FaultKind};
use crate::game::{
    arenas_wire, body_wire, fields_wire, game_wire, lemma_parse_fields, lemma_parsed_fields,
    lemma_version_bytes, parse_body, parse_fields, parse_game, same_scalars, same_stored,
    same_stored_at, settings_wire, tail_wire, tree_wire, version_bytes, GameModel,
};
use crate::node::{
    all_placed, lemma_parse_node, lemma_parse_nodes, lemma_parsed_nodes,
    lemma_rebased_nodes_wire, nodes_wire, PostFlopNode,
};
use crate::rebuild::{lemma_plan_replays_history, plan, RebuildStep};
use crate::state::State;
use crate::wire::{
    bytes_wire, lemma_parse_bytes, lemma_parsed_bytes, lemma_wire_lengths, parse_bytes,
    parse_u64,
};
use vstd::prelude::*;

verus! {

/// Round trip. A well-formed instance in any lifecycle state, encoded and
/// then decoded for arenas at any bases where they fit, comes back as the
/// same instance moved to those bases, and is well formed again. Moving
/// changes nothing but addresses: the tree configuration, the edit log, the
/// state, every other field of the instance and the contents of the arenas
/// are identical; the node arena has the same length; every node has the
/// same scalar fields; and every storage reference addresses elements with
/// the same values as before.
pub proof fn round_trip(g: GameModel, to: ArenaBases, rest: Seq<u8>)
    requires
        g.wf(),
        g.fits_at(to),
    ensures
        parse_game(game_wire(g) + rest, to) == Ok::<(GameModel, Seq<u8>), FailureKind>(
            (g.moved(to), rest),
        ),
        g.moved(to).wf(),
        g.moved(to).with_nodes(g.node_arena) == g.at(to),
        same_scalars(g.moved(to).node_arena, g.node_arena),
        same_stored(g, g.moved(to)),
{
    let w1 = body_wire(g) + rest;
    assert(game_wire(g) + rest =~= bytes_wire(version_bytes()) + w1);
    lemma_version_bytes();
    lemma_parse_bytes(version_bytes(), w1);
    lemma_parse_body(g, to, rest);
    let d = g.moved(to);
    assert forall|i: int| 0 <= i < g.node_arena.len() implies (#[trigger] d.node_arena[i]).scalars()
        == g.node_arena[i].scalars() by {
        lemma_moved_node(g, to, i);
    }
    assert forall|i: int| 0 <= i < g.node_arena.len() implies #[trigger] same_stored_at(
        g,
        d,
        i,
    ) by {
        lemma_moved_node(g, to, i);
    }
}

/// Relocation. The stream of a well-formed instance does not depend on
/// where its arenas live: moved to other bases, it encodes to the same
/// bytes.
pub proof fn stream_ignores_bases(g: GameModel, to: ArenaBases)
    requires
        g.wf(),
        g.fits_at(to),
    ensures
        game_wire(g.moved(to)) == game_wire(g),
        g.moved(to).wf(),
{
    let d = g.moved(to);
    lemma_rebased_nodes_wire(g.node_arena, g.context(), g.at(to).context());
    assert(d.context() == g.at(to).context());
    assert(fields_wire(d) == fields_wire(g)) by {
        assert(tree_wire(d) == tree_wire(g));
        assert(settings_wire(d) == settings_wire(g));
        assert(arenas_wire(d) == arenas_wire(g));
        assert(tail_wire(d) == tail_wire(g));
    }
    lemma_parse_body(g, to, Seq::<u8>::empty());
}

/// The distance of node `i`'s first primary storage from the base of the
/// first primary arena.
pub open spec fn offset1(g: GameModel, i: int) -> int {
    g.node_arena[i].storage1.unwrap() - g.bases.storage1
}

/// The distance of node `i`'s second primary storage from the base of the
/// second primary arena.
pub open spec fn offset2(g: GameModel, i: int) -> int {
    g.node_arena[i].storage2.unwrap() - g.bases.storage2
}

/// Node `i` holds both primary references, at the same distance from
/// their bases.
pub open spec fn mirrored_at(g: GameModel, i: int) -> bool {
    &&& g.node_arena[i].storage1 is Some
    &&& g.node_arena[i].storage2 is Some
    &&& offset1(g, i) == offset2(g, i)
}

/// Mirrored offsets. In a well-formed instance every action node that has
/// storage lies as far from the base of the first primary arena as from
/// the base of the second, and this still holds, with the same distance,
/// of the instance that comes back from a round trip.
pub proof fn mirrored_offsets(g: GameModel, to: ArenaBases, i: int)
    requires
        g.wf(),
        g.fits_at(to),
        0 <= i < g.node_arena.len(),
        g.node_arena[i].category is Action,
        g.node_arena[i].storage1 is Some,
    ensures
        mirrored_at(g, i),
        mirrored_at(g.moved(to), i),
        offset1(g.moved(to), i) == offset1(g, i),
{
    lemma_moved_node(g, to, i);
}

/// Version gate. A stream whose tag field can be read but is not the
/// current tag is refused as a version mismatch, whatever follows the tag.
pub proof fn version_gate(s: Seq<u8>, bases: ArenaBases)
    requires
        parse_bytes(s) is Some,
        parse_bytes(s).unwrap().0 != version_bytes(),
    ensures
        parse_game(s, bases) == Err::<(GameModel, Seq<u8>), FailureKind>(
            FailureKind::FormatVersionMismatch,
        ),
{
}

/// Version gate, on an encoded instance. Changing any one byte of the text
/// of the version tag in the stream of an instance makes the stream a
/// version mismatch. The text of the tag stands at positions 8 to 17,
/// behind its eight-byte length.
#[verifier::rlimit(40)]
pub proof fn altered_version_tag(g: GameModel, rest: Seq<u8>, at: int, byte: u8, bases: ArenaBases)
    requires
        8 <= at < 18,
        byte != (game_wire(g) + rest)[at],
    ensures
        parse_game((game_wire(g) + rest).update(at, byte), bases) == Err::<
            (GameModel, Seq<u8>),
            FailureKind,
        >(FailureKind::FormatVersionMismatch),
{
    let s = game_wire(g) + rest;
    let w1 = body_wire(g) + rest;
    let t = s.update(at, byte);
    lemma_version_bytes();
    lemma_wire_lengths();
    let tag = version_bytes();
    assert(s =~= bytes_wire(tag) + w1);
    lemma_parse_bytes(tag, w1);
    assert(s.take(8) =~= t.take(8));
    assert(parse_u64(t).unwrap().0 == parse_u64(s).unwrap().0);
    let read = parse_bytes(t).unwrap().0;
    assert(read[at - 8] == byte);
    assert(tag[at - 8] == s[at]);
}

/// Null safety. In a well-formed instance below `MemoryAllocated` no node
/// holds a storage reference, and the instance comes back from a round
/// trip, for arenas at any bases, with every field as it was and still no
/// node holding a storage reference.
pub proof fn null_safety(g: GameModel, to: ArenaBases, rest: Seq<u8>)
    requires
        g.wf(),
        !g.state.reached(State::MemoryAllocated),
    ensures
        forall|i: int| 0 <= i < g.node_arena.len() ==> (#[trigger] g.node_arena[i]).unaddressed(),
        parse_game(game_wire(g) + rest, to) == Ok::<(GameModel, Seq<u8>), FailureKind>(
            (g.at(to), rest),
        ),
{
    assert forall|i: int| 0 <= i < g.node_arena.len() implies (#[trigger] g.node_arena[i])
        .unaddressed() by {
        assert(g.node_arena[i].placed_in(g.context()));
    }
    round_trip(g, to, rest);
    assert(g.moved(to).node_arena =~= g.node_arena) by {
        assert forall|i: int| 0 <= i < g.node_arena.len() implies g.moved(to).node_arena[i]
            == g.node_arena[i] by {
            lemma_moved_node(g, to, i);
        }
    }
}

/// History replay. An instance at `TreeBuilt` or later comes back from a
/// round trip with the traversal history it was saved with, and with the
/// same steps to redo, among them the replay of that history. The cursor is
/// what the solver makes of the rebuilt tree and the history: both reach it
/// exactly as they were.
#[verifier::rlimit(40)]
pub proof fn history_replay(g: GameModel, to: ArenaBases, rest: Seq<u8>)
    requires
        g.wf(),
        g.fits_at(to),
        g.state.reached(State::TreeBuilt),
    ensures
        parse_game(game_wire(g) + rest, to) == Ok::<(GameModel, Seq<u8>), FailureKind>(
            (g.moved(to), rest),
        ),
        g.moved(to).tree_config == g.tree_config,
        g.moved(to).added_lines == g.added_lines,
        g.moved(to).removed_lines == g.removed_lines,
        g.moved(to).history == g.history,
        plan(g.moved(to)) == plan(g),
        plan(g).contains(RebuildStep::ApplyHistory),
{
    round_trip(g, to, rest);
    lemma_plan_replays_history(g);
}

/// The instance has its arenas at `bases`, they are in order, and every
/// node's storage references are what its category calls for.
pub open spec fn in_order_at(g: GameModel, bases: ArenaBases) -> bool {
    &&& g.bases == bases
    &&& g.context().wf()
    &&& all_placed(g.node_arena, g.context())
}

/// The stream `s` is the encoding of `g`, followed by `rest`, and `g` is in
/// order at `bases`.
pub open spec fn encodes(s: Seq<u8>, bases: ArenaBases, g: GameModel, rest: Seq<u8>) -> bool {
    s == game_wire(g) + rest && in_order_at(g, bases)
}

/// The same for what follows the version tag.
pub open spec fn body_encodes(s: Seq<u8>, bases: ArenaBases, g: GameModel, rest: Seq<u8>) -> bool {
    s == body_wire(g) + rest && in_order_at(g, bases)
}

/// Nothing but encodings are decoded. Whatever stream an instance is read
/// from consists of the encoding of that very instance and of the bytes
/// that the reading left; and in the instance the arenas are in order and
/// every storage reference is what its node's category calls for, within
/// its arena, the primary ones mirrored.
#[verifier::rlimit(40)]
pub proof fn decoded_streams_are_encodings(s: Seq<u8>, bases: ArenaBases)
    ensures
        parse_game(s, bases) matches Ok((g, rest)) ==> encodes(s, bases, g, rest),
{
    if parse_game(s, bases) is Ok {
        let (g, rest) = parse_game(s, bases).unwrap();
        let s1 = parse_bytes(s).unwrap().1;
        lemma_parsed_bytes(s);
        lemma_parsed_body(s1, bases);
        assert(s =~= bytes_wire(version_bytes()) + body_wire(g) + rest);
    }
}

// ---------------------------------------------------------------------------
// Supporting lemmas
// ---------------------------------------------------------------------------

/// Everything after the version tag of a well-formed instance, written in
/// front of `rest`, is read back for arenas at `to` as the instance moved
/// there, leaving `rest`.
#[verifier::rlimit(40)]
pub proof fn lemma_parse_body(g: GameModel, to: ArenaBases, rest: Seq<u8>)
    requires
        g.wf(),
        g.fits_at(to),
    ensures
        parse_body(body_wire(g) + rest, to) == Ok::<(GameModel, Seq<u8>), FaultKind>(
            (g.moved(to), rest),
        ),
        g.moved(to).wf(),
{
    let from_ctx = g.context();
    let to_ctx = g.at(to).context();
    let w = nodes_wire(g.node_arena, from_ctx) + rest;
    assert(body_wire(g) + rest =~= fields_wire(g) + w);
    lemma_parse_fields(g, to, w);
    let g4 = g.at(to).with_nodes(Seq::empty());
    assert(g4.context() == to_ctx);
    lemma_parse_nodes(g.node_arena, from_ctx, to_ctx, rest);
    assert(g.moved(to).context() == to_ctx);
    assert(g4.with_nodes(g.moved(to).node_arena) == g.moved(to));
}

/// What moving an instance does to one node: nothing to its scalar fields,
/// and nothing to the distance of any reference from its base.
pub proof fn lemma_moved_node(g: GameModel, to: ArenaBases, i: int)
    requires
        g.wf(),
        g.fits_at(to),
        0 <= i < g.node_arena.len(),
    ensures
        g.moved(to).node_arena[i] == g.node_arena[i].rebased(g.context(), g.at(to).context()),
        g.moved(to).node_arena[i].placed_in(g.at(to).context()),
        g.moved(to).node_arena[i].scalars() == g.node_arena[i].scalars(),
        same_stored_at(g, g.moved(to), i),
{
    let n = g.node_arena[i];
    assert(n.placed_in(g.context()));
    lemma_parse_node(n, g.context(), g.at(to).context(), Seq::<u8>::empty());
}

/// Whatever `parse_body` reads an instance from starts with the layout of
/// that instance's body, and the instance has its arenas at the given
/// bases and its storage references in order.
#[verifier::rlimit(40)]
pub proof fn lemma_parsed_body(s: Seq<u8>, bases: ArenaBases)
    ensures
        parse_body(s, bases) matches Ok((g, rest)) ==> body_encodes(s, bases, g, rest),
{
    if parse_body(s, bases) is Ok {
        let (g, rest) = parse_body(s, bases).unwrap();
        let (g4, s4) = parse_fields(s, bases).unwrap();
        let ctx = g4.context();
        lemma_parsed_fields(s, bases);
        lemma_parsed_nodes(s4, ctx);
        assert(g == g4.with_nodes(g.node_arena));
        assert(g.context() == ctx);
        lemma_fields_wire_ignores_nodes(g4, g.node_arena);
        assert(s =~= fields_wire(g4) + nodes_wire(g.node_arena, ctx) + rest);
    }
}

/// The layout of the fields in front of the node arena does not depend on
/// the node arena.
pub proof fn lemma_fields_wire_ignores_nodes(g: GameModel, nodes: Seq<PostFlopNode>)
    ensures
        fields_wire(g.with_nodes(nodes)) == fields_wire(g),
{
    let d = g.with_nodes(nodes);
    assert(tree_wire(d) == tree_wire(g));
    assert(settings_wire(d) == settings_wire(g));
    assert(arenas_wire(d) == arenas_wire(g));
    assert(tail_wire(d) == tail_wire(g));
}

} // verus!
