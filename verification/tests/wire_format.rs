//! The exact bytes of the format, held against hand-computed values and
//! against what bincode itself writes for the same data.

use solver_snapshot::action::{decode_line, decode_lines, encode_line, encode_lines, Action};
use solver_snapshot::arena::{ArenaSpan, RebaseContext};
use solver_snapshot::error::{FaultKind, StreamFault};
use solver_snapshot::game::{PostFlopGame, VERSION_STR};
use solver_snapshot::history::{decode_history, encode_history};
use solver_snapshot::node::{decode_nodes, encode_nodes, Category, Player, PostFlopNode};
use solver_snapshot::reader::Reader;
use solver_snapshot::state::State;

fn live_context() -> RebaseContext {
    RebaseContext {
        storage1: Some(ArenaSpan { base: 0x1000, len: 16 }),
        storage2: Some(ArenaSpan { base: 0x2000, len: 16 }),
        storage_ip: Some(ArenaSpan { base: 0x3000, len: 8 }),
        storage_chance: Some(ArenaSpan { base: 0x4000, len: 4 }),
    }
}

fn action_node() -> PostFlopNode {
    PostFlopNode {
        prev_action: Action::Bet(100),
        category: Category::Action(Player::InPosition),
        turn: 12,
        river: 51,
        is_locked: true,
        amount: 250,
        children_offset: 3,
        num_children: 2,
        num_elements_ip: 2,
        num_elements: 4,
        num_elements_chance: 0,
        scale1: 1.0f32.to_bits(),
        scale2: 0,
        scale3: 2.0f32.to_bits(),
        storage1: Some(0x1008),
        storage2: Some(0x2008),
        storage3: Some(0x3004),
    }
}

fn action_node_bytes() -> Vec<u8> {
    vec![
        4, 0, 0, 0, 100, 0, 0, 0, // prev_action: Bet(100)
        1, // category: action, in position
        12, 51, // turn, river
        1, // is_locked
        250, 0, 0, 0, // amount
        3, 0, 0, 0, // children_offset
        2, 0, 0, 0, // num_children
        2, 0, 0, 0, // num_elements_ip
        4, 0, 0, 0, // num_elements
        0, 0, 0, 0, // num_elements_chance
        0, 0, 0x80, 0x3f, // scale1 = 1.0
        0, 0, 0, 0, // scale2
        0, 0, 0, 0x40, // scale3 = 2.0
        8, 0, 0, 0, 0, 0, 0, 0, // 0x1008 - 0x1000
        4, 0, 0, 0, 0, 0, 0, 0, // 0x3004 - 0x3000
    ]
}

#[test]
fn action_without_amount_is_its_variant_index() {
    let expected: [(Action, u8); 4] =
        [(Action::Start, 0), (Action::Fold, 1), (Action::Check, 2), (Action::Call, 3)];
    for (action, index) in expected {
        let mut out = Vec::new();
        action.encode(&mut out);
        assert_eq!(out, vec![index, 0, 0, 0]);
    }
}

#[test]
fn action_with_amount_is_index_then_little_endian_amount() {
    let mut out = Vec::new();
    Action::Bet(100).encode(&mut out);
    assert_eq!(out, vec![4, 0, 0, 0, 100, 0, 0, 0]);

    let mut out = Vec::new();
    Action::Raise(0x0102_0304).encode(&mut out);
    assert_eq!(out, vec![5, 0, 0, 0, 4, 3, 2, 1]);

    let mut out = Vec::new();
    Action::AllIn(-2).encode(&mut out);
    assert_eq!(out, vec![6, 0, 0, 0, 0xfe, 0xff, 0xff, 0xff]);
}

#[test]
fn chance_action_is_index_then_card() {
    let mut out = Vec::new();
    Action::Chance(51).encode(&mut out);
    assert_eq!(out, vec![7, 0, 0, 0, 51]);
}

#[test]
fn encode_appends_and_keeps_what_was_there() {
    let mut out = vec![0xaa, 0xbb];
    Action::Call.encode(&mut out);
    State::Solved.encode(&mut out);
    assert_eq!(out, vec![0xaa, 0xbb, 3, 0, 0, 0, 3, 0, 0, 0]);
}

#[test]
fn every_action_is_read_back() {
    let actions = [
        Action::Start,
        Action::Fold,
        Action::Check,
        Action::Call,
        Action::Bet(1),
        Action::Raise(i32::MAX),
        Action::AllIn(i32::MIN),
        Action::Chance(255),
    ];
    for action in actions {
        let mut out = Vec::new();
        action.encode(&mut out);
        let mut reader = Reader::new(&out);
        assert_eq!(Action::decode(&mut reader).unwrap(), action);
        assert_eq!(reader.left(), 0);
    }
}

#[test]
fn state_is_its_ordinal_as_four_bytes() {
    let expected: [(State, u8); 4] = [
        (State::Uninitialized, 0),
        (State::MemoryAllocated, 1),
        (State::TreeBuilt, 2),
        (State::Solved, 3),
    ];
    for (state, ordinal) in expected {
        let mut out = Vec::new();
        state.encode(&mut out);
        assert_eq!(out, vec![ordinal, 0, 0, 0]);
        assert_eq!(state.ordinal(), ordinal as u32);
        let mut reader = Reader::new(&out);
        assert_eq!(State::decode(&mut reader).unwrap(), state);
    }
}

#[test]
fn states_are_ordered_by_stage() {
    assert!(State::MemoryAllocated.at_least(State::Uninitialized));
    assert!(State::MemoryAllocated.at_least(State::MemoryAllocated));
    assert!(!State::MemoryAllocated.at_least(State::TreeBuilt));
    assert!(State::TreeBuilt.at_least(State::MemoryAllocated));
    assert!(State::Solved.at_least(State::TreeBuilt));
    assert!(!State::Uninitialized.at_least(State::MemoryAllocated));
    assert!(State::Uninitialized < State::MemoryAllocated);
    assert!(State::MemoryAllocated < State::TreeBuilt);
    assert!(State::TreeBuilt < State::Solved);
}

#[test]
fn reader_takes_primitives_in_little_endian() {
    let bytes = vec![
        7, // u8
        1, // bool
        0x78, 0x56, 0x34, 0x12, // u32
        0xff, 0xff, 0xff, 0xff, // i32 = -1
        8, 7, 6, 5, 4, 3, 2, 1, // u64
        3, 0, 0, 0, 0, 0, 0, 0, 0xa, 0xb, 0xc, // bytes
        9, // left over
    ];
    let mut reader = Reader::new(&bytes);
    assert_eq!(reader.left(), bytes.len());
    assert_eq!(reader.take_u8().unwrap(), 7);
    assert_eq!(reader.take_bool().unwrap(), true);
    assert_eq!(reader.take_u32().unwrap(), 0x1234_5678);
    assert_eq!(reader.take_i32().unwrap(), -1);
    assert_eq!(reader.take_u64().unwrap(), 0x0102_0304_0506_0708);
    assert_eq!(reader.take_bytes().unwrap(), vec![0xa, 0xb, 0xc]);
    assert_eq!(reader.left(), 1);
    assert_eq!(reader.take_u8().unwrap(), 9);
    assert_eq!(reader.left(), 0);
}

#[test]
fn reader_takes_false_and_empty_bytes() {
    let bytes = vec![0, 0, 0, 0, 0, 0, 0, 0, 0];
    let mut reader = Reader::new(&bytes);
    assert_eq!(reader.take_bool().unwrap(), false);
    assert_eq!(reader.take_bytes().unwrap(), Vec::<u8>::new());
    assert_eq!(reader.left(), 0);
}

#[test]
fn line_is_length_then_actions() {
    let line = vec![Action::Check, Action::Bet(30), Action::Call];
    let mut out = Vec::new();
    encode_line(&line, &mut out);
    assert_eq!(
        out,
        vec![3, 0, 0, 0, 0, 0, 0, 0, 2, 0, 0, 0, 4, 0, 0, 0, 30, 0, 0, 0, 3, 0, 0, 0]
    );
    let mut reader = Reader::new(&out);
    assert_eq!(decode_line(&mut reader).unwrap(), line);
    assert_eq!(reader.left(), 0);
}

#[test]
fn lines_are_length_then_lines() {
    let lines = vec![vec![Action::Fold], vec![], vec![Action::Chance(7), Action::Check]];
    let mut out = Vec::new();
    encode_lines(&lines, &mut out);
    let expected = vec![
        3, 0, 0, 0, 0, 0, 0, 0, // three lines
        1, 0, 0, 0, 0, 0, 0, 0, 1, 0, 0, 0, // [Fold]
        0, 0, 0, 0, 0, 0, 0, 0, // []
        2, 0, 0, 0, 0, 0, 0, 0, 7, 0, 0, 0, 7, 2, 0, 0, 0, // [Chance(7), Check]
    ];
    assert_eq!(out, expected);
    let mut reader = Reader::new(&out);
    assert_eq!(decode_lines(&mut reader).unwrap(), lines);
    assert_eq!(reader.left(), 0);
}

#[test]
fn history_is_what_bincode_writes_for_a_vector() {
    let history: Vec<u64> = vec![0, 2, 1, u64::MAX, 0x0102_0304_0506_0708];
    let mut out = Vec::new();
    encode_history(&history, &mut out);
    let by_bincode = bincode::encode_to_vec(&history, bincode::config::legacy()).unwrap();
    assert_eq!(out, by_bincode);
    assert_eq!(&out[..16], &[5, 0, 0, 0, 0, 0, 0, 0, 0, 0, 0, 0, 0, 0, 0, 0]);
    let mut reader = Reader::new(&out);
    assert_eq!(decode_history(&mut reader).unwrap(), history);
}

#[test]
fn betting_action_is_what_bincode_writes_for_index_and_amount() {
    let mut out = Vec::new();
    Action::Raise(-7).encode(&mut out);
    let by_bincode = bincode::encode_to_vec((5u32, -7i32), bincode::config::legacy()).unwrap();
    assert_eq!(out, by_bincode);
}

#[test]
fn node_with_storage_has_the_documented_bytes() {
    let node = action_node();
    let ctx = live_context();
    assert!(ctx.is_well_formed());
    assert!(node.is_placed_in(&ctx));
    let mut out = Vec::new();
    node.encode(&ctx, &mut out);
    assert_eq!(out, action_node_bytes());
}

#[test]
fn scale_factors_are_the_bytes_bincode_writes_for_floats() {
    let node = action_node();
    let mut out = Vec::new();
    node.encode(&live_context(), &mut out);
    let scales = bincode::encode_to_vec((1.0f32, 0.0f32, 2.0f32), bincode::config::legacy())
        .unwrap();
    assert_eq!(&out[36..48], &scales[..]);
}

#[test]
fn node_is_read_back_on_the_same_bases() {
    let ctx = live_context();
    let bytes = action_node_bytes();
    let mut reader = Reader::new(&bytes);
    let node = PostFlopNode::decode(&mut reader, &ctx).unwrap();
    assert_eq!(node, action_node());
    assert_eq!(reader.left(), 0);
}

#[test]
fn node_is_rebuilt_on_other_bases() {
    let there = RebaseContext {
        storage1: Some(ArenaSpan { base: 0x70_0000, len: 16 }),
        storage2: Some(ArenaSpan { base: 0x80_0000, len: 16 }),
        storage_ip: Some(ArenaSpan { base: 0x90_0000, len: 8 }),
        storage_chance: Some(ArenaSpan { base: 0xa0_0000, len: 4 }),
    };
    let bytes = action_node_bytes();
    let mut reader = Reader::new(&bytes);
    let node = PostFlopNode::decode(&mut reader, &there).unwrap();
    assert_eq!(node.storage1, Some(0x70_0008));
    assert_eq!(node.storage2, Some(0x80_0008));
    assert_eq!(node.storage3, Some(0x90_0004));
    let expected = PostFlopNode {
        storage1: Some(0x70_0008),
        storage2: Some(0x80_0008),
        storage3: Some(0x90_0004),
        ..action_node()
    };
    assert_eq!(node, expected);
    assert!(node.is_placed_in(&there));
}

#[test]
fn second_primary_reference_is_never_written() {
    let ctx = live_context();
    let node = action_node();
    let mut out = Vec::new();
    node.encode(&ctx, &mut out);
    // 48 bytes of scalar fields, then exactly two offsets.
    assert_eq!(out.len(), 48 + 16);
}

#[test]
fn chance_node_writes_one_offset_from_the_chance_base() {
    let ctx = live_context();
    let node = PostFlopNode {
        prev_action: Action::Call,
        category: Category::Chance,
        num_elements_chance: 3,
        storage1: Some(0x4001),
        ..PostFlopNode::default()
    };
    assert!(node.is_placed_in(&ctx));
    let mut out = Vec::new();
    node.encode(&ctx, &mut out);
    assert_eq!(out.len(), 44 + 8);
    assert_eq!(&out[..5], &[3, 0, 0, 0, 2]);
    assert_eq!(&out[44..], &[1, 0, 0, 0, 0, 0, 0, 0]);
    let mut reader = Reader::new(&out);
    assert_eq!(PostFlopNode::decode(&mut reader, &ctx).unwrap(), node);
}

#[test]
fn terminal_node_writes_no_addressing_bytes() {
    let ctx = live_context();
    let node = PostFlopNode {
        prev_action: Action::Fold,
        category: Category::Terminal,
        amount: 40,
        ..PostFlopNode::default()
    };
    assert!(node.is_terminal());
    assert!(!node.is_chance());
    assert!(node.is_placed_in(&ctx));
    let mut out = Vec::new();
    node.encode(&ctx, &mut out);
    assert_eq!(out.len(), 44);
    assert_eq!(out[4], 3);
    let mut reader = Reader::new(&out);
    assert_eq!(PostFlopNode::decode(&mut reader, &ctx).unwrap(), node);
    assert_eq!(reader.left(), 0);
}

#[test]
fn without_bases_a_node_is_read_without_offsets() {
    let absent = RebaseContext::absent();
    assert!(absent.is_well_formed());
    let node = PostFlopNode {
        category: Category::Action(Player::OutOfPosition),
        num_elements: 4,
        num_elements_ip: 2,
        ..PostFlopNode::default()
    };
    assert!(node.is_placed_in(&absent));
    let mut out = Vec::new();
    node.encode(&absent, &mut out);
    assert_eq!(out.len(), 44);
    out.extend_from_slice(&[0xee; 16]);
    let mut reader = Reader::new(&out);
    let back = PostFlopNode::decode(&mut reader, &absent).unwrap();
    assert_eq!(back, node);
    assert_eq!(back.storage1, None);
    assert_eq!(back.storage2, None);
    assert_eq!(back.storage3, None);
    // Nothing was consumed for offsets.
    assert_eq!(reader.left(), 16);
}

#[test]
fn default_node_is_blank() {
    let node = PostFlopNode::default();
    assert_eq!(node.prev_action, Action::Start);
    assert_eq!(node.category, Category::Terminal);
    assert_eq!(node.amount, 0);
    assert_eq!(node.storage1, None);
    assert_eq!(node.storage2, None);
    assert_eq!(node.storage3, None);
    assert!(node.is_terminal());
}

#[test]
fn node_arena_is_length_then_nodes() {
    let ctx = live_context();
    let nodes = vec![
        action_node(),
        PostFlopNode { prev_action: Action::Fold, ..PostFlopNode::default() },
    ];
    let mut out = Vec::new();
    encode_nodes(&nodes, &ctx, &mut out);
    assert_eq!(out.len(), 8 + 64 + 44);
    assert_eq!(&out[..8], &[2, 0, 0, 0, 0, 0, 0, 0]);
    assert_eq!(&out[8..72], &action_node_bytes()[..]);
    let mut reader = Reader::new(&out);
    assert_eq!(decode_nodes(&mut reader, &ctx).unwrap(), nodes);
}

#[test]
fn stream_starts_with_the_version_tag_as_bincode_writes_a_string() {
    let game = PostFlopGame::default();
    assert!(game.is_well_formed());
    let bytes = game.to_bytes();
    let tag = bincode::encode_to_vec(VERSION_STR.to_string(), bincode::config::legacy()).unwrap();
    assert_eq!(tag.len(), 18);
    assert_eq!(&bytes[..18], &tag[..]);
    assert_eq!(&bytes[..8], &[10, 0, 0, 0, 0, 0, 0, 0]);
    assert_eq!(&bytes[8..18], "2023-03-01".as_bytes());
}

#[test]
fn empty_instance_has_the_documented_bytes() {
    let bytes = PostFlopGame::default().to_bytes();
    let mut expected = vec![10, 0, 0, 0, 0, 0, 0, 0];
    expected.extend_from_slice(b"2023-03-01");
    expected.extend_from_slice(&[0; 8]); // tree configuration
    expected.extend_from_slice(&[0; 8]); // added lines
    expected.extend_from_slice(&[0; 8]); // removed lines
    expected.extend_from_slice(&[0; 4]); // state
    expected.extend_from_slice(&[0; 8]); // card configuration
    expected.extend_from_slice(&[0; 8]); // combination count
    expected.push(0); // compression flag
    expected.extend_from_slice(&[0; 8]); // elements of action nodes
    expected.extend_from_slice(&[0; 8]); // elements of chance nodes
    expected.extend_from_slice(&[0; 8]); // memory accounting
    expected.extend_from_slice(&[0; 32]); // four empty arenas
    expected.extend_from_slice(&[0; 8]); // locking strategy
    expected.extend_from_slice(&[0; 8]); // history
    expected.push(0); // cache flag
    expected.extend_from_slice(&[0; 8]); // node arena
    assert_eq!(bytes, expected);
}

#[test]
fn fault_kinds_are_told_apart() {
    assert_eq!(StreamFault::UnknownVariant.classify(), FaultKind::UnknownVariant);
    assert_eq!(StreamFault::ArenaMismatch.classify(), FaultKind::ArenaMismatch);
    assert_eq!(StreamFault::EditReplay.classify(), FaultKind::EditReplay);
    let mut reader = Reader::new(&[]);
    let fault = reader.take_u8().unwrap_err();
    assert_eq!(fault.classify(), FaultKind::Primitive);
}
