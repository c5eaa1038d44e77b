//! Whole instances through encode and decode, on the same and on other
//! bases.

use solver_snapshot::action::Action;
use solver_snapshot::arena::{ArenaBases, ArenaSpan, RebaseContext};
use solver_snapshot::game::PostFlopGame;
use solver_snapshot::node::{Category, Player, PostFlopNode};
use solver_snapshot::reader::Reader;
use solver_snapshot::rebuild::RebuildStep;
use solver_snapshot::state::State;

fn here() -> ArenaBases {
    ArenaBases { storage1: 0x1000, storage2: 0x2000, storage_ip: 0x3000, storage_chance: 0x4000 }
}

fn there() -> ArenaBases {
    ArenaBases {
        storage1: 0x7f00_0000,
        storage2: 0x7f10_0040,
        storage_ip: 0x10,
        storage_chance: 0x5555_0000,
    }
}

/// One street, two actions: the root decides between checking and betting,
/// and both moves end the hand.
fn one_street(state: State, bases: ArenaBases) -> PostFlopGame {
    let root = PostFlopNode {
        prev_action: Action::Start,
        category: Category::Action(Player::OutOfPosition),
        turn: 40,
        river: 41,
        children_offset: 1,
        num_children: 2,
        num_elements: 4,
        num_elements_ip: 2,
        scale1: 0.5f32.to_bits(),
        scale2: 0.25f32.to_bits(),
        scale3: 8.0f32.to_bits(),
        storage1: Some(bases.storage1),
        storage2: Some(bases.storage2),
        storage3: Some(bases.storage_ip),
        ..PostFlopNode::default()
    };
    let check = PostFlopNode {
        prev_action: Action::Check,
        category: Category::Terminal,
        amount: 0,
        ..PostFlopNode::default()
    };
    let bet = PostFlopNode {
        prev_action: Action::Bet(60),
        category: Category::Terminal,
        amount: 60,
        ..PostFlopNode::default()
    };
    PostFlopGame {
        tree_config: vec![1, 2, 3, 4, 5],
        state,
        card_config: vec![9, 8, 7],
        num_combinations: 1326,
        is_compression_enabled: true,
        num_storage_actions: 4,
        num_storage_chances: 0,
        misc_memory_usage: 4096,
        bases,
        storage1: vec![11, 12, 13, 14],
        storage2: vec![21, 22, 23, 24],
        storage_ip: vec![31, 32],
        storage_chance: vec![],
        locking_strategy: vec![0xde, 0xad],
        history: vec![],
        is_normalized_weight_cached: false,
        node_arena: vec![root, check, bet],
        ..PostFlopGame::default()
    }
}

/// Two streets: an action node, a chance node behind it, and a second
/// action node whose storage lies further into the arenas.
fn two_streets(state: State, bases: ArenaBases) -> PostFlopGame {
    let root = PostFlopNode {
        prev_action: Action::Start,
        category: Category::Action(Player::OutOfPosition),
        children_offset: 1,
        num_children: 1,
        num_elements: 4,
        num_elements_ip: 2,
        storage1: Some(bases.storage1),
        storage2: Some(bases.storage2),
        storage3: Some(bases.storage_ip),
        ..PostFlopNode::default()
    };
    let deal = PostFlopNode {
        prev_action: Action::Check,
        category: Category::Chance,
        children_offset: 2,
        num_children: 1,
        num_elements_chance: 3,
        storage1: Some(bases.storage_chance + 2),
        ..PostFlopNode::default()
    };
    let second = PostFlopNode {
        prev_action: Action::Chance(17),
        category: Category::Action(Player::InPosition),
        turn: 17,
        children_offset: 3,
        num_children: 1,
        num_elements: 6,
        num_elements_ip: 3,
        is_locked: true,
        storage1: Some(bases.storage1 + 4),
        storage2: Some(bases.storage2 + 4),
        storage3: Some(bases.storage_ip + 2),
        ..PostFlopNode::default()
    };
    let end = PostFlopNode {
        prev_action: Action::AllIn(900),
        category: Category::Terminal,
        amount: 900,
        ..PostFlopNode::default()
    };
    PostFlopGame {
        tree_config: vec![0x10, 0x20],
        added_lines: vec![vec![Action::Check, Action::Chance(17), Action::AllIn(900)]],
        state,
        card_config: vec![3, 1, 4, 1, 5],
        num_combinations: 990,
        num_storage_actions: 10,
        num_storage_chances: 5,
        bases,
        storage1: vec![100, 101, 102, 103, 104, 105, 106, 107, 108, 109],
        storage2: vec![200, 201, 202, 203, 204, 205, 206, 207, 208, 209],
        storage_ip: vec![50, 51, 52, 53, 54],
        storage_chance: vec![70, 71, 72, 73, 74],
        history: vec![0, 0],
        is_normalized_weight_cached: true,
        node_arena: vec![root, deal, second, end],
        ..PostFlopGame::default()
    }
}

/// The same instance with no storage allocated and no node addressing any.
fn unallocated(game: &PostFlopGame) -> PostFlopGame {
    let mut bare = game.clone();
    bare.state = State::Uninitialized;
    bare.storage1.clear();
    bare.storage2.clear();
    bare.storage_ip.clear();
    bare.storage_chance.clear();
    for node in bare.node_arena.iter_mut() {
        node.storage1 = None;
        node.storage2 = None;
        node.storage3 = None;
    }
    bare
}

fn trip(game: &PostFlopGame, to: ArenaBases) -> PostFlopGame {
    assert!(game.is_well_formed());
    let bytes = game.to_bytes();
    let back = PostFlopGame::from_bytes(&bytes, to).unwrap();
    assert!(back.is_well_formed());
    back
}

fn steps_of(game: &PostFlopGame) -> Vec<RebuildStep> {
    let mut steps = Vec::new();
    let mut done = None;
    loop {
        match game.next_step(done, true).unwrap() {
            Some(step) => {
                steps.push(step);
                done = Some(step);
            }
            None => return steps,
        }
    }
}

#[test]
fn round_trip_on_the_same_bases_is_the_identity() {
    for state in [State::MemoryAllocated, State::TreeBuilt, State::Solved] {
        let game = one_street(state, here());
        assert_eq!(trip(&game, here()), game);
        let game = two_streets(state, here());
        assert_eq!(trip(&game, here()), game);
    }
}

#[test]
fn round_trip_of_an_unallocated_instance_is_the_identity() {
    let game = unallocated(&two_streets(State::TreeBuilt, here()));
    assert_eq!(trip(&game, here()), game);
}

#[test]
fn round_trip_of_the_empty_instance_is_the_identity() {
    let game = PostFlopGame::default();
    assert_eq!(trip(&game, game.bases), game);
}

#[test]
fn round_trip_to_other_bases_moves_every_reference() {
    let game = two_streets(State::TreeBuilt, here());
    let back = trip(&game, there());
    assert_eq!(back, two_streets(State::TreeBuilt, there()));
    assert_eq!(back.bases, there());
    assert_eq!(back.node_arena[2].storage1, Some(0x7f00_0004));
    assert_eq!(back.node_arena[2].storage2, Some(0x7f10_0044));
    assert_eq!(back.node_arena[2].storage3, Some(0x12));
    assert_eq!(back.node_arena[1].storage1, Some(0x5555_0002));
}

#[test]
fn stream_does_not_depend_on_where_the_arenas_live() {
    let a = two_streets(State::Solved, here()).to_bytes();
    let b = two_streets(State::Solved, there()).to_bytes();
    assert_eq!(a, b);
}

#[test]
fn known_values_in_root_storage_are_read_back() {
    let mut game = one_street(State::MemoryAllocated, here());
    game.storage1 = vec![0xc0, 0xff, 0xee, 0x01];
    game.storage2 = vec![0x0b, 0xad, 0xf0, 0x0d];
    game.storage_ip = vec![0x12, 0x34];
    assert!(game.is_well_formed());
    assert_eq!(game.storage1_of(0), Some(&[0xc0, 0xff, 0xee, 0x01][..]));

    let back = trip(&game, there());
    assert_eq!(back.storage1_of(0), Some(&[0xc0, 0xff, 0xee, 0x01][..]));
    assert_eq!(back.storage2_of(0), Some(&[0x0b, 0xad, 0xf0, 0x0d][..]));
    assert_eq!(back.storage3_of(0), Some(&[0x12, 0x34][..]));
    assert_eq!(back.node_arena.len(), 3);
    assert_eq!(back.node_arena[0].num_children, 2);
    assert_eq!(back.storage1_of(1), None);
    assert_eq!(back.storage1_of(2), None);
}

#[test]
fn every_node_reads_the_same_values_after_a_move() {
    let game = two_streets(State::TreeBuilt, here());
    let back = trip(&game, there());
    for i in 0..game.node_arena.len() {
        assert_eq!(back.storage1_of(i), game.storage1_of(i));
        assert_eq!(back.storage2_of(i), game.storage2_of(i));
        assert_eq!(back.storage3_of(i), game.storage3_of(i));
    }
    assert_eq!(back.storage1_of(0), Some(&[100, 101, 102, 103][..]));
    assert_eq!(back.storage1_of(1), Some(&[72, 73, 74][..]));
    assert_eq!(back.storage2_of(1), None);
    assert_eq!(back.storage1_of(2), Some(&[104, 105, 106, 107, 108, 109][..]));
    assert_eq!(back.storage2_of(2), Some(&[204, 205, 206, 207, 208, 209][..]));
    assert_eq!(back.storage3_of(2), Some(&[52, 53, 54][..]));
    assert_eq!(back.storage3_of(3), None);
}

#[test]
fn scalar_fields_of_every_node_survive() {
    let game = two_streets(State::TreeBuilt, here());
    let back = trip(&game, there());
    assert_eq!(back.node_arena.len(), game.node_arena.len());
    for (a, b) in game.node_arena.iter().zip(back.node_arena.iter()) {
        let bare_a = PostFlopNode { storage1: None, storage2: None, storage3: None, ..*a };
        let bare_b = PostFlopNode { storage1: None, storage2: None, storage3: None, ..*b };
        assert_eq!(bare_a, bare_b);
    }
    assert_eq!(back.tree_config, game.tree_config);
    assert_eq!(back.card_config, game.card_config);
    assert_eq!(back.num_combinations, 990);
    assert_eq!(back.num_storage_actions, 10);
    assert_eq!(back.num_storage_chances, 5);
    assert_eq!(back.locking_strategy, game.locking_strategy);
    assert_eq!(back.state, State::TreeBuilt);
}

#[test]
fn primary_offsets_are_mirrored_before_and_after() {
    let game = two_streets(State::Solved, here());
    let back = trip(&game, there());
    for (instance, bases) in [(&game, here()), (&back, there())] {
        for node in instance.node_arena.iter() {
            if let Category::Action(_) = node.category {
                let a = node.storage1.unwrap() - bases.storage1;
                let b = node.storage2.unwrap() - bases.storage2;
                assert_eq!(a, b);
            }
        }
    }
    assert_eq!(back.node_arena[2].storage1.unwrap() - there().storage1, 4);
}

#[test]
fn unmirrored_references_are_not_well_formed() {
    let mut game = two_streets(State::Solved, here());
    game.node_arena[2].storage2 = Some(here().storage2 + 3);
    assert!(!game.is_well_formed());
}

#[test]
fn below_memory_allocated_no_node_is_addressed_on_either_side() {
    let game = unallocated(&two_streets(State::TreeBuilt, here()));
    assert!(game.is_well_formed());
    assert!(game.node_arena.iter().all(|n| n.storage1.is_none()
        && n.storage2.is_none()
        && n.storage3.is_none()));
    let back = trip(&game, there());
    assert_eq!(back.node_arena.len(), 4);
    assert!(back.node_arena.iter().all(|n| n.storage1.is_none()
        && n.storage2.is_none()
        && n.storage3.is_none()));
    assert_eq!(back.context(), RebaseContext::absent());
}

#[test]
fn addressed_node_below_memory_allocated_is_not_well_formed() {
    let mut game = unallocated(&one_street(State::TreeBuilt, here()));
    game.node_arena[0].storage1 = Some(0x1000);
    assert!(!game.is_well_formed());
}

#[test]
fn unaddressed_node_from_memory_allocated_on_is_not_well_formed() {
    let mut game = one_street(State::MemoryAllocated, here());
    game.node_arena[0].storage3 = None;
    assert!(!game.is_well_formed());
}

#[test]
fn reference_that_leaves_its_arena_is_not_well_formed() {
    let mut game = one_street(State::MemoryAllocated, here());
    game.node_arena[0].num_elements = 5;
    assert!(!game.is_well_formed());
    let mut game = one_street(State::MemoryAllocated, here());
    game.node_arena[0].storage3 = Some(here().storage_ip + 1);
    assert!(!game.is_well_formed());
    let mut game = one_street(State::MemoryAllocated, here());
    game.node_arena[0].storage1 = Some(here().storage1 - 1);
    game.node_arena[0].storage2 = Some(here().storage2 - 1);
    assert!(!game.is_well_formed());
}

#[test]
fn context_is_live_from_memory_allocated_on() {
    let game = one_street(State::MemoryAllocated, here());
    let ctx = game.context();
    assert_eq!(ctx.storage1, Some(ArenaSpan { base: 0x1000, len: 4 }));
    assert_eq!(ctx.storage2, Some(ArenaSpan { base: 0x2000, len: 4 }));
    assert_eq!(ctx.storage_ip, Some(ArenaSpan { base: 0x3000, len: 2 }));
    assert_eq!(ctx.storage_chance, Some(ArenaSpan { base: 0x4000, len: 0 }));
    let mut game = game;
    game.state = State::Uninitialized;
    assert_eq!(game.context(), RebaseContext::absent());
}

#[test]
fn established_context_follows_the_state() {
    let span = ArenaSpan { base: 8, len: 8 };
    for state in [State::MemoryAllocated, State::TreeBuilt, State::Solved] {
        let ctx = RebaseContext::establish(state, span, span, span, span);
        assert_eq!(ctx.storage1, Some(span));
        assert_eq!(ctx.storage_chance, Some(span));
    }
    let ctx = RebaseContext::establish(State::Uninitialized, span, span, span, span);
    assert_eq!(ctx, RebaseContext::absent());
}

#[test]
fn span_knows_what_it_holds() {
    let span = ArenaSpan { base: 100, len: 10 };
    assert!(span.is_fitting());
    assert!(span.contains(100, 10));
    assert!(span.contains(110, 0));
    assert!(span.contains(105, 5));
    assert!(!span.contains(105, 6));
    assert!(!span.contains(99, 1));
    assert!(!span.contains(111, 0));
    assert!(!ArenaSpan { base: usize::MAX, len: 1 }.is_fitting());
    assert!(ArenaSpan { base: usize::MAX, len: 0 }.is_fitting());
}

#[test]
fn edit_log_is_read_back_line_by_line() {
    let mut game = one_street(State::TreeBuilt, here());
    game.added_lines = vec![vec![Action::Bet(60), Action::Raise(180), Action::Call]];
    game.removed_lines = vec![vec![Action::Check]];
    let back = trip(&game, there());
    assert_eq!(back.added_lines, vec![vec![Action::Bet(60), Action::Raise(180), Action::Call]]);
    assert_eq!(back.removed_lines, vec![vec![Action::Check]]);
    assert_eq!(back.tree_config, game.tree_config);
    assert_eq!(steps_of(&back), steps_of(&game));
    assert_eq!(
        steps_of(&back),
        vec![
            RebuildStep::CreateTree,
            RebuildStep::AddLine(0),
            RebuildStep::RemoveLine(0),
            RebuildStep::EjectTree,
            RebuildStep::InitHands,
            RebuildStep::InitCardFields,
            RebuildStep::InitInterpreter,
            RebuildStep::ApplyHistory,
        ]
    );
}

#[test]
fn history_is_read_back_and_replayed_from_tree_built_on() {
    let mut game = two_streets(State::TreeBuilt, here());
    game.history = vec![0, 0, 0];
    let back = trip(&game, there());
    assert_eq!(back.history, vec![0, 0, 0]);
    let steps = steps_of(&back);
    assert_eq!(steps, steps_of(&game));
    assert!(steps.contains(&RebuildStep::ApplyHistory));
    assert_eq!(steps.last(), Some(&RebuildStep::CacheNormalizedWeights));
}

#[test]
fn below_tree_built_only_the_tree_is_rebuilt() {
    let game = two_streets(State::MemoryAllocated, here());
    let back = trip(&game, here());
    assert_eq!(
        steps_of(&back),
        vec![RebuildStep::CreateTree, RebuildStep::AddLine(0), RebuildStep::EjectTree]
    );
}

#[test]
fn lines_are_replayed_in_order_adds_before_removals() {
    let mut game = PostFlopGame::default();
    game.added_lines = vec![vec![Action::Check], vec![Action::Fold], vec![]];
    game.removed_lines = vec![vec![Action::Call], vec![Action::Bet(1)]];
    assert_eq!(
        steps_of(&game),
        vec![
            RebuildStep::CreateTree,
            RebuildStep::AddLine(0),
            RebuildStep::AddLine(1),
            RebuildStep::AddLine(2),
            RebuildStep::RemoveLine(0),
            RebuildStep::RemoveLine(1),
            RebuildStep::EjectTree,
        ]
    );
    game.added_lines.clear();
    assert_eq!(
        steps_of(&game),
        vec![
            RebuildStep::CreateTree,
            RebuildStep::RemoveLine(0),
            RebuildStep::RemoveLine(1),
            RebuildStep::EjectTree,
        ]
    );
    game.removed_lines.clear();
    assert_eq!(steps_of(&game), vec![RebuildStep::CreateTree, RebuildStep::EjectTree]);
}

#[test]
fn weights_are_recomputed_only_where_they_were_cached() {
    let mut game = PostFlopGame::default();
    game.state = State::Solved;
    game.is_normalized_weight_cached = false;
    assert_eq!(steps_of(&game).last(), Some(&RebuildStep::ApplyHistory));
    game.is_normalized_weight_cached = true;
    assert_eq!(steps_of(&game).last(), Some(&RebuildStep::CacheNormalizedWeights));
    assert_eq!(steps_of(&game).len(), 7);
}

#[test]
fn decode_leaves_the_reader_behind_the_instance() {
    let game = two_streets(State::TreeBuilt, here());
    let mut bytes = vec![0x55];
    game.encode(&mut bytes);
    assert_eq!(bytes[0], 0x55);
    let end = bytes.len();
    bytes.extend_from_slice(&[1, 2, 3]);
    let mut reader = Reader::new(&bytes);
    assert_eq!(reader.take_u8().unwrap(), 0x55);
    let back = PostFlopGame::decode(&mut reader, here()).unwrap();
    assert_eq!(back, game);
    assert_eq!(reader.left(), 3);
    assert_eq!(end + 3, bytes.len());
}

#[test]
fn trailing_bytes_are_ignored_by_from_bytes() {
    let game = one_street(State::Solved, here());
    let mut bytes = game.to_bytes();
    bytes.extend_from_slice(&[0xff; 9]);
    assert_eq!(PostFlopGame::from_bytes(&bytes, here()).unwrap(), game);
}

#[test]
fn default_instance_is_empty_and_well_formed() {
    let game = PostFlopGame::default();
    assert!(game.is_well_formed());
    assert_eq!(game.state, State::Uninitialized);
    assert!(game.node_arena.is_empty());
    assert!(game.storage1.is_empty());
    assert_eq!(game.bases, ArenaBases { storage1: 0, storage2: 0, storage_ip: 0, storage_chance: 0 });
}

#[test]
fn move_to_takes_every_reference_along() {
    let mut game = two_streets(State::TreeBuilt, here());
    assert!(game.move_to(there()));
    assert_eq!(game, two_streets(State::TreeBuilt, there()));
    assert!(game.is_well_formed());
    assert_eq!(game.storage1_of(2), Some(&[104, 105, 106, 107, 108, 109][..]));
    assert!(game.move_to(here()));
    assert_eq!(game, two_streets(State::TreeBuilt, here()));
}

#[test]
fn move_to_is_what_a_round_trip_does() {
    let game = two_streets(State::Solved, here());
    let back = trip(&game, there());
    let mut moved = game.clone();
    assert!(moved.move_to(there()));
    assert_eq!(moved, back);
    assert_eq!(moved.to_bytes(), game.to_bytes());
}

#[test]
fn move_to_leaves_an_unallocated_instance_unaddressed() {
    let mut game = unallocated(&one_street(State::TreeBuilt, here()));
    let before = game.clone();
    assert!(game.move_to(there()));
    assert_eq!(game.bases, there());
    assert_eq!(game.node_arena, before.node_arena);
    assert_eq!(game.history, before.history);
}

#[test]
fn move_to_refuses_bases_where_an_arena_does_not_fit() {
    let mut game = one_street(State::MemoryAllocated, here());
    let before = game.clone();
    let far = ArenaBases { storage1: usize::MAX - 2, ..there() };
    assert!(!game.move_to(far));
    assert_eq!(game, before);
    let near = ArenaBases { storage1: usize::MAX - 4, ..there() };
    assert!(game.move_to(near));
    assert_eq!(game.node_arena[0].storage1, Some(usize::MAX - 4));
}

#[test]
fn move_to_refuses_an_instance_that_is_not_well_formed() {
    let mut game = one_street(State::MemoryAllocated, here());
    game.node_arena[0].storage2 = Some(0x2001);
    let before = game.clone();
    assert!(!game.move_to(there()));
    assert_eq!(game, before);
}

#[test]
fn rebase_keeps_the_distance_from_each_base() {
    let from = two_streets(State::TreeBuilt, here()).context();
    let to = two_streets(State::TreeBuilt, there()).context();
    let nodes = two_streets(State::TreeBuilt, here()).node_arena;
    let expected = two_streets(State::TreeBuilt, there()).node_arena;
    for (node, wanted) in nodes.iter().zip(expected.iter()) {
        assert!(node.is_placed_in(&from));
        let moved = node.rebase(&from, &to);
        assert_eq!(&moved, wanted);
        assert!(moved.is_placed_in(&to));
    }
}

#[test]
fn what_decodes_encodes_to_the_bytes_it_was_read_from() {
    for game in [
        PostFlopGame::default(),
        one_street(State::MemoryAllocated, here()),
        two_streets(State::Solved, here()),
        unallocated(&two_streets(State::TreeBuilt, here())),
    ] {
        let bytes = game.to_bytes();
        let mut longer = bytes.clone();
        longer.extend_from_slice(&[7, 7, 7]);
        let mut reader = Reader::new(&longer);
        let back = PostFlopGame::decode(&mut reader, there()).unwrap();
        assert_eq!(reader.left(), 3);
        assert_eq!(back.to_bytes(), bytes);
    }
}

#[test]
fn checked_to_bytes_refuses_what_is_not_well_formed() {
    let game = two_streets(State::TreeBuilt, here());
    assert_eq!(game.checked_to_bytes(), Some(game.to_bytes()));
    let mut broken = game.clone();
    broken.storage2.pop();
    assert!(!broken.is_well_formed());
    assert_eq!(broken.checked_to_bytes(), None);
    let mut broken = game.clone();
    broken.node_arena[1].storage1 = None;
    assert_eq!(broken.checked_to_bytes(), None);
}
