use bazingo::engine::{
    all_gamepieces, compute_score, compute_turn_score, empty_gameboard, gamepiece_from_octal,
    is_legal_move, new_game, new_player, place_piece, BzGame, BzPlayer, GameEngineError,
    FINAL_EMPTY_BOARD_BONUS,
};

#[test]
fn game_contains_each_piece_once() {
    let game = BzGame::new(31);
    let mut pieces = game.pieces.clone();
    pieces.sort_by_key(|piece| format!("{piece:?}"));
    let mut expected = all_gamepieces();
    expected.sort_by_key(|piece| format!("{piece:?}"));
    assert_eq!(pieces, expected);
}

#[test]
fn placement_supports_empty_piece_edges() {
    let game = BzGame { pieces: vec![gamepiece_from_octal([0, 2, 0])], turns: 1 };
    let player = BzPlayer::new();
    assert!(place_piece(&game, &player, 1, -1, 0).is_ok());
    assert!(place_piece(&game, &player, 1, 0, 3).is_ok());
}

#[test]
fn scoring_removes_a_full_block() {
    let game = BzGame { pieces: all_gamepieces(), turns: 2 };
    let player = BzPlayer::new();
    let board = vec![
        vec![true, true, true, false, false],
        vec![true, true, true, false, false],
        vec![true, true, true, false, false],
        vec![false; 5],
        vec![false; 5],
    ];
    let result = compute_turn_score(&game, &player, 1, board).unwrap();
    assert_eq!(result.score, 45);
    assert!(result.gameboard.iter().flatten().all(|&pip| !pip));
}

#[test]
fn invalid_overlap_and_turns_are_rejected() {
    let game = BzGame { pieces: vec![gamepiece_from_octal([0, 2, 0])], turns: 1 };
    let mut player = BzPlayer::new();
    player.gameboard[1][1] = true;
    assert_eq!(place_piece(&game, &player, 1, 0, 0), Err(GameEngineError::IllegalPlacement));
    assert_eq!(
        compute_turn_score(&game, &player, 2, empty_gameboard()),
        Err(GameEngineError::TurnExceedsGame)
    );
}

#[test]
fn missed_turns_are_penalized() {
    let game = BzGame { pieces: all_gamepieces(), turns: 3 };
    let player = BzPlayer::new();
    let result = compute_turn_score(&game, &player, 3, empty_gameboard()).unwrap();
    assert_eq!(result.score, -14 + FINAL_EMPTY_BOARD_BONUS);
}

#[test]
fn new_game_contains_all_31_pieces_once() {
    let game = BzGame::new(31);
    let mut actual = game.pieces;
    let mut expected = all_gamepieces();
    actual.sort_by_key(|piece| format!("{piece:?}"));
    expected.sort_by_key(|piece| format!("{piece:?}"));
    assert_eq!(actual, expected);
}

#[test]
fn placement_handles_normal_edge_and_conflicting_moves() {
    let game = BzGame { pieces: vec![gamepiece_from_octal([0, 2, 0])], turns: 2 };
    let mut player = BzPlayer::new();
    assert!(place_piece(&game, &player, 1, -1, 0).is_ok());
    player.gameboard[1][1] = true;
    assert_eq!(place_piece(&game, &player, 1, 0, 0), Err(GameEngineError::IllegalPlacement));
}

#[test]
fn scoring_removes_a_three_by_three_block() {
    let game = BzGame { pieces: all_gamepieces(), turns: 2 };
    let player = BzPlayer::new();
    let board = vec![
        vec![true, true, true, false, false],
        vec![true, true, true, false, false],
        vec![true, true, true, false, false],
        vec![false; 5],
        vec![false; 5],
    ];
    let result = compute_turn_score(&game, &player, 1, board).unwrap();
    assert_eq!(result.score, 45);
    assert!(result.gameboard.iter().flatten().all(|&pip| !pip));
}

#[test]
fn missed_turns_and_final_empty_bonus_are_applied() {
    let game = BzGame { pieces: all_gamepieces(), turns: 3 };
    let result = compute_turn_score(&game, &BzPlayer::new(), 3, empty_gameboard()).unwrap();
    assert_eq!(result.score, -14 + FINAL_EMPTY_BOARD_BONUS);
}

#[test]
fn octal_digits_give_the_pips_of_each_row() {
    assert_eq!(
        gamepiece_from_octal([0, 7, 0]),
        vec![vec![false, false, false], vec![true, true, true], vec![false, false, false]]
    );
    assert_eq!(
        gamepiece_from_octal([1, 2, 4]),
        vec![vec![true, false, false], vec![false, true, false], vec![false, false, true]]
    );
    assert_eq!(
        gamepiece_from_octal([3, 0, 6]),
        vec![vec![true, true, false], vec![false, false, false], vec![false, true, true]]
    );
}

#[test]
fn the_game_has_31_distinct_pieces() {
    let pieces = all_gamepieces();
    assert_eq!(pieces.len(), 31);
    for i in 0..pieces.len() {
        for j in 0..pieces.len() {
            if i != j {
                assert_ne!(pieces[i], pieces[j]);
            }
        }
    }
    assert_eq!(pieces[0], gamepiece_from_octal([0, 2, 0]));
    assert_eq!(pieces[30], gamepiece_from_octal([2, 7, 2]));
}

#[test]
fn new_player_and_game_start_empty() {
    let player = new_player();
    assert_eq!(player.gameboard, vec![vec![false; 5]; 5]);
    assert_eq!(player.last_turn_played, 0);
    assert_eq!(BzPlayer::default(), player);
    let game = new_game(7);
    assert_eq!(game.turns, 7);
    assert_eq!(game.pieces.len(), 31);
}

#[test]
fn placing_a_piece_adds_its_pips() {
    let game = BzGame { pieces: vec![gamepiece_from_octal([0, 7, 0]), gamepiece_from_octal([2, 2, 2])], turns: 2 };
    let mut player = BzPlayer::new();
    player.gameboard[0][0] = true;
    let board = place_piece(&game, &player, 1, 1, 2).unwrap();
    let mut expected = vec![vec![false; 5]; 5];
    expected[0][0] = true;
    expected[3][1] = true;
    expected[3][2] = true;
    expected[3][3] = true;
    assert_eq!(board, expected);
    assert_eq!(is_legal_move(&game, &player, 1, 1, 2), Ok(expected));
}

#[test]
fn placement_errors_follow_the_rules_in_order() {
    let game = BzGame { pieces: vec![gamepiece_from_octal([0, 2, 0])], turns: 3 };
    let mut player = BzPlayer::new();
    assert_eq!(place_piece(&game, &player, 0, 0, 0), Err(GameEngineError::InvalidTurn));
    assert_eq!(place_piece(&game, &player, 4, 0, 0), Err(GameEngineError::TurnExceedsGame));
    assert_eq!(place_piece(&game, &player, 2, 0, 0), Err(GameEngineError::TurnExceedsGame));
    player.last_turn_played = 1;
    assert_eq!(place_piece(&game, &player, 1, 0, 0), Err(GameEngineError::TurnAlreadyPlayed));
    let bad_board = BzPlayer { gameboard: vec![vec![false; 5]; 4], last_turn_played: 0 };
    assert_eq!(place_piece(&game, &bad_board, 1, 0, 0), Err(GameEngineError::InvalidBoard));
    let bad_piece = BzGame { pieces: vec![vec![vec![true; 3]; 2]], turns: 1 };
    assert_eq!(place_piece(&bad_piece, &BzPlayer::new(), 1, 0, 0), Err(GameEngineError::InvalidPiece));
    assert_eq!(place_piece(&game, &BzPlayer::new(), 1, 4, 0), Err(GameEngineError::IllegalPlacement));
    assert_eq!(place_piece(&game, &BzPlayer::new(), 1, -2, 0), Err(GameEngineError::IllegalPlacement));
}

#[test]
fn far_placements_are_refused() {
    let center = BzGame { pieces: vec![gamepiece_from_octal([0, 2, 0])], turns: 1 };
    let column_zero = BzGame { pieces: vec![gamepiece_from_octal([1, 1, 1])], turns: 1 };
    let player = BzPlayer::new();
    assert_eq!(place_piece(&center, &player, 1, i32::MAX, 0), Err(GameEngineError::IllegalPlacement));
    assert_eq!(place_piece(&center, &player, 1, 0, i32::MAX), Err(GameEngineError::IllegalPlacement));
    assert_eq!(place_piece(&center, &player, 1, i32::MAX - 1, 0), Err(GameEngineError::IllegalPlacement));
    assert_eq!(place_piece(&column_zero, &player, 1, i32::MAX, 0), Err(GameEngineError::IllegalPlacement));
    assert_eq!(place_piece(&center, &player, 0, i32::MAX, 0), Err(GameEngineError::InvalidTurn));
    assert_eq!(place_piece(&column_zero, &player, 1, i32::MIN, i32::MIN), Err(GameEngineError::IllegalPlacement));
    assert!(place_piece(&center, &player, 1, 1, 1).is_ok());
}

#[test]
fn pieces_overhang_only_where_they_have_no_pips() {
    let top_empty = BzGame { pieces: vec![gamepiece_from_octal([0, 7, 7])], turns: 1 };
    let player = BzPlayer::new();
    assert!(place_piece(&top_empty, &player, 1, 1, -1).is_ok());
    assert_eq!(place_piece(&top_empty, &player, 1, 1, -2), Err(GameEngineError::IllegalPlacement));
    let bottom_empty = BzGame { pieces: vec![gamepiece_from_octal([7, 7, 0])], turns: 1 };
    assert!(place_piece(&bottom_empty, &player, 1, 0, 3).is_ok());
    let right_empty = BzGame { pieces: vec![gamepiece_from_octal([6, 6, 6])], turns: 1 };
    assert!(place_piece(&right_empty, &player, 1, -1, 2).is_ok());
    let left_empty = BzGame { pieces: vec![gamepiece_from_octal([3, 3, 3])], turns: 1 };
    assert!(place_piece(&left_empty, &player, 1, 3, 0).is_ok());
    assert_eq!(place_piece(&left_empty, &player, 1, 4, 0), Err(GameEngineError::IllegalPlacement));
}

#[test]
fn scoring_scans_larger_blocks_first() {
    let game = BzGame { pieces: all_gamepieces(), turns: 5 };
    let player = BzPlayer::new();
    let mut board = vec![vec![false; 5]; 5];
    for r in 0..3 {
        for c in 0..5 {
            board[r][c] = true;
        }
    }
    let result = compute_turn_score(&game, &player, 1, board).unwrap();
    // The 3x3 block at the left is found first; the 2x3 column strip left over is then scored.
    assert_eq!(result.scored_blocks, vec![(0, 0, 3, 3), (3, 0, 2, 3)]);
    assert_eq!(result.score, 45 + 15);
    assert_eq!(result.gameboard, vec![vec![false; 5]; 5]);
}

#[test]
fn scoring_finds_several_small_blocks_and_leaves_the_rest() {
    let game = BzGame { pieces: all_gamepieces(), turns: 5 };
    let player = BzPlayer { gameboard: vec![vec![false; 5]; 5], last_turn_played: 1 };
    let mut board = vec![vec![false; 5]; 5];
    board[0][0] = true;
    board[0][1] = true;
    board[1][0] = true;
    board[1][1] = true;
    board[3][3] = true;
    board[3][4] = true;
    board[4][3] = true;
    board[4][4] = true;
    board[4][0] = true;
    let result = compute_score(&game, &player, 2, board).unwrap();
    assert_eq!(result.scored_blocks, vec![(0, 0, 2, 2), (3, 3, 2, 2)]);
    assert_eq!(result.score, 10);
    let mut expected = vec![vec![false; 5]; 5];
    expected[4][0] = true;
    assert_eq!(result.gameboard, expected);
}

#[test]
fn scoring_errors_follow_the_rules_in_order() {
    let game = BzGame { pieces: all_gamepieces(), turns: 3 };
    let player = BzPlayer { gameboard: empty_gameboard(), last_turn_played: 2 };
    assert_eq!(compute_turn_score(&game, &player, 1, vec![vec![false; 5]; 3]), Err(GameEngineError::InvalidBoard));
    assert_eq!(compute_turn_score(&game, &player, 0, empty_gameboard()), Err(GameEngineError::InvalidTurn));
    assert_eq!(compute_turn_score(&game, &player, 4, empty_gameboard()), Err(GameEngineError::TurnExceedsGame));
    assert_eq!(compute_turn_score(&game, &player, 2, empty_gameboard()), Err(GameEngineError::TurnAlreadyPlayed));
    let next = compute_turn_score(&game, &player, 3, empty_gameboard()).unwrap();
    assert_eq!(next.score, FINAL_EMPTY_BOARD_BONUS);
}

#[test]
fn no_bonus_before_the_final_turn_or_with_pips_left() {
    let game = BzGame { pieces: all_gamepieces(), turns: 3 };
    let player = BzPlayer::new();
    assert_eq!(compute_turn_score(&game, &player, 1, empty_gameboard()).unwrap().score, 0);
    let mut board = empty_gameboard();
    board[2][2] = true;
    let last = compute_turn_score(&game, &BzPlayer { gameboard: empty_gameboard(), last_turn_played: 2 }, 3, board).unwrap();
    assert_eq!(last.score, 0);
    assert!(last.gameboard[2][2]);
}

#[test]
fn engine_errors_are_named() {
    assert_eq!(GameEngineError::InvalidBoard.to_string(), "InvalidBoard");
    assert_eq!(GameEngineError::IllegalPlacement.to_string(), "IllegalPlacement");
    assert_eq!(GameEngineError::TurnAlreadyPlayed.to_string(), "TurnAlreadyPlayed");
}

#[test]
fn new_games_deal_the_pieces_in_shuffled_orders() {
    // Each game holds every piece once; the order is random, so over a few games at least one
    // differs from the listing order (the chance that all match is 1 in 31! per game).
    let listed = all_gamepieces();
    let mut shuffled = false;
    for _ in 0..3 {
        let game = BzGame::new(31);
        assert_eq!(game.pieces.len(), 31);
        if game.pieces != listed {
            shuffled = true;
        }
    }
    assert!(shuffled);
}

#[test]
fn scoring_a_scored_board_again_changes_nothing() {
    let game = BzGame { pieces: all_gamepieces(), turns: 2 };
    let player = BzPlayer::new();
    let mut board = vec![vec![true; 5]; 5];
    board[4][4] = false;
    let first = compute_turn_score(&game, &player, 1, board).unwrap();
    assert!(!first.scored_blocks.is_empty());
    let again = compute_turn_score(&game, &player, 1, first.gameboard.clone()).unwrap();
    assert_eq!(again.gameboard, first.gameboard);
    assert!(again.scored_blocks.is_empty());
    assert_eq!(again.score, 0);
}
