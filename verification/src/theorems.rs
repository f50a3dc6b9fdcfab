use vstd::prelude::*;
use crate::api::{spec_my_game, count_matches, listing_from, listing_run, step_push, step_stop};
use crate::services::{
    current_turn_defined, default_game_length, engine_game, engine_player, engine_turn,
    move_timing, placed_board, rfc3339_parse, scheduled_at, spec_current_turn, spec_game_open,
    move_defined, spec_join, spec_play_move, turn_slot, Failure, GameRecord, PlayerGameRecord, PlayerState,
    DEFAULT_INTERIM_SECONDS, DEFAULT_NUMBER_OF_TURNS, DEFAULT_TURN_DURATION_SECONDS,
    NANOS_PER_SECOND, START_DELAY_NANOS,
};
use crate::engine::{
    block_full, block_order, clear_block, spec_compute_turn_score, spec_place_piece, BzGame,
    BzPlayer, code_rows, final_bonus, grid, in_block, missed_penalty,
    octal_bit, octal_piece, piece_code, piece_fits, scan_blocks, spec_all_gamepieces,
    spec_empty_board, spec_score_blocks, valid_board, valid_piece, Block, NUMBER_OF_PIECES,
};

verus! {

proof fn lemma_codes_distinct()
    ensures
        forall|i: int, j: int|
            0 <= i < NUMBER_OF_PIECES && 0 <= j < NUMBER_OF_PIECES && i != j ==> piece_code(i)
                != piece_code(j),
        forall|i: int| 0 <= i < NUMBER_OF_PIECES ==> piece_code(i) < 512,
{
}

/// Nine bits that agree give the same code.
proof fn lemma_code_from_cells(a: u16, b: u16)
    requires
        a < 512,
        b < 512,
        forall|r: int, c: int|
            0 <= r < 3 && 0 <= c < 3 ==> #[trigger] octal_bit(code_rows(a)[r], c) == octal_bit(
                code_rows(b)[r],
                c,
            ),
    ensures
        a == b,
{
    let a0 = ((a >> 6u16) & 7u16) as u8;
    let a1 = ((a >> 3u16) & 7u16) as u8;
    let a2 = (a & 7u16) as u8;
    let b0 = ((b >> 6u16) & 7u16) as u8;
    let b1 = ((b >> 3u16) & 7u16) as u8;
    let b2 = (b & 7u16) as u8;
    assert(octal_bit(code_rows(a)[0], 0) == octal_bit(code_rows(b)[0], 0));
    assert(octal_bit(code_rows(a)[0], 1) == octal_bit(code_rows(b)[0], 1));
    assert(octal_bit(code_rows(a)[0], 2) == octal_bit(code_rows(b)[0], 2));
    assert(octal_bit(code_rows(a)[1], 0) == octal_bit(code_rows(b)[1], 0));
    assert(octal_bit(code_rows(a)[1], 1) == octal_bit(code_rows(b)[1], 1));
    assert(octal_bit(code_rows(a)[1], 2) == octal_bit(code_rows(b)[1], 2));
    assert(octal_bit(code_rows(a)[2], 0) == octal_bit(code_rows(b)[2], 0));
    assert(octal_bit(code_rows(a)[2], 1) == octal_bit(code_rows(b)[2], 1));
    assert(octal_bit(code_rows(a)[2], 2) == octal_bit(code_rows(b)[2], 2));
    assert(a == b) by (bit_vector)
        requires
            a < 512,
            b < 512,
            a0 == ((a >> 6u16) & 7u16) as u8,
            a1 == ((a >> 3u16) & 7u16) as u8,
            a2 == (a & 7u16) as u8,
            b0 == ((b >> 6u16) & 7u16) as u8,
            b1 == ((b >> 3u16) & 7u16) as u8,
            b2 == (b & 7u16) as u8,
            (a0 & (1u8 << 0u8) != 0u8) == (b0 & (1u8 << 0u8) != 0u8),
            (a0 & (1u8 << 1u8) != 0u8) == (b0 & (1u8 << 1u8) != 0u8),
            (a0 & (1u8 << 2u8) != 0u8) == (b0 & (1u8 << 2u8) != 0u8),
            (a1 & (1u8 << 0u8) != 0u8) == (b1 & (1u8 << 0u8) != 0u8),
            (a1 & (1u8 << 1u8) != 0u8) == (b1 & (1u8 << 1u8) != 0u8),
            (a1 & (1u8 << 2u8) != 0u8) == (b1 & (1u8 << 2u8) != 0u8),
            (a2 & (1u8 << 0u8) != 0u8) == (b2 & (1u8 << 0u8) != 0u8),
            (a2 & (1u8 << 1u8) != 0u8) == (b2 & (1u8 << 1u8) != 0u8),
            (a2 & (1u8 << 2u8) != 0u8) == (b2 & (1u8 << 2u8) != 0u8),
    ;
}

/// The game's pieces are pairwise different: no two of the 31 have the same pips.
pub proof fn lemma_pieces_distinct()
    ensures
        spec_all_gamepieces().len() == NUMBER_OF_PIECES,
        forall|i: int, j: int|
            0 <= i < NUMBER_OF_PIECES && 0 <= j < NUMBER_OF_PIECES && i != j
                ==> spec_all_gamepieces()[i] != spec_all_gamepieces()[j],
{
    lemma_codes_distinct();
    assert forall|i: int, j: int|
        0 <= i < NUMBER_OF_PIECES && 0 <= j < NUMBER_OF_PIECES && i != j implies spec_all_gamepieces()[i]
        != spec_all_gamepieces()[j] by {
        let a = piece_code(i);
        let b = piece_code(j);
        if spec_all_gamepieces()[i] == spec_all_gamepieces()[j] {
            assert forall|r: int, c: int| 0 <= r < 3 && 0 <= c < 3 implies #[trigger] octal_bit(
                code_rows(a)[r],
                c,
            ) == octal_bit(code_rows(b)[r], c) by {
                assert(octal_piece(code_rows(a))[r][c] == octal_piece(code_rows(b))[r][c]);
            }
            lemma_code_from_cells(a, b);
        }
    }
}


proof fn lemma_prefix_counts(k: int)
    requires
        0 <= k <= NUMBER_OF_PIECES,
    ensures
        forall|i: int|
            0 <= i < NUMBER_OF_PIECES ==> #[trigger] spec_all_gamepieces().take(k).to_multiset().count(
                spec_all_gamepieces()[i],
            ) == if i < k {
                1nat
            } else {
                0nat
            },
    decreases k,
{
    broadcast use vstd::seq_lib::group_to_multiset_ensures;

    let all = spec_all_gamepieces();
    lemma_pieces_distinct();
    if k == 0 {
        assert(all.take(0) =~= Seq::<Seq<Seq<bool>>>::empty());
    } else {
        lemma_prefix_counts(k - 1);
        assert(all.take(k) =~= all.take(k - 1).push(all[k - 1]));
        assert forall|i: int| 0 <= i < NUMBER_OF_PIECES implies #[trigger] all.take(k).to_multiset().count(
            all[i],
        ) == if i < k {
            1nat
        } else {
            0nat
        } by {
            assert(all.take(k - 1).to_multiset().count(all[i]) == if i < k - 1 {
                1nat
            } else {
                0nat
            });
        }
    }
}

/// A new game deals each of the 31 pieces exactly once: whatever order the shuffle gives,
/// the game holds 31 pieces and each piece of the game occurs once among them.
pub proof fn lemma_game_deals_each_piece_once(pieces: Seq<Seq<Seq<bool>>>)
    requires
        pieces.to_multiset() == spec_all_gamepieces().to_multiset(),
    ensures
        pieces.len() == NUMBER_OF_PIECES,
        forall|i: int|
            0 <= i < NUMBER_OF_PIECES ==> #[trigger] pieces.to_multiset().count(spec_all_gamepieces()[i])
                == 1,
{
    broadcast use vstd::seq_lib::group_to_multiset_ensures;

    lemma_prefix_counts(NUMBER_OF_PIECES as int);
    assert(spec_all_gamepieces().take(NUMBER_OF_PIECES as int) =~= spec_all_gamepieces());
    assert(pieces.len() == pieces.to_multiset().len());
}

/// Pieces may hang over the edge of the board where they have no pips: on an empty board,
/// a piece with an empty top row can be laid at row -1, one with an empty bottom row at row 3,
/// one with an empty rightmost column (column 0) at column -1, and one with an empty leftmost
/// column (column 2) at column 3, at any position along the other axis that keeps the piece's
/// 3x3 square on the board.
pub proof fn lemma_piece_may_overhang_empty_edges(piece: Seq<Seq<bool>>)
    requires
        valid_piece(piece),
    ensures
        (forall|c: int| 0 <= c < 3 ==> !#[trigger] piece[0][c]) ==> forall|x: int|
            0 <= x <= 2 ==> #[trigger] piece_fits(spec_empty_board(), piece, x, -1),
        (forall|c: int| 0 <= c < 3 ==> !#[trigger] piece[2][c]) ==> forall|x: int|
            0 <= x <= 2 ==> #[trigger] piece_fits(spec_empty_board(), piece, x, 3),
        (forall|r: int| 0 <= r < 3 ==> !#[trigger] piece[r][0]) ==> forall|y: int|
            0 <= y <= 2 ==> #[trigger] piece_fits(spec_empty_board(), piece, -1, y),
        (forall|r: int| 0 <= r < 3 ==> !#[trigger] piece[r][2]) ==> forall|y: int|
            0 <= y <= 2 ==> #[trigger] piece_fits(spec_empty_board(), piece, 3, y),
{
}

/// Scoring only removes pips: a cell that holds a pip after a scan held one before.
proof fn lemma_scan_only_clears(b: Seq<Seq<bool>>, order: Seq<Block>)
    requires
        valid_board(b),
    ensures
        valid_board(scan_blocks(b, order).0),
        forall|r: int, c: int|
            0 <= r < 5 && 0 <= c < 5 && #[trigger] scan_blocks(b, order).0[r][c] ==> b[r][c],
    decreases order.len(),
{
    if order.len() > 0 {
        let blk = order[0];
        if block_full(b, blk) {
            let cleared = clear_block(b, blk);
            assert forall|r: int| 0 <= r < 5 implies #[trigger] cleared[r].len() == 5 by {
                assert(b[r].len() == 5);
            }
            lemma_scan_only_clears(cleared, order.drop_first());
        } else {
            lemma_scan_only_clears(b, order.drop_first());
        }
    }
}

/// A block that the scan looks at is not full once the scan is over: either it was scored and
/// cleared, or it was not full then, and clearing never fills a cell.
proof fn lemma_scan_leaves_no_full_block(b: Seq<Seq<bool>>, order: Seq<Block>, k: int)
    requires
        valid_board(b),
        0 <= k < order.len(),
        order[k].2 >= 1,
        order[k].3 >= 1,
        order[k].0 + order[k].2 <= 5,
        order[k].1 + order[k].3 <= 5,
    ensures
        !block_full(scan_blocks(b, order).0, order[k]),
    decreases order.len(),
{
    let blk = order[0];
    let next = if block_full(b, blk) {
        clear_block(b, blk)
    } else {
        b
    };
    assert(valid_board(next)) by {
        assert forall|r: int| 0 <= r < 5 implies #[trigger] next[r].len() == 5 by {
            assert(b[r].len() == 5);
        }
    }
    assert(scan_blocks(b, order).0 == scan_blocks(next, order.drop_first()).0);
    if k == 0 {
        let target = order[0];
        let r0 = target.1 as int;
        let c0 = target.0 as int;
        assert(in_block(target, r0, c0));
        lemma_scan_only_clears(next, order.drop_first());
        if block_full(b, blk) {
            assert(!next[r0][c0]);
        } else {
            let r1 = choose|r: int, c: int| #[trigger] in_block(target, r, c) && !b[r][c];
            assert(in_block(target, r1.0, r1.1));
        }
    } else {
        assert(order.drop_first()[k - 1] == order[k]);
        lemma_scan_leaves_no_full_block(next, order.drop_first(), k - 1);
    }
}

/// Every full block is scored: once a 5x5 board is scored, no 3x3, 3x2, 2x3 or 2x2 block of
/// pips is left anywhere on it.
pub proof fn lemma_scoring_leaves_no_full_block(b: Seq<Seq<bool>>)
    requires
        valid_board(b),
    ensures
        valid_board(spec_score_blocks(b).0),
        forall|k: int|
            0 <= k < block_order().len() ==> !#[trigger] block_full(spec_score_blocks(b).0, block_order()[k]),
{
    lemma_scan_only_clears(b, block_order());
    assert forall|k: int| 0 <= k < block_order().len() implies !#[trigger] block_full(
        spec_score_blocks(b).0,
        block_order()[k],
    ) by {
        crate::engine::lemma_block_order_shapes(k);
        lemma_scan_leaves_no_full_block(b, block_order(), k);
    }
}

/// A scan that meets no full block changes nothing, scores nothing and finds no block.
proof fn lemma_scan_without_full_blocks(b: Seq<Seq<bool>>, order: Seq<Block>)
    requires
        forall|k: int| 0 <= k < order.len() ==> !#[trigger] block_full(b, order[k]),
    ensures
        scan_blocks(b, order) == (b, Seq::<Block>::empty(), 0int),
    decreases order.len(),
{
    if order.len() > 0 {
        assert(!block_full(b, order[0]));
        assert forall|k: int| 0 <= k < order.drop_first().len() implies !#[trigger] block_full(
            b,
            order.drop_first()[k],
        ) by {
            assert(order.drop_first()[k] == order[k + 1]);
        }
        lemma_scan_without_full_blocks(b, order.drop_first());
    }
}

/// Scoring twice changes nothing: a board left by scoring holds no further block, so scoring it
/// again gives the same board, no block and no points.
pub proof fn lemma_scoring_is_idempotent(b: Seq<Seq<bool>>)
    requires
        valid_board(b),
    ensures
        spec_score_blocks(spec_score_blocks(b).0) == (
            spec_score_blocks(b).0,
            Seq::<Block>::empty(),
            0int,
        ),
{
    lemma_scoring_leaves_no_full_block(b);
    lemma_scan_without_full_blocks(spec_score_blocks(b).0, block_order());
}

/// Each turn missed between the last one played and `turn` costs 7 points, as long as the
/// penalty fits in an `i32`; a player who plays the turn right after the last one pays nothing.
pub proof fn lemma_penalty_per_missed_turn(turn: u32, last: u32)
    requires
        last < turn,
        turn - last - 1 <= 306_783_378,
    ensures
        missed_penalty(turn, last) == -7 * (turn - last - 1),
        turn == last + 1 ==> missed_penalty(turn, last) == 0,
{
}

/// The scored blocks are removed: once a board is scored, every cell of every scored block is
/// empty.
pub proof fn lemma_scored_blocks_are_cleared(b: Seq<Seq<bool>>)
    requires
        valid_board(b),
    ensures
        forall|i: int, r: int, c: int|
            0 <= i < spec_score_blocks(b).1.len() && 0 <= r < 5 && 0 <= c < 5 && #[trigger] in_block(
                spec_score_blocks(b).1[i],
                r,
                c,
            ) ==> !#[trigger] spec_score_blocks(b).0[r][c],
{
    lemma_scan_clears_scored(b, block_order());
}

proof fn lemma_scan_clears_scored(b: Seq<Seq<bool>>, order: Seq<Block>)
    requires
        valid_board(b),
    ensures
        forall|i: int, r: int, c: int|
            0 <= i < scan_blocks(b, order).1.len() && 0 <= r < 5 && 0 <= c < 5 && #[trigger] in_block(
                scan_blocks(b, order).1[i],
                r,
                c,
            ) ==> !#[trigger] scan_blocks(b, order).0[r][c],
    decreases order.len(),
{
    if order.len() > 0 {
        let blk = order[0];
        let rest = order.drop_first();
        if block_full(b, blk) {
            let cleared = clear_block(b, blk);
            assert forall|r: int| 0 <= r < 5 implies #[trigger] cleared[r].len() == 5 by {
                assert(b[r].len() == 5);
            }
            lemma_scan_clears_scored(cleared, rest);
            lemma_scan_only_clears(cleared, rest);
            let blocks = scan_blocks(b, order).1;
            assert(blocks == seq![blk] + scan_blocks(cleared, rest).1);
            assert(scan_blocks(b, order).0 == scan_blocks(cleared, rest).0);
            assert forall|i: int, r: int, c: int|
                0 <= i < blocks.len() && 0 <= r < 5 && 0 <= c < 5 && #[trigger] in_block(
                    blocks[i],
                    r,
                    c,
                ) implies !#[trigger] scan_blocks(b, order).0[r][c] by {
                if i == 0 {
                    assert(!cleared[r][c]);
                    assert(!scan_blocks(cleared, rest).0[r][c]);
                } else {
                    assert(blocks[i] == scan_blocks(cleared, rest).1[i - 1]);
                }
            }
        } else {
            assert(scan_blocks(b, order) == scan_blocks(b, rest));
            lemma_scan_clears_scored(b, rest);
        }
    }
}

/// The phases of a game: before its start no turn is under way (-1); from its end on, the turn
/// index is the number of turns; in between, with a positive slot, it counts the slots elapsed
/// and is never negative.
pub proof fn lemma_turn_index_phases(game: GameRecord, now: int, start: int, end: int)
    requires
        rfc3339_parse(game.starting_time@) == Ok::<int, Seq<char>>(start),
        rfc3339_parse(game.ending_time@) == Ok::<int, Seq<char>>(end),
    ensures
        now < start ==> spec_current_turn(game, now) == Ok::<i32, Failure>(-1i32),
        start <= now && end <= now ==> spec_current_turn(game, now) == Ok::<i32, Failure>(
            game.number_of_turns as i32,
        ),
        start <= now < end && turn_slot(game) > 0 && (now - start) / (NANOS_PER_SECOND as int)
            / turn_slot(game) <= i32::MAX ==> (spec_current_turn(game, now) matches Ok(t) && t
            == (now - start) / (NANOS_PER_SECOND as int) / turn_slot(game) && t >= 0),
{
    if start <= now < end && turn_slot(game) > 0 {
        let elapsed = (now - start) / (NANOS_PER_SECOND as int);
        assert(elapsed >= 0);
        vstd::arithmetic::div_mod::lemma_div_pos_is_pos(elapsed, turn_slot(game));
    }
}

/// Turns stay within the game while it runs: in a game whose end lies at most its number of
/// turns of slots after its start, the turn under way before the end is below the number of
/// turns.
pub proof fn lemma_turn_within_game_before_end(game: GameRecord, now: int, start: int, end: int)
    requires
        rfc3339_parse(game.starting_time@) == Ok::<int, Seq<char>>(start),
        rfc3339_parse(game.ending_time@) == Ok::<int, Seq<char>>(end),
        turn_slot(game) > 0,
        end - start <= game.number_of_turns * turn_slot(game) * NANOS_PER_SECOND,
        game.number_of_turns <= i32::MAX,
        now < end,
    ensures
        spec_current_turn(game, now) matches Ok(t) && t < game.number_of_turns,
{
    if start <= now {
        let n = game.number_of_turns as int;
        let slot = turn_slot(game);
        let elapsed = (now - start) / (NANOS_PER_SECOND as int);
        assert(elapsed >= 0);
        assert(elapsed < n * slot) by (nonlinear_arith)
            requires
                elapsed == (now - start) / 1_000_000_000int,
                now - start >= 0,
                now - start < n * slot * 1_000_000_000int,
                slot > 0,
                n >= 0,
        ;
        assert(elapsed / slot < n) by (nonlinear_arith)
            requires
                0 <= elapsed < n * slot,
                slot > 0,
        ;
        vstd::arithmetic::div_mod::lemma_div_pos_is_pos(elapsed, slot);
    }
}

/// A new game waits two minutes, then runs its turns: for a game as `new_game_record` writes it
/// at instant `created`, the current turn is always computable; no turn is under way before the
/// start (-1); players may join until the end; and the turn index never passes the number of
/// turns.
pub proof fn lemma_new_game_timeline(game: GameRecord, created: int, now: int)
    requires
        scheduled_at(game@, created),
        game.number_of_turns == DEFAULT_NUMBER_OF_TURNS,
        game.turn_duration == DEFAULT_TURN_DURATION_SECONDS,
        game.interim == DEFAULT_INTERIM_SECONDS,
        !game.completed,
    ensures
        current_turn_defined(game, now),
        now < created + START_DELAY_NANOS ==> spec_current_turn(game, now) == Ok::<i32, Failure>(
            -1i32,
        ),
        now < created + START_DELAY_NANOS + default_game_length() ==> spec_game_open(game, now) is Ok,
        spec_current_turn(game, now) matches Ok(t) && -1 <= t <= DEFAULT_NUMBER_OF_TURNS,
{
    let start = created + START_DELAY_NANOS;
    let end = start + default_game_length();
    assert(turn_slot(game) == 70);
    if now < end {
        lemma_turn_within_game_before_end(game, now, start, end);
    }
}

/// A move is played only in its turn's window: whenever a move is accepted, its turn index is
/// not negative and is the turn under way at that instant.
pub proof fn lemma_move_only_in_its_window(
    game: GameRecord,
    player: PlayerGameRecord,
    turn_number: i32,
    x: int,
    y: int,
    now: int,
)
    ensures
        spec_play_move(game, player, turn_number, x, y, now) is Ok ==> turn_number >= 0
            && spec_current_turn(game, now) == Ok::<i32, Failure>(turn_number),
{
}

/// A turn is played at most once: once a player's move for a turn index has been accepted, a
/// move for the same index on the records it gives is refused, wherever and whenever it is made.
pub proof fn lemma_turn_played_once(
    game: GameRecord,
    player: PlayerGameRecord,
    turn_number: i32,
    x: int,
    y: int,
    now: int,
    next_game: GameRecord,
    next_player: PlayerGameRecord,
    x2: int,
    y2: int,
    now2: int,
)
    requires
        spec_play_move(game, player, turn_number, x, y, now) matches Ok((g, p)) && next_game@ == g
            && next_player@ == p,
    ensures
        spec_play_move(next_game, next_player, turn_number, x2, y2, now2) is Err,
{
    assert(next_game.number_of_turns == game.number_of_turns);
    assert(next_player.last_turn_played == engine_turn(turn_number));
}

/// Consecutive turns cost no penalty: after a move for turn index `turn_number`, an accepted
/// move for the next index adds to the score exactly the points of the blocks it scores and the
/// final bonus, with nothing taken off.
pub proof fn lemma_next_turn_unpenalized(
    game: GameRecord,
    player: PlayerGameRecord,
    turn_number: i32,
    x: int,
    y: int,
    now: int,
    next_game: GameRecord,
    next_player: PlayerGameRecord,
    next_turn: i32,
    x2: int,
    y2: int,
    now2: int,
)
    requires
        spec_play_move(game, player, turn_number, x, y, now) matches Ok((g, p)) && next_game@ == g
            && next_player@ == p,
        next_turn == turn_number + 1,
        spec_play_move(next_game, next_player, next_turn, x2, y2, now2) is Ok,
        move_defined(next_game, next_player, next_turn, x2, y2, now2),
    ensures
        ({
            let board = spec_place_piece(
                engine_game(next_game),
                engine_player(next_player),
                engine_turn(next_turn),
                x2,
                y2,
            )->Ok_0;
            let scored = spec_score_blocks(board);
            spec_play_move(next_game, next_player, next_turn, x2, y2, now2)->Ok_0.1.score
                == next_player.score + scored.2 + final_bonus(
                engine_game(next_game),
                engine_turn(next_turn),
                scored.0,
            )
        }),
{
    assert(next_player.last_turn_played == engine_turn(turn_number));
    assert(missed_penalty(engine_turn(next_turn), next_player.last_turn_played) == 0);
}

/// A placement that the rules accept can always be scored: the board it gives is 5x5, scoring
/// it for the same turn succeeds, and the scored board is 5x5 again.
pub proof fn lemma_placed_board_scores(game: BzGame, player: BzPlayer, turn: u32, x: int, y: int)
    requires
        spec_place_piece(game, player, turn, x, y) is Ok,
    ensures
        valid_board(spec_place_piece(game, player, turn, x, y)->Ok_0),
        spec_compute_turn_score(game, player, turn, spec_place_piece(game, player, turn, x, y)->Ok_0) is Ok,
        valid_board(spec_score_blocks(spec_place_piece(game, player, turn, x, y)->Ok_0).0),
{
    let board = spec_place_piece(game, player, turn, x, y)->Ok_0;
    assert(valid_board(board));
    lemma_scan_only_clears(board, block_order());
}

/// Moves keep boards 5x5: a move that is played leaves the player a 5x5 board, and a move that
/// passes the timing checks and the placement is never refused by the scoring.
pub proof fn lemma_played_move_keeps_board(
    game: GameRecord,
    player: PlayerGameRecord,
    turn_number: i32,
    x: int,
    y: int,
    now: int,
)
    ensures
        spec_play_move(game, player, turn_number, x, y, now) matches Ok((g, p)) ==> valid_board(
            p.gameboard,
        ),
        placed_board(game, player, turn_number, x, y, now) is Some ==> spec_play_move(
            game,
            player,
            turn_number,
            x,
            y,
            now,
        ) is Ok,
{
    if move_timing(game, turn_number, now) is None {
        let eg = engine_game(game);
        let ep = engine_player(player);
        let turn = engine_turn(turn_number);
        if spec_place_piece(eg, ep, turn, x, y) is Ok {
            lemma_placed_board_scores(eg, ep, turn, x, y);
        }
    }
}

/// Joining the same game twice is idempotent: once a player has joined, joining again while
/// the game is still open gives back the same state and leaves the store as it is, whatever the
/// number of players and the name given the second time.
pub proof fn lemma_join_twice_is_idempotent(
    stored: Map<Seq<char>, PlayerState>,
    game: GameRecord,
    first_now: int,
    second_now: int,
    first_count: int,
    second_count: int,
    game_id: Seq<char>,
    user_id: Seq<char>,
    first_name: Seq<char>,
    second_name: Seq<char>,
)
    requires
        spec_join(stored, game, first_now, first_count, game_id, user_id, first_name).0 is Ok,
        spec_game_open(game, second_now) is Ok,
    ensures
        spec_join(
            spec_join(stored, game, first_now, first_count, game_id, user_id, first_name).1,
            game,
            second_now,
            second_count,
            game_id,
            user_id,
            second_name,
        ) == spec_join(stored, game, first_now, first_count, game_id, user_id, first_name),
{
}

proof fn lemma_count_take_step(flags: Seq<bool>, i: int)
    requires
        0 <= i < flags.len(),
    ensures
        count_matches(flags.take(i + 1)) == count_matches(flags.take(i)) + if flags[i] {
            1nat
        } else {
            0nat
        },
{
    assert(flags.take(i + 1).drop_last() =~= flags.take(i));
}

proof fn lemma_count_take_bounded(flags: Seq<bool>, i: int)
    requires
        0 <= i <= flags.len(),
    ensures
        count_matches(flags.take(i)) <= count_matches(flags),
    decreases flags.len() - i,
{
    if i == flags.len() {
        assert(flags.take(i) =~= flags);
    } else {
        lemma_count_take_step(flags, i);
        lemma_count_take_bounded(flags, i + 1);
    }
}

proof fn lemma_listing_from(flags: Seq<bool>, limit: int, i: int, taken: Seq<int>)
    requires
        0 <= i <= flags.len(),
        taken.len() == count_matches(flags.take(i)),
        taken.len() < limit,
        forall|j: int|
            0 <= j < taken.len() ==> 0 <= #[trigger] taken[j] < i && flags[taken[j]] && count_matches(
                flags.take(taken[j]),
            ) == j,
    ensures
        ({
            let r = listing_from(flags, limit, i, taken);
            &&& r.len() == if limit < count_matches(flags) {
                limit
            } else {
                count_matches(flags) as int
            }
            &&& forall|j: int|
                0 <= j < r.len() ==> 0 <= #[trigger] r[j] < flags.len() && flags[r[j]]
                    && count_matches(flags.take(r[j])) == j
        }),
    decreases flags.len() - i,
{
    if i == flags.len() {
        assert(flags.take(i) =~= flags);
    } else {
        lemma_count_take_step(flags, i);
        let push = step_push(taken.len() as int, limit, flags[i]);
        let next = if push {
            taken.push(i)
        } else {
            taken
        };
        assert forall|j: int| 0 <= j < next.len() implies 0 <= #[trigger] next[j] < i + 1
            && flags[next[j]] && count_matches(flags.take(next[j])) == j by {
            if j < taken.len() {
                assert(next[j] == taken[j]);
            }
        }
        if step_stop(taken.len() as int, limit, flags[i]) {
            lemma_count_take_bounded(flags, i + 1);
        } else {
            lemma_listing_from(flags, limit, i + 1, next);
        }
    }
}

/// A listing holds the first matching games: stepping over games with `listing_step`, a
/// listing limited to `limit` takes min(`limit`, k) games, where k games match, and its `j`-th
/// game is the `j`-th matching one (the one with `j` matches before it).
pub proof fn lemma_listing_takes_first_matches(flags: Seq<bool>, limit: int)
    requires
        limit >= 0,
    ensures
        ({
            let r = listing_run(flags, limit);
            &&& r.len() == if limit < count_matches(flags) {
                limit
            } else {
                count_matches(flags) as int
            }
            &&& forall|j: int|
                0 <= j < r.len() ==> 0 <= #[trigger] r[j] < flags.len() && flags[r[j]]
                    && count_matches(flags.take(r[j])) == j
        }),
{
    if limit > 0 {
        assert(flags.take(0) =~= Seq::<bool>::empty());
        lemma_listing_from(flags, limit, 0, Seq::empty());
    }
}

/// A user's game reveals no piece but the current turn's: two games that differ only in pieces
/// other than the one of the turn under way give the user the same answer.
pub proof fn lemma_my_game_reveals_only_current_piece(
    game: GameRecord,
    other: GameRecord,
    player: PlayerGameRecord,
    now: int,
)
    requires
        other.id@ == game.id@,
        other.name@ == game.name@,
        other.starting_time@ == game.starting_time@,
        other.ending_time@ == game.ending_time@,
        other.number_of_turns == game.number_of_turns,
        other.turn_duration == game.turn_duration,
        other.interim == game.interim,
        other.completed == game.completed,
        other.pieces@.len() == game.pieces@.len(),
        spec_current_turn(game, now) matches Ok(t) ==> (0 <= t < game.pieces@.len() ==> grid(
            other.pieces@[t as int]@,
        ) == grid(game.pieces@[t as int]@)),
    ensures
        spec_my_game(other, player, now) == spec_my_game(game, player, now),
{
}

} // verus!
