use vstd::prelude::*;
use crate::api::{spec_list_limit, GameListQuery};
use crate::engine::{
    block_order, block_points, code_rows, spec_compute_turn_score, grid, lemma_block_order_shapes, octal_bit, octal_piece,
    piece_code, scan_blocks, spec_all_gamepieces, spec_place_piece, spec_score_blocks, valid_board,
    valid_piece, Block, BzGame, BzPlayer, GameEngineError,
};
use crate::services::{
    rfc3339_parse, spec_join_decision, spec_new_player, Failure, GameRecord, PlayerState,
};

verus! {

/// A listing shows at most as many games as were asked for, and never more than 100: the
/// limit is the smaller of the two, and 20 when the query asks for no number.
pub proof fn lemma_list_limit_is_min_of_request_and_cap(query: Option<GameListQuery>)
    ensures
        query is Some && query->0.limit is Some ==> {
            let l = query->0.limit->0;
            &&& spec_list_limit(query) <= l
            &&& spec_list_limit(query) <= 100
            &&& (spec_list_limit(query) == l || spec_list_limit(query) == 100)
        },
        query is None || query->0.limit is None ==> spec_list_limit(query) == 20,
{
    if let Some(q) = query {
        if let Some(l) = q.limit {
            assert(spec_list_limit(query) == if l < 100 {
                l
            } else {
                100
            });
        }
    }
}

/// A game that is over admits no one, not even a player who joined it before: when its ending
/// time parses and it is completed or that time has come, a join is refused with the conflict
/// "game is completed", whatever state the player has; when its ending time does not parse,
/// the join fails with the parser's message as a storage failure.
pub proof fn lemma_join_refused_once_game_is_over(
    game: GameRecord,
    now: int,
    existing: Option<PlayerState>,
    player_count: int,
    game_id: Seq<char>,
    user_id: Seq<char>,
    user_name: Seq<char>,
)
    ensures
        rfc3339_parse(game.ending_time@) is Ok && (game.completed || now >= rfc3339_parse(
            game.ending_time@,
        )->Ok_0) ==> spec_join_decision(game, now, existing, player_count, game_id, user_id, user_name)
            == Err::<(PlayerState, bool), Failure>(Failure::Conflict("game is completed"@)),
        rfc3339_parse(game.ending_time@) matches Err(m) ==> spec_join_decision(
            game,
            now,
            existing,
            player_count,
            game_id,
            user_id,
            user_name,
        ) == Err::<(PlayerState, bool), Failure>(Failure::Storage(m)),
        existing matches Some(p) ==> ((rfc3339_parse(game.ending_time@) is Ok && !game.completed
            && now < rfc3339_parse(game.ending_time@)->Ok_0) ==> spec_join_decision(
            game,
            now,
            existing,
            player_count,
            game_id,
            user_id,
            user_name,
        ) == Ok::<(PlayerState, bool), Failure>((p, false))),
{
}

/// A placement is accepted only when every pip of the piece lands on a free cell of the board,
/// and then it adds exactly the piece's pips: cell `r`, `c` of the new board holds a pip when
/// it held one before or a pip of the piece landed on it. When the turn, the board and the
/// piece are in order, a pip that lands off the board or on an occupied cell, in any row or
/// column of the piece, makes the placement illegal.
pub proof fn lemma_placement_lands_every_pip_on_a_free_cell(
    game: BzGame,
    player: BzPlayer,
    turn: u32,
    x: int,
    y: int,
)
    ensures
        spec_place_piece(game, player, turn, x, y) matches Ok(next) ==> {
            let board = grid(player.gameboard@);
            let piece = grid(game.pieces@[turn - 1]@);
            &&& forall|pr: int, pc: int|
                0 <= pr < 3 && 0 <= pc < 3 && #[trigger] piece[pr][pc] ==> 0 <= y + pr < 5 && 0
                    <= x + pc < 5 && !board[y + pr][x + pc]
            &&& next.len() == 5
            &&& forall|r: int, c: int|
                0 <= r < 5 && 0 <= c < 5 ==> (#[trigger] next[r][c] <==> (board[r][c] || (0 <= r
                    - y < 3 && 0 <= c - x < 3 && piece[r - y][c - x])))
        },
        ({
            let board = grid(player.gameboard@);
            &&& 0 < turn <= game.turns
            &&& turn > player.last_turn_played
            &&& turn - 1 < game.pieces@.len()
            &&& valid_board(board)
            &&& valid_piece(grid(game.pieces@[turn - 1]@))
        }) ==> (spec_place_piece(game, player, turn, x, y) is Err <==> exists|pr: int, pc: int|
            0 <= pr < 3 && 0 <= pc < 3 && #[trigger] grid(game.pieces@[turn - 1]@)[pr][pc] && !(0
                <= y + pr < 5 && 0 <= x + pc < 5 && !grid(player.gameboard@)[y + pr][x + pc])),
        spec_place_piece(game, player, turn, x, y) matches Err(e) ==> ((0 < turn <= game.turns
            && turn > player.last_turn_played && turn - 1 < game.pieces@.len() && valid_board(
            grid(player.gameboard@),
        ) && valid_piece(grid(game.pieces@[turn - 1]@))) ==> e == GameEngineError::IllegalPlacement),
{
}

/// The number of blocks `width` wide and `height` high in a list of blocks.
pub open spec fn count_of_size(blocks: Seq<Block>, width: int, height: int) -> nat
    decreases blocks.len(),
{
    if blocks.len() == 0 {
        0
    } else {
        (if blocks[0].2 == width && blocks[0].3 == height {
            1nat
        } else {
            0nat
        }) + count_of_size(blocks.drop_first(), width, height)
    }
}

proof fn lemma_scan_points_by_size(b: Seq<Seq<bool>>, order: Seq<Block>)
    requires
        forall|k: int|
            0 <= k < order.len() ==> (#[trigger] order[k].2 == 2 || order[k].2 == 3) && (order[k].3
                == 2 || order[k].3 == 3),
    ensures
        ({
            let (_, blocks, points) = scan_blocks(b, order);
            points == 45 * count_of_size(blocks, 3, 3) + 15 * count_of_size(blocks, 3, 2) + 15
                * count_of_size(blocks, 2, 3) + 5 * count_of_size(blocks, 2, 2)
        }),
    decreases order.len(),
{
    if order.len() > 0 {
        let blk = order[0];
        let rest = order.drop_first();
        assert forall|k: int| 0 <= k < rest.len() implies (#[trigger] rest[k].2 == 2 || rest[k].2
            == 3) && (rest[k].3 == 2 || rest[k].3 == 3) by {
            assert(rest[k] == order[k + 1]);
        }
        assert(order[0].2 == 2 || order[0].2 == 3);
        if crate::engine::block_full(b, blk) {
            let cleared = crate::engine::clear_block(b, blk);
            lemma_scan_points_by_size(cleared, rest);
            let tail = scan_blocks(cleared, rest).1;
            let all = seq![blk] + tail;
            assert(all.drop_first() =~= tail);
            assert(all[0] == blk);
            assert(block_points(blk.2 as int, blk.3 as int) == if blk.2 == 3 && blk.3 == 3 {
                45int
            } else if blk.2 == 2 && blk.3 == 2 {
                5int
            } else {
                15int
            });
        } else {
            lemma_scan_points_by_size(b, rest);
        }
    }
}

/// What each full block is worth: the points of a scored board are 45 for each 3x3 block
/// scored, 15 for each 3x2 and each 2x3 block, and 5 for each 2x2 block.
pub proof fn lemma_block_points_by_size(b: Seq<Seq<bool>>)
    ensures
        ({
            let (_, blocks, points) = spec_score_blocks(b);
            points == 45 * count_of_size(blocks, 3, 3) + 15 * count_of_size(blocks, 3, 2) + 15
                * count_of_size(blocks, 2, 3) + 5 * count_of_size(blocks, 2, 2)
        }),
{
    assert forall|k: int| 0 <= k < block_order().len() implies (#[trigger] block_order()[k].2 == 2
        || block_order()[k].2 == 3) && (block_order()[k].3 == 2 || block_order()[k].3 == 3) by {
        lemma_block_order_shapes(k);
    }
    lemma_scan_points_by_size(b, block_order());
}

/// The game's pieces as the rules list them: three octal digits each, one per row from the
/// top.
pub open spec fn listed_pieces() -> Seq<Seq<int>> {
    seq![
        seq![0, 2, 0],
        seq![2, 2, 0],
        seq![0, 3, 0],
        seq![0, 7, 0],
        seq![2, 2, 2],
        seq![1, 2, 0],
        seq![4, 2, 0],
        seq![1, 2, 4],
        seq![4, 2, 1],
        seq![2, 3, 0],
        seq![0, 3, 2],
        seq![0, 6, 2],
        seq![2, 6, 0],
        seq![1, 7, 0],
        seq![0, 7, 1],
        seq![4, 7, 0],
        seq![0, 7, 4],
        seq![3, 2, 2],
        seq![6, 2, 2],
        seq![2, 2, 3],
        seq![2, 2, 6],
        seq![2, 3, 2],
        seq![0, 7, 2],
        seq![2, 6, 2],
        seq![2, 7, 0],
        seq![3, 2, 3],
        seq![0, 7, 5],
        seq![6, 2, 6],
        seq![5, 7, 0],
        seq![5, 2, 5],
        seq![2, 7, 2],
    ]
}

/// The grid that three octal digits describe: the pip in row `r`, column `c` is there when bit
/// `c` of digit `r` is set (so 0,7,0 is a horizontal bar and 2,2,2 a vertical one).
pub open spec fn digits_grid(digits: Seq<int>) -> Seq<Seq<bool>> {
    Seq::new(
        3,
        |r: int|
            Seq::new(
                3,
                |c: int|
                    (digits[r] / (if c == 0 {
                        1int
                    } else if c == 1 {
                        2int
                    } else {
                        4int
                    })) % 2 == 1,
            ),
    )
}

proof fn lemma_octal_cells(code: u16)
    requires
        code < 512,
    ensures
        forall|r: int, c: int|
            0 <= r < 3 && 0 <= c < 3 ==> #[trigger] octal_piece(code_rows(code))[r][c] == digits_grid(
                seq![code as int / 64, (code as int / 8) % 8, code as int % 8],
            )[r][c],
{
    let d0 = ((code >> 6u16) & 7u16) as u8;
    let d1 = ((code >> 3u16) & 7u16) as u8;
    let d2 = (code & 7u16) as u8;
    assert(d0 == code / 64 && d1 == (code / 8) % 8 && d2 == code % 8) by (bit_vector)
        requires
            code < 512,
            d0 == ((code >> 6u16) & 7u16) as u8,
            d1 == ((code >> 3u16) & 7u16) as u8,
            d2 == (code & 7u16) as u8,
    ;
    assert(code_rows(code) == seq![d0, d1, d2]);
    assert forall|r: int, c: int| 0 <= r < 3 && 0 <= c < 3 implies #[trigger] octal_piece(
        code_rows(code),
    )[r][c] == digits_grid(seq![code as int / 64, (code as int / 8) % 8, code as int % 8])[r][c] by {
        let d = code_rows(code)[r];
        let digits = seq![code as int / 64, (code as int / 8) % 8, code as int % 8];
        assert(d as int == digits[r]);
        assert(d < 8);
        assert(octal_piece(code_rows(code))[r][c] == octal_bit(d, c));
        if c == 0 {
            assert(octal_bit(d, c) == ((d & (1u8 << 0u8)) != 0u8));
            assert(((d & (1u8 << 0u8)) != 0u8) == ((d / 1u8) % 2 == 1)) by (bit_vector)
                requires
                    d < 8,
            ;
            assert(digits_grid(digits)[r][c] == (digits[r] / 1 % 2 == 1));
        } else if c == 1 {
            assert(octal_bit(d, c) == ((d & (1u8 << 1u8)) != 0u8));
            assert(((d & (1u8 << 1u8)) != 0u8) == ((d / 2u8) % 2 == 1)) by (bit_vector)
                requires
                    d < 8,
            ;
            assert(digits_grid(digits)[r][c] == (digits[r] / 2 % 2 == 1));
        } else {
            assert(octal_bit(d, c) == ((d & (1u8 << 2u8)) != 0u8));
            assert(((d & (1u8 << 2u8)) != 0u8) == ((d / 4u8) % 2 == 1)) by (bit_vector)
                requires
                    d < 8,
            ;
            assert(digits_grid(digits)[r][c] == (digits[r] / 4 % 2 == 1));
        }
    }
}

proof fn lemma_piece_digits(i: int)
    requires
        0 <= i < 31,
    ensures
        spec_all_gamepieces()[i] == digits_grid(listed_pieces()[i]),
{
    let code = piece_code(i);
    assert(code < 512);
    lemma_octal_cells(code);
    assert(listed_pieces()[i] == seq![code as int / 64, (code as int / 8) % 8, code as int % 8]);
    assert(spec_all_gamepieces()[i] =~~= digits_grid(listed_pieces()[i]));
}

/// The game deals the listed pieces: there are 31, and piece `i` is the grid of the `i`-th
/// entry of the list (piece 4, for one, is the vertical bar 2,2,2, with its pips in column 1 of
/// each row).
pub proof fn lemma_pieces_are_the_listed_ones()
    ensures
        spec_all_gamepieces().len() == 31,
        listed_pieces().len() == 31,
        forall|i: int| 0 <= i < 31 ==> #[trigger] spec_all_gamepieces()[i] == digits_grid(listed_pieces()[i]),
{
    assert forall|i: int| 0 <= i < 31 implies #[trigger] spec_all_gamepieces()[i] == digits_grid(
        listed_pieces()[i],
    ) by {
        lemma_piece_digits(i);
    }
}

/// The points of a turn: what its blocks are worth (45 for each 3x3, 15 for each 3x2 and each
/// 2x3, 5 for each 2x2), less 7 for each turn missed since the player's last one, plus 15 when
/// the turn is the game's last and the board is left empty. The board that comes back is the
/// scored one.
pub proof fn lemma_turn_score_parts(game: BzGame, player: BzPlayer, turn: u32, board: Seq<Seq<bool>>)
    requires
        player.last_turn_played < turn,
        turn - player.last_turn_played - 1 <= 306_783_378,
    ensures
        spec_compute_turn_score(game, player, turn, board) matches Ok((next, blocks, points)) ==> {
            &&& next == spec_score_blocks(board).0
            &&& blocks == spec_score_blocks(board).1
            &&& points == 45 * count_of_size(blocks, 3, 3) + 15 * count_of_size(blocks, 3, 2) + 15
                * count_of_size(blocks, 2, 3) + 5 * count_of_size(blocks, 2, 2) - 7 * (turn
                - player.last_turn_played - 1) + if turn == game.turns && (forall|r: int, c: int|
                0 <= r < next.len() && 0 <= c < next[r].len() ==> !#[trigger] next[r][c]) {
                15int
            } else {
                0int
            }
        },
{
    lemma_block_points_by_size(board);
    crate::theorems::lemma_penalty_per_missed_turn(turn, player.last_turn_played);
}

/// A game admits at most 100 players: a new player is refused, as "game is full", exactly when
/// the game already has 100 or more; otherwise the player starts with an empty board, no points
/// and no turn played.
pub proof fn lemma_new_player_cap(game_id: Seq<char>, user_id: Seq<char>, user_name: Seq<char>, player_count: int)
    ensures
        player_count >= 100 ==> spec_new_player(game_id, user_id, user_name, player_count)
            == Err::<PlayerState, Failure>(Failure::Conflict("game is full"@)),
        player_count < 100 ==> (spec_new_player(game_id, user_id, user_name, player_count) matches Ok(
            p,
        ) && p.score == 0 && p.last_turn_played == 0 && p.game_id == game_id && p.user_id == user_id
            && p.name == user_name && p.gameboard.len() == 5 && (forall|r: int, c: int|
            0 <= r < 5 && 0 <= c < 5 ==> p.gameboard[r].len() == 5 && !#[trigger] p.gameboard[r][c])),
{
}

} // verus!
