use rand::seq::SliceRandom;
use vstd::prelude::*;

verus! {

/// A 5x5 grid of pips; `true` marks an occupied cell. Row 0 is the top row, and in each
/// row element 0 is the rightmost cell.
pub type BzGameboard = Vec<Vec<bool>>;

/// A 3x3 grid of pips, oriented as a board; `true` marks a pip of the piece.
pub type BzGamepiece = Vec<Vec<bool>>;

/// The number of rows of a board, and of cells in each row.
pub const BOARD_SIZE: usize = 5;

/// The number of rows of a piece, and of cells in each row.
pub const PIECE_SIZE: usize = 3;

/// The points each missed turn costs.
pub const FAILURE_PENALTY: i32 = -7;

/// The points an empty board earns on the final turn.
pub const FINAL_EMPTY_BOARD_BONUS: i32 = 15;

/// Why the engine refuses a move or a score computation.
#[derive(Debug, Clone, Copy, PartialEq, Eq, Structural)]
pub enum GameEngineError {
    InvalidBoard,
    InvalidPiece,
    InvalidTurn,
    TurnAlreadyPlayed,
    TurnExceedsGame,
    IllegalPlacement,
}

/// The name of an error, as the engine spells it in messages.
pub open spec fn error_name(e: GameEngineError) -> Seq<char> {
    match e {
        GameEngineError::InvalidBoard => "InvalidBoard"@,
        GameEngineError::InvalidPiece => "InvalidPiece"@,
        GameEngineError::InvalidTurn => "InvalidTurn"@,
        GameEngineError::TurnAlreadyPlayed => "TurnAlreadyPlayed"@,
        GameEngineError::TurnExceedsGame => "TurnExceedsGame"@,
        GameEngineError::IllegalPlacement => "IllegalPlacement"@,
    }
}

impl GameEngineError {
    /// The error's name, as its message.
    pub fn to_string(&self) -> (s: String)
        ensures
            s@ == error_name(*self),
    {
        match self {
            GameEngineError::InvalidBoard => String::from_str("InvalidBoard"),
            GameEngineError::InvalidPiece => String::from_str("InvalidPiece"),
            GameEngineError::InvalidTurn => String::from_str("InvalidTurn"),
            GameEngineError::TurnAlreadyPlayed => String::from_str("TurnAlreadyPlayed"),
            GameEngineError::TurnExceedsGame => String::from_str("TurnExceedsGame"),
            GameEngineError::IllegalPlacement => String::from_str("IllegalPlacement"),
        }
    }
}

/// A game: the pieces in the order they are dealt (turn `t` deals `pieces[t - 1]`),
/// and the number of turns.
#[derive(Debug, Clone, PartialEq, Eq)]
pub struct BzGame {
    pub pieces: Vec<BzGamepiece>,
    pub turns: u32,
}

/// A player's board and the last turn the player played (0 before the first).
#[derive(Debug, Clone, PartialEq, Eq)]
pub struct BzPlayer {
    pub gameboard: BzGameboard,
    pub last_turn_played: u32,
}

/// The outcome of scoring a turn: the points, the board once the scored blocks are
/// cleared, and the blocks as `(x, y, width, height)`.
#[derive(Debug, Clone, PartialEq, Eq)]
pub struct TurnScore {
    pub score: i32,
    pub gameboard: BzGameboard,
    pub scored_blocks: Vec<(usize, usize, usize, usize)>,
}

/// The cells of a board or piece, row by row.
pub open spec fn grid(rows: Seq<Vec<bool>>) -> Seq<Seq<bool>> {
    rows.map_values(|row: Vec<bool>| row@)
}

/// The cells of each piece of a list.
pub open spec fn pieces_view(pieces: Seq<Vec<Vec<bool>>>) -> Seq<Seq<Seq<bool>>> {
    pieces.map_values(|p: Vec<Vec<bool>>| grid(p@))
}

/// A grid of `n` rows of `n` cells each.
pub open spec fn is_grid(g: Seq<Seq<bool>>, n: int) -> bool {
    &&& g.len() == n
    &&& forall|r: int| 0 <= r < n ==> #[trigger] g[r].len() == n
}

/// The board with no pips.
pub open spec fn spec_empty_board() -> Seq<Seq<bool>> {
    Seq::new(5, |r: int| Seq::new(5, |c: int| false))
}

/// Whether bit `c` of the octal digit `row` is set.
pub open spec fn octal_bit(row: u8, c: int) -> bool {
    row & (1u8 << (c as u8)) != 0u8
}

/// The piece that three octal digits describe: bit `c` of digit `r` is the pip at row `r`, column `c`.
pub open spec fn octal_piece(rows: Seq<u8>) -> Seq<Seq<bool>> {
    Seq::new(3, |r: int| Seq::new(3, |c: int| octal_bit(rows[r], c)))
}

/// A board without pips.
pub fn empty_gameboard() -> (board: BzGameboard)
    ensures
        grid(board@) == spec_empty_board(),
{
    let mut board: Vec<Vec<bool>> = Vec::new();
    for r in 0..BOARD_SIZE
        invariant
            board@.len() == r,
            forall|i: int| 0 <= i < r ==> #[trigger] board@[i]@ == spec_empty_board()[i],
    {
        let mut row: Vec<bool> = Vec::new();
        for c in 0..BOARD_SIZE
            invariant
                row@ == Seq::new(c as nat, |i: int| false),
        {
            row.push(false);
            assert(row@ =~= Seq::new((c + 1) as nat, |i: int| false));
        }
        board.push(row);
    }
    assert(grid(board@) =~~= spec_empty_board());
    board
}

/// The piece that three octal digits describe, one per row from the top: bit `c` of a digit
/// is the pip in column `c` of its row (so 0,7,0 is a horizontal bar, 2,2,2 a vertical one).
pub fn gamepiece_from_octal(rows: [u8; PIECE_SIZE]) -> (piece: BzGamepiece)
    ensures
        grid(piece@) == octal_piece(rows@),
{
    let mut piece: Vec<Vec<bool>> = Vec::new();
    for r in 0..PIECE_SIZE
        invariant
            piece@.len() == r,
            forall|i: int| 0 <= i < r ==> #[trigger] piece@[i]@ == octal_piece(rows@)[i],
    {
        let row_bits = rows[r];
        let mut row: Vec<bool> = Vec::new();
        for c in 0..PIECE_SIZE
            invariant
                r < 3,
                row_bits == rows@[r as int],
                row@ == octal_piece(rows@)[r as int].take(c as int),
        {
            row.push(row_bits & (1u8 << (c as u8)) != 0);
            assert(row@ =~= octal_piece(rows@)[r as int].take(c + 1));
        }
        piece.push(row);
    }
    assert(grid(piece@) =~~= octal_piece(rows@));
    piece
}

/// The number of different pieces of the game.
pub const NUMBER_OF_PIECES: usize = 31;

/// The pieces of the game, each written as three octal digits, one per row from the top:
/// bit `c` of a digit is the pip in column `c` of that row.
pub open spec fn piece_code(i: int) -> u16 {
    if i == 0 {
        0o020
    } else if i == 1 {
        0o220
    } else if i == 2 {
        0o030
    } else if i == 3 {
        0o070
    } else if i == 4 {
        0o222
    } else if i == 5 {
        0o120
    } else if i == 6 {
        0o420
    } else if i == 7 {
        0o124
    } else if i == 8 {
        0o421
    } else if i == 9 {
        0o230
    } else if i == 10 {
        0o032
    } else if i == 11 {
        0o062
    } else if i == 12 {
        0o260
    } else if i == 13 {
        0o170
    } else if i == 14 {
        0o071
    } else if i == 15 {
        0o470
    } else if i == 16 {
        0o074
    } else if i == 17 {
        0o322
    } else if i == 18 {
        0o622
    } else if i == 19 {
        0o223
    } else if i == 20 {
        0o226
    } else if i == 21 {
        0o232
    } else if i == 22 {
        0o072
    } else if i == 23 {
        0o262
    } else if i == 24 {
        0o270
    } else if i == 25 {
        0o323
    } else if i == 26 {
        0o075
    } else if i == 27 {
        0o626
    } else if i == 28 {
        0o570
    } else if i == 29 {
        0o525
    } else {
        0o272
    }
}

/// The three octal digits of a piece's code, from the top row down.
pub open spec fn code_rows(code: u16) -> Seq<u8> {
    seq![((code >> 6u16) & 7u16) as u8, ((code >> 3u16) & 7u16) as u8, (code & 7u16) as u8]
}

/// The pieces of the game, as grids.
pub open spec fn spec_all_gamepieces() -> Seq<Seq<Seq<bool>>> {
    Seq::new(NUMBER_OF_PIECES as nat, |i: int| octal_piece(code_rows(piece_code(i))))
}

/// The octal digits of piece `i`.
fn piece_pattern(i: usize) -> (rows: [u8; PIECE_SIZE])
    requires
        i < NUMBER_OF_PIECES,
    ensures
        rows@ == code_rows(piece_code(i as int)),
{
    let code: u16 = match i {
        0 => 0o020,
        1 => 0o220,
        2 => 0o030,
        3 => 0o070,
        4 => 0o222,
        5 => 0o120,
        6 => 0o420,
        7 => 0o124,
        8 => 0o421,
        9 => 0o230,
        10 => 0o032,
        11 => 0o062,
        12 => 0o260,
        13 => 0o170,
        14 => 0o071,
        15 => 0o470,
        16 => 0o074,
        17 => 0o322,
        18 => 0o622,
        19 => 0o223,
        20 => 0o226,
        21 => 0o232,
        22 => 0o072,
        23 => 0o262,
        24 => 0o270,
        25 => 0o323,
        26 => 0o075,
        27 => 0o626,
        28 => 0o570,
        29 => 0o525,
        _ => 0o272,
    };
    let rows: [u8; PIECE_SIZE] = [((code >> 6u16) & 7u16) as u8, ((code >> 3u16) & 7u16) as u8, (code & 7u16) as u8];
    assert(rows@ =~= code_rows(piece_code(i as int)));
    rows
}

/// All the pieces of the game, in the order of `piece_code`.
pub fn all_gamepieces() -> (pieces: Vec<BzGamepiece>)
    ensures
        pieces_view(pieces@) == spec_all_gamepieces(),
{
    let mut pieces: Vec<BzGamepiece> = Vec::new();
    for i in 0..NUMBER_OF_PIECES
        invariant
            pieces@.len() == i,
            forall|j: int| 0 <= j < i ==> grid(#[trigger] pieces@[j]@) == octal_piece(code_rows(piece_code(j))),
    {
        pieces.push(gamepiece_from_octal(piece_pattern(i)));
    }
    assert(pieces_view(pieces@) =~= spec_all_gamepieces());
    pieces
}


/// Shuffles the pieces with `rand`'s `SliceRandom::shuffle`, drawing from the thread-local
/// generator `rand::rng()`. The shuffle only swaps elements, so the pieces stay the same ones;
/// their order is random and nothing is stated of it.
#[verifier::external_body]
fn shuffle_pieces(pieces: &mut Vec<BzGamepiece>)
    ensures
        pieces_view(final(pieces)@).to_multiset() == pieces_view(old(pieces)@).to_multiset(),
{
    pieces.shuffle(&mut rand::rng());
}

impl BzGame {
    /// A game of `turns` turns dealing all the pieces in a random order.
    pub fn new(turns: u32) -> (game: Self)
        ensures
            game.turns == turns,
            pieces_view(game.pieces@).to_multiset() == spec_all_gamepieces().to_multiset(),
    {
        let mut pieces = all_gamepieces();
        shuffle_pieces(&mut pieces);
        BzGame { pieces, turns }
    }
}

impl BzPlayer {
    /// A player with an empty board who has played no turn.
    pub fn new() -> (player: Self)
        ensures
            grid(player.gameboard@) == spec_empty_board(),
            player.last_turn_played == 0,
    {
        BzPlayer { gameboard: empty_gameboard(), last_turn_played: 0 }
    }
}

impl Default for BzPlayer {
    fn default() -> (player: Self)
        ensures
            grid(player.gameboard@) == spec_empty_board(),
            player.last_turn_played == 0,
    {
        BzPlayer::new()
    }
}

/// The same as `BzGame::new`.
pub fn new_game(turns: u32) -> (game: BzGame)
    ensures
        game.turns == turns,
        pieces_view(game.pieces@).to_multiset() == spec_all_gamepieces().to_multiset(),
{
    BzGame::new(turns)
}

/// The same as `BzPlayer::new`.
pub fn new_player() -> (player: BzPlayer)
    ensures
        grid(player.gameboard@) == spec_empty_board(),
        player.last_turn_played == 0,
{
    BzPlayer::new()
}

/// A board is valid when it is 5x5.
pub open spec fn valid_board(b: Seq<Seq<bool>>) -> bool {
    is_grid(b, 5)
}

/// A piece is valid when it is 3x3.
pub open spec fn valid_piece(p: Seq<Seq<bool>>) -> bool {
    is_grid(p, 3)
}

/// Whether row `r`, column `c` lies on the board.
pub open spec fn on_board(r: int, c: int) -> bool {
    0 <= r < 5 && 0 <= c < 5
}

/// Whether every pip of `piece`, laid with its top-left cell at column `x`, row `y`,
/// lands on a free cell of the board.
pub open spec fn piece_fits(board: Seq<Seq<bool>>, piece: Seq<Seq<bool>>, x: int, y: int) -> bool {
    forall|pr: int, pc: int|
        0 <= pr < 3 && 0 <= pc < 3 && #[trigger] piece[pr][pc] ==> on_board(y + pr, x + pc)
            && !board[y + pr][x + pc]
}

/// Whether the piece, laid at column `x`, row `y`, has a pip on board cell `r`, `c`.
pub open spec fn covers(piece: Seq<Seq<bool>>, x: int, y: int, r: int, c: int) -> bool {
    0 <= r - y < 3 && 0 <= c - x < 3 && piece[r - y][c - x]
}

/// The board with the piece's pips added at column `x`, row `y`.
pub open spec fn with_piece(board: Seq<Seq<bool>>, piece: Seq<Seq<bool>>, x: int, y: int) -> Seq<Seq<bool>> {
    Seq::new(5, |r: int| Seq::new(5, |c: int| board[r][c] || covers(piece, x, y, r, c)))
}

/// What placing the piece of turn `turn` at column `x`, row `y` gives: the next board,
/// or the first rule that the move breaks.
pub open spec fn spec_place_piece(game: BzGame, player: BzPlayer, turn: u32, x: int, y: int) -> Result<Seq<Seq<bool>>, GameEngineError> {
    let board = grid(player.gameboard@);
    if turn == 0 {
        Err(GameEngineError::InvalidTurn)
    } else if turn > game.turns {
        Err(GameEngineError::TurnExceedsGame)
    } else if turn <= player.last_turn_played {
        Err(GameEngineError::TurnAlreadyPlayed)
    } else if turn - 1 >= game.pieces@.len() {
        Err(GameEngineError::TurnExceedsGame)
    } else if !valid_board(board) {
        Err(GameEngineError::InvalidBoard)
    } else if !valid_piece(grid(game.pieces@[turn - 1]@)) {
        Err(GameEngineError::InvalidPiece)
    } else if !piece_fits(board, grid(game.pieces@[turn - 1]@), x, y) {
        Err(GameEngineError::IllegalPlacement)
    } else {
        Ok(with_piece(board, grid(game.pieces@[turn - 1]@), x, y))
    }
}

/// A result that holds a board, seen through the board's cells.
pub open spec fn board_result(r: Result<BzGameboard, GameEngineError>) -> Result<Seq<Seq<bool>>, GameEngineError> {
    match r {
        Ok(b) => Ok(grid(b@)),
        Err(e) => Err(e),
    }
}

fn validate_board(board: &BzGameboard) -> (r: Result<(), GameEngineError>)
    ensures
        r is Ok <==> valid_board(grid(board@)),
        r matches Err(e) ==> e == GameEngineError::InvalidBoard,
{
    if board.len() != BOARD_SIZE {
        return Err(GameEngineError::InvalidBoard);
    }
    for r in 0..BOARD_SIZE
        invariant
            board@.len() == 5,
            forall|i: int| 0 <= i < r ==> #[trigger] board@[i]@.len() == 5,
    {
        if board[r].len() != BOARD_SIZE {
            assert(grid(board@)[r as int].len() != 5);
            return Err(GameEngineError::InvalidBoard);
        }
    }
    Ok(())
}

fn validate_piece(piece: &BzGamepiece) -> (r: Result<(), GameEngineError>)
    ensures
        r is Ok <==> valid_piece(grid(piece@)),
        r matches Err(e) ==> e == GameEngineError::InvalidPiece,
{
    if piece.len() != PIECE_SIZE {
        return Err(GameEngineError::InvalidPiece);
    }
    for r in 0..PIECE_SIZE
        invariant
            piece@.len() == 3,
            forall|i: int| 0 <= i < r ==> #[trigger] piece@[i]@.len() == 3,
    {
        if piece[r].len() != PIECE_SIZE {
            assert(grid(piece@)[r as int].len() != 3);
            return Err(GameEngineError::InvalidPiece);
        }
    }
    Ok(())
}

/// A copy of a board, cell by cell.
pub(crate) fn copy_board(board: &BzGameboard) -> (copy: BzGameboard)
    ensures
        grid(copy@) == grid(board@),
{
    let mut copy: Vec<Vec<bool>> = Vec::new();
    for r in 0..board.len()
        invariant
            copy@.len() == r,
            r <= board@.len(),
            forall|i: int| 0 <= i < r ==> #[trigger] copy@[i]@ == board@[i]@,
    {
        let mut row: Vec<bool> = Vec::new();
        let n = board[r].len();
        for c in 0..n
            invariant
                r < board@.len(),
                n == board@[r as int]@.len(),
                row@ == board@[r as int]@.take(c as int),
        {
            row.push(board[r][c]);
            assert(row@ =~= board@[r as int]@.take(c + 1));
        }
        assert(row@ =~= board@[r as int]@);
        copy.push(row);
    }
    assert(grid(copy@) =~~= grid(board@));
    copy
}

/// Whether pip `pr`, `pc` of a piece comes before pip `py`, `px` in row-major order.
pub open spec fn before(pr: int, pc: int, py: int, px: int) -> bool {
    pr < py || (pr == py && pc < px)
}

/// Places the piece of turn `turn` with its top-left cell at column `x`, row `y`: the board
/// with the piece's pips added, when the turn may be played, the board and the piece have
/// their sizes, and every pip lands on a free cell of the board.
/// A pip whose board coordinates fall outside the board, however far, is an illegal placement.
#[verifier::loop_isolation(false)]
pub fn place_piece(game: &BzGame, player: &BzPlayer, turn: u32, x: i32, y: i32) -> (r: Result<BzGameboard, GameEngineError>)
    ensures
        board_result(r) == spec_place_piece(*game, *player, turn, x as int, y as int),
{
    if turn == 0 {
        return Err(GameEngineError::InvalidTurn);
    }
    if turn > game.turns {
        return Err(GameEngineError::TurnExceedsGame);
    }
    if turn <= player.last_turn_played {
        return Err(GameEngineError::TurnAlreadyPlayed);
    }
    let index = (turn - 1) as usize;
    if index >= game.pieces.len() {
        return Err(GameEngineError::TurnExceedsGame);
    }
    let piece = &game.pieces[index];
    validate_board(&player.gameboard)?;
    validate_piece(piece)?;
    let ghost board0 = grid(player.gameboard@);
    let ghost p = grid(piece@);
    let mut next_board = copy_board(&player.gameboard);
    for py in 0..PIECE_SIZE
        invariant
            valid_board(board0),
            valid_piece(p),
            p == grid(piece@),
            valid_board(grid(next_board@)),
            forall|pr: int, pc: int|
                0 <= pr < 3 && 0 <= pc < 3 && before(pr, pc, py as int, 0) && #[trigger] p[pr][pc]
                    ==> on_board(y + pr, x + pc) && !board0[y + pr][x + pc],
            forall|r: int, c: int|
                0 <= r < 5 && 0 <= c < 5 ==> #[trigger] grid(next_board@)[r][c] == (board0[r][c] || (
                covers(p, x as int, y as int, r, c) && before(r - y, c - x, py as int, 0))),
    {
        for px in 0..PIECE_SIZE
            invariant
                py < 3,
                valid_board(board0),
                valid_piece(p),
                p == grid(piece@),
                valid_board(grid(next_board@)),
                forall|pr: int, pc: int|
                    0 <= pr < 3 && 0 <= pc < 3 && before(pr, pc, py as int, px as int) && #[trigger] p[pr][pc]
                        ==> on_board(y + pr, x + pc) && !board0[y + pr][x + pc],
                forall|r: int, c: int|
                    0 <= r < 5 && 0 <= c < 5 ==> #[trigger] grid(next_board@)[r][c] == (board0[r][c] || (
                    covers(p, x as int, y as int, r, c) && before(r - y, c - x, py as int, px as int))),
        {
            assert(p[py as int].len() == 3);
            assert(piece@[py as int]@ == p[py as int]);
            if piece[py][px] {
                assert(p[py as int][px as int]);
                let board_x: i64 = x as i64 + px as i64;
                let board_y: i64 = y as i64 + py as i64;
                if board_x < 0 || board_x >= BOARD_SIZE as i64 || board_y < 0 || board_y >= BOARD_SIZE as i64 {
                    assert(!piece_fits(board0, p, x as int, y as int));
                    return Err(GameEngineError::IllegalPlacement);
                }
                let bx = board_x as usize;
                let by = board_y as usize;
                assert(grid(next_board@)[by as int].len() == 5);
                if next_board[by][bx] {
                    assert(grid(next_board@)[by as int][bx as int]);
                    assert(!piece_fits(board0, p, x as int, y as int));
                    return Err(GameEngineError::IllegalPlacement);
                }
                set_cell(&mut next_board, by, bx);
            }
        }
    }
    assert(grid(next_board@) =~~= with_piece(board0, p, x as int, y as int));
    Ok(next_board)
}


/// A block as `(x, y, width, height)`: the columns `x..x + width` of the rows `y..y + height`.
pub type Block = (usize, usize, usize, usize);

/// The points a full block of the given size scores: 45 for 3x3, 15 for 3x2 and 2x3, 5 for 2x2.
pub open spec fn block_points(width: int, height: int) -> int {
    if width == 3 && height == 3 {
        45
    } else if width == 2 && height == 2 {
        5
    } else {
        15
    }
}

/// Every position of a `width` x `height` block on the board, row by row from the top,
/// and left to right within a row.
pub open spec fn placements(width: usize, height: usize) -> Seq<Block> {
    Seq::new(
        ((6 - height) * (6 - width)) as nat,
        |i: int| ((i % (6 - width)) as usize, (i / (6 - width)) as usize, width, height),
    )
}

/// The order in which blocks are looked for: all 3x3 positions, then 3x2, then 2x3, then 2x2.
pub open spec fn block_order() -> Seq<Block> {
    placements(3, 3) + placements(3, 2) + placements(2, 3) + placements(2, 2)
}

/// Whether board cell `r`, `c` lies in the block.
pub open spec fn in_block(blk: Block, r: int, c: int) -> bool {
    blk.1 <= r < blk.1 + blk.3 && blk.0 <= c < blk.0 + blk.2
}

/// Whether every cell of the block holds a pip.
pub open spec fn block_full(b: Seq<Seq<bool>>, blk: Block) -> bool {
    forall|r: int, c: int| #[trigger] in_block(blk, r, c) ==> b[r][c]
}

/// The board with the block's cells emptied.
pub open spec fn clear_block(b: Seq<Seq<bool>>, blk: Block) -> Seq<Seq<bool>> {
    Seq::new(b.len(), |r: int| Seq::new(b[r].len(), |c: int| !in_block(blk, r, c) && b[r][c]))
}

/// Looking for the blocks of `order` one after the other: a block that is full when its turn
/// comes is scored and cleared. The result is the final board, the scored blocks in order,
/// and the points.
pub open spec fn scan_blocks(b: Seq<Seq<bool>>, order: Seq<Block>) -> (Seq<Seq<bool>>, Seq<Block>, int)
    decreases order.len(),
{
    if order.len() == 0 {
        (b, Seq::empty(), 0)
    } else {
        let blk = order[0];
        if block_full(b, blk) {
            let rest = scan_blocks(clear_block(b, blk), order.drop_first());
            (rest.0, seq![blk] + rest.1, block_points(blk.2 as int, blk.3 as int) + rest.2)
        } else {
            scan_blocks(b, order.drop_first())
        }
    }
}

/// The scoring of a board: its blocks scanned in `block_order`.
pub open spec fn spec_score_blocks(b: Seq<Seq<bool>>) -> (Seq<Seq<bool>>, Seq<Block>, int) {
    scan_blocks(b, block_order())
}

/// The `k`-th block of `block_order`.
fn block_at(k: usize) -> (blk: Block)
    requires
        k < 49,
    ensures
        blk == block_order()[k as int],
{
    assert(placements(3, 3).len() == 9);
    assert(placements(3, 2).len() == 12);
    assert(placements(2, 3).len() == 12);
    assert(placements(2, 2).len() == 16);
    if k < 9 {
        (k % 3, k / 3, 3, 3)
    } else if k < 21 {
        ((k - 9) % 3, (k - 9) / 3, 3, 2)
    } else if k < 33 {
        ((k - 21) % 4, (k - 21) / 4, 2, 3)
    } else {
        ((k - 33) % 4, (k - 33) / 4, 2, 2)
    }
}

fn block_is_full(board: &BzGameboard, blk: Block) -> (full: bool)
    requires
        valid_board(grid(board@)),
        blk.0 + blk.2 <= 5,
        blk.1 + blk.3 <= 5,
    ensures
        full == block_full(grid(board@), blk),
{
    let (x, y, w, h) = blk;
    let ghost b = grid(board@);
    let mut row = y;
    while row < y + h
        invariant
            y <= row <= y + h,
            y + h <= 5,
            x + w <= 5,
            blk == (x, y, w, h),
            b == grid(board@),
            valid_board(b),
            forall|r: int, c: int| #[trigger] in_block(blk, r, c) && r < row ==> b[r][c],
        decreases y + h - row,
    {
        let mut col = x;
        while col < x + w
            invariant
                y <= row < y + h,
                y + h <= 5,
                x <= col <= x + w,
                x + w <= 5,
                blk == (x, y, w, h),
                b == grid(board@),
                valid_board(b),
                forall|r: int, c: int| #[trigger] in_block(blk, r, c) && r < row ==> b[r][c],
                forall|c: int| x <= c < col ==> #[trigger] b[row as int][c],
            decreases x + w - col,
        {
            assert(b[row as int].len() == 5);
            if !board[row][col] {
                assert(in_block(blk, row as int, col as int));
                return false;
            }
            col += 1;
        }
        row += 1;
    }
    true
}

fn clear_block_cells(board: &mut BzGameboard, blk: Block)
    requires
        valid_board(grid(old(board)@)),
        blk.0 + blk.2 <= 5,
        blk.1 + blk.3 <= 5,
    ensures
        grid(final(board)@) == clear_block(grid(old(board)@), blk),
{
    let (x, y, w, h) = blk;
    let ghost b = grid(board@);
    let mut row = y;
    while row < y + h
        invariant
            y <= row <= y + h,
            y + h <= 5,
            x + w <= 5,
            blk == (x, y, w, h),
            valid_board(b),
            valid_board(grid(board@)),
            forall|r: int, c: int| 0 <= r < 5 && 0 <= c < 5 ==> #[trigger] grid(board@)[r][c] == (
                !(in_block(blk, r, c) && r < row) && b[r][c]),
        decreases y + h - row,
    {
        let mut col = x;
        while col < x + w
            invariant
                y <= row < y + h,
                y + h <= 5,
                x <= col <= x + w,
                x + w <= 5,
                blk == (x, y, w, h),
                valid_board(b),
                valid_board(grid(board@)),
                forall|r: int, c: int| 0 <= r < 5 && 0 <= c < 5 ==> #[trigger] grid(board@)[r][c] == (
                    !(in_block(blk, r, c) && (r < row || (r == row && c < col))) && b[r][c]),
            decreases x + w - col,
        {
            assert(grid(board@)[row as int].len() == 5);
            clear_cell(board, row, col);
            col += 1;
        }
        row += 1;
    }
    assert(grid(board@) =~~= clear_block(b, blk));
}

fn score_blocks(board: BzGameboard) -> (res: (BzGameboard, Vec<Block>, i32))
    requires
        valid_board(grid(board@)),
    ensures
        grid(res.0@) == spec_score_blocks(grid(board@)).0,
        res.1@ == spec_score_blocks(grid(board@)).1,
        res.2 as int == spec_score_blocks(grid(board@)).2,
        res.2 >= 0,
{
    let ghost b0 = grid(board@);
    let mut board = board;
    let mut scored_blocks: Vec<Block> = Vec::new();
    let mut score: i32 = 0;
    assert(block_order().len() == 49);
    assert(block_order().skip(0) =~= block_order());
    for k in 0..49
        invariant
            block_order().len() == 49,
            valid_board(grid(board@)),
            0 <= score <= 45 * k,
            spec_score_blocks(b0) == ({
                let rest = scan_blocks(grid(board@), block_order().skip(k as int));
                (rest.0, scored_blocks@ + rest.1, score + rest.2)
            }),
    {
        let blk = block_at(k);
        proof {
            lemma_block_order_shapes(k as int);
            assert(block_order().skip(k as int).drop_first() =~= block_order().skip(k + 1));
            assert(block_order().skip(k as int)[0] == blk);
        }
        let ghost before = grid(board@);
        if block_is_full(&board, blk) {
            clear_block_cells(&mut board, blk);
            let points: i32 = if blk.2 == 3 && blk.3 == 3 {
                45
            } else if blk.2 == 2 && blk.3 == 2 {
                5
            } else {
                15
            };
            let ghost prev_blocks = scored_blocks@;
            scored_blocks.push(blk);
            score = score + points;
            proof {
                lemma_clear_keeps_valid(before, blk);
                let rest = scan_blocks(grid(board@), block_order().skip(k + 1));
                assert(scored_blocks@ + rest.1 =~= prev_blocks + (seq![blk] + rest.1));
            }
        }
    }
    assert(block_order().skip(49) =~= Seq::<Block>::empty());
    (board, scored_blocks, score)
}

/// Each block of the order lies on the board and is 2 or 3 cells wide and high.
pub proof fn lemma_block_order_shapes(k: int)
    requires
        0 <= k < 49,
    ensures
        block_order()[k].0 + block_order()[k].2 <= 5,
        block_order()[k].1 + block_order()[k].3 <= 5,
        block_order()[k].2 == 2 || block_order()[k].2 == 3,
        block_order()[k].3 == 2 || block_order()[k].3 == 3,
{
    assert(placements(3, 3).len() == 9);
    assert(placements(3, 2).len() == 12);
    assert(placements(2, 3).len() == 12);
    assert(placements(2, 2).len() == 16);
}

/// The points of a scan lie between 0 and 45 per block looked at.
proof fn lemma_scan_points_bounded(b: Seq<Seq<bool>>, order: Seq<Block>)
    ensures
        0 <= scan_blocks(b, order).2 <= 45 * order.len(),
    decreases order.len(),
{
    if order.len() > 0 {
        let blk = order[0];
        if block_full(b, blk) {
            lemma_scan_points_bounded(clear_block(b, blk), order.drop_first());
        } else {
            lemma_scan_points_bounded(b, order.drop_first());
        }
    }
}

/// The blocks of a board score at most 2205 points: 45 for each of the 49 blocks looked at.
pub proof fn lemma_block_points_bounded(b: Seq<Seq<bool>>)
    ensures
        0 <= spec_score_blocks(b).2 <= 2205,
{
    assert(placements(3, 3).len() == 9);
    assert(placements(3, 2).len() == 12);
    assert(placements(2, 3).len() == 12);
    assert(placements(2, 2).len() == 16);
    assert(block_order().len() == 49);
    lemma_scan_points_bounded(b, block_order());
}

proof fn lemma_clear_keeps_valid(b: Seq<Seq<bool>>, blk: Block)
    requires
        valid_board(b),
    ensures
        valid_board(clear_block(b, blk)),
{
    assert forall|r: int| 0 <= r < 5 implies #[trigger] clear_block(b, blk)[r].len() == 5 by {
        assert(b[r].len() == 5);
    }
}

/// Whether the board has no pip at all.
pub open spec fn board_empty(b: Seq<Seq<bool>>) -> bool {
    forall|r: int, c: int| 0 <= r < b.len() && 0 <= c < b[r].len() ==> !#[trigger] b[r][c]
}

/// The turns a player skipped before playing `turn`, having last played `last` (`turn > last`).
pub open spec fn missed_turns(turn: u32, last: u32) -> u32 {
    (turn - last - 1) as u32
}

/// The penalty for the skipped turns: `FAILURE_PENALTY` times their number taken as an `i32`.
pub open spec fn missed_penalty(turn: u32, last: u32) -> int {
    FAILURE_PENALTY * (missed_turns(turn, last) as i32)
}

/// The bonus of the final turn: it is earned when the board is empty once scored.
pub open spec fn final_bonus(game: BzGame, turn: u32, scored_board: Seq<Seq<bool>>) -> int {
    if turn == game.turns && board_empty(scored_board) {
        FINAL_EMPTY_BOARD_BONUS as int
    } else {
        0
    }
}

/// Whether a turn may be scored: the board is 5x5 and the turn lies after the player's last
/// turn and within the game.
pub open spec fn scorable(game: BzGame, player: BzPlayer, turn: u32, board: Seq<Seq<bool>>) -> bool {
    valid_board(board) && turn != 0 && turn <= game.turns && turn > player.last_turn_played
}

/// The points of a turn: the blocks' points, the penalty for skipped turns, and the final bonus.
pub open spec fn turn_points(game: BzGame, player: BzPlayer, turn: u32, board: Seq<Seq<bool>>) -> int {
    let scored = spec_score_blocks(board);
    scored.2 + missed_penalty(turn, player.last_turn_played) + final_bonus(game, turn, scored.0)
}

/// The penalty and the turn's points fit in an `i32` (where they do not, the arithmetic
/// of the computation overflows).
pub open spec fn turn_points_fit(game: BzGame, player: BzPlayer, turn: u32, board: Seq<Seq<bool>>) -> bool {
    scorable(game, player, turn, board) ==> {
        &&& i32::MIN <= missed_penalty(turn, player.last_turn_played)
        &&& turn_points(game, player, turn, board) <= i32::MAX
    }
}

/// What scoring turn `turn` on `board` gives: the board with the scored blocks cleared, the
/// blocks, and the points; or the first rule that is broken.
pub open spec fn spec_compute_turn_score(game: BzGame, player: BzPlayer, turn: u32, board: Seq<Seq<bool>>) -> Result<(Seq<Seq<bool>>, Seq<Block>, int), GameEngineError> {
    if !valid_board(board) {
        Err(GameEngineError::InvalidBoard)
    } else if turn == 0 {
        Err(GameEngineError::InvalidTurn)
    } else if turn > game.turns {
        Err(GameEngineError::TurnExceedsGame)
    } else if turn <= player.last_turn_played {
        Err(GameEngineError::TurnAlreadyPlayed)
    } else {
        let scored = spec_score_blocks(board);
        Ok((scored.0, scored.1, turn_points(game, player, turn, board)))
    }
}

/// A result that holds a turn score, seen through its board's cells.
pub open spec fn score_result(r: Result<TurnScore, GameEngineError>) -> Result<(Seq<Seq<bool>>, Seq<Block>, int), GameEngineError> {
    match r {
        Ok(t) => Ok((grid(t.gameboard@), t.scored_blocks@, t.score as int)),
        Err(e) => Err(e),
    }
}

fn is_board_empty(board: &BzGameboard) -> (empty: bool)
    ensures
        empty == board_empty(grid(board@)),
{
    let ghost b = grid(board@);
    for r in 0..board.len()
        invariant
            b == grid(board@),
            forall|i: int, c: int| 0 <= i < r && 0 <= c < b[i].len() ==> !#[trigger] b[i][c],
    {
        let n = board[r].len();
        for c in 0..n
            invariant
                b == grid(board@),
                r < b.len(),
                n == b[r as int].len(),
                forall|i: int, j: int| 0 <= i < r && 0 <= j < b[i].len() ==> !#[trigger] b[i][j],
                forall|j: int| 0 <= j < c ==> !#[trigger] b[r as int][j],
        {
            if board[r][c] {
                assert(b[r as int][c as int]);
                return false;
            }
        }
    }
    true
}

/// Scores turn `turn` on `board`: clears and counts the full blocks, takes off the penalty for
/// the turns missed since the player's last one, and adds the bonus of an empty board on the
/// final turn.
pub fn compute_turn_score(game: &BzGame, player: &BzPlayer, turn: u32, board: BzGameboard) -> (r: Result<TurnScore, GameEngineError>)
    requires
        turn_points_fit(*game, *player, turn, grid(board@)),
    ensures
        score_result(r) == spec_compute_turn_score(*game, *player, turn, grid(board@)),
{
    compute_turn_score_checked(game, player, turn, board).unwrap()
}

/// `compute_turn_score` where its arithmetic fits in an `i32`, and `None` where it would overflow.
pub fn compute_turn_score_checked(game: &BzGame, player: &BzPlayer, turn: u32, board: BzGameboard) -> (r: Option<Result<TurnScore, GameEngineError>>)
    ensures
        r is None <==> !turn_points_fit(*game, *player, turn, grid(board@)),
        r matches Some(s) ==> score_result(s) == spec_compute_turn_score(*game, *player, turn, grid(board@)),
{
    if let Err(e) = validate_board(&board) {
        return Some(Err(e));
    }
    if turn == 0 {
        return Some(Err(GameEngineError::InvalidTurn));
    }
    if turn > game.turns {
        return Some(Err(GameEngineError::TurnExceedsGame));
    }
    if turn <= player.last_turn_played {
        return Some(Err(GameEngineError::TurnAlreadyPlayed));
    }
    let ghost b = grid(board@);
    let missed = turn - (player.last_turn_played + 1);
    let (next_board, scored_blocks, block_score) = score_blocks(board);
    assert(missed == missed_turns(turn, player.last_turn_played));
    let missed_i32: i32 = #[verifier::truncate] (missed as i32);
    assert(scorable(*game, *player, turn, b));
    assert(missed_penalty(turn, player.last_turn_played) == FAILURE_PENALTY * missed_i32);
    assert(spec_score_blocks(b).2 == block_score as int);
    let penalty = match FAILURE_PENALTY.checked_mul(missed_i32) {
        Some(p) => p,
        None => {
            return None;
        },
    };
    let mut score = match block_score.checked_add(penalty) {
        Some(s) => s,
        None => {
            return None;
        },
    };
    if turn == game.turns && is_board_empty(&next_board) {
        score = match score.checked_add(FINAL_EMPTY_BOARD_BONUS) {
            Some(s) => s,
            None => {
                return None;
            },
        };
    }
    Some(Ok(TurnScore { score, gameboard: next_board, scored_blocks }))
}

/// The same as `compute_turn_score`.
pub fn compute_score(game: &BzGame, player: &BzPlayer, turn: u32, board: BzGameboard) -> (r: Result<TurnScore, GameEngineError>)
    requires
        turn_points_fit(*game, *player, turn, grid(board@)),
    ensures
        score_result(r) == spec_compute_turn_score(*game, *player, turn, grid(board@)),
{
    compute_turn_score(game, player, turn, board)
}

/// The same as `place_piece`: whether the move is legal, and the board it leads to.
pub fn is_legal_move(game: &BzGame, player: &BzPlayer, turn: u32, x: i32, y: i32) -> (r: Result<BzGameboard, GameEngineError>)
    ensures
        board_result(r) == spec_place_piece(*game, *player, turn, x as int, y as int),
{
    place_piece(game, player, turn, x, y)
}

fn set_cell(board: &mut Vec<Vec<bool>>, r: usize, c: usize)
    requires
        r < old(board)@.len(),
        c < old(board)@[r as int]@.len(),
    ensures
        grid(final(board)@) == grid(old(board)@).update(r as int, grid(old(board)@)[r as int].update(c as int, true)),
{
    board[r].set(c, true);
    assert(grid(board@) =~= grid(old(board)@).update(r as int, grid(old(board)@)[r as int].update(c as int, true)));
}

fn clear_cell(board: &mut Vec<Vec<bool>>, r: usize, c: usize)
    requires
        r < old(board)@.len(),
        c < old(board)@[r as int]@.len(),
    ensures
        grid(final(board)@) == grid(old(board)@).update(r as int, grid(old(board)@)[r as int].update(c as int, false)),
{
    board[r].set(c, false);
    assert(grid(board@) =~= grid(old(board)@).update(r as int, grid(old(board)@)[r as int].update(c as int, false)));
}

} // verus!
