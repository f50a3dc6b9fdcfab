use time::format_description::well_known::Rfc3339;
use time::OffsetDateTime;
use uuid::Uuid;
use vstd::prelude::*;
use crate::engine::{
    compute_turn_score_checked, empty_gameboard, error_name, grid, pieces_view, place_piece,
    spec_all_gamepieces, spec_compute_turn_score, spec_empty_board, spec_place_piece, turn_points,
    turn_points_fit, BzGame, BzGameboard, BzGamepiece, BzPlayer, GameEngineError,
};

verus! {

/// The number of turns of a new game.
pub const DEFAULT_NUMBER_OF_TURNS: u32 = 31;

/// How long players have to place a turn's piece, in seconds.
pub const DEFAULT_TURN_DURATION_SECONDS: i64 = 60;

/// The pause after each turn, in seconds.
pub const DEFAULT_INTERIM_SECONDS: i64 = 10;

/// The most players a game admits.
pub const MAX_PLAYERS: usize = 100;

/// Nanoseconds in a second.
pub const NANOS_PER_SECOND: i128 = 1_000_000_000;

/// Why a service request fails.
#[derive(Debug)]
pub enum ServiceError {
    NotFound,
    Conflict(String),
    Invalid(String),
    Storage(String),
}

/// A service error with its message as a sequence of characters.
pub enum Failure {
    NotFound,
    Conflict(Seq<char>),
    Invalid(Seq<char>),
    Storage(Seq<char>),
}

impl View for ServiceError {
    type V = Failure;

    open spec fn view(&self) -> Failure {
        match self {
            ServiceError::NotFound => Failure::NotFound,
            ServiceError::Conflict(m) => Failure::Conflict(m@),
            ServiceError::Invalid(m) => Failure::Invalid(m@),
            ServiceError::Storage(m) => Failure::Storage(m@),
        }
    }
}

/// A result whose error is seen through its view.
pub open spec fn outcome<T>(r: Result<T, ServiceError>) -> Result<T, Failure> {
    match r {
        Ok(v) => Ok(v),
        Err(e) => Err(e@),
    }
}

/// The failure of a move that the engine refuses: the request is invalid, and the message
/// names the rule that the move breaks.
pub open spec fn engine_refusal(err: GameEngineError) -> Failure {
    Failure::Invalid(error_name(err))
}

/// An engine error, as a service error.
pub fn engine_failure(err: GameEngineError) -> (e: ServiceError)
    ensures
        e@ == engine_refusal(err),
{
    ServiceError::Invalid(err.to_string())
}

/// A stored game.
#[derive(Debug, Clone)]
pub struct GameRecord {
    pub id: String,
    pub name: String,
    pub starting_time: String,
    pub ending_time: String,
    pub number_of_turns: u32,
    pub turn_duration: i64,
    pub interim: i64,
    pub current_turn: u32,
    pub pieces: Vec<BzGamepiece>,
    pub completed: bool,
}

/// A player's stored state in one game.
#[derive(Debug, Clone, PartialEq, Eq)]
pub struct PlayerGameRecord {
    pub game_id: String,
    pub user_id: String,
    pub name: String,
    pub gameboard: BzGameboard,
    pub score: i32,
    pub last_turn_played: u32,
}

/// A stored game, as plain values.
pub struct GameState {
    pub id: Seq<char>,
    pub name: Seq<char>,
    pub starting_time: Seq<char>,
    pub ending_time: Seq<char>,
    pub number_of_turns: u32,
    pub turn_duration: i64,
    pub interim: i64,
    pub current_turn: u32,
    pub pieces: Seq<Seq<Seq<bool>>>,
    pub completed: bool,
}

impl View for GameRecord {
    type V = GameState;

    open spec fn view(&self) -> GameState {
        GameState {
            id: self.id@,
            name: self.name@,
            starting_time: self.starting_time@,
            ending_time: self.ending_time@,
            number_of_turns: self.number_of_turns,
            turn_duration: self.turn_duration,
            interim: self.interim,
            current_turn: self.current_turn,
            pieces: pieces_view(self.pieces@),
            completed: self.completed,
        }
    }
}

/// A player's stored state, as plain values.
pub struct PlayerState {
    pub game_id: Seq<char>,
    pub user_id: Seq<char>,
    pub name: Seq<char>,
    pub gameboard: Seq<Seq<bool>>,
    pub score: i32,
    pub last_turn_played: u32,
}

impl View for PlayerGameRecord {
    type V = PlayerState;

    open spec fn view(&self) -> PlayerState {
        PlayerState {
            game_id: self.game_id@,
            user_id: self.user_id@,
            name: self.name@,
            gameboard: grid(self.gameboard@),
            score: self.score,
            last_turn_played: self.last_turn_played,
        }
    }
}

/// A player of a game, as listed.
#[derive(Debug, Clone)]
pub struct GamePlayerSummary {
    pub id: String,
    pub name: String,
}

/// The storage key of a game.
pub fn game_key(id: &str) -> (key: String)
    ensures
        key@ == "game:"@ + id@,
{
    let mut key = String::from_str("game:");
    key.append(id);
    key
}

/// The storage key of a player's state in a game, as characters.
pub open spec fn spec_player_key(game_id: Seq<char>, user_id: Seq<char>) -> Seq<char> {
    "game_player:"@ + game_id + "_"@ + user_id
}

/// The storage key of a player's state in a game.
pub fn player_key(game_id: &str, user_id: &str) -> (key: String)
    ensures
        key@ == spec_player_key(game_id@, user_id@),
{
    let mut key = String::from_str("game_player:");
    key.append(game_id);
    key.append("_");
    key.append(user_id);
    key
}

/// What `time` makes of an RFC 3339 timestamp: the instant in nanoseconds since the Unix
/// epoch, or the message of the parse error.
pub uninterp spec fn rfc3339_parse(text: Seq<char>) -> Result<int, Seq<char>>;

/// The bound on the instants that `time` can represent, in nanoseconds either side of the
/// Unix epoch (its years stay within 999,999 of year 0).
pub const INSTANT_BOUND: i128 = 100_000_000_000_000_000_000_000;

/// An instant or a message, seen as plain values.
pub open spec fn instant_result(r: Result<i128, String>) -> Result<int, Seq<char>> {
    match r {
        Ok(n) => Ok(n as int),
        Err(m) => Err(m@),
    }
}

/// Parses an RFC 3339 timestamp with `time`'s `OffsetDateTime::parse` and `Rfc3339`, and
/// gives its instant with `OffsetDateTime::unix_timestamp_nanos`, or the parse error's message
/// (its `Display`). What is stated: the result is the named `rfc3339_parse` of the text, and an
/// instant lies within the years that `time` represents.
#[verifier::external_body]
fn rfc3339_to_unix_nanos(text: &str) -> (r: Result<i128, String>)
    ensures
        instant_result(r) == rfc3339_parse(text@),
        r matches Ok(n) ==> -INSTANT_BOUND < n < INSTANT_BOUND,
{
    match OffsetDateTime::parse(text, &Rfc3339) {
        Ok(t) => Ok(t.unix_timestamp_nanos()),
        Err(e) => Err(e.to_string()),
    }
}

/// The instant of an RFC 3339 timestamp, in nanoseconds since the Unix epoch; a timestamp
/// that does not parse is a storage failure carrying the parser's message.
pub fn parse_time(value: &str) -> (r: Result<i128, ServiceError>)
    ensures
        instant_outcome(r) == spec_parse_time(value@),
        r matches Ok(n) ==> -INSTANT_BOUND < n < INSTANT_BOUND,
{
    match rfc3339_to_unix_nanos(value) {
        Ok(n) => Ok(n),
        Err(m) => Err(ServiceError::Storage(m)),
    }
}

/// An instant or a failure, seen as plain values.
pub open spec fn instant_outcome(r: Result<i128, ServiceError>) -> Result<int, Failure> {
    match r {
        Ok(n) => Ok(n as int),
        Err(e) => Err(e@),
    }
}

/// The instant of a timestamp, or the storage failure that carries the parser's message.
pub open spec fn spec_parse_time(text: Seq<char>) -> Result<int, Failure> {
    match rfc3339_parse(text) {
        Ok(n) => Ok(n),
        Err(m) => Err(Failure::Storage(m)),
    }
}

/// A turn lasts `turn_duration` seconds and is followed by `interim` seconds.
pub open spec fn turn_slot(game: GameRecord) -> int {
    game.turn_duration + game.interim
}

/// The slot of a turn is a nonzero `i64`.
pub open spec fn slot_ok(game: GameRecord) -> bool {
    i64::MIN <= turn_slot(game) <= i64::MAX && turn_slot(game) != 0
}

/// The turn under way at instant `now` of a game that runs from `start` to `end`: -1 before the
/// start, the number of turns (as an `i32`) from the end on, and otherwise the number of whole
/// slots elapsed since the start (0 when the slot is negative).
pub open spec fn turn_index(start: int, end: int, now: int, number_of_turns: u32, slot: int) -> i32 {
    if now < start {
        -1i32
    } else if now >= end {
        number_of_turns as i32
    } else {
        let elapsed = (now - start) / (NANOS_PER_SECOND as int);
        (if slot > 0 {
            elapsed / slot
        } else {
            0
        }) as i32
    }
}

/// The turn under way at `now`, or the storage failure of a timestamp that does not parse.
pub open spec fn spec_current_turn(game: GameRecord, now: int) -> Result<i32, Failure> {
    match rfc3339_parse(game.starting_time@) {
        Err(m) => Err(Failure::Storage(m)),
        Ok(start) => match rfc3339_parse(game.ending_time@) {
            Err(m) => Err(Failure::Storage(m)),
            Ok(end) => Ok(turn_index(start, end, now, game.number_of_turns, turn_slot(game))),
        },
    }
}

/// The computation of the current turn divides by the slot only while the game is under way:
/// there the slot must be a nonzero `i64`.
pub open spec fn current_turn_defined(game: GameRecord, now: int) -> bool {
    match (rfc3339_parse(game.starting_time@), rfc3339_parse(game.ending_time@)) {
        (Ok(start), Ok(end)) => start <= now < end ==> slot_ok(game),
        _ => true,
    }
}

/// The index of the turn under way at `now` (nanoseconds since the Unix epoch).
pub fn current_turn(game: &GameRecord, now: i128) -> (r: Result<i32, ServiceError>)
    requires
        current_turn_defined(*game, now as int),
    ensures
        outcome(r) == spec_current_turn(*game, now as int),
{
    let start = parse_time(game.starting_time.as_str())?;
    let end = parse_time(game.ending_time.as_str())?;
    if now < start {
        return Ok(-1);
    }
    if now >= end {
        return Ok(#[verifier::truncate] (game.number_of_turns as i32));
    }
    let slot = game.turn_duration + game.interim;
    let elapsed: i64 = ((now - start) / NANOS_PER_SECOND) as i64;
    let turns: i64 = if slot > 0 {
        elapsed / slot
    } else {
        0
    };
    Ok(#[verifier::truncate] (turns as i32))
}

/// `current_turn` where it is defined, and `None` where its division would be by zero or
/// its slot would overflow.
pub fn current_turn_checked(game: &GameRecord, now: i128) -> (r: Option<Result<i32, ServiceError>>)
    ensures
        r is None <==> !current_turn_defined(*game, now as int),
        r matches Some(t) ==> outcome(t) == spec_current_turn(*game, now as int),
{
    match (rfc3339_to_unix_nanos(game.starting_time.as_str()), rfc3339_to_unix_nanos(game.ending_time.as_str())) {
        (Ok(start), Ok(end)) => {
            if start <= now && now < end {
                let ok = match game.turn_duration.checked_add(game.interim) {
                    Some(slot) => slot != 0,
                    None => false,
                };
                if !ok {
                    return None;
                }
            }
        },
        _ => {},
    }
    Some(current_turn(game, now))
}

/// The engine's view of a stored game.
pub open spec fn engine_game(game: GameRecord) -> BzGame {
    BzGame { pieces: game.pieces, turns: game.number_of_turns }
}

/// The engine's view of a player's stored state.
pub open spec fn engine_player(player: PlayerGameRecord) -> BzPlayer {
    BzPlayer { gameboard: player.gameboard, last_turn_played: player.last_turn_played }
}

/// The engine's turn for a move of turn index `turn_number`: turns are counted from 1 there.
pub open spec fn engine_turn(turn_number: i32) -> u32 {
    (turn_number + 1) as u32
}

/// Why a move is refused before the engine sees it, if it is: a negative turn index, a
/// timestamp that does not parse, a game that has not started or is over, or a turn index
/// other than the current one.
pub open spec fn move_timing(game: GameRecord, turn_number: i32, now: int) -> Option<Failure> {
    if turn_number < 0 {
        Some(Failure::Conflict("turn must be non-negative"@))
    } else {
        match spec_current_turn(game, now) {
            Err(f) => Some(f),
            Ok(expected) => if expected < 0 {
                Some(Failure::Conflict("game has not started"@))
            } else if expected >= game.number_of_turns as i32 {
                Some(Failure::Conflict("game is completed"@))
            } else if turn_number != expected {
                Some(Failure::Conflict("move is not for the current turn"@))
            } else {
                None
            },
        }
    }
}

/// The board after the move's piece is placed, when the move gets that far.
pub open spec fn placed_board(game: GameRecord, player: PlayerGameRecord, turn_number: i32, x: int, y: int, now: int) -> Option<Seq<Seq<bool>>> {
    if move_timing(game, turn_number, now) is Some {
        None
    } else {
        match spec_place_piece(engine_game(game), engine_player(player), engine_turn(turn_number), x, y) {
            Ok(board) => Some(board),
            Err(_) => None,
        }
    }
}

/// The arithmetic of a move fits: the current turn is computable, and where the move is scored,
/// the turn's points and the player's new total fit in an `i32`.
pub open spec fn move_defined(game: GameRecord, player: PlayerGameRecord, turn_number: i32, x: int, y: int, now: int) -> bool {
    &&& turn_number >= 0 ==> current_turn_defined(game, now)
    &&& placed_board(game, player, turn_number, x, y, now) matches Some(board) ==> {
        &&& turn_points_fit(engine_game(game), engine_player(player), engine_turn(turn_number), board)
        &&& i32::MIN <= player.score + turn_points(engine_game(game), engine_player(player), engine_turn(turn_number), board) <= i32::MAX
    }
}

/// What a move gives: the game, whose current turn becomes the move's turn index (and which
/// is completed if that index equals the number of turns), and the player, whose board is the
/// scored board, whose score grows by the turn's points and whose last turn played becomes the
/// engine's turn of the move (the index plus one), so that the same turn cannot be played again
/// and the next one costs no penalty; or why the move is refused.
pub open spec fn spec_play_move(game: GameRecord, player: PlayerGameRecord, turn_number: i32, x: int, y: int, now: int) -> Result<(GameState, PlayerState), Failure> {
    match move_timing(game, turn_number, now) {
        Some(f) => Err(f),
        None => {
            let eg = engine_game(game);
            let ep = engine_player(player);
            let turn = engine_turn(turn_number);
            match spec_place_piece(eg, ep, turn, x, y) {
                Err(err) => Err(engine_refusal(err)),
                Ok(board) => match spec_compute_turn_score(eg, ep, turn, board) {
                    Err(err) => Err(engine_refusal(err)),
                    Ok(scored) => {
                        let index = turn_number as u32;
                        Ok((
                            GameState {
                                current_turn: index,
                                completed: if index == game.number_of_turns {
                                    true
                                } else {
                                    game.completed
                                },
                                ..game@
                            },
                            PlayerState {
                                gameboard: scored.0,
                                score: (player.score + scored.2) as i32,
                                last_turn_played: turn,
                                ..player@
                            },
                        ))
                    },
                },
            }
        },
    }
}

/// A move's result, seen as plain values.
pub open spec fn move_outcome(r: Result<(GameRecord, PlayerGameRecord), ServiceError>) -> Result<(GameState, PlayerState), Failure> {
    match r {
        Ok((g, p)) => Ok((g@, p@)),
        Err(e) => Err(e@),
    }
}

/// Plays the move of turn index `turn_number` (counted from 0) at column `x`, row `y`, at
/// instant `now`: checks the timing, places the piece, scores the turn, and gives the updated
/// game and player.
pub fn play_move(game: GameRecord, player: PlayerGameRecord, turn_number: i32, x: i32, y: i32, now: i128) -> (r: Result<(GameRecord, PlayerGameRecord), ServiceError>)
    requires
        move_defined(game, player, turn_number, x as int, y as int, now as int),
    ensures
        move_outcome(r) == spec_play_move(game, player, turn_number, x as int, y as int, now as int),
{
    play_move_checked(game, player, turn_number, x, y, now).unwrap()
}

/// `play_move` where its arithmetic is defined, and `None` where it would divide by zero or
/// overflow.
pub fn play_move_checked(game: GameRecord, player: PlayerGameRecord, turn_number: i32, x: i32, y: i32, now: i128) -> (r: Option<Result<(GameRecord, PlayerGameRecord), ServiceError>>)
    ensures
        r is None <==> !move_defined(game, player, turn_number, x as int, y as int, now as int),
        r matches Some(m) ==> move_outcome(m) == spec_play_move(game, player, turn_number, x as int, y as int, now as int),
{
    let ghost g0 = game;
    let ghost p0 = player;
    if turn_number < 0 {
        return Some(Err(ServiceError::Conflict(String::from_str("turn must be non-negative"))));
    }
    let expected = match current_turn_checked(&game, now) {
        None => {
            return None;
        },
        Some(Err(e)) => {
            return Some(Err(e));
        },
        Some(Ok(t)) => t,
    };
    if expected < 0 {
        return Some(Err(ServiceError::Conflict(String::from_str("game has not started"))));
    }
    if expected >= #[verifier::truncate] (game.number_of_turns as i32) {
        return Some(Err(ServiceError::Conflict(String::from_str("game is completed"))));
    }
    if turn_number != expected {
        return Some(Err(ServiceError::Conflict(String::from_str("move is not for the current turn"))));
    }
    let turn = (turn_number + 1) as u32;
    let GameRecord {
        id,
        name,
        starting_time,
        ending_time,
        number_of_turns,
        turn_duration,
        interim,
        current_turn: _,
        pieces,
        completed,
    } = game;
    let PlayerGameRecord { game_id, user_id, name: player_name, gameboard, score, last_turn_played } =
        player;
    let eg = BzGame { pieces, turns: number_of_turns };
    let ep = BzPlayer { gameboard, last_turn_played };
    assert(eg == engine_game(g0));
    assert(ep == engine_player(p0));
    let board = match place_piece(&eg, &ep, turn, x, y) {
        Ok(b) => b,
        Err(e) => {
            return Some(Err(engine_failure(e)));
        },
    };
    let scored = match compute_turn_score_checked(&eg, &ep, turn, board) {
        None => {
            return None;
        },
        Some(Err(e)) => {
            return Some(Err(engine_failure(e)));
        },
        Some(Ok(s)) => s,
    };
    let total = match score.checked_add(scored.score) {
        None => {
            return None;
        },
        Some(t) => t,
    };
    let index = turn_number as u32;
    let game = GameRecord {
        id,
        name,
        starting_time,
        ending_time,
        number_of_turns,
        turn_duration,
        interim,
        current_turn: index,
        pieces: eg.pieces,
        completed: if index == number_of_turns {
            true
        } else {
            completed
        },
    };
    let player = PlayerGameRecord {
        game_id,
        user_id,
        name: player_name,
        gameboard: scored.gameboard,
        score: total,
        last_turn_played: turn,
    };
    Some(Ok((game, player)))
}

/// Whether a game still admits players at `now`: its ending time must parse, the game must
/// not be over by then, and it must not be completed.
pub open spec fn spec_game_open(game: GameRecord, now: int) -> Result<(), Failure> {
    match spec_parse_time(game.ending_time@) {
        Err(f) => Err(f),
        Ok(end) => if now >= end || game.completed {
            Err(Failure::Conflict("game is completed"@))
        } else {
            Ok(())
        },
    }
}

/// Refuses to let players join a game that is over at `now` or completed.
pub fn ensure_game_open(game: &GameRecord, now: i128) -> (r: Result<(), ServiceError>)
    ensures
        outcome(r) == spec_game_open(*game, now as int),
{
    let end = parse_time(game.ending_time.as_str())?;
    if now >= end || game.completed {
        return Err(ServiceError::Conflict(String::from_str("game is completed")));
    }
    Ok(())
}

/// The state of a player who joins a game that has `player_count` players: an empty board,
/// no points and no turn played; or a conflict when the game already has `MAX_PLAYERS`.
pub open spec fn spec_new_player(game_id: Seq<char>, user_id: Seq<char>, user_name: Seq<char>, player_count: int) -> Result<PlayerState, Failure> {
    if player_count >= MAX_PLAYERS {
        Err(Failure::Conflict("game is full"@))
    } else {
        Ok(
            PlayerState {
                game_id,
                user_id,
                name: user_name,
                gameboard: spec_empty_board(),
                score: 0,
                last_turn_played: 0,
            },
        )
    }
}

/// A player's state or a failure, seen as plain values.
pub open spec fn player_outcome(r: Result<PlayerGameRecord, ServiceError>) -> Result<PlayerState, Failure> {
    match r {
        Ok(p) => Ok(p@),
        Err(e) => Err(e@),
    }
}

/// The decision on a join request at instant `now`, once the player's stored state (if any)
/// has been looked up, for a game that has `player_count` players: a game that is over or
/// completed refuses it; a player who already has a state gets that state back, with nothing to
/// save; any other player gets a new state, to be saved, unless the game is full.
pub open spec fn spec_join_decision(
    game: GameRecord,
    now: int,
    existing: Option<PlayerState>,
    player_count: int,
    game_id: Seq<char>,
    user_id: Seq<char>,
    user_name: Seq<char>,
) -> Result<(PlayerState, bool), Failure> {
    match spec_game_open(game, now) {
        Err(f) => Err(f),
        Ok(_) => match existing {
            Some(p) => Ok((p, false)),
            None => match spec_new_player(game_id, user_id, user_name, player_count) {
                Err(f) => Err(f),
                Ok(p) => Ok((p, true)),
            },
        },
    }
}

/// A join request against a store that holds the player states `stored` under their keys: the
/// answer, and what the store holds afterwards (the new state written under the player's key
/// when the decision says to save it).
pub open spec fn spec_join(
    stored: Map<Seq<char>, PlayerState>,
    game: GameRecord,
    now: int,
    player_count: int,
    game_id: Seq<char>,
    user_id: Seq<char>,
    user_name: Seq<char>,
) -> (Result<PlayerState, Failure>, Map<Seq<char>, PlayerState>) {
    let key = spec_player_key(game_id, user_id);
    let existing = if stored.contains_key(key) {
        Some(stored[key])
    } else {
        None
    };
    match spec_join_decision(game, now, existing, player_count, game_id, user_id, user_name) {
        Err(f) => (Err(f), stored),
        Ok((p, save)) => (Ok(p), if save {
            stored.insert(key, p)
        } else {
            stored
        }),
    }
}

/// A stored player's state, if any, seen as plain values.
pub open spec fn existing_view(existing: Option<PlayerGameRecord>) -> Option<PlayerState> {
    match existing {
        Some(p) => Some(p@),
        None => None,
    }
}

/// A join decision, seen as plain values.
pub open spec fn join_outcome(r: Result<(PlayerGameRecord, bool), ServiceError>) -> Result<(PlayerState, bool), Failure> {
    match r {
        Ok((p, save)) => Ok((p@, save)),
        Err(e) => Err(e@),
    }
}

/// Decides a join request at `now`, given the player's stored state (if any) and, where there is
/// none, the number of players of the game: the player's state and whether it is to be saved.
pub fn join_decision(
    game: &GameRecord,
    now: i128,
    existing: Option<PlayerGameRecord>,
    player_count: usize,
    game_id: &str,
    user_id: &str,
    user_name: &str,
) -> (r: Result<(PlayerGameRecord, bool), ServiceError>)
    ensures
        join_outcome(r) == spec_join_decision(
            *game,
            now as int,
            existing_view(existing),
            player_count as int,
            game_id@,
            user_id@,
            user_name@,
        ),
{
    ensure_game_open(game, now)?;
    match existing {
        Some(p) => Ok((p, false)),
        None => {
            let p = new_player_record(game_id, user_id, user_name, player_count)?;
            Ok((p, true))
        },
    }
}

/// The state of a player who joins a game that has `player_count` players.
pub fn new_player_record(game_id: &str, user_id: &str, user_name: &str, player_count: usize) -> (r: Result<PlayerGameRecord, ServiceError>)
    ensures
        player_outcome(r) == spec_new_player(game_id@, user_id@, user_name@, player_count as int),
{
    if player_count >= MAX_PLAYERS {
        return Err(ServiceError::Conflict(String::from_str("game is full")));
    }
    Ok(PlayerGameRecord {
        game_id: String::from_str(game_id),
        user_id: String::from_str(user_id),
        name: String::from_str(user_name),
        gameboard: empty_gameboard(),
        score: 0,
        last_turn_played: 0,
    })
}

/// How long after its creation a game starts: two minutes.
pub const START_DELAY_NANOS: i128 = 120_000_000_000;

/// How long a default game lasts: its turns, each a turn and an interim long.
pub open spec fn default_game_length() -> int {
    DEFAULT_NUMBER_OF_TURNS * (DEFAULT_TURN_DURATION_SECONDS + DEFAULT_INTERIM_SECONDS) * NANOS_PER_SECOND
}

/// What `time` writes for an instant (nanoseconds since the Unix epoch) as an RFC 3339 UTC
/// timestamp, or the message of the error that it gives.
pub uninterp spec fn rfc3339_format(instant: int) -> Result<Seq<char>, Seq<char>>;

/// A text or a message, seen as plain values.
pub open spec fn text_result(r: Result<String, String>) -> Result<Seq<char>, Seq<char>> {
    match r {
        Ok(t) => Ok(t@),
        Err(m) => Err(m@),
    }
}

/// The first instant of year 0 (UTC), in nanoseconds since the Unix epoch.
pub const FORMATTABLE_FROM: i128 = -62_167_219_200_000_000_000;

/// The first instant of year 10000 (UTC), in nanoseconds since the Unix epoch.
pub const FORMATTABLE_UNTIL: i128 = 253_402_300_800_000_000_000;

/// An RFC 3339 timestamp has a four-digit year: the instant lies in the years 0 to 9999.
pub open spec fn formattable(instant: int) -> bool {
    FORMATTABLE_FROM <= instant < FORMATTABLE_UNTIL
}

/// Writes an instant with `time`'s `OffsetDateTime::from_unix_timestamp_nanos` (in UTC) and
/// `OffsetDateTime::format` with `Rfc3339`; an error of either gives its message (its
/// `Display`). What is stated: the result is the named `rfc3339_format` of the instant; it is a
/// text exactly when the instant lies in the years 0 to 9999 (the format refuses other years and
/// a UTC offset is always written); and a text written this way parses back (with
/// `OffsetDateTime::parse` and `Rfc3339`) to the same instant: the format writes the date, the
/// time with every nonzero digit of the nanoseconds, and `Z`, all of which the parser reads back.
#[verifier::external_body]
fn unix_nanos_to_rfc3339(instant: i128) -> (r: Result<String, String>)
    ensures
        text_result(r) == rfc3339_format(instant as int),
        r is Ok <==> formattable(instant as int),
        r matches Ok(t) ==> (rfc3339_parse(t@) matches Ok(n) && n == instant as int),
{
    match OffsetDateTime::from_unix_timestamp_nanos(instant) {
        Ok(t) => match t.format(&Rfc3339) {
            Ok(text) => Ok(text),
            Err(e) => Err(e.to_string()),
        },
        Err(e) => Err(e.to_string()),
    }
}

/// The current instant, from `time`'s `OffsetDateTime::now_utc` and `unix_timestamp_nanos`.
/// It depends on the clock: what is stated is only that it lies within the years that `time`
/// represents.
#[verifier::external_body]
fn now_unix_nanos() -> (now: i128)
    ensures
        -INSTANT_BOUND < now < INSTANT_BOUND,
{
    OffsetDateTime::now_utc().unix_timestamp_nanos()
}

/// A fresh game id from `uuid`'s `Uuid::new_v4`, written with its `Display`: hyphenated
/// lower-case hexadecimal. The id is random: what is stated is its shape, 36 ASCII characters.
#[verifier::external_body]
fn new_game_id() -> (id: String)
    ensures
        id@.len() == 36,
        id.is_ascii(),
{
    Uuid::new_v4().to_string()
}

/// A game record, or the failure to write one of its times.
pub open spec fn record_outcome(r: Result<GameRecord, ServiceError>) -> Result<GameState, Failure> {
    match r {
        Ok(g) => Ok(g@),
        Err(e) => Err(e@),
    }
}

/// The game created at instant `now` with id `id` and the pieces in the given order: named
/// "Game " and the first 8 characters of the id, starting two minutes after `now`, ending after
/// its 31 turns of 60 seconds and their 10-second interims, at turn 0 and not completed.
pub open spec fn spec_new_game_record(id: Seq<char>, now: int, pieces: Seq<Seq<Seq<bool>>>) -> Result<GameState, Failure> {
    let start = now + START_DELAY_NANOS;
    let end = start + default_game_length();
    match rfc3339_format(start) {
        Err(m) => Err(Failure::Storage(m)),
        Ok(starting_time) => match rfc3339_format(end) {
            Err(m) => Err(Failure::Storage(m)),
            Ok(ending_time) => Ok(
                GameState {
                    id,
                    name: "Game "@ + id.take(8),
                    starting_time,
                    ending_time,
                    number_of_turns: DEFAULT_NUMBER_OF_TURNS,
                    turn_duration: DEFAULT_TURN_DURATION_SECONDS,
                    interim: DEFAULT_INTERIM_SECONDS,
                    current_turn: 0,
                    pieces,
                    completed: false,
                },
            ),
        },
    }
}

/// The record of a game with the given id, created at `now` (nanoseconds since the Unix
/// epoch), dealing `pieces`.
pub fn new_game_record(id: String, now: i128, pieces: Vec<BzGamepiece>) -> (r: Result<GameRecord, ServiceError>)
    requires
        id@.len() >= 8,
        id.is_ascii(),
        -INSTANT_BOUND < now < INSTANT_BOUND,
    ensures
        record_outcome(r) == spec_new_game_record(id@, now as int, pieces_view(pieces@)),
        r is Ok <==> formattable(now + START_DELAY_NANOS) && formattable(
            now + START_DELAY_NANOS + default_game_length(),
        ),
        r matches Ok(g) ==> scheduled_at(g@, now as int),
{
    let mut name = String::from_str("Game ");
    name.append(id.as_str().substring_ascii(0, 8));
    let length: i128 = (DEFAULT_NUMBER_OF_TURNS as i128) * ((DEFAULT_TURN_DURATION_SECONDS
        + DEFAULT_INTERIM_SECONDS) as i128) * NANOS_PER_SECOND;
    let start = now + START_DELAY_NANOS;
    let end = start + length;
    let starting_time = match unix_nanos_to_rfc3339(start) {
        Ok(t) => t,
        Err(m) => {
            return Err(ServiceError::Storage(m));
        },
    };
    let ending_time = match unix_nanos_to_rfc3339(end) {
        Ok(t) => t,
        Err(m) => {
            return Err(ServiceError::Storage(m));
        },
    };
    Ok(GameRecord {
        id,
        name,
        starting_time,
        ending_time,
        number_of_turns: DEFAULT_NUMBER_OF_TURNS,
        turn_duration: DEFAULT_TURN_DURATION_SECONDS,
        interim: DEFAULT_INTERIM_SECONDS,
        current_turn: 0,
        pieces,
        completed: false,
    })
}

/// Whether the game's times are those of a game created at `now`: they are written from, and
/// read back as, the instants two minutes later and a default game's length after that.
pub open spec fn scheduled_at(game: GameState, now: int) -> bool {
    &&& rfc3339_format(now + START_DELAY_NANOS) == Ok::<Seq<char>, Seq<char>>(game.starting_time)
    &&& rfc3339_format(now + START_DELAY_NANOS + default_game_length()) == Ok::<Seq<char>, Seq<char>>(
        game.ending_time,
    )
    &&& rfc3339_parse(game.starting_time) == Ok::<int, Seq<char>>(now + START_DELAY_NANOS)
    &&& rfc3339_parse(game.ending_time) == Ok::<int, Seq<char>>(
        now + START_DELAY_NANOS + default_game_length(),
    )
}

/// Creates a game: a fresh id, the current time, and all the pieces in a random order. Whatever
/// the id, the clock and the shuffle give, the game is named after its id, is scheduled from an
/// instant whose start and end lie in the years 0 to 9999, deals each piece once, and is at turn
/// 0 and not completed. It fails, with a storage error, exactly when the clock's reading puts the
/// start or the end outside those years (as `new_game_record` states of the reading it is given).
pub fn create_game_record() -> (r: Result<GameRecord, ServiceError>)
    ensures
        r matches Ok(g) ==> {
            &&& g@.id.len() == 36
            &&& g@.name == "Game "@ + g@.id.take(8)
            &&& exists|now: int| #[trigger] scheduled_at(g@, now) && formattable(now + START_DELAY_NANOS)
                && formattable(now + START_DELAY_NANOS + default_game_length())
            &&& g@.number_of_turns == DEFAULT_NUMBER_OF_TURNS
            &&& g@.turn_duration == DEFAULT_TURN_DURATION_SECONDS
            &&& g@.interim == DEFAULT_INTERIM_SECONDS
            &&& g@.current_turn == 0
            &&& g@.pieces.to_multiset() == spec_all_gamepieces().to_multiset()
            &&& !g@.completed
        },
        r matches Err(e) ==> e@ is Storage,
{
    let id = new_game_id();
    let now = now_unix_nanos();
    let game = BzGame::new(DEFAULT_NUMBER_OF_TURNS);
    new_game_record(id, now, game.pieces)
}

} // verus!
