use vstd::prelude::*;
use crate::engine::{copy_board, empty_gameboard, grid, spec_empty_board, BzGameboard, BzGamepiece};
use crate::services::{
    current_turn_checked, current_turn_defined, outcome, parse_time, spec_current_turn,
    spec_parse_time, turn_slot, Failure, GameRecord, PlayerGameRecord, ServiceError,
    INSTANT_BOUND, NANOS_PER_SECOND,
};
use crate::text::{text_le, text_less_or_equal};

verus! {

/// How many games a listing shows when the query does not say.
pub const DEFAULT_LIST_LIMIT: usize = 20;

/// The most games a listing shows.
pub const MAX_LIST_LIMIT: usize = 100;

/// A query for a listing of games: how many, and after which starting time.
#[derive(Debug)]
pub struct GameListQuery {
    pub limit: Option<usize>,
    pub start_after: Option<String>,
}

/// A move as a client sends it.
#[derive(Debug)]
pub struct MoveRequest {
    pub turn_number: i32,
    pub x: i32,
    pub y: i32,
}

/// A game that is running or about to start, as listed.
#[derive(Debug)]
pub struct ActiveGameResponse {
    pub id: String,
    pub name: String,
    pub starting_time: String,
    pub current_turn: i32,
    pub player_count: usize,
}

/// A game that is over, as listed.
#[derive(Debug)]
pub struct PastGameResponse {
    pub id: String,
    pub name: String,
    pub starting_time: String,
    pub ending_time: String,
    pub number_of_turns: u32,
    pub player_count: usize,
    pub highest_score: i32,
}

/// A game just created.
#[derive(Debug)]
pub struct CreatedGameResponse {
    pub id: String,
    pub name: String,
    pub starting_time: String,
}

/// The public description of a game.
#[derive(Debug)]
pub struct GameInfoResponse {
    pub id: String,
    pub name: String,
    pub starting_time: String,
    pub ending_time: String,
    pub number_of_turns: u32,
    pub turn_duration: i64,
    pub interim: i64,
    pub current_turn: i32,
    pub pieces: Option<Vec<BzGamepiece>>,
    pub completed: bool,
}

/// A player's state in a game.
#[derive(Debug)]
pub struct PlayerStateResponse {
    pub game_id: String,
    pub user_id: String,
    pub score: i32,
    pub last_turn_played: u32,
    pub gameboard: BzGameboard,
}

/// The game a user is playing: the turn under way, its piece, the user's board, and the time
/// left until the next turn's window opens (or until the game starts).
#[derive(Debug)]
pub struct MyGameResponse {
    pub id: String,
    pub name: String,
    pub number_of_turns: u32,
    pub current_turn: i32,
    pub current_piece: Vec<BzGamepiece>,
    pub gameboard: BzGameboard,
    pub player_turn: u32,
    pub time_remaining_seconds: i64,
}

/// How many games a listing shows: the query's limit capped at 100, or 20 without one.
pub open spec fn spec_list_limit(query: Option<GameListQuery>) -> usize {
    match query {
        Some(GameListQuery { limit: Some(l), .. }) => if l < MAX_LIST_LIMIT {
            l
        } else {
            MAX_LIST_LIMIT
        },
        _ => DEFAULT_LIST_LIMIT,
    }
}

/// How many games a listing shows.
pub fn list_limit(query: &Option<GameListQuery>) -> (n: usize)
    ensures
        n == spec_list_limit(*query),
{
    let limit = match query {
        Some(q) => match q.limit {
            Some(l) => l,
            None => DEFAULT_LIST_LIMIT,
        },
        None => DEFAULT_LIST_LIMIT,
    };
    if limit < MAX_LIST_LIMIT {
        limit
    } else {
        MAX_LIST_LIMIT
    }
}

/// Whether a step of a listing takes the game it looks at: the game matches and fewer than
/// `limit` games are listed so far.
pub open spec fn step_push(collected: int, limit: int, matches: bool) -> bool {
    matches && collected < limit
}

/// Whether a listing is done after a step: `limit` games are listed once the game is taken.
pub open spec fn step_stop(collected: int, limit: int, matches: bool) -> bool {
    collected + (if step_push(collected, limit, matches) {
        1int
    } else {
        0int
    }) >= limit
}

/// One step of a listing that holds `collected` games and looks at a game that `matches` its
/// filters: whether to take the game, and whether the listing is then done. Before the first
/// game, a step with nothing collected and no match says whether there is anything to list.
pub fn listing_step(collected: usize, limit: usize, matches: bool) -> (r: (bool, bool))
    ensures
        r.0 == step_push(collected as int, limit as int, matches),
        r.1 == step_stop(collected as int, limit as int, matches),
{
    let push = matches && collected < limit;
    let stop = if push {
        collected + 1 >= limit
    } else {
        collected >= limit
    };
    (push, stop)
}

/// The games that the steps take from games whose matches are `flags`, by index: a listing
/// that is done before the first game takes none; otherwise each game is stepped over in turn,
/// from index `i` on, until the listing is done or the games run out.
pub open spec fn listing_from(flags: Seq<bool>, limit: int, i: int, taken: Seq<int>) -> Seq<int>
    decreases flags.len() - i,
{
    if i < 0 || i >= flags.len() {
        taken
    } else {
        let next = if step_push(taken.len() as int, limit, flags[i]) {
            taken.push(i)
        } else {
            taken
        };
        if step_stop(taken.len() as int, limit, flags[i]) {
            next
        } else {
            listing_from(flags, limit, i + 1, next)
        }
    }
}

/// The games, by index, that a listing limited to `limit` takes when it steps over games whose
/// matches are `flags`.
pub open spec fn listing_run(flags: Seq<bool>, limit: int) -> Seq<int> {
    if step_stop(0, limit, false) {
        Seq::empty()
    } else {
        listing_from(flags, limit, 0, Seq::empty())
    }
}

/// The number of matches among `flags`.
pub open spec fn count_matches(flags: Seq<bool>) -> nat
    decreases flags.len(),
{
    if flags.len() == 0 {
        0
    } else {
        count_matches(flags.drop_last()) + if flags.last() {
            1nat
        } else {
            0nat
        }
    }
}

/// A game is listed after `start_after` when it starts strictly later (in the order of the
/// timestamps' text); without `start_after`, every game is.
pub open spec fn spec_listed_after(game: GameRecord, start_after: Option<String>) -> bool {
    match start_after {
        Some(value) => !text_le(game.starting_time@, value@),
        None => true,
    }
}

/// Whether a game belongs after `start_after` in a listing.
pub fn listed_after(game: &GameRecord, start_after: &Option<String>) -> (listed: bool)
    ensures
        listed == spec_listed_after(*game, *start_after),
{
    match start_after {
        Some(value) => !text_less_or_equal(game.starting_time.as_str(), value.as_str()),
        None => true,
    }
}

/// A game is running at `now` when it is not completed and ends after `now`.
pub open spec fn spec_game_running(game: GameRecord, now: int) -> Result<bool, Failure> {
    if game.completed {
        Ok(false)
    } else {
        match spec_parse_time(game.ending_time@) {
            Err(f) => Err(f),
            Ok(end) => Ok(end > now),
        }
    }
}

/// Whether a game is running (or about to start) at `now`; a completed game is not, whatever
/// its ending time.
pub fn game_running(game: &GameRecord, now: i128) -> (r: Result<bool, ServiceError>)
    ensures
        outcome(r) == spec_game_running(*game, now as int),
{
    if game.completed {
        return Ok(false);
    }
    let end = parse_time(game.ending_time.as_str())?;
    Ok(end > now)
}

/// A game is over at `now` when it is completed or ended by then.
pub open spec fn spec_game_over(game: GameRecord, now: int) -> Result<bool, Failure> {
    if game.completed {
        Ok(true)
    } else {
        match spec_parse_time(game.ending_time@) {
            Err(f) => Err(f),
            Ok(end) => Ok(end <= now),
        }
    }
}

/// Whether a game is over at `now`.
pub fn game_over(game: &GameRecord, now: i128) -> (r: Result<bool, ServiceError>)
    ensures
        outcome(r) == spec_game_over(*game, now as int),
{
    if game.completed {
        return Ok(true);
    }
    let end = parse_time(game.ending_time.as_str())?;
    Ok(end <= now)
}

/// A running game as listed, with its current turn and its number of players.
pub fn active_game_response(game: GameRecord, current_turn: i32, player_count: usize) -> (r: ActiveGameResponse)
    ensures
        r.id@ == game.id@,
        r.name@ == game.name@,
        r.starting_time@ == game.starting_time@,
        r.current_turn == current_turn,
        r.player_count == player_count,
{
    ActiveGameResponse {
        id: game.id,
        name: game.name,
        starting_time: game.starting_time,
        current_turn,
        player_count,
    }
}

/// A finished game as listed, with its number of players and its highest score.
pub fn past_game_response(game: GameRecord, player_count: usize, highest_score: i32) -> (r: PastGameResponse)
    ensures
        r.id@ == game.id@,
        r.name@ == game.name@,
        r.starting_time@ == game.starting_time@,
        r.ending_time@ == game.ending_time@,
        r.number_of_turns == game.number_of_turns,
        r.player_count == player_count,
        r.highest_score == highest_score,
{
    PastGameResponse {
        id: game.id,
        name: game.name,
        starting_time: game.starting_time,
        ending_time: game.ending_time,
        number_of_turns: game.number_of_turns,
        player_count,
        highest_score,
    }
}

/// A game just created, as answered.
pub fn created_game_response(game: GameRecord) -> (r: CreatedGameResponse)
    ensures
        r.id@ == game.id@,
        r.name@ == game.name@,
        r.starting_time@ == game.starting_time@,
{
    CreatedGameResponse { id: game.id, name: game.name, starting_time: game.starting_time }
}

/// The highest of the scores, and 0 when there is none.
pub open spec fn is_highest_score(scores: Seq<i32>, best: i32) -> bool {
    if scores.len() == 0 {
        best == 0
    } else {
        &&& forall|i: int| 0 <= i < scores.len() ==> #[trigger] scores[i] <= best
        &&& exists|i: int| 0 <= i < scores.len() && #[trigger] scores[i] == best
    }
}

/// The highest score of a game's players; 0 for a game whose players' states could not be read.
pub fn highest_score(scores: &Vec<i32>) -> (best: i32)
    ensures
        is_highest_score(scores@, best),
{
    if scores.len() == 0 {
        return 0;
    }
    let mut best: i32 = scores[0];
    assert(scores@.take(1)[0] == best);
    for i in 1..scores.len()
        invariant
            1 <= scores@.len(),
            is_highest_score(scores@.take(i as int), best),
    {
        assert(scores@.take(i + 1)[i as int] == scores@[i as int]);
        if scores[i] > best {
            best = scores[i];
        }
        assert forall|j: int| 0 <= j < i + 1 implies #[trigger] scores@.take(i + 1)[j] <= best by {
            if j < i {
                assert(scores@.take(i + 1)[j] == scores@.take(i as int)[j]);
            }
        }
        proof {
            if best == scores@[i as int] {
                assert(scores@.take(i + 1)[i as int] == best);
            } else {
                let k = choose|k: int| 0 <= k < i && #[trigger] scores@.take(i as int)[k] == best;
                assert(scores@.take(i + 1)[k] == best);
            }
        }
    }
    assert(scores@.take(scores@.len() as int) =~= scores@);
    best
}

/// The description of a game at turn `turn_index` and instant `now`. Its pieces are masked while
/// the game is in progress and shown once it is over (completed, or past its ending time); an
/// ending time that does not parse is a storage failure.
pub fn game_info_response(game: &GameRecord, turn_index: i32, now: i128) -> (r: Result<GameInfoResponse, ServiceError>)
    ensures
        spec_game_over(*game, now as int) matches Err(f) ==> r matches Err(e) && e@ == f,
        spec_game_over(*game, now as int) matches Ok(over) ==> r matches Ok(info) && {
            &&& info.id@ == game.id@
            &&& info.name@ == game.name@
            &&& info.starting_time@ == game.starting_time@
            &&& info.ending_time@ == game.ending_time@
            &&& info.number_of_turns == game.number_of_turns
            &&& info.turn_duration == game.turn_duration
            &&& info.interim == game.interim
            &&& info.current_turn == turn_index
            &&& info.completed == game.completed
            &&& (info.pieces is Some <==> over)
            &&& info.pieces matches Some(p) ==> p@.len() == game.pieces@.len() && forall|i: int|
                0 <= i < p@.len() ==> grid(#[trigger] p@[i]@) == grid(game.pieces@[i]@)
        },
{
    let over = game_over(game, now)?;
    let pieces = if !over {
        None
    } else {
        let mut copy: Vec<BzGamepiece> = Vec::new();
        for i in 0..game.pieces.len()
            invariant
                copy@.len() == i,
                i <= game.pieces@.len(),
                forall|j: int| 0 <= j < i ==> grid(#[trigger] copy@[j]@) == grid(game.pieces@[j]@),
        {
            copy.push(copy_board(&game.pieces[i]));
        }
        Some(copy)
    };
    Ok(
        GameInfoResponse {
            id: game.id.clone(),
            name: game.name.clone(),
            starting_time: game.starting_time.clone(),
            ending_time: game.ending_time.clone(),
            number_of_turns: game.number_of_turns,
            turn_duration: game.turn_duration,
            interim: game.interim,
            current_turn: turn_index,
            pieces,
            completed: game.completed,
        },
    )
}

/// A player's state, as answered.
pub fn player_response(player: PlayerGameRecord) -> (r: PlayerStateResponse)
    ensures
        r.game_id@ == player.game_id@,
        r.user_id@ == player.user_id@,
        r.score == player.score,
        r.last_turn_played == player.last_turn_played,
        grid(r.gameboard@) == grid(player.gameboard@),
{
    PlayerStateResponse {
        game_id: player.game_id,
        user_id: player.user_id,
        score: player.score,
        last_turn_played: player.last_turn_played,
        gameboard: player.gameboard,
    }
}

/// The HTTP status of a failure: 404 when something is missing, 409 for a conflict with the
/// game's state, 400 for a move the rules refuse, and 500 when storage fails.
pub open spec fn spec_service_status(e: Failure) -> u16 {
    match e {
        Failure::NotFound => 404,
        Failure::Conflict(_) => 409,
        Failure::Invalid(_) => 400,
        Failure::Storage(_) => 500,
    }
}

/// The HTTP status code that answers a failure.
pub fn service_status(error: &ServiceError) -> (code: u16)
    ensures
        code == spec_service_status(error@),
{
    match error {
        ServiceError::NotFound => 404,
        ServiceError::Conflict(_) => 409,
        ServiceError::Invalid(_) => 400,
        ServiceError::Storage(_) => 500,
    }
}

/// The game a user is playing, as plain values.
pub struct MyGameView {
    pub id: Seq<char>,
    pub name: Seq<char>,
    pub number_of_turns: u32,
    pub current_turn: i32,
    pub current_piece: Seq<Seq<Seq<bool>>>,
    pub gameboard: Seq<Seq<bool>>,
    pub player_turn: u32,
    pub time_remaining_seconds: i64,
}

impl View for MyGameResponse {
    type V = MyGameView;

    open spec fn view(&self) -> MyGameView {
        MyGameView {
            id: self.id@,
            name: self.name@,
            number_of_turns: self.number_of_turns,
            current_turn: self.current_turn,
            current_piece: self.current_piece@.map_values(|p: BzGamepiece| grid(p@)),
            gameboard: grid(self.gameboard@),
            player_turn: self.player_turn,
            time_remaining_seconds: self.time_remaining_seconds,
        }
    }
}

/// The whole seconds from `now` until `target` (nanoseconds since the Unix epoch), and 0 once
/// `target` has passed.
pub open spec fn seconds_until(target: int, now: int) -> int {
    if target - now < 0 {
        0
    } else {
        (target - now) / (NANOS_PER_SECOND as int)
    }
}

/// When the window of the turn after `turn` opens, for a game that starts at `start`.
pub open spec fn next_window(start: int, turn: i32, slot: int) -> int {
    start + (turn + 1) * slot * NANOS_PER_SECOND
}

/// The game a user plays, at `now`: none when the game is not running; otherwise the turn under
/// way, its piece (none before the start or past the last piece), the user's board (empty
/// before the start), the last turn the user played, and the seconds left until the game
/// starts or, once it has, until the next turn's window opens.
pub open spec fn spec_my_game(game: GameRecord, player: PlayerGameRecord, now: int) -> Result<Option<MyGameView>, Failure> {
    match spec_game_running(game, now) {
        Err(f) => Err(f),
        Ok(running) => if !running {
            Ok(None)
        } else {
            match spec_current_turn(game, now) {
                Err(f) => Err(f),
                Ok(t) => match spec_parse_time(game.starting_time@) {
                    Err(f) => Err(f),
                    Ok(start) => Ok(
                        Some(
                            MyGameView {
                                id: game.id@,
                                name: game.name@,
                                number_of_turns: game.number_of_turns,
                                current_turn: t,
                                current_piece: if t < 0 || t >= game.pieces@.len() {
                                    Seq::empty()
                                } else {
                                    seq![grid(game.pieces@[t as int]@)]
                                },
                                gameboard: if t < 0 {
                                    spec_empty_board()
                                } else {
                                    grid(player.gameboard@)
                                },
                                player_turn: player.last_turn_played,
                                time_remaining_seconds: (if t < 0 {
                                    seconds_until(start, now)
                                } else {
                                    seconds_until(next_window(start, t, turn_slot(game)), now)
                                }) as i64,
                            },
                        ),
                    ),
                },
            }
        },
    }
}

/// The arithmetic of `my_game_entry` fits: the current turn is computable, the slot is an
/// `i64`, and once the game has started, the offset of the next window in seconds and the time
/// left are `i64`s.
pub open spec fn my_game_defined(game: GameRecord, now: int) -> bool {
    spec_game_running(game, now) == Ok::<bool, Failure>(true) ==> {
        &&& current_turn_defined(game, now)
        &&& spec_current_turn(game, now) matches Ok(t) ==> {
            &&& i64::MIN <= turn_slot(game) <= i64::MAX
            &&& t >= 0 ==> {
                &&& i64::MIN <= (t + 1) * turn_slot(game) <= i64::MAX
                &&& spec_parse_time(game.starting_time@) matches Ok(start) ==> seconds_until(
                    next_window(start, t, turn_slot(game)),
                    now,
                ) <= i64::MAX
            }
        }
    }
}

/// A possible entry for the user's game, seen as plain values.
pub open spec fn my_game_outcome(r: Result<Option<MyGameResponse>, ServiceError>) -> Result<Option<MyGameView>, Failure> {
    match r {
        Ok(Some(m)) => Ok(Some(m@)),
        Ok(None) => Ok(None),
        Err(e) => Err(e@),
    }
}

fn whole_seconds_until(target: i128, now: i128) -> (s: i64)
    requires
        -INSTANT_BOUND * 100_000 < target < INSTANT_BOUND * 100_000,
        -INSTANT_BOUND < now < INSTANT_BOUND,
        seconds_until(target as int, now as int) <= i64::MAX,
    ensures
        s == seconds_until(target as int, now as int),
{
    let diff = target - now;
    if diff < 0 {
        0
    } else {
        (diff / NANOS_PER_SECOND) as i64
    }
}

/// The entry for a user's game at `now`, where the user plays in that game.
pub fn my_game_entry(game: &GameRecord, player: &PlayerGameRecord, now: i128) -> (r: Result<Option<MyGameResponse>, ServiceError>)
    requires
        -INSTANT_BOUND < now < INSTANT_BOUND,
        my_game_defined(*game, now as int),
    ensures
        my_game_outcome(r) == spec_my_game(*game, *player, now as int),
{
    my_game_entry_checked(game, player, now).unwrap()
}

/// `my_game_entry` where its arithmetic fits, and `None` where it would not.
pub fn my_game_entry_checked(game: &GameRecord, player: &PlayerGameRecord, now: i128) -> (r: Option<Result<Option<MyGameResponse>, ServiceError>>)
    requires
        -INSTANT_BOUND < now < INSTANT_BOUND,
    ensures
        r is None <==> !my_game_defined(*game, now as int),
        r matches Some(m) ==> my_game_outcome(m) == spec_my_game(*game, *player, now as int),
{
    match game_running(game, now) {
        Err(e) => {
            return Some(Err(e));
        },
        Ok(running) => {
            if !running {
                return Some(Ok(None));
            }
        },
    }
    let turn = match current_turn_checked(game, now) {
        None => {
            return None;
        },
        Some(Err(e)) => {
            return Some(Err(e));
        },
        Some(Ok(t)) => t,
    };
    let current_piece: Vec<BzGamepiece> = if turn < 0 || turn as usize >= game.pieces.len() {
        Vec::new()
    } else {
        let mut v: Vec<BzGamepiece> = Vec::new();
        v.push(copy_board(&game.pieces[turn as usize]));
        v
    };
    let board = if turn < 0 {
        empty_gameboard()
    } else {
        copy_board(&player.gameboard)
    };
    let slot = match game.turn_duration.checked_add(game.interim) {
        None => {
            return None;
        },
        Some(s) => s,
    };
    let start = match parse_time(game.starting_time.as_str()) {
        Err(e) => {
            return Some(Err(e));
        },
        Ok(s) => s,
    };
    let time_remaining: i64 = if turn < 0 {
        whole_seconds_until(start, now)
    } else {
        let offset = match (turn as i64 + 1).checked_mul(slot) {
            None => {
                return None;
            },
            Some(o) => o,
        };
        let next = start + (offset as i128) * NANOS_PER_SECOND;
        let diff = next - now;
        if diff >= 0 && diff / NANOS_PER_SECOND > i64::MAX as i128 {
            return None;
        }
        whole_seconds_until(next, now)
    };
    let response = MyGameResponse {
        id: game.id.clone(),
        name: game.name.clone(),
        number_of_turns: game.number_of_turns,
        current_turn: turn,
        current_piece,
        gameboard: board,
        player_turn: player.last_turn_played,
        time_remaining_seconds: time_remaining,
    };
    proof {
        assert(response@.current_piece =~~= (if turn < 0 || turn >= game.pieces@.len() {
            Seq::<Seq<Seq<bool>>>::empty()
        } else {
            seq![grid(game.pieces@[turn as int]@)]
        }));
    }
    Some(Ok(Some(response)))
}

} // verus!
