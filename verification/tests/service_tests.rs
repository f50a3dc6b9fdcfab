use bazingo::api::{
    active_game_response, created_game_response, game_info_response, game_over, game_running,
    highest_score, list_limit, listed_after, listing_step, my_game_entry, past_game_response,
    player_response, service_status, GameListQuery,
};
use bazingo::engine::{all_gamepieces, empty_gameboard, gamepiece_from_octal};
use bazingo::listing::{game_player_summaries, sort_games_by_start};
use bazingo::services::{
    create_game_record, current_turn, current_turn_checked, engine_failure, ensure_game_open,
    game_key, join_decision, new_game_record, new_player_record, parse_time, play_move, play_move_checked,
    player_key, GameRecord, PlayerGameRecord, ServiceError, MAX_PLAYERS,
};
use bazingo::engine::GameEngineError;
use bazingo::text::{text_less, text_less_or_equal};
use bazingo::services::GamePlayerSummary;
use std::collections::HashMap;
use time::format_description::well_known::Rfc3339;
use time::{Duration, OffsetDateTime};

/// Records held in memory under their storage keys, as the services hold them in the database.
#[derive(Default)]
struct MemoryStore {
    games: HashMap<String, GameRecord>,
    players: HashMap<String, PlayerGameRecord>,
}

impl MemoryStore {
    fn create_game(&mut self) -> Result<GameRecord, ServiceError> {
        let game = create_game_record()?;
        self.games.insert(game_key(&game.id), game.clone());
        Ok(game)
    }

    fn get_game(&self, id: &str) -> Result<GameRecord, ServiceError> {
        self.games.get(&game_key(id)).cloned().ok_or(ServiceError::NotFound)
    }

    fn list_players(&self, game_id: &str) -> Vec<GamePlayerSummary> {
        game_player_summaries(self.players.values().cloned().collect(), game_id)
    }

    fn get_player(&self, game_id: &str, user_id: &str) -> Result<PlayerGameRecord, ServiceError> {
        self.players.get(&player_key(game_id, user_id)).cloned().ok_or(ServiceError::NotFound)
    }

    fn join_game(&mut self, game_id: &str, user_id: &str, user_name: &str) -> Result<PlayerGameRecord, ServiceError> {
        let game = self.get_game(game_id)?;
        let key = player_key(game_id, user_id);
        let existing = self.players.get(&key).cloned();
        let count = match existing {
            Some(_) => 0,
            None => self.list_players(game_id).len(),
        };
        let now = OffsetDateTime::now_utc().unix_timestamp_nanos();
        let (player, save) = join_decision(&game, now, existing, count, game_id, user_id, user_name)?;
        if save {
            self.players.insert(key, player.clone());
        }
        Ok(player)
    }
}

fn stamp(t: OffsetDateTime) -> String {
    t.format(&Rfc3339).expect("timestamp should format")
}

fn record(id: &str, start: OffsetDateTime, end: OffsetDateTime) -> GameRecord {
    GameRecord {
        id: id.to_string(),
        name: format!("Game {id}"),
        starting_time: stamp(start),
        ending_time: stamp(end),
        number_of_turns: 31,
        turn_duration: 60,
        interim: 10,
        current_turn: 0,
        pieces: vec![],
        completed: false,
    }
}

fn player(game_id: &str, user_id: &str) -> PlayerGameRecord {
    PlayerGameRecord {
        game_id: game_id.to_string(),
        user_id: user_id.to_string(),
        name: "Player One".to_string(),
        gameboard: vec![vec![false; 5]; 5],
        score: 0,
        last_turn_played: 0,
    }
}

#[test]
fn current_turn_is_negative_before_game_start() {
    let now = OffsetDateTime::now_utc();
    let game = GameRecord {
        id: "game-before-start".to_string(),
        name: "Before start".to_string(),
        starting_time: stamp(now + Duration::minutes(5)),
        ending_time: stamp(now + Duration::minutes(60)),
        number_of_turns: 31,
        turn_duration: 60,
        interim: 10,
        current_turn: 0,
        pieces: vec![],
        completed: false,
    };
    assert_eq!(current_turn(&game, now.unix_timestamp_nanos()).expect("turn should compute"), -1);
}

#[test]
fn move_requests_use_the_api_turn_index_and_are_rejected_out_of_window() {
    let now = OffsetDateTime::now_utc();
    let start = now - Duration::seconds(30);
    let game = GameRecord {
        id: "game-turn-index".to_string(),
        name: "Turn index game".to_string(),
        starting_time: stamp(start),
        ending_time: stamp(start + Duration::minutes(30)),
        number_of_turns: 31,
        turn_duration: 60,
        interim: 10,
        current_turn: 0,
        pieces: vec![vec![vec![true, false, false], vec![false, false, false], vec![false, false, false]]],
        completed: false,
    };
    let player = player("game-turn-index", "user-turn-index");
    let legal = play_move(game, player, 0, 0, 0, now.unix_timestamp_nanos());
    assert!(legal.is_ok(), "turn-zero move should be accepted for the active turn window");
    let (game, player) = legal.unwrap();
    let illegal = play_move(game, player, 1, 0, 0, now.unix_timestamp_nanos());
    assert!(illegal.is_err(), "turn-one move should not be accepted before the correct turn window");
}

#[test]
fn game_lifecycle_persists_games_and_players() {
    let mut store = MemoryStore::default();

    let game = store.create_game().expect("game should be created");
    assert_eq!(game.number_of_turns, 31);
    assert!(store.get_game(&game.id).is_ok());

    let player = store.join_game(&game.id, "user-1", "Player One").expect("player should join");
    assert_eq!(player.user_id, "user-1");
    assert_eq!(player.last_turn_played, 0);

    let players = store.list_players(&game.id);
    assert_eq!(players.len(), 1);
    assert_eq!(players[0].name, "Player One");

    let loaded = store.get_player(&game.id, "user-1").expect("player should load");
    assert_eq!(loaded.gameboard, player.gameboard);
}

#[test]
fn joining_the_same_game_twice_is_idempotent() {
    let mut store = MemoryStore::default();
    let game = store.create_game().expect("game should be created");

    let first = store.join_game(&game.id, "user-1", "Player One").expect("first join should succeed");
    let second = store.join_game(&game.id, "user-1", "Player One").expect("second join should be idempotent");

    assert_eq!(first, second);
    assert_eq!(store.list_players(&game.id).len(), 1);
}

#[test]
fn keys_name_their_table() {
    assert_eq!(game_key("abc"), "game:abc");
    assert_eq!(player_key("g1", "u2"), "game_player:g1_u2");
}

#[test]
fn timestamps_parse_to_their_instant() {
    assert_eq!(parse_time("1970-01-01T00:00:01Z").unwrap(), 1_000_000_000);
    assert_eq!(parse_time("1970-01-01T01:00:00+01:00").unwrap(), 0);
    assert!(matches!(parse_time("not a time"), Err(ServiceError::Storage(_))));
}

#[test]
fn current_turn_counts_slots_and_ends_at_the_number_of_turns() {
    let start = OffsetDateTime::from_unix_timestamp(1_000_000).unwrap();
    let game = record("g", start, start + Duration::seconds(31 * 70));
    let at = |s: i64| (start + Duration::seconds(s)).unix_timestamp_nanos();
    assert_eq!(current_turn(&game, at(-1)).unwrap(), -1);
    assert_eq!(current_turn(&game, at(0)).unwrap(), 0);
    assert_eq!(current_turn(&game, at(69)).unwrap(), 0);
    assert_eq!(current_turn(&game, at(70)).unwrap(), 1);
    assert_eq!(current_turn(&game, at(31 * 70 - 1)).unwrap(), 30);
    assert_eq!(current_turn(&game, at(31 * 70)).unwrap(), 31);
    let mut broken = game.clone();
    broken.ending_time = "soon".to_string();
    assert!(matches!(current_turn(&broken, at(0)), Err(ServiceError::Storage(_))));
}

#[test]
fn a_zero_slot_is_reported_only_while_the_game_runs() {
    let start = OffsetDateTime::from_unix_timestamp(1_000_000).unwrap();
    let mut game = record("g", start, start + Duration::seconds(100));
    game.turn_duration = 0;
    game.interim = 0;
    let before = (start - Duration::seconds(1)).unix_timestamp_nanos();
    let during = (start + Duration::seconds(1)).unix_timestamp_nanos();
    assert_eq!(current_turn_checked(&game, before).unwrap().unwrap(), -1);
    assert!(current_turn_checked(&game, during).is_none());
}

#[test]
fn moves_are_scored_and_recorded() {
    let start = OffsetDateTime::from_unix_timestamp(2_000_000).unwrap();
    let mut game = record("g", start, start + Duration::seconds(31 * 70));
    game.pieces = all_gamepieces();
    // Turn index 1 deals piece 1 (octal 2,2,0): pips in column 1 of rows 0 and 1.
    let now = (start + Duration::seconds(75)).unix_timestamp_nanos();
    let mut p = player("g", "u");
    p.gameboard[0][0] = true;
    p.gameboard[1][0] = true;
    // The player played turn index 0, the engine's turn 1.
    p.last_turn_played = 1;
    p.score = 10;
    let (g2, p2) = play_move(game.clone(), p.clone(), 1, 0, 0, now).unwrap_err_or_ok();
    assert_eq!(g2.current_turn, 1);
    assert!(!g2.completed);
    assert_eq!(g2.pieces, game.pieces);
    // The engine counts turns from 1: turn index 1 is its turn 2.
    assert_eq!(p2.last_turn_played, 2);
    // A 2x2 block formed in the top-left corner: it scores 5 and is cleared.
    assert_eq!(p2.score, 15);
    assert_eq!(p2.gameboard, vec![vec![false; 5]; 5]);
    // A player who skipped turn 1 pays 7 for it.
    let mut late = p.clone();
    late.last_turn_played = 0;
    let (_, late2) = play_move(game.clone(), late, 1, 0, 0, now).unwrap_err_or_ok();
    assert_eq!(late2.score, 10 + 5 - 7);
    let mut blocked = p.clone();
    blocked.gameboard[0][1] = true;
    let collided = play_move(game, blocked, 1, 0, 0, now);
    assert!(matches!(collided, Err(ServiceError::Invalid(ref m)) if m == "IllegalPlacement"));
}

trait OkOrPanic<T> {
    fn unwrap_err_or_ok(self) -> T;
}

impl<T> OkOrPanic<T> for Result<T, ServiceError> {
    fn unwrap_err_or_ok(self) -> T {
        match self {
            Ok(v) => v,
            Err(e) => panic!("unexpected error: {e:?}"),
        }
    }
}

#[test]
fn moves_are_refused_with_the_reason() {
    let start = OffsetDateTime::from_unix_timestamp(3_000_000).unwrap();
    let mut game = record("g", start, start + Duration::seconds(31 * 70));
    game.pieces = all_gamepieces();
    let p = player("g", "u");
    let during = (start + Duration::seconds(10)).unix_timestamp_nanos();
    let before = (start - Duration::seconds(10)).unix_timestamp_nanos();
    let after = (start + Duration::seconds(31 * 70)).unix_timestamp_nanos();
    let conflict = |r: Result<(GameRecord, PlayerGameRecord), ServiceError>, msg: &str| match r {
        Err(ServiceError::Conflict(m)) => assert_eq!(m, msg),
        other => panic!("expected a conflict, got {other:?}"),
    };
    conflict(play_move(game.clone(), p.clone(), -1, 0, 0, during), "turn must be non-negative");
    conflict(play_move(game.clone(), p.clone(), 0, 0, 0, before), "game has not started");
    conflict(play_move(game.clone(), p.clone(), 0, 0, 0, after), "game is completed");
    conflict(play_move(game.clone(), p.clone(), 3, 0, 0, during), "move is not for the current turn");
    let off_board = play_move(game.clone(), p.clone(), 0, 4, 4, during);
    assert!(matches!(off_board, Err(ServiceError::Invalid(ref m)) if m == "IllegalPlacement"));
    assert!(play_move_checked(game, p, 0, 1, 1, during).unwrap().is_ok());
}

#[test]
fn engine_errors_become_invalid_requests() {
    match engine_failure(GameEngineError::TurnAlreadyPlayed) {
        ServiceError::Invalid(m) => assert_eq!(m, "TurnAlreadyPlayed"),
        other => panic!("unexpected {other:?}"),
    }
}

#[test]
fn joining_is_refused_when_full_or_over() {
    let start = OffsetDateTime::from_unix_timestamp(4_000_000).unwrap();
    let game = record("g", start, start + Duration::seconds(100));
    assert!(ensure_game_open(&game, start.unix_timestamp_nanos()).is_ok());
    let end = (start + Duration::seconds(100)).unix_timestamp_nanos();
    assert!(matches!(ensure_game_open(&game, end), Err(ServiceError::Conflict(ref m)) if m == "game is completed"));
    let mut done = game.clone();
    done.completed = true;
    assert!(matches!(ensure_game_open(&done, start.unix_timestamp_nanos()), Err(ServiceError::Conflict(_))));
    let joined = new_player_record("g", "user-1", "Player One", 0).unwrap();
    assert_eq!(joined.user_id, "user-1");
    assert_eq!(joined.name, "Player One");
    assert_eq!(joined.gameboard, empty_gameboard());
    assert_eq!(joined.score, 0);
    assert_eq!(joined.last_turn_played, 0);
    assert!(new_player_record("g", "u", "n", MAX_PLAYERS - 1).is_ok());
    assert!(matches!(new_player_record("g", "u", "n", MAX_PLAYERS), Err(ServiceError::Conflict(ref m)) if m == "game is full"));
}

#[test]
fn new_games_are_named_and_scheduled() {
    let created = create_game_record().unwrap();
    assert_eq!(created.number_of_turns, 31);
    assert_eq!(created.id.len(), 36);
    assert_eq!(created.name, format!("Game {}", &created.id[..8]));
    assert_eq!(created.pieces.len(), 31);
    let start = OffsetDateTime::parse(&created.starting_time, &Rfc3339).unwrap();
    let end = OffsetDateTime::parse(&created.ending_time, &Rfc3339).unwrap();
    assert_eq!((end - start).whole_seconds(), 31 * 70);

    let now = OffsetDateTime::from_unix_timestamp(1_700_000_000).unwrap();
    let game = new_game_record("0123456789abcdef".to_string(), now.unix_timestamp_nanos(), vec![]).unwrap();
    assert_eq!(game.name, "Game 01234567");
    assert_eq!(game.starting_time, "2023-11-14T22:15:20Z");
    assert_eq!(game.ending_time, "2023-11-14T22:51:30Z");
    assert_eq!(game.current_turn, 0);
    assert!(!game.completed);
}

#[test]
fn listings_sort_stably() {
    let t = |s: &str| {
        let mut g = record("x", OffsetDateTime::UNIX_EPOCH, OffsetDateTime::UNIX_EPOCH);
        g.starting_time = s.to_string();
        g.id = format!("id-{s}");
        g
    };
    let mut a = t("2024-01-02");
    a.id = "first".to_string();
    let mut b = t("2024-01-02");
    b.id = "second".to_string();
    let sorted = sort_games_by_start(vec![t("2024-03-01"), a, t("2023-12-31"), b]);
    let ids: Vec<String> = sorted.iter().map(|g| g.id.clone()).collect();
    assert_eq!(ids, vec!["id-2023-12-31", "first", "second", "id-2024-03-01"]);

    let players = vec![player("g", "zed"), player("h", "amy"), player("g", "bob"), player("g", "bo")];
    let summaries = game_player_summaries(players, "g");
    let ids: Vec<String> = summaries.iter().map(|s| s.id.clone()).collect();
    assert_eq!(ids, vec!["bo", "bob", "zed"]);
}

#[test]
fn texts_compare_like_rust_strings() {
    for (a, b) in [("", "a"), ("a", "b"), ("ab", "abc"), ("b", "ab"), ("é", "e"), ("same", "same")] {
        assert_eq!(text_less(a, b), a < b, "{a} < {b}");
        assert_eq!(text_less_or_equal(a, b), a <= b, "{a} <= {b}");
    }
}

#[test]
fn listing_limits_and_filters() {
    assert_eq!(list_limit(&None), 20);
    assert_eq!(list_limit(&Some(GameListQuery { limit: None, start_after: None })), 20);
    assert_eq!(list_limit(&Some(GameListQuery { limit: Some(5), start_after: None })), 5);
    assert_eq!(list_limit(&Some(GameListQuery { limit: Some(500), start_after: None })), 100);
    let start = OffsetDateTime::from_unix_timestamp(5_000_000).unwrap();
    let game = record("g", start, start + Duration::seconds(100));
    assert!(listed_after(&game, &None));
    assert!(listed_after(&game, &Some("1969".to_string())));
    assert!(!listed_after(&game, &Some(game.starting_time.clone())));
    let during = start.unix_timestamp_nanos();
    let after = (start + Duration::seconds(100)).unix_timestamp_nanos();
    assert!(game_running(&game, during).unwrap());
    assert!(!game_running(&game, after).unwrap());
    assert!(!game_over(&game, during).unwrap());
    assert!(game_over(&game, after).unwrap());
    let mut done = game.clone();
    done.completed = true;
    done.ending_time = "never".to_string();
    assert!(!game_running(&done, during).unwrap());
    assert!(game_over(&done, during).unwrap());
}

#[test]
fn answers_copy_the_records() {
    let start = OffsetDateTime::from_unix_timestamp(6_000_000).unwrap();
    let mut game = record("g", start, start + Duration::seconds(100));
    game.pieces = vec![gamepiece_from_octal([0, 2, 0])];
    let active = active_game_response(game.clone(), 3, 7);
    assert_eq!((active.id.as_str(), active.current_turn, active.player_count), ("g", 3, 7));
    let past = past_game_response(game.clone(), 2, 45);
    assert_eq!((past.number_of_turns, past.player_count, past.highest_score), (31, 2, 45));
    assert_eq!(created_game_response(game.clone()).starting_time, game.starting_time);
    let during = (start + Duration::seconds(50)).unix_timestamp_nanos();
    let after = (start + Duration::seconds(100)).unix_timestamp_nanos();
    let hidden = game_info_response(&game, 0, during).unwrap();
    assert!(hidden.pieces.is_none());
    assert_eq!((hidden.current_turn, hidden.number_of_turns, hidden.completed), (0, 31, false));
    let shown = game_info_response(&game, 31, after).unwrap();
    assert_eq!(shown.pieces, Some(game.pieces.clone()));
    let mut done = game.clone();
    done.completed = true;
    assert_eq!(game_info_response(&done, 0, during).unwrap().pieces, Some(game.pieces.clone()));
    let mut broken = game.clone();
    broken.ending_time = "later".to_string();
    assert!(matches!(game_info_response(&broken, 0, during), Err(ServiceError::Storage(_))));
    let state = player_response(player("g", "u"));
    assert_eq!((state.game_id.as_str(), state.user_id.as_str(), state.score), ("g", "u", 0));
    assert_eq!(highest_score(&vec![]), 0);
    assert_eq!(highest_score(&vec![-3, -9]), -3);
    assert_eq!(highest_score(&vec![-7]), -7);
    assert_eq!(highest_score(&vec![4, 12, -2]), 12);
    assert_eq!(service_status(&ServiceError::NotFound), 404);
    assert_eq!(service_status(&ServiceError::Conflict(String::new())), 409);
    assert_eq!(service_status(&ServiceError::Invalid(String::new())), 400);
    assert_eq!(service_status(&ServiceError::Storage(String::new())), 500);
}

#[test]
fn my_game_shows_the_turn_and_the_time_left() {
    let start = OffsetDateTime::from_unix_timestamp(7_000_000).unwrap();
    let mut game = record("g", start, start + Duration::seconds(31 * 70));
    game.pieces = all_gamepieces();
    let mut p = player("g", "u");
    p.gameboard[4][4] = true;
    p.last_turn_played = 2;
    let before = (start - Duration::seconds(30)).unix_timestamp_nanos();
    let waiting = my_game_entry(&game, &p, before).unwrap().unwrap();
    assert_eq!(waiting.current_turn, -1);
    assert!(waiting.current_piece.is_empty());
    assert_eq!(waiting.gameboard, empty_gameboard());
    assert_eq!(waiting.time_remaining_seconds, 30);
    let during = (start + Duration::seconds(150)).unix_timestamp_nanos();
    let playing = my_game_entry(&game, &p, during).unwrap().unwrap();
    assert_eq!(playing.current_turn, 2);
    assert_eq!(playing.current_piece, vec![game.pieces[2].clone()]);
    assert_eq!(playing.gameboard, p.gameboard);
    assert_eq!(playing.player_turn, 2);
    assert_eq!(playing.time_remaining_seconds, 60);
    let after = (start + Duration::seconds(31 * 70)).unix_timestamp_nanos();
    assert!(my_game_entry(&game, &p, after).unwrap().is_none());
}

#[test]
fn pieces_are_masked_until_the_game_is_over() {
    let start = OffsetDateTime::from_unix_timestamp(8_000_000).unwrap();
    let mut game = record("g", start, start + Duration::seconds(31 * 70));
    game.pieces = all_gamepieces();
    for s in [-5i64, 0, 69, 70, 1000, 31 * 70 - 1, 31 * 70, 40 * 70] {
        let now = (start + Duration::seconds(s)).unix_timestamp_nanos();
        let turn = current_turn(&game, now).unwrap();
        assert!(turn <= 31, "turn {turn} at {s}");
        let info = game_info_response(&game, turn, now).unwrap();
        assert_eq!(info.pieces.is_some(), s >= 31 * 70, "pieces at {s}");
    }
}

#[test]
fn new_games_wait_two_minutes_then_run_their_turns() {
    let created = OffsetDateTime::from_unix_timestamp(1_700_000_000).unwrap() + Duration::milliseconds(250);
    let game = new_game_record("fedcba9876543210".to_string(), created.unix_timestamp_nanos(), all_gamepieces()).unwrap();
    assert_eq!(game.starting_time, "2023-11-14T22:15:20.25Z");
    let at = |s: i64| (created + Duration::seconds(s)).unix_timestamp_nanos();
    assert_eq!(current_turn(&game, at(0)).unwrap(), -1);
    assert_eq!(current_turn(&game, at(119)).unwrap(), -1);
    assert_eq!(current_turn(&game, at(120)).unwrap(), 0);
    assert_eq!(current_turn(&game, at(120 + 31 * 70 - 1)).unwrap(), 30);
    assert_eq!(current_turn(&game, at(120 + 31 * 70)).unwrap(), 31);
    assert!(ensure_game_open(&game, at(0)).is_ok());
    assert!(ensure_game_open(&game, at(120 + 31 * 70 - 1)).is_ok());
    assert!(ensure_game_open(&game, at(120 + 31 * 70)).is_err());
    for s in [0, 120, 1000, 120 + 31 * 70, 10_000] {
        let turn = current_turn(&game, at(s)).unwrap();
        assert!((-1..=31).contains(&turn));
    }

    let fresh = create_game_record().unwrap();
    let now = OffsetDateTime::now_utc().unix_timestamp_nanos();
    assert_eq!(current_turn(&fresh, now).unwrap(), -1);
    assert!(ensure_game_open(&fresh, now).is_ok());
}

#[test]
fn a_turn_is_played_once_and_consecutive_turns_cost_nothing() {
    let start = OffsetDateTime::from_unix_timestamp(9_000_000).unwrap();
    let mut game = record("g", start, start + Duration::seconds(31 * 70));
    game.pieces = vec![gamepiece_from_octal([0, 2, 0]); 31];
    let p = player("g", "u");
    let window0 = (start + Duration::seconds(10)).unix_timestamp_nanos();
    let (g1, p1) = play_move(game, p, 0, 0, 0, window0).unwrap();
    assert_eq!(p1.last_turn_played, 1);
    assert_eq!(p1.score, 0);
    let again = play_move(g1.clone(), p1.clone(), 0, 2, 2, window0);
    assert!(matches!(again, Err(ServiceError::Invalid(ref m)) if m == "TurnAlreadyPlayed"));
    let window1 = (start + Duration::seconds(80)).unix_timestamp_nanos();
    let (_, p2) = play_move(g1, p1, 1, 2, 2, window1).unwrap();
    assert_eq!(p2.last_turn_played, 2);
    assert_eq!(p2.score, 0);
}

#[test]
fn listings_take_the_first_matching_games_up_to_the_limit() {
    let run = |flags: &[bool], limit: usize| {
        let mut taken = Vec::new();
        if listing_step(0, limit, false).1 {
            return taken;
        }
        for (i, &matches) in flags.iter().enumerate() {
            let (take, done) = listing_step(taken.len(), limit, matches);
            if take {
                taken.push(i);
            }
            if done {
                break;
            }
        }
        taken
    };
    let flags = [false, true, true, false, true, true];
    assert_eq!(run(&flags, 0), Vec::<usize>::new());
    assert_eq!(run(&flags, 1), vec![1]);
    assert_eq!(run(&flags, 3), vec![1, 2, 4]);
    assert_eq!(run(&flags, 20), vec![1, 2, 4, 5]);
    assert_eq!(listing_step(2, 3, true), (true, true));
    assert_eq!(listing_step(2, 3, false), (false, false));
    assert_eq!(listing_step(0, 0, false), (false, true));
}

#[test]
fn new_games_need_start_and_end_within_four_digit_years() {
    let last_year = OffsetDateTime::parse("9999-12-31T23:00:00Z", &Rfc3339).unwrap().unix_timestamp_nanos();
    assert!(new_game_record("0123456789abcdef".to_string(), last_year, vec![]).is_ok());
    let too_late = OffsetDateTime::parse("9999-12-31T23:30:00Z", &Rfc3339).unwrap().unix_timestamp_nanos();
    assert!(matches!(new_game_record("0123456789abcdef".to_string(), too_late, vec![]), Err(ServiceError::Storage(_))));
    let too_early = OffsetDateTime::parse("0000-01-01T00:00:00Z", &Rfc3339).unwrap().unix_timestamp_nanos() - 200_000_000_000;
    assert!(matches!(new_game_record("0123456789abcdef".to_string(), too_early, vec![]), Err(ServiceError::Storage(_))));
}

#[test]
fn my_game_shows_only_the_current_piece() {
    let start = OffsetDateTime::from_unix_timestamp(10_000_000).unwrap();
    let mut game = record("g", start, start + Duration::seconds(31 * 70));
    game.pieces = all_gamepieces();
    let p = player("g", "u");
    let during = (start + Duration::seconds(150)).unix_timestamp_nanos();
    let mut other = game.clone();
    other.pieces.reverse();
    other.pieces.swap(2, 28);
    assert_eq!(other.pieces[2], game.pieces[2]);
    let a = my_game_entry(&game, &p, during).unwrap().unwrap();
    let b = my_game_entry(&other, &p, during).unwrap().unwrap();
    assert_eq!(a.current_piece, vec![game.pieces[2].clone()]);
    assert_eq!(a.current_piece, b.current_piece);
    assert_eq!((a.current_turn, a.time_remaining_seconds), (b.current_turn, b.time_remaining_seconds));
}
