# bazingo

The rules engine and game services of a turn-based board game, verified with Verus.

Each turn deals a 3x3 piece that every player places on a private 5x5 board. When the turn
is scored, full 3x3, 3x2, 2x3 and 2x2 blocks of pips earn 45, 15, 15 and 5 points and are
cleared; a skipped turn costs 7 points; an empty board on the final turn earns 15.

- `src/engine.rs`: boards, pieces, placement and scoring, with their specifications.
- `src/theorems.rs`: properties of the rules proved over those specifications.
- `src/services.rs`: game and player records, timing of turns, moves, joins, new games.
- `src/api.rs`: the decisions behind the HTTP answers (listings, game info, a user's game).
- `src/listing.rs`, `src/text.rs`: stable ordering of listings by text keys.
- `app/`: the store, the asynchronous services and the HTTP handlers around the library.
