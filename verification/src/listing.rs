use vstd::prelude::*;
use crate::services::{GamePlayerSummary, GameRecord, PlayerGameRecord};
use crate::text::{lemma_text_asymmetric, lemma_text_lt_le, text_le, text_less_or_equal, text_lt};

verus! {

/// The sequence is in the order of its items' keys.
pub open spec fn sorted_by<T>(s: Seq<T>, key: spec_fn(T) -> Seq<char>) -> bool {
    forall|i: int, j: int| 0 <= i < j < s.len() ==> text_le(key(#[trigger] s[i]), key(#[trigger] s[j]))
}

/// `out` holds the items of `input`, the `i`-th one being `input[perm[i]]`, and items with the
/// same key keep the order they had in `input`.
pub open spec fn stable_arrangement<T>(input: Seq<T>, out: Seq<T>, key: spec_fn(T) -> Seq<char>, perm: Seq<int>) -> bool {
    &&& perm.len() == input.len()
    &&& out.len() == input.len()
    &&& forall|i: int| 0 <= i < out.len() ==> 0 <= #[trigger] perm[i] < input.len() && out[i] == input[perm[i]]
    &&& forall|i: int, j: int|
        0 <= i < out.len() && 0 <= j < out.len() && i != j ==> #[trigger] perm[i] != #[trigger] perm[j]
    &&& forall|i: int, j: int|
        0 <= i < j < out.len() && key(out[i]) == key(out[j]) ==> #[trigger] perm[i] < #[trigger] perm[j]
}

/// `out` is `input` sorted by key, keeping the input order among items with equal keys: what
/// a stable sort gives.
pub open spec fn stably_sorted<T>(input: Seq<T>, out: Seq<T>, key: spec_fn(T) -> Seq<char>) -> bool {
    &&& sorted_by(out, key)
    &&& exists|perm: Seq<int>| stable_arrangement(input, out, key, perm)
}

/// Inserting the next input item after every item whose key is not above its own keeps the
/// sequence stably sorted.
proof fn lemma_insert_after_equal_keys<T>(
    input: Seq<T>,
    out: Seq<T>,
    key: spec_fn(T) -> Seq<char>,
    perm: Seq<int>,
    k: int,
    p: int,
)
    requires
        0 <= k < input.len(),
        sorted_by(out, key),
        stable_arrangement(input.take(k), out, key, perm),
        0 <= p <= out.len(),
        forall|j: int| 0 <= j < p ==> text_le(key(#[trigger] out[j]), key(input[k])),
        p < out.len() ==> text_lt(key(input[k]), key(out[p])),
    ensures
        sorted_by(out.insert(p, input[k]), key),
        stable_arrangement(input.take(k + 1), out.insert(p, input[k]), key, perm.insert(p, k)),
{
    let item = input[k];
    let out2 = out.insert(p, item);
    let perm2 = perm.insert(p, k);
    assert forall|j: int| p <= j < out.len() implies text_lt(key(item), key(#[trigger] out[j])) by {
        if j > p {
            assert(text_le(key(out[p]), key(out[j])));
        }
        lemma_text_lt_le(key(item), key(out[p]), key(out[j]));
    }
    assert forall|i: int, j: int| 0 <= i < j < out2.len() implies text_le(
        key(#[trigger] out2[i]),
        key(#[trigger] out2[j]),
    ) by {
        if i < p && j == p {
        } else if i == p {
            assert(out2[j] == out[j - 1]);
            lemma_text_asymmetric(key(item), key(out[j - 1]));
        } else if i < p && j > p {
            assert(out2[j] == out[j - 1]);
            assert(text_le(key(out[i]), key(out[j - 1])));
        } else if j < p {
            assert(out2[i] == out[i]);
            assert(out2[j] == out[j]);
        } else {
            assert(out2[i] == out[i - 1]);
            assert(out2[j] == out[j - 1]);
            assert(text_le(key(out[i - 1]), key(out[j - 1])));
        }
    }
    assert forall|i: int| 0 <= i < out2.len() implies 0 <= #[trigger] perm2[i] < input.take(k + 1).len()
        && out2[i] == input.take(k + 1)[perm2[i]] by {
        if i < p {
            assert(perm2[i] == perm[i]);
            assert(out2[i] == out[i]);
        } else if i > p {
            assert(perm2[i] == perm[i - 1]);
            assert(out2[i] == out[i - 1]);
        }
    }
    assert forall|i: int, j: int|
        0 <= i < out2.len() && 0 <= j < out2.len() && i != j implies #[trigger] perm2[i]
        != #[trigger] perm2[j] by {
        if i != p && j != p {
            let i0 = if i < p { i } else { i - 1 };
            let j0 = if j < p { j } else { j - 1 };
            assert(perm2[i] == perm[i0]);
            assert(perm2[j] == perm[j0]);
        } else if i == p {
            let j0 = if j < p { j } else { j - 1 };
            assert(perm2[j] == perm[j0]);
        } else {
            let i0 = if i < p { i } else { i - 1 };
            assert(perm2[i] == perm[i0]);
        }
    }
    assert forall|i: int, j: int|
        0 <= i < j < out2.len() && key(out2[i]) == key(out2[j]) implies #[trigger] perm2[i]
        < #[trigger] perm2[j] by {
        if i < p && j == p {
            assert(perm2[i] == perm[i]);
        } else if i == p {
            assert(out2[j] == out[j - 1]);
            assert(text_lt(key(item), key(out[j - 1])));
            lemma_text_asymmetric(key(item), key(item));
        } else if i < p && j > p {
            assert(perm2[i] == perm[i]);
            assert(perm2[j] == perm[j - 1]);
            assert(out2[j] == out[j - 1]);
        } else if j < p {
            assert(perm2[i] == perm[i]);
            assert(perm2[j] == perm[j]);
        } else {
            assert(perm2[i] == perm[i - 1]);
            assert(perm2[j] == perm[j - 1]);
            assert(out2[i] == out[i - 1]);
            assert(out2[j] == out[j - 1]);
        }
    }
}

/// The key by which games are listed: their starting time.
pub open spec fn game_start_key() -> spec_fn(GameRecord) -> Seq<char> {
    |g: GameRecord| g.starting_time@
}

/// The games in the order of their starting times (as texts), games that start at the same
/// time keeping their order.
pub fn sort_games_by_start(games: Vec<GameRecord>) -> (sorted: Vec<GameRecord>)
    ensures
        stably_sorted(games@, sorted@, game_start_key()),
{
    let ghost input = games@;
    let ghost key = game_start_key();
    let mut rest = games;
    let mut out: Vec<GameRecord> = Vec::new();
    let ghost mut perm: Seq<int> = Seq::empty();
    let n = rest.len();
    assert(input.take(0) =~= Seq::<GameRecord>::empty());
    for k in 0..n
        invariant
            n == input.len(),
            rest@ == input.skip(k as int),
            sorted_by(out@, key),
            stable_arrangement(input.take(k as int), out@, key, perm),
            key == game_start_key(),
    {
        assert(rest@[0] == input[k as int]);
        let item = rest.remove(0);
        assert(rest@ =~= input.skip(k + 1));
        let mut p: usize = 0;
        while p < out.len() && text_less_or_equal(out[p].starting_time.as_str(), item.starting_time.as_str())
            invariant
                p <= out@.len(),
                item == input[k as int],
                key == game_start_key(),
                forall|j: int| 0 <= j < p ==> text_le(key(#[trigger] out@[j]), key(item)),
            decreases out@.len() - p,
        {
            p += 1;
        }
        proof {
            lemma_insert_after_equal_keys(input, out@, key, perm, k as int, p as int);
            perm = perm.insert(p as int, k as int);
        }
        out.insert(p, item);
    }
    assert(input.take(n as int) =~= input);
    out
}

/// The summary of a player: the user's id and name.
pub open spec fn summary_of(p: PlayerGameRecord) -> GamePlayerSummary {
    GamePlayerSummary { id: p.user_id, name: p.name }
}

/// The key by which players are listed: their user id.
pub open spec fn summary_key() -> spec_fn(GamePlayerSummary) -> Seq<char> {
    |s: GamePlayerSummary| s.id@
}

/// The players of game `game_id`, in the order given.
pub open spec fn players_of(players: Seq<PlayerGameRecord>, game_id: Seq<char>) -> Seq<GamePlayerSummary> {
    players.filter(|p: PlayerGameRecord| p.game_id@ == game_id).map_values(|p: PlayerGameRecord| summary_of(p))
}

/// The summaries of the players of game `game_id`, among `players`, in the order of their
/// user ids (players with the same id keeping their order).
pub fn game_player_summaries(players: Vec<PlayerGameRecord>, game_id: &str) -> (summaries: Vec<GamePlayerSummary>)
    ensures
        stably_sorted(players_of(players@, game_id@), summaries@, summary_key()),
{
    let ghost input = players@;
    let wanted = String::from_str(game_id);
    let mut rest = players;
    let mut listed: Vec<GamePlayerSummary> = Vec::new();
    let n = rest.len();
    for k in 0..n
        invariant
            n == input.len(),
            rest@ == input.skip(k as int),
            wanted@ == game_id@,
            listed@ == players_of(input.take(k as int), game_id@),
    {
        assert(rest@[0] == input[k as int]);
        let player = rest.remove(0);
        assert(rest@ =~= input.skip(k + 1));
        let ghost pred = |p: PlayerGameRecord| p.game_id@ == game_id@;
        proof {
            assert(input.take(k + 1).drop_last() =~= input.take(k as int));
            reveal_with_fuel(Seq::filter, 1);
        }
        if player.game_id == wanted {
            listed.push(GamePlayerSummary { id: player.user_id, name: player.name });
            assert(input.take(k + 1).filter(pred) == input.take(k as int).filter(pred).push(input[k as int]));
        } else {
            assert(input.take(k + 1).filter(pred) == input.take(k as int).filter(pred));
        }
        assert(listed@ =~= players_of(input.take(k + 1), game_id@));
    }
    assert(input.take(n as int) =~= input);
    sort_summaries_by_id(listed)
}

/// The summaries in the order of their ids, equal ids keeping their order.
fn sort_summaries_by_id(summaries: Vec<GamePlayerSummary>) -> (sorted: Vec<GamePlayerSummary>)
    ensures
        stably_sorted(summaries@, sorted@, summary_key()),
{
    let ghost input = summaries@;
    let ghost key = summary_key();
    let mut rest = summaries;
    let mut out: Vec<GamePlayerSummary> = Vec::new();
    let ghost mut perm: Seq<int> = Seq::empty();
    let n = rest.len();
    assert(input.take(0) =~= Seq::<GamePlayerSummary>::empty());
    for k in 0..n
        invariant
            n == input.len(),
            rest@ == input.skip(k as int),
            sorted_by(out@, key),
            stable_arrangement(input.take(k as int), out@, key, perm),
            key == summary_key(),
    {
        assert(rest@[0] == input[k as int]);
        let item = rest.remove(0);
        assert(rest@ =~= input.skip(k + 1));
        let mut p: usize = 0;
        while p < out.len() && text_less_or_equal(out[p].id.as_str(), item.id.as_str())
            invariant
                p <= out@.len(),
                item == input[k as int],
                key == summary_key(),
                forall|j: int| 0 <= j < p ==> text_le(key(#[trigger] out@[j]), key(item)),
            decreases out@.len() - p,
        {
            p += 1;
        }
        proof {
            lemma_insert_after_equal_keys(input, out@, key, perm, k as int, p as int);
            perm = perm.insert(p as int, k as int);
        }
        out.insert(p, item);
    }
    assert(input.take(n as int) =~= input);
    out
}

} // verus!
