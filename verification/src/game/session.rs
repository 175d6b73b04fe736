//! The session orchestrator: resolves the word of a new game, validates a
//! guess against the dictionary before anything is persisted, evaluates and
//! persists it, and recomputes the derived views (guess history, ranked
//! scores) from the guess log on demand.

use vstd::multiset::Multiset;
use vstd::prelude::*;
use vstd::string::StrSliceExecFns;

use crate::game::check_guess;
use crate::game::db::guess_indices;
use crate::game::db::lemma_guess_indices;
use crate::game::db::score_rows;
use crate::game::db::PlayerGuessRecord;
use crate::game::db::PlayerRecord;
use crate::game::db::Store;
use crate::game::dictionary::Dictionary;
use crate::game::eval_letters;
use crate::game::is_winning;
use crate::game::lower_of;
use crate::game::lowercase;
use crate::game::types::CreateGameParams;
use crate::game::types::CreateGameResponse;
use crate::game::types::CreatePlayerGuessParams;
use crate::game::types::CreatePlayerGuessResponse;
use crate::game::types::Game;
use crate::game::types::GameError;
use crate::game::types::GetGameScoresResponse;
use crate::game::types::GetPlayerGuessesResponse;
use crate::game::types::JoinGameParams;
use crate::game::types::JoinGameResponse;
use crate::game::types::PlayerGuess;
use crate::game::types::PlayerScore;

verus! {

/// The public score shape of one aggregated leaderboard row.
pub open spec fn to_score(rec: PlayerGuessRecord) -> PlayerScore {
    PlayerScore {
        player: rec.player_id,
        username: rec.username,
        guesses: rec.guesses,
        has_won: rec.has_won,
    }
}

/// The leaderboard of a game in the public score shape, one entry per
/// joined player in join order.
pub open spec fn spec_scores(
    ps: Seq<PlayerRecord>,
    gs: Seq<crate::game::db::StoredGuess>,
    game_id: u64,
) -> Seq<PlayerScore> {
    score_rows(ps, gs, game_id).map_values(|rec: PlayerGuessRecord| to_score(rec))
}

/// Ranking order on leaderboard entries: winners rank before non-winners,
/// and fewer guesses rank higher among equals.
pub open spec fn score_le(a: PlayerScore, b: PlayerScore) -> bool {
    (a.has_won && !b.has_won) || (a.has_won == b.has_won && a.guesses <= b.guesses)
}

/// Ranked for the leaderboard under `score_le`.
pub open spec fn scores_sorted(s: Seq<PlayerScore>) -> bool {
    forall|i: int, j: int| 0 <= i < j < s.len() ==> score_le(s[i], s[j])
}

fn score_le_exec(a: &PlayerScore, b: &PlayerScore) -> (r: bool)
    ensures
        r == score_le(*a, *b),
{
    (a.has_won && !b.has_won) || (a.has_won == b.has_won && a.guesses <= b.guesses)
}

/// Create a game: a custom word is lowercase-normalized and stored; a
/// random game stores a dictionary word of six characters, or the fixed
/// fallback word when the dictionary offers none.
pub fn create_game(store: &mut Store, dict: &Dictionary, params: CreateGameParams) -> (r:
    CreateGameResponse)
    requires
        old(store).wf(),
        dict.wf(),
        params.game matches Game::Custom(w) ==> w@.len() > 0,
    ensures
        final(store).wf(),
        final(store).players@ == old(store).players@,
        final(store).guesses@ == old(store).guesses@,
        final(store).games@.len() == old(store).games@.len() + 1,
        final(store).games@.take(old(store).games@.len() as int) == old(store).games@,
        r.game_id == old(store).games@.len(),
        final(store).games@.last().id == r.game_id,
        params.game matches Game::Custom(w) ==> final(store).games@.last().word@ == lower_of(w@),
        params.game is Random && (exists|w: Seq<char>| dict.contains_word(w) && w.len() == 6)
            ==> dict.contains_word(final(store).games@.last().word@) && final(store).games@.last().word@.len() == 6,
        params.game is Random && !(exists|w: Seq<char>| dict.contains_word(w) && w.len() == 6)
            ==> final(store).games@.last().word@ == lower_of("ADIEU"@),
{
    let word: String = match params.game {
        Game::Custom(w) => lowercase(w.as_str()),
        Game::Random => {
            match dict.get_random_word(6) {
                Some(w) => w,
                None => {
                    proof {
                        reveal_strlit("ADIEU");
                    }
                    lowercase("ADIEU")
                },
            }
        },
    };
    let game_id = store.create_game(word);
    proof {
        assert(store.games@.take(store.games@.len() - 1) =~= old(store).games@);
    }
    CreateGameResponse { game_id }
}

/// Join a player to a game and report the board width a client should
/// render: the character count of the game's solution.
pub fn join_game(store: &mut Store, game_id: u64, params: JoinGameParams) -> (r: Result<
    JoinGameResponse,
    GameError,
>)
    requires
        old(store).wf(),
    ensures
        final(store).wf(),
        final(store).games@ == old(store).games@,
        final(store).guesses@ == old(store).guesses@,
        game_id < old(store).games@.len() ==> (r matches Ok(resp) && resp.player == old(store).players@.len() && resp.length == old(store).games@[game_id as int].word@.len() && final(store).players@ == old(store).players@.push(
            (PlayerRecord { id: resp.player, game_id, username: params.username }),
        )),
        game_id >= old(store).games@.len() ==> r == Err::<JoinGameResponse, GameError>(
            GameError::NotFound,
        ) && final(store).players@ == old(store).players@,
{
    let player = match store.join_game(game_id, params.username) {
        Ok(p) => p,
        Err(e) => {
            return Err(e);
        },
    };
    match store.get_solution(player) {
        Ok(solution) => Ok(
            JoinGameResponse { player, length: solution.as_str().unicode_len() },
        ),
        Err(e) => Err(e),
    }
}

/// Submit a guess: a word the dictionary rejects fails with `InvalidGuess`
/// before anything is persisted; otherwise the guess is evaluated
/// case-insensitively against the player's solution, persisted verbatim
/// together with its computed win flag, and the full per-letter result is
/// returned.
pub fn submit_guess(
    store: &mut Store,
    dict: &Dictionary,
    player_id: u64,
    params: CreatePlayerGuessParams,
) -> (r: Result<CreatePlayerGuessResponse, GameError>)
    requires
        old(store).wf(),
        dict.wf(),
    ensures
        final(store).wf(),
        final(store).games@ == old(store).games@,
        final(store).players@ == old(store).players@,
        !dict.contains_word(lower_of(params.guess@)) ==> r == Err::<
            CreatePlayerGuessResponse,
            GameError,
        >(GameError::InvalidGuess) && final(store).guesses@ == old(store).guesses@,
        dict.contains_word(lower_of(params.guess@)) && player_id >= old(store).players@.len()
            ==> r == Err::<CreatePlayerGuessResponse, GameError>(GameError::NotFound) && final(store).guesses@ == old(store).guesses@,
        dict.contains_word(lower_of(params.guess@)) && player_id < old(store).players@.len() ==> (r
            matches Ok(resp) && resp.guess.letters@ == eval_letters(
            lower_of(params.guess@),
            lower_of(old(store).solution_of(player_id as int)),
        ) && resp.guess.is_winning_guess == is_winning(
            lower_of(params.guess@),
            lower_of(old(store).solution_of(player_id as int)),
        ) && final(store).guesses@.len() == old(store).guesses@.len() + 1 && final(store).guesses@.take(old(store).guesses@.len() as int) == old(store).guesses@ && final(store).guesses@.last().player_id == player_id && final(store).guesses@.last().guess@ == params.guess@
            && final(store).guesses@.last().is_winning == resp.guess.is_winning_guess),
{
    if !dict.is_valid_word(params.guess.as_str()) {
        return Err(GameError::InvalidGuess);
    }
    let solution = match store.get_solution(player_id) {
        Ok(s) => s,
        Err(e) => {
            return Err(e);
        },
    };
    let result = check_guess(params.guess.as_str(), solution.as_str());
    let flag = result.is_winning_guess;
    match store.create_guess(player_id, params.guess, flag) {
        Ok(_gid) => {
            proof {
                assert(store.guesses@.take(store.guesses@.len() - 1) =~= old(store).guesses@);
            }
            Ok(CreatePlayerGuessResponse { guess: result })
        },
        Err(e) => Err(e),
    }
}

/// A player's guess history: every stored guess text re-evaluated,
/// case-insensitively, against the game's solution, in submission order.
/// The recomputed win flag agrees with the flag stored at submission time.
pub fn get_player_guesses(store: &Store, player_id: u64) -> (r: Result<
    GetPlayerGuessesResponse,
    GameError,
>)
    requires
        store.wf(),
    ensures
        player_id >= store.players@.len() ==> r == Err::<GetPlayerGuessesResponse, GameError>(
            GameError::NotFound,
        ),
        player_id < store.players@.len() ==> (r matches Ok(resp) && resp.guesses@.len()
            == guess_indices(store.guesses@, player_id).len() && (forall|k: int|
            0 <= k < guess_indices(store.guesses@, player_id).len() ==> ((#[trigger] resp.guesses@[k]).letters@
                == eval_letters(
                lower_of(store.guesses@[guess_indices(store.guesses@, player_id)[k]].guess@),
                lower_of(store.solution_of(player_id as int)),
            ) && resp.guesses@[k].is_winning_guess == store.guesses@[guess_indices(
                store.guesses@,
                player_id,
            )[k]].is_winning))),
{
    let solution = match store.get_solution(player_id) {
        Ok(s) => s,
        Err(e) => {
            return Err(e);
        },
    };
    let rows = match store.get_guesses(player_id) {
        Ok(rw) => rw,
        Err(e) => {
            return Err(e);
        },
    };
    let ghost idxs = guess_indices(store.guesses@, player_id);
    proof {
        lemma_guess_indices(store.guesses@, player_id);
    }
    let mut out: Vec<PlayerGuess> = Vec::new();
    let mut k: usize = 0;
    while k < rows.len()
        invariant
            store.wf(),
            player_id < store.players@.len(),
            solution@ == store.solution_of(player_id as int),
            idxs == guess_indices(store.guesses@, player_id),
            rows@.len() == idxs.len(),
            forall|j: int|
                0 <= j < idxs.len() ==> 0 <= #[trigger] idxs[j] < store.guesses@.len()
                    && store.guesses@[idxs[j]].player_id == player_id,
            forall|j: int|
                0 <= j < rows@.len() ==> (#[trigger] rows@[j]).guess@
                    == store.guesses@[idxs[j]].guess@,
            k <= rows@.len(),
            out@.len() == k,
            forall|j: int|
                0 <= j < k ==> (#[trigger] out@[j]).letters@ == eval_letters(
                    lower_of(store.guesses@[idxs[j]].guess@),
                    lower_of(store.solution_of(player_id as int)),
                ) && out@[j].is_winning_guess == store.guesses@[idxs[j]].is_winning,
        decreases rows@.len() - k,
    {
        let pg = check_guess(rows[k].guess.as_str(), solution.as_str());
        out.push(pg);
        k = k + 1;
    }
    Ok(GetPlayerGuessesResponse { guesses: out })
}

fn insert_sorted(v: &mut Vec<PlayerScore>, x: PlayerScore)
    requires
        scores_sorted(old(v)@),
    ensures
        scores_sorted(final(v)@),
        final(v)@.to_multiset() == old(v)@.to_multiset().insert(x),
{
    let ghost before = v@;
    let mut j: usize = 0;
    while j < v.len() && score_le_exec(&v[j], &x)
        invariant
            v@ == before,
            scores_sorted(v@),
            j <= v@.len(),
            forall|k: int| 0 <= k < j ==> score_le(v@[k], x),
        decreases v@.len() - j,
    {
        j = j + 1;
    }
    v.insert(j, x);
    proof {
        broadcast use vstd::seq_lib::group_to_multiset_ensures;

        before.insert_ensures(j as int, x);
        assert forall|i1: int, i2: int|
            0 <= i1 < i2 < v@.len() implies score_le(v@[i1], v@[i2]) by {
            if i1 == j as int && i2 > j as int {
                assert(v@[i2] == before[i2 - 1]);
                assert(score_le(x, before[j as int]));
                assert(score_le(before[j as int], before[i2 - 1]));
            }
        }
    }
}

/// The ranked leaderboard of a game: one entry per joined player (a player
/// with no guesses counts zero and has not won), winners ranked before
/// non-winners, fewer guesses ranking higher among equals.
pub fn get_game_scores(store: &Store, game_id: u64) -> (r: GetGameScoresResponse)
    requires
        store.wf(),
    ensures
        r.player_scores@.to_multiset() == spec_scores(
            store.players@,
            store.guesses@,
            game_id,
        ).to_multiset(),
        scores_sorted(r.player_scores@),
{
    let mut rows = store.get_all_guesses(game_id);
    let ghost all = score_rows(store.players@, store.guesses@, game_id);
    let mut unsorted: Vec<PlayerScore> = Vec::new();
    while rows.len() > 0
        invariant
            all == score_rows(store.players@, store.guesses@, game_id),
            unsorted@.len() + rows@.len() == all.len(),
            rows@ == all.skip(unsorted@.len() as int),
            forall|j: int| 0 <= j < unsorted@.len() ==> (#[trigger] unsorted@[j]) == to_score(
                all[j],
            ),
        decreases rows@.len(),
    {
        let ghost n = unsorted@.len() as int;
        let rec = rows.remove(0);
        unsorted.push(PlayerScore::from(rec));
        proof {
            assert(rec == all[n]);
            assert(rows@ =~= all.skip(n + 1));
        }
    }
    proof {
        assert(unsorted@ =~= spec_scores(store.players@, store.guesses@, game_id));
    }
    let ghost goal = unsorted@.to_multiset();
    let mut ranked: Vec<PlayerScore> = Vec::new();
    proof {
        broadcast use vstd::seq_lib::group_to_multiset_ensures;
        broadcast use vstd::multiset::group_multiset_axioms;

        assert(ranked@.to_multiset() =~= Multiset::<PlayerScore>::empty());
        assert(ranked@.to_multiset().add(unsorted@.to_multiset()) =~= unsorted@.to_multiset());
    }
    while unsorted.len() > 0
        invariant
            scores_sorted(ranked@),
            ranked@.to_multiset().add(unsorted@.to_multiset()) == goal,
        decreases unsorted@.len(),
    {
        let ghost prev = unsorted@;
        let x = unsorted.pop().unwrap();
        proof {
            broadcast use vstd::seq_lib::group_to_multiset_ensures;
            broadcast use vstd::multiset::group_multiset_axioms;

            assert(unsorted@ =~= prev.remove(prev.len() - 1));
            assert(prev.to_multiset().count(x) > 0) by {
                assert(prev.contains(x));
            }
            assert(unsorted@.to_multiset().insert(x) =~= prev.to_multiset());
        }
        insert_sorted(&mut ranked, x);
        proof {
            broadcast use vstd::multiset::group_multiset_axioms;

            assert(ranked@.to_multiset().add(unsorted@.to_multiset()) =~= goal);
        }
    }
    proof {
        broadcast use vstd::seq_lib::group_to_multiset_ensures;
        broadcast use vstd::multiset::group_multiset_axioms;

        assert(unsorted@.to_multiset() =~= Multiset::<PlayerScore>::empty());
        assert(ranked@.to_multiset() =~= goal);
    }
    GetGameScoresResponse { player_scores: ranked }
}

} // verus!
