//! The game/player/guess store: an append-only log of immutable facts
//! (created games, joined players, submitted guesses) and the derived read
//! queries (solution lookup, guess history, score aggregation).

use vstd::prelude::*;

use crate::game::is_winning;
use crate::game::lower_of;
use crate::game::types::GameError;

verus! {

/// A stored game: its identifier and its non-empty solution word, kept as
/// handed in at creation (evaluation folds it, so its case never matters).
pub struct GameRecord {
    pub id: u64,
    pub word: String,
}

/// A stored player: identifier, owning game and display name.
pub struct PlayerRecord {
    pub id: u64,
    pub game_id: u64,
    pub username: String,
}

/// A stored guess: the owning player, the submitted text verbatim and the
/// win flag computed at submission time.
pub struct StoredGuess {
    pub player_id: u64,
    pub guess: String,
    pub is_winning: bool,
}

/// One row of a player's guess history, in submission order.
#[derive(PartialEq, Eq, Debug)]
pub struct GuessRecord {
    pub guess: String,
}

/// One aggregated leaderboard row: a player of the game, how many guesses
/// they have submitted and whether any of them won.
#[derive(PartialEq, Eq, Debug)]
pub struct PlayerGuessRecord {
    pub player_id: u64,
    pub username: String,
    pub guesses: u64,
    pub has_won: bool,
}

/// The positions in `gs`, in submission order, of the guesses that belong
/// to player `pid`.
pub open spec fn guess_indices(gs: Seq<StoredGuess>, pid: u64) -> Seq<int>
    decreases gs.len(),
{
    if gs.len() == 0 {
        Seq::empty()
    } else if gs.last().player_id == pid {
        guess_indices(gs.drop_last(), pid).push(gs.len() - 1)
    } else {
        guess_indices(gs.drop_last(), pid)
    }
}

/// The positions in `ps`, in join order, of the players of game `game_id`.
pub open spec fn player_indices(ps: Seq<PlayerRecord>, game_id: u64) -> Seq<int>
    decreases ps.len(),
{
    if ps.len() == 0 {
        Seq::empty()
    } else if ps.last().game_id == game_id {
        player_indices(ps.drop_last(), game_id).push(ps.len() - 1)
    } else {
        player_indices(ps.drop_last(), game_id)
    }
}

/// How many stored guesses belong to player `pid`.
pub open spec fn guess_count(gs: Seq<StoredGuess>, pid: u64) -> nat {
    guess_indices(gs, pid).len()
}

/// Whether any stored guess of player `pid` won.
pub open spec fn has_won(gs: Seq<StoredGuess>, pid: u64) -> bool {
    exists|i: int| 0 <= i < gs.len() && (#[trigger] gs[i]).player_id == pid && gs[i].is_winning
}

/// The leaderboard rows of a game, one per joined player in join order.
pub open spec fn score_rows(
    ps: Seq<PlayerRecord>,
    gs: Seq<StoredGuess>,
    game_id: u64,
) -> Seq<PlayerGuessRecord> {
    player_indices(ps, game_id).map_values(
        |p: int|
            PlayerGuessRecord {
                player_id: ps[p].id,
                username: ps[p].username,
                guesses: guess_count(gs, ps[p].id) as u64,
                has_won: has_won(gs, ps[p].id),
            },
    )
}

pub proof fn lemma_guess_indices(gs: Seq<StoredGuess>, pid: u64)
    ensures
        forall|k: int|
            0 <= k < guess_indices(gs, pid).len() ==> 0 <= #[trigger] guess_indices(gs, pid)[k]
                < gs.len() && gs[guess_indices(gs, pid)[k]].player_id == pid,
        forall|k1: int, k2: int|
            0 <= k1 < k2 < guess_indices(gs, pid).len() ==> #[trigger] guess_indices(gs, pid)[k1]
                < #[trigger] guess_indices(gs, pid)[k2],
    decreases gs.len(),
{
    if gs.len() > 0 {
        lemma_guess_indices(gs.drop_last(), pid);
        let prev = guess_indices(gs.drop_last(), pid);
        assert forall|k: int| 0 <= k < prev.len() implies 0 <= prev[k] < gs.len() - 1
            && gs[prev[k]].player_id == pid by {
            assert(gs.drop_last()[prev[k]] == gs[prev[k]]);
        }
    }
}

pub proof fn lemma_guess_indices_take(gs: Seq<StoredGuess>, pid: u64, i: int)
    requires
        0 <= i < gs.len(),
    ensures
        guess_indices(gs.take(i + 1), pid) == if gs[i].player_id == pid {
            guess_indices(gs.take(i), pid).push(i)
        } else {
            guess_indices(gs.take(i), pid)
        },
{
    assert(gs.take(i + 1).drop_last() =~= gs.take(i));
    assert(gs.take(i + 1).last() == gs[i]);
}

pub proof fn lemma_guess_indices_all(gs: Seq<StoredGuess>, pid: u64)
    ensures
        guess_indices(gs.take(gs.len() as int), pid) == guess_indices(gs, pid),
{
    assert(gs.take(gs.len() as int) =~= gs);
}

pub proof fn lemma_player_indices(ps: Seq<PlayerRecord>, game_id: u64)
    ensures
        forall|k: int|
            0 <= k < player_indices(ps, game_id).len() ==> 0 <= #[trigger] player_indices(
                ps,
                game_id,
            )[k] < ps.len() && ps[player_indices(ps, game_id)[k]].game_id == game_id,
    decreases ps.len(),
{
    if ps.len() > 0 {
        lemma_player_indices(ps.drop_last(), game_id);
        let prev = player_indices(ps.drop_last(), game_id);
        assert forall|k: int| 0 <= k < prev.len() implies 0 <= prev[k] < ps.len() - 1
            && ps[prev[k]].game_id == game_id by {
            assert(ps.drop_last()[prev[k]] == ps[prev[k]]);
        }
    }
}

pub proof fn lemma_player_indices_take(ps: Seq<PlayerRecord>, game_id: u64, i: int)
    requires
        0 <= i < ps.len(),
    ensures
        player_indices(ps.take(i + 1), game_id) == if ps[i].game_id == game_id {
            player_indices(ps.take(i), game_id).push(i)
        } else {
            player_indices(ps.take(i), game_id)
        },
{
    assert(ps.take(i + 1).drop_last() =~= ps.take(i));
    assert(ps.take(i + 1).last() == ps[i]);
}

pub proof fn lemma_player_indices_all(ps: Seq<PlayerRecord>, game_id: u64)
    ensures
        player_indices(ps.take(ps.len() as int), game_id) == player_indices(ps, game_id),
{
    assert(ps.take(ps.len() as int) =~= ps);
}

/// The append-only store behind one server: created games, joined players
/// and submitted guesses, identified by their positions in the log.
pub struct Store {
    pub games: Vec<GameRecord>,
    pub players: Vec<PlayerRecord>,
    pub guesses: Vec<StoredGuess>,
}

impl Store {
    /// The solution word of the game that player `p` joined.
    pub open spec fn solution_of(self, p: int) -> Seq<char> {
        self.games@[self.players@[p].game_id as int].word@
    }

    /// Well-formed store: identifiers equal log positions, every reference
    /// resolves, solutions are non-empty, and every stored win flag agrees
    /// with what the evaluator computes, case-insensitively, from the stored
    /// guess text and the guess's own solution.
    pub open spec fn wf(self) -> bool {
        &&& forall|i: int|
            0 <= i < self.games@.len() ==> (#[trigger] self.games@[i]).id == i as u64
        &&& forall|i: int|
            0 <= i < self.games@.len() ==> (#[trigger] self.games@[i]).word@.len() > 0
        &&& forall|i: int|
            0 <= i < self.players@.len() ==> (#[trigger] self.players@[i]).id == i as u64
        &&& forall|i: int|
            0 <= i < self.players@.len() ==> (#[trigger] self.players@[i]).game_id
                < self.games@.len()
        &&& forall|i: int|
            0 <= i < self.guesses@.len() ==> (#[trigger] self.guesses@[i]).player_id
                < self.players@.len()
        &&& forall|i: int|
            0 <= i < self.guesses@.len() ==> (#[trigger] self.guesses@[i]).is_winning
                == is_winning(
                lower_of(self.guesses@[i].guess@),
                lower_of(self.solution_of(self.guesses@[i].player_id as int)),
            )
    }

    /// An empty store.
    pub fn new() -> (s: Store)
        ensures
            s.wf(),
            s.games@.len() == 0,
            s.players@.len() == 0,
            s.guesses@.len() == 0,
    {
        Store { games: Vec::new(), players: Vec::new(), guesses: Vec::new() }
    }

    /// Create a game bound to `word` (already normalized, non-empty) and
    /// return its identifier.
    pub fn create_game(&mut self, word: String) -> (id: u64)
        requires
            old(self).wf(),
            word@.len() > 0,
        ensures
            final(self).wf(),
            id == old(self).games@.len(),
            final(self).games@ == old(self).games@.push((GameRecord { id, word })),
            final(self).players@ == old(self).players@,
            final(self).guesses@ == old(self).guesses@,
    {
        let id = self.games.len() as u64;
        self.games.push(GameRecord { id, word });
        id
    }

    /// Add a player to game `game_id` under `username` and return the new
    /// player's identifier; fails with `NotFound` for an unknown game.
    pub fn join_game(&mut self, game_id: u64, username: String) -> (r: Result<u64, GameError>)
        requires
            old(self).wf(),
        ensures
            final(self).wf(),
            final(self).games@ == old(self).games@,
            final(self).guesses@ == old(self).guesses@,
            game_id < old(self).games@.len() ==> (r matches Ok(pid) && pid == old(
                self,
            ).players@.len() && final(self).players@ == old(self).players@.push(
                (PlayerRecord { id: pid, game_id, username }),
            )),
            game_id >= old(self).games@.len() ==> r == Err::<u64, GameError>(GameError::NotFound)
                && final(self).players@ == old(self).players@,
    {
        if game_id < self.games.len() as u64 {
            let id = self.players.len() as u64;
            self.players.push(PlayerRecord { id, game_id, username });
            Ok(id)
        } else {
            Err(GameError::NotFound)
        }
    }

    /// The solution word of the player's game; `NotFound` for an unknown
    /// player.
    pub fn get_solution(&self, player_id: u64) -> (r: Result<String, GameError>)
        requires
            self.wf(),
        ensures
            player_id < self.players@.len() ==> (r matches Ok(w) && w@ == self.solution_of(
                player_id as int,
            )),
            player_id >= self.players@.len() ==> r == Err::<String, GameError>(GameError::NotFound),
    {
        if player_id < self.players.len() as u64 {
            let gid = self.players[player_id as usize].game_id;
            proof {
                broadcast use vstd::std_specs::vec::axiom_spec_len;

                assert(self.players@[player_id as int].game_id < self.games@.len());
                assert(self.games.len() == self.games@.len());
            }
            Ok(self.games[gid as usize].word.clone())
        } else {
            Err(GameError::NotFound)
        }
    }

    /// Record a guess for `player_id`, its text kept verbatim, with its
    /// computed win flag, and return the guess identifier; fails with
    /// `NotFound` for an unknown player. The caller's flag must agree with
    /// what the evaluator computes, case-insensitively, from the stored text
    /// and the player's solution — the agreement the store keeps as an
    /// invariant.
    pub fn create_guess(&mut self, player_id: u64, guess: String, is_winning_guess: bool) -> (r:
        Result<u64, GameError>)
        requires
            old(self).wf(),
            player_id < old(self).players@.len() ==> is_winning_guess == is_winning(
                lower_of(guess@),
                lower_of(old(self).solution_of(player_id as int)),
            ),
        ensures
            final(self).wf(),
            final(self).games@ == old(self).games@,
            final(self).players@ == old(self).players@,
            player_id < old(self).players@.len() ==> (r matches Ok(gid) && gid == old(
                self,
            ).guesses@.len() && final(self).guesses@ == old(self).guesses@.push(
                (StoredGuess { player_id, guess, is_winning: is_winning_guess }),
            )),
            player_id >= old(self).players@.len() ==> r == Err::<u64, GameError>(
                GameError::NotFound,
            ) && final(self).guesses@ == old(self).guesses@,
    {
        if player_id < self.players.len() as u64 {
            let id = self.guesses.len() as u64;
            self.guesses.push(StoredGuess { player_id, guess, is_winning: is_winning_guess });
            Ok(id)
        } else {
            Err(GameError::NotFound)
        }
    }

    /// A player's guess texts, in submission order; `NotFound` for an
    /// unknown player.
    pub fn get_guesses(&self, player_id: u64) -> (r: Result<Vec<GuessRecord>, GameError>)
        requires
            self.wf(),
        ensures
            player_id < self.players@.len() ==> (r matches Ok(rows) && rows@.len() == guess_indices(
                self.guesses@,
                player_id,
            ).len() && (forall|k: int|
                0 <= k < rows@.len() ==> (#[trigger] rows@[k]).guess@ == self.guesses@[guess_indices(
                    self.guesses@,
                    player_id,
                )[k]].guess@)),
            player_id >= self.players@.len() ==> r == Err::<Vec<GuessRecord>, GameError>(
                GameError::NotFound,
            ),
    {
        if player_id >= self.players.len() as u64 {
            return Err(GameError::NotFound);
        }
        let mut rows: Vec<GuessRecord> = Vec::new();
        let mut i: usize = 0;
        while i < self.guesses.len()
            invariant
                i <= self.guesses@.len(),
                rows@.len() == guess_indices(self.guesses@.take(i as int), player_id).len(),
                forall|k: int|
                    0 <= k < rows@.len() ==> (#[trigger] rows@[k]).guess@
                        == self.guesses@[guess_indices(self.guesses@.take(i as int), player_id)[k]].guess@,
            decreases self.guesses@.len() - i,
        {
            proof {
                lemma_guess_indices_take(self.guesses@, player_id, i as int);
                lemma_guess_indices(self.guesses@.take(i as int), player_id);
                lemma_guess_indices(self.guesses@.take(i as int + 1), player_id);
            }
            if self.guesses[i].player_id == player_id {
                rows.push(GuessRecord { guess: self.guesses[i].guess.clone() });
            }
            i = i + 1;
        }
        proof {
            lemma_guess_indices_all(self.guesses@, player_id);
        }
        Ok(rows)
    }

    /// The aggregated leaderboard rows for a game, one row per joined
    /// player — including players with no guesses — in join order.
    pub fn get_all_guesses(&self, game_id: u64) -> (r: Vec<PlayerGuessRecord>)
        requires
            self.wf(),
        ensures
            r@ == score_rows(self.players@, self.guesses@, game_id),
    {
        let mut rows: Vec<PlayerGuessRecord> = Vec::new();
        let mut p: usize = 0;
        while p < self.players.len()
            invariant
                self.wf(),
                p <= self.players@.len(),
                rows@ == score_rows(self.players@.take(p as int), self.guesses@, game_id),
            decreases self.players@.len() - p,
        {
            proof {
                lemma_player_indices_take(self.players@, game_id, p as int);
                lemma_player_indices(self.players@.take(p as int), game_id);
                lemma_player_indices(self.players@.take(p as int + 1), game_id);
            }
            if self.players[p].game_id == game_id {
                let pid = self.players[p].id;
                let (count, won) = self.count_guesses(pid);
                rows.push(
                    PlayerGuessRecord {
                        player_id: pid,
                        username: self.players[p].username.clone(),
                        guesses: count as u64,
                        has_won: won,
                    },
                );
                proof {
                    assert(rows@ =~= score_rows(
                        self.players@.take(p as int + 1),
                        self.guesses@,
                        game_id,
                    ));
                }
            } else {
                proof {
                    assert(rows@ =~= score_rows(
                        self.players@.take(p as int + 1),
                        self.guesses@,
                        game_id,
                    ));
                }
            }
            p = p + 1;
        }
        proof {
            assert(self.players@.take(self.players@.len() as int) =~= self.players@);
        }
        rows
    }

    /// Count a player's stored guesses and whether any of them won.
    fn count_guesses(&self, pid: u64) -> (r: (usize, bool))
        ensures
            r.0 == guess_count(self.guesses@, pid),
            r.1 == has_won(self.guesses@, pid),
    {
        let mut count: usize = 0;
        let mut won = false;
        let mut j: usize = 0;
        while j < self.guesses.len()
            invariant
                j <= self.guesses@.len(),
                count == guess_indices(self.guesses@.take(j as int), pid).len(),
                count <= j,
                won == has_won(self.guesses@.take(j as int), pid),
            decreases self.guesses@.len() - j,
        {
            proof {
                lemma_guess_indices_take(self.guesses@, pid, j as int);
                lemma_has_won_take(self.guesses@, pid, j as int);
            }
            if self.guesses[j].player_id == pid {
                count = count + 1;
                if self.guesses[j].is_winning {
                    won = true;
                }
            }
            j = j + 1;
        }
        proof {
            lemma_guess_indices_all(self.guesses@, pid);
            assert(self.guesses@.take(self.guesses@.len() as int) =~= self.guesses@);
        }
        (count, won)
    }
}

/// Recomputation agreement: in a well-formed store, every persisted
/// guess's stored win flag equals what the evaluator computes,
/// case-insensitively, from the stored guess text and the guess's own
/// game's solution.
pub proof fn lemma_stored_flag_agrees(s: Store, i: int)
    requires
        s.wf(),
        0 <= i < s.guesses@.len(),
    ensures
        s.guesses@[i].is_winning == is_winning(
            lower_of(s.guesses@[i].guess@),
            lower_of(s.solution_of(s.guesses@[i].player_id as int)),
        ),
{
}

pub proof fn lemma_has_won_take(gs: Seq<StoredGuess>, pid: u64, i: int)
    requires
        0 <= i < gs.len(),
    ensures
        has_won(gs.take(i + 1), pid) == (has_won(gs.take(i), pid) || (gs[i].player_id == pid
            && gs[i].is_winning)),
{
    if has_won(gs.take(i + 1), pid) {
        let k = choose|k: int|
            0 <= k < gs.take(i + 1).len() && (#[trigger] gs.take(i + 1)[k]).player_id == pid
                && gs.take(i + 1)[k].is_winning;
        if k < i {
            assert(gs.take(i)[k].player_id == pid && gs.take(i)[k].is_winning);
        }
    }
    if has_won(gs.take(i), pid) {
        let k = choose|k: int|
            0 <= k < gs.take(i).len() && (#[trigger] gs.take(i)[k]).player_id == pid && gs.take(
                i,
            )[k].is_winning;
        assert(gs.take(i + 1)[k].player_id == pid && gs.take(i + 1)[k].is_winning);
    }
    if gs[i].player_id == pid && gs[i].is_winning {
        assert(gs.take(i + 1)[i].player_id == pid && gs.take(i + 1)[i].is_winning);
    }
}

} // verus!
