//! The request, response and result shapes the game exposes.

use vstd::prelude::*;

use crate::game::db::PlayerGuessRecord;
use crate::game::Letter;

verus! {

/// How a new game chooses its solution word: picked at random from the
/// dictionary, or supplied by the creator.
#[derive(Debug)]
pub enum Game {
    Random,
    Custom(String),
}

/// Request to create a game.
#[derive(Debug)]
pub struct CreateGameParams {
    pub game: Game,
}

/// A freshly created game, by identifier.
#[derive(Clone, Copy, PartialEq, Eq, Debug)]
pub struct CreateGameResponse {
    pub game_id: u64,
}

/// Request to join a game under a display name.
#[derive(Debug)]
pub struct JoinGameParams {
    pub username: String,
}

/// A freshly joined player, with the board width (the solution's character
/// count) a client needs to render an empty board.
#[derive(Clone, Copy, PartialEq, Eq, Debug)]
pub struct JoinGameResponse {
    pub player: u64,
    pub length: usize,
}

/// Request to submit one guess.
#[derive(Debug)]
pub struct CreatePlayerGuessParams {
    pub guess: String,
}

/// One fully evaluated guess: the per-letter classification and whether the
/// guess won.
#[derive(PartialEq, Eq, Debug)]
pub struct PlayerGuess {
    pub letters: Vec<Letter>,
    pub is_winning_guess: bool,
}

/// The evaluation of a newly submitted guess.
#[derive(PartialEq, Eq, Debug)]
pub struct CreatePlayerGuessResponse {
    pub guess: PlayerGuess,
}

/// A player's guess history, evaluated in submission order.
#[derive(PartialEq, Eq, Debug)]
pub struct GetPlayerGuessesResponse {
    pub guesses: Vec<PlayerGuess>,
}

/// One leaderboard entry in the public score shape.
#[derive(PartialEq, Eq, Debug)]
pub struct PlayerScore {
    pub player: u64,
    pub username: String,
    pub guesses: u64,
    pub has_won: bool,
}

impl From<PlayerGuessRecord> for PlayerScore {
    fn from(value: PlayerGuessRecord) -> (r: PlayerScore) {
        PlayerScore {
            player: value.player_id,
            username: value.username,
            guesses: value.guesses,
            has_won: value.has_won,
        }
    }
}

impl vstd::std_specs::convert::FromSpecImpl<PlayerGuessRecord> for PlayerScore {
    open spec fn obeys_from_spec() -> bool {
        true
    }

    open spec fn from_spec(value: PlayerGuessRecord) -> PlayerScore {
        PlayerScore {
            player: value.player_id,
            username: value.username,
            guesses: value.guesses,
            has_won: value.has_won,
        }
    }
}

/// The ranked leaderboard of a game.
#[derive(PartialEq, Eq, Debug)]
pub struct GetGameScoresResponse {
    pub player_scores: Vec<PlayerScore>,
}

/// Why a request was rejected: the referenced game or player does not exist,
/// or the guessed word failed dictionary validation.
#[derive(Clone, Copy, PartialEq, Eq, Debug)]
pub enum GameError {
    NotFound,
    InvalidGuess,
}

} // verus!
