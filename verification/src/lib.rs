//! A multiplayer word-guessing game server core.
//!
//! Players join a game bound to a secret word and submit guesses; each guess
//! is classified letter by letter (`Correct`, `InTheWord`, `Wrong`) against
//! the solution, and a leaderboard ranks players by win status and guess
//! count. This crate holds the guess evaluator, the dictionary of playable
//! words, the game/player/guess store and the session layer that ties them
//! together; network and database plumbing lives outside it.

pub mod game;
