//! Aenigma: a multiplayer word-deduction game.
//!
//! The library holds the game rules: the players' secret words, their
//! private notebooks on each opponent, investigations, guesses, buzzes,
//! powers, the turn order and the winner, as well as the computer opponent,
//! the word lists, and the decisions of the terminal front end. Everything
//! in it is verified with Verus.
pub mod chance;
pub mod game;
pub mod network;
pub mod text;
pub mod tui;
