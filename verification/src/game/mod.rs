//! The game itself: rules and state, events, word lists, and the computer
//! opponent.
pub mod ai;
pub mod dictionary;
pub mod events;
pub mod laws;
pub mod model;
pub mod setup;
pub mod turns;

pub use self::model::{ControlType, Difficulty, Game, GameMode, GuessType, Player, PlayerStatus, PowerType, Progress, Rarity, SecretWord};
