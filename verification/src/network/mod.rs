//! What the players' programs send each other, and how a received action
//! is applied to the local game.
pub mod protocol;
pub mod session;
