//! The messages exchanged over the network.
use vstd::prelude::*;
use crate::game::Game;

verus! {

/// A message between the host and the clients.
#[derive(Debug, Clone)]
pub enum NetworkMessage {
    /// A player asks to join under a name.
    Join { name: String },
    /// The id given to a player, and the names of everybody.
    Welcome { player_id: u32, players: Vec<String> },
    /// The game as the host set it up.
    GameInit(Game),
    GameStart,
    /// A move by a player.
    Action { player_id: u32, action_type: NetworkActionType, target_id: Option<u32>, payload: String },
    StateUpdate { current_turn: usize, logs: Vec<String> },
    GameOver { winner_id: u32, winner_name: String },
    Chat { sender: String, content: String },
}

/// The kind of a move sent over the network.
#[derive(Debug, Clone, PartialEq, Eq, Structural)]
pub enum NetworkActionType {
    ProposeLetter,
    GuessWord,
    Buzz,
    PassTurn,
}

} // verus!
