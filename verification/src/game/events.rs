//! What an action produced, and who gets to read which message about it.
use std::collections::HashMap;
use vstd::prelude::*;

verus! {

broadcast use vstd::std_specs::hash::group_hash_axioms;

/// The kind of outcome an action had.
#[derive(Debug, Clone, PartialEq, Eq, Structural)]
pub enum GameEventType {
    LetterFound,
    LetterNotFound,
    WordGuessed,
    BuzzFailed,
    TurnPassed,
    PowerUsed,
    Error,
    InquiryInitiated,
}

/// The outcome of one action: a message everybody may read, and private
/// messages for some players that take its place for them.
#[derive(Debug, Clone)]
pub struct GameEvent {
    pub event_type: GameEventType,
    pub public_log: String,
    pub private_logs: HashMap<u32, String>,
    pub actor_id: u32,
    pub target_id: Option<u32>,
}

impl GameEvent {
    /// The text that player `player_id` reads for this event: its private
    /// message if it has one, else the public one.
    pub open spec fn message_for(self, player_id: u32) -> Seq<char> {
        if self.private_logs@.contains_key(player_id) {
            self.private_logs@[player_id]@
        } else {
            self.public_log@
        }
    }

    /// An event with no private message yet.
    pub fn new(event_type: GameEventType, actor_id: u32, target_id: Option<u32>, public_log: String) -> (r: GameEvent)
        ensures
            r.event_type == event_type,
            r.actor_id == actor_id,
            r.target_id == target_id,
            r.public_log == public_log,
            r.private_logs@ == Map::<u32, String>::empty(),
    {
        GameEvent {
            event_type,
            public_log,
            private_logs: HashMap::new(),
            actor_id,
            target_id,
        }
    }

    /// The same event, where `player_id` now reads `message` (replacing any
    /// private message it had).
    pub fn with_private_log(self, player_id: u32, message: String) -> (r: GameEvent)
        ensures
            r.event_type == self.event_type,
            r.actor_id == self.actor_id,
            r.target_id == self.target_id,
            r.public_log == self.public_log,
            r.private_logs@ == self.private_logs@.insert(player_id, message),
    {
        let mut e = self;
        e.private_logs.insert(player_id, message);
        e
    }

    /// The text that player `player_id` reads for this event.
    pub fn get_message_for(&self, player_id: u32) -> (r: String)
        ensures
            r@ == self.message_for(player_id),
    {
        match self.private_logs.get(&player_id) {
            Some(msg) => msg.clone(),
            None => self.public_log.clone(),
        }
    }
}

/// A private message written for a player is what that player reads, and
/// what every other player reads is unchanged.
pub proof fn law_private_log_read_back(e: GameEvent, r: GameEvent, player_id: u32, message: String, other: u32)
    requires
        r.public_log == e.public_log,
        r.private_logs@ == e.private_logs@.insert(player_id, message),
        other != player_id,
    ensures
        r.message_for(player_id) == message@,
        r.message_for(other) == e.message_for(other),
{
}

} // verus!
