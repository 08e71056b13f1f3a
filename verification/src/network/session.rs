//! Applying what arrives from the network to the local game.
use vstd::prelude::*;
use crate::game::events::GameEvent;
use crate::game::model::{
    answer_applied, answer_counters_fit, answer_event, guess_applied, guess_counters_fit, guess_event, kept_game_fields, reveal_fits, turn_can_pass, turn_passed,
    Game, GuessType,
};
use crate::network::protocol::NetworkActionType;
use crate::text::chars_of;

verus! {

/// The host registers a player who joined: the next id (the number of
/// players so far) goes with the name.
pub fn register_player(connected: &mut Vec<(u32, String)>, name: String) -> (id: u32)
    ensures
        id == #[verifier::truncate] (old(connected)@.len() as u32),
        final(connected)@ == old(connected)@.push((id, name)),
{
    let id: u32 = #[verifier::truncate] (connected.len() as u32);
    connected.push((id, name));
    id
}

/// The text a player reads of an event: its own message when it has an id,
/// else the public one.
pub open spec fn viewer_text(event: GameEvent, my_id: Option<u32>) -> Seq<char> {
    match my_id {
        Some(id) => event.message_for(id),
        None => event.public_log@,
    }
}

/// The text a player reads of an event (see `viewer_text`).
pub fn message_for_viewer(event: &GameEvent, my_id: Option<u32>) -> (r: String)
    ensures
        r@ == viewer_text(*event, my_id),
{
    match my_id {
        Some(id) => event.get_message_for(id),
        None => event.public_log.clone(),
    }
}

/// The letter of a `ProposeLetter` payload: its first character, or a space.
pub open spec fn payload_letter(payload: Seq<char>) -> char {
    if payload.len() > 0 { payload[0] } else { ' ' }
}

/// What applying a received move requires of the game's counters.
pub open spec fn action_fits(game: Game, player_id: u32, action_type: NetworkActionType, target_id: Option<u32>, payload: Seq<char>) -> bool {
    &&& match target_id {
        Some(t) => match action_type {
            NetworkActionType::ProposeLetter => answer_counters_fit(game.players@, player_id, t, payload_letter(payload)),
            NetworkActionType::GuessWord => guess_counters_fit(game.players@, player_id, t, payload, false),
            NetworkActionType::Buzz => guess_counters_fit(game.players@, player_id, t, payload, true),
            NetworkActionType::PassTurn => true,
        },
        None => true,
    }
    &&& (action_type == NetworkActionType::PassTurn ==> turn_can_pass(game))
}

/// Whether a received move can be applied (see `action_fits`).
pub fn action_can_apply(game: &Game, player_id: u32, action_type: &NetworkActionType, target_id: Option<u32>, payload: &String) -> (r: bool)
    ensures
        r == action_fits(*game, player_id, *action_type, target_id, payload@),
{
    let first = match target_id {
        Some(t) => match action_type {
            NetworkActionType::ProposeLetter => {
                let cs = chars_of(payload.as_str());
                let letter = if cs.len() > 0 { cs[0] } else { ' ' };
                game.can_take_answer(player_id, t, letter)
            },
            NetworkActionType::GuessWord => game.can_take_guess(player_id, t, payload, false),
            NetworkActionType::Buzz => game.can_take_guess(player_id, t, payload, true),
            NetworkActionType::PassTurn => true,
        },
        None => true,
    };
    let second = match action_type {
        NetworkActionType::PassTurn => game.can_pass_turn(),
        _ => true,
    };
    first && second
}

/// `h` is game `g` after the move, and `r` the line to log (as read by
/// `my_id`): a proposed letter is answered at once, as if the target said
/// yes without positions; a guess or a buzz is judged; a pass moves the
/// turn on. A move without a target (but a pass) changes nothing.
pub open spec fn move_applied(g: Game, h: Game, my_id: Option<u32>, player_id: u32, action_type: NetworkActionType,
    target_id: Option<u32>, payload: Seq<char>, r: Option<String>) -> bool {
    &&& action_type != NetworkActionType::PassTurn && target_id is None ==> r is None && h == g
    &&& action_type != NetworkActionType::PassTurn && target_id is Some ==> kept_game_fields(g, h)
    &&& match (action_type, target_id) {
        (NetworkActionType::ProposeLetter, Some(t)) => {
            let letter = payload_letter(payload);
            &&& answer_applied(g.players@, h.players@, player_id, t, letter, Seq::empty())
            &&& exists|e: GameEvent| #[trigger] answer_event(e, g.players@, player_id, t, letter)
                && (r matches Some(m) && m@ == viewer_text(e, my_id))
        },
        (NetworkActionType::GuessWord, Some(t)) => exists|idx: u32, e: GameEvent|
            #[trigger] guess_event(e, g.players@, player_id, t, payload, false, idx)
            && guess_applied(g.players@, h.players@, player_id, t, payload, false, idx)
            && (r matches Some(m) && m@ == viewer_text(e, my_id)),
        (NetworkActionType::Buzz, Some(t)) => exists|idx: u32, e: GameEvent|
            #[trigger] guess_event(e, g.players@, player_id, t, payload, true, idx)
            && reveal_fits(g.players@, player_id, t, payload, true, idx)
            && guess_applied(g.players@, h.players@, player_id, t, payload, true, idx)
            && (r matches Some(m) && m@ == viewer_text(e, my_id)),
        (NetworkActionType::PassTurn, _) => {
            &&& r is Some && r->0@ == "Un joueur a passé son tour."@
            &&& turn_passed(g, h)
        },
        _ => true,
    }
}

/// Applies a move received from the network (see `move_applied`).
pub fn apply_network_action(game: &mut Game, my_id: Option<u32>, player_id: u32, action_type: NetworkActionType,
    target_id: Option<u32>, payload: String) -> (r: Option<String>)
    requires
        action_fits(*old(game), player_id, action_type, target_id, payload@),
    ensures
        move_applied(*old(game), *final(game), my_id, player_id, action_type, target_id, payload@, r),
{
    match action_type {
        NetworkActionType::ProposeLetter => {
            match target_id {
                Some(tid) => {
                    let cs = chars_of(payload.as_str());
                    let letter = if cs.len() > 0 { cs[0] } else { ' ' };
                    let told: Vec<usize> = Vec::new();
                    assert(told@ =~= Seq::<usize>::empty());
                    let event = game.resolve_inquiry(player_id, tid, letter, true, told);
                    let m = message_for_viewer(&event, my_id);
                    assert(answer_event(event, old(game).players@, player_id, tid, payload_letter(payload@)));
                    Some(m)
                }
                None => None,
            }
        }
        NetworkActionType::GuessWord => {
            match target_id {
                Some(tid) => {
                    let ghost w = payload@;
                    let event = game.process_word_guess(player_id, tid, payload, GuessType::Normal);
                    proof {
                        let buzz = GuessType::Normal is Buzz;
                        assert(!buzz);
                        let idx = choose|idx: u32| #![trigger guess_applied(old(game).players@, game.players@, player_id, tid, w, buzz, idx)]
                            guess_applied(old(game).players@, game.players@, player_id, tid, w, buzz, idx)
                            && guess_event(event, old(game).players@, player_id, tid, w, buzz, idx);
                        assert(guess_applied(old(game).players@, game.players@, player_id, tid, w, false, idx));
                        assert(guess_event(event, old(game).players@, player_id, tid, w, false, idx));
                    }
                    Some(message_for_viewer(&event, my_id))
                }
                None => None,
            }
        }
        NetworkActionType::Buzz => {
            match target_id {
                Some(tid) => {
                    let ghost w = payload@;
                    let event = game.process_word_guess(player_id, tid, payload, GuessType::Buzz);
                    proof {
                        let buzz = GuessType::Buzz is Buzz;
                        assert(buzz);
                        let idx = choose|idx: u32| #![trigger guess_applied(old(game).players@, game.players@, player_id, tid, w, buzz, idx)]
                            reveal_fits(old(game).players@, player_id, tid, w, buzz, idx)
                            && guess_applied(old(game).players@, game.players@, player_id, tid, w, buzz, idx)
                            && guess_event(event, old(game).players@, player_id, tid, w, buzz, idx);
                        assert(guess_applied(old(game).players@, game.players@, player_id, tid, w, true, idx));
                        assert(guess_event(event, old(game).players@, player_id, tid, w, true, idx));
                    }
                    Some(message_for_viewer(&event, my_id))
                }
                None => None,
            }
        }
        NetworkActionType::PassTurn => {
            game.next_turn();
            Some(String::from_str("Un joueur a passé son tour."))
        }
    }
}

/// Applies a received move (see `apply_network_action`) when the game's
/// counters can take it; `None`, with nothing changed, otherwise.
pub fn try_apply_network_action(game: &mut Game, my_id: Option<u32>, player_id: u32, action_type: NetworkActionType,
    target_id: Option<u32>, payload: String) -> (r: Option<Option<String>>)
    ensures
        !action_fits(*old(game), player_id, action_type, target_id, payload@) ==> r is None && *final(game) == *old(game),
        action_fits(*old(game), player_id, action_type, target_id, payload@) ==> (r matches Some(line)
            && move_applied(*old(game), *final(game), my_id, player_id, action_type, target_id, payload@, line)),
{
    if !action_can_apply(game, player_id, &action_type, target_id, &payload) {
        return None;
    }
    Some(apply_network_action(game, my_id, player_id, action_type, target_id, payload))
}

} // verus!
