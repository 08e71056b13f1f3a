//! What the game's operations make of a game, as their contracts state it,
//! gathered for the front end's screen flow.
use vstd::prelude::*;
use crate::game::ai::{ai_decision, AIAction, AI};
use crate::game::events::{GameEvent, GameEventType};
use crate::game::model::{
    Game, GuessType, POWER_COST, PowerType, Progress, active_count, answer_applied, answer_counters_fit, answer_event,
    error_is, event_is, guess_applied, guess_counters_fit, guess_event, has_player, index_of, kept_game_fields, name_of,
    notebook_base, player_after, power_actor_msg, power_applied, power_notebook, power_public, power_refused,
    power_target_msg, reveal_fits, threat_of, turn_passed,
};
use crate::game::turns::{ai_move_done, current_id, first_other, positions_told, AiMove};
use crate::text::{unicode_upper, views};

verus! {

/// `h` and `r` are what `Game::use_power` makes of `g`.
pub open spec fn power_outcome(g: Game, h: Game, current_player_id: u32, target_id: u32, power_type: PowerType, r: GameEvent) -> bool {
    &&& (kept_game_fields(g, h))
    &&& (h.players.len() == g.players.len())
    &&& (power_applied(g.players@, h.players@, current_player_id, target_id, power_type))
    &&& (power_refused(g.players@, current_player_id) ==> h.players@ == g.players@)
    &&& (power_refused(g.players@, current_player_id) ==> error_is(r, current_player_id, target_id, "Pas assez d'énergie ! (Requis: 50%)"@))
    &&& (!power_refused(g.players@, current_player_id) ==> forall|i: int| 0 <= i < g.players.len()
                && i != index_of(g.players@, current_player_id) ==> #[trigger] h.players[i] == g.players[i])
    &&& (!power_refused(g.players@, current_player_id) && !has_player(g.players@, target_id) ==> {
                &&& has_player(g.players@, current_player_id) ==> {
                    let a = index_of(g.players@, current_player_id);
                    let p = g.players[a];
                    player_after(p, h.players[a], target_id, None, (p.energy - POWER_COST) as u32, p.score, p.turns_played, p.correct_guesses)
                }
                &&& error_is(r, current_player_id, target_id, "Cible introuvable"@)
            })
    &&& (!power_refused(g.players@, current_player_id) && has_player(g.players@, target_id) && !has_player(g.players@, current_player_id) ==> {
                let ps = g.players@;
                event_is(r, GameEventType::PowerUsed, current_player_id, target_id,
                    power_public(name_of(ps, current_player_id), power_type, ps[index_of(ps, target_id)].name@),
                    Seq::<char>::empty(), Seq::<char>::empty())
            })
    &&& (!power_refused(g.players@, current_player_id) && has_player(g.players@, target_id) && has_player(g.players@, current_player_id) ==> {
                let ps = g.players@;
                let a = index_of(ps, current_player_id);
                let t = index_of(ps, target_id);
                let len = ps[t].secret_word.length;
                let secret = unicode_upper(ps[t].secret_word.content@);
                let aname = name_of(ps, current_player_id);
                let tname = ps[t].name@;
                exists|b: Progress, q: Progress| #[trigger] notebook_base(ps[a], target_id, len as nat, b)
                    && #[trigger] power_notebook(power_type, b, q, len as nat, secret)
                    && player_after(ps[a], h.players[a], target_id, Some(q), (ps[a].energy - POWER_COST) as u32,
                        ps[a].score, ps[a].turns_played, ps[a].correct_guesses)
                    && event_is(r, GameEventType::PowerUsed, current_player_id, target_id, power_public(aname, power_type, tname),
                        power_actor_msg(power_type, b, tname, len, secret), power_target_msg(power_type, b, aname, secret))
            })
}

/// `h` and `r` are what `Game::try_word_guess` makes of `g`.
pub open spec fn guess_outcome(g: Game, h: Game, current_player_id: u32, target_id: u32, guessed_word: String, guess_type: GuessType, r: Option<GameEvent>) -> bool {
    &&& (!guess_counters_fit(g.players@, current_player_id, target_id, guessed_word@, guess_type is Buzz) ==> r is None
                && h == g)
    &&& (guess_counters_fit(g.players@, current_player_id, target_id, guessed_word@, guess_type is Buzz) ==> {
                &&& kept_game_fields(g, h)
                &&& r matches Some(e) && exists|idx: u32| #![trigger guess_applied(g.players@, h.players@, current_player_id, target_id, guessed_word@, guess_type is Buzz, idx)]
                    reveal_fits(g.players@, current_player_id, target_id, guessed_word@, guess_type is Buzz, idx)
                    && guess_applied(g.players@, h.players@, current_player_id, target_id, guessed_word@, guess_type is Buzz, idx)
                    && guess_event(e, g.players@, current_player_id, target_id, guessed_word@, guess_type is Buzz, idx)
            })
}

/// `h` and `r` are what `Game::try_resolve_inquiry` makes of `g`.
pub open spec fn answer_outcome(g: Game, h: Game, current_player_id: u32, target_id: u32, letter: char, claimed_has_letter: bool, proof: Vec<usize>, r: Option<GameEvent>) -> bool {
    &&& (!answer_counters_fit(g.players@, current_player_id, target_id, letter) ==> r is None && h == g)
    &&& (answer_counters_fit(g.players@, current_player_id, target_id, letter) ==> {
                &&& kept_game_fields(g, h)
                &&& answer_applied(g.players@, h.players@, current_player_id, target_id, letter, proof@)
                &&& r matches Some(e) && answer_event(e, g.players@, current_player_id, target_id, letter)
            })
}

/// `h` and `r` are what `Game::check_for_winner` makes of `g`.
pub open spec fn winner_outcome(g: Game, h: Game, r: Option<u32>) -> bool {
    &&& (h.players == g.players)
    &&& (h.current_turn == g.current_turn)
    &&& (h.mode == g.mode)
    &&& (h.difficulty == g.difficulty)
    &&& (h.start_time == g.start_time)
    &&& ((r is Some) <==> active_count(g.players@) == 1)
    &&& (active_count(g.players@) == 1 ==> exists|i: int|
                0 <= i < g.players.len() && !g.players[i].is_eliminated && r == Some(#[trigger] g.players[i].id))
    &&& (if active_count(g.players@) == 1 && g.final_duration is None {
                h.is_over && h.final_duration is Some
            } else {
                h.is_over == g.is_over && h.final_duration == g.final_duration
            })
}

/// `h` and `r` are what `try_answer_for_ai` makes of `g`.
pub open spec fn ai_answer_outcome(g: Game, h: Game, attacker_id: u32, letter: char, r: Option<GameEvent>) -> bool {
    &&& (({
            let ps = g.players@;
            let target = first_other(ps, attacker_id, 1);
            if answer_counters_fit(ps, attacker_id, target, letter) {
                &&& kept_game_fields(g, h)
                &&& answer_applied(ps, h.players@, attacker_id, target, letter, positions_told(ps, target, letter))
                &&& r matches Some(e) && answer_event(e, ps, attacker_id, target, letter)
            } else {
                r is None && h == g
            }
        }))
}

/// `h` and `r` are what `end_turn` makes of `g`.
pub open spec fn end_turn_outcome(g: Game, h: Game, r: Option<u32>) -> bool {
    &&& (turn_passed(g, Game { is_over: g.is_over, final_duration: g.final_duration, ..h }))
    &&& ((r is Some) <==> active_count(h.players@) == 1)
    &&& (r matches Some(w) ==> exists|i: int| 0 <= i < h.players.len() && !h.players[i].is_eliminated
            && w == #[trigger] h.players[i].id)
    &&& (r is Some && g.final_duration is None ==> h.is_over && h.final_duration is Some)
    &&& (r is None ==> h.is_over == g.is_over && h.final_duration == g.final_duration)
}

/// `h`, `b` and `r` are what `play_ai_turn` makes of `g` and `a`, for the
/// words `words`.
pub open spec fn ai_turn_outcome(g: Game, h: Game, a: Option<AI>, b: Option<AI>, words: Seq<Seq<char>>, r: AiMove) -> bool {
    &&& (kept_game_fields(g, h))
    &&& (({
            let ps = g.players@;
            let actor = current_id(g);
            let target = first_other(ps, actor, 0);
            match a {
                Some(a) => (b) matches Some(b) && b.difficulty == a.difficulty
                    && exists|act: AIAction| #[trigger] ai_decision(a.difficulty, a.tried_letters@, b.tried_letters@,
                        threat_of(ps, target), words, act)
                        && ai_move_done(ps, h.players@, actor, target, act, r),
                None => (b) is None && ai_move_done(ps, h.players@, actor, target, AIAction::ProposeLetter('?'), r),
            }
        }))
}

} // verus!
