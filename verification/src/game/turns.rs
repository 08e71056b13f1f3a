//! A turn of play as the front end runs it: the computer opponent's move,
//! its answer to an inquiry, and the passing of the turn.
use vstd::prelude::*;
use crate::game::ai::{ai_decision, AIAction, AI};
use crate::game::events::GameEvent;
use crate::game::model::{
    active_count, answer_applied, answer_counters_fit, answer_event, guess_applied, guess_counters_fit, guess_event,
    guess_points, has_player, index_of, inquiry_applicable, inquiry_event, is_first_with_id, kept_game_fields, lemma_index_of, letter_in_word_of,
    letter_positions, positions_of, threat_of, turn_can_pass, turn_passed, word_of, ControlType, Game, GuessType, Player,
};
use crate::text::{chars_of, str_contains_char, to_uppercase, vec_contains_char, views};

verus! {

/// The id of the first player whose id is not `id`, or `default` when
/// there is none.
pub open spec fn first_other(ps: Seq<Player>, id: u32, default: u32) -> u32
    decreases ps.len(),
{
    if ps.len() == 0 {
        default
    } else if ps[0].id != id {
        ps[0].id
    } else {
        first_other(ps.drop_first(), id, default)
    }
}

/// The id of the first player whose id is not `id`, or `default`.
pub fn first_other_id(players: &Vec<Player>, id: u32, default: u32) -> (r: u32)
    ensures
        r == first_other(players@, id, default),
{
    let mut i: usize = 0;
    assert(players@.skip(0) =~= players@);
    while i < players.len()
        invariant
            i <= players.len(),
            first_other(players@, id, default) == first_other(players@.skip(i as int), id, default),
        decreases players.len() - i,
    {
        if players[i].id != id {
            return players[i].id;
        }
        assert(players@.skip(i + 1) =~= players@.skip(i as int).drop_first());
        i = i + 1;
    }
    assert(players@.skip(players.len() as int) =~= Seq::<Player>::empty());
    default
}

/// The (first) player with id `id` is played by a person.
pub open spec fn is_human(ps: Seq<Player>, id: u32) -> bool {
    has_player(ps, id) && ps[index_of(ps, id)].control_type == ControlType::Human
}

/// The word of the (first) player with id `id`, as written, or nothing.
pub open spec fn word_content(ps: Seq<Player>, id: u32) -> Seq<char> {
    if has_player(ps, id) { ps[index_of(ps, id)].secret_word.content@ } else { Seq::empty() }
}

/// What the computer opponent did on its turn.
pub enum AiMove {
    /// It asked a person for a letter: the answer is awaited.
    Asked { target_id: u32, letter: char, event: GameEvent },
    /// It asked another computer player, who answered at once; `finish` is
    /// the guess that followed when the word was then wholly uncovered.
    Answered { target_id: u32, event: GameEvent, finish: Option<GameEvent> },
    /// It guessed a word.
    Guessed { target_id: u32, event: GameEvent },
}

/// The counters of the player who moves can take the move and what may
/// follow it (an answer, then a guess).
pub open spec fn ai_counters_fit(ps: Seq<Player>, actor: u32, target: u32) -> bool {
    has_player(ps, actor) ==> {
        let a = ps[index_of(ps, actor)];
        &&& a.energy <= u32::MAX - 60
        &&& a.turns_played < u32::MAX - 1
        &&& a.correct_guesses < u32::MAX
        &&& has_player(ps, target) ==> a.score + guess_points(ps, target, false) <= u32::MAX
    }
}

/// The players `qs` and the outcome `r` after `actor` made `action`
/// against `target`: a guess is judged; a letter is asked for, and unless
/// a person has to answer it is answered at once (truthfully, without
/// positions), after which a word wholly uncovered is guessed.
pub open spec fn ai_move_done(ps: Seq<Player>, qs: Seq<Player>, actor: u32, target: u32, action: AIAction, r: AiMove) -> bool {
    match action {
        AIAction::GuessWord(w) => r matches AiMove::Guessed { target_id, event } && target_id == target
            && exists|idx: u32| #[trigger] guess_applied(ps, qs, actor, target, w@, false, idx)
                && guess_event(event, ps, actor, target, w@, false, idx),
        AIAction::ProposeLetter(l) => if is_human(ps, target) {
            r matches AiMove::Asked { target_id, letter, event } && target_id == target && letter == l && qs == ps
                && inquiry_event(event, ps, actor, target, l)
        } else {
            r matches AiMove::Answered { target_id, event, finish } && target_id == target
                && exists|mid: Seq<Player>| #[trigger] answer_applied(ps, mid, actor, target, l, Seq::empty())
                    && answer_event(event, ps, actor, target, l)
                    && if !threat_of(mid, target).contains('_') {
                        finish matches Some(f) && exists|idx: u32| #[trigger] guess_applied(mid, qs, actor, target, word_content(mid, target), false, idx)
                            && guess_event(f, mid, actor, target, word_content(mid, target), false, idx)
                    } else {
                        finish is None && qs == mid
                    }
        },
    }
}

/// Players with the same ids, seat by seat, are looked up alike.
pub proof fn lemma_same_ids(ps: Seq<Player>, qs: Seq<Player>, id: u32)
    requires
        qs.len() == ps.len(),
        forall|i: int| 0 <= i < ps.len() ==> #[trigger] qs[i].id == ps[i].id,
    ensures
        has_player(qs, id) == has_player(ps, id),
        has_player(ps, id) ==> index_of(qs, id) == index_of(ps, id),
{
    if has_player(ps, id) {
        let i = choose|i: int| 0 <= i < ps.len() && ps[i].id == id;
        assert(qs[i].id == id);
        lemma_index_of(ps, id);
        lemma_index_of(qs, id);
        let a = index_of(ps, id);
        let b = index_of(qs, id);
        assert(is_first_with_id(ps, id, a));
        assert(is_first_with_id(qs, id, b));
        if a < b {
            assert(qs[a].id == id);
        } else if b < a {
            assert(ps[b].id == id);
        }
    } else if has_player(qs, id) {
        let i = choose|i: int| 0 <= i < qs.len() && qs[i].id == id;
        assert(ps[i].id == id);
    }
}

/// Plays `action` for `actor` against `target` (see `ai_move_done`).
fn play_ai_action(game: &mut Game, actor: u32, target: u32, action: AIAction) -> (r: AiMove)
    requires
        ai_counters_fit(old(game).players@, actor, target),
    ensures
        kept_game_fields(*old(game), *final(game)),
        ai_move_done(old(game).players@, final(game).players@, actor, target, action, r),
{
    let ghost ps = game.players@;
    match action {
        AIAction::GuessWord(word) => {
            let ghost w = word@;
            let event = game.process_word_guess(actor, target, word, GuessType::Normal);
            proof {
                let buzz = GuessType::Normal is Buzz;
                assert(!buzz);
                let idx = choose|idx: u32| #![trigger guess_applied(ps, game.players@, actor, target, w, buzz, idx)]
                    guess_applied(ps, game.players@, actor, target, w, buzz, idx) && guess_event(event, ps, actor, target, w, buzz, idx);
                assert(guess_applied(ps, game.players@, actor, target, w, false, idx));
                assert(guess_event(event, ps, actor, target, w, false, idx));
            }
            AiMove::Guessed { target_id: target, event }
        },
        AIAction::ProposeLetter(letter) => {
            let asked = game.initiate_inquiry(actor, target, letter);
            let human = match game.find_player(target) {
                Some(t) => match game.players[t].control_type {
                    ControlType::Human => true,
                    ControlType::AI => false,
                },
                None => false,
            };
            if human {
                return AiMove::Asked { target_id: target, letter, event: asked };
            }
            let told: Vec<usize> = Vec::new();
            assert(told@ =~= Seq::<usize>::empty());
            let event = game.resolve_inquiry(actor, target, letter, true, told);
            let ghost mid = game.players@;
            assert(answer_applied(ps, mid, actor, target, letter, Seq::empty()));
            let threat = game.get_threat_level(target);
            if str_contains_char(threat.as_str(), '_') {
                return AiMove::Answered { target_id: target, event, finish: None };
            }
            proof {
                assert forall|i: int| 0 <= i < ps.len() implies #[trigger] mid[i].id == ps[i].id by {
                    if inquiry_applicable(ps, actor, target) && i == index_of(ps, actor) {
                        lemma_index_of(ps, actor);
                    }
                }
                lemma_same_ids(ps, mid, actor);
                lemma_same_ids(ps, mid, target);
                if has_player(ps, actor) {
                    lemma_index_of(ps, actor);
                    let a = index_of(ps, actor);
                    assert(mid[a].energy <= u32::MAX - 50);
                    if has_player(ps, target) {
                        lemma_index_of(ps, target);
                        let t = index_of(ps, target);
                        assert(mid[t].secret_word == ps[t].secret_word);
                    }
                }
                assert(guess_counters_fit(mid, actor, target, word_content(mid, target), false));
            }
            let secret = match game.find_player(target) {
                Some(t) => game.players[t].secret_word.content.clone(),
                None => String::new(),
            };
            let ghost w = secret@;
            assert(w == word_content(mid, target));
            let finish = game.process_word_guess(actor, target, secret, GuessType::Normal);
            proof {
                let buzz = GuessType::Normal is Buzz;
                assert(!buzz);
                let idx = choose|idx: u32| #![trigger guess_applied(mid, game.players@, actor, target, w, buzz, idx)]
                    guess_applied(mid, game.players@, actor, target, w, buzz, idx) && guess_event(finish, mid, actor, target, w, buzz, idx);
                assert(guess_applied(mid, game.players@, actor, target, w, false, idx));
                assert(guess_event(finish, mid, actor, target, w, false, idx));
            }
            AiMove::Answered { target_id: target, event, finish: Some(finish) }
        },
    }
}

/// The id of the player whose turn it is.
pub open spec fn current_id(g: Game) -> u32 {
    g.players@[(g.current_turn % g.players.len()) as int].id
}

/// Whether the computer opponent's turn can be played (what `play_ai_turn`
/// requires).
pub fn ai_turn_fits(game: &Game) -> (r: bool)
    ensures
        r == (game.players.len() > 0 && ai_counters_fit(game.players@, current_id(*game),
            first_other(game.players@, current_id(*game), 0))),
{
    if game.players.len() == 0 {
        return false;
    }
    let actor = game.current_player().id;
    let target = first_other_id(&game.players, actor, 0);
    match game.find_player(actor) {
        Some(a) => {
            let p = &game.players[a];
            let points_fit = match game.find_player(target) {
                Some(t) => (p.score as u64) + 2 + (game.players[t].secret_word.difficulty_score as u64) <= u32::MAX as u64,
                None => true,
            };
            p.energy <= u32::MAX - 60 && p.turns_played < u32::MAX - 1 && p.correct_guesses < u32::MAX && points_fit
        },
        None => true,
    }
}

/// The computer opponent whose turn it is plays against the first other
/// player: it looks at how much of that player's word is uncovered, decides
/// (see `ai_decision`; without an opponent state it asks for `?`), and the
/// move is played (see `ai_move_done`).
pub fn play_ai_turn(game: &mut Game, ai: &mut Option<AI>, words: &Vec<String>) -> (r: AiMove)
    requires
        old(game).players.len() > 0,
        ai_counters_fit(old(game).players@, current_id(*old(game)), first_other(old(game).players@, current_id(*old(game)), 0)),
    ensures
        kept_game_fields(*old(game), *final(game)),
        ({
            let ps = old(game).players@;
            let actor = current_id(*old(game));
            let target = first_other(ps, actor, 0);
            match *old(ai) {
                Some(a) => (*final(ai)) matches Some(b) && b.difficulty == a.difficulty
                    && exists|act: AIAction| #[trigger] ai_decision(a.difficulty, a.tried_letters@, b.tried_letters@,
                        threat_of(ps, target), views(words@), act)
                        && ai_move_done(ps, final(game).players@, actor, target, act, r),
                None => (*final(ai)) is None && ai_move_done(ps, final(game).players@, actor, target, AIAction::ProposeLetter('?'), r),
            }
        }),
{
    let actor = game.current_player().id;
    let target = first_other_id(&game.players, actor, 0);
    let threat = game.get_threat_level(target);
    let action = match ai {
        Some(a) => a.decide_action(threat.as_str(), words),
        None => AIAction::ProposeLetter('?'),
    };
    play_ai_action(game, actor, target, action)
}

/// What the computer player `opponent_id` answers about `letter`: whether
/// its word (read in upper case) has it, and its 1-based positions.
pub fn opponent_answer(game: &Game, opponent_id: u32, letter: char) -> (r: (bool, Vec<usize>))
    ensures
        has_player(game.players@, opponent_id) ==> {
            let w = word_of(game.players@, opponent_id);
            &&& r.0 == w.contains(letter)
            &&& r.1@ == if w.contains(letter) { positions_of(w, letter) } else { Seq::empty() }
        },
        !has_player(game.players@, opponent_id) ==> !r.0 && r.1@.len() == 0,
{
    match game.find_player(opponent_id) {
        Some(i) => {
            let w = chars_of(to_uppercase(game.players[i].secret_word.content.as_str()).as_str());
            let has = vec_contains_char(&w, letter);
            if has {
                (true, letter_positions(&w, letter))
            } else {
                (false, Vec::new())
            }
        },
        None => (false, Vec::new()),
    }
}

/// The positions a computer player gives with its answer: those of the
/// letter in its word (read in upper case) when it has it.
pub open spec fn positions_told(ps: Seq<Player>, id: u32, letter: char) -> Seq<usize> {
    if has_player(ps, id) && letter_in_word_of(ps, id, letter) { positions_of(word_of(ps, id), letter) } else { Seq::empty() }
}

/// The computer player answers the inquiry of `attacker_id` about `letter`
/// (the player asked is the first one other than the inquirer, or id 1):
/// truthfully, with the positions of the letter.
pub fn answer_for_ai(game: &mut Game, attacker_id: u32, letter: char) -> (r: GameEvent)
    requires
        answer_counters_fit(old(game).players@, attacker_id, first_other(old(game).players@, attacker_id, 1), letter),
    ensures
        kept_game_fields(*old(game), *final(game)),
        ({
            let ps = old(game).players@;
            let target = first_other(ps, attacker_id, 1);
            &&& answer_applied(ps, final(game).players@, attacker_id, target, letter, positions_told(ps, target, letter))
            &&& answer_event(r, ps, attacker_id, target, letter)
        }),
{
    let target = first_other_id(&game.players, attacker_id, 1);
    let (has, positions) = opponent_answer(game, target, letter);
    game.resolve_inquiry(attacker_id, target, letter, has, positions)
}

/// The computer player answers (see `answer_for_ai`) when the inquirer's
/// counters can take the answer; `None`, with nothing changed, otherwise.
pub fn try_answer_for_ai(game: &mut Game, attacker_id: u32, letter: char) -> (r: Option<GameEvent>)
    ensures
        ({
            let ps = old(game).players@;
            let target = first_other(ps, attacker_id, 1);
            if answer_counters_fit(ps, attacker_id, target, letter) {
                &&& kept_game_fields(*old(game), *final(game))
                &&& answer_applied(ps, final(game).players@, attacker_id, target, letter, positions_told(ps, target, letter))
                &&& r matches Some(e) && answer_event(e, ps, attacker_id, target, letter)
            } else {
                r is None && *final(game) == *old(game)
            }
        }),
{
    let target = first_other_id(&game.players, attacker_id, 1);
    if !game.can_take_answer(attacker_id, target, letter) {
        return None;
    }
    Some(answer_for_ai(game, attacker_id, letter))
}

/// The turn passes (see `turn_passed`), then the winner is looked for:
/// with one player left in, the game is over.
pub fn end_turn(game: &mut Game) -> (r: Option<u32>)
    requires
        turn_can_pass(*old(game)),
    ensures
        turn_passed(*old(game), Game { is_over: old(game).is_over, final_duration: old(game).final_duration, ..*final(game) }),
        (r is Some) <==> active_count(final(game).players@) == 1,
        r matches Some(w) ==> exists|i: int| 0 <= i < final(game).players.len() && !final(game).players[i].is_eliminated
            && w == #[trigger] final(game).players[i].id,
        r is Some && old(game).final_duration is None ==> final(game).is_over && final(game).final_duration is Some,
        r is None ==> final(game).is_over == old(game).is_over && final(game).final_duration == old(game).final_duration,
{
    game.next_turn();
    game.check_for_winner()
}

} // verus!
