use aenigma::game::ai::AI;
use aenigma::game::dictionary::{SubTheme, Theme};
use aenigma::game::events::GameEventType;
use aenigma::game::setup::{ai_player, new_setup_player, random_sub_theme, random_theme, set_secret_word, setup_done};
use aenigma::game::turns::{
    ai_turn_fits, answer_for_ai, end_turn, first_other_id, opponent_answer, play_ai_turn, try_answer_for_ai, AiMove,
};
use aenigma::game::{ControlType, Difficulty, Game, Player, Progress, SecretWord};
use aenigma::network::protocol::NetworkActionType;
use aenigma::network::session::{action_can_apply, apply_network_action, message_for_viewer, register_player, try_apply_network_action};
use aenigma::text::{str_contains_char, to_ascii_uppercase, u32_to_string};
use aenigma::tui::app::{
    action_label, available_actions, buzz_ready_notice, can_buzz, carousel_next, carousel_prev, check_secret_word, difficulty_for_index,
    next_focus, parse_positions, pause_menu_down, pause_menu_up, players_for_mode, powers_visible, target_choices, word_length_bounds,
    wrap_next, wrap_prev, Action, Focus,
};
use aenigma::tui::ui::{energy_bar, exposed_letters, ranking, scroll_text};

fn themes() -> Vec<Theme> {
    vec![
        Theme {
            name: "Nourriture".to_string(),
            sub_themes: vec![SubTheme { name: "Fruits".to_string(), words: vec!["POMME".to_string(), "POIRE".to_string()] }],
        },
        Theme {
            name: "Sciences".to_string(),
            sub_themes: vec![SubTheme { name: "Chimie".to_string(), words: vec!["CITRON".to_string(), "ATOME".to_string()] }],
        },
    ]
}

fn solo_game() -> Game {
    let human = Player::new(0, "Alice", SecretWord::new(0, "POMME"));
    let mut ai = Player::new(1, "IA (Ordinateur)", SecretWord::new(1, "TARTE"));
    ai.control_type = ControlType::AI;
    Game::new(vec![human, ai], Difficulty::Easy)
}

#[test]
fn text_helpers() {
    assert_eq!(u32_to_string(0), "0");
    assert_eq!(u32_to_string(4096), "4096");
    assert_eq!(to_ascii_uppercase("tarte é"), "TARTE é");
    assert!(str_contains_char("T_R", '_'));
    assert!(!str_contains_char("TAR", '_'));
}

#[test]
fn long_text_scrolls_by_one_character_every_three_frames() {
    assert_eq!(scroll_text("COURT", 10, 7), "COURT");
    assert_eq!(scroll_text("ABCDEFGH", 5, 0), "ABCDE");
    assert_eq!(scroll_text("ABCDEFGH", 5, 3), "BCDEF");
    assert_eq!(scroll_text("ABCDEFGH", 5, 27), "  ABC");
    assert_eq!(scroll_text("ABCDEFGH", 5, 33), "ABCDE");
}

#[test]
fn typed_positions_are_parsed() {
    assert_eq!(parse_positions("1, 3"), Some(vec![1, 3]));
    assert_eq!(parse_positions(" 2 ,, 5"), Some(vec![2, 5]));
    assert_eq!(parse_positions("+4"), Some(vec![4]));
    assert_eq!(parse_positions(""), None);
    assert_eq!(parse_positions(" , "), None);
    assert_eq!(parse_positions("1,x"), None);
    assert_eq!(parse_positions("99999999999999999999999"), None);
}

#[test]
fn secret_words_are_checked_for_length_and_dictionary() {
    let t = themes();
    assert_eq!(check_secret_word(&t, "pomme", Difficulty::Normal), Ok(()));
    assert_eq!(
        check_secret_word(&t, "POMME", Difficulty::Expert),
        Err("Mode Expert: Le mot doit faire entre 6 et 20 lettres.".to_string())
    );
    assert_eq!(
        check_secret_word(&t, "AB", Difficulty::Easy),
        Err("Mode Easy: Le mot doit faire entre 3 et 6 lettres.".to_string())
    );
    assert_eq!(
        check_secret_word(&t, "BANANE", Difficulty::Normal),
        Err("Mot inconnu ou mal orthographié (Limité au dictionnaire du jeu).".to_string())
    );
    assert_eq!(word_length_bounds(Difficulty::Hard), (5, 12));
}

#[test]
fn menus_go_round() {
    assert_eq!(wrap_next(3, 4), 0);
    assert_eq!(wrap_next(1, 4), 2);
    assert_eq!(wrap_prev(0, 4), 3);
    assert_eq!(pause_menu_up(0), 3);
    assert_eq!(pause_menu_down(3), 0);
    assert_eq!(carousel_next(2, 3), 0);
    assert_eq!(carousel_next(0, 1), 0);
    assert_eq!(carousel_prev(0, 3), 2);
    assert_eq!(players_for_mode(0), 2);
    assert_eq!(players_for_mode(2), 3);
    assert_eq!(players_for_mode(3), 4);
    assert_eq!(difficulty_for_index(0), Difficulty::Easy);
    assert_eq!(difficulty_for_index(7), Difficulty::Normal);
}

#[test]
fn the_focus_cycles_through_the_panels() {
    assert_eq!(next_focus(Focus::Actions, true), Focus::Powers);
    assert_eq!(next_focus(Focus::Actions, false), Focus::Notebook);
    assert_eq!(next_focus(Focus::Notebook, false), Focus::System);
    assert_eq!(next_focus(Focus::System, false), Focus::GameLog);
    assert_eq!(next_focus(Focus::GameLog, false), Focus::Actions);
    assert!(powers_visible(100, Difficulty::Hard));
    assert!(!powers_visible(100, Difficulty::Easy));
    assert!(!powers_visible(90, Difficulty::Hard));
}

#[test]
fn the_action_menu() {
    let actions = available_actions();
    assert_eq!(actions, vec![Action::ProposeLetter, Action::GuessWord, Action::Buzz, Action::SkipTurn]);
    assert_eq!(action_label(&Action::Buzz), "⚡ Buzz");
    assert_eq!(action_label(&Action::SkipTurn), "Passer son tour");
    assert!(buzz_ready_notice(100, &vec![]));
    assert!(!buzz_ready_notice(100, &actions));
    assert!(!buzz_ready_notice(99, &vec![]));
    assert!(can_buzz(100));
    assert!(!can_buzz(99));
}

#[test]
fn targets_are_the_other_players_still_in() {
    let mut game = solo_game();
    assert_eq!(target_choices(&game, 0), vec![(1, "IA (Ordinateur)".to_string())]);
    game.players[1].is_eliminated = true;
    assert!(target_choices(&game, 0).is_empty());
}

#[test]
fn the_host_numbers_players_as_they_join() {
    let mut connected = Vec::new();
    assert_eq!(register_player(&mut connected, "Alice".to_string()), 0);
    assert_eq!(register_player(&mut connected, "Bob".to_string()), 1);
    assert_eq!(connected, vec![(0, "Alice".to_string()), (1, "Bob".to_string())]);
}

#[test]
fn network_moves_are_applied() {
    let mut game = solo_game();
    assert!(action_can_apply(&game, 0, &NetworkActionType::ProposeLetter, Some(1), &"T".to_string()));
    let line = apply_network_action(&mut game, Some(0), 0, NetworkActionType::ProposeLetter, Some(1), "T".to_string());
    assert_eq!(line, Some("IA (Ordinateur) a 'T' ! (+10% Énergie)".to_string()));
    assert_eq!(game.players[0].energy, 10);
    let line = apply_network_action(&mut game, None, 0, NetworkActionType::PassTurn, None, String::new());
    assert_eq!(line, Some("Un joueur a passé son tour.".to_string()));
    assert_eq!(game.current_turn, 1);
    let line = apply_network_action(&mut game, Some(1), 0, NetworkActionType::GuessWord, Some(1), "TARTE".to_string());
    assert_eq!(line, Some("Alice a trouvé 'TARTE' ! Éliminé.".to_string()));
    assert!(game.players[1].is_eliminated);
    assert_eq!(apply_network_action(&mut game, None, 0, NetworkActionType::Buzz, None, "X".to_string()), None);
    game.players[0].energy = u32::MAX;
    assert!(!action_can_apply(&game, 0, &NetworkActionType::GuessWord, Some(1), &"TARTE".to_string()));
    assert!(action_can_apply(&game, 0, &NetworkActionType::GuessWord, Some(1), &"POIRE".to_string()));
    assert_eq!(try_apply_network_action(&mut game, None, 0, NetworkActionType::GuessWord, Some(1), "TARTE".to_string()), None);
    assert_eq!(
        try_apply_network_action(&mut game, Some(0), 0, NetworkActionType::GuessWord, Some(1), "POIRE".to_string()),
        Some(Some("Incorrect. Ce n'est pas 'POIRE'.".to_string()))
    );
}

#[test]
fn a_viewer_reads_its_own_message() {
    let mut game = solo_game();
    let e = game.initiate_inquiry(0, 1, 'E');
    assert_eq!(message_for_viewer(&e, Some(0)), e.get_message_for(0));
    assert_eq!(message_for_viewer(&e, None), e.public_log);
}

#[test]
fn the_computer_answers_truthfully_with_positions() {
    let game = solo_game();
    assert_eq!(opponent_answer(&game, 1, 'T'), (true, vec![1, 4]));
    assert_eq!(opponent_answer(&game, 1, 'Z'), (false, vec![]));
    assert_eq!(opponent_answer(&game, 5, 'T'), (false, vec![]));
    let mut game = solo_game();
    let e = answer_for_ai(&mut game, 0, 'E');
    assert_eq!(e.event_type, GameEventType::LetterFound);
    assert_eq!(game.players[0].progress_on_opponents.get(&1).unwrap().mask, "____E");
    game.players[0].turns_played = u32::MAX;
    assert!(try_answer_for_ai(&mut game, 0, 'Z').is_none());
    assert!(try_answer_for_ai(&mut game, 0, 'T').is_some());
    assert_eq!(game.players[0].progress_on_opponents.get(&1).unwrap().mask, "T__TE");
    assert_eq!(first_other_id(&game.players, 0, 7), 1);
    assert_eq!(first_other_id(&game.players[..1].to_vec(), 0, 7), 7);
}

#[test]
fn the_computer_asks_a_person_and_waits() {
    let mut game = solo_game();
    game.current_turn = 1;
    let mut ai = Some(AI::new(Difficulty::Hard));
    assert!(ai_turn_fits(&game));
    match play_ai_turn(&mut game, &mut ai, &vec![]) {
        AiMove::Asked { target_id, letter, event } => {
            assert_eq!(target_id, 0);
            assert_eq!(letter, 'E');
            assert_eq!(event.event_type, GameEventType::InquiryInitiated);
        }
        _ => panic!("the person should be asked"),
    }
    assert_eq!(ai.unwrap().tried_letters, vec!['E']);
}

#[test]
fn the_computer_finishes_a_word_it_uncovered() {
    let mut game = solo_game();
    for p in game.players.iter_mut() {
        p.control_type = ControlType::AI;
    }
    for c in ['P', 'O', 'M'] {
        game.resolve_inquiry(1, 0, c, true, vec![]);
    }
    game.current_turn = 1;
    let mut ai = Some(AI::new(Difficulty::Hard));
    match play_ai_turn(&mut game, &mut ai, &vec![]) {
        AiMove::Answered { target_id, event, finish } => {
            assert_eq!(target_id, 0);
            assert_eq!(event.event_type, GameEventType::LetterFound);
            let finish = finish.expect("the word is uncovered");
            assert_eq!(finish.event_type, GameEventType::WordGuessed);
        }
        _ => panic!("the computer should be answered"),
    }
    assert!(game.players[0].is_eliminated);
    assert_eq!(game.players[1].score, 3);
}

#[test]
fn the_computer_guesses_a_sure_word() {
    let mut game = solo_game();
    game.players[0].control_type = ControlType::AI;
    for c in ['P', 'O', 'M'] {
        game.resolve_inquiry(1, 0, c, true, vec![]);
    }
    game.current_turn = 1;
    let mut ai = Some(AI::new(Difficulty::Expert));
    match play_ai_turn(&mut game, &mut ai, &vec!["POMME".to_string(), "POMPE".to_string(), "TARTE".to_string()]) {
        AiMove::Guessed { target_id, event } => {
            assert_eq!(target_id, 0);
            assert_eq!(event.event_type, GameEventType::WordGuessed);
        }
        _ => panic!("the computer should guess"),
    }
    let mut none: Option<AI> = None;
    let mut game = solo_game();
    game.current_turn = 1;
    match play_ai_turn(&mut game, &mut none, &vec![]) {
        AiMove::Asked { letter, .. } => assert_eq!(letter, '?'),
        _ => panic!("without a state the computer asks for '?'"),
    }
}

#[test]
fn ending_a_turn_finds_the_winner() {
    let mut game = solo_game();
    assert_eq!(end_turn(&mut game), None);
    assert_eq!(game.current_turn, 1);
    assert_eq!(game.players[1].energy, 10);
    game.players[0].is_eliminated = true;
    assert_eq!(end_turn(&mut game), Some(1));
    assert!(game.is_over);
}

#[test]
fn setting_up_players() {
    let mut p = new_setup_player(2, "Zoé");
    assert_eq!(p.id, 2);
    assert_eq!(p.secret_word.content, "????");
    assert_eq!(p.secret_word.theme, "Inconnu");
    set_secret_word(&mut p, "CITRON", "Sciences");
    assert_eq!(p.secret_word.content, "CITRON");
    assert_eq!(p.secret_word.length, 6);
    assert_eq!(p.secret_word.theme, "Sciences");
    assert!(setup_done(true, 1, 2));
    assert!(!setup_done(false, 1, 2));
    assert!(setup_done(false, 2, 2));
}

#[test]
fn the_computer_draws_its_word() {
    let t = themes();
    let mut human = new_setup_player(0, "Alice");
    set_secret_word(&mut human, "POMME", "Nourriture");
    let ai = ai_player(&t, Difficulty::Easy, &vec![human]);
    assert_eq!(ai.id, 1);
    assert_eq!(ai.name, "IA (Ordinateur)");
    assert_eq!(ai.control_type, ControlType::AI);
    assert_eq!(ai.secret_word.theme, "Nourriture");
    assert!(ai.secret_word.content == "POMME" || ai.secret_word.content == "POIRE");
    let hard = ai_player(&t, Difficulty::Hard, &vec![]);
    assert!(["POMME", "POIRE", "CITRON", "ATOME"].contains(&hard.secret_word.content.as_str()));
    let empty = ai_player(&vec![], Difficulty::Normal, &vec![]);
    assert_eq!(empty.secret_word.theme, "Technologie");
    assert_eq!(empty.secret_word.content, "MYSTERE");
    assert!(["Nourriture", "Sciences"].contains(&random_theme(&t).as_str()));
    assert_eq!(random_theme(&vec![]), "Technologie");
    assert_eq!(random_sub_theme(&t, "Sciences"), Some("Chimie".to_string()));
    assert_eq!(random_sub_theme(&t, "Inconnu"), None);
}

#[test]
fn the_energy_gauge_has_eight_cells() {
    assert_eq!(energy_bar(0), "░░░░░░░░");
    assert_eq!(energy_bar(13), "██░░░░░░");
    assert_eq!(energy_bar(100), "████████");
}

#[test]
fn exposed_letters_are_those_found_or_shown() {
    let mut nb = Progress::new(5, Difficulty::Normal);
    nb.found_letters = vec!['m'];
    assert_eq!(exposed_letters("pomme", &nb), vec![false, false, true, true, false]);
    nb.length_known = true;
    nb.mask = "P___E".to_string();
    assert_eq!(exposed_letters("pomme", &nb), vec![true, false, true, true, true]);
}

#[test]
fn the_ranking_follows_the_scores_then_the_seats() {
    let mut players = vec![
        Player::new(0, "A", SecretWord::new(0, "UN")),
        Player::new(1, "B", SecretWord::new(1, "DEUX")),
        Player::new(2, "C", SecretWord::new(2, "TROIS")),
        Player::new(3, "D", SecretWord::new(3, "QUATRE")),
    ];
    players[0].score = 3;
    players[1].score = 5;
    players[2].score = 3;
    players[3].score = 0;
    assert_eq!(ranking(&players), vec![1, 0, 2, 3]);
    assert!(ranking(&vec![]).is_empty());
}
