use aenigma::game::dictionary::{validate_word, SubTheme, Theme};
use aenigma::game::model::table_record;
use aenigma::game::{ControlType, Difficulty, Game, Player, SecretWord};
use aenigma::network::protocol::NetworkMessage;
use aenigma::tui::app::{Action, AppState, Focus};
use aenigma::tui::flow::{opening_state, ui_step, Key, UiEffect, UiEvent, UiState};
use aenigma::tui::ui::{scroll_text, status_of};

fn themes() -> Vec<Theme> {
    vec![Theme {
        name: "Nourriture".to_string(),
        sub_themes: vec![SubTheme { name: "Fruits".to_string(), words: vec!["POMME".to_string(), "POIRE".to_string()] }],
    }]
}

fn key(s: &mut UiState, k: Key) -> Vec<UiEffect> {
    ui_step(s, &themes(), UiEvent::Key(k))
}

fn duel(my_id: Option<u32>) -> UiState {
    let alice = Player::new(0, "Alice", SecretWord::new(0, "POMME"));
    let bob = Player::new(1, "Bob", SecretWord::new(1, "POIRE"));
    let mut s = opening_state();
    s.game = Some(Game::new(vec![alice, bob], Difficulty::Normal));
    s.screen = AppState::Playing;
    s.my_id = my_id;
    s
}

#[test]
fn opening_screen_lists_the_menu() {
    let s = opening_state();
    assert_eq!(s.screen, AppState::Welcome);
    assert!(s.running);
    assert_eq!(s.actions, vec![Action::ProposeLetter, Action::GuessWord, Action::Buzz, Action::SkipTurn]);
    assert_eq!(s.setup_items.len(), 4);
}

#[test]
fn welcome_cursor_stops_at_the_ends_and_third_entry_quits() {
    let mut s = opening_state();
    key(&mut s, Key::Up);
    assert_eq!(s.welcome_sel, 0);
    key(&mut s, Key::Down);
    key(&mut s, Key::Down);
    key(&mut s, Key::Down);
    assert_eq!(s.welcome_sel, 2);
    key(&mut s, Key::Enter);
    assert!(!s.running);
}

#[test]
fn solo_setup_goes_to_the_theme_method() {
    let mut s = opening_state();
    key(&mut s, Key::Enter);
    assert_eq!(s.screen, AppState::Setup);
    key(&mut s, Key::Enter);
    assert!(s.is_solo);
    assert_eq!(s.total_players, 2);
    assert_eq!(s.setup_step, 1);
    assert_eq!(s.setup_sel, 1);
    assert_eq!(s.setup_items, vec!["Facile", "Normal", "Difficile", "Expert"]);
    key(&mut s, Key::Enter);
    assert_eq!(s.difficulty, Difficulty::Normal);
    assert_eq!(s.screen, AppState::SetupThemeSelectionMethod);
    assert_eq!(s.setup_items.len(), 3);
}

#[test]
fn multiplayer_host_asks_for_a_host_then_a_name() {
    let mut s = opening_state();
    key(&mut s, Key::Down);
    key(&mut s, Key::Enter);
    assert_eq!(s.screen, AppState::MultiplayerMenu);
    let fx = key(&mut s, Key::Enter);
    assert!(matches!(fx.as_slice(), [UiEffect::HostGame]));
    assert!(s.is_host);
    ui_step(&mut s, &themes(), UiEvent::Connection { ok: false, error: "refusée".to_string() });
    assert_eq!(s.error_message, Some("Erreur connexion: refusée".to_string()));
    ui_step(&mut s, &themes(), UiEvent::Connection { ok: true, error: String::new() });
    assert_eq!(s.screen, AppState::MultiplayerNameInput);
    assert!(s.networked);
}

#[test]
fn acting_out_of_turn_is_refused() {
    let mut s = duel(Some(1));
    key(&mut s, Key::Enter);
    assert_eq!(s.last_result, "Ce n'est pas votre tour !");
    assert!(!s.last_success);
    assert_eq!(s.screen, AppState::Playing);
}

#[test]
fn buzz_without_full_energy_is_logged_and_refused() {
    let mut s = duel(Some(0));
    s.playing_sel = 2;
    key(&mut s, Key::Enter);
    assert_eq!(s.log, vec!["⚠️ Buzz non prêt (0%)".to_string()]);
    assert_eq!(s.screen, AppState::Playing);
}

#[test]
fn refused_buzz_keeps_the_last_ten_lines() {
    let mut s = duel(Some(0));
    s.log = (0..10).map(|i| format!("ligne {}", i)).collect();
    s.playing_sel = 2;
    key(&mut s, Key::Enter);
    assert_eq!(s.log.len(), 10);
    assert_eq!(s.log[0], "ligne 1");
    assert_eq!(s.log[9], "⚠️ Buzz non prêt (0%)");
}

#[test]
fn single_target_is_taken_at_once() {
    let mut s = duel(Some(0));
    s.playing_sel = 0;
    key(&mut s, Key::Enter);
    assert_eq!(s.screen, AppState::InputLetter);
    assert_eq!(s.selected_target, Some(1));
    key(&mut s, Key::Char('e'));
    key(&mut s, Key::Char('x'));
    assert_eq!(s.input, vec!['E']);
}

#[test]
fn asking_the_computer_waits_for_its_answer() {
    let mut s = duel(Some(0));
    if let Some(g) = &mut s.game {
        g.players[1].control_type = ControlType::AI;
    }
    s.playing_sel = 0;
    key(&mut s, Key::Enter);
    key(&mut s, Key::Char('o'));
    let fx = key(&mut s, Key::Enter);
    assert!(matches!(fx.as_slice(), [UiEffect::ThinkingClock]));
    assert_eq!(s.screen, AppState::TurnResult);
    assert_eq!(s.pending_inquiry, Some((0, 'O')));
    assert_eq!(s.last_result, "Interrogatoire en cours...");
    let fx = ui_step(&mut s, &themes(), UiEvent::Tick { thinking_done: true, result_done: false });
    assert!(matches!(fx.as_slice(), [UiEffect::ResultClock]));
    assert!(s.last_success);
    assert_eq!(s.pending_inquiry, None);
    ui_step(&mut s, &themes(), UiEvent::Tick { thinking_done: false, result_done: true });
    assert_eq!(s.screen, AppState::Playing);
    assert_eq!(s.game.as_ref().map(|g| g.current_turn), Some(1));
    assert!(s.log.contains(&"> [Tour 1]".to_string()));
}

#[test]
fn empty_letter_is_refused() {
    let mut s = duel(Some(0));
    s.screen = AppState::InputLetter;
    key(&mut s, Key::Enter);
    assert_eq!(s.input_error, Some("Veuillez entrer une lettre.".to_string()));
}

#[test]
fn skipping_passes_the_turn_and_logs_the_round() {
    let mut s = duel(Some(0));
    s.playing_sel = 3;
    key(&mut s, Key::Enter);
    assert_eq!(s.log, vec!["> [Tour 1]".to_string()]);
    assert_eq!(s.game.as_ref().map(|g| g.current_turn), Some(1));
}

#[test]
fn tab_moves_the_focus_and_q_asks_to_quit() {
    let mut s = duel(Some(0));
    key(&mut s, Key::Tab);
    assert_eq!(s.focus, Focus::Notebook);
    key(&mut s, Key::Char('q'));
    assert_eq!(s.screen, AppState::ConfirmQuit);
    assert_eq!(s.pause_index, 1);
    key(&mut s, Key::Esc);
    assert_eq!(s.screen, AppState::Playing);
    assert_eq!(s.previous, None);
    assert_eq!(s.pause_index, 1);
}

#[test]
fn status_column_names_the_last_one_standing() {
    let mut a = Player::new(0, "A", SecretWord::new(0, "POMME"));
    let mut b = Player::new(1, "B", SecretWord::new(1, "POIRE"));
    b.is_eliminated = true;
    a.score = 0;
    b.score = 5;
    let players = vec![a, b];
    let order = vec![1, 0];
    assert_eq!(status_of(&players, &order, 0), "ÉLIMINÉ");
    assert_eq!(status_of(&players, &order, 1), "VAINQUEUR");
    let c = Player::new(2, "C", SecretWord::new(2, "KIWI"));
    let players = vec![players[0].clone(), players[1].clone(), c];
    assert_eq!(status_of(&players, &vec![0, 1, 2], 0), "ACTIF");
}

#[test]
fn marquee_repeats_after_the_text_and_its_spaces() {
    let text = "ABCDEFGH";
    for frame in [0usize, 4, 17] {
        assert_eq!(scroll_text(text, 5, frame), scroll_text(text, 5, frame + 3 * (8 + 3)));
        assert_eq!(scroll_text(text, 5, frame).chars().count(), 5);
    }
    assert_eq!(scroll_text("COURT", 9, 40), "COURT");
}

#[test]
fn lower_case_ascii_words_are_found_in_the_dictionary() {
    assert!(validate_word(&themes(), "pomme"));
    assert!(!validate_word(&themes(), "banane"));
}

#[test]
fn positions_table_keeps_one_entry_per_letter() {
    let mut t: Vec<(char, Vec<usize>)> = Vec::new();
    table_record(&mut t, 'A', vec![1]);
    table_record(&mut t, 'B', vec![2]);
    table_record(&mut t, 'A', vec![1, 3]);
    assert_eq!(t, vec![('A', vec![1, 3]), ('B', vec![2])]);
}

#[test]
fn host_welcomes_who_joins() {
    let mut s = opening_state();
    s.is_host = true;
    let fx = ui_step(&mut s, &themes(), UiEvent::Network(NetworkMessage::Join { name: "Bob".to_string() }));
    assert_eq!(s.connected, vec![(0, "Bob".to_string())]);
    assert_eq!(s.log, vec!["[Hôte] Bob a rejoint (ID: 0)".to_string()]);
    match fx.as_slice() {
        [UiEffect::Send(NetworkMessage::Welcome { player_id, players })] => {
            assert_eq!(*player_id, 0);
            assert_eq!(players, &vec!["Bob".to_string()]);
        }
        _ => panic!("the host should welcome the newcomer"),
    }
}

#[test]
fn welcome_gives_the_newcomer_its_id() {
    let mut s = opening_state();
    s.my_name = "Bob".to_string();
    let players = vec!["Alice".to_string(), "Bob".to_string()];
    ui_step(&mut s, &themes(), UiEvent::Network(NetworkMessage::Welcome { player_id: 1, players }));
    assert_eq!(s.my_id, Some(1));
    assert_eq!(s.connected, vec![(0, "Alice".to_string()), (1, "Bob".to_string())]);
    assert_eq!(s.log, vec!["[Réseau] Bob a rejoint la partie !".to_string(), "Vous êtes connecté avec l'ID 1".to_string()]);
}

#[test]
fn a_client_ignores_joins_and_takes_the_hosts_game() {
    let mut s = opening_state();
    let fx = ui_step(&mut s, &themes(), UiEvent::Network(NetworkMessage::Join { name: "Bob".to_string() }));
    assert!(fx.is_empty());
    assert!(s.connected.is_empty());
    let game = duel(None).game.unwrap();
    let fx = ui_step(&mut s, &themes(), UiEvent::Network(NetworkMessage::GameInit(game)));
    assert!(matches!(fx.as_slice(), [UiEffect::GameClock]));
    assert_eq!(s.screen, AppState::Playing);
    assert_eq!(s.log, vec!["[Réseau] La partie commence !".to_string()]);
}
