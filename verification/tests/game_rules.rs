use aenigma::game::events::GameEventType;
use aenigma::game::{Difficulty, Game, GuessType, Player, PowerType, Progress, SecretWord};

fn three_players(difficulty: Difficulty) -> Game {
    let p1 = Player::new(1, "Alice", SecretWord::new(1, "POMME"));
    let p2 = Player::new(2, "Bob", SecretWord::new(2, "TARTE"));
    let p3 = Player::new(3, "Charlie", SecretWord::new(3, "CITRON"));
    Game::new(vec![p1, p2, p3], difficulty)
}

fn notebook(game: &Game, owner: usize, on: u32) -> &Progress {
    game.players[owner].progress_on_opponents.get(&on).expect("notebook")
}

#[test]
fn secret_word_is_stored_in_upper_case_with_its_byte_length() {
    let w = SecretWord::new(7, "pomme");
    assert_eq!(w.id, 7);
    assert_eq!(w.content, "POMME");
    assert_eq!(w.length, 5);
    assert_eq!(w.theme, "Général");
    assert_eq!(w.difficulty_score, 1);
    let accented = SecretWord::new(8, "café");
    assert_eq!(accented.content, "CAFé");
    assert_eq!(accented.length, 5);
}

#[test]
fn fresh_notebooks_depend_on_difficulty() {
    let easy = Progress::new(5, Difficulty::Easy);
    assert_eq!(easy.mask, "_____");
    assert!(easy.length_known && easy.positions_known);
    let normal = Progress::new(5, Difficulty::Normal);
    assert_eq!(normal.mask, "???");
    assert!(!normal.length_known && !normal.positions_known);
    assert!(normal.found_letters.is_empty() && normal.missed_letters.is_empty());
}

#[test]
fn new_game_opens_a_notebook_on_every_opponent() {
    let game = three_players(Difficulty::Easy);
    assert_eq!(game.current_turn, 0);
    assert!(!game.is_over);
    for (i, p) in game.players.iter().enumerate() {
        assert_eq!(p.progress_on_opponents.len(), 2);
        assert!(!p.progress_on_opponents.contains_key(&p.id));
        for q in &game.players {
            if q.id != p.id {
                let nb = notebook(&game, i, q.id);
                assert_eq!(nb.mask.chars().count(), q.secret_word.length as usize);
            }
        }
    }
}

#[test]
fn next_turn_skips_eliminated_players_and_gives_energy() {
    let mut game = three_players(Difficulty::Normal);
    game.players[1].is_eliminated = true;
    game.next_turn();
    assert_eq!(game.current_turn, 2);
    assert_eq!(game.current_player().id, 3);
    assert_eq!(game.players[2].energy, 10);
    assert_eq!(game.players[0].energy, 0);
    game.players[0].energy = 95;
    game.next_turn();
    assert_eq!(game.current_player().id, 1);
    assert_eq!(game.players[0].energy, 100);
}

#[test]
fn round_counts_full_rounds() {
    let mut game = three_players(Difficulty::Normal);
    assert_eq!(game.get_current_round(), 1);
    game.current_turn = 3;
    assert_eq!(game.get_current_round(), 2);
    assert_eq!(game.get_player_name(2), "Bob");
    assert_eq!(game.get_player_name(9), "Inconnu");
}

#[test]
fn last_player_standing_wins() {
    let mut game = three_players(Difficulty::Normal);
    assert_eq!(game.check_for_winner(), None);
    assert!(!game.is_over);
    game.players[0].is_eliminated = true;
    game.players[2].is_eliminated = true;
    assert_eq!(game.check_for_winner(), Some(2));
    assert!(game.is_over);
    assert!(game.final_duration.is_some());
}

#[test]
fn inquiry_is_announced_without_changing_the_game() {
    let mut game = three_players(Difficulty::Normal);
    let e = game.initiate_inquiry(1, 2, 'A');
    assert_eq!(e.event_type, GameEventType::InquiryInitiated);
    assert_eq!(e.public_log, "Alice interroge Bob sur la lettre 'A'...");
    assert_eq!(e.get_message_for(1), "Vous demandez à Bob s'il possède la lettre 'A'. En attente de réponse...");
    assert_eq!(e.get_message_for(2), "Alice vous demande : 'Avez-vous la lettre A dans votre mot ?'");
    let missing = game.initiate_inquiry(1, 9, 'A');
    assert_eq!(missing.event_type, GameEventType::Error);
    assert_eq!(missing.public_log, "Cible introuvable");
}

#[test]
fn a_present_letter_is_noted_with_its_positions() {
    let mut game = three_players(Difficulty::Normal);
    let e = game.resolve_inquiry(1, 2, 'T', true, vec![1, 4]);
    assert_eq!(e.event_type, GameEventType::LetterFound);
    assert_eq!(e.public_log, "Bob : J'ai 'T'");
    assert_eq!(e.get_message_for(1), "Bob a 'T' ! (+10% Énergie)");
    assert_eq!(e.get_message_for(2), "Moi : J'ai 'T'");
    let nb = notebook(&game, 0, 2);
    assert_eq!(nb.found_letters, vec!['T']);
    assert_eq!(nb.found_letter_positions, vec![('T', vec![1, 4])]);
    assert_eq!(nb.mask, "???");
    assert_eq!(game.players[0].energy, 10);
    assert_eq!(game.players[0].turns_played, 0);
}

#[test]
fn an_absent_letter_is_noted_as_missed_whatever_was_claimed() {
    let mut game = three_players(Difficulty::Normal);
    let e = game.resolve_inquiry(1, 2, 'Z', true, vec![3]);
    assert_eq!(e.event_type, GameEventType::LetterNotFound);
    assert_eq!(e.public_log, "Bob : Pas de 'Z'");
    assert_eq!(e.get_message_for(1), "Bob n'a pas 'Z'.");
    let nb = notebook(&game, 0, 2);
    assert_eq!(nb.missed_letters, vec!['Z']);
    assert!(nb.found_letters.is_empty());
    assert_eq!(game.players[0].energy, 0);
    assert_eq!(game.players[0].turns_played, 1);
}

#[test]
fn letters_are_kept_sorted_and_listed_once() {
    let mut game = three_players(Difficulty::Normal);
    game.resolve_inquiry(1, 2, 'T', true, vec![]);
    game.resolve_inquiry(1, 2, 'A', true, vec![]);
    game.resolve_inquiry(1, 2, 'T', true, vec![]);
    game.resolve_inquiry(1, 2, 'Z', false, vec![]);
    game.resolve_inquiry(1, 2, 'B', false, vec![]);
    let nb = notebook(&game, 0, 2);
    assert_eq!(nb.found_letters, vec!['A', 'T']);
    assert_eq!(nb.missed_letters, vec!['B', 'Z']);
    assert!(nb.found_letter_positions.is_empty());
}

#[test]
fn shown_positions_uncover_the_mask_in_easy_mode() {
    let mut game = three_players(Difficulty::Easy);
    game.resolve_inquiry(1, 2, 'T', true, vec![]);
    assert_eq!(notebook(&game, 0, 2).mask, "T__T_");
    assert!(notebook(&game, 0, 2).found_letters.is_empty());
}

#[test]
fn answers_for_unknown_players_are_errors() {
    let mut game = three_players(Difficulty::Normal);
    let e = game.resolve_inquiry(1, 9, 'A', true, vec![]);
    assert_eq!(e.event_type, GameEventType::Error);
    assert_eq!(e.public_log, "Erreur : Adversaire non trouvé.");
    let e = game.resolve_inquiry(9, 2, 'A', true, vec![]);
    assert_eq!(e.event_type, GameEventType::Error);
    assert_eq!(e.public_log, "Erreur interne");
}

#[test]
fn an_investigation_changes_the_inquirer_alone() {
    let mut game = three_players(Difficulty::Normal);
    let before_bob = format!("{:?}", game.players[1]);
    let before_charlie = format!("{:?}", game.players[2]);
    game.process_letter_proposal(1, 2, 'R');
    assert_eq!(format!("{:?}", game.players[1]), before_bob);
    assert_eq!(format!("{:?}", game.players[2]), before_charlie);
    assert_eq!(notebook(&game, 0, 2).found_letter_positions, vec![('R', vec![3])]);
}

#[test]
fn a_letter_proposal_with_an_absent_letter() {
    let mut game = three_players(Difficulty::Normal);
    let e = game.process_letter_proposal(1, 2, 'Z');
    assert_eq!(e.event_type, GameEventType::LetterNotFound);
    assert_eq!(e.public_log, "Alice n'a pas trouvé la lettre 'Z' chez Bob.");
    assert_eq!(e.get_message_for(1), "Pas de 'Z' chez Bob.");
    assert_eq!(e.get_message_for(2), "Alice a cherché la lettre 'Z' chez vous, sans succès.");
}

#[test]
fn a_correct_guess_eliminates_and_scores() {
    let mut game = three_players(Difficulty::Normal);
    let e = game.process_word_guess(1, 2, "  tarte ".to_string(), GuessType::Normal);
    assert_eq!(e.event_type, GameEventType::WordGuessed);
    assert_eq!(e.public_log, "Alice 💀 Bob (Mot trouvé !)");
    assert_eq!(e.get_message_for(1), "Succès ! Bob éliminé. (+50% Énergie !)");
    assert_eq!(e.get_message_for(2), "Alice a trouvé 'TARTE' ! Éliminé.");
    assert!(game.players[1].is_eliminated);
    assert_eq!(game.players[0].score, 3);
    assert_eq!(game.players[0].energy, 50);
    assert_eq!(game.players[0].correct_guesses, 1);
    assert_eq!(game.players[0].turns_played, 1);
    for owner in [0usize, 2] {
        let nb = notebook(&game, owner, 2);
        assert_eq!(nb.mask, "TARTE");
        assert!(nb.length_known && nb.positions_known);
    }
}

#[test]
fn a_correct_buzz_scores_a_bonus() {
    let mut game = three_players(Difficulty::Normal);
    game.players[0].energy = 100;
    let e = game.process_word_guess(1, 2, "TARTE".to_string(), GuessType::Buzz);
    assert_eq!(e.event_type, GameEventType::WordGuessed);
    assert_eq!(e.public_log, "Alice ⚡💀 Bob (BUZZ !)");
    assert_eq!(game.players[0].score, 4);
    assert_eq!(game.players[0].energy, 100);
}

#[test]
fn a_wrong_guess_eliminates_nobody() {
    let mut game = three_players(Difficulty::Normal);
    let e = game.process_word_guess(1, 2, "POIRE".to_string(), GuessType::Normal);
    assert_eq!(e.event_type, GameEventType::LetterNotFound);
    assert_eq!(e.public_log, "Alice : Mot raté sur Bob");
    assert_eq!(e.get_message_for(1), "Incorrect. Ce n'est pas 'POIRE'.");
    assert_eq!(e.get_message_for(2), "Alice a raté le mot 'POIRE'.");
    assert!(game.players.iter().all(|p| !p.is_eliminated));
    assert_eq!(game.players[0].score, 0);
    assert_eq!(game.players[0].turns_played, 1);
}

#[test]
fn a_failed_buzz_reveals_a_letter_to_everybody() {
    let mut game = three_players(Difficulty::Normal);
    game.players[0].energy = 100;
    let e = game.process_word_guess(1, 2, "POIRE".to_string(), GuessType::Buzz);
    assert_eq!(e.event_type, GameEventType::BuzzFailed);
    assert_eq!(game.players[0].energy, 0);
    let bob = notebook(&game, 1, 1).clone();
    let charlie = notebook(&game, 2, 1).clone();
    assert_eq!(bob.mask, charlie.mask);
    assert!(bob.length_known && bob.positions_known);
    let shown: Vec<(usize, char)> = bob.mask.chars().enumerate().filter(|(_, c)| *c != '_').collect();
    assert_eq!(shown.len(), 1);
    let (i, c) = shown[0];
    assert_eq!("POMME".chars().nth(i), Some(c));
    assert!(e.get_message_for(1).contains(&format!("Pénalité : '{}' révélé.", c)));
    assert_eq!(e.get_message_for(2), format!("Alice a raté son BUZZ ! Il révèle '{}'.", c));
    assert_eq!(e.public_log, "Alice ⚡❌ Bob (BUZZ RATÉ ! Une lettre est révélée)");
}

#[test]
fn a_guess_on_an_unknown_player_is_an_error() {
    let mut game = three_players(Difficulty::Normal);
    let e = game.process_word_guess(1, 9, "TARTE".to_string(), GuessType::Normal);
    assert_eq!(e.event_type, GameEventType::Error);
    assert_eq!(e.public_log, "Erreur : Adversaire non trouvé.");
    assert_eq!(game.players[0].turns_played, 0);
}

#[test]
fn powers_need_half_the_energy() {
    let mut game = three_players(Difficulty::Normal);
    game.players[0].energy = 40;
    let e = game.use_power(1, 2, PowerType::Revelation);
    assert_eq!(e.event_type, GameEventType::Error);
    assert_eq!(e.public_log, "Pas assez d'énergie ! (Requis: 50%)");
    assert_eq!(game.players[0].energy, 40);
}

#[test]
fn revelation_shows_the_length_with_the_known_letters() {
    let mut game = three_players(Difficulty::Normal);
    game.resolve_inquiry(1, 2, 'T', true, vec![1, 4]);
    game.players[0].energy = 100;
    let e = game.use_power(1, 2, PowerType::Revelation);
    assert_eq!(e.event_type, GameEventType::PowerUsed);
    assert_eq!(e.public_log, "Alice a utilisé le pouvoir Révélation sur Bob !");
    assert_eq!(e.get_message_for(1), "RÉVÉLATION : Le mot de Bob fait 5 lettres.");
    assert_eq!(e.get_message_for(2), "Alice a utilisé RÉVÉLATION sur vous ! Il connaît la longueur de votre mot.");
    assert_eq!(game.players[0].energy, 50);
    let nb = notebook(&game, 0, 2);
    assert!(nb.length_known);
    assert_eq!(nb.mask, "T__T_");
    let again = game.use_power(1, 2, PowerType::Revelation);
    assert_eq!(again.get_message_for(1), "RÉVÉLATION : Vous connaissiez déjà la longueur.");
    assert_eq!(again.get_message_for(2), "");
    assert_eq!(game.players[0].energy, 0);
}

#[test]
fn voyance_tells_whether_a_letter_is_there() {
    let mut game = three_players(Difficulty::Easy);
    game.players[0].energy = 100;
    let e = game.use_power(1, 2, PowerType::Voyance('t'));
    assert_eq!(e.public_log, "Alice a utilisé le pouvoir Voyance sur Bob !");
    assert_eq!(e.get_message_for(1), "VOYANCE : La lettre 'T' est présente !");
    assert_eq!(e.get_message_for(2), "Alice a utilisé VOYANCE sur la lettre 'T' et l'a trouvée !");
    let nb = notebook(&game, 0, 2);
    assert_eq!(nb.mask, "T__T_");
    assert_eq!(nb.found_letters, vec!['T']);
    assert_eq!(nb.found_letter_positions, vec![('T', vec![1, 4])]);
    let e = game.use_power(1, 2, PowerType::Voyance('z'));
    assert_eq!(e.get_message_for(1), "VOYANCE : La lettre 'Z' est ABSENTE.");
    assert_eq!(e.get_message_for(2), "Alice a utilisé VOYANCE sur la lettre 'Z' (Absente).");
    assert_eq!(notebook(&game, 0, 2).missed_letters, vec!['Z']);
}

#[test]
fn a_power_on_an_unknown_target_still_costs_energy() {
    let mut game = three_players(Difficulty::Normal);
    game.players[0].energy = 60;
    let e = game.use_power(1, 9, PowerType::Revelation);
    assert_eq!(e.event_type, GameEventType::Error);
    assert_eq!(e.public_log, "Cible introuvable");
    assert_eq!(game.players[0].energy, 10);
}

#[test]
fn threat_level_combines_what_the_opponents_know() {
    let mut game = three_players(Difficulty::Easy);
    assert_eq!(game.get_threat_level(2), "_____");
    game.resolve_inquiry(1, 2, 'T', true, vec![]);
    game.resolve_inquiry(3, 2, 'E', true, vec![]);
    assert_eq!(game.get_threat_level(2), "T__TE");
    assert_eq!(game.get_threat_level(9), "???");
    let hidden = three_players(Difficulty::Normal);
    assert_eq!(hidden.get_threat_level(2), "_____");
}

#[test]
fn counters_are_checked_before_moves() {
    let mut game = three_players(Difficulty::Normal);
    assert!(game.can_take_answer(1, 2, 'A'));
    assert!(game.can_take_guess(1, 2, &"TARTE".to_string(), true));
    assert!(game.can_pass_turn());
    game.players[0].energy = u32::MAX;
    assert!(!game.can_take_answer(1, 2, 'A'));
    assert!(game.can_take_answer(1, 2, 'Z'));
    assert!(!game.can_take_guess(1, 2, &"TARTE".to_string(), false));
    assert!(game.can_take_guess(1, 2, &"POIRE".to_string(), false));
    assert!(game.can_take_answer(9, 2, 'A'));
    assert!(game.try_resolve_inquiry(1, 2, 'A', true, vec![]).is_none());
    assert!(game.try_word_guess(1, 2, "TARTE".to_string(), GuessType::Normal).is_none());
    assert_eq!(game.players[0].energy, u32::MAX);
    assert!(game.try_letter_proposal(1, 2, 'Z').is_some());
    assert_eq!(game.players[0].turns_played, 1);
    assert!(game.can_pass_turn());
    game.players[1].energy = u32::MAX;
    assert!(!game.can_pass_turn());
    game.players[1].is_eliminated = true;
    assert!(game.can_pass_turn());
}

#[test]
fn a_power_changes_its_user_alone() {
    let mut game = three_players(Difficulty::Normal);
    game.players[0].energy = 100;
    let bob = format!("{:?}", game.players[1]);
    let charlie = format!("{:?}", game.players[2]);
    game.use_power(1, 2, PowerType::Voyance('e'));
    assert_eq!(format!("{:?}", game.players[1]), bob);
    assert_eq!(format!("{:?}", game.players[2]), charlie);
    assert_eq!(game.players[0].energy, 50);
}

#[test]
fn a_failed_buzz_reveals_the_chosen_place() {
    let mut game = three_players(Difficulty::Normal);
    game.players[0].energy = 100;
    let e = game.process_word_guess_with(1, 2, "POIRE".to_string(), GuessType::Buzz, 2);
    assert_eq!(e.get_message_for(1), "BUZZ RATÉ ! Ce n'est pas 'POIRE'. Pénalité : 'M' révélé.");
    assert_eq!(e.get_message_for(2), "Alice a raté son BUZZ ! Il révèle 'M'.");
    assert_eq!(notebook(&game, 1, 1).mask, "__M__");
    assert_eq!(notebook(&game, 2, 1).mask, "__M__");
    assert_eq!(game.players[0].energy, 0);
    assert_eq!(game.players[0].turns_played, 1);
}
