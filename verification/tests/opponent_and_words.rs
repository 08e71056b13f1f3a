use std::collections::HashSet;

use aenigma::game::ai::{most_telling_letter, AIAction, AI};
use aenigma::game::dictionary::{
    get_all_themes, get_all_words, get_random_word, get_sub_themes, get_suggestions, theme_word_pool, validate_word, SubTheme,
    Theme,
};
use aenigma::game::events::{GameEvent, GameEventType};
use aenigma::game::Difficulty;

fn sub(name: &str, words: &[&str]) -> SubTheme {
    SubTheme { name: name.to_string(), words: words.iter().map(|w| w.to_string()).collect() }
}

fn themes() -> Vec<Theme> {
    vec![
        Theme {
            name: "Nourriture".to_string(),
            sub_themes: vec![
                sub("Fruits", &["POMME", "POIRE", "PRUNE", "PECHE", "PAPAYE", "POMELO", "POMME"]),
                sub("Desserts", &["TARTE", "GATEAU", "PUDDING"]),
            ],
        },
        Theme { name: "Sciences".to_string(), sub_themes: vec![sub("Chimie", &["CITRON", "ATOME"])] },
        Theme { name: "Vide".to_string(), sub_themes: vec![] },
    ]
}

fn words(ws: &[&str]) -> Vec<String> {
    ws.iter().map(|w| w.to_string()).collect()
}

#[test]
fn an_event_reads_its_private_message_or_the_public_one() {
    let e = GameEvent::new(GameEventType::TurnPassed, 1, Some(2), "public".to_string())
        .with_private_log(1, "pour 1".to_string())
        .with_private_log(1, "encore pour 1".to_string());
    assert_eq!(e.actor_id, 1);
    assert_eq!(e.target_id, Some(2));
    assert_eq!(e.get_message_for(1), "encore pour 1");
    assert_eq!(e.get_message_for(2), "public");
    assert_eq!(e.private_logs.len(), 1);
}

#[test]
fn a_new_opponent_has_tried_nothing() {
    let ai = AI::new(Difficulty::Hard);
    assert_eq!(ai.difficulty, Difficulty::Hard);
    assert!(ai.tried_letters.is_empty());
}

#[test]
fn a_hard_opponent_asks_by_frequency_and_never_twice() {
    let mut ai = AI::new(Difficulty::Hard);
    assert_eq!(ai.guess_letter("???"), 'E');
    assert_eq!(ai.guess_letter("???"), 'S');
    assert_eq!(ai.guess_letter("???"), 'A');
    assert_eq!(ai.tried_letters, vec!['E', 'S', 'A']);
}

#[test]
fn an_easy_opponent_asks_for_all_letters_once() {
    let mut ai = AI::new(Difficulty::Easy);
    let mut seen = HashSet::new();
    for _ in 0..26 {
        let c = ai.guess_letter("???");
        assert!(c.is_ascii_uppercase());
        assert!(seen.insert(c), "letter {} asked twice", c);
    }
    assert_eq!(ai.guess_letter("???"), 'A');
    assert_eq!(ai.tried_letters.len(), 26);
}

#[test]
fn an_unknown_length_means_asking_for_a_letter() {
    let mut ai = AI::new(Difficulty::Expert);
    match ai.decide_action("???", &words(&["TARTE"])) {
        AIAction::ProposeLetter(c) => assert_eq!(c, 'E'),
        AIAction::GuessWord(_) => panic!("no guess without the length"),
    }
}

#[test]
fn a_sure_hard_opponent_guesses_the_lone_candidate() {
    let mut ai = AI::new(Difficulty::Hard);
    match ai.decide_action("TAR_E", &words(&["TARTE", "POIRE", "TARTES"])) {
        AIAction::GuessWord(w) => assert_eq!(w, "TARTE"),
        AIAction::ProposeLetter(c) => panic!("asked {}", c),
    }
    assert!(ai.tried_letters.is_empty());
}

#[test]
fn an_unsure_hard_opponent_asks_for_a_missing_letter() {
    let mut ai = AI::new(Difficulty::Hard);
    match ai.decide_action("T____", &words(&["TARTE", "POIRE"])) {
        AIAction::ProposeLetter(c) => assert_eq!(c, 'A'),
        AIAction::GuessWord(w) => panic!("guessed {}", w),
    }
    assert_eq!(ai.tried_letters, vec!['A']);
}

#[test]
fn a_hard_opponent_asks_for_the_most_telling_letter() {
    let mut ai = AI::new(Difficulty::Hard);
    match ai.decide_action("_____", &words(&["POMME", "PRUNE", "PECHE"])) {
        AIAction::ProposeLetter(c) => assert_eq!(c, 'E'),
        AIAction::GuessWord(w) => panic!("guessed {}", w),
    }
}

#[test]
fn a_normal_opponent_guesses_among_two_candidates() {
    let mut ai = AI::new(Difficulty::Normal);
    match ai.decide_action("P___E", &words(&["POMME", "POIRE", "TARTE"])) {
        AIAction::GuessWord(w) => assert!(w == "POMME" || w == "POIRE"),
        AIAction::ProposeLetter(c) => panic!("asked {}", c),
    }
}

#[test]
fn themes_and_sub_themes_are_listed_in_order() {
    let t = themes();
    assert_eq!(get_all_themes(&t), vec!["Nourriture", "Sciences", "Vide"]);
    assert_eq!(get_sub_themes(&t, "Nourriture"), vec!["Fruits", "Desserts"]);
    assert!(get_sub_themes(&t, "Inconnu").is_empty());
    assert!(get_sub_themes(&t, "Vide").is_empty());
}

#[test]
fn all_words_come_theme_after_theme() {
    let t = themes();
    let all = get_all_words(&t);
    assert_eq!(all.len(), 12);
    assert_eq!(all[0], "POMME");
    assert_eq!(all[7], "TARTE");
    assert_eq!(all[11], "ATOME");
}

#[test]
fn a_word_is_valid_in_any_case() {
    let t = themes();
    assert!(validate_word(&t, "tarte"));
    assert!(validate_word(&t, "Atome"));
    assert!(!validate_word(&t, "banane"));
}

#[test]
fn word_pools_follow_theme_and_sub_theme() {
    let t = themes();
    assert_eq!(theme_word_pool(&t, "Nourriture", Some("Desserts")), vec!["TARTE", "GATEAU", "PUDDING"]);
    assert_eq!(theme_word_pool(&t, "Nourriture", Some("Général (Tous)")).len(), 10);
    assert_eq!(theme_word_pool(&t, "Nourriture", None).len(), 10);
    assert!(theme_word_pool(&t, "Nourriture", Some("Boissons")).is_empty());
    assert!(theme_word_pool(&t, "Inconnu", None).is_empty());
}

#[test]
fn a_random_word_comes_from_its_pool() {
    let t = themes();
    for _ in 0..20 {
        let w = get_random_word(&t, "Sciences", Some("Chimie"));
        assert!(w.content == "CITRON" || w.content == "ATOME");
        assert_eq!(w.length as usize, w.content.len());
        assert_eq!(w.theme, "Sciences");
        assert_eq!(w.id, 0);
    }
    let none = get_random_word(&t, "Inconnu", None);
    assert_eq!(none.content, "MYSTERE");
    assert_eq!(none.length, 7);
}

#[test]
fn suggestions_are_sorted_distinct_and_at_most_five() {
    let t = themes();
    assert_eq!(get_suggestions(&t, "po", "Nourriture", Some("Fruits")), vec!["POIRE", "POMELO", "POMME"]);
    assert_eq!(get_suggestions(&t, "P", "Nourriture", None), vec!["PAPAYE", "PECHE", "POIRE", "POMELO", "POMME"]);
    assert!(get_suggestions(&t, "", "Nourriture", None).is_empty());
    assert!(get_suggestions(&t, "X", "Nourriture", None).is_empty());
    assert!(get_suggestions(&t, "P", "Inconnu", None).is_empty());
}

#[test]
fn the_most_telling_letter_is_the_first_of_the_most_frequent() {
    let letters: Vec<char> = "BABACC".chars().collect();
    assert_eq!(most_telling_letter(&letters, &vec![], &vec![]), Some('B'));
    assert_eq!(most_telling_letter(&letters, &vec!['B'], &vec![]), Some('A'));
    assert_eq!(most_telling_letter(&letters, &vec!['B'], &vec!['A', 'C']), None);
}
