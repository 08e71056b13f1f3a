use aenigma::game::events::GameEventType;
use aenigma::game::{Difficulty, Game, GuessType, Player, SecretWord};

fn create_test_game() -> Game {
    let p1 = Player::new(1, "Alice", SecretWord::new(1, "POMME"));
    let p2 = Player::new(2, "Bob", SecretWord::new(2, "TARTE"));
    let p3 = Player::new(3, "Charlie", SecretWord::new(3, "CITRON"));
    Game::new(vec![p1, p2, p3], Difficulty::Normal)
}

#[test]
fn test_letter_found_privacy() {
    let mut game = create_test_game();

    // Alice (1) cherche 'A' chez Bob (2) -> Trouvé (TARTE)
    let event = game.process_letter_proposal(1, 2, 'A');

    assert_eq!(event.event_type, GameEventType::LetterFound);

    let msg_alice = event.get_message_for(1);
    assert!(msg_alice.contains("trouvée"), "Alice should know she found it");
    assert!(msg_alice.contains("Bob"), "Alice should know it's Bob");

    let msg_bob = event.get_message_for(2);
    assert!(msg_bob.contains("Alice"), "Bob should know it's Alice");
    assert!(msg_bob.contains("trouvé"), "Bob should know it was found");

    let msg_charlie = event.get_message_for(3);
    assert!(msg_charlie.contains("Alice"), "Public should know actor");
    assert!(msg_charlie.contains("Bob"), "Public should know target");
    assert_ne!(msg_alice, msg_charlie, "Private message should differ from public");
}

#[test]
fn test_buzz_fail_privacy() {
    let mut game = create_test_game();

    // Alice (1) Buzz "POIRE" chez Bob (2) -> Raté (TARTE)
    game.players[0].energy = 100;

    let event = game.process_word_guess(1, 2, "POIRE".to_string(), GuessType::Buzz);

    assert_eq!(event.event_type, GameEventType::BuzzFailed);

    let msg_alice = event.get_message_for(1);
    assert!(msg_alice.contains("Pénalité"), "Alice should see penalty info");

    let msg_bob = event.get_message_for(2);
    assert!(msg_bob.contains("raté"), "Bob should know Alice failed");

    let msg_public = event.public_log;
    assert!(msg_public.contains("révélée"), "Public should know a letter was revealed");
}
