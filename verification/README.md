# Aenigma

A multiplayer word-deduction game for the terminal. Each player protects a
secret word; on their turn a player asks an opponent for a letter, guesses
an opponent's word, buzzes when their energy is full, or spends energy on a
power (Voyance, Révélation). A guessed word eliminates its owner; the last
player left wins.

## Layout

- `src/` — the game as a library, verified with Verus:
  - `game/model.rs`: players, secret words, notebooks, and the rules
    (investigations, guesses and buzzes, powers, turn order, winner);
  - `game/events.rs`: what an action produced and who reads which message;
  - `game/ai.rs`: the computer opponent's choices;
  - `game/dictionary.rs`: the word lists, word draws and suggestions;
  - `game/setup.rs`, `game/turns.rs`: setting a game up and playing a turn
    as the front end runs it;
  - `game/laws.rs`: properties that span the operations;
  - `network/`: the messages and how a received move is applied;
  - `tui/`: the terminal front end's decisions: `flow.rs` is its screen
    flow, one step from the state of the screens and an event (a key, a
    frame of the clocks, the outcome of a connection) to the next state and
    what the program must do (send a message, start a clock, connect);
    `outcomes.rs` gathers what the game's operations make of a game, as
    their contracts state it; `app.rs` and `ui.rs` hold menus, input
    parsing and text layout;
  - `text.rs`, `chance.rs`: string helpers and the random draws.
- `app/` — the program: terminal drawing and key reading (ratatui,
  crossterm), the clocks and the effects asked for by the screen flow, the network relay and client (tokio), and the JSON forms of
  the dictionary and of the messages (serde).
- `tests/` — tests of the library.

The word lists are read from `assets/dictionary.json`:
`{"themes": [{"name": ..., "sub_themes": [{"name": ..., "words": [...]}]}]}`.
