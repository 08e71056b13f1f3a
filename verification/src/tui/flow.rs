//! The screen flow of the terminal front end: from the state of the screens
//! and one event (a key, a frame of the clocks, the outcome of a connection,
//! a message from the network) to the next state and what the application
//! has to do about it.
use vstd::prelude::*;
use crate::game::dictionary::{
    Theme, all_sub_themes_name, all_words, dedup_seq, first_n, get_all_themes, get_all_words, get_sub_themes,
    get_suggestions, sub_themes_of, theme_names, with_prefix, word_pool,
};
use crate::game::events::{GameEvent, GameEventType};
use crate::game::model::{
    ControlType, Difficulty, Game, GuessType, Player, PlayerStatus, PowerType, Progress, answer_counters_fit,
    char_string, fresh_notebooks, guess_counters_fit, has_player, id_lengths, index_of, inquiry_event, instant_elapsed,
    name_of, same_but_notebooks, str_len, turn_can_pass, turn_passed,
};
use crate::game::setup::{
    ai_player, drawn_word, easy_ai_theme, fallback_theme, is_placeholder_word, new_setup_player, random_sub_theme,
    random_theme, set_secret_word, setup_done,
};
use crate::game::turns::{
    AiMove, ai_counters_fit, ai_turn_fits, end_turn, first_other, is_human, play_ai_turn, try_answer_for_ai,
};
use crate::network::protocol::{NetworkActionType, NetworkMessage};
use crate::network::session::{action_fits, move_applied, register_player, try_apply_network_action};
use crate::text::{
    alphabetic, ascii_upper, char_to_ascii_uppercase, chars_of, decimal, is_alphabetic, lemma_views_push,
    string_from_chars, strings_sorted, trim, trimmed, u32_to_string, unicode_upper, usize_to_string, views,
};
use crate::tui::app::{
    Action, AppState, Focus, available_actions, buzz_ready_notice, can_buzz, carousel_next, carousel_prev,
    check_secret_word, focus_after, is_digit, length_bounds, length_error, menu_actions, next_focus, pair_views,
    parse_positions, powers_visible, target_choices, targets_of, typed_positions, unknown_word_error,
};
use crate::tui::outcomes::{
    ai_answer_outcome, ai_turn_outcome, answer_outcome, end_turn_outcome, guess_outcome, power_outcome, winner_outcome,
};
use crate::game::ai::AI;

verus! {

/// A key, as the front end reads it.
#[derive(PartialEq, Eq, Structural, Debug, Clone, Copy)]
pub enum Key {
    Char(char),
    Up,
    Down,
    Left,
    Right,
    Enter,
    Esc,
    Tab,
    Backspace,
    Other,
}

/// What happens to the front end.
pub enum UiEvent {
    /// A key was pressed.
    Key(Key),
    /// A frame went by: whether the thinking clock and the result clock,
    /// when running, have reached their two seconds.
    Tick { thinking_done: bool, result_done: bool },
    /// A connection asked for by `HostGame` or `Connect` succeeded, or
    /// failed with the given reason.
    Connection { ok: bool, error: String },
    /// A message came from the network.
    Network(NetworkMessage),
}

/// What the application has to do after a step.
pub enum UiEffect {
    /// Send this message to the host.
    Send(NetworkMessage),
    /// Show this notice for a while.
    Notify(String),
    /// Start the result clock now.
    ResultClock,
    /// Start the thinking clock now.
    ThinkingClock,
    /// Start the game clock now.
    GameClock,
    /// Start a host on this machine and connect to it.
    HostGame,
    /// Connect to the host at this address.
    Connect(String),
    /// Drop the connection to the host.
    Disconnect,
    /// A counter of the game is at the limit of its type: the move cannot
    /// be played.
    CounterLimit,
}

/// The state of the screens between two events.
pub struct UiState {
    pub running: bool,
    pub screen: AppState,
    /// The screen to go back to when a request to quit is withdrawn.
    pub previous: Option<AppState>,
    /// The welcome screen lists the multiplayer entries.
    pub welcome_multi: bool,
    pub welcome_sel: usize,
    /// 0: the mode grid; 1: the difficulty menu.
    pub setup_step: usize,
    pub setup_items: Vec<String>,
    pub setup_sel: usize,
    pub input: Vec<char>,
    pub cursor: usize,
    pub total_players: usize,
    pub is_solo: bool,
    pub setup_player_index: usize,
    pub temp_players: Vec<Player>,
    pub setup_name: String,
    pub setup_theme: String,
    pub setup_sub_theme: Option<String>,
    pub difficulty: Difficulty,
    pub game: Option<Game>,
    pub ai: Option<AI>,
    pub error_message: Option<String>,
    pub input_error: Option<String>,
    pub actions: Vec<Action>,
    pub focus: Focus,
    pub playing_sel: usize,
    pub system_sel: usize,
    pub power_sel: usize,
    pub power_grid_sel: usize,
    pub target_sel: usize,
    pub targets: Vec<(u32, String)>,
    pub selected_target: Option<u32>,
    pub my_name: String,
    pub my_id: Option<u32>,
    pub is_host: bool,
    /// A connection to a host is open.
    pub networked: bool,
    pub connected: Vec<(u32, String)>,
    pub pause_index: usize,
    /// The result clock runs.
    pub result_timer: bool,
    /// The thinking clock runs.
    pub thinking_timer: bool,
    pub last_log_turn: usize,
    pub last_result: String,
    pub last_success: bool,
    pub log: Vec<String>,
    pub pending_inquiry: Option<(u32, char)>,
    pub suggestions: Vec<String>,
    pub suggestion_index: usize,
    pub show_suggestions: bool,
    pub log_scroll: usize,
    pub opponent_index: usize,
}

/// The entries of the welcome menu and of the multiplayer menu (three each).
pub open spec fn welcome_count() -> usize {
    3
}

/// The entries of the setup mode grid.
pub open spec fn mode_labels() -> Seq<Seq<char>> {
    seq!["🤖  SOLO (vs IA)"@, "⚔️  DUEL (2 Joueurs)"@, "⚠️  TRIADE (3 Joueurs)"@, "🛡️  CARRÉ (4 Joueurs)"@]
}

/// The entries of the difficulty menu.
pub open spec fn difficulty_labels() -> Seq<Seq<char>> {
    seq!["Facile"@, "Normal"@, "Difficile"@, "Expert"@]
}

/// The ways to pick the theme in a solo game.
pub open spec fn theme_method_labels() -> Seq<Seq<char>> {
    seq!["Je choisis le thème"@, "L'adversaire choisit"@, "Aléatoire"@]
}

/// The entries of the setup mode grid.
pub fn mode_items() -> (r: Vec<String>)
    ensures
        views(r@) == mode_labels(),
{
    let r = vec![
        String::from_str("🤖  SOLO (vs IA)"),
        String::from_str("⚔️  DUEL (2 Joueurs)"),
        String::from_str("⚠️  TRIADE (3 Joueurs)"),
        String::from_str("🛡️  CARRÉ (4 Joueurs)"),
    ];
    assert(views(r@) =~= mode_labels());
    r
}

/// The entries of the difficulty menu.
pub fn difficulty_items() -> (r: Vec<String>)
    ensures
        views(r@) == difficulty_labels(),
{
    let r = vec![String::from_str("Facile"), String::from_str("Normal"), String::from_str("Difficile"), String::from_str("Expert")];
    assert(views(r@) =~= difficulty_labels());
    r
}

/// The ways to pick the theme in a solo game.
pub fn theme_method_items() -> (r: Vec<String>)
    ensures
        views(r@) == theme_method_labels(),
{
    let r = vec![String::from_str("Je choisis le thème"), String::from_str("L'adversaire choisit"), String::from_str("Aléatoire")];
    assert(views(r@) =~= theme_method_labels());
    r
}

/// `t` is `s` with the typed text cleared.
pub open spec fn input_cleared(t: UiState) -> bool {
    t.input@.len() == 0 && t.cursor == 0
}

// ---------------------------------------------------------------------------
// The welcome screen and the multiplayer menu
// ---------------------------------------------------------------------------

/// The welcome screen (main entries) as it first shows, or after going back.
pub open spec fn back_to_welcome(s: UiState) -> UiState {
    UiState { screen: AppState::Welcome, welcome_multi: false, welcome_sel: 0, ..s }
}

/// Enter on the welcome screen: the first entry leads to the setup, the
/// second to the multiplayer menu, the third out.
pub open spec fn welcome_entered(s: UiState, t: UiState) -> bool {
    let i = s.welcome_sel;
    &&& i == 0 ==> t == UiState { screen: AppState::Setup, ..s }
    &&& i == 1 ==> t == UiState { screen: AppState::MultiplayerMenu, welcome_multi: true, welcome_sel: 0, ..s }
    &&& i == 2 ==> t == UiState { running: false, ..s }
    &&& i > 2 ==> t == s
}

/// Enter on the multiplayer menu: the first entry asks for a host on this
/// machine, the second for the address of one, the third goes back.
pub open spec fn multiplayer_entered(s: UiState, t: UiState, fx: Seq<UiEffect>) -> bool {
    let i = s.welcome_sel;
    &&& i == 0 ==> t == UiState { is_host: true, ..s } && fx.len() == 1 && fx[0] is HostGame
    &&& i == 1 ==> t == UiState { is_host: false, screen: AppState::JoinGame, input: t.input, cursor: 0, ..s } && input_cleared(t)
        && fx.len() == 0
    &&& i == 2 ==> t == back_to_welcome(s) && fx.len() == 0
    &&& i > 2 ==> t == s && fx.len() == 0
}

/// A key on the welcome screen or on the multiplayer menu. On the welcome
/// screen the cursor stops at the ends, `q` quits, and the entries lead to
/// the setup, the multiplayer menu or out; on the multiplayer menu the
/// cursor goes round, Esc goes back, and the entries host a game, join one
/// or go back.
pub open spec fn welcome_step(s: UiState, k: Key, t: UiState, fx: Seq<UiEffect>) -> bool {
    let multi = s.screen == AppState::MultiplayerMenu;
    let i = s.welcome_sel;
    if k == Key::Char('q') && !multi {
        t == UiState { running: false, ..s } && fx.len() == 0
    } else if k == Key::Up {
        t == UiState { welcome_sel: if i > 0 { (i - 1) as usize } else if multi { 2 } else { i }, ..s } && fx.len() == 0
    } else if k == Key::Down {
        t == UiState { welcome_sel: if i + 1 < 3 { (i + 1) as usize } else if multi { 0 } else { i }, ..s } && fx.len() == 0
    } else if k == Key::Esc && multi {
        t == back_to_welcome(s) && fx.len() == 0
    } else if k == Key::Enter && !multi {
        welcome_entered(s, t) && fx.len() == 0
    } else if k == Key::Enter {
        multiplayer_entered(s, t, fx)
    } else {
        t == s && fx.len() == 0
    }
}

fn clear_input(s: &mut UiState)
    ensures
        *final(s) == (UiState { input: final(s).input, cursor: 0, ..*old(s) }),
        input_cleared(*final(s)),
{
    s.input.clear();
    s.cursor = 0;
}

fn welcome_key(s: &mut UiState, k: Key) -> (fx: Vec<UiEffect>)
    ensures
        welcome_step(*old(s), k, *final(s), fx@),
{
    let multi = s.screen == AppState::MultiplayerMenu;
    let i = s.welcome_sel;
    if k == Key::Char('q') && !multi {
        s.running = false;
        Vec::new()
    } else if k == Key::Up {
        s.welcome_sel = if i > 0 { i - 1 } else if multi { 2 } else { i };
        Vec::new()
    } else if k == Key::Down {
        s.welcome_sel = if i < 2 { i + 1 } else if multi { 0 } else { i };
        Vec::new()
    } else if k == Key::Esc && multi {
        go_welcome(s);
        Vec::new()
    } else if k == Key::Enter && !multi {
        welcome_enter(s);
        Vec::new()
    } else if k == Key::Enter {
        multiplayer_enter(s)
    } else {
        Vec::new()
    }
}

fn go_welcome(s: &mut UiState)
    ensures
        *final(s) == back_to_welcome(*old(s)),
{
    s.screen = AppState::Welcome;
    s.welcome_multi = false;
    s.welcome_sel = 0;
}

fn welcome_enter(s: &mut UiState)
    ensures
        welcome_entered(*old(s), *final(s)),
{
    let i = s.welcome_sel;
    if i == 0 {
        s.screen = AppState::Setup;
    } else if i == 1 {
        s.screen = AppState::MultiplayerMenu;
        s.welcome_multi = true;
        s.welcome_sel = 0;
    } else if i == 2 {
        s.running = false;
    }
}

fn multiplayer_enter(s: &mut UiState) -> (fx: Vec<UiEffect>)
    ensures
        multiplayer_entered(*old(s), *final(s), fx@),
{
    let i = s.welcome_sel;
    let mut fx: Vec<UiEffect> = Vec::new();
    if i == 0 {
        s.is_host = true;
        fx.push(UiEffect::HostGame);
    } else if i == 1 {
        s.is_host = false;
        s.screen = AppState::JoinGame;
        clear_input(s);
    } else if i == 2 {
        go_welcome(s);
    }
    fx
}


/// The screens as the program opens: the welcome menu, the mode grid
/// ready, the action menu set, no game, nothing typed or logged.
pub open spec fn opening(r: UiState) -> bool {
    &&& r.running && r.screen == AppState::Welcome && r.previous is None
    &&& !r.welcome_multi && r.welcome_sel == 0
    &&& r.setup_step == 0 && views(r.setup_items@) == mode_labels() && r.setup_sel == 0
    &&& r.input@.len() == 0 && r.cursor == 0
    &&& r.total_players == 0 && !r.is_solo && r.setup_player_index == 0 && r.temp_players@.len() == 0
    &&& r.setup_name@.len() == 0 && r.setup_theme@.len() == 0 && r.setup_sub_theme is None
    &&& r.difficulty == Difficulty::Normal && r.game is None && r.ai is None
    &&& r.error_message is None && r.input_error is None
    &&& r.actions@ == menu_actions() && r.focus == Focus::Actions
    &&& r.playing_sel == 0 && r.system_sel == 0 && r.power_sel == 0 && r.power_grid_sel == 0 && r.target_sel == 0
    &&& r.targets@.len() == 0 && r.selected_target is None
    &&& r.my_name@.len() == 0 && r.my_id is None && !r.is_host && !r.networked && r.connected@.len() == 0
    &&& r.pause_index == 0 && !r.result_timer && !r.thinking_timer
    &&& r.last_log_turn == 0 && r.last_result@.len() == 0 && !r.last_success && r.log@.len() == 0
    &&& r.pending_inquiry is None && r.suggestions@.len() == 0 && r.suggestion_index == 0 && !r.show_suggestions
    &&& r.log_scroll == 0 && r.opponent_index == 0
}

/// The screens as the program opens.
pub fn opening_state() -> (r: UiState)
    ensures
        opening(r),
{
    let r = UiState {
        running: true,
        screen: AppState::Welcome,
        previous: None,
        welcome_multi: false,
        welcome_sel: 0,
        setup_step: 0,
        setup_items: mode_items(),
        setup_sel: 0,
        input: Vec::new(),
        cursor: 0,
        total_players: 0,
        is_solo: false,
        setup_player_index: 0,
        temp_players: Vec::new(),
        setup_name: String::new(),
        setup_theme: String::new(),
        setup_sub_theme: None,
        difficulty: Difficulty::Normal,
        game: None,
        ai: None,
        error_message: None,
        input_error: None,
        actions: available_actions(),
        focus: Focus::Actions,
        playing_sel: 0,
        system_sel: 0,
        power_sel: 0,
        power_grid_sel: 0,
        target_sel: 0,
        targets: Vec::new(),
        selected_target: None,
        my_name: String::new(),
        my_id: None,
        is_host: false,
        networked: false,
        connected: Vec::new(),
        pause_index: 0,
        result_timer: false,
        thinking_timer: false,
        last_log_turn: 0,
        last_result: String::new(),
        last_success: false,
        log: Vec::new(),
        pending_inquiry: None,
        suggestions: Vec::new(),
        suggestion_index: 0,
        show_suggestions: false,
        log_scroll: 0,
        opponent_index: 0,
    };
    r
}

// ---------------------------------------------------------------------------
// Typing
// ---------------------------------------------------------------------------

/// `n + 1`, or `n` at the top of `usize`.
pub open spec fn up_one(n: usize) -> usize {
    if n < usize::MAX { (n + 1) as usize } else { n }
}

/// `n - 1`, or 0 at the bottom.
pub open spec fn down_one(n: usize) -> usize {
    if n > 0 { (n - 1) as usize } else { 0 }
}

/// `c` was typed at the end of the text.
pub open spec fn typed(s: UiState, c: char, t: UiState) -> bool {
    t == UiState { input: t.input, cursor: up_one(s.cursor), ..s } && t.input@ == s.input@.push(c)
}

/// Backspace at the end of the text: the last character goes, if any.
pub open spec fn erased(s: UiState, t: UiState) -> bool {
    if s.input@.len() > 0 {
        t == UiState { input: t.input, cursor: down_one(s.cursor), ..s } && t.input@ == s.input@.drop_last()
    } else {
        t == s
    }
}

fn type_char(s: &mut UiState, c: char)
    ensures
        typed(*old(s), c, *final(s)),
{
    s.input.push(c);
    if s.cursor < usize::MAX {
        s.cursor = s.cursor + 1;
    }
}

fn erase_char(s: &mut UiState)
    ensures
        erased(*old(s), *final(s)),
{
    if s.input.len() > 0 {
        s.input.pop();
        if s.cursor > 0 {
            s.cursor = s.cursor - 1;
        }
    }
}

// ---------------------------------------------------------------------------
// Small screens
// ---------------------------------------------------------------------------

/// The screen left before a request to quit, or the playing screen.
pub open spec fn withdrawn(s: UiState) -> UiState {
    UiState { screen: match s.previous { Some(p) => p, None => AppState::Playing }, previous: None, ..s }
}

/// A request to quit from screen `from`: the confirmation opens on "no".
pub open spec fn quit_asked(s: UiState, from: AppState) -> UiState {
    UiState { previous: Some(from), screen: AppState::ConfirmQuit, pause_index: 1, ..s }
}

/// The pause menu: resume, rules, back to the welcome screen, quit; the
/// cursor goes round its four entries, and Esc resumes.
pub open spec fn paused_step(s: UiState, k: Key, t: UiState) -> bool {
    let i = s.pause_index;
    if k == Key::Up {
        t == UiState { pause_index: if i > 0 { (i - 1) as usize } else { 3 }, ..s }
    } else if k == Key::Down {
        t == UiState { pause_index: if i < 3 { (i + 1) as usize } else { 0 }, ..s }
    } else if k == Key::Enter {
        &&& i == 0 ==> t == UiState { screen: AppState::Playing, ..s }
        &&& i == 1 ==> t == UiState { screen: AppState::Rules, ..s }
        &&& i == 2 ==> t == back_to_welcome(s)
        &&& i == 3 ==> t == quit_asked(s, AppState::Paused)
        &&& i > 3 ==> t == s
    } else if k == Key::Esc {
        t == UiState { screen: AppState::Playing, ..s }
    } else {
        t == s
    }
}

fn paused_key(s: &mut UiState, k: Key)
    ensures
        paused_step(*old(s), k, *final(s)),
{
    let i = s.pause_index;
    if k == Key::Up {
        s.pause_index = crate::tui::app::pause_menu_up(i);
    } else if k == Key::Down {
        s.pause_index = crate::tui::app::pause_menu_down(i);
    } else if k == Key::Enter {
        if i == 0 {
            s.screen = AppState::Playing;
        } else if i == 1 {
            s.screen = AppState::Rules;
        } else if i == 2 {
            go_welcome(s);
        } else if i == 3 {
            ask_quit(s, AppState::Paused);
        }
    } else if k == Key::Esc {
        s.screen = AppState::Playing;
    }
}

fn ask_quit(s: &mut UiState, from: AppState)
    ensures
        *final(s) == quit_asked(*old(s), from),
{
    s.previous = Some(from);
    s.screen = AppState::ConfirmQuit;
    s.pause_index = 1;
}

fn withdraw(s: &mut UiState)
    ensures
        *final(s) == withdrawn(*old(s)),
{
    s.screen = match s.previous {
        Some(p) => p,
        None => AppState::Playing,
    };
    s.previous = None;
}

/// The confirmation to quit: left and right switch between yes (0) and no
/// (1); Enter on yes stops the program, on no (or Esc) goes back.
pub open spec fn confirm_step(s: UiState, k: Key, t: UiState) -> bool {
    let i = s.pause_index;
    if k == Key::Left || k == Key::Right {
        t == UiState { pause_index: if i == 0 { 1 } else { 0 }, ..s }
    } else if k == Key::Enter {
        if i == 0 { t == UiState { running: false, ..s } } else { t == withdrawn(s) }
    } else if k == Key::Esc {
        t == withdrawn(s)
    } else {
        t == s
    }
}

fn confirm_key(s: &mut UiState, k: Key)
    ensures
        confirm_step(*old(s), k, *final(s)),
{
    if k == Key::Left || k == Key::Right {
        s.pause_index = if s.pause_index == 0 { 1 } else { 0 };
    } else if k == Key::Enter {
        if s.pause_index == 0 {
            s.running = false;
        } else {
            withdraw(s);
        }
    } else if k == Key::Esc {
        withdraw(s);
    }
}

/// The rules close on Esc or Enter, back to the pause menu.
pub open spec fn rules_step(s: UiState, k: Key, t: UiState) -> bool {
    if k == Key::Esc || k == Key::Enter { t == UiState { screen: AppState::Paused, ..s } } else { t == s }
}

/// The end of the game closes on Enter, Esc or `q`, back to the welcome
/// screen.
pub open spec fn game_over_step(s: UiState, k: Key, t: UiState) -> bool {
    if k == Key::Enter || k == Key::Esc || k == Key::Char('q') { t == back_to_welcome(s) } else { t == s }
}

/// Waiting in the lobby: Esc drops the connection and goes back to the
/// multiplayer menu.
pub open spec fn lobby_step(s: UiState, k: Key, t: UiState, fx: Seq<UiEffect>) -> bool {
    if k == Key::Esc {
        t == UiState { networked: false, screen: AppState::MultiplayerMenu, ..s } && fx.len() == 1 && fx[0] is Disconnect
    } else {
        t == s && fx.len() == 0
    }
}

fn lobby_key(s: &mut UiState, k: Key) -> (fx: Vec<UiEffect>)
    ensures
        lobby_step(*old(s), k, *final(s), fx@),
{
    let mut fx: Vec<UiEffect> = Vec::new();
    if k == Key::Esc {
        s.networked = false;
        s.screen = AppState::MultiplayerMenu;
        fx.push(UiEffect::Disconnect);
    }
    fx
}

/// Typing the host's address: Enter asks to connect to it, Esc goes back
/// to the multiplayer menu.
pub open spec fn join_step(s: UiState, k: Key, t: UiState, fx: Seq<UiEffect>) -> bool {
    match k {
        Key::Char(c) => typed(s, c, t) && fx.len() == 0,
        Key::Backspace => erased(s, t) && fx.len() == 0,
        Key::Enter => t == s && fx.len() == 1 && (fx[0] matches UiEffect::Connect(a) && a@ == s.input@),
        Key::Esc => t == UiState { screen: AppState::MultiplayerMenu, ..s } && fx.len() == 0,
        _ => t == s && fx.len() == 0,
    }
}

fn join_key(s: &mut UiState, k: Key) -> (fx: Vec<UiEffect>)
    ensures
        join_step(*old(s), k, *final(s), fx@),
{
    let mut fx: Vec<UiEffect> = Vec::new();
    match k {
        Key::Char(c) => type_char(s, c),
        Key::Backspace => erase_char(s),
        Key::Enter => {
            let address = crate::text::string_from_chars(&s.input);
            fx.push(UiEffect::Connect(address));
        }
        Key::Esc => {
            s.screen = AppState::MultiplayerMenu;
        }
        _ => {}
    }
    fx
}

/// Typing one's name for a network game: Enter with a name that is not
/// blank keeps it trimmed, sends it to the host, and goes on to the setup
/// (host) or the lobby.
pub open spec fn network_name_step(s: UiState, k: Key, t: UiState, fx: Seq<UiEffect>) -> bool {
    match k {
        Key::Char(c) => typed(s, c, t) && fx.len() == 0,
        Key::Backspace => erased(s, t) && fx.len() == 0,
        Key::Enter => if trimmed(s.input@).len() == 0 {
            t == s && fx.len() == 0
        } else {
            &&& t == UiState {
                my_name: t.my_name,
                screen: if s.is_host { AppState::Setup } else { AppState::Lobby },
                input: t.input,
                cursor: 0,
                ..s
            }
            &&& input_cleared(t)
            &&& t.my_name@ == trimmed(s.input@)
            &&& s.networked ==> fx.len() == 1 && (fx[0] matches UiEffect::Send(NetworkMessage::Join { name }) && name@ == t.my_name@)
            &&& !s.networked ==> fx.len() == 0
        },
        _ => t == s && fx.len() == 0,
    }
}

fn network_name_key(s: &mut UiState, k: Key) -> (fx: Vec<UiEffect>)
    ensures
        network_name_step(*old(s), k, *final(s), fx@),
{
    let mut fx: Vec<UiEffect> = Vec::new();
    match k {
        Key::Char(c) => type_char(s, c),
        Key::Backspace => erase_char(s),
        Key::Enter => {
            let text = crate::text::string_from_chars(&s.input);
            let name = trim(text.as_str());
            if chars_of(name).len() > 0 {
                if s.networked {
                    fx.push(UiEffect::Send(NetworkMessage::Join { name: String::from_str(name) }));
                }
                s.my_name = String::from_str(name);
                s.screen = if s.is_host { AppState::Setup } else { AppState::Lobby };
                clear_input(s);
            }
        }
        _ => {}
    }
    fx
}

/// The outcome of a connection: on the multiplayer menu (hosting) or on the
/// address screen, success leads to typing one's name; a failure is shown.
pub open spec fn connection_step(s: UiState, ok: bool, error: Seq<char>, t: UiState) -> bool {
    if s.screen == AppState::MultiplayerMenu {
        if ok {
            t == UiState { networked: true, screen: AppState::MultiplayerNameInput, input: t.input, cursor: 0, ..s } && input_cleared(t)
        } else {
            t == UiState { error_message: t.error_message, ..s } && (t.error_message matches Some(m) && m@ == "Erreur connexion: "@ + error)
        }
    } else if s.screen == AppState::JoinGame {
        if ok {
            t == UiState { networked: true, is_host: false, screen: AppState::MultiplayerNameInput, input: t.input, cursor: 0, ..s }
                && input_cleared(t)
        } else {
            t == UiState { input_error: t.input_error, ..s } && (t.input_error matches Some(m) && m@ == "Erreur: "@ + error)
        }
    } else {
        t == s
    }
}

fn on_connection(s: &mut UiState, ok: bool, error: &String)
    ensures
        connection_step(*old(s), ok, error@, *final(s)),
{
    if s.screen == AppState::MultiplayerMenu {
        if ok {
            s.networked = true;
            s.screen = AppState::MultiplayerNameInput;
            clear_input(s);
        } else {
            let mut m = String::from_str("Erreur connexion: ");
            m.append(error.as_str());
            s.error_message = Some(m);
        }
    } else if s.screen == AppState::JoinGame {
        if ok {
            s.networked = true;
            s.is_host = false;
            s.screen = AppState::MultiplayerNameInput;
            clear_input(s);
        } else {
            let mut m = String::from_str("Erreur: ");
            m.append(error.as_str());
            s.input_error = Some(m);
        }
    }
}

// ---------------------------------------------------------------------------
// Setting up a game
// ---------------------------------------------------------------------------

/// The players of each entry of the mode grid.
pub open spec fn mode_players(sel: usize) -> usize {
    if sel == 2 { 3 } else if sel == 3 { 4 } else { 2 }
}

/// The difficulty of each entry of the difficulty menu.
pub open spec fn difficulty_at(i: usize) -> Difficulty {
    if i == 0 {
        Difficulty::Easy
    } else if i == 2 {
        Difficulty::Hard
    } else if i == 3 {
        Difficulty::Expert
    } else {
        Difficulty::Normal
    }
}

/// `t` is `s` back on the difficulty menu (on Normal).
pub open spec fn at_difficulty(s: UiState, t: UiState) -> bool {
    t == UiState { setup_step: 1, screen: AppState::Setup, setup_items: t.setup_items, setup_sel: 1, ..s }
        && views(t.setup_items@) == difficulty_labels()
}

/// A key on the mode grid (two columns): the arrows move within the grid,
/// Enter keeps the mode and opens the difficulty menu, Esc or `q` leaves.
pub open spec fn grid_step(s: UiState, k: Key, t: UiState) -> bool {
    if k == Key::Right || k == Key::Left || k == Key::Down || k == Key::Up {
        t == UiState { setup_sel: grid_moved(s.setup_sel, s.setup_items@.len(), k), ..s }
    } else if k == Key::Enter {
        at_difficulty(UiState { total_players: mode_players(s.setup_sel), is_solo: s.setup_sel == 0, ..s }, t)
    } else if k == Key::Esc || k == Key::Char('q') {
        t == UiState { screen: AppState::Welcome, ..s }
    } else {
        t == s
    }
}

/// The cursor of the mode grid (two columns of `count` entries) after an
/// arrow: it stays put at the edges.
pub open spec fn grid_moved(sel: usize, count: nat, k: Key) -> usize {
    if k == Key::Right {
        if sel + 1 < count { (sel + 1) as usize } else { sel }
    } else if k == Key::Left {
        if sel > 0 { (sel - 1) as usize } else { sel }
    } else if k == Key::Down {
        if sel + 2 < count { (sel + 2) as usize } else { sel }
    } else if k == Key::Up {
        if sel >= 2 { (sel - 2) as usize } else { sel }
    } else {
        sel
    }
}

/// The cursor of a list of `n` entries after Down (going round).
pub open spec fn next_in(i: usize, n: nat) -> usize {
    if n > 0 { if i + 1 < n { (i + 1) as usize } else { 0 } } else { i }
}

/// The cursor of a list of `n` entries after Up (going round).
pub open spec fn prev_in(i: usize, n: nat) -> usize {
    if n > 0 { if i > 0 { (i - 1) as usize } else { (n - 1) as usize } } else { i }
}

/// A key on the difficulty menu: Enter keeps the difficulty and starts
/// the players' setup; Esc or `q` goes back to the mode grid on the mode
/// kept.
pub open spec fn difficulty_step(s: UiState, k: Key, t: UiState) -> bool {
    let n = s.setup_items@.len();
    if k == Key::Down {
        t == UiState { setup_sel: next_in(s.setup_sel, n), ..s }
    } else if k == Key::Up {
        t == UiState { setup_sel: prev_in(s.setup_sel, n), ..s }
    } else if k == Key::Enter {
        if s.setup_step == 1 {
            let u = UiState { difficulty: difficulty_at(s.setup_sel), temp_players: t.temp_players, setup_player_index: 0, ..s };
            &&& t.temp_players@.len() == 0
            &&& s.is_solo ==> t == UiState { screen: AppState::SetupThemeSelectionMethod, setup_items: t.setup_items, setup_sel: 0, ..u }
                && views(t.setup_items@) == theme_method_labels()
            &&& !s.is_solo ==> t == UiState { screen: AppState::SetupEnterPlayerName, input: t.input, cursor: 0, ..u } && input_cleared(t)
        } else {
            t == s
        }
    } else if k == Key::Esc || k == Key::Char('q') {
        if s.setup_step > 0 {
            t == UiState {
                setup_step: (s.setup_step - 1) as usize,
                setup_items: t.setup_items,
                setup_sel: if s.total_players <= 2 { 0 } else { (s.total_players - 1) as usize },
                ..s
            } && views(t.setup_items@) == mode_labels()
        } else {
            t == UiState { screen: AppState::Welcome, ..s }
        }
    } else {
        t == s
    }
}

/// A key on the setup screen.
pub open spec fn setup_step(s: UiState, k: Key, t: UiState) -> bool {
    if s.setup_step == 0 { grid_step(s, k, t) } else { difficulty_step(s, k, t) }
}

fn go_difficulty(s: &mut UiState)
    ensures
        at_difficulty(*old(s), *final(s)),
{
    s.setup_step = 1;
    s.screen = AppState::Setup;
    s.setup_items = difficulty_items();
    s.setup_sel = 1;
}

fn grid_move(sel: usize, count: usize, k: Key) -> (r: usize)
    ensures
        r == grid_moved(sel, count as nat, k),
{
    if k == Key::Right {
        if count > 0 && sel < count - 1 { sel + 1 } else { sel }
    } else if k == Key::Left {
        if sel > 0 { sel - 1 } else { sel }
    } else if k == Key::Down {
        if count >= 2 && sel < count - 2 { sel + 2 } else { sel }
    } else if k == Key::Up {
        if sel >= 2 { sel - 2 } else { sel }
    } else {
        sel
    }
}

fn grid_key(s: &mut UiState, k: Key)
    ensures
        grid_step(*old(s), k, *final(s)),
{
    let sel = s.setup_sel;
    if k == Key::Right || k == Key::Left || k == Key::Down || k == Key::Up {
        s.setup_sel = grid_move(sel, s.setup_items.len(), k);
    } else if k == Key::Enter {
        s.total_players = crate::tui::app::players_for_mode(sel);
        s.is_solo = sel == 0;
        go_difficulty(s);
    } else if k == Key::Esc || k == Key::Char('q') {
        s.screen = AppState::Welcome;
    }
}

fn list_down(i: usize, n: usize) -> (r: usize)
    ensures
        r == next_in(i, n as nat),
{
    if n > 0 { crate::tui::app::wrap_next(i, n) } else { i }
}

fn list_up(i: usize, n: usize) -> (r: usize)
    ensures
        r == prev_in(i, n as nat),
{
    if n > 0 { crate::tui::app::wrap_prev(i, n) } else { i }
}

fn difficulty_enter(s: &mut UiState)
    requires
        old(s).setup_step == 1,
    ensures
        difficulty_step(*old(s), Key::Enter, *final(s)),
{
    s.difficulty = crate::tui::app::difficulty_for_index(s.setup_sel);
    s.temp_players.clear();
    s.setup_player_index = 0;
    if s.is_solo {
        s.screen = AppState::SetupThemeSelectionMethod;
        s.setup_items = theme_method_items();
        s.setup_sel = 0;
    } else {
        s.screen = AppState::SetupEnterPlayerName;
        clear_input(s);
    }
}

fn difficulty_key(s: &mut UiState, k: Key)
    ensures
        difficulty_step(*old(s), k, *final(s)),
{
    let n = s.setup_items.len();
    if k == Key::Down {
        s.setup_sel = list_down(s.setup_sel, n);
    } else if k == Key::Up {
        s.setup_sel = list_up(s.setup_sel, n);
    } else if k == Key::Enter {
        if s.setup_step == 1 {
            difficulty_enter(s);
        }
    } else if k == Key::Esc || k == Key::Char('q') {
        if s.setup_step > 0 {
            s.setup_step = s.setup_step - 1;
            s.setup_items = mode_items();
            s.setup_sel = if s.total_players <= 2 { 0 } else { s.total_players - 1 };
        } else {
            s.screen = AppState::Welcome;
        }
    }
}

fn setup_key(s: &mut UiState, k: Key)
    ensures
        setup_step(*old(s), k, *final(s)),
{
    if s.setup_step == 0 {
        grid_key(s, k);
    } else {
        difficulty_key(s, k);
    }
}

/// A new player as the setup first makes it: id `index`, the typed name,
/// a placeholder word, and nothing else yet.
pub open spec fn setup_player(p: Player, index: usize, name: Seq<char>) -> bool {
    &&& p.id == #[verifier::truncate] (index as u32)
    &&& p.name@ == name
    &&& is_placeholder_word(p.secret_word)
    &&& p.status == PlayerStatus::Active
    &&& p.control_type == ControlType::Human
    &&& p.score == 0
    &&& p.energy == 0
    &&& p.progress_on_opponents@ == Map::<u32, Progress>::empty()
    &&& !p.is_eliminated
    &&& p.turns_played == 0
    &&& p.correct_guesses == 0
}

/// Typing a player's name: Enter with a name that is not blank adds the
/// player; a solo player then types their word, the others pick a theme.
/// Esc goes back to the difficulty menu.
pub open spec fn player_name_step(s: UiState, themes: Seq<Theme>, k: Key, t: UiState) -> bool {
    match k {
        Key::Char(c) => typed(s, c, t),
        Key::Backspace => erased(s, t),
        Key::Enter => if trimmed(s.input@).len() == 0 {
            t == UiState { input_error: t.input_error, ..s } && (t.input_error matches Some(m) && m@ == "Veuillez entrer un nom."@)
        } else {
            let u = UiState { input_error: None, temp_players: t.temp_players, setup_name: t.setup_name, input: t.input, cursor: 0, ..s };
            &&& input_cleared(t)
            &&& t.temp_players@.len() == s.temp_players@.len() + 1
            &&& t.temp_players@.drop_last() == s.temp_players@
            &&& setup_player(t.temp_players@.last(), s.setup_player_index, s.input@)
            &&& t.setup_name@ == s.input@
            &&& s.is_solo ==> t == UiState { screen: AppState::SetupEnterSecretWord, ..u }
            &&& !s.is_solo ==> t == UiState { screen: AppState::SetupSelectTheme, setup_items: t.setup_items, setup_sel: 0, ..u }
                && views(t.setup_items@) == theme_names(themes)
        },
        Key::Esc => at_difficulty(s, t),
        _ => t == s,
    }
}

fn player_name_enter(s: &mut UiState, themes: &Vec<Theme>)
    ensures
        player_name_step(*old(s), themes@, Key::Enter, *final(s)),
{
    let text = string_from_chars(&s.input);
    if chars_of(trim(text.as_str())).len() == 0 {
        s.input_error = Some(String::from_str("Veuillez entrer un nom."));
        return;
    }
    s.input_error = None;
    let player = new_setup_player(s.setup_player_index, text.as_str());
    s.temp_players.push(player);
    assert(s.temp_players@.drop_last() =~= old(s).temp_players@);
    s.setup_name = string_from_chars(&s.input);
    if s.is_solo {
        s.screen = AppState::SetupEnterSecretWord;
    } else {
        s.screen = AppState::SetupSelectTheme;
        s.setup_items = get_all_themes(themes);
        s.setup_sel = 0;
    }
    clear_input(s);
}

fn player_name_key(s: &mut UiState, themes: &Vec<Theme>, k: Key)
    ensures
        player_name_step(*old(s), themes@, k, *final(s)),
{
    match k {
        Key::Char(c) => type_char(s, c),
        Key::Backspace => erase_char(s),
        Key::Enter => player_name_enter(s, themes),
        Key::Esc => go_difficulty(s),
        _ => {}
    }
}

/// How the theme of a solo game is picked: by the player, or at random
/// (with a random sub-theme, if the theme has any) before the name.
pub open spec fn theme_method_step(s: UiState, themes: Seq<Theme>, k: Key, t: UiState) -> bool {
    let n = s.setup_items@.len();
    if k == Key::Down {
        t == UiState { setup_sel: next_in(s.setup_sel, n), ..s }
    } else if k == Key::Up {
        t == UiState { setup_sel: prev_in(s.setup_sel, n), ..s }
    } else if k == Key::Enter {
        if s.setup_sel == 0 {
            t == UiState { screen: AppState::SetupSelectTheme, setup_items: t.setup_items, setup_sel: 0, ..s }
                && views(t.setup_items@) == theme_names(themes)
        } else if s.setup_sel == 1 || s.setup_sel == 2 {
            &&& t == UiState {
                setup_sub_theme: t.setup_sub_theme,
                setup_theme: t.setup_theme,
                screen: AppState::SetupEnterPlayerName,
                input: t.input,
                cursor: 0,
                ..s
            }
            &&& input_cleared(t)
            &&& themes.len() > 0 ==> theme_names(themes).contains(t.setup_theme@)
            &&& themes.len() == 0 ==> t.setup_theme@ == fallback_theme()
            &&& sub_themes_of(themes, t.setup_theme@).len() > 0 ==> (t.setup_sub_theme matches Some(x)
                && sub_themes_of(themes, t.setup_theme@).contains(x@))
            &&& sub_themes_of(themes, t.setup_theme@).len() == 0 ==> t.setup_sub_theme is None
        } else {
            t == s
        }
    } else if k == Key::Esc {
        at_difficulty(s, t)
    } else {
        t == s
    }
}

fn theme_method_key(s: &mut UiState, themes: &Vec<Theme>, k: Key)
    ensures
        theme_method_step(*old(s), themes@, k, *final(s)),
{
    let n = s.setup_items.len();
    if k == Key::Down {
        s.setup_sel = list_down(s.setup_sel, n);
    } else if k == Key::Up {
        s.setup_sel = list_up(s.setup_sel, n);
    } else if k == Key::Enter {
        if s.setup_sel == 0 {
            s.screen = AppState::SetupSelectTheme;
            s.setup_items = get_all_themes(themes);
            s.setup_sel = 0;
        } else if s.setup_sel == 1 || s.setup_sel == 2 {
            let theme = random_theme(themes);
            s.setup_sub_theme = random_sub_theme(themes, theme.as_str());
            s.setup_theme = theme;
            s.screen = AppState::SetupEnterPlayerName;
            clear_input(s);
        }
    } else if k == Key::Esc {
        go_difficulty(s);
    }
}

/// The screen after the theme (and sub-theme) are picked: a solo player
/// types their name, the others their word.
pub open spec fn after_theme(s: UiState) -> AppState {
    if s.is_solo { AppState::SetupEnterPlayerName } else { AppState::SetupEnterSecretWord }
}

/// Picking the theme: Enter keeps it and, when it has sub-themes, offers
/// them after a first entry for all of them; Esc drops the player just
/// added and goes back to the name.
pub open spec fn theme_step(s: UiState, themes: Seq<Theme>, k: Key, t: UiState) -> bool {
    let n = s.setup_items@.len();
    let names = theme_names(themes);
    if k == Key::Down {
        t == UiState { setup_sel: next_in(s.setup_sel, n), ..s }
    } else if k == Key::Up {
        t == UiState { setup_sel: prev_in(s.setup_sel, n), ..s }
    } else if k == Key::Enter {
        if s.setup_sel < names.len() {
            let theme = names[s.setup_sel as int];
            let subs = sub_themes_of(themes, theme);
            &&& t.setup_theme@ == theme
            &&& subs.len() > 0 ==> t == UiState { setup_theme: t.setup_theme, screen: AppState::SetupSelectSubTheme,
                setup_items: t.setup_items, setup_sel: 0, ..s } && views(t.setup_items@) == seq![all_sub_themes_name()] + subs
            &&& subs.len() == 0 ==> t == UiState { setup_theme: t.setup_theme, setup_sub_theme: None, screen: after_theme(s),
                input: t.input, cursor: 0, ..s } && input_cleared(t)
        } else {
            t == s
        }
    } else if k == Key::Esc {
        t == UiState { temp_players: t.temp_players, screen: AppState::SetupEnterPlayerName, input: t.input, cursor: 0, ..s }
            && input_cleared(t) && t.temp_players@ == if s.temp_players@.len() > 0 { s.temp_players@.drop_last() } else { s.temp_players@ }
    } else {
        t == s
    }
}

fn theme_enter(s: &mut UiState, themes: &Vec<Theme>)
    ensures
        theme_step(*old(s), themes@, Key::Enter, *final(s)),
{
    let names = get_all_themes(themes);
    if s.setup_sel < names.len() {
        let theme = names[s.setup_sel].clone();
        let subs = get_sub_themes(themes, theme.as_str());
        s.setup_theme = theme;
        if subs.len() > 0 {
            s.screen = AppState::SetupSelectSubTheme;
            let mut items: Vec<String> = Vec::new();
            items.push(String::from_str("Général (Tous)"));
            let mut i: usize = 0;
            while i < subs.len()
                invariant
                    i <= subs.len(),
                    views(items@) == seq![all_sub_themes_name()] + views(subs@).take(i as int),
                decreases subs.len() - i,
            {
                proof { lemma_views_push(items@, subs@[i as int]); }
                items.push(subs[i].clone());
                assert(views(subs@).take(i + 1) =~= views(subs@).take(i as int).push(subs@[i as int]@));
                i = i + 1;
            }
            assert(views(subs@).take(subs.len() as int) =~= views(subs@));
            s.setup_items = items;
            s.setup_sel = 0;
        } else {
            s.setup_sub_theme = None;
            s.screen = if s.is_solo { AppState::SetupEnterPlayerName } else { AppState::SetupEnterSecretWord };
            clear_input(s);
        }
    }
}

fn theme_key(s: &mut UiState, themes: &Vec<Theme>, k: Key)
    ensures
        theme_step(*old(s), themes@, k, *final(s)),
{
    let n = s.setup_items.len();
    if k == Key::Down {
        s.setup_sel = list_down(s.setup_sel, n);
    } else if k == Key::Up {
        s.setup_sel = list_up(s.setup_sel, n);
    } else if k == Key::Enter {
        theme_enter(s, themes);
    } else if k == Key::Esc {
        s.temp_players.pop();
        s.screen = AppState::SetupEnterPlayerName;
        clear_input(s);
    }
}

/// Picking the sub-theme: Enter keeps the entry under the cursor; Esc goes
/// back to the themes.
pub open spec fn sub_theme_step(s: UiState, themes: Seq<Theme>, k: Key, t: UiState) -> bool {
    let n = s.setup_items@.len();
    if k == Key::Down {
        t == UiState { setup_sel: next_in(s.setup_sel, n), ..s }
    } else if k == Key::Up {
        t == UiState { setup_sel: prev_in(s.setup_sel, n), ..s }
    } else if k == Key::Enter {
        if s.setup_sel < n {
            t == UiState { setup_sub_theme: t.setup_sub_theme, screen: after_theme(s), input: t.input, cursor: 0, ..s }
                && input_cleared(t) && (t.setup_sub_theme matches Some(x) && x@ == s.setup_items@[s.setup_sel as int]@)
        } else {
            t == s
        }
    } else if k == Key::Esc {
        t == UiState { screen: AppState::SetupSelectTheme, setup_items: t.setup_items, setup_sel: 0, ..s }
            && views(t.setup_items@) == theme_names(themes)
    } else {
        t == s
    }
}

fn sub_theme_key(s: &mut UiState, themes: &Vec<Theme>, k: Key)
    ensures
        sub_theme_step(*old(s), themes@, k, *final(s)),
{
    let n = s.setup_items.len();
    if k == Key::Down {
        s.setup_sel = list_down(s.setup_sel, n);
    } else if k == Key::Up {
        s.setup_sel = list_up(s.setup_sel, n);
    } else if k == Key::Enter {
        if s.setup_sel < n {
            let x = String::from_str(s.setup_items[s.setup_sel].as_str());
            s.setup_sub_theme = Some(x);
            s.screen = if s.is_solo { AppState::SetupEnterPlayerName } else { AppState::SetupEnterSecretWord };
            clear_input(s);
        }
    } else if k == Key::Esc {
        s.screen = AppState::SetupSelectTheme;
        s.setup_items = get_all_themes(themes);
        s.setup_sel = 0;
    }
}

// ---------------------------------------------------------------------------
// The action menu and the start of a game
// ---------------------------------------------------------------------------

/// The energy of the local player (player 1 while no id is known), or 0.
pub open spec fn energy_of(game: Option<Game>, my_id: Option<u32>) -> u32 {
    let id = match my_id { Some(i) => i, None => 1 };
    match game {
        Some(g) => if has_player(g.players@, id) { g.players@[index_of(g.players@, id)].energy } else { 0 },
        None => 0,
    }
}

/// The energy of the local player.
pub open spec fn my_energy(s: UiState) -> u32 {
    energy_of(s.game, s.my_id)
}

/// The notice that the buzzer is ready.
pub open spec fn is_buzz_notice(e: UiEffect) -> bool {
    e matches UiEffect::Notify(m) && m@ == "⚡ BUZZER PRÊT !"@
}

/// The buzzer notice is due: the energy is full and the menu shown so far
/// had no buzz.
pub open spec fn buzz_due(energy: u32, shown: Seq<Action>) -> bool {
    energy >= 100 && !shown.contains(Action::Buzz)
}

/// The action menu is set again, with the buzzer notice when it is due.
pub open spec fn actions_refreshed(s: UiState, t: UiState, fx: Seq<UiEffect>) -> bool {
    &&& t == UiState { actions: t.actions, ..s }
    &&& t.actions@ == menu_actions()
    &&& if buzz_due(my_energy(s), s.actions@) { fx.len() == 1 && is_buzz_notice(fx[0]) } else { fx.len() == 0 }
}

fn energy_now(game: &Option<Game>, my_id: Option<u32>) -> (r: u32)
    ensures
        r == energy_of(*game, my_id),
{
    let id = match my_id {
        Some(i) => i,
        None => 1,
    };
    match game {
        Some(g) => match g.find_player(id) {
            Some(i) => g.players[i].energy,
            None => 0,
        },
        None => 0,
    }
}

fn refresh_actions(s: &mut UiState) -> (fx: Vec<UiEffect>)
    ensures
        actions_refreshed(*old(s), *final(s), fx@),
{
    let energy = energy_now(&s.game, s.my_id);
    let mut fx: Vec<UiEffect> = Vec::new();
    if buzz_ready_notice(energy, &s.actions) {
        fx.push(UiEffect::Notify(String::from_str("⚡ BUZZER PRÊT !")));
    }
    s.actions = available_actions();
    fx
}

/// `g` is a new game of `players` at difficulty `d` (see `Game::new`).
pub open spec fn new_game(players: Seq<Player>, d: Difficulty, g: Game) -> bool {
    &&& g.mode is Classic
    &&& g.difficulty == d
    &&& g.current_turn == 0
    &&& !g.is_over
    &&& g.final_duration is None
    &&& g.players.len() == players.len()
    &&& forall|i: int| 0 <= i < players.len() ==> same_but_notebooks(#[trigger] g.players[i], players[i])
    &&& forall|i: int| 0 <= i < players.len() ==>
        fresh_notebooks(#[trigger] g.players[i].progress_on_opponents@, id_lengths(players), players[i].id, d)
}

/// The game starts with the players set up (who leave the setup list): the
/// host sends it to the others, the action menu is set, the game clock
/// starts, and a player with no id yet becomes player 0.
pub open spec fn game_started(s: UiState, t: UiState, fx: Seq<UiEffect>) -> bool {
    let sent: int = if s.networked && s.is_host { 1 } else { 0 };
    let due = buzz_due(energy_of(t.game, s.my_id), s.actions@);
    &&& t.game matches Some(g) && new_game(s.temp_players@, s.difficulty, g)
    &&& t == UiState {
        game: t.game,
        temp_players: t.temp_players,
        screen: AppState::Playing,
        actions: t.actions,
        input: t.input,
        cursor: 0,
        my_id: if s.my_id is None { Some(0u32) } else { s.my_id },
        ..s
    }
    &&& t.temp_players@.len() == 0
    &&& input_cleared(t)
    &&& t.actions@ == menu_actions()
    &&& fx.len() == sent + (if due { 1int } else { 0 }) + 1
    &&& sent == 1 ==> (fx[0] matches UiEffect::Send(NetworkMessage::GameInit(_)))
    &&& due ==> is_buzz_notice(fx[sent])
    &&& fx.last() is GameClock
}

fn start_game(s: &mut UiState) -> (fx: Vec<UiEffect>)
    ensures
        game_started(*old(s), *final(s), fx@),
{
    let mut players: Vec<Player> = Vec::new();
    std::mem::swap(&mut players, &mut s.temp_players);
    let game = Game::new(players, s.difficulty);
    let mut fx: Vec<UiEffect> = Vec::new();
    if s.networked && s.is_host {
        fx.push(UiEffect::Send(NetworkMessage::GameInit(game.clone())));
    }
    s.game = Some(game);
    s.screen = AppState::Playing;
    let mut notes = refresh_actions(s);
    fx.append(&mut notes);
    clear_input(s);
    fx.push(UiEffect::GameClock);
    if s.my_id.is_none() {
        s.my_id = Some(0);
    }
    fx
}

// ---------------------------------------------------------------------------
// The secret word
// ---------------------------------------------------------------------------

/// `r` is what `get_suggestions` gives for this prefix, theme and
/// sub-theme.
pub open spec fn suggestions_ok(themes: Seq<Theme>, prefix: Seq<char>, theme: Seq<char>, sub: Option<Seq<char>>, r: Seq<String>) -> bool {
    &&& unicode_upper(prefix).len() == 0 ==> r.len() == 0
    &&& unicode_upper(prefix).len() > 0 ==> exists|x: Seq<Seq<char>>| #![trigger dedup_seq(x)]
        x.to_multiset() == with_prefix(word_pool(themes, theme, sub), unicode_upper(prefix)).to_multiset()
        && strings_sorted(x)
        && views(r) == first_n(dedup_seq(x), 5)
}

/// The sub-theme kept, by its characters.
pub open spec fn sub_view(x: Option<String>) -> Option<Seq<char>> {
    match x {
        Some(v) => Some(v@),
        None => None,
    }
}

/// What is wrong with the typed secret word, if anything (see
/// `check_secret_word`).
pub open spec fn word_problem(themes: Seq<Theme>, input: Seq<char>, d: Difficulty) -> Option<Seq<char>> {
    let n = str_len(trimmed(input));
    let (lo, hi) = length_bounds(d);
    if n < lo || n > hi {
        Some(length_error(d))
    } else if !all_words(themes).contains(unicode_upper(input)) {
        Some(unknown_word_error())
    } else {
        None
    }
}

/// Player `q` is `p` with the secret word `word` of theme `theme`.
pub open spec fn word_given(p: Player, q: Player, word: Seq<char>, theme: Seq<char>) -> bool {
    &&& q.secret_word.content@ == word
    &&& q.secret_word.length == #[verifier::truncate] (str_len(word) as u32)
    &&& q.secret_word.theme@ == theme
    &&& q.secret_word.id == p.secret_word.id
    &&& q.secret_word.rarity == p.secret_word.rarity
    &&& q.secret_word.difficulty_score == p.secret_word.difficulty_score
    &&& q == (Player { secret_word: q.secret_word, ..p })
}

/// The computer player that joins a solo game (see `ai_player`).
pub open spec fn computer_player(themes: Seq<Theme>, d: Difficulty, players: Seq<Player>, r: Player) -> bool {
    &&& r.id == 1
    &&& r.name@ == "IA (Ordinateur)"@
    &&& r.control_type == ControlType::AI
    &&& r.status == PlayerStatus::Active
    &&& r.score == 0
    &&& r.energy == 0
    &&& r.progress_on_opponents@ == Map::<u32, Progress>::empty()
    &&& !r.is_eliminated
    &&& r.turns_played == 0
    &&& r.correct_guesses == 0
    &&& exists|theme: Seq<char>, sub: Option<Seq<char>>| #[trigger] drawn_word(themes, theme, sub, r.secret_word)
        && (d == Difficulty::Easy ==> theme == easy_ai_theme(players))
        && (d != Difficulty::Easy && themes.len() > 0 ==> theme_names(themes).contains(theme))
        && (d != Difficulty::Easy && themes.len() == 0 ==> theme == fallback_theme())
        && (sub_themes_of(themes, theme).len() > 0 ==> (sub matches Some(x) && sub_themes_of(themes, theme).contains(x)))
        && (sub_themes_of(themes, theme).len() == 0 ==> sub is None)
}

/// The players after the typed word is given to the last one set up.
pub open spec fn players_with_word(ps: Seq<Player>, qs: Seq<Player>, word: Seq<char>, theme: Seq<char>) -> bool {
    if ps.len() > 0 {
        qs.len() == ps.len() && qs.drop_last() == ps.drop_last() && word_given(ps.last(), qs.last(), word, theme)
    } else {
        qs == ps
    }
}

/// A word accepted at setup: the last player set up gets it, the next
/// player is due; in a solo game the computer player joins. Once everybody
/// is set up, the game starts; else the next player types their name.
pub open spec fn word_accepted(s: UiState, themes: Seq<Theme>, t: UiState, fx: Seq<UiEffect>) -> bool {
    exists|u: UiState| #[trigger] word_kept(s, themes, u) && {
        if setup_done_spec(u) { game_started(u, t, fx) } else {
            t == UiState { screen: AppState::SetupEnterPlayerName, input: t.input, cursor: 0, ..u } && input_cleared(t)
                && fx.len() == 0
        }
    }
}

/// Every player is set up.
pub open spec fn setup_done_spec(u: UiState) -> bool {
    u.is_solo || u.setup_player_index >= u.total_players
}

/// The state `u` once the accepted word is kept (before the game may start).
pub open spec fn word_kept(s: UiState, themes: Seq<Theme>, u: UiState) -> bool {
    &&& u == UiState { input_error: None, temp_players: u.temp_players, setup_player_index: up_one(s.setup_player_index),
        ai: u.ai, ..s }
    &&& exists|qs: Seq<Player>| #[trigger] players_with_word(s.temp_players@, qs, s.input@, s.setup_theme@) && {
        if s.is_solo {
            &&& u.temp_players@.len() == qs.len() + 1
            &&& u.temp_players@.drop_last() == qs
            &&& computer_player(themes, s.difficulty, qs, u.temp_players@.last())
            &&& u.ai matches Some(a) && a.difficulty == s.difficulty && a.tried_letters@.len() == 0
        } else {
            u.temp_players@ == qs && u.ai == s.ai
        }
    }
}

/// Typing one's secret word: letters are kept in upper case; Tab offers
/// up to five words of the theme that start with what is typed, which the
/// arrows go through, Enter takes and Esc hides; Enter checks the word
/// (length for the difficulty, and the dictionary) and keeps it; Esc drops
/// the player and goes back to the name.
pub open spec fn secret_word_step(s: UiState, themes: Seq<Theme>, k: Key, t: UiState, fx: Seq<UiEffect>) -> bool {
    let show = s.show_suggestions;
    let n = s.suggestions@.len();
    if k == Key::Tab {
        &&& fx.len() == 0
        &&& if t.show_suggestions {
            t == UiState { show_suggestions: true, suggestions: t.suggestions, suggestion_index: 0, ..s }
                && t.suggestions@.len() > 0
                && suggestions_ok(themes, s.input@, s.setup_theme@, sub_view(s.setup_sub_theme), t.suggestions@)
        } else {
            t == UiState { show_suggestions: false, ..s }
                && suggestions_ok(themes, s.input@, s.setup_theme@, sub_view(s.setup_sub_theme), Seq::empty())
        }
    } else if k == Key::Down && show {
        t == UiState { suggestion_index: next_in(s.suggestion_index, n), ..s } && fx.len() == 0
    } else if k == Key::Up && show {
        t == UiState { suggestion_index: prev_in(s.suggestion_index, n), ..s } && fx.len() == 0
    } else if k == Key::Esc && show {
        t == UiState { show_suggestions: false, ..s } && fx.len() == 0
    } else if k is Char && alphabetic(k->0) {
        typed(UiState { show_suggestions: false, ..s }, ascii_upper(k->0), t) && fx.len() == 0
    } else if k == Key::Backspace {
        fx.len() == 0 && if s.input@.len() > 0 { erased(UiState { show_suggestions: false, ..s }, t) } else { t == s }
    } else if k == Key::Enter && show {
        fx.len() == 0 && if s.suggestion_index < n {
            let w = s.suggestions@[s.suggestion_index as int]@;
            t == UiState { input: t.input, cursor: w.len() as usize, show_suggestions: false, ..s } && t.input@ == w
        } else {
            t == s
        }
    } else if k == Key::Enter {
        match word_problem(themes, s.input@, s.difficulty) {
            Some(m) => t == UiState { input_error: t.input_error, ..s } && (t.input_error matches Some(x) && x@ == m)
                && fx.len() == 0,
            None => word_accepted(s, themes, t, fx),
        }
    } else if k == Key::Esc {
        t == UiState { temp_players: t.temp_players, screen: AppState::SetupEnterPlayerName, input: t.input, cursor: 0, ..s }
            && input_cleared(t) && fx.len() == 0
            && t.temp_players@ == if s.temp_players@.len() > 0 { s.temp_players@.drop_last() } else { s.temp_players@ }
    } else {
        t == s && fx.len() == 0
    }
}

fn give_word(s: &mut UiState)
    ensures
        *final(s) == (UiState { input_error: None, temp_players: final(s).temp_players, setup_player_index: up_one(old(s).setup_player_index),
            ..*old(s) }),
        players_with_word(old(s).temp_players@, final(s).temp_players@, old(s).input@, old(s).setup_theme@),
{
    s.input_error = None;
    let word = string_from_chars(&s.input);
    let ghost before = s.temp_players@;
    match s.temp_players.pop() {
        Some(p) => {
            let mut p = p;
            set_secret_word(&mut p, word.as_str(), s.setup_theme.as_str());
            s.temp_players.push(p);
            assert(s.temp_players@.drop_last() =~= before.drop_last());
        }
        None => {}
    }
    if s.setup_player_index < usize::MAX {
        s.setup_player_index = s.setup_player_index + 1;
    }
}

fn add_computer(s: &mut UiState, themes: &Vec<Theme>)
    requires
        old(s).is_solo,
    ensures
        *final(s) == (UiState { temp_players: final(s).temp_players, ai: final(s).ai, ..*old(s) }),
        final(s).temp_players@.len() == old(s).temp_players@.len() + 1,
        final(s).temp_players@.drop_last() == old(s).temp_players@,
        computer_player(themes@, old(s).difficulty, old(s).temp_players@, final(s).temp_players@.last()),
        final(s).ai matches Some(a) && a.difficulty == old(s).difficulty && a.tried_letters@.len() == 0,
{
    let ai = ai_player(themes, s.difficulty, &s.temp_players);
    s.temp_players.push(ai);
    assert(s.temp_players@.drop_last() =~= old(s).temp_players@);
    s.ai = Some(AI::new(s.difficulty));
}

fn keep_word(s: &mut UiState, themes: &Vec<Theme>)
    ensures
        word_kept(*old(s), themes@, *final(s)),
{
    give_word(s);
    let ghost qs = s.temp_players@;
    if s.is_solo {
        add_computer(s, themes);
    }
    assert(players_with_word(old(s).temp_players@, qs, old(s).input@, old(s).setup_theme@));
}

fn word_enter(s: &mut UiState, themes: &Vec<Theme>) -> (fx: Vec<UiEffect>)
    ensures
        word_problem(themes@, old(s).input@, old(s).difficulty) is None ==> word_accepted(*old(s), themes@, *final(s), fx@),
        word_problem(themes@, old(s).input@, old(s).difficulty) matches Some(m) ==> *final(s) == (UiState {
            input_error: final(s).input_error, ..*old(s) }) && (final(s).input_error matches Some(x) && x@ == m) && fx@.len() == 0,
{
    let text = string_from_chars(&s.input);
    match check_secret_word(themes, text.as_str(), s.difficulty) {
        Err(m) => {
            s.input_error = Some(m);
            Vec::new()
        }
        Ok(()) => {
            keep_word(s, themes);
            let ghost u = *s;
            if setup_done(s.is_solo, s.setup_player_index, s.total_players) {
                let fx = start_game(s);
                assert(word_kept(*old(s), themes@, u));
                fx
            } else {
                s.screen = AppState::SetupEnterPlayerName;
                clear_input(s);
                assert(word_kept(*old(s), themes@, u));
                Vec::new()
            }
        }
    }
}

fn take_suggestion(s: &mut UiState)
    requires
        old(s).suggestion_index < old(s).suggestions@.len(),
    ensures
        ({
            let w = old(s).suggestions@[old(s).suggestion_index as int]@;
            *final(s) == (UiState { input: final(s).input, cursor: w.len() as usize, show_suggestions: false, ..*old(s) })
                && final(s).input@ == w
        }),
{
    let w = chars_of(s.suggestions[s.suggestion_index].as_str());
    s.cursor = w.len();
    s.input = w;
    s.show_suggestions = false;
}

fn fetch_suggestions(s: &mut UiState, themes: &Vec<Theme>)
    ensures
        secret_word_step(*old(s), themes@, Key::Tab, *final(s), Seq::empty()),
{
    let prefix = string_from_chars(&s.input);
    let found = match &s.setup_sub_theme {
        Some(x) => get_suggestions(themes, prefix.as_str(), s.setup_theme.as_str(), Some(x.as_str())),
        None => get_suggestions(themes, prefix.as_str(), s.setup_theme.as_str(), None),
    };
    if found.len() > 0 {
        s.show_suggestions = true;
        s.suggestions = found;
        s.suggestion_index = 0;
    } else {
        s.show_suggestions = false;
        assert(found@ =~= Seq::<String>::empty());
    }
}

fn secret_word_key(s: &mut UiState, themes: &Vec<Theme>, k: Key) -> (fx: Vec<UiEffect>)
    ensures
        secret_word_step(*old(s), themes@, k, *final(s), fx@),
{
    let show = s.show_suggestions;
    let n = s.suggestions.len();
    if k == Key::Tab {
        fetch_suggestions(s, themes);
        return Vec::new();
    } else if k == Key::Down && show {
        s.suggestion_index = list_down(s.suggestion_index, n);
        return Vec::new();
    } else if k == Key::Up && show {
        s.suggestion_index = list_up(s.suggestion_index, n);
        return Vec::new();
    } else if k == Key::Esc && show {
        s.show_suggestions = false;
        return Vec::new();
    }
    match k {
        Key::Char(c) => {
            if is_alphabetic(c) {
                s.show_suggestions = false;
                type_char(s, char_to_ascii_uppercase(c));
                return Vec::new();
            }
        }
        _ => {}
    }
    if k == Key::Backspace {
        if s.input.len() > 0 {
            s.show_suggestions = false;
            erase_char(s);
        }
        Vec::new()
    } else if k == Key::Enter && show {
        if s.suggestion_index < n {
            take_suggestion(s);
        }
        Vec::new()
    } else if k == Key::Enter {
        word_enter(s, themes)
    } else if k == Key::Esc {
        s.temp_players.pop();
        s.screen = AppState::SetupEnterPlayerName;
        clear_input(s);
        Vec::new()
    } else {
        Vec::new()
    }
}

// ---------------------------------------------------------------------------
// The game log
// ---------------------------------------------------------------------------

/// The player whose turn it is.
pub open spec fn cur_of(g: Game) -> Player {
    g.players@[(g.current_turn % g.players.len()) as int]
}

/// The round being played.
pub open spec fn round_of(g: Game) -> nat {
    (g.current_turn / g.players.len() + 1) as nat
}

/// The line that opens round `r` in the log.
pub open spec fn round_line(r: nat) -> Seq<char> {
    "> [Tour "@ + decimal(r) + "]"@
}

/// A new round began since the last one logged (and its number can be
/// counted).
pub open spec fn round_due(g: Game, last: usize) -> bool {
    g.players.len() > 0 && g.current_turn / g.players.len() + 1 <= usize::MAX && round_of(g) > last
}

/// The log once the round of `g` is logged, when it is new.
pub open spec fn log_after_round(log: Seq<Seq<char>>, g: Game, last: usize) -> Seq<Seq<char>> {
    if round_due(g, last) { log.push(round_line(round_of(g))) } else { log }
}

/// The last round logged once the round of `g` is logged, when it is new.
pub open spec fn last_after_round(g: Game, last: usize) -> usize {
    if round_due(g, last) { round_of(g) as usize } else { last }
}

/// `t` is `s` once the round is logged, when a new one began.
pub open spec fn round_logged(s: UiState, t: UiState) -> bool {
    match s.game {
        Some(g) => t == UiState { log: t.log, last_log_turn: last_after_round(g, s.last_log_turn), ..s }
            && views(t.log@) == log_after_round(views(s.log@), g, s.last_log_turn),
        None => t == s,
    }
}

/// The log keeps its last ten lines.
pub open spec fn capped(l: Seq<Seq<char>>) -> Seq<Seq<char>> {
    if l.len() > 10 { l.drop_first() } else { l }
}

/// The id of the local player, 0 while none is known.
pub open spec fn me_or_zero(my_id: Option<u32>) -> u32 {
    match my_id { Some(i) => i, None => 0 }
}

/// The buzzer notice, when due, is all that is done besides.
pub open spec fn notices(game: Option<Game>, my_id: Option<u32>, shown: Seq<Action>, fx: Seq<UiEffect>) -> bool {
    if buzz_due(energy_of(game, my_id), shown) { fx.len() == 1 && is_buzz_notice(fx[0]) } else { fx.len() == 0 }
}

fn round_text(r: usize) -> (t: String)
    ensures
        t@ == round_line(r as nat),
{
    let mut t = String::from_str("> [Tour ");
    let d = usize_to_string(r);
    t.append(d.as_str());
    t.append("]");
    t
}

fn push_line(s: &mut UiState, line: String)
    ensures
        *final(s) == (UiState { log: final(s).log, ..*old(s) }),
        views(final(s).log@) == views(old(s).log@).push(line@),
{
    proof { lemma_views_push(s.log@, line); }
    s.log.push(line);
}

fn log_round(s: &mut UiState)
    ensures
        round_logged(*old(s), *final(s)),
{
    let r: Option<usize> = match &s.game {
        Some(g) => if g.players.len() > 0 && g.current_turn / g.players.len() < usize::MAX {
            Some(g.current_turn / g.players.len() + 1)
        } else {
            None
        },
        None => None,
    };
    match r {
        Some(r) => {
            if r > s.last_log_turn {
                push_line(s, round_text(r));
                s.last_log_turn = r;
            }
        }
        None => {}
    }
}

/// `prefix` then `text`.
fn joined(prefix: &str, text: &str) -> (r: String)
    ensures
        r@ == prefix@ + text@,
{
    let mut r = String::from_str(prefix);
    r.append(text);
    r
}

// ---------------------------------------------------------------------------
// The playing screen
// ---------------------------------------------------------------------------

/// The power grid shows in the panels.
pub open spec fn powers_shown(s: UiState) -> bool {
    match s.game {
        Some(g) => my_energy(s) >= 100 && g.difficulty != Difficulty::Easy,
        None => false,
    }
}

/// Up and Down move the cursor of the action menu or of the system menu
/// (three entries), going round.
pub open spec fn list_moved(s: UiState, k: Key, t: UiState) -> bool {
    if s.focus == Focus::Actions {
        t == UiState { playing_sel: if k == Key::Down { next_in(s.playing_sel, s.actions@.len()) } else {
            prev_in(s.playing_sel, s.actions@.len()) }, ..s }
    } else if s.focus == Focus::System {
        t == UiState { system_sel: if k == Key::Down { next_in(s.system_sel, 3) } else { prev_in(s.system_sel, 3) }, ..s }
    } else {
        t == s
    }
}

/// The opponents on the notebook carousel.
pub open spec fn opponents(s: UiState) -> usize {
    match s.game {
        Some(g) => if g.players.len() > 0 { (g.players.len() - 1) as usize } else { 0 },
        None => 0,
    }
}

/// Left and Right move within the panel that has the focus: the system
/// menu and the power grid go round, the log scrolls, the notebook
/// carousel turns.
pub open spec fn panel_moved(s: UiState, k: Key, t: UiState) -> bool {
    let fwd = k == Key::Right;
    let n = opponents(s);
    let i = s.opponent_index;
    if s.focus == Focus::System {
        t == UiState { system_sel: if fwd { next_in(s.system_sel, 3) } else { prev_in(s.system_sel, 3) }, ..s }
    } else if s.focus == Focus::Powers {
        t == UiState { power_grid_sel: if fwd { next_in(s.power_grid_sel, 2) } else { prev_in(s.power_grid_sel, 2) }, ..s }
    } else if s.focus == Focus::GameLog {
        t == UiState { log_scroll: if fwd { up_one(s.log_scroll) } else { down_one(s.log_scroll) }, ..s }
    } else if s.focus == Focus::Notebook {
        if fwd {
            if i < usize::MAX {
                t == UiState { opponent_index: if n > 1 { ((i + 1) % (n as int)) as usize } else { i }, ..s }
            } else {
                t == s
            }
        } else {
            t == UiState { opponent_index: if n > 1 { if i == 0 { (n - 1) as usize } else { (i - 1) as usize } } else { i }, ..s }
        }
    } else {
        t == s
    }
}

/// The players that can be targeted by the player whose turn it is.
pub open spec fn turn_targets(s: UiState) -> Seq<(u32, Seq<char>)> {
    match s.game {
        Some(g) => if g.players.len() > 0 { targets_of(g.players@, cur_of(g).id) } else { Seq::empty() },
        None => Seq::empty(),
    }
}

/// The targets are listed; when there is a single one it is taken at once
/// and the screen `next` opens, else the player picks one.
pub open spec fn targets_shown(s: UiState, next: AppState, t: UiState) -> bool {
    let ts = turn_targets(s);
    &&& pair_views(t.targets@) == ts
    &&& if ts.len() == 1 {
        t == UiState { targets: t.targets, selected_target: Some(ts[0].0), screen: next, input: t.input, cursor: 0, ..s } && input_cleared(t)
    } else {
        t == UiState { targets: t.targets, screen: AppState::SelectTarget, target_sel: 0, ..s }
    }
}

/// The energy of the player whose turn it is.
pub open spec fn turn_energy(s: UiState) -> u32 {
    match s.game {
        Some(g) => if g.players.len() > 0 { cur_of(g).energy } else { 0 },
        None => 0,
    }
}

/// It is the local player's turn (always, while no game or no id is known).
pub open spec fn my_turn(s: UiState) -> bool {
    match (s.game, s.my_id) {
        (Some(g), Some(me)) => g.players.len() > 0 && cur_of(g).id == me,
        _ => true,
    }
}

/// The line logged when the buzz is refused.
pub open spec fn buzz_refusal(energy: u32) -> Seq<char> {
    "⚠️ Buzz non prêt ("@ + decimal(energy as nat) + "%)"@
}

/// The turn is passed by the player: the round is logged, the turn passes,
/// and the action menu is set again.
pub open spec fn turn_skipped(s: UiState, t: UiState, fx: Seq<UiEffect>) -> bool {
    match s.game {
        Some(g) => if !turn_can_pass(g) {
            t == s && fx == seq![UiEffect::CounterLimit]
        } else {
            &&& t == UiState { game: t.game, log: t.log, actions: t.actions, screen: AppState::Playing, thinking_timer: false, ..s }
            &&& t.game matches Some(h) && turn_passed(g, h)
            &&& views(t.log@) == views(s.log@).push(round_line(round_of(g)))
            &&& t.actions@ == menu_actions()
            &&& notices(t.game, s.my_id, s.actions@, fx)
        },
        None => t == UiState { actions: t.actions, screen: AppState::Playing, thinking_timer: false, ..s } && t.actions@ == menu_actions()
            && notices(s.game, s.my_id, s.actions@, fx),
    }
}

/// Enter on the action menu, on the local player's turn: a letter or a
/// word go to the choice of target; the buzz too, once the energy is full,
/// else it is refused in the log (which keeps its last ten lines); the
/// powers open their menu; the turn can be passed.
pub open spec fn action_chosen(s: UiState, t: UiState, fx: Seq<UiEffect>) -> bool {
    if !my_turn(s) {
        t == UiState { last_result: t.last_result, last_success: false, ..s } && t.last_result@ == "Ce n'est pas votre tour !"@
            && fx.len() == 0
    } else if s.playing_sel >= s.actions@.len() {
        t == s && fx.len() == 0
    } else {
        match s.actions@[s.playing_sel as int] {
            Action::ProposeLetter => targets_shown(s, AppState::InputLetter, t) && fx.len() == 0,
            Action::GuessWord => targets_shown(s, AppState::InputGuess, t) && fx.len() == 0,
            Action::Buzz => fx.len() == 0 && if turn_energy(s) < 100 {
                t == UiState { log: t.log, ..s } && views(t.log@) == capped(views(s.log@).push(buzz_refusal(turn_energy(s))))
            } else {
                targets_shown(s, AppState::InputGuess, t)
            },
            Action::UsePower => t == UiState { screen: AppState::SelectPower, power_sel: 0, ..s } && fx.len() == 0,
            Action::SkipTurn => turn_skipped(s, t, fx),
        }
    }
}

/// Enter on the playing screen, by the panel that has the focus.
pub open spec fn playing_entered(s: UiState, t: UiState, fx: Seq<UiEffect>) -> bool {
    if s.focus == Focus::Powers {
        t == UiState { power_sel: s.power_grid_sel, screen: AppState::SelectPower, ..s } && fx.len() == 0
    } else if s.focus == Focus::Actions {
        action_chosen(s, t, fx)
    } else if s.focus == Focus::System {
        fx.len() == 0 && if s.system_sel == 0 {
            t == UiState { screen: AppState::Paused, ..s }
        } else if s.system_sel == 1 {
            t == quit_asked(s, AppState::Playing)
        } else {
            t == s
        }
    } else {
        t == s && fx.len() == 0
    }
}

/// A key on the playing screen: `q` asks to quit, Esc pauses, Tab moves
/// the focus (over the powers only when they show), the arrows move
/// within the panels, Enter acts.
pub open spec fn playing_step(s: UiState, k: Key, t: UiState, fx: Seq<UiEffect>) -> bool {
    if k == Key::Char('q') {
        t == quit_asked(s, AppState::Playing) && fx.len() == 0
    } else if k == Key::Esc {
        t == UiState { screen: AppState::Paused, ..s } && fx.len() == 0
    } else if k == Key::Tab {
        t == UiState { focus: focus_after(s.focus, powers_shown(s)), ..s } && fx.len() == 0
    } else if k == Key::Down || k == Key::Up {
        list_moved(s, k, t) && fx.len() == 0
    } else if k == Key::Right || k == Key::Left {
        panel_moved(s, k, t) && fx.len() == 0
    } else if k == Key::Enter {
        playing_entered(s, t, fx)
    } else {
        t == s && fx.len() == 0
    }
}

fn move_list(s: &mut UiState, k: Key)
    ensures
        list_moved(*old(s), k, *final(s)),
{
    if s.focus == Focus::Actions {
        let n = s.actions.len();
        s.playing_sel = if k == Key::Down { list_down(s.playing_sel, n) } else { list_up(s.playing_sel, n) };
    } else if s.focus == Focus::System {
        s.system_sel = if k == Key::Down { list_down(s.system_sel, 3) } else { list_up(s.system_sel, 3) };
    }
}

fn opponents_now(s: &UiState) -> (r: usize)
    ensures
        r == opponents(*s),
{
    match &s.game {
        Some(g) => if g.players.len() > 0 { g.players.len() - 1 } else { 0 },
        None => 0,
    }
}

fn move_panel(s: &mut UiState, k: Key)
    ensures
        panel_moved(*old(s), k, *final(s)),
{
    let fwd = k == Key::Right;
    if s.focus == Focus::System {
        s.system_sel = if fwd { list_down(s.system_sel, 3) } else { list_up(s.system_sel, 3) };
    } else if s.focus == Focus::Powers {
        s.power_grid_sel = if fwd { list_down(s.power_grid_sel, 2) } else { list_up(s.power_grid_sel, 2) };
    } else if s.focus == Focus::GameLog {
        if fwd {
            if s.log_scroll < usize::MAX {
                s.log_scroll = s.log_scroll + 1;
            }
        } else if s.log_scroll > 0 {
            s.log_scroll = s.log_scroll - 1;
        }
    } else if s.focus == Focus::Notebook {
        let n = opponents_now(s);
        if fwd {
            if s.opponent_index < usize::MAX {
                s.opponent_index = carousel_next(s.opponent_index, n);
            }
        } else {
            s.opponent_index = carousel_prev(s.opponent_index, n);
        }
    }
}

fn turn_targets_now(s: &UiState) -> (r: Vec<(u32, String)>)
    ensures
        pair_views(r@) == turn_targets(*s),
{
    match &s.game {
        Some(g) => if g.players.len() > 0 {
            let me = g.current_player().id;
            target_choices(g, me)
        } else {
            let r: Vec<(u32, String)> = Vec::new();
            assert(pair_views(r@) =~= Seq::<(u32, Seq<char>)>::empty());
            r
        },
        None => {
            let r: Vec<(u32, String)> = Vec::new();
            assert(pair_views(r@) =~= Seq::<(u32, Seq<char>)>::empty());
            r
        },
    }
}

fn show_targets(s: &mut UiState, next: AppState)
    ensures
        targets_shown(*old(s), next, *final(s)),
{
    let ts = turn_targets_now(s);
    if ts.len() == 1 {
        s.selected_target = Some(ts[0].0);
        s.targets = ts;
        s.screen = next;
        clear_input(s);
    } else {
        s.targets = ts;
        s.screen = AppState::SelectTarget;
        s.target_sel = 0;
    }
}

fn turn_energy_now(s: &UiState) -> (r: u32)
    ensures
        r == turn_energy(*s),
{
    match &s.game {
        Some(g) => if g.players.len() > 0 { g.current_player().energy } else { 0 },
        None => 0,
    }
}

fn refuse_buzz(s: &mut UiState, energy: u32)
    ensures
        *final(s) == (UiState { log: final(s).log, ..*old(s) }),
        views(final(s).log@) == capped(views(old(s).log@).push(buzz_refusal(energy))),
{
    let mut line = String::from_str("⚠️ Buzz non prêt (");
    let d = u32_to_string(energy);
    line.append(d.as_str());
    line.append("%)");
    push_line(s, line);
    if s.log.len() > 10 {
        let ghost before = s.log@;
        s.log.remove(0);
        assert(views(s.log@) =~= views(before).drop_first());
    }
}

fn skip_turn(s: &mut UiState) -> (fx: Vec<UiEffect>)
    ensures
        turn_skipped(*old(s), *final(s), fx@),
{
    let mut fx: Vec<UiEffect> = Vec::new();
    let mut game = None;
    std::mem::swap(&mut game, &mut s.game);
    match game {
        Some(g) => {
            let mut g = g;
            if !g.can_pass_turn() {
                s.game = Some(g);
                fx.push(UiEffect::CounterLimit);
                return fx;
            }
            let r = g.current_turn / g.players.len() + 1;
            push_line(s, round_text(r));
            g.next_turn();
            s.game = Some(g);
        }
        None => {}
    }
    let notes = refresh_actions(s);
    s.screen = AppState::Playing;
    s.thinking_timer = false;
    notes
}

fn my_turn_now(s: &UiState) -> (r: bool)
    ensures
        r == my_turn(*s),
{
    match (&s.game, s.my_id) {
        (Some(g), Some(me)) => g.players.len() > 0 && g.current_player().id == me,
        _ => true,
    }
}

fn choose_action(s: &mut UiState) -> (fx: Vec<UiEffect>)
    ensures
        action_chosen(*old(s), *final(s), fx@),
{
    if !my_turn_now(s) {
        s.last_result = String::from_str("Ce n'est pas votre tour !");
        s.last_success = false;
        return Vec::new();
    }
    if s.playing_sel >= s.actions.len() {
        return Vec::new();
    }
    match s.actions[s.playing_sel] {
        Action::ProposeLetter => {
            show_targets(s, AppState::InputLetter);
            Vec::new()
        }
        Action::GuessWord => {
            show_targets(s, AppState::InputGuess);
            Vec::new()
        }
        Action::Buzz => {
            let energy = turn_energy_now(s);
            if !can_buzz(energy) {
                refuse_buzz(s, energy);
            } else {
                show_targets(s, AppState::InputGuess);
            }
            Vec::new()
        }
        Action::UsePower => {
            s.screen = AppState::SelectPower;
            s.power_sel = 0;
            Vec::new()
        }
        Action::SkipTurn => skip_turn(s),
    }
}

fn playing_enter(s: &mut UiState) -> (fx: Vec<UiEffect>)
    ensures
        playing_entered(*old(s), *final(s), fx@),
{
    if s.focus == Focus::Powers {
        s.power_sel = s.power_grid_sel;
        s.screen = AppState::SelectPower;
        Vec::new()
    } else if s.focus == Focus::Actions {
        choose_action(s)
    } else if s.focus == Focus::System {
        if s.system_sel == 0 {
            s.screen = AppState::Paused;
        } else if s.system_sel == 1 {
            ask_quit(s, AppState::Playing);
        }
        Vec::new()
    } else {
        Vec::new()
    }
}

fn powers_shown_now(s: &UiState) -> (r: bool)
    ensures
        r == powers_shown(*s),
{
    let energy = energy_now(&s.game, s.my_id);
    match &s.game {
        Some(g) => powers_visible(energy, g.difficulty),
        None => false,
    }
}

fn playing_key(s: &mut UiState, k: Key) -> (fx: Vec<UiEffect>)
    ensures
        playing_step(*old(s), k, *final(s), fx@),
{
    if k == Key::Char('q') {
        ask_quit(s, AppState::Playing);
        Vec::new()
    } else if k == Key::Esc {
        s.screen = AppState::Paused;
        Vec::new()
    } else if k == Key::Tab {
        let show = powers_shown_now(s);
        s.focus = next_focus(s.focus, show);
        Vec::new()
    } else if k == Key::Down || k == Key::Up {
        move_list(s, k);
        Vec::new()
    } else if k == Key::Right || k == Key::Left {
        move_panel(s, k);
        Vec::new()
    } else if k == Key::Enter {
        playing_enter(s)
    } else {
        Vec::new()
    }
}

// ---------------------------------------------------------------------------
// Targets and powers
// ---------------------------------------------------------------------------

/// The screen a target leads to, by the action picked: a letter, a word
/// (or a buzz), or back to play.
pub open spec fn after_target(sel: usize) -> AppState {
    if sel == 0 {
        AppState::InputLetter
    } else if sel == 1 || sel == 2 {
        AppState::InputGuess
    } else {
        AppState::Playing
    }
}

/// Picking a target on a grid of two columns: Up and Down move by a row
/// and stop at the edges, Left and Right go round; Enter takes the target
/// and opens the input of the action picked.
pub open spec fn target_step(s: UiState, k: Key, t: UiState) -> bool {
    let n = s.targets@.len();
    let c = s.target_sel;
    if k == Key::Char('q') {
        t == quit_asked(s, AppState::SelectTarget)
    } else if k == Key::Esc {
        t == UiState { screen: AppState::Playing, ..s }
    } else if k == Key::Up && n > 0 {
        t == UiState { target_sel: if c >= 2 { (c - 2) as usize } else { c }, ..s }
    } else if k == Key::Down && n > 0 {
        t == UiState { target_sel: if c + 2 < n { (c + 2) as usize } else { c }, ..s }
    } else if k == Key::Left {
        t == UiState { target_sel: prev_in(c, n), ..s }
    } else if k == Key::Right {
        t == UiState { target_sel: next_in(c, n), ..s }
    } else if k == Key::Enter {
        if c < n {
            t == UiState { selected_target: Some(s.targets@[c as int].0), screen: after_target(s.playing_sel), input: t.input, cursor: 0,
                ..s } && input_cleared(t)
        } else {
            t == s
        }
    } else {
        t == s
    }
}

fn target_key(s: &mut UiState, k: Key)
    ensures
        target_step(*old(s), k, *final(s)),
{
    let n = s.targets.len();
    let c = s.target_sel;
    if k == Key::Char('q') {
        ask_quit(s, AppState::SelectTarget);
    } else if k == Key::Esc {
        s.screen = AppState::Playing;
    } else if k == Key::Up && n > 0 {
        s.target_sel = if c >= 2 { c - 2 } else { c };
    } else if k == Key::Down && n > 0 {
        s.target_sel = if n >= 2 && c < n - 2 { c + 2 } else { c };
    } else if k == Key::Left {
        s.target_sel = list_up(c, n);
    } else if k == Key::Right {
        s.target_sel = list_down(c, n);
    } else if k == Key::Enter {
        if c < n {
            s.selected_target = Some(s.targets[c].0);
            s.screen = if s.playing_sel == 0 {
                AppState::InputLetter
            } else if s.playing_sel == 1 || s.playing_sel == 2 {
                AppState::InputGuess
            } else {
                AppState::Playing
            };
            clear_input(s);
        }
    }
}

/// A power is used by the local player on the target picked: the public
/// message is shown and logged, and the result shows for a while.
pub open spec fn power_done(s: UiState, p: PowerType, t: UiState, fx: Seq<UiEffect>) -> bool {
    match (s.selected_target, s.game) {
        (Some(target), Some(g)) => {
            &&& t == UiState { game: t.game, last_result: t.last_result, last_success: true, log: t.log, screen: AppState::TurnResult,
                result_timer: true, ..s }
            &&& fx.len() == 1 && fx[0] is ResultClock
            &&& t.game matches Some(h) && exists|e: GameEvent| #[trigger] power_outcome(g, h, me_or_zero(s.my_id), target, p, e)
                && t.last_result@ == e.public_log@ && views(t.log@) == views(s.log@).push("> "@ + e.public_log@)
        },
        _ => t == s && fx.len() == 0,
    }
}

fn apply_power(s: &mut UiState, p: PowerType) -> (fx: Vec<UiEffect>)
    ensures
        power_done(*old(s), p, *final(s), fx@),
{
    let me = match s.my_id {
        Some(i) => i,
        None => 0,
    };
    let target = match s.selected_target {
        Some(x) => x,
        None => return Vec::new(),
    };
    let mut game = None;
    std::mem::swap(&mut game, &mut s.game);
    match game {
        Some(g) => {
            let mut g = g;
            let ghost g0 = g;
            let e = g.use_power(me, target, p);
            assert(power_outcome(g0, g, me, target, p, e));
            s.game = Some(g);
            s.last_result = String::from_str(e.public_log.as_str());
            s.last_success = true;
            push_line(s, joined("> ", e.public_log.as_str()));
            s.screen = AppState::TurnResult;
            s.result_timer = true;
            let mut fx: Vec<UiEffect> = Vec::new();
            fx.push(UiEffect::ResultClock);
            assert(s.game matches Some(h) && power_outcome(g0, h, me_or_zero(old(s).my_id), target, p, e)
                && s.last_result@ == e.public_log@ && views(s.log@) == views(old(s).log@).push("> "@ + e.public_log@));
            fx
        }
        None => {
            s.game = None;
            Vec::new()
        }
    }
}

/// Enter on the power menu: the targets are listed; with none, a notice
/// says so and play goes on.
pub open spec fn power_entered(s: UiState, t: UiState, fx: Seq<UiEffect>) -> bool {
    let ts = if s.game is Some { turn_targets(s) } else { pair_views(s.targets@) };
    &&& if s.game is Some { pair_views(t.targets@) == ts } else { t.targets == s.targets }
    &&& if ts.len() > 0 {
        t == UiState { targets: t.targets, target_sel: 0, screen: AppState::SelectPowerTarget, ..s } && fx.len() == 0
    } else {
        t == UiState { targets: t.targets, screen: AppState::Playing, ..s } && fx.len() == 1
            && (fx[0] matches UiEffect::Notify(m) && m@ == "Aucune cible disponible !"@)
    }
}

/// The power menu (two powers, going round): Enter goes on to the target.
pub open spec fn power_step(s: UiState, k: Key, t: UiState, fx: Seq<UiEffect>) -> bool {
    if k == Key::Esc {
        t == UiState { screen: AppState::Playing, ..s } && fx.len() == 0
    } else if k == Key::Up {
        t == UiState { power_sel: prev_in(s.power_sel, 2), ..s } && fx.len() == 0
    } else if k == Key::Down {
        t == UiState { power_sel: next_in(s.power_sel, 2), ..s } && fx.len() == 0
    } else if k == Key::Enter {
        power_entered(s, t, fx)
    } else {
        t == s && fx.len() == 0
    }
}

fn power_enter(s: &mut UiState) -> (fx: Vec<UiEffect>)
    ensures
        power_entered(*old(s), *final(s), fx@),
{
    if s.game.is_some() {
        s.targets = turn_targets_now(s);
    }
    let mut fx: Vec<UiEffect> = Vec::new();
    if s.targets.len() > 0 {
        s.target_sel = 0;
        s.screen = AppState::SelectPowerTarget;
    } else {
        fx.push(UiEffect::Notify(String::from_str("Aucune cible disponible !")));
        s.screen = AppState::Playing;
    }
    fx
}

fn power_key(s: &mut UiState, k: Key) -> (fx: Vec<UiEffect>)
    ensures
        power_step(*old(s), k, *final(s), fx@),
{
    if k == Key::Esc {
        s.screen = AppState::Playing;
        Vec::new()
    } else if k == Key::Up {
        s.power_sel = list_up(s.power_sel, 2);
        Vec::new()
    } else if k == Key::Down {
        s.power_sel = list_down(s.power_sel, 2);
        Vec::new()
    } else if k == Key::Enter {
        power_enter(s)
    } else {
        Vec::new()
    }
}

/// The target of a power: Enter takes it; the first power (Voyance) then
/// asks for a letter, the second (Révélation) is used at once.
pub open spec fn power_target_step(s: UiState, k: Key, t: UiState, fx: Seq<UiEffect>) -> bool {
    let n = s.targets@.len();
    if k == Key::Esc {
        t == UiState { screen: AppState::SelectPower, ..s } && fx.len() == 0
    } else if k == Key::Up {
        t == UiState { target_sel: prev_in(s.target_sel, n), ..s } && fx.len() == 0
    } else if k == Key::Enter {
        if s.target_sel < n {
            let u = UiState { selected_target: Some(s.targets@[s.target_sel as int].0), ..s };
            if s.power_sel == 0 {
                t == UiState { screen: AppState::SelectPowerLetter, input: t.input, cursor: 0, ..u } && input_cleared(t) && fx.len() == 0
            } else if s.power_sel == 1 {
                power_done(u, PowerType::Revelation, t, fx)
            } else {
                t == u && fx.len() == 0
            }
        } else {
            t == s && fx.len() == 0
        }
    } else if k == Key::Down {
        t == UiState { target_sel: next_in(s.target_sel, n), ..s } && fx.len() == 0
    } else {
        t == s && fx.len() == 0
    }
}

fn power_target_key(s: &mut UiState, k: Key) -> (fx: Vec<UiEffect>)
    ensures
        power_target_step(*old(s), k, *final(s), fx@),
{
    let n = s.targets.len();
    if k == Key::Esc {
        s.screen = AppState::SelectPower;
        Vec::new()
    } else if k == Key::Up {
        s.target_sel = list_up(s.target_sel, n);
        Vec::new()
    } else if k == Key::Enter {
        if s.target_sel < n {
            s.selected_target = Some(s.targets[s.target_sel].0);
            if s.power_sel == 0 {
                s.screen = AppState::SelectPowerLetter;
                clear_input(s);
                Vec::new()
            } else if s.power_sel == 1 {
                apply_power(s, PowerType::Revelation)
            } else {
                Vec::new()
            }
        } else {
            Vec::new()
        }
    } else if k == Key::Down {
        s.target_sel = list_down(s.target_sel, n);
        Vec::new()
    } else {
        Vec::new()
    }
}

/// The letter of a Voyance: a letter uses the power; Esc goes back to the
/// target.
pub open spec fn power_letter_step(s: UiState, k: Key, t: UiState, fx: Seq<UiEffect>) -> bool {
    if k == Key::Esc {
        t == UiState { screen: AppState::SelectPowerTarget, ..s } && fx.len() == 0
    } else if k is Char && alphabetic(k->0) {
        power_done(s, PowerType::Voyance(k->0), t, fx)
    } else {
        t == s && fx.len() == 0
    }
}

fn power_letter_key(s: &mut UiState, k: Key) -> (fx: Vec<UiEffect>)
    ensures
        power_letter_step(*old(s), k, *final(s), fx@),
{
    if k == Key::Esc {
        s.screen = AppState::SelectPowerTarget;
        return Vec::new();
    }
    match k {
        Key::Char(c) => if is_alphabetic(c) {
            apply_power(s, PowerType::Voyance(c))
        } else {
            Vec::new()
        },
        _ => Vec::new(),
    }
}

// ---------------------------------------------------------------------------
// Asking for a letter, guessing a word
// ---------------------------------------------------------------------------

/// The player whose turn it is and the target picked, when both are known.
pub open spec fn mover_and_target(s: UiState) -> Option<(u32, u32)> {
    match (s.game, s.selected_target) {
        (Some(g), Some(target)) => if g.players.len() > 0 { Some((cur_of(g).id, target)) } else { None },
        _ => None,
    }
}

/// The message sent to the host for a move.
pub open spec fn is_move(e: UiEffect, me: u32, kind: NetworkActionType, target: u32, payload: Seq<char>) -> bool {
    e matches UiEffect::Send(NetworkMessage::Action { player_id, action_type, target_id, payload: p })
        && player_id == me && action_type == kind && target_id == Some(target) && p@ == payload
}

/// The letter is asked for: over the network the move goes to the host;
/// else the inquiry opens and the target's answer is awaited.
pub open spec fn letter_sent(s: UiState, t: UiState, fx: Seq<UiEffect>) -> bool {
    match mover_and_target(s) {
        Some((me, target)) => {
            let letter = s.input@[0];
            let g = s.game->0;
            if s.networked {
                &&& t == UiState { input_error: None, screen: AppState::TurnResult, last_result: t.last_result, result_timer: true,
                    input: t.input, cursor: 0, ..s }
                &&& input_cleared(t) && t.last_result@ == "Envoi au serveur..."@
                &&& fx.len() == 2 && is_move(fx[0], me, NetworkActionType::ProposeLetter, target, seq![letter]) && fx[1] is ResultClock
            } else {
                &&& t == UiState { input_error: None, last_result: t.last_result, last_success: true, log: t.log, thinking_timer: true,
                    screen: AppState::TurnResult, result_timer: false, pending_inquiry: Some((me, letter)), input: t.input, cursor: 0, ..s }
                &&& input_cleared(t)
                &&& t.last_result@ == if is_human(g.players@, target) { "En attente de la réponse de l'IA..."@ } else {
                    "Interrogatoire en cours..."@ }
                &&& exists|e: GameEvent| #[trigger] inquiry_event(e, g.players@, me, target, letter)
                    && views(t.log@) == views(s.log@).push("> "@ + e.message_for(me))
                &&& fx.len() == 1 && fx[0] is ThinkingClock
            }
        },
        None => t == UiState { input_error: None, input: t.input, cursor: 0, ..s } && input_cleared(t) && fx.len() == 0,
    }
}

/// Typing the letter to ask for: one letter, kept in upper case.
pub open spec fn letter_step(s: UiState, k: Key, t: UiState, fx: Seq<UiEffect>) -> bool {
    if k is Char && alphabetic(k->0) {
        fx.len() == 0 && if s.input@.len() == 0 { typed(s, ascii_upper(k->0), t) } else { t == s }
    } else if k == Key::Backspace {
        erased(s, t) && fx.len() == 0
    } else if k == Key::Enter {
        if trimmed(s.input@).len() == 0 {
            t == UiState { input_error: t.input_error, ..s } && (t.input_error matches Some(m) && m@ == "Veuillez entrer une lettre."@)
                && fx.len() == 0
        } else {
            letter_sent(s, t, fx)
        }
    } else if k == Key::Esc {
        t == UiState { screen: AppState::Playing, input: t.input, cursor: 0, ..s } && input_cleared(t) && fx.len() == 0
    } else {
        t == s && fx.len() == 0
    }
}

fn mover_and_target_now(s: &UiState) -> (r: Option<(u32, u32)>)
    ensures
        r == mover_and_target(*s),
{
    match (&s.game, s.selected_target) {
        (Some(g), Some(target)) => if g.players.len() > 0 { Some((g.current_player().id, target)) } else { None },
        _ => None,
    }
}

fn send_letter(s: &mut UiState) -> (fx: Vec<UiEffect>)
    requires
        old(s).input@.len() > 0,
    ensures
        letter_sent(*old(s), *final(s), fx@),
{
    s.input_error = None;
    let letter = s.input[0];
    let mut fx: Vec<UiEffect> = Vec::new();
    match mover_and_target_now(s) {
        Some((me, target)) => {
            if s.networked {
                fx.push(UiEffect::Send(NetworkMessage::Action {
                    player_id: me,
                    action_type: NetworkActionType::ProposeLetter,
                    target_id: Some(target),
                    payload: char_string(letter),
                }));
                s.screen = AppState::TurnResult;
                s.last_result = String::from_str("Envoi au serveur...");
                s.result_timer = true;
                fx.push(UiEffect::ResultClock);
            } else {
                let mut game = None;
                std::mem::swap(&mut game, &mut s.game);
                let mut g = game.unwrap();
                let e = g.initiate_inquiry(me, target, letter);
                let human = match g.find_player(target) {
                    Some(i) => g.players[i].control_type == ControlType::Human,
                    None => false,
                };
                s.game = Some(g);
                s.last_result = if human {
                    String::from_str("En attente de la réponse de l'IA...")
                } else {
                    String::from_str("Interrogatoire en cours...")
                };
                s.last_success = true;
                let msg = e.get_message_for(me);
                push_line(s, joined("> ", msg.as_str()));
                s.thinking_timer = true;
                s.screen = AppState::TurnResult;
                s.result_timer = false;
                s.pending_inquiry = Some((me, letter));
                fx.push(UiEffect::ThinkingClock);
            }
        }
        None => {}
    }
    clear_input(s);
    fx
}

fn letter_key(s: &mut UiState, k: Key) -> (fx: Vec<UiEffect>)
    ensures
        letter_step(*old(s), k, *final(s), fx@),
{
    match k {
        Key::Char(c) => {
            if is_alphabetic(c) {
                if s.input.len() == 0 {
                    type_char(s, char_to_ascii_uppercase(c));
                }
            }
            Vec::new()
        }
        Key::Backspace => {
            erase_char(s);
            Vec::new()
        }
        Key::Enter => {
            let text = string_from_chars(&s.input);
            if chars_of(trim(text.as_str())).len() == 0 {
                s.input_error = Some(String::from_str("Veuillez entrer une lettre."));
                Vec::new()
            } else {
                proof {
                    if s.input@.len() == 0 {
                        assert(text@ == s.input@);
                    }
                }
                send_letter(s)
            }
        }
        Key::Esc => {
            clear_input(s);
            s.screen = AppState::Playing;
            Vec::new()
        }
        _ => Vec::new(),
    }
}

/// The guess is made: over the network the move goes to the host; else
/// the guess (or buzz, when it was picked from the menu) is judged, the
/// round is logged when new, and the result is logged after the name of
/// the player whose turn it is (the log keeps its last ten lines).
pub open spec fn guess_sent(s: UiState, t: UiState, fx: Seq<UiEffect>) -> bool {
    let buzz = s.playing_sel == 2;
    match mover_and_target(s) {
        Some((me, target)) => {
            let g = s.game->0;
            if s.networked {
                &&& t == UiState { input_error: None, last_result: t.last_result, screen: AppState::TurnResult, result_timer: true,
                    input: t.input, cursor: 0, ..s }
                &&& input_cleared(t) && t.last_result@ == "Envoi au serveur..."@
                &&& fx.len() == 2 && fx[1] is ResultClock
                &&& is_move(fx[0], me, if buzz { NetworkActionType::Buzz } else { NetworkActionType::GuessWord }, target, s.input@)
            } else if !guess_counters_fit(g.players@, me, target, s.input@, buzz) {
                t == UiState { input_error: None, ..s } && fx.len() == 1 && fx[0] is CounterLimit
            } else {
                &&& t == UiState { input_error: None, game: t.game, last_success: t.last_success, last_result: t.last_result, log: t.log,
                    last_log_turn: t.last_log_turn, screen: AppState::TurnResult, result_timer: true, input: t.input, cursor: 0, ..s }
                &&& input_cleared(t)
                &&& fx.len() == 1 && fx[0] is ResultClock
                &&& t.game matches Some(h) && exists|w: String, e: GameEvent| #[trigger] guess_outcome(g, h, me, target, w,
                    guess_kind(buzz), Some(e)) && w@ == s.input@ && {
                    &&& t.last_success == (e.event_type == GameEventType::WordGuessed)
                    &&& t.last_result@ == e.message_for(me)
                    &&& t.last_log_turn == last_after_round(h, s.last_log_turn)
                    &&& views(t.log@) == capped(log_after_round(views(s.log@), h, s.last_log_turn).push(
                        cur_of(h).name@ + ": "@ + e.message_for(me)))
                }
            }
        },
        None => t == UiState { input_error: None, input: t.input, cursor: 0, ..s } && input_cleared(t) && fx.len() == 0,
    }
}

/// A guess, or a buzz.
pub open spec fn guess_kind(buzz: bool) -> GuessType {
    if buzz { GuessType::Buzz } else { GuessType::Normal }
}

/// The text after a character is typed at the cursor.
pub open spec fn inserted(s: UiState, c: char, t: UiState) -> bool {
    t == UiState { input: t.input, cursor: up_one(s.cursor), ..s }
        && t.input@ == if s.cursor < s.input@.len() { s.input@.insert(s.cursor as int, c) } else { s.input@.push(c) }
}

/// The text after Backspace at the cursor.
pub open spec fn deleted(s: UiState, t: UiState) -> bool {
    if s.cursor > 0 {
        t == UiState { input: t.input, cursor: (s.cursor - 1) as usize, ..s }
            && t.input@ == if s.cursor - 1 < s.input@.len() { s.input@.remove(s.cursor - 1) } else { s.input@ }
    } else {
        t == s
    }
}

/// Typing the word to guess, with a cursor.
pub open spec fn guess_step(s: UiState, k: Key, t: UiState, fx: Seq<UiEffect>) -> bool {
    match k {
        Key::Char(c) => inserted(s, c, t) && fx.len() == 0,
        Key::Backspace => deleted(s, t) && fx.len() == 0,
        Key::Enter => if trimmed(s.input@).len() == 0 {
            t == UiState { input_error: t.input_error, ..s } && (t.input_error matches Some(m) && m@ == "Veuillez entrer un mot."@)
                && fx.len() == 0
        } else {
            guess_sent(s, t, fx)
        },
        Key::Esc => t == UiState { screen: AppState::Playing, input: t.input, cursor: 0, ..s } && input_cleared(t) && fx.len() == 0,
        _ => t == s && fx.len() == 0,
    }
}

fn judge_guess(s: &mut UiState, me: u32, target: u32, buzz: bool) -> (fx: Vec<UiEffect>)
    requires
        old(s).game is Some,
        old(s).game->0.players.len() > 0,
        guess_counters_fit(old(s).game->0.players@, me, target, old(s).input@, buzz),
        old(s).input_error is None,
    ensures
        ({
            let g = old(s).game->0;
            &&& *final(s) == (UiState { game: final(s).game, last_success: final(s).last_success, last_result: final(s).last_result,
                log: final(s).log, last_log_turn: final(s).last_log_turn, ..*old(s) })
            &&& fx@.len() == 0
            &&& final(s).game matches Some(h) && exists|w: String, e: GameEvent| #[trigger] guess_outcome(g, h, me, target, w,
                guess_kind(buzz), Some(e)) && w@ == old(s).input@ && {
                &&& final(s).last_success == (e.event_type == GameEventType::WordGuessed)
                &&& final(s).last_result@ == e.message_for(me)
                &&& final(s).last_log_turn == last_after_round(h, old(s).last_log_turn)
                &&& views(final(s).log@) == capped(log_after_round(views(old(s).log@), h, old(s).last_log_turn).push(
                    cur_of(h).name@ + ": "@ + e.message_for(me)))
            }
        }),
{
    let mut game = None;
    std::mem::swap(&mut game, &mut s.game);
    let mut g = game.unwrap();
    let ghost g0 = g;
    let word = string_from_chars(&s.input);
    let ghost w = word;
    let kind = if buzz { GuessType::Buzz } else { GuessType::Normal };
    let r = g.try_word_guess(me, target, word, kind);
    assert(guess_outcome(g0, g, me, target, w, guess_kind(buzz), r));
    let e = r.unwrap();
    s.last_success = e.event_type == GameEventType::WordGuessed;
    let msg = e.get_message_for(me);
    s.last_result = String::from_str(msg.as_str());
    let name = String::from_str(g.current_player().name.as_str());
    let ghost h = g;
    s.game = Some(g);
    log_round(s);
    let mut line = joined(name.as_str(), ": ");
    line.append(msg.as_str());
    push_line(s, line);
    if s.log.len() > 10 {
        let ghost before = s.log@;
        s.log.remove(0);
        assert(views(s.log@) =~= views(before).drop_first());
    }
    assert(guess_outcome(g0, h, me, target, w, guess_kind(buzz), Some(e)) && w@ == old(s).input@);
    Vec::new()
}

fn send_guess(s: &mut UiState) -> (fx: Vec<UiEffect>)
    ensures
        guess_sent(*old(s), *final(s), fx@),
{
    s.input_error = None;
    let buzz = s.playing_sel == 2;
    let mut fx: Vec<UiEffect> = Vec::new();
    match mover_and_target_now(s) {
        Some((me, target)) => {
            if s.networked {
                let kind = if buzz { NetworkActionType::Buzz } else { NetworkActionType::GuessWord };
                fx.push(UiEffect::Send(NetworkMessage::Action {
                    player_id: me,
                    action_type: kind,
                    target_id: Some(target),
                    payload: string_from_chars(&s.input),
                }));
                s.last_result = String::from_str("Envoi au serveur...");
            } else {
                let word = string_from_chars(&s.input);
                let fits = match &s.game {
                    Some(g) => g.can_take_guess(me, target, &word, buzz),
                    None => false,
                };
                if !fits {
                    fx.push(UiEffect::CounterLimit);
                    return fx;
                }
                judge_guess(s, me, target, buzz);
            }
            s.screen = AppState::TurnResult;
            s.result_timer = true;
            fx.push(UiEffect::ResultClock);
        }
        None => {}
    }
    clear_input(s);
    fx
}

fn insert_char(s: &mut UiState, c: char)
    ensures
        inserted(*old(s), c, *final(s)),
{
    if s.cursor < s.input.len() {
        s.input.insert(s.cursor, c);
    } else {
        s.input.push(c);
    }
    if s.cursor < usize::MAX {
        s.cursor = s.cursor + 1;
    }
}

fn delete_char(s: &mut UiState)
    ensures
        deleted(*old(s), *final(s)),
{
    if s.cursor > 0 {
        if s.cursor - 1 < s.input.len() {
            s.input.remove(s.cursor - 1);
        }
        s.cursor = s.cursor - 1;
    }
}

fn guess_key(s: &mut UiState, k: Key) -> (fx: Vec<UiEffect>)
    ensures
        guess_step(*old(s), k, *final(s), fx@),
{
    match k {
        Key::Char(c) => {
            insert_char(s, c);
            Vec::new()
        }
        Key::Backspace => {
            delete_char(s);
            Vec::new()
        }
        Key::Enter => {
            let text = string_from_chars(&s.input);
            if chars_of(trim(text.as_str())).len() == 0 {
                s.input_error = Some(String::from_str("Veuillez entrer un mot."));
                Vec::new()
            } else {
                send_guess(s)
            }
        }
        Key::Esc => {
            clear_input(s);
            s.screen = AppState::Playing;
            Vec::new()
        }
        _ => Vec::new(),
    }
}

// ---------------------------------------------------------------------------
// Answering the computer's inquiry
// ---------------------------------------------------------------------------

/// The local player answers the inquiry of `attacker` about `letter`
/// (claiming the letter at `positions`, or denying it); the answer is
/// recorded and logged, and the turn passes.
pub open spec fn inquiry_answered(s: UiState, attacker: u32, letter: char, claimed: bool, positions: Seq<usize>, t: UiState,
    fx: Seq<UiEffect>) -> bool {
    let me = me_or_zero(s.my_id);
    match s.game {
        None => t == s && fx.len() == 0,
        Some(g) => if !answer_counters_fit(g.players@, attacker, me, letter) {
            t == s && fx.len() == 1 && fx[0] is CounterLimit
        } else {
            exists|h: Game, pv: Vec<usize>, e: GameEvent| #[trigger] answer_outcome(g, h, attacker, me, letter, claimed, pv, Some(e))
                && pv@ == positions && {
                let msg = e.message_for(me);
                &&& t.last_success == (e.event_type == GameEventType::LetterFound)
                &&& t.last_result@ == msg
                &&& views(t.log@) == views(s.log@).push("> "@ + msg)
                &&& if turn_can_pass(h) {
                    &&& t == UiState { game: t.game, last_success: t.last_success, last_result: t.last_result, log: t.log,
                        pending_inquiry: None, screen: AppState::Playing, actions: t.actions, ..s }
                    &&& t.game matches Some(h2) && turn_passed(h, h2)
                    &&& t.actions@ == menu_actions()
                    &&& notices(t.game, s.my_id, s.actions@, fx)
                } else {
                    t == UiState { game: Some(h), last_success: t.last_success, last_result: t.last_result, log: t.log,
                        pending_inquiry: None, screen: AppState::Playing, ..s } && fx.len() == 1 && fx[0] is CounterLimit
                }
            }
        },
    }
}

fn record_answer(s: &mut UiState, attacker: u32, letter: char, claimed: bool, positions: Vec<usize>)
    requires
        old(s).game is Some,
        answer_counters_fit(old(s).game->0.players@, attacker, me_or_zero(old(s).my_id), letter),
    ensures
        ({
            let me = me_or_zero(old(s).my_id);
            exists|h: Game, pv: Vec<usize>, e: GameEvent| #[trigger] answer_outcome(old(s).game->0, h, attacker, me, letter, claimed, pv, Some(e))
                && pv@ == positions@ && {
                let msg = e.message_for(me);
                &&& final(s).last_success == (e.event_type == GameEventType::LetterFound)
                &&& final(s).last_result@ == msg
                &&& views(final(s).log@) == views(old(s).log@).push("> "@ + msg)
                &&& *final(s) == (UiState { game: Some(h), last_success: final(s).last_success, last_result: final(s).last_result,
                    log: final(s).log, pending_inquiry: None, screen: AppState::Playing, ..*old(s) })
            }
        }),
{
    let me = match s.my_id {
        Some(i) => i,
        None => 0,
    };
    let mut game = None;
    std::mem::swap(&mut game, &mut s.game);
    let mut g = game.unwrap();
    let ghost g0 = g;
    let ghost pv = positions;
    let r = g.try_resolve_inquiry(attacker, me, letter, claimed, positions);
    assert(answer_outcome(g0, g, attacker, me, letter, claimed, pv, r));
    let e = r.unwrap();
    let ghost h = g;
    s.game = Some(g);
    let msg = e.get_message_for(me);
    s.last_success = e.event_type == GameEventType::LetterFound;
    s.last_result = String::from_str(msg.as_str());
    push_line(s, joined("> ", msg.as_str()));
    s.pending_inquiry = None;
    s.screen = AppState::Playing;
    assert(answer_outcome(g0, h, attacker, me, letter, claimed, pv, Some(e)));
}

fn answer_inquiry(s: &mut UiState, attacker: u32, letter: char, claimed: bool, positions: Vec<usize>) -> (fx: Vec<UiEffect>)
    ensures
        inquiry_answered(*old(s), attacker, letter, claimed, positions@, *final(s), fx@),
{
    let me = match s.my_id {
        Some(i) => i,
        None => 0,
    };
    let fits = match &s.game {
        Some(g) => g.can_take_answer(attacker, me, letter),
        None => return Vec::new(),
    };
    let mut fx: Vec<UiEffect> = Vec::new();
    if !fits {
        fx.push(UiEffect::CounterLimit);
        return fx;
    }
    record_answer(s, attacker, letter, claimed, positions);
    pass_after_answer(s)
}

fn pass_after_answer(s: &mut UiState) -> (fx: Vec<UiEffect>)
    requires
        old(s).game is Some,
    ensures
        ({
            let h = old(s).game->0;
            if turn_can_pass(h) {
                &&& *final(s) == (UiState { game: final(s).game, actions: final(s).actions, ..*old(s) })
                &&& final(s).game matches Some(h2) && turn_passed(h, h2)
                &&& final(s).actions@ == menu_actions()
                &&& notices(final(s).game, old(s).my_id, old(s).actions@, fx@)
            } else {
                *final(s) == *old(s) && fx@.len() == 1 && fx@[0] is CounterLimit
            }
        }),
{
    let mut fx: Vec<UiEffect> = Vec::new();
    let mut game = None;
    std::mem::swap(&mut game, &mut s.game);
    let mut g = game.unwrap();
    if !g.can_pass_turn() {
        s.game = Some(g);
        fx.push(UiEffect::CounterLimit);
        return fx;
    }
    g.next_turn();
    s.game = Some(g);
    refresh_actions(s)
}

/// The answer to an inquiry: Left and Right switch between "yes" (0) and
/// "no"; Enter on yes asks for the positions, on no denies the letter.
pub open spec fn respond_step(s: UiState, k: Key, t: UiState, fx: Seq<UiEffect>) -> bool {
    if k == Key::Left || k == Key::Right {
        t == UiState { pause_index: if s.pause_index == 0 { 1 } else { 0 }, ..s } && fx.len() == 0
    } else if k == Key::Enter {
        match s.pending_inquiry {
            Some((attacker, letter)) => if s.pause_index == 0 {
                t == UiState { screen: AppState::InputPosition, input: t.input, cursor: 0, ..s } && input_cleared(t) && fx.len() == 0
            } else {
                inquiry_answered(s, attacker, letter, false, Seq::empty(), t, fx)
            },
            None => t == s && fx.len() == 0,
        }
    } else {
        t == s && fx.len() == 0
    }
}

fn respond_key(s: &mut UiState, k: Key) -> (fx: Vec<UiEffect>)
    ensures
        respond_step(*old(s), k, *final(s), fx@),
{
    if k == Key::Left || k == Key::Right {
        s.pause_index = if s.pause_index == 0 { 1 } else { 0 };
        Vec::new()
    } else if k == Key::Enter {
        match s.pending_inquiry {
            Some((attacker, letter)) => if s.pause_index == 0 {
                s.screen = AppState::InputPosition;
                clear_input(s);
                Vec::new()
            } else {
                let none: Vec<usize> = Vec::new();
                assert(none@ =~= Seq::<usize>::empty());
                answer_inquiry(s, attacker, letter, false, none)
            },
            None => Vec::new(),
        }
    } else {
        Vec::new()
    }
}

/// Typing the positions of the letter (digits, commas and spaces): Enter,
/// once they read as positions, claims the letter there.
pub open spec fn position_step(s: UiState, k: Key, t: UiState, fx: Seq<UiEffect>) -> bool {
    if k is Char && (is_digit(k->0) || k->0 == ' ' || k->0 == ',') {
        typed(s, k->0, t) && fx.len() == 0
    } else if k == Key::Backspace {
        erased(s, t) && fx.len() == 0
    } else if k == Key::Enter {
        match (typed_positions(s.input@), s.pending_inquiry) {
            (Some(ps), Some((attacker, letter))) => inquiry_answered(s, attacker, letter, true, ps, t, fx),
            _ => t == s && fx.len() == 0,
        }
    } else {
        t == s && fx.len() == 0
    }
}

fn position_key(s: &mut UiState, k: Key) -> (fx: Vec<UiEffect>)
    ensures
        position_step(*old(s), k, *final(s), fx@),
{
    match k {
        Key::Char(c) => {
            if ('0' <= c && c <= '9') || c == ' ' || c == ',' {
                type_char(s, c);
            }
            Vec::new()
        }
        Key::Backspace => {
            erase_char(s);
            Vec::new()
        }
        Key::Enter => {
            let text = string_from_chars(&s.input);
            match (parse_positions(text.as_str()), s.pending_inquiry) {
                (Some(ps), Some((attacker, letter))) => answer_inquiry(s, attacker, letter, true, ps),
                _ => Vec::new(),
            }
        }
        _ => Vec::new(),
    }
}

// ---------------------------------------------------------------------------
// The end of a turn, and the clocks
// ---------------------------------------------------------------------------

/// `h` is `g` after `end_turn`, with a winner `w`; when there is one, the
/// length of the game is recorded again.
pub open spec fn turn_ended(g: Game, h: Game, w: Option<u32>) -> bool {
    exists|h0: Game| #[trigger] end_turn_outcome(g, h0, w) && if w is Some {
        h == (Game { final_duration: h.final_duration, ..h0 }) && h.final_duration is Some
    } else {
        h == h0
    }
}

/// The turn ends (when it can pass): the turn passes and the winner is
/// looked for; the game then goes on or is over; the log is `log`, the
/// action menu is set again and the result clock stops.
pub open spec fn turn_finished(s: UiState, log: Seq<Seq<char>>, t: UiState, fx: Seq<UiEffect>) -> bool {
    &&& views(t.log@) == log
    &&& t.actions@ == menu_actions()
    &&& notices(t.game, s.my_id, s.actions@, fx)
    &&& match s.game {
        Some(g) => t.game matches Some(h) && exists|w: Option<u32>| #[trigger] turn_ended(g, h, w)
            && t == UiState { game: t.game, log: t.log, actions: t.actions, result_timer: false,
                screen: if w is Some { AppState::GameOver } else { AppState::Playing }, ..s },
        None => t == UiState { log: t.log, actions: t.actions, result_timer: false, ..s },
    }
}

/// Enter on the result: the turn ends.
pub open spec fn result_entered(s: UiState, t: UiState, fx: Seq<UiEffect>) -> bool {
    if s.game matches Some(g) && !turn_can_pass(g) {
        t == s && fx.len() == 1 && fx[0] is CounterLimit
    } else {
        turn_finished(s, views(s.log@), t, fx)
    }
}

fn close_turn(g: &mut Game) -> (w: Option<u32>)
    requires
        turn_can_pass(*old(g)),
    ensures
        turn_ended(*old(g), *final(g), w),
{
    let ghost g0 = *g;
    let w = end_turn(g);
    let ghost h0 = *g;
    assert(end_turn_outcome(g0, h0, w));
    if w.is_some() {
        g.final_duration = Some(instant_elapsed(&g.start_time));
        assert(*g == (Game { final_duration: g.final_duration, ..h0 }));
    }
    w
}

fn end_the_turn(s: &mut UiState) -> (fx: Vec<UiEffect>)
    requires
        old(s).game matches Some(g) ==> turn_can_pass(g),
    ensures
        turn_finished(*old(s), views(old(s).log@), *final(s), fx@),
{
    let mut game = None;
    std::mem::swap(&mut game, &mut s.game);
    match game {
        Some(g) => {
            let mut g = g;
            let w = close_turn(&mut g);
            s.screen = if w.is_some() { AppState::GameOver } else { AppState::Playing };
            s.game = Some(g);
        }
        None => {}
    }
    let fx = refresh_actions(s);
    s.result_timer = false;
    fx
}

fn result_enter(s: &mut UiState) -> (fx: Vec<UiEffect>)
    ensures
        result_entered(*old(s), *final(s), fx@),
{
    let can = match &s.game {
        Some(g) => g.can_pass_turn(),
        None => true,
    };
    if !can {
        let mut fx: Vec<UiEffect> = Vec::new();
        fx.push(UiEffect::CounterLimit);
        return fx;
    }
    end_the_turn(s)
}

/// The computer answers the inquiry it was asked (truthfully) once it has
/// thought; the answer is shown and logged, and the result shows for a
/// while.
pub open spec fn ai_answered(s: UiState, t: UiState, fx: Seq<UiEffect>) -> bool {
    match (s.pending_inquiry, s.game) {
        (Some((attacker, letter)), Some(g)) => if !answer_counters_fit(g.players@, attacker, first_other(g.players@, attacker, 1), letter) {
            t == s && fx.len() == 1 && fx[0] is CounterLimit
        } else {
            &&& t == UiState { game: t.game, last_result: t.last_result, last_success: t.last_success, log: t.log, result_timer: true,
                thinking_timer: false, pending_inquiry: None, ..s }
            &&& fx.len() == 1 && fx[0] is ResultClock
            &&& t.game matches Some(h) && exists|e: GameEvent| #[trigger] ai_answer_outcome(g, h, attacker, letter, Some(e))
                && t.last_result@ == e.public_log@ && t.last_success == (e.event_type == GameEventType::LetterFound)
                && views(t.log@) == views(s.log@).push("> "@ + e.public_log@)
        },
        _ => t == s && fx.len() == 0,
    }
}

fn ai_answer(s: &mut UiState) -> (fx: Vec<UiEffect>)
    ensures
        ai_answered(*old(s), *final(s), fx@),
{
    let mut fx: Vec<UiEffect> = Vec::new();
    let (attacker, letter) = match s.pending_inquiry {
        Some(p) => p,
        None => return fx,
    };
    let mut game = None;
    std::mem::swap(&mut game, &mut s.game);
    let mut g = match game {
        Some(g) => g,
        None => return fx,
    };
    let ghost g0 = g;
    let r = try_answer_for_ai(&mut g, attacker, letter);
    assert(ai_answer_outcome(g0, g, attacker, letter, r));
    let ghost h = g;
    s.game = Some(g);
    match r {
        Some(e) => {
            s.last_result = String::from_str(e.public_log.as_str());
            s.last_success = e.event_type == GameEventType::LetterFound;
            push_line(s, joined("> ", e.public_log.as_str()));
            s.result_timer = true;
            s.thinking_timer = false;
            s.pending_inquiry = None;
            fx.push(UiEffect::ResultClock);
            assert(ai_answer_outcome(g0, h, attacker, letter, Some(e)));
        }
        None => {
            fx.push(UiEffect::CounterLimit);
        }
    }
    fx
}

/// A frame on the result screen: once the result has shown for two
/// seconds, the round is logged and the turn ends; while the computer
/// thinks over an inquiry, it answers after two seconds.
pub open spec fn result_tick(s: UiState, thinking_done: bool, result_done: bool, t: UiState, fx: Seq<UiEffect>) -> bool {
    if s.result_timer {
        if !result_done {
            t == s && fx.len() == 0
        } else {
            match s.game {
                Some(g) => if !turn_can_pass(g) {
                    t == s && fx.len() == 1 && fx[0] is CounterLimit
                } else {
                    turn_finished(s, views(s.log@).push(round_line(round_of(g))), t, fx)
                },
                None => turn_finished(s, views(s.log@), t, fx),
            }
        }
    } else if s.thinking_timer && thinking_done {
        ai_answered(s, t, fx)
    } else {
        t == s && fx.len() == 0
    }
}

fn result_tick_step(s: &mut UiState, thinking_done: bool, result_done: bool) -> (fx: Vec<UiEffect>)
    ensures
        result_tick(*old(s), thinking_done, result_done, *final(s), fx@),
{
    if s.result_timer {
        if !result_done {
            return Vec::new();
        }
        let r: Option<usize> = match &s.game {
            Some(g) => {
                if !g.can_pass_turn() {
                    let mut fx: Vec<UiEffect> = Vec::new();
                    fx.push(UiEffect::CounterLimit);
                    return fx;
                }
                Some(g.current_turn / g.players.len() + 1)
            }
            None => None,
        };
        match r {
            Some(r) => push_line(s, round_text(r)),
            None => {}
        }
        end_the_turn(s)
    } else if s.thinking_timer && thinking_done {
        ai_answer(s)
    } else {
        Vec::new()
    }
}

// ---------------------------------------------------------------------------
// The computer's turn
// ---------------------------------------------------------------------------

/// It is the computer's turn.
pub open spec fn ai_to_move(s: UiState) -> bool {
    match s.game {
        Some(g) => g.players.len() > 0 && cur_of(g).control_type == ControlType::AI,
        None => false,
    }
}

/// `u` is `s` once the round is logged and the computer has moved `mv`
/// (see `play_ai_turn`), choosing among all the dictionary words.
pub open spec fn ai_settled(s: UiState, themes: Seq<Theme>, u: UiState, mv: AiMove) -> bool {
    let g = s.game->0;
    &&& u == UiState { game: u.game, ai: u.ai, thinking_timer: false, log: u.log, last_log_turn: last_after_round(g, s.last_log_turn),
        ..s }
    &&& views(u.log@) == log_after_round(views(s.log@), g, s.last_log_turn)
    &&& u.game matches Some(h) && ai_turn_outcome(g, h, s.ai, u.ai, all_words(themes), mv)
}

/// What the screen shows of the computer's move: a guess is logged and
/// either ends the game (the winner is announced) or shows as a result; a
/// letter asked of the local player awaits the answer (on "yes"); a letter
/// asked of another computer player is answered at once, followed by the
/// guess that may come after.
pub open spec fn ai_shown(u: UiState, mv: AiMove, t: UiState, fx: Seq<UiEffect>) -> bool {
    let h = u.game->0;
    match mv {
        AiMove::Guessed { event, .. } => {
            let last2 = last_after_round(h, u.last_log_turn);
            let found = event.event_type == GameEventType::WordGuessed;
            &&& views(t.log@) == log_after_round(views(u.log@), h, u.last_log_turn).push("IA : "@ + event.public_log@)
            &&& t.game matches Some(h2) && exists|w: Option<u32>| #[trigger] winner_outcome(h, h2, w) && match w {
                Some(wid) => t == UiState { game: t.game, last_result: t.last_result, last_success: found, log: t.log,
                    last_log_turn: last2, screen: AppState::GameOver, ..u }
                    && t.last_result@ == "VICTOIRE ! "@ + name_of(h2.players@, wid) + " a gagné !"@ && fx.len() == 0,
                None => t == UiState { game: t.game, last_result: t.last_result, last_success: found, log: t.log,
                    last_log_turn: last2, screen: AppState::TurnResult, result_timer: true, ..u }
                    && t.last_result@ == event.public_log@ && fx.len() == 1 && fx[0] is ResultClock,
            }
        },
        AiMove::Asked { target_id, letter, event } => {
            &&& t == UiState { last_result: t.last_result, log: t.log, screen: AppState::RespondToInquiry,
                pending_inquiry: Some((event.actor_id, letter)), selected_target: Some(target_id), pause_index: 0, result_timer: false, ..u }
            &&& t.last_result@ == "IA 🕵️ Moi : '"@ + seq![letter] + "' ?"@
            &&& views(t.log@) == views(u.log@).push("IA : "@ + event.public_log@)
            &&& fx.len() == 0
        },
        AiMove::Answered { event, finish, .. } => {
            let log2 = views(u.log@).push("IA : "@ + event.public_log@);
            &&& fx.len() == 1 && fx[0] is ResultClock
            &&& match finish {
                Some(f) => t == UiState { last_result: t.last_result, last_success: true, log: t.log, screen: AppState::TurnResult,
                    result_timer: true, ..u } && t.last_result@ == f.public_log@ && views(t.log@) == log2.push("IA 💀 "@ + f.public_log@),
                None => t == UiState { last_result: t.last_result, last_success: event.event_type == GameEventType::LetterFound,
                    log: t.log, screen: AppState::TurnResult, result_timer: true, ..u } && t.last_result@ == event.public_log@
                    && views(t.log@) == log2,
            }
        },
    }
}

/// The computer plays once it has thought: the round is logged, it moves,
/// and the move is shown.
pub open spec fn ai_played(s: UiState, themes: Seq<Theme>, t: UiState, fx: Seq<UiEffect>) -> bool {
    let g = s.game->0;
    let actor = cur_of(g).id;
    if !ai_counters_fit(g.players@, actor, first_other(g.players@, actor, 0)) {
        t == UiState { log: t.log, last_log_turn: last_after_round(g, s.last_log_turn), ..s }
            && views(t.log@) == log_after_round(views(s.log@), g, s.last_log_turn) && fx.len() == 1 && fx[0] is CounterLimit
    } else {
        exists|u: UiState, mv: AiMove| #[trigger] ai_settled(s, themes, u, mv) && ai_shown(u, mv, t, fx)
    }
}

/// A frame on the playing screen: on the computer's turn its thinking
/// clock starts, and after two seconds it plays.
pub open spec fn ai_tick(s: UiState, themes: Seq<Theme>, thinking_done: bool, t: UiState, fx: Seq<UiEffect>) -> bool {
    if !ai_to_move(s) {
        t == s && fx.len() == 0
    } else if !s.thinking_timer {
        t == UiState { thinking_timer: true, ..s } && fx.len() == 1 && fx[0] is ThinkingClock
    } else if !thinking_done {
        t == s && fx.len() == 0
    } else {
        ai_played(s, themes, t, fx)
    }
}

fn note_ai_guess(s: &mut UiState, event: &GameEvent)
    requires
        old(s).game is Some,
    ensures
        ({
            let h = old(s).game->0;
            &&& *final(s) == (UiState { last_result: final(s).last_result, last_success: event.event_type == GameEventType::WordGuessed,
                log: final(s).log, last_log_turn: last_after_round(h, old(s).last_log_turn), ..*old(s) })
            &&& views(final(s).log@) == log_after_round(views(old(s).log@), h, old(s).last_log_turn).push("IA : "@ + event.public_log@)
            &&& final(s).last_result@ == event.public_log@
        }),
{
    s.last_result = String::from_str(event.public_log.as_str());
    s.last_success = event.event_type == GameEventType::WordGuessed;
    log_round(s);
    push_line(s, joined("IA : ", event.public_log.as_str()));
}

fn settle_winner(s: &mut UiState) -> (fx: Vec<UiEffect>)
    requires
        old(s).game is Some,
    ensures
        final(s).game matches Some(h2) && exists|w: Option<u32>| #[trigger] winner_outcome(old(s).game->0, h2, w) && match w {
            Some(wid) => *final(s) == (UiState { game: final(s).game, last_result: final(s).last_result, screen: AppState::GameOver, ..*old(s) })
                && final(s).last_result@ == "VICTOIRE ! "@ + name_of(h2.players@, wid) + " a gagné !"@ && fx@.len() == 0,
            None => *final(s) == (UiState { game: final(s).game, screen: AppState::TurnResult, result_timer: true, ..*old(s) })
                && fx@.len() == 1 && fx@[0] is ResultClock,
        },
{
    let mut game = None;
    std::mem::swap(&mut game, &mut s.game);
    let mut h = game.unwrap();
    let (w, name) = find_winner(&mut h);
    s.game = Some(h);
    let mut fx: Vec<UiEffect> = Vec::new();
    if w.is_some() {
        s.screen = AppState::GameOver;
        let mut m = joined("VICTOIRE ! ", name.as_str());
        m.append(" a gagné !");
        s.last_result = m;
    } else {
        s.screen = AppState::TurnResult;
        s.result_timer = true;
        fx.push(UiEffect::ResultClock);
    }
    fx
}

fn find_winner(h: &mut Game) -> (r: (Option<u32>, String))
    ensures
        winner_outcome(*old(h), *final(h), r.0),
        r.0 matches Some(wid) ==> r.1@ == name_of(final(h).players@, wid),
{
    let ghost h0 = *h;
    let w = h.check_for_winner();
    assert(winner_outcome(h0, *h, w));
    match w {
        Some(wid) => (w, h.get_player_name(wid)),
        None => (w, String::new()),
    }
}

fn show_guess(s: &mut UiState, target_id: u32, event: GameEvent) -> (fx: Vec<UiEffect>)
    requires
        old(s).game is Some,
    ensures
        ai_shown(*old(s), AiMove::Guessed { target_id: target_id, event: event }, *final(s), fx@),
{
    note_ai_guess(s, &event);
    settle_winner(s)
}

fn show_asked(s: &mut UiState, target_id: u32, letter: char, event: GameEvent)
    ensures
        ai_shown(*old(s), AiMove::Asked { target_id: target_id, letter: letter, event: event }, *final(s), Seq::empty()),
{
    let mut m = String::from_str("IA 🕵️ Moi : '");
    m.append(char_string(letter).as_str());
    m.append("' ?");
    s.last_result = m;
    push_line(s, joined("IA : ", event.public_log.as_str()));
    s.screen = AppState::RespondToInquiry;
    s.pending_inquiry = Some((event.actor_id, letter));
    s.selected_target = Some(target_id);
    s.pause_index = 0;
    s.result_timer = false;
}

fn show_answered(s: &mut UiState, target_id: u32, event: GameEvent, finish: Option<GameEvent>) -> (fx: Vec<UiEffect>)
    ensures
        ai_shown(*old(s), AiMove::Answered { target_id: target_id, event: event, finish: finish }, *final(s), fx@),
{
    let mut fx: Vec<UiEffect> = Vec::new();
    s.last_result = String::from_str(event.public_log.as_str());
    s.last_success = event.event_type == GameEventType::LetterFound;
    push_line(s, joined("IA : ", event.public_log.as_str()));
    s.screen = AppState::TurnResult;
    s.result_timer = true;
    fx.push(UiEffect::ResultClock);
    match finish {
        Some(f) => {
            s.last_result = String::from_str(f.public_log.as_str());
            s.last_success = true;
            push_line(s, joined("IA 💀 ", f.public_log.as_str()));
        }
        None => {}
    }
    fx
}

fn show_ai_move(s: &mut UiState, mv: AiMove) -> (fx: Vec<UiEffect>)
    requires
        old(s).game is Some,
    ensures
        ai_shown(*old(s), mv, *final(s), fx@),
{
    match mv {
        AiMove::Guessed { target_id, event } => show_guess(s, target_id, event),
        AiMove::Asked { target_id, letter, event } => {
            show_asked(s, target_id, letter, event);
            Vec::new()
        }
        AiMove::Answered { target_id, event, finish } => show_answered(s, target_id, event, finish),
    }
}

fn ai_play(s: &mut UiState, themes: &Vec<Theme>) -> (fx: Vec<UiEffect>)
    requires
        ai_to_move(*old(s)),
    ensures
        ai_played(*old(s), themes@, *final(s), fx@),
{
    log_round(s);
    let words = get_all_words(themes);
    let mut game = None;
    std::mem::swap(&mut game, &mut s.game);
    let mut g = game.unwrap();
    if !ai_turn_fits(&g) {
        s.game = Some(g);
        let mut fx: Vec<UiEffect> = Vec::new();
        fx.push(UiEffect::CounterLimit);
        return fx;
    }
    let mut ai = None;
    std::mem::swap(&mut ai, &mut s.ai);
    let ghost g0 = g;
    let ghost a0 = ai;
    let mv = play_ai_turn(&mut g, &mut ai, &words);
    assert(ai_turn_outcome(g0, g, a0, ai, all_words(themes@), mv));
    s.game = Some(g);
    s.ai = ai;
    s.thinking_timer = false;
    let ghost u = *s;
    assert(ai_settled(*old(s), themes@, u, mv));
    show_ai_move(s, mv)
}

fn ai_to_move_now(s: &UiState) -> (r: bool)
    ensures
        r == ai_to_move(*s),
{
    match &s.game {
        Some(g) => g.players.len() > 0 && g.current_player().control_type == ControlType::AI,
        None => false,
    }
}

fn ai_tick_step(s: &mut UiState, themes: &Vec<Theme>, thinking_done: bool) -> (fx: Vec<UiEffect>)
    ensures
        ai_tick(*old(s), themes@, thinking_done, *final(s), fx@),
{
    let mut fx: Vec<UiEffect> = Vec::new();
    if !ai_to_move_now(s) {
        return fx;
    }
    if !s.thinking_timer {
        s.thinking_timer = true;
        fx.push(UiEffect::ThinkingClock);
        return fx;
    }
    if !thinking_done {
        return fx;
    }
    ai_play(s, themes)
}

// ---------------------------------------------------------------------------
// Messages from the network
// ---------------------------------------------------------------------------

/// The players of a game on the network, numbered from 0 in the order the
/// host gave.
pub open spec fn numbered(names: Seq<String>) -> Seq<(u32, Seq<char>)> {
    Seq::new(names.len(), |i: int| (#[verifier::truncate] (i as u32), names[i]@))
}

/// The names of the players registered by the host.
pub open spec fn names_of(c: Seq<(u32, String)>) -> Seq<Seq<char>> {
    Seq::new(c.len(), |i: int| c[i].1@)
}

/// The last name of a list, or nothing.
pub open spec fn newcomer(names: Seq<String>) -> Seq<char> {
    if names.len() > 0 { names.last()@ } else { Seq::empty() }
}

/// A message from the network: the host registers who joins and welcomes
/// them; everybody learns who joined (and their own id, by their name);
/// the host's game is taken on; the end of the game is recorded; a move is
/// applied to the local game, and on the host the winner, if any, is
/// announced to all.
pub open spec fn network_step(s: UiState, m: NetworkMessage, t: UiState, fx: Seq<UiEffect>) -> bool {
    match m {
        NetworkMessage::Join { name } => if s.is_host {
            let id = #[verifier::truncate] (s.connected@.len() as u32);
            &&& t == UiState { connected: t.connected, log: t.log, ..s }
            &&& t.connected@ == s.connected@.push((id, name))
            &&& views(t.log@) == views(s.log@).push("[Hôte] "@ + name@ + " a rejoint (ID: "@ + decimal(id as nat) + ")"@)
            &&& fx.len() == 1 && (fx[0] matches UiEffect::Send(NetworkMessage::Welcome { player_id, players })
                && player_id == id && views(players@) == names_of(t.connected@))
        } else {
            t == s && fx.len() == 0
        },
        NetworkMessage::Welcome { player_id, players } => {
            let first = views(s.log@).push("[Réseau] "@ + newcomer(players@) + " a rejoint la partie !"@);
            &&& pair_views(t.connected@) == numbered(players@)
            &&& fx.len() == 0
            &&& if newcomer(players@) == s.my_name@ && s.my_id is None {
                t == UiState { connected: t.connected, log: t.log, my_id: Some(player_id), ..s }
                    && views(t.log@) == first.push("Vous êtes connecté avec l'ID "@ + decimal(player_id as nat))
            } else {
                t == UiState { connected: t.connected, log: t.log, ..s } && views(t.log@) == first
            }
        },
        NetworkMessage::GameInit(g) => {
            &&& t == UiState { game: Some(g), screen: AppState::Playing, log: t.log, ..s }
            &&& views(t.log@) == views(s.log@).push("[Réseau] La partie commence !"@)
            &&& fx.len() == 1 && fx[0] is GameClock
        },
        NetworkMessage::GameOver { winner_name, .. } => {
            &&& t == UiState { game: t.game, screen: AppState::GameOver, log: t.log, ..s }
            &&& views(t.log@) == views(s.log@).push("[Réseau] PARTIE TERMINÉE ! Vainqueur : "@ + winner_name@)
            &&& fx.len() == 0
            &&& match s.game {
                Some(g) => t.game matches Some(h) && h == (Game { is_over: true, final_duration: h.final_duration, ..g })
                    && h.final_duration is Some && (g.final_duration is Some ==> h.final_duration == g.final_duration),
                None => t.game is None,
            }
        },
        NetworkMessage::Action { player_id, action_type, target_id, payload } => match s.game {
            Some(g) => {
                let log1 = log_after_round(views(s.log@), g, s.last_log_turn);
                let last1 = last_after_round(g, s.last_log_turn);
                if !action_fits(g, player_id, action_type, target_id, payload@) {
                    t == UiState { log: t.log, last_log_turn: last1, ..s } && views(t.log@) == log1 && fx.len() == 1
                        && fx[0] is CounterLimit
                } else {
                    &&& t == UiState { game: t.game, log: t.log, last_log_turn: last1, ..s }
                    &&& t.game matches Some(h2) && exists|h: Game, line: Option<String>|
                        #[trigger] move_applied(g, h, s.my_id, player_id, action_type, target_id, payload@, line) && {
                        &&& views(t.log@) == match line { Some(l) => log1.push("[Réseau] "@ + l@), None => log1 }
                        &&& if s.is_host {
                            exists|w: Option<u32>| #[trigger] winner_outcome(h, h2, w) && match w {
                                Some(wid) => fx.len() == 1 && (fx[0] matches UiEffect::Send(NetworkMessage::GameOver { winner_id, winner_name })
                                    && winner_id == wid && winner_name@ == name_of(h2.players@, wid)),
                                None => fx.len() == 0,
                            }
                        } else {
                            h2 == h && fx.len() == 0
                        }
                    }
                }
            },
            None => round_logged(s, t) && fx.len() == 0,
        },
        _ => t == s && fx.len() == 0,
    }
}

fn same_text(a: &str, b: &str) -> (r: bool)
    ensures
        r == (a@ == b@),
{
    let x = chars_of(a);
    let y = chars_of(b);
    if x.len() != y.len() {
        return false;
    }
    let mut i: usize = 0;
    while i < x.len()
        invariant
            x@ == a@,
            y@ == b@,
            x.len() == y.len(),
            i <= x.len(),
            forall|j: int| 0 <= j < i ==> x@[j] == y@[j],
        decreases x.len() - i,
    {
        if x[i] != y[i] {
            return false;
        }
        i = i + 1;
    }
    assert(x@ =~= y@);
    true
}

fn number_players(players: &Vec<String>) -> (r: Vec<(u32, String)>)
    ensures
        pair_views(r@) == numbered(players@),
{
    let mut r: Vec<(u32, String)> = Vec::new();
    let mut i: usize = 0;
    while i < players.len()
        invariant
            i <= players.len(),
            pair_views(r@) == numbered(players@).take(i as int),
        decreases players.len() - i,
    {
        let id: u32 = #[verifier::truncate] (i as u32);
        let name = String::from_str(players[i].as_str());
        assert(name@ == players@[i as int]@);
        let ghost r0 = r@;
        r.push((id, name));
        assert(pair_views(r@) =~= pair_views(r0).push((id, players@[i as int]@)));
        assert(numbered(players@).take(i + 1) =~= numbered(players@).take(i as int).push((id, players@[i as int]@)));
        i = i + 1;
    }
    assert(numbered(players@).take(players.len() as int) =~= numbered(players@));
    r
}

fn registered_names(c: &Vec<(u32, String)>) -> (r: Vec<String>)
    ensures
        views(r@) == names_of(c@),
{
    let mut r: Vec<String> = Vec::new();
    let mut i: usize = 0;
    while i < c.len()
        invariant
            i <= c.len(),
            views(r@) == names_of(c@).take(i as int),
        decreases c.len() - i,
    {
        let name = String::from_str(c[i].1.as_str());
        assert(name@ == c@[i as int].1@);
        proof { lemma_views_push(r@, name); }
        r.push(name);
        assert(names_of(c@).take(i + 1) =~= names_of(c@).take(i as int).push(c@[i as int].1@));
        i = i + 1;
    }
    assert(names_of(c@).take(c.len() as int) =~= names_of(c@));
    r
}

fn on_join(s: &mut UiState, name: String) -> (fx: Vec<UiEffect>)
    ensures
        network_step(*old(s), NetworkMessage::Join { name: name }, *final(s), fx@),
{
    let mut fx: Vec<UiEffect> = Vec::new();
    if !s.is_host {
        return fx;
    }
    let mut line = joined("[Hôte] ", name.as_str());
    let id = register_player(&mut s.connected, name);
    line.append(" a rejoint (ID: ");
    line.append(u32_to_string(id).as_str());
    line.append(")");
    push_line(s, line);
    let players = registered_names(&s.connected);
    fx.push(UiEffect::Send(NetworkMessage::Welcome { player_id: id, players }));
    fx
}

fn on_welcome(s: &mut UiState, player_id: u32, players: Vec<String>)
    ensures
        network_step(*old(s), NetworkMessage::Welcome { player_id: player_id, players: players }, *final(s), Seq::empty()),
{
    let newcomer = if players.len() > 0 { String::from_str(players[players.len() - 1].as_str()) } else { String::new() };
    s.connected = number_players(&players);
    let mut line = joined("[Réseau] ", newcomer.as_str());
    line.append(" a rejoint la partie !");
    push_line(s, line);
    if same_text(newcomer.as_str(), s.my_name.as_str()) && s.my_id.is_none() {
        s.my_id = Some(player_id);
        push_line(s, joined("Vous êtes connecté avec l'ID ", u32_to_string(player_id).as_str()));
    }
}

fn on_game_over(s: &mut UiState, winner_id: u32, winner_name: String)
    ensures
        network_step(*old(s), NetworkMessage::GameOver { winner_id: winner_id, winner_name: winner_name }, *final(s), Seq::empty()),
{
    let mut game = None;
    std::mem::swap(&mut game, &mut s.game);
    match game {
        Some(g) => {
            let mut g = g;
            g.is_over = true;
            if g.final_duration.is_none() {
                g.final_duration = Some(instant_elapsed(&g.start_time));
            }
            s.game = Some(g);
        }
        None => {}
    }
    s.screen = AppState::GameOver;
    push_line(s, joined("[Réseau] PARTIE TERMINÉE ! Vainqueur : ", winner_name.as_str()));
}

fn announce_winner(g: &mut Game) -> (fx: Vec<UiEffect>)
    ensures
        exists|w: Option<u32>| #[trigger] winner_outcome(*old(g), *final(g), w) && match w {
            Some(wid) => fx@.len() == 1 && (fx@[0] matches UiEffect::Send(NetworkMessage::GameOver { winner_id, winner_name })
                && winner_id == wid && winner_name@ == name_of(final(g).players@, wid)),
            None => fx@.len() == 0,
        },
{
    let (w, name) = find_winner(g);
    let mut fx: Vec<UiEffect> = Vec::new();
    match w {
        Some(wid) => fx.push(UiEffect::Send(NetworkMessage::GameOver { winner_id: wid, winner_name: name })),
        None => {}
    }
    fx
}

fn play_move(g: &mut Game, my_id: Option<u32>, is_host: bool, player_id: u32, action_type: NetworkActionType, target_id: Option<u32>,
    payload: String) -> (r: Option<(Option<String>, Vec<UiEffect>)>)
    ensures
        !action_fits(*old(g), player_id, action_type, target_id, payload@) ==> r is None && *final(g) == *old(g),
        action_fits(*old(g), player_id, action_type, target_id, payload@) ==> (r matches Some((line, fx))
            && exists|h: Game| #[trigger] move_applied(*old(g), h, my_id, player_id, action_type, target_id, payload@, line) && {
                if is_host {
                    exists|w: Option<u32>| #[trigger] winner_outcome(h, *final(g), w) && match w {
                        Some(wid) => fx@.len() == 1 && (fx@[0] matches UiEffect::Send(NetworkMessage::GameOver { winner_id, winner_name })
                            && winner_id == wid && winner_name@ == name_of(final(g).players@, wid)),
                        None => fx@.len() == 0,
                    }
                } else {
                    *final(g) == h && fx@.len() == 0
                }
            }),
{
    let ghost g0 = *g;
    let ghost p = payload;
    let r = try_apply_network_action(g, my_id, player_id, action_type, target_id, payload);
    let line = match r {
        Some(line) => line,
        None => return None,
    };
    let ghost h = *g;
    assert(move_applied(g0, h, my_id, player_id, action_type, target_id, p@, line));
    let fx = if is_host { announce_winner(g) } else { Vec::new() };
    Some((line, fx))
}

fn on_move(s: &mut UiState, player_id: u32, action_type: NetworkActionType, target_id: Option<u32>, payload: String) -> (fx: Vec<UiEffect>)
    ensures
        network_step(*old(s), NetworkMessage::Action { player_id: player_id, action_type: action_type, target_id: target_id,
            payload: payload }, *final(s), fx@),
{
    log_round(s);
    let mut game = None;
    std::mem::swap(&mut game, &mut s.game);
    let mut g = match game {
        Some(g) => g,
        None => return Vec::new(),
    };
    let r = play_move(&mut g, s.my_id, s.is_host, player_id, action_type, target_id, payload);
    s.game = Some(g);
    match r {
        None => {
            let mut fx: Vec<UiEffect> = Vec::new();
            fx.push(UiEffect::CounterLimit);
            fx
        }
        Some((line, fx)) => {
            match &line {
                Some(l) => push_line(s, joined("[Réseau] ", l.as_str())),
                None => {}
            }
            fx
        }
    }
}

fn on_network(s: &mut UiState, m: NetworkMessage) -> (fx: Vec<UiEffect>)
    ensures
        network_step(*old(s), m, *final(s), fx@),
{
    match m {
        NetworkMessage::Join { name } => on_join(s, name),
        NetworkMessage::Welcome { player_id, players } => {
            on_welcome(s, player_id, players);
            Vec::new()
        }
        NetworkMessage::GameInit(g) => {
            s.game = Some(g);
            s.screen = AppState::Playing;
            push_line(s, String::from_str("[Réseau] La partie commence !"));
            let mut fx: Vec<UiEffect> = Vec::new();
            fx.push(UiEffect::GameClock);
            fx
        }
        NetworkMessage::GameOver { winner_id, winner_name } => {
            on_game_over(s, winner_id, winner_name);
            Vec::new()
        }
        NetworkMessage::Action { player_id, action_type, target_id, payload } => on_move(s, player_id, action_type, target_id, payload),
        _ => Vec::new(),
    }
}

// ---------------------------------------------------------------------------
// One step of the front end
// ---------------------------------------------------------------------------

/// A key, by the screen it is pressed on.
pub open spec fn key_transition(s: UiState, themes: Seq<Theme>, k: Key, t: UiState, fx: Seq<UiEffect>) -> bool {
    match s.screen {
        AppState::Welcome | AppState::MultiplayerMenu => welcome_step(s, k, t, fx),
        AppState::Setup => setup_step(s, k, t) && fx.len() == 0,
        AppState::SelectPower => power_step(s, k, t, fx),
        AppState::SelectPowerTarget => power_target_step(s, k, t, fx),
        AppState::SelectPowerLetter => power_letter_step(s, k, t, fx),
        AppState::Playing => playing_step(s, k, t, fx),
        AppState::SelectTarget => target_step(s, k, t) && fx.len() == 0,
        AppState::InputLetter => letter_step(s, k, t, fx),
        AppState::InputGuess => guess_step(s, k, t, fx),
        AppState::TurnResult => if k == Key::Enter { result_entered(s, t, fx) } else { t == s && fx.len() == 0 },
        AppState::GameOver => game_over_step(s, k, t) && fx.len() == 0,
        AppState::Paused => paused_step(s, k, t) && fx.len() == 0,
        AppState::ConfirmQuit => confirm_step(s, k, t) && fx.len() == 0,
        AppState::Rules => rules_step(s, k, t) && fx.len() == 0,
        AppState::SetupEnterPlayerName => player_name_step(s, themes, k, t) && fx.len() == 0,
        AppState::SetupThemeSelectionMethod => theme_method_step(s, themes, k, t) && fx.len() == 0,
        AppState::SetupSelectTheme => theme_step(s, themes, k, t) && fx.len() == 0,
        AppState::SetupSelectSubTheme => sub_theme_step(s, themes, k, t) && fx.len() == 0,
        AppState::SetupEnterSecretWord => secret_word_step(s, themes, k, t, fx),
        AppState::JoinGame => join_step(s, k, t, fx),
        AppState::MultiplayerNameInput => network_name_step(s, k, t, fx),
        AppState::Lobby => lobby_step(s, k, t, fx),
        AppState::RespondToInquiry => respond_step(s, k, t, fx),
        AppState::InputPosition => position_step(s, k, t, fx),
    }
}

/// One step of the front end: a key by its screen; a frame drives the
/// computer's turn on the playing screen and the result screen's clocks;
/// the outcome of a connection moves the multiplayer screens on; a message
/// from the network is taken in.
pub open spec fn ui_transition(s: UiState, themes: Seq<Theme>, ev: UiEvent, t: UiState, fx: Seq<UiEffect>) -> bool {
    match ev {
        UiEvent::Key(k) => key_transition(s, themes, k, t, fx),
        UiEvent::Tick { thinking_done, result_done } => if s.screen == AppState::Playing {
            ai_tick(s, themes, thinking_done, t, fx)
        } else if s.screen == AppState::TurnResult {
            result_tick(s, thinking_done, result_done, t, fx)
        } else {
            t == s && fx.len() == 0
        },
        UiEvent::Connection { ok, error } => connection_step(s, ok, error@, t) && fx.len() == 0,
        UiEvent::Network(m) => network_step(s, m, t, fx),
    }
}

fn on_key(s: &mut UiState, themes: &Vec<Theme>, k: Key) -> (fx: Vec<UiEffect>)
    ensures
        key_transition(*old(s), themes@, k, *final(s), fx@),
{
    match s.screen {
        AppState::Welcome | AppState::MultiplayerMenu => welcome_key(s, k),
        AppState::Setup => {
            setup_key(s, k);
            Vec::new()
        }
        AppState::SelectPower => power_key(s, k),
        AppState::SelectPowerTarget => power_target_key(s, k),
        AppState::SelectPowerLetter => power_letter_key(s, k),
        AppState::Playing => playing_key(s, k),
        AppState::SelectTarget => {
            target_key(s, k);
            Vec::new()
        }
        AppState::InputLetter => letter_key(s, k),
        AppState::InputGuess => guess_key(s, k),
        AppState::TurnResult => if k == Key::Enter { result_enter(s) } else { Vec::new() },
        AppState::GameOver => {
            if k == Key::Enter || k == Key::Esc || k == Key::Char('q') {
                go_welcome(s);
            }
            Vec::new()
        }
        AppState::Paused => {
            paused_key(s, k);
            Vec::new()
        }
        AppState::ConfirmQuit => {
            confirm_key(s, k);
            Vec::new()
        }
        AppState::Rules => {
            if k == Key::Esc || k == Key::Enter {
                s.screen = AppState::Paused;
            }
            Vec::new()
        }
        AppState::SetupEnterPlayerName => {
            player_name_key(s, themes, k);
            Vec::new()
        }
        AppState::SetupThemeSelectionMethod => {
            theme_method_key(s, themes, k);
            Vec::new()
        }
        AppState::SetupSelectTheme => {
            theme_key(s, themes, k);
            Vec::new()
        }
        AppState::SetupSelectSubTheme => {
            sub_theme_key(s, themes, k);
            Vec::new()
        }
        AppState::SetupEnterSecretWord => secret_word_key(s, themes, k),
        AppState::JoinGame => join_key(s, k),
        AppState::MultiplayerNameInput => network_name_key(s, k),
        AppState::Lobby => lobby_key(s, k),
        AppState::RespondToInquiry => respond_key(s, k),
        AppState::InputPosition => position_key(s, k),
    }
}

/// One step of the front end (see `ui_transition`).
pub fn ui_step(s: &mut UiState, themes: &Vec<Theme>, ev: UiEvent) -> (fx: Vec<UiEffect>)
    ensures
        ui_transition(*old(s), themes@, ev, *final(s), fx@),
{
    match ev {
        UiEvent::Key(k) => on_key(s, themes, k),
        UiEvent::Tick { thinking_done, result_done } => {
            if s.screen == AppState::Playing {
                ai_tick_step(s, themes, thinking_done)
            } else if s.screen == AppState::TurnResult {
                result_tick_step(s, thinking_done, result_done)
            } else {
                Vec::new()
            }
        }
        UiEvent::Connection { ok, error } => {
            on_connection(s, ok, &error);
            Vec::new()
        }
        UiEvent::Network(m) => on_network(s, m),
    }
}

/// Asking to quit (`q`) on the playing screen or on the choice of target,
/// then withdrawing (Esc), leads back where one was: all that remains is
/// the confirmation's cursor, left on "no".
pub proof fn law_quit_then_withdraw(s: UiState, themes: Seq<Theme>, t: UiState, u: UiState, fx1: Seq<UiEffect>, fx2: Seq<UiEffect>)
    requires
        s.screen == AppState::Playing || s.screen == AppState::SelectTarget,
        s.previous is None,
        key_transition(s, themes, Key::Char('q'), t, fx1),
        key_transition(t, themes, Key::Esc, u, fx2),
    ensures
        u == (UiState { pause_index: 1, ..s }),
        fx1.len() == 0 && fx2.len() == 0,
{
}
} // verus!
