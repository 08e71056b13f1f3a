//! The front end's screens and menus, and the decisions taken on them.
use vstd::prelude::*;
use crate::game::dictionary::{all_words, validate_word, Theme};
use crate::game::model::{str_len, Difficulty, Game, Player, MAX_ENERGY};
use crate::text::{chars_of, decimal, trim, trimmed, u32_to_string, unicode_upper};

verus! {

/// The panel of the playing screen that takes the keys.
#[derive(PartialEq, Eq, Structural, Debug, Clone, Copy)]
pub enum Focus {
    Actions,
    System,
    Powers,
    GameLog,
    Notebook,
}

/// The screens of the front end.
#[derive(PartialEq, Eq, Structural, Debug, Clone, Copy)]
pub enum AppState {
    Welcome,
    Setup,
    Playing,
    GameOver,
    SetupEnterPlayerName,
    SetupThemeSelectionMethod,
    SetupSelectTheme,
    SetupSelectSubTheme,
    SetupEnterSecretWord,
    SelectTarget,
    InputLetter,
    InputGuess,
    TurnResult,
    Paused,
    ConfirmQuit,
    SelectPower,
    MultiplayerMenu,
    MultiplayerNameInput,
    JoinGame,
    Lobby,
    Rules,
    RespondToInquiry,
    InputPosition,
    SelectPowerTarget,
    SelectPowerLetter,
}

/// The actions offered to the player on their turn.
#[derive(Clone, PartialEq, Eq, Structural, Debug)]
pub enum Action {
    ProposeLetter,
    GuessWord,
    Buzz,
    UsePower,
    SkipTurn,
}

/// The actions of the action menu, in order (the buzz is always listed, and
/// refused while the energy is not full).
pub open spec fn menu_actions() -> Seq<Action> {
    seq![Action::ProposeLetter, Action::GuessWord, Action::Buzz, Action::SkipTurn]
}

/// The action menu.
pub fn available_actions() -> (r: Vec<Action>)
    ensures
        r@ == menu_actions(),
{
    let mut v: Vec<Action> = Vec::new();
    v.push(Action::ProposeLetter);
    v.push(Action::GuessWord);
    v.push(Action::Buzz);
    v.push(Action::SkipTurn);
    assert(v@ =~= menu_actions());
    v
}

/// The label of an action in the menu.
pub open spec fn label_of(a: Action) -> Seq<char> {
    match a {
        Action::ProposeLetter => "Proposer une lettre"@,
        Action::GuessWord => "Deviner un mot"@,
        Action::Buzz => "⚡ Buzz"@,
        Action::UsePower => "Pouvoirs Spéciaux"@,
        Action::SkipTurn => "Passer son tour"@,
    }
}

/// The label of an action in the menu.
pub fn action_label(a: &Action) -> (r: String)
    ensures
        r@ == label_of(*a),
{
    match a {
        Action::ProposeLetter => String::from_str("Proposer une lettre"),
        Action::GuessWord => String::from_str("Deviner un mot"),
        Action::Buzz => String::from_str("⚡ Buzz"),
        Action::UsePower => String::from_str("Pouvoirs Spéciaux"),
        Action::SkipTurn => String::from_str("Passer son tour"),
    }
}

/// Whether to announce that the buzzer is ready: the energy is full and the
/// menu shown so far had no buzz.
pub fn buzz_ready_notice(energy: u32, shown: &Vec<Action>) -> (r: bool)
    ensures
        r == (energy >= 100 && !shown@.contains(Action::Buzz)),
{
    let mut has_buzz = false;
    let mut i: usize = 0;
    while i < shown.len()
        invariant
            i <= shown.len(),
            has_buzz == exists|j: int| 0 <= j < i && shown@[j] == Action::Buzz,
        decreases shown.len() - i,
    {
        if shown[i] == Action::Buzz {
            has_buzz = true;
        }
        i = i + 1;
    }
    energy >= 100 && !has_buzz
}

/// The buzz can be used once the energy is full.
pub fn can_buzz(energy: u32) -> (r: bool)
    ensures
        r == (energy >= MAX_ENERGY),
{
    energy >= MAX_ENERGY
}

/// The power grid shows once the energy is full, except in Easy mode.
pub fn powers_visible(energy: u32, difficulty: Difficulty) -> (r: bool)
    ensures
        r == (energy >= 100 && difficulty != Difficulty::Easy),
{
    energy >= 100 && difficulty != Difficulty::Easy
}

/// The panel that takes the keys after Tab: actions, powers (when shown),
/// notebook, system menu, game log, and round again.
pub open spec fn focus_after(f: Focus, show_powers: bool) -> Focus {
    match f {
        Focus::Actions => if show_powers { Focus::Powers } else { Focus::Notebook },
        Focus::Powers => Focus::Notebook,
        Focus::Notebook => Focus::System,
        Focus::System => Focus::GameLog,
        Focus::GameLog => Focus::Actions,
    }
}

/// The panel that takes the keys after Tab.
pub fn next_focus(f: Focus, show_powers: bool) -> (r: Focus)
    ensures
        r == focus_after(f, show_powers),
{
    match f {
        Focus::Actions => if show_powers { Focus::Powers } else { Focus::Notebook },
        Focus::Powers => Focus::Notebook,
        Focus::Notebook => Focus::System,
        Focus::System => Focus::GameLog,
        Focus::GameLog => Focus::Actions,
    }
}

/// The entry after `i` in a list of `n`, going round.
pub fn wrap_next(i: usize, n: usize) -> (r: usize)
    requires
        n > 0,
    ensures
        r == if i + 1 < n { i + 1 } else { 0 },
{
    if i < n - 1 { i + 1 } else { 0 }
}

/// The entry before `i` in a list of `n`, going round.
pub fn wrap_prev(i: usize, n: usize) -> (r: usize)
    requires
        n > 0,
    ensures
        r == if i > 0 { i - 1 } else { n - 1 },
{
    if i > 0 { i - 1 } else { n - 1 }
}

/// The number of players of each mode of the setup grid: solo against the
/// computer and duel for two, triad for three, square for four.
pub fn players_for_mode(selected: usize) -> (r: usize)
    ensures
        r == if selected == 2 { 3usize } else if selected == 3 { 4usize } else { 2usize },
{
    match selected {
        0 => 2,
        1 => 2,
        2 => 3,
        3 => 4,
        _ => 2,
    }
}

/// The difficulty of each entry of the difficulty menu (Normal by default).
pub fn difficulty_for_index(i: usize) -> (r: Difficulty)
    ensures
        r == if i == 0 {
            Difficulty::Easy
        } else if i == 2 {
            Difficulty::Hard
        } else if i == 3 {
            Difficulty::Expert
        } else {
            Difficulty::Normal
        },
{
    match i {
        0 => Difficulty::Easy,
        1 => Difficulty::Normal,
        2 => Difficulty::Hard,
        3 => Difficulty::Expert,
        _ => Difficulty::Normal,
    }
}

/// The shortest and longest secret word allowed, in bytes.
pub open spec fn length_bounds(d: Difficulty) -> (usize, usize) {
    match d {
        Difficulty::Easy => (3, 6),
        Difficulty::Normal => (4, 8),
        Difficulty::Hard => (5, 12),
        Difficulty::Expert => (6, 20),
    }
}

/// The shortest and longest secret word allowed, in bytes.
pub fn word_length_bounds(d: Difficulty) -> (r: (usize, usize))
    ensures
        r == length_bounds(d),
{
    match d {
        Difficulty::Easy => (3, 6),
        Difficulty::Normal => (4, 8),
        Difficulty::Hard => (5, 12),
        Difficulty::Expert => (6, 20),
    }
}

/// The name `Debug` writes for a difficulty.
pub open spec fn difficulty_name(d: Difficulty) -> Seq<char> {
    match d {
        Difficulty::Easy => "Easy"@,
        Difficulty::Normal => "Normal"@,
        Difficulty::Hard => "Hard"@,
        Difficulty::Expert => "Expert"@,
    }
}

/// The message for a secret word of the wrong length.
pub open spec fn length_error(d: Difficulty) -> Seq<char> {
    "Mode "@ + difficulty_name(d) + ": Le mot doit faire entre "@ + decimal(length_bounds(d).0 as nat) + " et "@
        + decimal(length_bounds(d).1 as nat) + " lettres."@
}

/// The message for a word that is not in the dictionary.
pub open spec fn unknown_word_error() -> Seq<char> {
    "Mot inconnu ou mal orthographié (Limité au dictionnaire du jeu)."@
}

/// Checks a secret word typed at setup: its trimmed byte length must lie
/// within the bounds of the difficulty, and it must be a dictionary word
/// (read in upper case).
pub fn check_secret_word(themes: &Vec<Theme>, input: &str, difficulty: Difficulty) -> (r: Result<(), String>)
    ensures
        ({
            let n = str_len(trimmed(input@));
            let (lo, hi) = length_bounds(difficulty);
            match r {
                Err(m) => if n < lo || n > hi {
                    m@ == length_error(difficulty)
                } else {
                    !all_words(themes@).contains(unicode_upper(input@)) && m@ == unknown_word_error()
                },
                Ok(_) => lo <= n <= hi && all_words(themes@).contains(unicode_upper(input@)),
            }
        }),
{
    let word_len = trim(input).len();
    let (lo, hi) = word_length_bounds(difficulty);
    if word_len < lo || word_len > hi {
        let mut m = String::from_str("Mode ");
        let name = match difficulty {
            Difficulty::Easy => String::from_str("Easy"),
            Difficulty::Normal => String::from_str("Normal"),
            Difficulty::Hard => String::from_str("Hard"),
            Difficulty::Expert => String::from_str("Expert"),
        };
        m.append(name.as_str());
        m.append(": Le mot doit faire entre ");
        m.append(u32_to_string(lo as u32).as_str());
        m.append(" et ");
        m.append(u32_to_string(hi as u32).as_str());
        m.append(" lettres.");
        return Err(m);
    }
    if !validate_word(themes, input) {
        return Err(String::from_str("Mot inconnu ou mal orthographié (Limité au dictionnaire du jeu)."));
    }
    Ok(())
}

/// The players that can be targeted: everybody still in but `current_id`,
/// in order, by id and name.
pub open spec fn targets_of(ps: Seq<Player>, current_id: u32) -> Seq<(u32, Seq<char>)>
    decreases ps.len(),
{
    if ps.len() == 0 {
        Seq::empty()
    } else if ps.last().id != current_id && !ps.last().is_eliminated {
        targets_of(ps.drop_last(), current_id).push((ps.last().id, ps.last().name@))
    } else {
        targets_of(ps.drop_last(), current_id)
    }
}

/// The ids and names of the pairs.
pub open spec fn pair_views(v: Seq<(u32, String)>) -> Seq<(u32, Seq<char>)> {
    Seq::new(v.len(), |i: int| (v[i].0, v[i].1@))
}

/// The players that can be targeted by `current_id`.
pub fn target_choices(game: &Game, current_id: u32) -> (r: Vec<(u32, String)>)
    ensures
        pair_views(r@) == targets_of(game.players@, current_id),
{
    let mut r: Vec<(u32, String)> = Vec::new();
    let mut i: usize = 0;
    while i < game.players.len()
        invariant
            i <= game.players.len(),
            pair_views(r@) == targets_of(game.players@.take(i as int), current_id),
        decreases game.players.len() - i,
    {
        assert(game.players@.take(i + 1).drop_last() =~= game.players@.take(i as int));
        if game.players[i].id != current_id && !game.players[i].is_eliminated {
            r.push((game.players[i].id, game.players[i].name.clone()));
            assert(pair_views(r@) =~= targets_of(game.players@.take(i + 1), current_id));
        }
        i = i + 1;
    }
    assert(game.players@.take(game.players.len() as int) =~= game.players@);
    r
}

/// The opponent shown after `i` in the notebook carousel, going round, when
/// there is more than one.
pub fn carousel_next(i: usize, opponents: usize) -> (r: usize)
    requires
        i < usize::MAX,
    ensures
        r == if opponents > 1 { (i + 1) % (opponents as int) } else { i as int },
{
    if opponents > 1 { (i + 1) % opponents } else { i }
}

/// The opponent shown before `i` in the notebook carousel, going round, when
/// there is more than one.
pub fn carousel_prev(i: usize, opponents: usize) -> (r: usize)
    ensures
        r == if opponents > 1 { if i == 0 { opponents - 1 } else { i - 1 } } else { i as int },
{
    if opponents > 1 {
        if i == 0 { opponents - 1 } else { i - 1 }
    } else {
        i
    }
}

/// `c` separates the positions typed as proof.
pub open spec fn is_separator(c: char) -> bool {
    c == ',' || c == ' '
}

/// The fields of `s` between separators (as `str::split` gives them, empty
/// ones included).
pub open spec fn split_fields(s: Seq<char>) -> Seq<Seq<char>>
    decreases s.len(),
{
    if s.len() == 0 {
        seq![Seq::<char>::empty()]
    } else {
        let f = split_fields(s.drop_last());
        if is_separator(s.last()) {
            f.push(Seq::<char>::empty())
        } else {
            f.update(f.len() - 1, f.last().push(s.last()))
        }
    }
}

/// There is always at least one field.
pub proof fn lemma_split_nonempty(s: Seq<char>)
    ensures
        split_fields(s).len() >= 1,
    decreases s.len(),
{
    if s.len() > 0 {
        lemma_split_nonempty(s.drop_last());
    }
}

/// `c` is an ASCII digit.
pub open spec fn is_digit(c: char) -> bool {
    '0' <= c && c <= '9'
}

/// The value of a string of ASCII digits.
pub open spec fn digits_value(d: Seq<char>) -> nat
    decreases d.len(),
{
    if d.len() == 0 {
        0
    } else {
        digits_value(d.drop_last()) * 10 + ((d.last() as u32) - 48) as nat
    }
}

/// The digits part of a number: `s` without its leading `+`, if any.
pub open spec fn number_body(s: Seq<char>) -> Seq<char> {
    if s.len() > 0 && s[0] == '+' { s.drop_first() } else { s }
}

/// Every character is an ASCII digit.
pub open spec fn all_digits(b: Seq<char>) -> bool {
    forall|i: int| 0 <= i < b.len() ==> is_digit(#[trigger] b[i])
}

/// What `usize::from_str` gives: an optional `+` then at least one ASCII
/// digit, for a value that fits.
pub open spec fn parsed_usize(s: Seq<char>) -> Option<usize> {
    let body = number_body(s);
    if body.len() > 0 && all_digits(body) && digits_value(body) <= usize::MAX {
        Some(digits_value(body) as usize)
    } else {
        None
    }
}

/// `usize::from_str`.
pub fn parse_usize(s: &Vec<char>) -> (r: Option<usize>)
    ensures
        r == parsed_usize(s@),
{
    let start: usize = if s.len() > 0 && s[0] == '+' { 1 } else { 0 };
    let ghost body = number_body(s@);
    assert(body =~= s@.skip(start as int));
    if start >= s.len() {
        return None;
    }
    let mut value: usize = 0;
    let mut i: usize = start;
    while i < s.len()
        invariant
            start == (if s@.len() > 0 && s@[0] == '+' { 1int } else { 0int }),
            start <= i <= s.len(),
            body == s@.skip(start as int),
            forall|j: int| start <= j < i ==> is_digit(s@[j]),
            value == digits_value(s@.subrange(start as int, i as int)),
        decreases s.len() - i,
    {
        let c = s[i];
        assert(s@.subrange(start as int, i + 1).drop_last() =~= s@.subrange(start as int, i as int));
        if !('0' <= c && c <= '9') {
            assert(body[i - start] == c);
            assert(!is_digit(body[i - start]));
            return None;
        }
        let d: usize = (c as u32 - 48) as usize;
        match value.checked_mul(10) {
            Some(v) => match v.checked_add(d) {
                Some(w) => {
                    value = w;
                }
                None => {
                    proof { lemma_overflow_fails(s@, start as int, i as int); }
                    return None;
                }
            },
            None => {
                proof { lemma_overflow_fails(s@, start as int, i as int); }
                return None;
            }
        }
        i = i + 1;
    }
    assert(s@.subrange(start as int, s.len() as int) =~= body);
    Some(value)
}

/// When the digits up to `i` already exceed `usize`, the string does not
/// parse.
pub proof fn lemma_overflow_fails(s: Seq<char>, start: int, i: int)
    requires
        start == (if s.len() > 0 && s[0] == '+' { 1int } else { 0int }),
        start <= i < s.len(),
        forall|j: int| start <= j <= i ==> is_digit(s[j]),
        digits_value(s.subrange(start, i + 1)) > usize::MAX,
    ensures
        parsed_usize(s) is None,
{
    let body = number_body(s);
    assert(body =~= s.skip(start));
    assert(body.len() > 0);
    if all_digits(body) {
        let p = body.take(i + 1 - start);
        assert(p =~= s.subrange(start, i + 1));
        lemma_digits_grow(p, body);
        assert(digits_value(body) > usize::MAX);
    }
}

/// A string of digits has at least the value of any prefix.
pub proof fn lemma_digits_grow(p: Seq<char>, s: Seq<char>)
    requires
        p.len() <= s.len(),
        p == s.take(p.len() as int),
        all_digits(s),
    ensures
        digits_value(p) <= digits_value(s),
    decreases s.len(),
{
    if s.len() > p.len() {
        let q = s.drop_last();
        assert(q.take(p.len() as int) =~= p);
        lemma_digits_grow(p, q);
    } else {
        assert(p =~= s);
    }
}


/// The values of the fields that are not blank (after trimming), in order,
/// when each parses; `None` as soon as one does not.
pub open spec fn parse_fields(fs: Seq<Seq<char>>) -> Option<Seq<usize>>
    decreases fs.len(),
{
    if fs.len() == 0 {
        Some(Seq::empty())
    } else {
        match parse_fields(fs.drop_last()) {
            None => None,
            Some(v) => if trimmed(fs.last()).len() == 0 {
                Some(v)
            } else {
                match parsed_usize(trimmed(fs.last())) {
                    Some(x) => Some(v.push(x)),
                    None => None,
                }
            },
        }
    }
}

/// The positions typed as proof (numbers separated by commas or spaces):
/// `None` when a field is not a number or when there is none.
pub open spec fn typed_positions(input: Seq<char>) -> Option<Seq<usize>> {
    match parse_fields(split_fields(input)) {
        Some(v) => if v.len() > 0 { Some(v) } else { None },
        None => None,
    }
}

/// Splits at commas and spaces.
fn split_input(input: &str) -> (r: Vec<Vec<char>>)
    ensures
        r@.len() == split_fields(input@).len(),
        forall|i: int| 0 <= i < r@.len() ==> #[trigger] r@[i]@ == split_fields(input@)[i],
{
    let cs = chars_of(input);
    let mut fields: Vec<Vec<char>> = Vec::new();
    let mut cur: Vec<char> = Vec::new();
    let mut i: usize = 0;
    while i < cs.len()
        invariant
            cs@ == input@,
            i <= cs.len(),
            fields@.len() + 1 == split_fields(cs@.take(i as int)).len(),
            forall|j: int| 0 <= j < fields@.len() ==> #[trigger] fields@[j]@ == split_fields(cs@.take(i as int))[j],
            cur@ == split_fields(cs@.take(i as int)).last(),
        decreases cs.len() - i,
    {
        let ghost f0 = split_fields(cs@.take(i as int));
        assert(cs@.take(i + 1).drop_last() =~= cs@.take(i as int));
        proof { lemma_split_nonempty(cs@.take(i as int)); }
        let c = cs[i];
        if c == ',' || c == ' ' {
            let done = cur;
            fields.push(done);
            cur = Vec::new();
            assert(cur@ =~= Seq::<char>::empty());
        } else {
            cur.push(c);
        }
        i = i + 1;
    }
    assert(cs@.take(cs.len() as int) =~= cs@);
    fields.push(cur);
    fields
}

/// The positions typed as proof of a letter, such as `1, 3`.
pub fn parse_positions(input: &str) -> (r: Option<Vec<usize>>)
    ensures
        match r {
            Some(v) => typed_positions(input@) == Some(v@),
            None => typed_positions(input@) is None,
        },
{
    let fields = split_input(input);
    let ghost fs = split_fields(input@);
    let mut positions: Vec<usize> = Vec::new();
    let mut i: usize = 0;
    while i < fields.len()
        invariant
            fs == split_fields(input@),
            fields@.len() == fs.len(),
            forall|j: int| 0 <= j < fields@.len() ==> #[trigger] fields@[j]@ == fs[j],
            i <= fields.len(),
            parse_fields(fs.take(i as int)) == Some(positions@),
        decreases fields.len() - i,
    {
        assert(fs.take(i + 1).drop_last() =~= fs.take(i as int));
        assert(fs.take(i + 1).last() == fields@[i as int]@);
        let text = crate::text::string_from_chars(&fields[i]);
        let t = chars_of(trim(text.as_str()));
        if t.len() > 0 {
            match parse_usize(&t) {
                Some(x) => {
                    positions.push(x);
                }
                None => {
                    proof {
                        let pre = fs.take(i + 1);
                        assert(pre.drop_last() =~= fs.take(i as int));
                        assert(pre.last() == fs[i as int]);
                        assert(trimmed(pre.last()) == t@);
                        assert(parse_fields(pre) is None);
                        lemma_parse_fields_fails(fs, i as int);
                    }
                    return None;
                }
            }
        }
        i = i + 1;
    }
    assert(fs.take(fields.len() as int) =~= fs);
    if positions.len() > 0 {
        Some(positions)
    } else {
        None
    }
}

/// Once a field fails to parse, so does every longer list of fields.
pub proof fn lemma_parse_fields_fails(fs: Seq<Seq<char>>, i: int)
    requires
        0 <= i < fs.len(),
        parse_fields(fs.take(i + 1)) is None,
    ensures
        parse_fields(fs) is None,
    decreases fs.len(),
{
    if fs.len() > i + 1 {
        assert(fs.drop_last().take(i + 1) =~= fs.take(i + 1));
        lemma_parse_fields_fails(fs.drop_last(), i);
    } else {
        assert(fs.take(i + 1) =~= fs);
    }
}

/// The pause menu has four entries, going round.
pub fn pause_menu_up(i: usize) -> (r: usize)
    ensures
        r == if i > 0 { i - 1 } else { 3 },
{
    if i > 0 { i - 1 } else { 3 }
}

/// The pause menu has four entries, going round.
pub fn pause_menu_down(i: usize) -> (r: usize)
    ensures
        r == if i < 3 { i + 1 } else { 0 },
{
    if i < 3 { i + 1 } else { 0 }
}

} // verus!
