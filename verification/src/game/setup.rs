//! Setting a game up: the players, their secret words, and the computer
//! opponent's word.
use vstd::prelude::*;
use crate::chance::random_index;
use crate::game::dictionary::{get_all_themes, get_random_word, get_sub_themes, sub_themes_of, theme_names, word_pool, Theme};
use crate::game::model::{str_len, ControlType, Difficulty, Player, PlayerStatus, Progress, Rarity, SecretWord};
use crate::text::views;

verus! {

/// The theme used when the dictionary has none.
pub open spec fn fallback_theme() -> Seq<char> {
    "Technologie"@
}

/// A theme name drawn at random, or `Technologie` when there is none.
pub fn random_theme(themes: &Vec<Theme>) -> (r: String)
    ensures
        themes.len() > 0 ==> theme_names(themes@).contains(r@),
        themes.len() == 0 ==> r@ == fallback_theme(),
{
    let names = get_all_themes(themes);
    assert(views(names@).len() == theme_names(themes@).len());
    if names.len() == 0 {
        return String::from_str("Technologie");
    }
    let i = random_index(names.len());
    let r = names[i].clone();
    assert(theme_names(themes@)[i as int] == r@);
    r
}

/// A sub-theme name of the theme `theme` drawn at random, when it has some.
pub fn random_sub_theme(themes: &Vec<Theme>, theme: &str) -> (r: Option<String>)
    ensures
        sub_themes_of(themes@, theme@).len() > 0 ==> (r matches Some(s) && sub_themes_of(themes@, theme@).contains(s@)),
        sub_themes_of(themes@, theme@).len() == 0 ==> r is None,
{
    let subs = get_sub_themes(themes, theme);
    assert(views(subs@).len() == subs@.len());
    if subs.len() == 0 {
        return None;
    }
    let i = random_index(subs.len());
    let s = subs[i].clone();
    assert(sub_themes_of(themes@, theme@)[i as int] == s@);
    Some(s)
}

/// The word a player gets before choosing one.
pub open spec fn is_placeholder_word(w: SecretWord) -> bool {
    &&& w.id == 0
    &&& w.content@ == "????"@
    &&& w.length == 4
    &&& w.theme@ == "Inconnu"@
    &&& w.rarity is Common
    &&& w.difficulty_score == 1
}

/// A player being set up: a person with the given seat number as id and a
/// placeholder word.
pub fn new_setup_player(index: usize, name: &str) -> (r: Player)
    ensures
        r.id == #[verifier::truncate] (index as u32),
        r.name@ == name@,
        is_placeholder_word(r.secret_word),
        r.status == PlayerStatus::Active,
        r.control_type == ControlType::Human,
        r.score == 0,
        r.energy == 0,
        r.progress_on_opponents@ == Map::<u32, Progress>::empty(),
        !r.is_eliminated,
        r.turns_played == 0,
        r.correct_guesses == 0,
{
    let word = SecretWord {
        id: 0,
        content: String::from_str("????"),
        length: 4,
        theme: String::from_str("Inconnu"),
        rarity: Rarity::Common,
        difficulty_score: 1,
    };
    Player::new(#[verifier::truncate] (index as u32), name, word)
}

/// Records the word a player chose, in theme `theme`; its length is its
/// byte length.
pub fn set_secret_word(player: &mut Player, word: &str, theme: &str)
    ensures
        final(player).secret_word.content@ == word@,
        final(player).secret_word.length == #[verifier::truncate] (str_len(word@) as u32),
        final(player).secret_word.theme@ == theme@,
        final(player).secret_word.id == old(player).secret_word.id,
        final(player).secret_word.rarity == old(player).secret_word.rarity,
        final(player).secret_word.difficulty_score == old(player).secret_word.difficulty_score,
        *final(player) == (Player { secret_word: final(player).secret_word, ..*old(player) }),
{
    let n: usize = word.len();
    player.secret_word.content = String::from_str(word);
    player.secret_word.length = #[verifier::truncate] (n as u32);
    player.secret_word.theme = String::from_str(theme);
}

/// Every player is set up: in solo after the one person, otherwise once
/// `configured` players of `total_players` chose their word.
pub fn setup_done(is_solo: bool, configured: usize, total_players: usize) -> (r: bool)
    ensures
        r == (is_solo || configured >= total_players),
{
    is_solo || configured >= total_players
}

/// The theme of the computer opponent's word: in Easy the theme of the
/// first player set up (`Technologie` when there is none).
pub open spec fn easy_ai_theme(players: Seq<Player>) -> Seq<char> {
    if players.len() > 0 { players[0].secret_word.theme@ } else { fallback_theme() }
}

/// `w` is a word drawn (by `get_random_word`) from the words of `theme`
/// and `sub`.
pub open spec fn drawn_word(themes: Seq<Theme>, theme: Seq<char>, sub: Option<Seq<char>>, w: SecretWord) -> bool {
    let pool = word_pool(themes, theme, sub);
    &&& pool.len() > 0 ==> pool.contains(w.content@)
    &&& pool.len() == 0 ==> w.content@ == "MYSTERE"@
    &&& w.id == 0
    &&& w.length == #[verifier::truncate] (str_len(w.content@) as u32)
    &&& w.theme@ == theme
    &&& w.rarity is Common
    &&& w.difficulty_score == 1
}

/// The computer opponent: player 1, `IA (Ordinateur)`, played by the
/// computer, whose word is drawn from a theme (that of the first player in
/// Easy, else one drawn at random) and a sub-theme of it drawn at random
/// when it has some.
pub fn ai_player(themes: &Vec<Theme>, difficulty: Difficulty, players: &Vec<Player>) -> (r: Player)
    ensures
        r.id == 1,
        r.name@ == "IA (Ordinateur)"@,
        r.control_type == ControlType::AI,
        r.status == PlayerStatus::Active,
        r.score == 0,
        r.energy == 0,
        r.progress_on_opponents@ == Map::<u32, Progress>::empty(),
        !r.is_eliminated,
        r.turns_played == 0,
        r.correct_guesses == 0,
        exists|theme: Seq<char>, sub: Option<Seq<char>>| #[trigger] drawn_word(themes@, theme, sub, r.secret_word)
            && (difficulty == Difficulty::Easy ==> theme == easy_ai_theme(players@))
            && (difficulty != Difficulty::Easy && themes.len() > 0 ==> theme_names(themes@).contains(theme))
            && (difficulty != Difficulty::Easy && themes.len() == 0 ==> theme == fallback_theme())
            && (sub_themes_of(themes@, theme).len() > 0 ==> (sub matches Some(s) && sub_themes_of(themes@, theme).contains(s)))
            && (sub_themes_of(themes@, theme).len() == 0 ==> sub is None),
{
    let theme = match difficulty {
        Difficulty::Easy => if players.len() > 0 {
            players[0].secret_word.theme.clone()
        } else {
            String::from_str("Technologie")
        },
        Difficulty::Normal | Difficulty::Hard | Difficulty::Expert => random_theme(themes),
    };
    let sub = random_sub_theme(themes, theme.as_str());
    let word = match &sub {
        Some(s) => get_random_word(themes, theme.as_str(), Some(s.as_str())),
        None => get_random_word(themes, theme.as_str(), None),
    };
    let ghost sub_view: Option<Seq<char>> = match sub { Some(s) => Some(s@), None => None };
    assert(drawn_word(themes@, theme@, sub_view, word));
    let mut p = Player::new(1, "IA (Ordinateur)", word);
    p.control_type = ControlType::AI;
    p
}

} // verus!
