//! The game state: secret words, players, their notebooks, and the rules
//! that change them.
use std::collections::HashMap;
use vstd::prelude::*;
use crate::text::{
    ascii_upper, ascii_upper_seq, char_to_ascii_uppercase, decimal, u32_to_string, chars_of, chars_sorted, repeat_char, sort_chars, string_from_chars, to_ascii_uppercase, to_uppercase,
    trim, trimmed, unicode_upper, vec_contains_char,
};
use crate::game::events::{GameEvent, GameEventType};
use crate::chance::random_below;

verus! {

broadcast use vstd::std_specs::hash::group_hash_axioms;

/// Points for a correct guess.
pub const POINTS_NORMAL_GUESS: u32 = 2;
/// Extra point when the correct guess was a buzz.
pub const POINTS_BUZZ_BONUS: u32 = 1;
/// Energy a power costs.
pub const POWER_COST: u32 = 50;
/// Energy is capped here; a full bar enables the buzz.
pub const MAX_ENERGY: u32 = 100;

/// A special ability bought with energy.
#[derive(Debug, Clone, Copy)]
pub enum PowerType {
    /// Reveals the length of the target's word.
    Revelation,
    /// Tells whether the letter is in the target's word, and where.
    Voyance(char),
}

/// How a full-word guess is made.
#[derive(Debug, Clone, Copy)]
pub enum GuessType {
    Normal,
    /// A risky guess: a bonus point if right, a letter of one's own word
    /// revealed to everybody if wrong.
    Buzz,
}

/// The game variants.
#[derive(Debug, Clone)]
pub enum GameMode {
    Classic,
    Specialist,
    Chaos,
    FreeCreation,
}

/// How much a player knows about an opponent's word from the start.
#[derive(Debug, Clone, Copy, PartialEq, Eq, Structural)]
pub enum Difficulty {
    Easy,
    Normal,
    Hard,
    Expert,
}

/// Whether a player is still in the game.
#[derive(Debug, Clone, PartialEq, Eq, Structural)]
pub enum PlayerStatus {
    Active,
    Eliminated,
}

/// How well known a word is.
#[derive(Debug, Clone)]
pub enum Rarity {
    Common,
    Uncommon,
    Rare,
}

/// A word a player protects.
#[derive(Debug, Clone)]
pub struct SecretWord {
    pub id: u32,
    pub content: String,
    pub theme: String,
    pub rarity: Rarity,
    pub difficulty_score: u32,
    pub length: u32,
}

/// The number of bytes of the UTF-8 encoding of `s`.
pub open spec fn byte_len(s: Seq<char>) -> nat {
    vstd::utf8::encode_utf8(s).len()
}

/// What `str::len` gives for a string that reads `s`: its byte length.
pub open spec fn str_len(s: Seq<char>) -> usize {
    byte_len(s) as usize
}

impl SecretWord {
    /// A word in the general theme, stored in ASCII upper case; its length
    /// is the byte length of `content`.
    pub fn new(id: u32, content: &str) -> (r: SecretWord)
        ensures
            r.id == id,
            r.content@ == ascii_upper_seq(content@),
            r.theme@ == "Général"@,
            r.rarity is Common,
            r.difficulty_score == 1,
            r.length == #[verifier::truncate] (str_len(content@) as u32),
    {
        let n: usize = content.len();
        SecretWord {
            id,
            content: to_ascii_uppercase(content),
            theme: String::from_str("Général"),
            rarity: Rarity::Common,
            difficulty_score: 1,
            length: #[verifier::truncate] (n as u32),
        }
    }
}


/// A player's notebook on one opponent's word.
#[derive(Debug, Clone)]
pub struct Progress {
    /// The word as far as it is known: `_` for an unknown letter, or `???`
    /// while the length itself is unknown.
    pub mask: String,
    /// Letters known to occur, when their positions are not shown.
    pub found_letters: Vec<char>,
    /// Letters tried and known to be absent.
    pub missed_letters: Vec<char>,
    pub length_known: bool,
    pub positions_known: bool,
    /// For a found letter, its 1-based positions, as far as they were told.
    pub found_letter_positions: Vec<(char, Vec<usize>)>,
}

/// The positions table with each list of positions taken by its view.
pub open spec fn table_view(t: Seq<(char, Vec<usize>)>) -> Seq<(char, Seq<usize>)> {
    Seq::new(t.len(), |i: int| (t[i].0, t[i].1@))
}

/// `i` is the first entry of the table for letter `c`.
pub open spec fn is_first_entry(t: Seq<(char, Seq<usize>)>, c: char, i: int) -> bool {
    0 <= i < t.len() && t[i].0 == c && forall|j: int| 0 <= j < i ==> t[j].0 != c
}

/// The table has an entry for `c`.
pub open spec fn table_has(t: Seq<(char, Seq<usize>)>, c: char) -> bool {
    exists|i: int| 0 <= i < t.len() && t[i].0 == c
}

/// The index of the first entry for `c` (or -1).
pub open spec fn table_index(t: Seq<(char, Seq<usize>)>, c: char) -> int {
    if table_has(t, c) {
        choose|i: int| is_first_entry(t, c, i)
    } else {
        -1
    }
}

/// The positions recorded for `c`, if any (a table is read by its first
/// entry for a letter).
pub open spec fn table_lookup(t: Seq<(char, Seq<usize>)>, c: char) -> Option<Seq<usize>> {
    if table_has(t, c) {
        Some(t[table_index(t, c)].1)
    } else {
        None
    }
}

/// The table after recording `p` for `c`: the entry for `c` is replaced, or
/// a new entry is added at the end.
pub open spec fn table_insert(t: Seq<(char, Seq<usize>)>, c: char, p: Seq<usize>) -> Seq<(char, Seq<usize>)> {
    if table_has(t, c) {
        t.update(table_index(t, c), (c, p))
    } else {
        t.push((c, p))
    }
}

/// Finds the first entry for `c`.
pub fn table_find(t: &Vec<(char, Vec<usize>)>, c: char) -> (r: Option<usize>)
    ensures
        match r {
            Some(i) => is_first_entry(table_view(t@), c, i as int) && i as int == table_index(table_view(t@), c),
            None => !table_has(table_view(t@), c),
        },
{
    let ghost tv = table_view(t@);
    let mut i: usize = 0;
    while i < t.len()
        invariant
            tv == table_view(t@),
            i <= t.len(),
            forall|j: int| 0 <= j < i ==> tv[j].0 != c,
        decreases t.len() - i,
    {
        if t[i].0 == c {
            proof {
                assert(is_first_entry(tv, c, i as int));
                let k = choose|k: int| is_first_entry(tv, c, k);
                assert(k == i as int) by {
                    if k < i as int {
                    } else if k > i as int {
                    }
                }
            }
            return Some(i);
        }
        i = i + 1;
    }
    None
}

/// Records `p` as the positions of `c`.
pub fn table_record(t: &mut Vec<(char, Vec<usize>)>, c: char, p: Vec<usize>)
    ensures
        table_view(final(t)@) == table_insert(table_view(old(t)@), c, p@),
{
    match table_find(t, c) {
        Some(i) => {
            t.set(i, (c, p));
            assert(table_view(t@) =~= table_insert(table_view(old(t)@), c, p@));
        }
        None => {
            t.push((c, p));
            assert(table_view(t@) =~= table_insert(table_view(old(t)@), c, p@));
        }
    }
}


/// What a fresh notebook on a word of `length` bytes shows.
pub open spec fn initial_mask(length: nat, difficulty: Difficulty) -> Seq<char> {
    if difficulty == Difficulty::Easy {
        Seq::new(length, |_i: int| '_')
    } else {
        "???"@
    }
}

/// `p` is a fresh notebook on a word of `length` bytes.
pub open spec fn is_initial_progress(p: Progress, length: nat, difficulty: Difficulty) -> bool {
    &&& p.length_known == (difficulty == Difficulty::Easy)
    &&& p.positions_known == (difficulty == Difficulty::Easy)
    &&& p.mask@ == initial_mask(length, difficulty)
    &&& p.found_letters@ == Seq::<char>::empty()
    &&& p.missed_letters@ == Seq::<char>::empty()
    &&& p.found_letter_positions@ == Seq::<(char, Vec<usize>)>::empty()
}

impl Progress {
    /// A fresh notebook: in Easy mode the length and the positions are
    /// known and every letter shows as `_`; otherwise the mask is `???`.
    pub fn new(length: usize, difficulty: Difficulty) -> (r: Progress)
        ensures
            is_initial_progress(r, length as nat, difficulty),
    {
        let known = match difficulty {
            Difficulty::Easy => true,
            Difficulty::Normal | Difficulty::Hard | Difficulty::Expert => false,
        };
        let mask = if known {
            repeat_char('_', length)
        } else {
            String::from_str("???")
        };
        Progress {
            mask,
            found_letters: Vec::new(),
            missed_letters: Vec::new(),
            length_known: known,
            positions_known: known,
            found_letter_positions: Vec::new(),
        }
    }
}

/// Who decides a player's moves.
#[derive(Debug, Clone, PartialEq, Eq, Structural)]
pub enum ControlType {
    Human,
    AI,
}

/// A participant.
#[derive(Debug, Clone)]
pub struct Player {
    pub id: u32,
    pub name: String,
    pub secret_word: SecretWord,
    pub status: PlayerStatus,
    pub control_type: ControlType,
    pub score: u32,
    /// The notebook on each opponent, by the opponent's id.
    pub progress_on_opponents: HashMap<u32, Progress>,
    /// From 0 to 100; a full bar allows a buzz, and powers cost energy.
    pub energy: u32,
    pub is_eliminated: bool,
    pub turns_played: u32,
    pub correct_guesses: u32,
}

impl Player {
    /// An active human player with no score, no energy and no notebook.
    pub fn new(id: u32, name: &str, secret_word: SecretWord) -> (r: Player)
        ensures
            r.id == id,
            r.name@ == name@,
            r.secret_word == secret_word,
            r.status == PlayerStatus::Active,
            r.control_type == ControlType::Human,
            r.score == 0,
            r.progress_on_opponents@ == Map::<u32, Progress>::empty(),
            r.energy == 0,
            !r.is_eliminated,
            r.turns_played == 0,
            r.correct_guesses == 0,
    {
        Player {
            id,
            name: String::from_str(name),
            secret_word,
            status: PlayerStatus::Active,
            control_type: ControlType::Human,
            score: 0,
            progress_on_opponents: HashMap::new(),
            energy: 0,
            is_eliminated: false,
            turns_played: 0,
            correct_guesses: 0,
        }
    }
}


#[verifier::external_type_specification]
#[verifier::external_body]
pub struct ExInstant(std::time::Instant);

/// `Clone for Instant`.
///
/// Trusted: `Instant` is `Copy`, and its clone is the same instant.
pub assume_specification[ <std::time::Instant as Clone>::clone ](i: &std::time::Instant) -> (r: std::time::Instant)
    ensures
        r == *i,
;

/// `Instant::now`.
///
/// Trusted: reads the monotonic clock; nothing is stated of the result.
#[verifier::external_body]
fn instant_now() -> std::time::Instant {
    std::time::Instant::now()
}

/// `Instant::elapsed`.
///
/// Trusted: reads the clock; nothing is stated of the result.
#[verifier::external_body]
pub(crate) fn instant_elapsed(start: &std::time::Instant) -> std::time::Duration {
    start.elapsed()
}

/// A game in progress.
#[derive(Debug, Clone)]
pub struct Game {
    pub mode: GameMode,
    pub difficulty: Difficulty,
    pub players: Vec<Player>,
    /// Counts turns since the start; the player to move is
    /// `players[current_turn % players.len()]`.
    pub current_turn: usize,
    pub is_over: bool,
    pub start_time: std::time::Instant,
    pub final_duration: Option<std::time::Duration>,
}

/// `i` is the first player with id `id`.
pub open spec fn is_first_with_id(ps: Seq<Player>, id: u32, i: int) -> bool {
    0 <= i < ps.len() && ps[i].id == id && forall|j: int| 0 <= j < i ==> ps[j].id != id
}

/// Some player has id `id`.
pub open spec fn has_player(ps: Seq<Player>, id: u32) -> bool {
    exists|i: int| 0 <= i < ps.len() && ps[i].id == id
}

/// The index of the first player with id `id` (or -1): players are looked
/// up by their first occurrence.
pub open spec fn index_of(ps: Seq<Player>, id: u32) -> int {
    if has_player(ps, id) {
        choose|i: int| is_first_with_id(ps, id, i)
    } else {
        -1
    }
}

/// A player with id `id` at or after a first one: there is a first one.
pub proof fn lemma_first_exists(ps: Seq<Player>, id: u32, i: int)
    requires
        0 <= i < ps.len(),
        ps[i].id == id,
    ensures
        exists|k: int| is_first_with_id(ps, id, k),
    decreases i,
{
    if exists|j: int| 0 <= j < i && ps[j].id == id {
        let j = choose|j: int| 0 <= j < i && ps[j].id == id;
        lemma_first_exists(ps, id, j);
    } else {
        assert(is_first_with_id(ps, id, i));
    }
}

/// A player that exists is found at `index_of`.
pub proof fn lemma_index_of(ps: Seq<Player>, id: u32)
    requires
        has_player(ps, id),
    ensures
        is_first_with_id(ps, id, index_of(ps, id)),
        0 <= index_of(ps, id) < ps.len(),
        ps[index_of(ps, id)].id == id,
{
    let i = choose|i: int| 0 <= i < ps.len() && ps[i].id == id;
    lemma_first_exists(ps, id, i);
}

/// The (id, word length) of each player.
pub open spec fn id_lengths(ps: Seq<Player>) -> Seq<(u32, u32)> {
    Seq::new(ps.len(), |i: int| (ps[i].id, ps[i].secret_word.length))
}

/// The ids other than `self_id` that occur in `pairs`.
pub open spec fn opponent_ids(pairs: Seq<(u32, u32)>, self_id: u32) -> Set<u32> {
    Set::new(|k: u32| k != self_id && exists|j: int| 0 <= j < pairs.len() && pairs[j].0 == k)
}

/// The word length of the last player with id `k`.
pub open spec fn last_length(pairs: Seq<(u32, u32)>, k: u32) -> nat
    decreases pairs.len(),
{
    if pairs.len() == 0 {
        0
    } else if pairs.last().0 == k {
        pairs.last().1 as nat
    } else {
        last_length(pairs.drop_last(), k)
    }
}

/// `m` holds a fresh notebook on every other player of `pairs` (one per id;
/// the last player with an id gives the length).
pub open spec fn fresh_notebooks(m: Map<u32, Progress>, pairs: Seq<(u32, u32)>, self_id: u32, difficulty: Difficulty) -> bool {
    &&& m.dom() == opponent_ids(pairs, self_id)
    &&& forall|k: u32| #[trigger] m.contains_key(k) ==> is_initial_progress(m[k], last_length(pairs, k), difficulty)
}

/// `a` and `b` agree on everything but their notebooks.
pub open spec fn same_but_notebooks(a: Player, b: Player) -> bool {
    &&& a.id == b.id
    &&& a.name == b.name
    &&& a.secret_word == b.secret_word
    &&& a.status == b.status
    &&& a.control_type == b.control_type
    &&& a.score == b.score
    &&& a.energy == b.energy
    &&& a.is_eliminated == b.is_eliminated
    &&& a.turns_played == b.turns_played
    &&& a.correct_guesses == b.correct_guesses
}

/// The notebooks on every opponent, all fresh.
fn fresh_notebook_map(pairs: &Vec<(u32, u32)>, self_id: u32, difficulty: Difficulty) -> (m: HashMap<u32, Progress>)
    ensures
        fresh_notebooks(m@, pairs@, self_id, difficulty),
{
    let mut m: HashMap<u32, Progress> = HashMap::new();
    let mut j: usize = 0;
    assert(m@.dom() =~= opponent_ids(pairs@.take(0), self_id));
    while j < pairs.len()
        invariant
            j <= pairs.len(),
            fresh_notebooks(m@, pairs@.take(j as int), self_id, difficulty),
        decreases pairs.len() - j,
    {
        let (oid, olen) = pairs[j];
        proof {
            assert(pairs@.take(j + 1).drop_last() =~= pairs@.take(j as int));
        }
        if oid != self_id {
            let p = Progress::new(olen as usize, difficulty);
            m.insert(oid, p);
        }
        j = j + 1;
        proof {
            let t = pairs@.take(j as int);
            assert forall|k: u32| k != self_id && (exists|x: int| 0 <= x < t.len() && t[x].0 == k) implies #[trigger] m@.contains_key(k) by {
                let x = choose|x: int| 0 <= x < t.len() && t[x].0 == k;
                if x < j - 1 {
                    assert(pairs@.take(j - 1)[x] == t[x]);
                }
            }
            assert forall|k: u32| #[trigger] m@.contains_key(k) implies opponent_ids(t, self_id).contains(k) by {
                if k == oid && oid != self_id {
                    assert(t[j - 1].0 == k);
                } else {
                    let u = pairs@.take(j - 1);
                    let x = choose|x: int| 0 <= x < u.len() && u[x].0 == k;
                    assert(t[x] == u[x]);
                }
            }
            assert(m@.dom() =~= opponent_ids(t, self_id));
        }
    }
    assert(pairs@.take(pairs.len() as int) =~= pairs@);
    m
}

impl Game {
    /// A new game in the classic mode, at turn 0, where every player holds
    /// a fresh notebook on every other player.
    pub fn new(players: Vec<Player>, difficulty: Difficulty) -> (r: Game)
        ensures
            r.mode is Classic,
            r.difficulty == difficulty,
            r.current_turn == 0,
            !r.is_over,
            r.final_duration is None,
            r.players.len() == players.len(),
            forall|i: int| 0 <= i < players.len() ==> same_but_notebooks(#[trigger] r.players[i], players[i]),
            forall|i: int| 0 <= i < players.len() ==>
                fresh_notebooks(#[trigger] r.players[i].progress_on_opponents@, id_lengths(players@), players[i].id, difficulty),
    {
        let mut players = players;
        let ghost old_players = players@;
        let mut pairs: Vec<(u32, u32)> = Vec::new();
        let mut k: usize = 0;
        while k < players.len()
            invariant
                players@ == old_players,
                k <= players.len(),
                pairs@ == id_lengths(old_players).take(k as int),
            decreases players.len() - k,
        {
            pairs.push((players[k].id, players[k].secret_word.length));
            k = k + 1;
            assert(pairs@ =~= id_lengths(old_players).take(k as int));
        }
        assert(pairs@ =~= id_lengths(old_players));
        let mut i: usize = 0;
        while i < players.len()
            invariant
                players.len() == old_players.len(),
                pairs@ == id_lengths(old_players),
                i <= players.len(),
                forall|x: int| 0 <= x < old_players.len() ==> same_but_notebooks(#[trigger] players@[x], old_players[x]),
                forall|x: int| 0 <= x < i ==>
                    fresh_notebooks(#[trigger] players@[x].progress_on_opponents@, pairs@, old_players[x].id, difficulty),
            decreases players.len() - i,
        {
            let self_id = players[i].id;
            let m = fresh_notebook_map(&pairs, self_id, difficulty);
            players[i].progress_on_opponents = m;
            i = i + 1;
        }
        Game {
            mode: GameMode::Classic,
            difficulty,
            players,
            current_turn: 0,
            is_over: false,
            start_time: instant_now(),
            final_duration: None,
        }
    }
}


/// The name of the first player with id `id`, or `"Inconnu"`.
pub open spec fn name_of(ps: Seq<Player>, id: u32) -> Seq<char> {
    if has_player(ps, id) {
        ps[index_of(ps, id)].name@
    } else {
        "Inconnu"@
    }
}

/// How many further seats past `start + j` the turn moves over: the first
/// seat at or after `start + j` whose player is still in, counted from
/// `start`, or the whole table when nobody is.
pub open spec fn seats_to_skip(ps: Seq<Player>, start: int, j: nat) -> nat
    decreases ps.len() - j,
{
    if j >= ps.len() {
        ps.len()
    } else if !ps[(start + j) % (ps.len() as int)].is_eliminated {
        j
    } else {
        seats_to_skip(ps, start, j + 1)
    }
}

/// Every player's energy is at most 100.
pub open spec fn energies_capped(ps: Seq<Player>) -> bool {
    forall|i: int| 0 <= i < ps.len() ==> #[trigger] ps[i].energy <= 100
}

/// The player `x` seats past `start`, going round the table.
pub open spec fn seat(ps: Seq<Player>, start: int, x: int) -> Player {
    ps[(start + x) % (ps.len() as int)]
}

/// Some player is still in the game.
pub open spec fn some_active(ps: Seq<Player>) -> bool {
    exists|i: int| 0 <= i < ps.len() && !ps[i].is_eliminated
}

/// The seats passed over are exactly the eliminated ones before the first
/// player still in.
pub proof fn lemma_seats_to_skip(ps: Seq<Player>, start: int, j: nat)
    requires
        ps.len() > 0,
        start >= 0,
        j <= ps.len(),
        forall|x: int| 0 <= x < j ==> #[trigger] seat(ps, start, x).is_eliminated,
    ensures
        j <= seats_to_skip(ps, start, j) <= ps.len(),
        forall|x: int| 0 <= x < seats_to_skip(ps, start, j) ==> #[trigger] seat(ps, start, x).is_eliminated,
        seats_to_skip(ps, start, j) < ps.len() ==> !ps[(start + seats_to_skip(ps, start, j)) % (ps.len() as int)].is_eliminated,
    decreases ps.len() - j,
{
    if j < ps.len() && ps[(start + j) % (ps.len() as int)].is_eliminated {
        lemma_seats_to_skip(ps, start, j + 1);
    }
}

/// When some player is still in, a full round of seats meets one of them.
pub proof fn lemma_full_round_meets_active(ps: Seq<Player>, start: int)
    requires
        ps.len() > 0,
        start >= 0,
        some_active(ps),
    ensures
        seats_to_skip(ps, start, 0) < ps.len(),
{
    lemma_seats_to_skip(ps, start, 0);
    let n = ps.len() as int;
    let i = choose|i: int| 0 <= i < ps.len() && !ps[i].is_eliminated;
    if seats_to_skip(ps, start, 0) == ps.len() {
        let q = start / n;
        let s0 = start % n;
        vstd::arithmetic::div_mod::lemma_fundamental_div_mod(start, n);
        let x = if i >= s0 { i - s0 } else { i - s0 + n };
        assert(0 <= x < n);
        if i >= s0 {
            assert(start + x == q * n + i) by (nonlinear_arith)
                requires
                    start == n * q + s0,
                    x == i - s0,
            {
            }
            vstd::arithmetic::div_mod::lemma_fundamental_div_mod_converse(start + x, n, q, i);
        } else {
            assert(start + x == (q + 1) * n + i) by (nonlinear_arith)
                requires
                    start == n * q + s0,
                    x == i - s0 + n,
            {
            }
            vstd::arithmetic::div_mod::lemma_fundamental_div_mod_converse(start + x, n, q + 1, i);
        }
        assert(seat(ps, start, x).is_eliminated);
    }
}

/// The turn the next player still in plays: the turn after `g`'s, moved
/// over the players who are out (the whole table at most once).
pub open spec fn landing_turn(g: Game) -> int {
    g.current_turn + 1 + seats_to_skip(g.players@, g.current_turn + 1, 0)
}

/// The turn can pass: there are players, the turn counter can reach the
/// landing turn, and the energy of the player it lands on can take 10 more.
pub open spec fn turn_can_pass(g: Game) -> bool {
    &&& g.players.len() > 0
    &&& landing_turn(g) <= usize::MAX
    &&& g.players[landing_turn(g) % (g.players.len() as int)].energy <= u32::MAX - 10
}

/// `h` is `g` after the turn passed: the turn moves over the players who
/// are out (the whole table at most once) to the next one, who gains 10
/// energy, up to 100; nothing else changes.
pub open spec fn turn_passed(g: Game, h: Game) -> bool {
    let n = g.players.len() as int;
    let k = h.current_turn as int % n;
    &&& h.current_turn == g.current_turn + 1 + seats_to_skip(g.players@, g.current_turn + 1, 0)
    &&& h.players.len() == g.players.len()
    &&& h.players[k].energy == if g.players[k].energy + 10 <= 100 { g.players[k].energy + 10 } else { 100 }
    &&& forall|i: int| 0 <= i < n && i != k ==> #[trigger] h.players[i] == g.players[i]
    &&& h.players[k] == (Player { energy: h.players[k].energy, ..g.players[k] })
    &&& h.mode == g.mode
    &&& h.difficulty == g.difficulty
    &&& h.is_over == g.is_over
    &&& h.start_time == g.start_time
    &&& h.final_duration == g.final_duration
}

/// Seat `j` after seat `start % n`, counted without going past `n`.
pub proof fn lemma_seat_after(start: int, base: int, j: int, n: int)
    requires
        n > 0,
        start >= 0,
        base == start % n,
        0 <= j < n,
    ensures
        (if j < n - base { base + j } else { j - (n - base) }) == (start + j) % n,
{
    vstd::arithmetic::div_mod::lemma_fundamental_div_mod(start, n);
    let q = start / n;
    if j < n - base {
        assert(start + j == q * n + (base + j)) by (nonlinear_arith)
            requires
                start == n * q + base,
        {
        }
        vstd::arithmetic::div_mod::lemma_fundamental_div_mod_converse(start + j, n, q, base + j);
    } else {
        assert(start + j == (q + 1) * n + (j - (n - base))) by (nonlinear_arith)
            requires
                start == n * q + base,
        {
        }
        vstd::arithmetic::div_mod::lemma_fundamental_div_mod_converse(start + j, n, q + 1, j - (n - base));
    }
}

impl Game {
    /// The index of the first player with id `id`.
    pub fn find_player(&self, id: u32) -> (r: Option<usize>)
        ensures
            match r {
                Some(i) => is_first_with_id(self.players@, id, i as int) && i as int == index_of(self.players@, id),
                None => !has_player(self.players@, id),
            },
    {
        let ghost ps = self.players@;
        let mut i: usize = 0;
        while i < self.players.len()
            invariant
                ps == self.players@,
                i <= self.players.len(),
                forall|j: int| 0 <= j < i ==> ps[j].id != id,
            decreases self.players.len() - i,
        {
            if self.players[i].id == id {
                proof {
                    assert(is_first_with_id(ps, id, i as int));
                    let k = choose|k: int| is_first_with_id(ps, id, k);
                    assert(k == i as int) by {
                        if k < i as int {
                        } else if k > i as int {
                        }
                    }
                }
                return Some(i);
            }
            i = i + 1;
        }
        None
    }

    /// The player whose turn it is.
    pub fn current_player(&self) -> (r: &Player)
        requires
            self.players.len() > 0,
        ensures
            *r == self.players[(self.current_turn % self.players.len()) as int],
    {
        &self.players[self.current_turn % self.players.len()]
    }

    /// Passes the turn to the next player still in the game (the whole table
    /// is passed over at most once), who gains 10 energy, up to 100.
    pub fn next_turn(&mut self)
        requires
            turn_can_pass(*old(self)),
        ensures
            turn_passed(*old(self), *final(self)),
            // the energy stays capped
            energies_capped(old(self).players@) ==> energies_capped(final(self).players@),
            // the turn lands on a player still in, whenever there is one
            some_active(old(self).players@) ==> !final(self).players[(final(self).current_turn % final(self).players.len()) as int].is_eliminated,
            forall|x: int| 0 <= x < seats_to_skip(old(self).players@, old(self).current_turn + 1, 0) ==>
                #[trigger] seat(old(self).players@, old(self).current_turn + 1, x).is_eliminated,
    {
        let ghost ps = self.players@;
        let ghost start = self.current_turn + 1;
        let n = self.players.len();
        proof {
            lemma_seats_to_skip(ps, start as int, 0);
        }
        self.current_turn = self.current_turn + 1;
        let mut loop_count: usize = 0;
        while self.players[self.current_turn % n].is_eliminated && loop_count < n
            invariant
                self.players@ == ps,
                self.mode == old(self).mode,
                self.difficulty == old(self).difficulty,
                self.is_over == old(self).is_over,
                self.start_time == old(self).start_time,
                self.final_duration == old(self).final_duration,
                ps == old(self).players@,
                n == ps.len(),
                n > 0,
                loop_count <= n,
                start == old(self).current_turn + 1,
                self.current_turn == start + loop_count,
                start + seats_to_skip(ps, start as int, 0) <= usize::MAX,
                forall|x: int| 0 <= x < loop_count ==> #[trigger] seat(ps, start as int, x).is_eliminated,
                seats_to_skip(ps, start as int, 0) == seats_to_skip(ps, start as int, loop_count as nat),
            decreases n - loop_count,
        {
            proof {
                assert(seat(ps, start as int, loop_count as int).is_eliminated);
                lemma_seats_to_skip(ps, start as int, (loop_count + 1) as nat);
            }
            self.current_turn = self.current_turn + 1;
            loop_count = loop_count + 1;
        }
        proof {
            lemma_seats_to_skip(ps, start as int, 0);
            if some_active(ps) {
                lemma_full_round_meets_active(ps, start as int);
            }
        }
        let k = self.current_turn % n;
        let e = self.players[k].energy + 10;
        self.players[k].energy = if e <= 100 { e } else { 100 };
    }

    /// The round number: one more than the number of full rounds played.
    pub fn get_current_round(&self) -> (r: usize)
        requires
            self.players.len() > 0,
            self.current_turn / self.players.len() + 1 <= usize::MAX,
        ensures
            r == self.current_turn / self.players.len() + 1,
    {
        (self.current_turn / self.players.len()) + 1
    }

    /// The name of the first player with id `player_id`, or `"Inconnu"`.
    pub fn get_player_name(&self, player_id: u32) -> (r: String)
        ensures
            r@ == name_of(self.players@, player_id),
    {
        match self.find_player(player_id) {
            Some(i) => self.players[i].name.clone(),
            None => String::from_str("Inconnu"),
        }
    }
}


/// The number of players still in the game.
pub open spec fn active_count(ps: Seq<Player>) -> nat
    decreases ps.len(),
{
    if ps.len() == 0 {
        0
    } else {
        active_count(ps.drop_last()) + if !ps.last().is_eliminated { 1nat } else { 0nat }
    }
}

/// With exactly one player still in, that player is the only one.
pub proof fn lemma_single_active(ps: Seq<Player>, i: int, j: int)
    requires
        active_count(ps) == 1,
        0 <= i < ps.len(),
        0 <= j < ps.len(),
        !ps[i].is_eliminated,
        !ps[j].is_eliminated,
    ensures
        i == j,
    decreases ps.len(),
{
    let q = ps.drop_last();
    let n = ps.len() - 1;
    if i < n && j < n {
        if !ps.last().is_eliminated {
            lemma_active_count_positive(q, i);
        } else {
            assert(q[i] == ps[i] && q[j] == ps[j]);
            lemma_single_active(q, i, j);
        }
    } else if i < n {
        assert(q[i] == ps[i]);
        lemma_active_count_positive(q, i);
    } else if j < n {
        assert(q[j] == ps[j]);
        lemma_active_count_positive(q, j);
    }
}

/// A player still in makes the count positive.
pub proof fn lemma_active_count_positive(ps: Seq<Player>, i: int)
    requires
        0 <= i < ps.len(),
        !ps[i].is_eliminated,
    ensures
        active_count(ps) >= 1,
    decreases ps.len(),
{
    if i < ps.len() - 1 {
        assert(ps.drop_last()[i] == ps[i]);
        lemma_active_count_positive(ps.drop_last(), i);
    }
}

impl Game {
    /// The winner, when exactly one player is still in: the game is then
    /// over, and its duration is recorded the first time.
    pub fn check_for_winner(&mut self) -> (r: Option<u32>)
        ensures
            final(self).players == old(self).players,
            final(self).current_turn == old(self).current_turn,
            final(self).mode == old(self).mode,
            final(self).difficulty == old(self).difficulty,
            final(self).start_time == old(self).start_time,
            (r is Some) <==> active_count(old(self).players@) == 1,
            active_count(old(self).players@) == 1 ==> exists|i: int|
                0 <= i < old(self).players.len() && !old(self).players[i].is_eliminated && r == Some(#[trigger] old(self).players[i].id),
            if active_count(old(self).players@) == 1 && old(self).final_duration is None {
                final(self).is_over && final(self).final_duration is Some
            } else {
                final(self).is_over == old(self).is_over && final(self).final_duration == old(self).final_duration
            },
    {
        let mut count: usize = 0;
        let mut winner: Option<u32> = None;
        let mut i: usize = 0;
        while i < self.players.len()
            invariant
                i <= self.players.len(),
                count == active_count(self.players@.take(i as int)),
                count <= i,
                count >= 1 ==> exists|j: int| 0 <= j < i && !self.players[j].is_eliminated && winner == Some(#[trigger] self.players[j].id),
            decreases self.players.len() - i,
        {
            assert(self.players@.take(i + 1).drop_last() =~= self.players@.take(i as int));
            if !self.players[i].is_eliminated {
                count = count + 1;
                winner = Some(self.players[i].id);
            }
            i = i + 1;
        }
        assert(self.players@.take(self.players.len() as int) =~= self.players@);
        if count == 1 {
            if self.final_duration.is_none() {
                self.final_duration = Some(instant_elapsed(&self.start_time));
                self.is_over = true;
            }
            winner
        } else {
            None
        }
    }
}

/// An event with its public message and a private message for the actor
/// and for the target (the target's wins when they are the same player).
pub open spec fn event_is(e: GameEvent, ty: GameEventType, actor: u32, target: u32, public: Seq<char>, actor_msg: Seq<char>, target_msg: Seq<char>) -> bool {
    &&& e.event_type == ty
    &&& e.actor_id == actor
    &&& e.target_id == Some(target)
    &&& e.public_log@ == public
    &&& e.private_logs@.dom() == set![actor, target]
    &&& e.private_logs@[target]@ == target_msg
    &&& actor != target ==> e.private_logs@[actor]@ == actor_msg
}

/// An error event: only a public message.
pub open spec fn error_is(e: GameEvent, actor: u32, target: u32, public: Seq<char>) -> bool {
    &&& e.event_type == GameEventType::Error
    &&& e.actor_id == actor
    &&& e.target_id == Some(target)
    &&& e.public_log@ == public
    &&& e.private_logs@ == Map::<u32, String>::empty()
}

/// Builds an event with its public message and the two private ones.
fn make_event(ty: GameEventType, actor: u32, target: u32, public: String, actor_msg: String, target_msg: String) -> (e: GameEvent)
    ensures
        event_is(e, ty, actor, target, public@, actor_msg@, target_msg@),
{
    let e = GameEvent::new(ty, actor, Some(target), public).with_private_log(actor, actor_msg).with_private_log(target, target_msg);
    assert(e.private_logs@.dom() =~= set![actor, target]);
    e
}

/// Builds an error event.
fn make_error(actor: u32, target: u32, public: &str) -> (e: GameEvent)
    ensures
        error_is(e, actor, target, public@),
{
    GameEvent::new(GameEventType::Error, actor, Some(target), String::from_str(public))
}

/// A one-character string.
pub fn char_string(c: char) -> (r: String)
    ensures
        r@ == seq![c],
{
    let mut v: Vec<char> = Vec::new();
    v.push(c);
    assert(v@ =~= seq![c]);
    string_from_chars(&v)
}

/// The public message of an inquiry.
pub open spec fn inquiry_public(actor: Seq<char>, target: Seq<char>, letter: char) -> Seq<char> {
    actor + " interroge "@ + target + " sur la lettre '"@ + seq![letter] + "'..."@
}

/// What the inquirer reads.
pub open spec fn inquiry_to_actor(target: Seq<char>, letter: char) -> Seq<char> {
    "Vous demandez à "@ + target + " s'il possède la lettre '"@ + seq![letter] + "'. En attente de réponse..."@
}

/// What the inquired player reads.
pub open spec fn inquiry_to_target(actor: Seq<char>, letter: char) -> Seq<char> {
    actor + " vous demande : 'Avez-vous la lettre "@ + seq![letter] + " dans votre mot ?'"@
}

/// The event of an inquiry: an error for an unknown target, else the
/// question, told to everybody.
pub open spec fn inquiry_event(r: GameEvent, ps: Seq<Player>, actor: u32, target: u32, letter: char) -> bool {
    if !has_player(ps, target) {
        error_is(r, actor, target, "Cible introuvable"@)
    } else {
        event_is(r, GameEventType::InquiryInitiated, actor, target,
            inquiry_public(name_of(ps, actor), name_of(ps, target), letter),
            inquiry_to_actor(name_of(ps, target), letter),
            inquiry_to_target(name_of(ps, actor), letter))
    }
}

impl Game {
    /// Step one of an investigation: `current_player_id` asks `target_id`
    /// whether `letter` is in their word. Nothing is checked or changed yet.
    pub fn initiate_inquiry(&mut self, current_player_id: u32, target_id: u32, letter: char) -> (r: GameEvent)
        ensures
            *final(self) == *old(self),
            inquiry_event(r, old(self).players@, current_player_id, target_id, letter),
    {
        let target_name = match self.find_player(target_id) {
            Some(i) => self.players[i].name.clone(),
            None => return make_error(current_player_id, target_id, "Cible introuvable"),
        };
        let actor_name = self.get_player_name(current_player_id);
        let l = char_string(letter);
        let mut public = actor_name.clone();
        public.append(" interroge ");
        public.append(target_name.as_str());
        public.append(" sur la lettre '");
        public.append(l.as_str());
        public.append("'...");
        let mut to_actor = String::from_str("Vous demandez à ");
        to_actor.append(target_name.as_str());
        to_actor.append(" s'il possède la lettre '");
        to_actor.append(l.as_str());
        to_actor.append("'. En attente de réponse...");
        let mut to_target = actor_name.clone();
        to_target.append(" vous demande : 'Avez-vous la lettre ");
        to_target.append(l.as_str());
        to_target.append(" dans votre mot ?'");
        make_event(GameEventType::InquiryInitiated, current_player_id, target_id, public, to_actor, to_target)
    }
}


/// The mask after every position of `letter` in `secret` (that falls
/// within the mask) is uncovered.
pub open spec fn mask_with_letter(mask: Seq<char>, secret: Seq<char>, letter: char) -> Seq<char> {
    Seq::new(mask.len(), |i: int| if i < secret.len() && secret[i] == letter { letter } else { mask[i] })
}

/// `after` is `before` with `c` added and the list sorted, unless `c` was
/// already listed (then nothing changes).
pub open spec fn noted_letter(before: Seq<char>, after: Seq<char>, c: char) -> bool {
    if before.contains(c) {
        after == before
    } else {
        after.to_multiset() == before.push(c).to_multiset() && chars_sorted(after)
    }
}

/// The notebook `q` after an answer about `letter`, from notebook `p`, for
/// a word that reads `secret`, with the positions `told` given as proof.
pub open spec fn progress_after_answer(p: Progress, q: Progress, secret: Seq<char>, letter: char, told: Seq<usize>) -> bool {
    let found = secret.contains(letter);
    &&& q.length_known == p.length_known
    &&& q.positions_known == p.positions_known
    &&& q.mask@ == if p.positions_known { mask_with_letter(p.mask@, secret, letter) } else { p.mask@ }
    &&& if found && !p.positions_known {
        noted_letter(p.found_letters@, q.found_letters@, letter)
    } else {
        q.found_letters@ == p.found_letters@
    }
    &&& table_view(q.found_letter_positions@) == if found && !p.positions_known && told.len() > 0 {
        table_insert(table_view(p.found_letter_positions@), letter, told)
    } else {
        table_view(p.found_letter_positions@)
    }
    &&& if !found {
        noted_letter(p.missed_letters@, q.missed_letters@, letter)
    } else {
        q.missed_letters@ == p.missed_letters@
    }
}

/// `q` is `p` with its notebook on `target` now `prog`, its energy
/// `energy`, and its other counters as given.
pub open spec fn player_after(p: Player, q: Player, notebook_target: u32, prog: Option<Progress>, energy: u32, score: u32,
    turns_played: u32, correct_guesses: u32) -> bool {
    &&& q.id == p.id
    &&& q.name == p.name
    &&& q.secret_word == p.secret_word
    &&& q.status == p.status
    &&& q.control_type == p.control_type
    &&& q.is_eliminated == p.is_eliminated
    &&& q.energy == energy
    &&& q.score == score
    &&& q.turns_played == turns_played
    &&& q.correct_guesses == correct_guesses
    &&& q.progress_on_opponents@ == match prog {
        Some(pr) => p.progress_on_opponents@.insert(notebook_target, pr),
        None => p.progress_on_opponents@,
    }
}

/// `e + bonus`, capped at 100.
pub open spec fn energy_plus(e: u32, bonus: u32) -> u32 {
    if e + bonus <= 100 { (e + bonus) as u32 } else { 100 }
}

/// Public message when the letter is there.
pub open spec fn answer_yes_public(target: Seq<char>, l: char) -> Seq<char> {
    target + " : J'ai '"@ + seq![l] + "'"@
}

/// Inquirer's message when the letter is there.
pub open spec fn answer_yes_actor(target: Seq<char>, l: char) -> Seq<char> {
    target + " a '"@ + seq![l] + "' ! (+10% Énergie)"@
}

/// Inquired player's message when the letter is there.
pub open spec fn answer_yes_target(l: char) -> Seq<char> {
    "Moi : J'ai '"@ + seq![l] + "'"@
}

/// Public message when the letter is absent.
pub open spec fn answer_no_public(target: Seq<char>, l: char) -> Seq<char> {
    target + " : Pas de '"@ + seq![l] + "'"@
}

/// Inquirer's message when the letter is absent.
pub open spec fn answer_no_actor(target: Seq<char>, l: char) -> Seq<char> {
    target + " n'a pas '"@ + seq![l] + "'."@
}

/// Inquired player's message when the letter is absent.
pub open spec fn answer_no_target(l: char) -> Seq<char> {
    "Moi : Pas de '"@ + seq![l] + "'"@
}

/// The notebook after an answer (the word is checked, whatever was claimed).
fn answer_progress(p: Progress, secret: &Vec<char>, letter: char, told: Vec<usize>) -> (q: Progress)
    ensures
        progress_after_answer(p, q, secret@, letter, told@),
{
    let mut p = p;
    let mut mask = chars_of(p.mask.as_str());
    let ghost mask0 = mask@;
    let mut found = false;
    let mut i: usize = 0;
    while i < secret.len()
        invariant
            i <= secret.len(),
            mask0 == p.mask@,
            mask@.len() == mask0.len(),
            found == (exists|j: int| 0 <= j < i && secret@[j] == letter),
            forall|j: int| 0 <= j < mask0.len() ==> #[trigger] mask@[j] == if p.positions_known && j < i && secret@[j] == letter {
                letter
            } else {
                mask0[j]
            },
        decreases secret.len() - i,
    {
        if secret[i] == letter {
            found = true;
            if p.positions_known && i < mask.len() {
                mask.set(i, letter);
            }
        }
        i = i + 1;
    }
    assert(secret@.take(secret.len() as int) =~= secret@);
    if p.positions_known {
        assert(mask@ =~= mask_with_letter(mask0, secret@, letter));
    } else {
        assert(mask@ =~= mask0);
    }
    p.mask = string_from_chars(&mask);
    if found {
        if !p.positions_known {
            if !vec_contains_char(&p.found_letters, letter) {
                p.found_letters.push(letter);
                sort_chars(&mut p.found_letters);
            }
            if told.len() > 0 {
                table_record(&mut p.found_letter_positions, letter, told);
            }
        }
    } else {
        if !vec_contains_char(&p.missed_letters, letter) {
            p.missed_letters.push(letter);
            sort_chars(&mut p.missed_letters);
        }
    }
    p
}

/// Nothing but the players changed.
pub open spec fn kept_game_fields(g: Game, h: Game) -> bool {
    &&& h.mode == g.mode
    &&& h.difficulty == g.difficulty
    &&& h.current_turn == g.current_turn
    &&& h.is_over == g.is_over
    &&& h.start_time == g.start_time
    &&& h.final_duration == g.final_duration
}

/// Both players exist and the inquirer keeps a notebook on the target.
pub open spec fn inquiry_applicable(ps: Seq<Player>, actor: u32, target: u32) -> bool {
    &&& has_player(ps, target)
    &&& has_player(ps, actor)
    &&& ps[index_of(ps, actor)].progress_on_opponents@.contains_key(target)
}

/// The word of `target`, read in upper case.
pub open spec fn word_of(ps: Seq<Player>, target: u32) -> Seq<char> {
    unicode_upper(ps[index_of(ps, target)].secret_word.content@)
}

/// `letter` occurs in the word of `target`, read in upper case.
pub open spec fn letter_in_word_of(ps: Seq<Player>, target: u32, letter: char) -> bool {
    word_of(ps, target).contains(letter)
}

/// The inquirer's counters can take an answer.
pub open spec fn answer_counters_fit(ps: Seq<Player>, actor: u32, target: u32, letter: char) -> bool {
    inquiry_applicable(ps, actor, target) ==> {
        let a = ps[index_of(ps, actor)];
        if letter_in_word_of(ps, target, letter) { a.energy <= u32::MAX - 10 } else { a.turns_played < u32::MAX }
    }
}

/// The players `qs` after the answer about `letter` reached the inquirer
/// (nothing changes when the inquiry does not apply).
pub open spec fn answer_applied(ps: Seq<Player>, qs: Seq<Player>, actor: u32, target: u32, letter: char, told: Seq<usize>) -> bool {
    &&& qs.len() == ps.len()
    &&& if !inquiry_applicable(ps, actor, target) {
        qs == ps
    } else {
        let a = index_of(ps, actor);
        let found = letter_in_word_of(ps, target, letter);
        &&& forall|i: int| 0 <= i < ps.len() && i != a ==> #[trigger] qs[i] == ps[i]
        &&& exists|q: Progress| #[trigger] progress_after_answer(ps[a].progress_on_opponents@[target], q, word_of(ps, target), letter, told)
            && player_after(ps[a], qs[a], target, Some(q),
                if found { energy_plus(ps[a].energy, 10) } else { ps[a].energy },
                ps[a].score,
                if found { ps[a].turns_played } else { (ps[a].turns_played + 1) as u32 },
                ps[a].correct_guesses)
    }
}

/// The event of an answer: an error for an unknown target or when the
/// inquirer keeps no notebook on it, else whether the letter was there.
pub open spec fn answer_event(r: GameEvent, ps: Seq<Player>, actor: u32, target: u32, letter: char) -> bool {
    if !has_player(ps, target) {
        error_is(r, actor, target, "Erreur : Adversaire non trouvé."@)
    } else if !inquiry_applicable(ps, actor, target) {
        error_is(r, actor, target, "Erreur interne"@)
    } else {
        let tname = ps[index_of(ps, target)].name@;
        if letter_in_word_of(ps, target, letter) {
            event_is(r, GameEventType::LetterFound, actor, target,
                answer_yes_public(tname, letter), answer_yes_actor(tname, letter), answer_yes_target(letter))
        } else {
            event_is(r, GameEventType::LetterNotFound, actor, target,
                answer_no_public(tname, letter), answer_no_actor(tname, letter), answer_no_target(letter))
        }
    }
}

impl Game {
    /// Step two of an investigation: `target_id` has answered whether
    /// `letter` is in their word (the answer itself is checked against the
    /// word, read in upper case), possibly with the positions as proof.
    ///
    /// In the inquirer's notebook on the target: when positions are shown the
    /// letter is uncovered in the mask; otherwise a present letter is listed
    /// with the given positions, and an absent letter is listed as missed.
    /// A present letter gives the inquirer 10 energy (up to 100); an absent
    /// one counts as a turn played.
    pub fn resolve_inquiry(&mut self, current_player_id: u32, target_id: u32, letter: char, _claimed_has_letter: bool, proof: Vec<usize>) -> (r: GameEvent)
        requires
            answer_counters_fit(old(self).players@, current_player_id, target_id, letter),
        ensures
            kept_game_fields(*old(self), *final(self)),
            answer_applied(old(self).players@, final(self).players@, current_player_id, target_id, letter, proof@),
            answer_event(r, old(self).players@, current_player_id, target_id, letter),
    {
        let t = match self.find_player(target_id) {
            Some(t) => t,
            None => return make_error(current_player_id, target_id, "Erreur : Adversaire non trouvé."),
        };
        let secret_string = to_uppercase(self.players[t].secret_word.content.as_str());
        let secret = chars_of(secret_string.as_str());
        let target_name = self.players[t].name.clone();
        let a = match self.find_player(current_player_id) {
            Some(a) => a,
            None => return make_error(current_player_id, target_id, "Erreur interne"),
        };
        let ghost ps = self.players@;
        if !self.players[a].progress_on_opponents.contains_key(&target_id) {
            return make_error(current_player_id, target_id, "Erreur interne");
        }
        let prog = self.players[a].progress_on_opponents.remove(&target_id).unwrap();
        let ghost p0 = prog;
        let ghost told = proof@;
        assert(p0 == ps[a as int].progress_on_opponents@[target_id]);
        assert(secret@ == word_of(ps, target_id));
        let q = answer_progress(prog, &secret, letter, proof);
        assert(progress_after_answer(ps[a as int].progress_on_opponents@[target_id], q, word_of(ps, target_id), letter, told));
        let found = vec_contains_char(&secret, letter);
        self.players[a].progress_on_opponents.insert(target_id, q);
        assert(self.players@[a as int].progress_on_opponents@ =~= ps[a as int].progress_on_opponents@.insert(target_id, q));
        let l = char_string(letter);
        if found {
            let e = self.players[a].energy + 10;
            self.players[a].energy = if e <= 100 { e } else { 100 };
            let mut public = target_name.clone();
            public.append(" : J'ai '");
            public.append(l.as_str());
            public.append("'");
            let mut to_actor = target_name.clone();
            to_actor.append(" a '");
            to_actor.append(l.as_str());
            to_actor.append("' ! (+10% Énergie)");
            let mut to_target = String::from_str("Moi : J'ai '");
            to_target.append(l.as_str());
            to_target.append("'");
            make_event(GameEventType::LetterFound, current_player_id, target_id, public, to_actor, to_target)
        } else {
            self.players[a].turns_played = self.players[a].turns_played + 1;
            let mut public = target_name.clone();
            public.append(" : Pas de '");
            public.append(l.as_str());
            public.append("'");
            let mut to_actor = target_name.clone();
            to_actor.append(" n'a pas '");
            to_actor.append(l.as_str());
            to_actor.append("'.");
            let mut to_target = String::from_str("Moi : Pas de '");
            to_target.append(l.as_str());
            to_target.append("'");
            make_event(GameEventType::LetterNotFound, current_player_id, target_id, public, to_actor, to_target)
        }
    }
}


/// The 1-based positions of `c` in `w`, in increasing order.
pub open spec fn positions_of(w: Seq<char>, c: char) -> Seq<usize>
    decreases w.len(),
{
    if w.len() == 0 {
        Seq::empty()
    } else if w.last() == c {
        positions_of(w.drop_last(), c).push(w.len() as usize)
    } else {
        positions_of(w.drop_last(), c)
    }
}

/// The 1-based positions of `c` in `w`.
pub fn letter_positions(w: &Vec<char>, c: char) -> (r: Vec<usize>)
    ensures
        r@ == positions_of(w@, c),
{
    let mut r: Vec<usize> = Vec::new();
    let mut i: usize = 0;
    while i < w.len()
        invariant
            i <= w.len(),
            r@ == positions_of(w@.take(i as int), c),
        decreases w.len() - i,
    {
        assert(w@.take(i + 1).drop_last() =~= w@.take(i as int));
        if w[i] == c {
            r.push(i + 1);
        }
        i = i + 1;
    }
    assert(w@.take(w.len() as int) =~= w@);
    r
}

/// Public message of a one-step investigation that found the letter.
pub open spec fn proposal_yes_public(actor: Seq<char>, target: Seq<char>, l: char) -> Seq<char> {
    actor + " a trouvé la lettre '"@ + seq![l] + "' chez "@ + target + " !"@
}

/// Investigator's message when the letter was found.
pub open spec fn proposal_yes_actor(target: Seq<char>, l: char) -> Seq<char> {
    "Lettre '"@ + seq![l] + "' trouvée chez "@ + target + " ! (+10% Énergie)"@
}

/// Investigated player's message when the letter was found.
pub open spec fn proposal_yes_target(actor: Seq<char>, l: char) -> Seq<char> {
    actor + " a trouvé votre lettre '"@ + seq![l] + "' !"@
}

/// Public message of a one-step investigation that missed.
pub open spec fn proposal_no_public(actor: Seq<char>, target: Seq<char>, l: char) -> Seq<char> {
    actor + " n'a pas trouvé la lettre '"@ + seq![l] + "' chez "@ + target + "."@
}

/// Investigator's message when the letter is absent.
pub open spec fn proposal_no_actor(target: Seq<char>, l: char) -> Seq<char> {
    "Pas de '"@ + seq![l] + "' chez "@ + target + "."@
}

/// Investigated player's message when the letter is absent.
pub open spec fn proposal_no_target(actor: Seq<char>, l: char) -> Seq<char> {
    actor + " a cherché la lettre '"@ + seq![l] + "' chez vous, sans succès."@
}

/// The event of a one-step investigation: as for an answer, with the
/// investigation's own messages.
pub open spec fn proposal_event(r: GameEvent, ps: Seq<Player>, actor: u32, target: u32, letter: char) -> bool {
    if !has_player(ps, target) {
        error_is(r, actor, target, "Erreur : Adversaire non trouvé."@)
    } else if !inquiry_applicable(ps, actor, target) {
        error_is(r, actor, target, "Erreur interne"@)
    } else {
        let aname = name_of(ps, actor);
        let tname = ps[index_of(ps, target)].name@;
        if letter_in_word_of(ps, target, letter) {
            event_is(r, GameEventType::LetterFound, actor, target,
                proposal_yes_public(aname, tname, letter), proposal_yes_actor(tname, letter), proposal_yes_target(aname, letter))
        } else {
            event_is(r, GameEventType::LetterNotFound, actor, target,
                proposal_no_public(aname, tname, letter), proposal_no_actor(tname, letter), proposal_no_target(aname, letter))
        }
    }
}

impl Game {
    /// A one-step investigation: `current_player_id` proposes `letter` to
    /// `target_id`, who answers truthfully with the positions of the letter
    /// in their word (read in upper case). The notebooks change as for
    /// `resolve_inquiry` with those positions.
    pub fn process_letter_proposal(&mut self, current_player_id: u32, target_id: u32, letter: char) -> (r: GameEvent)
        requires
            answer_counters_fit(old(self).players@, current_player_id, target_id, letter),
        ensures
            kept_game_fields(*old(self), *final(self)),
            has_player(old(self).players@, target_id) ==> answer_applied(old(self).players@, final(self).players@, current_player_id,
                target_id, letter, positions_of(word_of(old(self).players@, target_id), letter)),
            !has_player(old(self).players@, target_id) ==> final(self).players@ == old(self).players@,
            proposal_event(r, old(self).players@, current_player_id, target_id, letter),
    {
        let t = match self.find_player(target_id) {
            Some(t) => t,
            None => return make_error(current_player_id, target_id, "Erreur : Adversaire non trouvé."),
        };
        let ghost ps = self.players@;
        let word = to_uppercase(self.players[t].secret_word.content.as_str());
        let wv = chars_of(word.as_str());
        let positions = letter_positions(&wv, letter);
        let target_name = self.players[t].name.clone();
        let actor_name = self.get_player_name(current_player_id);
        let has_letter = positions.len() > 0;
        let answer = self.resolve_inquiry(current_player_id, target_id, letter, has_letter, positions);
        if answer.event_type == GameEventType::Error {
            return answer;
        }
        let l = char_string(letter);
        if answer.event_type == GameEventType::LetterFound {
            let mut public = actor_name.clone();
            public.append(" a trouvé la lettre '");
            public.append(l.as_str());
            public.append("' chez ");
            public.append(target_name.as_str());
            public.append(" !");
            let mut to_actor = String::from_str("Lettre '");
            to_actor.append(l.as_str());
            to_actor.append("' trouvée chez ");
            to_actor.append(target_name.as_str());
            to_actor.append(" ! (+10% Énergie)");
            let mut to_target = actor_name.clone();
            to_target.append(" a trouvé votre lettre '");
            to_target.append(l.as_str());
            to_target.append("' !");
            make_event(GameEventType::LetterFound, current_player_id, target_id, public, to_actor, to_target)
        } else {
            let mut public = actor_name.clone();
            public.append(" n'a pas trouvé la lettre '");
            public.append(l.as_str());
            public.append("' chez ");
            public.append(target_name.as_str());
            public.append(".");
            let mut to_actor = String::from_str("Pas de '");
            to_actor.append(l.as_str());
            to_actor.append("' chez ");
            to_actor.append(target_name.as_str());
            to_actor.append(".");
            let mut to_target = actor_name.clone();
            to_target.append(" a cherché la lettre '");
            to_target.append(l.as_str());
            to_target.append("' chez vous, sans succès.");
            make_event(GameEventType::LetterNotFound, current_player_id, target_id, public, to_actor, to_target)
        }
    }
}


/// `p` and `q` are the same participant (the counters and notebooks may
/// differ).
pub open spec fn same_identity(p: Player, q: Player) -> bool {
    &&& q.id == p.id
    &&& q.name == p.name
    &&& q.secret_word == p.secret_word
    &&& q.status == p.status
    &&& q.control_type == p.control_type
}

/// `q` is notebook `b` once the whole word `word` is known.
pub open spec fn revealed_notebook(b: Progress, q: Progress, word: Seq<char>) -> bool {
    &&& q.mask@ == word
    &&& q.length_known
    &&& q.positions_known
    &&& q.found_letters@ == Seq::<char>::empty()
    &&& q.missed_letters == b.missed_letters
    &&& q.found_letter_positions == b.found_letter_positions
}

/// The mask `m` with position `idx` shown as `c` (when it is within the mask).
pub open spec fn mask_show(m: Seq<char>, idx: int, c: char) -> Seq<char> {
    if 0 <= idx < m.len() { m.update(idx, c) } else { m }
}

/// `q` is notebook `b` after a letter `c` at position `idx` of a word of
/// `len` bytes was revealed: the length becomes known (an unknown length
/// gives a blank mask with positions shown).
pub open spec fn penalty_notebook(b: Progress, q: Progress, len: nat, idx: int, c: char) -> bool {
    let m0 = if b.length_known { b.mask@ } else { Seq::new(len, |_i: int| '_') };
    &&& q.length_known
    &&& q.positions_known == if b.length_known { b.positions_known } else { true }
    &&& q.mask@ == mask_show(m0, idx, c)
    &&& q.found_letters == b.found_letters
    &&& q.missed_letters == b.missed_letters
    &&& q.found_letter_positions == b.found_letter_positions
}

/// `q` is a fresh notebook (as in Normal mode) after the same revelation.
pub open spec fn penalty_fresh_notebook(q: Progress, len: nat, idx: int, c: char) -> bool {
    &&& q.length_known
    &&& q.positions_known
    &&& q.mask@ == mask_show(Seq::new(len, |_i: int| '_'), idx, c)
    &&& q.found_letters@ == Seq::<char>::empty()
    &&& q.missed_letters@ == Seq::<char>::empty()
    &&& q.found_letter_positions@ == Seq::<(char, Vec<usize>)>::empty()
}

/// Every notebook on `target` now shows the whole word `word`.
pub open spec fn notebooks_revealed(p: Player, q: Player, target: u32, word: Seq<char>) -> bool {
    if p.id != target && p.progress_on_opponents@.contains_key(target) {
        exists|pr: Progress| #[trigger] revealed_notebook(p.progress_on_opponents@[target], pr, word)
            && q.progress_on_opponents@ == p.progress_on_opponents@.insert(target, pr)
    } else {
        q.progress_on_opponents@ == p.progress_on_opponents@
    }
}

/// Every other player's notebook on `actor` now shows letter `c` at
/// position `idx` of a word of `len` bytes (a notebook is opened if needed).
pub open spec fn notebooks_penalized(p: Player, q: Player, actor: u32, len: nat, idx: int, c: char) -> bool {
    if p.id != actor {
        exists|pr: Progress| q.progress_on_opponents@ == #[trigger] p.progress_on_opponents@.insert(actor, pr)
            && if p.progress_on_opponents@.contains_key(actor) {
                penalty_notebook(p.progress_on_opponents@[actor], pr, len, idx, c)
            } else {
                penalty_fresh_notebook(pr, len, idx, c)
            }
    } else {
        q.progress_on_opponents@ == p.progress_on_opponents@
    }
}

impl Game {
    /// Shows the whole word `word` in every notebook on `target`.
    fn reveal_word_to_all(&mut self, target: u32, word: &String)
        ensures
            kept_game_fields(*old(self), *final(self)),
            final(self).players.len() == old(self).players.len(),
            forall|i: int| 0 <= i < old(self).players.len() ==> {
                let (p, q) = (old(self).players[i], #[trigger] final(self).players[i]);
                &&& same_identity(p, q)
                &&& q.energy == p.energy && q.score == p.score && q.is_eliminated == p.is_eliminated
                &&& q.turns_played == p.turns_played && q.correct_guesses == p.correct_guesses
                &&& notebooks_revealed(p, q, target, word@)
            },
    {
        let ghost ps = self.players@;
        let mut i: usize = 0;
        while i < self.players.len()
            invariant
                kept_game_fields(*old(self), *self),
                ps == old(self).players@,
                self.players.len() == ps.len(),
                i <= ps.len(),
                forall|j: int| i <= j < ps.len() ==> #[trigger] self.players[j] == ps[j],
                forall|j: int| 0 <= j < i ==> {
                    let (p, q) = (ps[j], #[trigger] self.players[j]);
                    &&& same_identity(p, q)
                    &&& q.energy == p.energy && q.score == p.score && q.is_eliminated == p.is_eliminated
                    &&& q.turns_played == p.turns_played && q.correct_guesses == p.correct_guesses
                    &&& notebooks_revealed(p, q, target, word@)
                },
            decreases ps.len() - i,
        {
            if self.players[i].id != target && self.players[i].progress_on_opponents.contains_key(&target) {
                let b = self.players[i].progress_on_opponents.remove(&target).unwrap();
                let mut pr = b;
                pr.mask = word.clone();
                pr.length_known = true;
                pr.positions_known = true;
                pr.found_letters = Vec::new();
                proof {
                    assert(revealed_notebook(ps[i as int].progress_on_opponents@[target], pr, word@));
                }
                self.players[i].progress_on_opponents.insert(target, pr);
                assert(self.players[i as int].progress_on_opponents@ =~= ps[i as int].progress_on_opponents@.insert(target, pr));
            }
            i = i + 1;
        }
    }

    /// Reveals letter `c` at position `idx` of `actor`'s word (of `len`
    /// bytes) to every other player.
    fn reveal_letter_to_all(&mut self, actor: u32, len: u32, idx: u32, c: char)
        ensures
            kept_game_fields(*old(self), *final(self)),
            final(self).players.len() == old(self).players.len(),
            forall|i: int| 0 <= i < old(self).players.len() ==> {
                let (p, q) = (old(self).players[i], #[trigger] final(self).players[i]);
                &&& same_identity(p, q)
                &&& q.energy == p.energy && q.score == p.score && q.is_eliminated == p.is_eliminated
                &&& q.turns_played == p.turns_played && q.correct_guesses == p.correct_guesses
                &&& notebooks_penalized(p, q, actor, len as nat, idx as int, c)
            },
    {
        let ghost ps = self.players@;
        let mut i: usize = 0;
        while i < self.players.len()
            invariant
                kept_game_fields(*old(self), *self),
                ps == old(self).players@,
                self.players.len() == ps.len(),
                i <= ps.len(),
                forall|j: int| i <= j < ps.len() ==> #[trigger] self.players[j] == ps[j],
                forall|j: int| 0 <= j < i ==> {
                    let (p, q) = (ps[j], #[trigger] self.players[j]);
                    &&& same_identity(p, q)
                    &&& q.energy == p.energy && q.score == p.score && q.is_eliminated == p.is_eliminated
                    &&& q.turns_played == p.turns_played && q.correct_guesses == p.correct_guesses
                    &&& notebooks_penalized(p, q, actor, len as nat, idx as int, c)
                },
            decreases ps.len() - i,
        {
            if self.players[i].id != actor {
                let had = self.players[i].progress_on_opponents.contains_key(&actor);
                let b = if had {
                    self.players[i].progress_on_opponents.remove(&actor).unwrap()
                } else {
                    Progress::new(len as usize, Difficulty::Normal)
                };
                let ghost b0 = b;
                let mut pr = b;
                if !pr.length_known {
                    pr.mask = repeat_char('_', len as usize);
                    pr.length_known = true;
                    pr.positions_known = true;
                }
                let mut m = chars_of(pr.mask.as_str());
                let ghost m0 = m@;
                if (idx as usize) < m.len() {
                    m.set(idx as usize, c);
                }
                assert(m@ == mask_show(m0, idx as int, c));
                pr.mask = string_from_chars(&m);
                self.players[i].progress_on_opponents.insert(actor, pr);
                proof {
                    let q = self.players[i as int];
                    let p = ps[i as int];
                    assert(q.progress_on_opponents@ =~= p.progress_on_opponents@.insert(actor, pr));
                    if had {
                        assert(b0 == p.progress_on_opponents@[actor]);
                        assert(penalty_notebook(p.progress_on_opponents@[actor], pr, len as nat, idx as int, c));
                    } else {
                        assert(penalty_fresh_notebook(pr, len as nat, idx as int, c));
                    }
                }
            }
            i = i + 1;
        }
    }
}


/// The guess, trimmed, matches the target's word,
/// and both read in upper case.
pub open spec fn guess_is_correct(ps: Seq<Player>, target: u32, guessed: Seq<char>) -> bool {
    unicode_upper(trimmed(guessed)) == unicode_upper(ps[index_of(ps, target)].secret_word.content@)
}

/// The word a failed buzz reveals a letter of (`"????"` for an unknown
/// player).
pub open spec fn penalty_word(ps: Seq<Player>, actor: u32) -> Seq<char> {
    if has_player(ps, actor) { ps[index_of(ps, actor)].secret_word.content@ } else { "????"@ }
}

/// The length the penalty draws a position in (4 for an unknown player).
pub open spec fn penalty_len(ps: Seq<Player>, actor: u32) -> u32 {
    if has_player(ps, actor) { ps[index_of(ps, actor)].secret_word.length } else { 4 }
}

/// The letter at position `idx` of the penalty word, or `?` past its end.
pub open spec fn penalty_char(ps: Seq<Player>, actor: u32, idx: u32) -> char {
    let w = penalty_word(ps, actor);
    if idx < w.len() { w[idx as int] } else { '?' }
}

/// Points for eliminating `target`: 2, plus the word's difficulty score,
/// plus 1 for a buzz.
pub open spec fn guess_points(ps: Seq<Player>, target: u32, buzz: bool) -> int {
    2 + ps[index_of(ps, target)].secret_word.difficulty_score + if buzz { 1int } else { 0int }
}

/// The guesser's counters can take the outcome, and a buzzing player's
/// word has a position to reveal.
pub open spec fn guess_counters_fit(ps: Seq<Player>, actor: u32, target: u32, guessed: Seq<char>, buzz: bool) -> bool {
    has_player(ps, actor) && has_player(ps, target) ==> {
        let a = ps[index_of(ps, actor)];
        let correct = guess_is_correct(ps, target, guessed);
        &&& a.turns_played < u32::MAX
        &&& correct ==> a.correct_guesses < u32::MAX && a.energy <= u32::MAX - 50 && a.score + guess_points(ps, target, buzz) <= u32::MAX
        &&& buzz && !correct ==> a.secret_word.length > 0
    }
}

/// The position a failed buzz reveals lies within the buzzer's word (4
/// letters for an unknown player).
pub open spec fn reveal_fits(ps: Seq<Player>, actor: u32, target: u32, guessed: Seq<char>, buzz: bool, idx: u32) -> bool {
    buzz && has_player(ps, target) && !guess_is_correct(ps, target, guessed) ==> idx < penalty_len(ps, actor)
}

/// The players `qs` after `actor` guessed `guessed` for `target`'s word;
/// on a failed buzz the revealed position is `idx`.
pub open spec fn guess_applied(ps: Seq<Player>, qs: Seq<Player>, actor: u32, target: u32, guessed: Seq<char>, buzz: bool, idx: u32) -> bool {
    &&& qs.len() == ps.len()
    &&& if !has_player(ps, target) {
        qs == ps
    } else {
        let correct = guess_is_correct(ps, target, guessed);
        let t = index_of(ps, target);
        let a = index_of(ps, actor);
        forall|i: int| 0 <= i < ps.len() ==> {
            let (p, q) = (ps[i], #[trigger] qs[i]);
            &&& same_identity(p, q)
            &&& q.is_eliminated == (p.is_eliminated || (correct && i == t))
            &&& if correct {
                notebooks_revealed(p, q, target, ps[t].secret_word.content@)
            } else if buzz {
                notebooks_penalized(p, q, actor, penalty_len(ps, actor) as nat, idx as int, penalty_char(ps, actor, idx))
            } else {
                q.progress_on_opponents@ == p.progress_on_opponents@
            }
            &&& if has_player(ps, actor) && i == a {
                &&& q.turns_played == p.turns_played + 1
                &&& q.correct_guesses == if correct { p.correct_guesses + 1 } else { p.correct_guesses as int }
                &&& q.energy == if correct { energy_plus(p.energy, 50) } else if buzz { 0 } else { p.energy }
                &&& q.score == if correct { p.score + guess_points(ps, target, buzz) } else { p.score as int }
            } else {
                &&& q.turns_played == p.turns_played
                &&& q.correct_guesses == p.correct_guesses
                &&& q.energy == p.energy
                &&& q.score == p.score
            }
        }
    }
}

/// Public message of a correct guess.
pub open spec fn found_public(actor: Seq<char>, target: Seq<char>, buzz: bool) -> Seq<char> {
    if buzz { actor + " ⚡💀 "@ + target + " (BUZZ !)"@ } else { actor + " 💀 "@ + target + " (Mot trouvé !)"@ }
}

/// The guesser's message for a correct guess (with the energy note when the
/// guesser is a known player).
pub open spec fn found_actor(target: Seq<char>, buzz: bool, known_actor: bool) -> Seq<char> {
    let base = if buzz { "BUZZ RÉUSSI ! "@ + target + " éliminé."@ } else { "Succès ! "@ + target + " éliminé."@ };
    if known_actor { base + " (+50% Énergie !)"@ } else { base }
}

/// The eliminated player's message.
pub open spec fn found_target(actor: Seq<char>, word: Seq<char>, buzz: bool) -> Seq<char> {
    if buzz { actor + " a BUZZÉ '"@ + word + "' ! Éliminé."@ } else { actor + " a trouvé '"@ + word + "' ! Éliminé."@ }
}

/// Public message of a wrong guess.
pub open spec fn missed_public(actor: Seq<char>, target: Seq<char>, buzz: bool) -> Seq<char> {
    if buzz { actor + " ⚡❌ "@ + target + " (BUZZ RATÉ ! Une lettre est révélée)"@ } else { actor + " : Mot raté sur "@ + target }
}

/// The guesser's message for a wrong guess.
pub open spec fn missed_actor(guessed: Seq<char>, buzz: bool, c: char) -> Seq<char> {
    if buzz {
        "BUZZ RATÉ ! Ce n'est pas '"@ + guessed + "'. Pénalité : '"@ + seq![c] + "' révélé."@
    } else {
        "Incorrect. Ce n'est pas '"@ + guessed + "'."@
    }
}

/// The target's message for a wrong guess.
pub open spec fn missed_target(actor: Seq<char>, guessed: Seq<char>, buzz: bool, c: char) -> Seq<char> {
    if buzz { actor + " a raté son BUZZ ! Il révèle '"@ + seq![c] + "'."@ } else { actor + " a raté le mot '"@ + guessed + "'."@ }
}

/// The event of a guess.
pub open spec fn guess_event(r: GameEvent, ps: Seq<Player>, actor: u32, target: u32, guessed: Seq<char>, buzz: bool, idx: u32) -> bool {
    if !has_player(ps, target) {
        error_is(r, actor, target, "Erreur : Adversaire non trouvé."@)
    } else {
        let aname = name_of(ps, actor);
        let tname = ps[index_of(ps, target)].name@;
        if guess_is_correct(ps, target, guessed) {
            event_is(r, GameEventType::WordGuessed, actor, target, found_public(aname, tname, buzz),
                found_actor(tname, buzz, has_player(ps, actor)), found_target(aname, ps[index_of(ps, target)].secret_word.content@, buzz))
        } else {
            let c = penalty_char(ps, actor, idx);
            event_is(r, if buzz { GameEventType::BuzzFailed } else { GameEventType::LetterNotFound }, actor, target,
                missed_public(aname, tname, buzz), missed_actor(guessed, buzz, c), missed_target(aname, guessed, buzz, c))
        }
    }
}

impl Game {
    /// Whether `guessed`, trimmed, matches the word of player `t`, both in
    /// upper case.
    fn guess_matches(&self, t: usize, guessed: &String) -> (r: bool)
        requires
            t < self.players.len(),
        ensures
            r == (unicode_upper(trimmed(guessed@)) == unicode_upper(self.players[t as int].secret_word.content@)),
    {
        let g = to_uppercase(trim(guessed.as_str()));
        let w = to_uppercase(self.players[t].secret_word.content.as_str());
        g == w
    }

    /// A full-word guess by `current_player_id` on `target_id`'s word, where a
    /// failed buzz reveals position `reveal_index` of the guesser's word.
    ///
    /// A correct guess shows the word in every notebook on the target,
    /// eliminates the target, and gives the guesser a correct guess, 50
    /// energy (up to 100) and the points. A failed buzz shows one letter of
    /// the guesser's word to every other player and empties the guesser's
    /// energy. Every guess counts as a turn played.
    pub fn process_word_guess_with(&mut self, current_player_id: u32, target_id: u32, guessed_word: String, guess_type: GuessType,
        reveal_index: u32) -> (r: GameEvent)
        requires
            guess_counters_fit(old(self).players@, current_player_id, target_id, guessed_word@, guess_type is Buzz),
            reveal_fits(old(self).players@, current_player_id, target_id, guessed_word@, guess_type is Buzz, reveal_index),
        ensures
            kept_game_fields(*old(self), *final(self)),
            guess_applied(old(self).players@, final(self).players@, current_player_id, target_id, guessed_word@, guess_type is Buzz, reveal_index),
            guess_event(r, old(self).players@, current_player_id, target_id, guessed_word@, guess_type is Buzz, reveal_index),
    {
        let ghost ps = self.players@;
        let buzz = match guess_type {
            GuessType::Normal => false,
            GuessType::Buzz => true,
        };
        let actor_name = self.get_player_name(current_player_id);
        let t = match self.find_player(target_id) {
            Some(t) => t,
            None => return make_error(current_player_id, target_id, "Erreur : Adversaire non trouvé."),
        };
        let secret_word = self.players[t].secret_word.content.clone();
        let target_name = self.players[t].name.clone();
        let is_correct = self.guess_matches(t, &guessed_word);
        let found_actor = self.find_player(current_player_id);
        let public: String;
        let mut to_actor: String;
        let to_target: String;
        let ty: GameEventType;
        if is_correct {
            ty = GameEventType::WordGuessed;
            self.reveal_word_to_all(target_id, &secret_word);
            self.players[t].is_eliminated = true;
            if buzz {
                let mut m = actor_name.clone();
                m.append(" ⚡💀 ");
                m.append(target_name.as_str());
                m.append(" (BUZZ !)");
                public = m;
                let mut m = String::from_str("BUZZ RÉUSSI ! ");
                m.append(target_name.as_str());
                m.append(" éliminé.");
                to_actor = m;
                let mut m = actor_name.clone();
                m.append(" a BUZZÉ '");
                m.append(secret_word.as_str());
                m.append("' ! Éliminé.");
                to_target = m;
            } else {
                let mut m = actor_name.clone();
                m.append(" 💀 ");
                m.append(target_name.as_str());
                m.append(" (Mot trouvé !)");
                public = m;
                let mut m = String::from_str("Succès ! ");
                m.append(target_name.as_str());
                m.append(" éliminé.");
                to_actor = m;
                let mut m = actor_name.clone();
                m.append(" a trouvé '");
                m.append(secret_word.as_str());
                m.append("' ! Éliminé.");
                to_target = m;
            }
        } else if !buzz {
            ty = GameEventType::LetterNotFound;
            let mut m = actor_name.clone();
            m.append(" : Mot raté sur ");
            m.append(target_name.as_str());
            public = m;
            let mut m = String::from_str("Incorrect. Ce n'est pas '");
            m.append(guessed_word.as_str());
            m.append("'.");
            to_actor = m;
            let mut m = actor_name.clone();
            m.append(" a raté le mot '");
            m.append(guessed_word.as_str());
            m.append("'.");
            to_target = m;
        } else {
            ty = GameEventType::BuzzFailed;
            let (word, word_len) = match found_actor {
                Some(a) => (self.players[a].secret_word.content.clone(), self.players[a].secret_word.length),
                None => (String::from_str("????"), 4u32),
            };
            let wv = chars_of(word.as_str());
            let revealed = if (reveal_index as usize) < wv.len() { wv[reveal_index as usize] } else { '?' };
            self.reveal_letter_to_all(current_player_id, word_len, reveal_index, revealed);
            if let Some(a) = found_actor {
                self.players[a].energy = 0;
            }
            let c = char_string(revealed);
            let mut m = actor_name.clone();
            m.append(" ⚡❌ ");
            m.append(target_name.as_str());
            m.append(" (BUZZ RATÉ ! Une lettre est révélée)");
            public = m;
            let mut m = String::from_str("BUZZ RATÉ ! Ce n'est pas '");
            m.append(guessed_word.as_str());
            m.append("'. Pénalité : '");
            m.append(c.as_str());
            m.append("' révélé.");
            to_actor = m;
            let mut m = actor_name.clone();
            m.append(" a raté son BUZZ ! Il révèle '");
            m.append(c.as_str());
            m.append("'.");
            to_target = m;
        }
        let difficulty_bonus = self.players[t].secret_word.difficulty_score;
        if let Some(a) = found_actor {
            self.players[a].turns_played = self.players[a].turns_played + 1;
            if is_correct {
                self.players[a].correct_guesses = self.players[a].correct_guesses + 1;
                let e = self.players[a].energy + 50;
                self.players[a].energy = if e <= 100 { e } else { 100 };
                to_actor.append(" (+50% Énergie !)");
                let points = if buzz {
                    POINTS_NORMAL_GUESS + difficulty_bonus + POINTS_BUZZ_BONUS
                } else {
                    POINTS_NORMAL_GUESS + difficulty_bonus
                };
                self.players[a].score = self.players[a].score + points;
            }
        }
        make_event(ty, current_player_id, target_id, public, to_actor, to_target)
    }

    /// A full-word guess by `current_player_id` on `target_id`'s word (see
    /// `process_word_guess_with`); a failed buzz reveals a position of the
    /// guesser's word drawn at random.
    pub fn process_word_guess(&mut self, current_player_id: u32, target_id: u32, guessed_word: String, guess_type: GuessType) -> (r: GameEvent)
        requires
            guess_counters_fit(old(self).players@, current_player_id, target_id, guessed_word@, guess_type is Buzz),
        ensures
            kept_game_fields(*old(self), *final(self)),
            exists|idx: u32| #![trigger guess_applied(old(self).players@, final(self).players@, current_player_id, target_id, guessed_word@, guess_type is Buzz, idx)]
                reveal_fits(old(self).players@, current_player_id, target_id, guessed_word@, guess_type is Buzz, idx)
                && guess_applied(old(self).players@, final(self).players@, current_player_id, target_id, guessed_word@, guess_type is Buzz, idx)
                && guess_event(r, old(self).players@, current_player_id, target_id, guessed_word@, guess_type is Buzz, idx),
    {
        let mut idx: u32 = 0;
        if let GuessType::Buzz = guess_type {
            if let Some(t) = self.find_player(target_id) {
                if !self.guess_matches(t, &guessed_word) {
                    let len = match self.find_player(current_player_id) {
                        Some(a) => self.players[a].secret_word.length,
                        None => 4,
                    };
                    idx = random_below(len);
                }
            }
        }
        self.process_word_guess_with(current_player_id, target_id, guessed_word, guess_type, idx)
    }
}


/// Index `i` is one of the 1-based positions `pos`.
pub open spec fn covers(pos: Seq<usize>, i: int) -> bool {
    pos.contains((i + 1) as usize)
}

/// The mask `m` with `c` shown at every 1-based position of `pos` that
/// falls within it.
pub open spec fn apply_positions(m: Seq<char>, c: char, pos: Seq<usize>) -> Seq<char> {
    Seq::new(m.len(), |i: int| if covers(pos, i) { c } else { m[i] })
}

/// The mask `m` after the recorded positions of each letter of `letters`
/// (in order) are shown.
pub open spec fn reapply_letters(m: Seq<char>, letters: Seq<char>, table: Seq<(char, Seq<usize>)>) -> Seq<char>
    decreases letters.len(),
{
    if letters.len() == 0 {
        m
    } else {
        let m1 = reapply_letters(m, letters.drop_last(), table);
        match table_lookup(table, letters.last()) {
            Some(p) => apply_positions(m1, letters.last(), p),
            None => m1,
        }
    }
}

/// Reapplying letters keeps the mask's length.
pub proof fn lemma_reapply_len(m: Seq<char>, letters: Seq<char>, table: Seq<(char, Seq<usize>)>)
    ensures
        reapply_letters(m, letters, table).len() == m.len(),
    decreases letters.len(),
{
    if letters.len() > 0 {
        lemma_reapply_len(m, letters.drop_last(), table);
    }
}

/// Shows `c` at the 1-based positions `pos` of the mask.
fn show_positions(m: &mut Vec<char>, c: char, pos: &Vec<usize>)
    ensures
        final(m)@ == apply_positions(old(m)@, c, pos@),
{
    let ghost m0 = m@;
    assert(m0.len() == m.len());
    let mut j: usize = 0;
    assert(m@ =~= Seq::new(m0.len(), |i: int| if covers(pos@.take(0), i) { c } else { m0[i] }));
    while j < pos.len()
        invariant
            j <= pos.len(),
            m@.len() == m0.len(),
            m0.len() <= usize::MAX,
            m@ == Seq::new(m0.len(), |i: int| if covers(pos@.take(j as int), i) { c } else { m0[i] }),
        decreases pos.len() - j,
    {
        let p = pos[j];
        proof {
            let s1 = pos@.take(j + 1);
            let s0 = pos@.take(j as int);
            assert forall|i: int| 0 <= i < m0.len() implies
                #[trigger] covers(s1, i) == (covers(s0, i) || p == (i + 1) as usize) by {
                let v = (i + 1) as usize;
                if s1.contains(v) {
                    let k = choose|k: int| 0 <= k < s1.len() && #[trigger] s1[k] == v;
                    if k < j {
                        assert(s0[k] == v);
                    }
                }
                if s0.contains(v) {
                    let k = choose|k: int| 0 <= k < s0.len() && #[trigger] s0[k] == v;
                    assert(s1[k] == v);
                }
                if p == v {
                    assert(s1[j as int] == v);
                }
            }
        }
        if p > 0 && p <= m.len() {
            m.set(p - 1, c);
        }
        j = j + 1;
        assert(m@ =~= Seq::new(m0.len(), |i: int| if covers(pos@.take(j as int), i) { c } else { m0[i] }));
    }
    assert(pos@.take(pos.len() as int) =~= pos@);
    assert(m@ =~= apply_positions(m0, c, pos@));
}

/// Notebook `q` after a Revelation on a word of `len` bytes, from `b`.
pub open spec fn revelation_notebook(b: Progress, q: Progress, len: nat) -> bool {
    if b.length_known {
        q == b
    } else {
        &&& q.length_known
        &&& q.positions_known == b.positions_known
        &&& q.mask@ == reapply_letters(Seq::new(len, |_i: int| '_'), b.found_letters@, table_view(b.found_letter_positions@))
        &&& q.found_letters == b.found_letters
        &&& q.missed_letters == b.missed_letters
        &&& q.found_letter_positions == b.found_letter_positions
    }
}

/// Notebook `q` after a Voyance for letter `u` on a word that reads
/// `secret` (in upper case), from `b`.
pub open spec fn voyance_notebook(b: Progress, q: Progress, secret: Seq<char>, u: char) -> bool {
    &&& q.length_known == b.length_known
    &&& q.positions_known == b.positions_known
    &&& if secret.contains(u) {
        let pos = positions_of(secret, u);
        &&& noted_letter(b.found_letters@, q.found_letters@, u)
        &&& table_view(q.found_letter_positions@) == table_insert(table_view(b.found_letter_positions@), u, pos)
        &&& q.mask@ == if b.length_known { apply_positions(b.mask@, u, pos) } else { b.mask@ }
        &&& q.missed_letters == b.missed_letters
    } else {
        &&& noted_letter(b.missed_letters@, q.missed_letters@, u)
        &&& q.found_letters == b.found_letters
        &&& q.found_letter_positions == b.found_letter_positions
        &&& q.mask == b.mask
    }
}

/// Applies a Revelation to a notebook.
fn revelation_progress(b: Progress, len: u32) -> (q: Progress)
    ensures
        revelation_notebook(b, q, len as nat),
{
    if b.length_known {
        return b;
    }
    let mut q = b;
    let mut m = chars_of(repeat_char('_', len as usize).as_str());
    let ghost m0 = m@;
    let ghost table = table_view(q.found_letter_positions@);
    let mut k: usize = 0;
    while k < q.found_letters.len()
        invariant
            q == b,
            table == table_view(q.found_letter_positions@),
            k <= q.found_letters.len(),
            m@ == reapply_letters(m0, q.found_letters@.take(k as int), table),
        decreases q.found_letters.len() - k,
    {
        let c = q.found_letters[k];
        assert(q.found_letters@.take(k + 1).drop_last() =~= q.found_letters@.take(k as int));
        match table_find(&q.found_letter_positions, c) {
            Some(x) => {
                show_positions(&mut m, c, &q.found_letter_positions[x].1);
            }
            None => {}
        }
        k = k + 1;
    }
    assert(q.found_letters@.take(q.found_letters.len() as int) =~= q.found_letters@);
    q.mask = string_from_chars(&m);
    q.length_known = true;
    q
}

/// Applies a Voyance for letter `u` to a notebook, for a word that reads
/// `secret`.
fn voyance_progress(b: Progress, secret: &Vec<char>, u: char) -> (q: Progress)
    ensures
        voyance_notebook(b, q, secret@, u),
{
    let mut q = b;
    if vec_contains_char(secret, u) {
        if !vec_contains_char(&q.found_letters, u) {
            q.found_letters.push(u);
            sort_chars(&mut q.found_letters);
        }
        let positions = letter_positions(secret, u);
        if q.length_known {
            let mut m = chars_of(q.mask.as_str());
            show_positions(&mut m, u, &positions);
            q.mask = string_from_chars(&m);
        }
        table_record(&mut q.found_letter_positions, u, positions);
    } else {
        if !vec_contains_char(&q.missed_letters, u) {
            q.missed_letters.push(u);
            sort_chars(&mut q.missed_letters);
        }
    }
    q
}


/// The name a power is announced with.
pub open spec fn power_name(power: PowerType) -> Seq<char> {
    match power {
        PowerType::Revelation => "Révélation"@,
        PowerType::Voyance(_) => "Voyance"@,
    }
}

/// Public message of a power.
pub open spec fn power_public(actor: Seq<char>, power: PowerType, target: Seq<char>) -> Seq<char> {
    actor + " a utilisé le pouvoir "@ + power_name(power) + " sur "@ + target + " !"@
}

/// The notebook a power starts from: the existing one on `target`, or a
/// fresh one (as in Normal mode) on a word of `len` bytes.
pub open spec fn notebook_base(p: Player, target: u32, len: nat, b: Progress) -> bool {
    if p.progress_on_opponents@.contains_key(target) {
        b == p.progress_on_opponents@[target]
    } else {
        is_initial_progress(b, len, Difficulty::Normal)
    }
}

/// What the power's user reads.
pub open spec fn power_actor_msg(power: PowerType, b: Progress, target: Seq<char>, len: u32, secret: Seq<char>) -> Seq<char> {
    match power {
        PowerType::Revelation => if b.length_known {
            "RÉVÉLATION : Vous connaissiez déjà la longueur."@
        } else {
            "RÉVÉLATION : Le mot de "@ + target + " fait "@ + decimal(len as nat) + " lettres."@
        },
        PowerType::Voyance(l) => if secret.contains(ascii_upper(l)) {
            "VOYANCE : La lettre '"@ + seq![ascii_upper(l)] + "' est présente !"@
        } else {
            "VOYANCE : La lettre '"@ + seq![ascii_upper(l)] + "' est ABSENTE."@
        },
    }
}

/// What the power's target reads.
pub open spec fn power_target_msg(power: PowerType, b: Progress, actor: Seq<char>, secret: Seq<char>) -> Seq<char> {
    match power {
        PowerType::Revelation => if b.length_known {
            Seq::<char>::empty()
        } else {
            actor + " a utilisé RÉVÉLATION sur vous ! Il connaît la longueur de votre mot."@
        },
        PowerType::Voyance(l) => if secret.contains(ascii_upper(l)) {
            actor + " a utilisé VOYANCE sur la lettre '"@ + seq![ascii_upper(l)] + "' et l'a trouvée !"@
        } else {
            actor + " a utilisé VOYANCE sur la lettre '"@ + seq![ascii_upper(l)] + "' (Absente)."@
        },
    }
}

/// The notebook `q` after the power, from `b`, on a word of `len` bytes
/// that reads `secret` in upper case.
pub open spec fn power_notebook(power: PowerType, b: Progress, q: Progress, len: nat, secret: Seq<char>) -> bool {
    match power {
        PowerType::Revelation => revelation_notebook(b, q, len),
        PowerType::Voyance(l) => voyance_notebook(b, q, secret, ascii_upper(l)),
    }
}

/// The power is refused: its user lacks the energy.
pub open spec fn power_refused(ps: Seq<Player>, actor: u32) -> bool {
    has_player(ps, actor) && ps[index_of(ps, actor)].energy < POWER_COST
}

/// The players `qs` after `actor` used `power` on `target`.
pub open spec fn power_applied(ps: Seq<Player>, qs: Seq<Player>, actor: u32, target: u32, power: PowerType) -> bool {
    &&& qs.len() == ps.len()
    &&& if power_refused(ps, actor) {
        qs == ps
    } else {
        &&& forall|i: int| 0 <= i < ps.len() && i != index_of(ps, actor) ==> #[trigger] qs[i] == ps[i]
        &&& has_player(ps, actor) ==> {
            let a = index_of(ps, actor);
            let p = ps[a];
            if !has_player(ps, target) {
                player_after(p, qs[a], target, None, (p.energy - POWER_COST) as u32, p.score, p.turns_played, p.correct_guesses)
            } else {
                let t = index_of(ps, target);
                let len = ps[t].secret_word.length;
                let secret = unicode_upper(ps[t].secret_word.content@);
                exists|b: Progress, q: Progress| #[trigger] notebook_base(p, target, len as nat, b)
                    && #[trigger] power_notebook(power, b, q, len as nat, secret)
                    && player_after(p, qs[a], target, Some(q), (p.energy - POWER_COST) as u32, p.score, p.turns_played, p.correct_guesses)
            }
        }
    }
}

impl Game {
    /// `current_player_id` spends 50 energy on a power against `target_id`:
    /// Revelation shows the length of the target's word (with the letters
    /// whose positions were told); Voyance tells whether a letter (in ASCII
    /// upper case) is in the word and where. A player with less than 50
    /// energy is refused. The energy is spent before the target is looked
    /// up.
    pub fn use_power(&mut self, current_player_id: u32, target_id: u32, power_type: PowerType) -> (r: GameEvent)
        ensures
            kept_game_fields(*old(self), *final(self)),
            final(self).players.len() == old(self).players.len(),
            power_applied(old(self).players@, final(self).players@, current_player_id, target_id, power_type),
            power_refused(old(self).players@, current_player_id) ==> final(self).players@ == old(self).players@,
            power_refused(old(self).players@, current_player_id) ==> error_is(r, current_player_id, target_id, "Pas assez d'énergie ! (Requis: 50%)"@),
            !power_refused(old(self).players@, current_player_id) ==> forall|i: int| 0 <= i < old(self).players.len()
                && i != index_of(old(self).players@, current_player_id) ==> #[trigger] final(self).players[i] == old(self).players[i],
            !power_refused(old(self).players@, current_player_id) && !has_player(old(self).players@, target_id) ==> {
                &&& has_player(old(self).players@, current_player_id) ==> {
                    let a = index_of(old(self).players@, current_player_id);
                    let p = old(self).players[a];
                    player_after(p, final(self).players[a], target_id, None, (p.energy - POWER_COST) as u32, p.score, p.turns_played, p.correct_guesses)
                }
                &&& error_is(r, current_player_id, target_id, "Cible introuvable"@)
            },
            !power_refused(old(self).players@, current_player_id) && has_player(old(self).players@, target_id) && !has_player(old(self).players@, current_player_id) ==> {
                let ps = old(self).players@;
                event_is(r, GameEventType::PowerUsed, current_player_id, target_id,
                    power_public(name_of(ps, current_player_id), power_type, ps[index_of(ps, target_id)].name@),
                    Seq::<char>::empty(), Seq::<char>::empty())
            },
            !power_refused(old(self).players@, current_player_id) && has_player(old(self).players@, target_id) && has_player(old(self).players@, current_player_id) ==> {
                let ps = old(self).players@;
                let a = index_of(ps, current_player_id);
                let t = index_of(ps, target_id);
                let len = ps[t].secret_word.length;
                let secret = unicode_upper(ps[t].secret_word.content@);
                let aname = name_of(ps, current_player_id);
                let tname = ps[t].name@;
                exists|b: Progress, q: Progress| #[trigger] notebook_base(ps[a], target_id, len as nat, b)
                    && #[trigger] power_notebook(power_type, b, q, len as nat, secret)
                    && player_after(ps[a], final(self).players[a], target_id, Some(q), (ps[a].energy - POWER_COST) as u32,
                        ps[a].score, ps[a].turns_played, ps[a].correct_guesses)
                    && event_is(r, GameEventType::PowerUsed, current_player_id, target_id, power_public(aname, power_type, tname),
                        power_actor_msg(power_type, b, tname, len, secret), power_target_msg(power_type, b, aname, secret))
            },
    {
        let ghost ps = self.players@;
        let actor_name = self.get_player_name(current_player_id);
        let target_name = self.get_player_name(target_id);
        let power_label = match power_type {
            PowerType::Revelation => String::from_str("Révélation"),
            PowerType::Voyance(_) => String::from_str("Voyance"),
        };
        let found_actor = self.find_player(current_player_id);
        let found_target = self.find_player(target_id);
        if let Some(a) = found_actor {
            if self.players[a].energy < POWER_COST {
                return make_error(current_player_id, target_id, "Pas assez d'énergie ! (Requis: 50%)");
            }
            self.players[a].energy = self.players[a].energy - POWER_COST;
        }
        let mut public = actor_name.clone();
        public.append(" a utilisé le pouvoir ");
        public.append(power_label.as_str());
        public.append(" sur ");
        public.append(target_name.as_str());
        public.append(" !");
        let t = match found_target {
            Some(t) => t,
            None => {
                proof {
                    if has_player(ps, current_player_id) {
                        assert(self.players@[index_of(ps, current_player_id)].progress_on_opponents@
                            =~= ps[index_of(ps, current_player_id)].progress_on_opponents@);
                    }
                }
                return make_error(current_player_id, target_id, "Cible introuvable");
            }
        };
        let secret = self.players[t].secret_word.content.clone();
        let word_len = self.players[t].secret_word.length;
        let mut to_actor = String::new();
        let mut to_target = String::new();
        if let Some(a) = found_actor {
            let had = self.players[a].progress_on_opponents.contains_key(&target_id);
            let b = if had {
                self.players[a].progress_on_opponents.remove(&target_id).unwrap()
            } else {
                Progress::new(word_len as usize, Difficulty::Normal)
            };
            let ghost b0 = b;
            let secret_upper = chars_of(to_uppercase(secret.as_str()).as_str());
            let q = match power_type {
                PowerType::Revelation => {
                    let known = b.length_known;
                    let q = revelation_progress(b, word_len);
                    if known {
                        to_actor = String::from_str("RÉVÉLATION : Vous connaissiez déjà la longueur.");
                    } else {
                        let mut m = String::from_str("RÉVÉLATION : Le mot de ");
                        m.append(target_name.as_str());
                        m.append(" fait ");
                        m.append(u32_to_string(word_len).as_str());
                        m.append(" lettres.");
                        to_actor = m;
                        let mut m = actor_name.clone();
                        m.append(" a utilisé RÉVÉLATION sur vous ! Il connaît la longueur de votre mot.");
                        to_target = m;
                    }
                    q
                }
                PowerType::Voyance(letter) => {
                    let u = char_to_ascii_uppercase(letter);
                    let present = vec_contains_char(&secret_upper, u);
                    let q = voyance_progress(b, &secret_upper, u);
                    let l = char_string(u);
                    if present {
                        let mut m = String::from_str("VOYANCE : La lettre '");
                        m.append(l.as_str());
                        m.append("' est présente !");
                        to_actor = m;
                        let mut m = actor_name.clone();
                        m.append(" a utilisé VOYANCE sur la lettre '");
                        m.append(l.as_str());
                        m.append("' et l'a trouvée !");
                        to_target = m;
                    } else {
                        let mut m = String::from_str("VOYANCE : La lettre '");
                        m.append(l.as_str());
                        m.append("' est ABSENTE.");
                        to_actor = m;
                        let mut m = actor_name.clone();
                        m.append(" a utilisé VOYANCE sur la lettre '");
                        m.append(l.as_str());
                        m.append("' (Absente).");
                        to_target = m;
                    }
                    q
                }
            };
            self.players[a].progress_on_opponents.insert(target_id, q);
            let e = make_event(GameEventType::PowerUsed, current_player_id, target_id, public, to_actor, to_target);
            proof {
                assert(self.players@[a as int].progress_on_opponents@ =~= ps[a as int].progress_on_opponents@.insert(target_id, q));
                assert(notebook_base(ps[a as int], target_id, word_len as nat, b0));
                assert(power_notebook(power_type, b0, q, word_len as nat, secret_upper@));
            }
            return e;
        }
        make_event(GameEventType::PowerUsed, current_player_id, target_id, public, to_actor, to_target)
    }
}


/// `known` with every uncovered letter of `mask` copied over it.
pub open spec fn overlay(known: Seq<char>, mask: Seq<char>) -> Seq<char> {
    Seq::new(known.len(), |i: int| if i < mask.len() && mask[i] != '_' { mask[i] } else { known[i] })
}

/// What the players of `ps` other than `pid`, together, know of `pid`'s
/// word, laid over `known`: each notebook whose length is known adds its
/// uncovered letters, in the players' order.
pub open spec fn combined_knowledge(ps: Seq<Player>, pid: u32, known: Seq<char>) -> Seq<char>
    decreases ps.len(),
{
    if ps.len() == 0 {
        known
    } else {
        let k = combined_knowledge(ps.drop_last(), pid, known);
        let o = ps.last();
        if o.id != pid && o.progress_on_opponents@.contains_key(pid) && o.progress_on_opponents@[pid].length_known {
            overlay(k, o.progress_on_opponents@[pid].mask@)
        } else {
            k
        }
    }
}

/// Laying masks over keeps the length.
pub proof fn lemma_combined_len(ps: Seq<Player>, pid: u32, known: Seq<char>)
    ensures
        combined_knowledge(ps, pid, known).len() == known.len(),
    decreases ps.len(),
{
    if ps.len() > 0 {
        lemma_combined_len(ps.drop_last(), pid, known);
    }
}

/// How much of `pid`'s word (read in upper case) the opponents have
/// uncovered between them: `_` for a letter nobody has, or `???` for an
/// unknown player.
pub open spec fn threat_of(ps: Seq<Player>, pid: u32) -> Seq<char> {
    if has_player(ps, pid) {
        combined_knowledge(ps, pid, Seq::new(unicode_upper(ps[index_of(ps, pid)].secret_word.content@).len(), |_i: int| '_'))
    } else {
        "???"@
    }
}

impl Game {
    /// How much of `player_id`'s word the opponents have uncovered between
    /// them (see `threat_of`).
    pub fn get_threat_level(&self, player_id: u32) -> (r: String)
        ensures
            r@ == threat_of(self.players@, player_id),
    {
        let w = match self.find_player(player_id) {
            Some(i) => to_uppercase(self.players[i].secret_word.content.as_str()),
            None => return String::from_str("???"),
        };
        let n = chars_of(w.as_str()).len();
        let mut known = chars_of(repeat_char('_', n).as_str());
        let ghost k0 = known@;
        let mut j: usize = 0;
        while j < self.players.len()
            invariant
                j <= self.players.len(),
                known@ == combined_knowledge(self.players@.take(j as int), player_id, k0),
            decreases self.players.len() - j,
        {
            proof {
                assert(self.players@.take(j + 1).drop_last() =~= self.players@.take(j as int));
                lemma_combined_len(self.players@.take(j as int), player_id, k0);
            }
            if self.players[j].id != player_id {
                match self.players[j].progress_on_opponents.get(&player_id) {
                    Some(prog) => {
                        if prog.length_known {
                            let mask = chars_of(prog.mask.as_str());
                            let ghost k1 = known@;
                            let mut i: usize = 0;
                            while i < mask.len()
                                invariant
                                    i <= mask.len(),
                                    known@.len() == k1.len(),
                                    forall|x: int| 0 <= x < k1.len() ==> #[trigger] known@[x] == if x < i && mask@[x] != '_' { mask@[x] } else { k1[x] },
                                decreases mask.len() - i,
                            {
                                if mask[i] != '_' && i < known.len() {
                                    known.set(i, mask[i]);
                                }
                                i = i + 1;
                            }
                            assert(known@ =~= overlay(k1, mask@));
                        }
                    }
                    None => {}
                }
            }
            j = j + 1;
        }
        assert(self.players@.take(self.players.len() as int) =~= self.players@);
        string_from_chars(&known)
    }
}


impl Game {
    /// Whether the inquirer's counters can take the answer about `letter`
    /// (what `resolve_inquiry` and `process_letter_proposal` require).
    pub fn can_take_answer(&self, actor: u32, target: u32, letter: char) -> (r: bool)
        ensures
            r == answer_counters_fit(self.players@, actor, target, letter),
    {
        let t = match self.find_player(target) {
            Some(t) => t,
            None => return true,
        };
        let a = match self.find_player(actor) {
            Some(a) => a,
            None => return true,
        };
        if !self.players[a].progress_on_opponents.contains_key(&target) {
            return true;
        }
        let w = to_uppercase(self.players[t].secret_word.content.as_str());
        let wv = chars_of(w.as_str());
        if vec_contains_char(&wv, letter) {
            self.players[a].energy <= u32::MAX - 10
        } else {
            self.players[a].turns_played < u32::MAX
        }
    }

    /// The answer about `letter` (see `resolve_inquiry`) when the inquirer's
    /// counters can take it; `None`, with nothing changed, otherwise.
    pub fn try_resolve_inquiry(&mut self, current_player_id: u32, target_id: u32, letter: char, claimed_has_letter: bool,
        proof: Vec<usize>) -> (r: Option<GameEvent>)
        ensures
            !answer_counters_fit(old(self).players@, current_player_id, target_id, letter) ==> r is None && *final(self) == *old(self),
            answer_counters_fit(old(self).players@, current_player_id, target_id, letter) ==> {
                &&& kept_game_fields(*old(self), *final(self))
                &&& answer_applied(old(self).players@, final(self).players@, current_player_id, target_id, letter, proof@)
                &&& r matches Some(e) && answer_event(e, old(self).players@, current_player_id, target_id, letter)
            },
    {
        if !self.can_take_answer(current_player_id, target_id, letter) {
            return None;
        }
        Some(self.resolve_inquiry(current_player_id, target_id, letter, claimed_has_letter, proof))
    }

    /// A one-step investigation (see `process_letter_proposal`) when the
    /// inquirer's counters can take the answer; `None`, with nothing
    /// changed, otherwise.
    pub fn try_letter_proposal(&mut self, current_player_id: u32, target_id: u32, letter: char) -> (r: Option<GameEvent>)
        ensures
            !answer_counters_fit(old(self).players@, current_player_id, target_id, letter) ==> r is None && *final(self) == *old(self),
            answer_counters_fit(old(self).players@, current_player_id, target_id, letter) ==> {
                &&& kept_game_fields(*old(self), *final(self))
                &&& has_player(old(self).players@, target_id) ==> answer_applied(old(self).players@, final(self).players@, current_player_id,
                    target_id, letter, positions_of(word_of(old(self).players@, target_id), letter))
                &&& !has_player(old(self).players@, target_id) ==> final(self).players@ == old(self).players@
                &&& r matches Some(e) && proposal_event(e, old(self).players@, current_player_id, target_id, letter)
            },
    {
        if !self.can_take_answer(current_player_id, target_id, letter) {
            return None;
        }
        Some(self.process_letter_proposal(current_player_id, target_id, letter))
    }

    /// A full-word guess (see `process_word_guess`) when the guesser's
    /// counters can take it; `None`, with nothing changed, otherwise.
    pub fn try_word_guess(&mut self, current_player_id: u32, target_id: u32, guessed_word: String, guess_type: GuessType)
        -> (r: Option<GameEvent>)
        ensures
            !guess_counters_fit(old(self).players@, current_player_id, target_id, guessed_word@, guess_type is Buzz) ==> r is None
                && *final(self) == *old(self),
            guess_counters_fit(old(self).players@, current_player_id, target_id, guessed_word@, guess_type is Buzz) ==> {
                &&& kept_game_fields(*old(self), *final(self))
                &&& r matches Some(e) && exists|idx: u32| #![trigger guess_applied(old(self).players@, final(self).players@, current_player_id, target_id, guessed_word@, guess_type is Buzz, idx)]
                    reveal_fits(old(self).players@, current_player_id, target_id, guessed_word@, guess_type is Buzz, idx)
                    && guess_applied(old(self).players@, final(self).players@, current_player_id, target_id, guessed_word@, guess_type is Buzz, idx)
                    && guess_event(e, old(self).players@, current_player_id, target_id, guessed_word@, guess_type is Buzz, idx)
            },
    {
        let buzz = match guess_type {
            GuessType::Normal => false,
            GuessType::Buzz => true,
        };
        if !self.can_take_guess(current_player_id, target_id, &guessed_word, buzz) {
            return None;
        }
        Some(self.process_word_guess(current_player_id, target_id, guessed_word, guess_type))
    }

    /// Whether the guesser's counters can take the guess `guessed` (what
    /// `process_word_guess` requires).
    pub fn can_take_guess(&self, actor: u32, target: u32, guessed: &String, buzz: bool) -> (r: bool)
        ensures
            r == guess_counters_fit(self.players@, actor, target, guessed@, buzz),
    {
        let a = match self.find_player(actor) {
            Some(a) => a,
            None => return true,
        };
        let t = match self.find_player(target) {
            Some(t) => t,
            None => return true,
        };
        let correct = self.guess_matches(t, guessed);
        let p = &self.players[a];
        if p.turns_played == u32::MAX {
            return false;
        }
        if correct {
            let extra: u64 = if buzz { 1 } else { 0 };
            p.correct_guesses < u32::MAX && p.energy <= u32::MAX - 50
                && (p.score as u64) + 2 + (self.players[t].secret_word.difficulty_score as u64) + extra <= u32::MAX as u64
        } else {
            !buzz || p.secret_word.length > 0
        }
    }

    /// The seat `j` places after seat `base`, going round a table of `n`.
    fn seat_after(base: usize, j: usize, n: usize) -> (r: usize)
        requires
            base < n,
            j < n,
        ensures
            r == if j < n - base { base + j } else { j - (n - base) },
            r < n,
    {
        if j < n - base { base + j } else { j - (n - base) }
    }

    /// Whether the turn can pass (see `turn_can_pass`, what `next_turn`
    /// requires).
    pub fn can_pass_turn(&self) -> (r: bool)
        ensures
            r == turn_can_pass(*self),
    {
        let n = self.players.len();
        if n == 0 || self.current_turn == usize::MAX {
            return false;
        }
        let ghost ps = self.players@;
        let start = self.current_turn + 1;
        let base = start % n;
        let mut j: usize = 0;
        proof {
            lemma_seats_to_skip(ps, start as int, 0);
        }
        while j < n && self.players[Self::seat_after(base, j, n)].is_eliminated
            invariant
                ps == self.players@,
                n == ps.len(),
                n > 0,
                base == start % n,
                start == self.current_turn + 1,
                j <= n,
                seats_to_skip(ps, start as int, 0) == seats_to_skip(ps, start as int, j as nat),
            decreases n - j,
        {
            proof {
                lemma_seat_after(start as int, base as int, j as int, n as int);
                lemma_seats_to_skip(ps, start as int, 0);
            }
            j = j + 1;
        }
        let skip = j;
        proof {
            if skip < n {
                lemma_seat_after(start as int, base as int, skip as int, n as int);
                assert(!ps[(start + skip) % (n as int)].is_eliminated);
            }
            assert(skip == seats_to_skip(ps, start as int, 0));
        }
        if skip > usize::MAX - start {
            return false;
        }
        let k = if skip < n { Self::seat_after(base, skip, n) } else { base };
        proof {
            if skip == n {
                vstd::arithmetic::div_mod::lemma_mod_add_multiples_vanish(start as int, n as int);
            }
            assert(k as int == (start + skip) % (n as int));
        }
        self.players[k].energy <= u32::MAX - 10
    }
}

} // verus!
