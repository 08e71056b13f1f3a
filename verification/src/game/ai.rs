//! The computer opponent: which letter to ask for, and when to guess a word.
use vstd::prelude::*;
use crate::chance::{random_index, random_ratio};
use crate::game::model::{str_len, Difficulty};
use crate::text::{chars_of, str_contains_char, vec_contains_char, views};

verus! {

/// The letters the opponent may ask for, in alphabetical order.
pub open spec fn alphabet() -> Seq<char> {
    seq!['A', 'B', 'C', 'D', 'E', 'F', 'G', 'H', 'I', 'J', 'K', 'L', 'M', 'N', 'O', 'P', 'Q', 'R', 'S', 'T', 'U', 'V', 'W',
        'X', 'Y', 'Z']
}

/// The letters from the most to the least frequent in French.
pub open spec fn frequency_order() -> Seq<char> {
    seq!['E', 'S', 'A', 'I', 'T', 'N', 'R', 'U', 'L', 'O', 'D', 'C', 'P', 'M', 'V', 'Q', 'F', 'B', 'G', 'H', 'J', 'X', 'Y',
        'Z', 'W', 'K']
}

/// The letters of `letters` not in `tried`, in order.
pub open spec fn untried(letters: Seq<char>, tried: Seq<char>) -> Seq<char>
    decreases letters.len(),
{
    if letters.len() == 0 {
        Seq::empty()
    } else if tried.contains(letters.last()) {
        untried(letters.drop_last(), tried)
    } else {
        untried(letters.drop_last(), tried).push(letters.last())
    }
}

/// The first letter of `letters` not in `tried`.
pub open spec fn first_untried(letters: Seq<char>, tried: Seq<char>) -> Option<char>
    decreases letters.len(),
{
    if letters.len() == 0 {
        None
    } else if !tried.contains(letters[0]) {
        Some(letters[0])
    } else {
        first_untried(letters.drop_first(), tried)
    }
}

/// An untried letter is one of the letters and is not tried.
pub proof fn lemma_untried_contains(letters: Seq<char>, tried: Seq<char>, c: char)
    ensures
        untried(letters, tried).contains(c) <==> (letters.contains(c) && !tried.contains(c)),
    decreases letters.len(),
{
    if letters.len() > 0 {
        let rest = letters.drop_last();
        let x = letters.last();
        lemma_untried_contains(rest, tried, c);
        let u = untried(rest, tried);
        let v = untried(letters, tried);
        assert(forall|k: int| 0 <= k < u.len() ==> v[k] == u[k]);
        if letters.contains(c) && !tried.contains(c) {
            let i = choose|i: int| 0 <= i < letters.len() && letters[i] == c;
            if i < letters.len() - 1 {
                assert(rest[i] == c);
                assert(rest.contains(c));
                let j = choose|j: int| 0 <= j < u.len() && u[j] == c;
                assert(v[j] == c);
            } else {
                assert(v[v.len() - 1] == c);
            }
        }
        if v.contains(c) {
            let j = choose|j: int| 0 <= j < v.len() && v[j] == c;
            if j < u.len() {
                assert(u[j] == c);
                assert(u.contains(c));
                let k = choose|k: int| 0 <= k < rest.len() && rest[k] == c;
                assert(letters[k] == c);
            } else {
                assert(letters[letters.len() - 1] == c);
            }
        }
    }
}

/// The first untried letter, when there is one, is an untried letter.
pub proof fn lemma_first_untried(letters: Seq<char>, tried: Seq<char>)
    ensures
        first_untried(letters, tried) matches Some(c) ==> letters.contains(c) && !tried.contains(c),
    decreases letters.len(),
{
    if letters.len() > 0 && tried.contains(letters[0]) {
        lemma_first_untried(letters.drop_first(), tried);
        if let Some(c) = first_untried(letters.drop_first(), tried) {
            let i = choose|i: int| 0 <= i < letters.len() - 1 && letters.drop_first()[i] == c;
            assert(letters[i + 1] == c);
        }
    }
}

/// No letter occurs twice.
pub open spec fn no_repeats(s: Seq<char>) -> bool {
    forall|i: int, j: int| 0 <= i < j < s.len() ==> s[i] != s[j]
}

/// Adding a new letter keeps the letters distinct.
pub proof fn lemma_push_new(s: Seq<char>, c: char)
    requires
        no_repeats(s),
        !s.contains(c),
    ensures
        no_repeats(s.push(c)),
{
    assert forall|i: int, j: int| 0 <= i < j < s.push(c).len() implies s.push(c)[i] != s.push(c)[j] by {
        if j == s.len() {
            assert(s[i] != c);
        }
    }
}

/// The state of the computer opponent.
pub struct AI {
    pub difficulty: Difficulty,
    /// The letters it already asked for.
    pub tried_letters: Vec<char>,
}

/// What the computer opponent does on its turn.
pub enum AIAction {
    ProposeLetter(char),
    GuessWord(String),
}

/// The letters not yet tried, in alphabetical order.
pub fn available_letters(tried: &Vec<char>) -> (r: Vec<char>)
    ensures
        r@ == untried(alphabet(), tried@),
{
    let letters: Vec<char> = vec!['A', 'B', 'C', 'D', 'E', 'F', 'G', 'H', 'I', 'J', 'K', 'L', 'M', 'N', 'O', 'P', 'Q', 'R', 'S',
        'T', 'U', 'V', 'W', 'X', 'Y', 'Z'];
    assert(letters@ == alphabet());
    let mut r: Vec<char> = Vec::new();
    let mut i: usize = 0;
    while i < letters.len()
        invariant
            letters@ == alphabet(),
            i <= letters.len(),
            r@ == untried(letters@.take(i as int), tried@),
        decreases letters.len() - i,
    {
        assert(letters@.take(i + 1).drop_last() =~= letters@.take(i as int));
        if !vec_contains_char(tried, letters[i]) {
            r.push(letters[i]);
        }
        i = i + 1;
    }
    assert(letters@.take(letters.len() as int) =~= letters@);
    r
}

/// The most frequent letter (in French) not yet tried.
pub fn frequency_choice(tried: &Vec<char>) -> (r: Option<char>)
    ensures
        r == first_untried(frequency_order(), tried@),
{
    let letters: Vec<char> = vec!['E', 'S', 'A', 'I', 'T', 'N', 'R', 'U', 'L', 'O', 'D', 'C', 'P', 'M', 'V', 'Q', 'F', 'B', 'G',
        'H', 'J', 'X', 'Y', 'Z', 'W', 'K'];
    assert(letters@ == frequency_order());
    assert(letters@.skip(0) =~= letters@);
    let mut i: usize = 0;
    while i < letters.len()
        invariant
            letters@ == frequency_order(),
            i <= letters.len(),
            first_untried(letters@, tried@) == first_untried(letters@.skip(i as int), tried@),
        decreases letters.len() - i,
    {
        assert(letters@.skip(i as int).drop_first() =~= letters@.skip(i + 1));
        if !vec_contains_char(tried, letters[i]) {
            return Some(letters[i]);
        }
        i = i + 1;
    }
    assert(letters@.skip(letters.len() as int) =~= Seq::<char>::empty());
    None
}

/// The letter picked, from the letters not yet tried: the most frequent one
/// when `use_frequency`, else the one at `pick`; `A` when every letter was
/// tried.
pub open spec fn letter_pick(tried: Seq<char>, use_frequency: bool, pick: int) -> char {
    let avail = untried(alphabet(), tried);
    if avail.len() == 0 {
        'A'
    } else if use_frequency && first_untried(frequency_order(), tried) is Some {
        first_untried(frequency_order(), tried)->0
    } else {
        avail[pick]
    }
}

/// The outcome of asking for a letter (see `choose_letter`), for some draw.
pub open spec fn letter_outcome(d: Difficulty, tried: Seq<char>, tried2: Seq<char>, c: char) -> bool {
    &&& exists|f: bool, pick: int| {
        &&& (d == Difficulty::Hard || d == Difficulty::Expert) ==> f
        &&& (untried(alphabet(), tried).len() > 0 ==> 0 <= pick < untried(alphabet(), tried).len())
        &&& c == #[trigger] letter_pick(tried, f, pick)
    }
    &&& untried(alphabet(), tried).len() == 0 ==> tried2 == tried
    &&& untried(alphabet(), tried).len() > 0 ==> tried2 == tried.push(c)
    &&& untried(alphabet(), tried).len() > 0 ==> !tried.contains(c) && alphabet().contains(c)
}

impl AI {
    /// A fresh opponent that has tried no letter.
    pub fn new(difficulty: Difficulty) -> (r: AI)
        ensures
            r.difficulty == difficulty,
            r.tried_letters@ == Seq::<char>::empty(),
    {
        AI { difficulty, tried_letters: Vec::new() }
    }

    /// Picks a letter not yet tried (most frequent first when
    /// `use_frequency`, else the available letter at `pick`) and remembers
    /// it; `A` without remembering when every letter was tried.
    pub fn choose_letter(&mut self, use_frequency: bool, pick: usize) -> (r: char)
        requires
            untried(alphabet(), old(self).tried_letters@).len() > 0 ==> pick < untried(alphabet(), old(self).tried_letters@).len(),
        ensures
            final(self).difficulty == old(self).difficulty,
            r == letter_pick(old(self).tried_letters@, use_frequency, pick as int),
            untried(alphabet(), old(self).tried_letters@).len() == 0 ==> final(self).tried_letters@ == old(self).tried_letters@,
            untried(alphabet(), old(self).tried_letters@).len() > 0 ==> final(self).tried_letters@ == old(self).tried_letters@.push(r),
            untried(alphabet(), old(self).tried_letters@).len() > 0 ==> !old(self).tried_letters@.contains(r) && alphabet().contains(r),
    {
        let available = available_letters(&self.tried_letters);
        if available.len() == 0 {
            return 'A';
        }
        let c = if use_frequency {
            match frequency_choice(&self.tried_letters) {
                Some(c) => c,
                None => available[pick],
            }
        } else {
            available[pick]
        };
        proof {
            lemma_first_untried(frequency_order(), self.tried_letters@);
            lemma_untried_contains(alphabet(), self.tried_letters@, c);
            if !(use_frequency && first_untried(frequency_order(), self.tried_letters@) is Some) {
                assert(available@[pick as int] == c);
                assert(available@.contains(c));
            } else {
                let f = first_untried(frequency_order(), self.tried_letters@)->0;
                assert(frequency_order().contains(f));
                assert(alphabet().contains(f)) by {
                    let i = choose|i: int| 0 <= i < frequency_order().len() && frequency_order()[i] == f;
                    assert(f == 'E' || f == 'S' || f == 'A' || f == 'I' || f == 'T' || f == 'N' || f == 'R' || f == 'U' || f == 'L'
                        || f == 'O' || f == 'D' || f == 'C' || f == 'P' || f == 'M' || f == 'V' || f == 'Q' || f == 'F' || f == 'B'
                        || f == 'G' || f == 'H' || f == 'J' || f == 'X' || f == 'Y' || f == 'Z' || f == 'W' || f == 'K');
                    if f == 'A' { assert(alphabet()[0] == f); }
                    else if f == 'B' { assert(alphabet()[1] == f); }
                    else if f == 'C' { assert(alphabet()[2] == f); }
                    else if f == 'D' { assert(alphabet()[3] == f); }
                    else if f == 'E' { assert(alphabet()[4] == f); }
                    else if f == 'F' { assert(alphabet()[5] == f); }
                    else if f == 'G' { assert(alphabet()[6] == f); }
                    else if f == 'H' { assert(alphabet()[7] == f); }
                    else if f == 'I' { assert(alphabet()[8] == f); }
                    else if f == 'J' { assert(alphabet()[9] == f); }
                    else if f == 'K' { assert(alphabet()[10] == f); }
                    else if f == 'L' { assert(alphabet()[11] == f); }
                    else if f == 'M' { assert(alphabet()[12] == f); }
                    else if f == 'N' { assert(alphabet()[13] == f); }
                    else if f == 'O' { assert(alphabet()[14] == f); }
                    else if f == 'P' { assert(alphabet()[15] == f); }
                    else if f == 'Q' { assert(alphabet()[16] == f); }
                    else if f == 'R' { assert(alphabet()[17] == f); }
                    else if f == 'S' { assert(alphabet()[18] == f); }
                    else if f == 'T' { assert(alphabet()[19] == f); }
                    else if f == 'U' { assert(alphabet()[20] == f); }
                    else if f == 'V' { assert(alphabet()[21] == f); }
                    else if f == 'W' { assert(alphabet()[22] == f); }
                    else if f == 'X' { assert(alphabet()[23] == f); }
                    else if f == 'Y' { assert(alphabet()[24] == f); }
                    else { assert(alphabet()[25] == f); }
                }
            }
        }
        self.tried_letters.push(c);
        c
    }

    /// Whether this opponent plays by letter frequency this time: 40% of the
    /// time in Easy, 80% in Normal, always in Hard and Expert.
    fn draw_use_frequency(&self) -> (r: bool)
        ensures
            (self.difficulty == Difficulty::Hard || self.difficulty == Difficulty::Expert) ==> r,
    {
        match self.difficulty {
            Difficulty::Easy => random_ratio(2, 5),
            Difficulty::Normal => random_ratio(4, 5),
            Difficulty::Hard | Difficulty::Expert => true,
        }
    }

    /// Asks for a letter not yet tried (see `choose_letter`): in Hard and
    /// Expert the most frequent one; otherwise the most frequent one or a
    /// random one, at random.
    pub fn guess_letter(&mut self, _target_pattern: &str) -> (r: char)
        ensures
            final(self).difficulty == old(self).difficulty,
            letter_outcome(old(self).difficulty, old(self).tried_letters@, final(self).tried_letters@, r),
            // a letter is never asked for twice
            no_repeats(old(self).tried_letters@) ==> no_repeats(final(self).tried_letters@),
    {
        let use_frequency = self.draw_use_frequency();
        let available = available_letters(&self.tried_letters);
        let pick = if available.len() > 0 && !(use_frequency && frequency_choice(&self.tried_letters).is_some()) {
            random_index(available.len())
        } else {
            0
        };
        let r = self.choose_letter(use_frequency, pick);
        assert(r == letter_pick(old(self).tried_letters@, use_frequency, pick as int));
        proof {
            if no_repeats(old(self).tried_letters@) && untried(alphabet(), old(self).tried_letters@).len() > 0 {
                lemma_push_new(old(self).tried_letters@, r);
            }
        }
        r
    }
}


/// `w` fits the pattern: same byte length, and every shown letter of the
/// pattern (anything but `_`) is the letter of `w` at that position.
pub open spec fn fits_pattern(w: Seq<char>, pattern: Seq<char>) -> bool {
    &&& str_len(w) == str_len(pattern)
    &&& forall|i: int| 0 <= i < w.len() && i < pattern.len() ==> pattern[i] == '_' || pattern[i] == w[i]
}

/// The words that fit the pattern, in order.
pub open spec fn candidates(words: Seq<Seq<char>>, pattern: Seq<char>) -> Seq<Seq<char>>
    decreases words.len(),
{
    if words.len() == 0 {
        Seq::empty()
    } else if fits_pattern(words.last(), pattern) {
        candidates(words.drop_last(), pattern).push(words.last())
    } else {
        candidates(words.drop_last(), pattern)
    }
}

/// The number of shown letters (anything but `_`) of the pattern.
pub open spec fn shown_count(pattern: Seq<char>) -> nat
    decreases pattern.len(),
{
    if pattern.len() == 0 {
        0
    } else {
        shown_count(pattern.drop_last()) + if pattern.last() != '_' { 1nat } else { 0nat }
    }
}

/// The opponent is sure enough to guess a lone candidate: at least 60% of
/// the pattern's length is shown.
pub open spec fn sure_enough(pattern: Seq<char>) -> bool {
    5 * shown_count(pattern) >= 3 * str_len(pattern)
}

/// A letter worth asking for: neither shown in the pattern nor tried.
pub open spec fn worth_asking(pattern: Seq<char>, tried: Seq<char>, c: char) -> bool {
    !pattern.contains(c) && !tried.contains(c)
}

/// The first letter of `w` worth asking for.
pub open spec fn missing_letter(w: Seq<char>, pattern: Seq<char>, tried: Seq<char>) -> Option<char>
    decreases w.len(),
{
    if w.len() == 0 {
        None
    } else if worth_asking(pattern, tried, w[0]) {
        Some(w[0])
    } else {
        missing_letter(w.drop_first(), pattern, tried)
    }
}

/// The letter `missing_letter` finds is worth asking for.
pub proof fn lemma_missing_letter_worth(w: Seq<char>, pattern: Seq<char>, tried: Seq<char>)
    ensures
        missing_letter(w, pattern, tried) matches Some(c) ==> worth_asking(pattern, tried, c),
    decreases w.len(),
{
    if w.len() > 0 && !worth_asking(pattern, tried, w[0]) {
        lemma_missing_letter_worth(w.drop_first(), pattern, tried);
    }
}

/// All the letters of the words, one word after the other.
pub open spec fn flatten(ws: Seq<Seq<char>>) -> Seq<char>
    decreases ws.len(),
{
    if ws.len() == 0 {
        Seq::empty()
    } else {
        flatten(ws.drop_last()) + ws.last()
    }
}

/// How many times `c` occurs in `w`.
pub open spec fn occurrences(w: Seq<char>, c: char) -> nat
    decreases w.len(),
{
    if w.len() == 0 {
        0
    } else {
        occurrences(w.drop_last(), c) + if w.last() == c { 1nat } else { 0nat }
    }
}

/// `c` is a letter worth asking for that occurs in the candidates as often
/// as any other such letter.
pub open spec fn most_telling(letters: Seq<char>, pattern: Seq<char>, tried: Seq<char>, c: char) -> bool {
    &&& letters.contains(c)
    &&& worth_asking(pattern, tried, c)
    &&& forall|d: char| letters.contains(d) && worth_asking(pattern, tried, d) ==> occurrences(letters, d) <= occurrences(letters, c)
}

/// Some letter of `letters` is worth asking for.
pub open spec fn some_worth_asking(letters: Seq<char>, pattern: Seq<char>, tried: Seq<char>) -> bool {
    exists|d: char| letters.contains(d) && worth_asking(pattern, tried, d)
}

/// The words of `words` that fit the pattern.
pub fn pattern_candidates(pattern: &str, words: &Vec<String>) -> (r: Vec<String>)
    ensures
        views(r@) == candidates(views(words@), pattern@),
{
    let pv = chars_of(pattern);
    let plen = pattern.len();
    let mut r: Vec<String> = Vec::new();
    let mut i: usize = 0;
    while i < words.len()
        invariant
            pv@ == pattern@,
            plen == str_len(pattern@),
            i <= words.len(),
            views(r@) == candidates(views(words@).take(i as int), pattern@),
        decreases words.len() - i,
    {
        assert(views(words@).take(i + 1).drop_last() =~= views(words@).take(i as int));
        assert(views(words@).take(i + 1).last() == words@[i as int]@);
        let wv = chars_of(words[i].as_str());
        let mut fits = words[i].as_str().len() == plen;
        if fits {
            let mut k: usize = 0;
            while k < wv.len() && k < pv.len()
                invariant
                    k <= wv.len(),
                    fits == forall|j: int| 0 <= j < k && j < wv@.len() && j < pv@.len() ==> pv@[j] == '_' || pv@[j] == wv@[j],
                decreases wv.len() - k,
            {
                if !(pv[k] == '_' || pv[k] == wv[k]) {
                    fits = false;
                }
                k = k + 1;
            }
            assert(fits == forall|j: int| 0 <= j < wv@.len() && j < pv@.len() ==> pv@[j] == '_' || pv@[j] == wv@[j]);
        }
        if fits {
            r.push(words[i].clone());
        }
        assert(views(r@) =~= candidates(views(words@).take(i + 1), pattern@));
        i = i + 1;
    }
    assert(views(words@).take(words.len() as int) =~= views(words@));
    r
}

/// The number of shown letters of the pattern.
pub fn count_shown(pattern: &Vec<char>) -> (r: usize)
    ensures
        r == shown_count(pattern@),
{
    let mut n: usize = 0;
    let mut i: usize = 0;
    while i < pattern.len()
        invariant
            i <= pattern.len(),
            n == shown_count(pattern@.take(i as int)),
            n <= i,
        decreases pattern.len() - i,
    {
        assert(pattern@.take(i + 1).drop_last() =~= pattern@.take(i as int));
        if pattern[i] != '_' {
            n = n + 1;
        }
        i = i + 1;
    }
    assert(pattern@.take(pattern.len() as int) =~= pattern@);
    n
}

/// The first letter of `w` worth asking for.
pub fn find_missing_letter(w: &Vec<char>, pattern: &Vec<char>, tried: &Vec<char>) -> (r: Option<char>)
    ensures
        r == missing_letter(w@, pattern@, tried@),
{
    let mut i: usize = 0;
    assert(w@.skip(0) =~= w@);
    while i < w.len()
        invariant
            i <= w.len(),
            missing_letter(w@, pattern@, tried@) == missing_letter(w@.skip(i as int), pattern@, tried@),
        decreases w.len() - i,
    {
        assert(w@.skip(i as int).drop_first() =~= w@.skip(i + 1));
        let c = w[i];
        if !vec_contains_char(pattern, c) && !vec_contains_char(tried, c) {
            return Some(c);
        }
        i = i + 1;
    }
    assert(w@.skip(w.len() as int) =~= Seq::<char>::empty());
    None
}

/// How many times `c` occurs in `w`.
pub fn count_occurrences(w: &Vec<char>, c: char) -> (r: usize)
    ensures
        r == occurrences(w@, c),
{
    let mut n: usize = 0;
    let mut i: usize = 0;
    while i < w.len()
        invariant
            i <= w.len(),
            n == occurrences(w@.take(i as int), c),
            n <= i,
        decreases w.len() - i,
    {
        assert(w@.take(i + 1).drop_last() =~= w@.take(i as int));
        if w[i] == c {
            n = n + 1;
        }
        i = i + 1;
    }
    assert(w@.take(w.len() as int) =~= w@);
    n
}

/// All the letters of the words, one word after the other.
pub fn flatten_words(ws: &Vec<String>) -> (r: Vec<char>)
    ensures
        r@ == flatten(views(ws@)),
{
    let mut r: Vec<char> = Vec::new();
    let mut i: usize = 0;
    while i < ws.len()
        invariant
            i <= ws.len(),
            r@ == flatten(views(ws@).take(i as int)),
        decreases ws.len() - i,
    {
        assert(views(ws@).take(i + 1).drop_last() =~= views(ws@).take(i as int));
        let mut cs = chars_of(ws[i].as_str());
        r.append(&mut cs);
        i = i + 1;
    }
    assert(views(ws@).take(ws.len() as int) =~= views(ws@));
    r
}

/// No letter worth asking for that occurs as often as `c` is met in
/// `letters` before `c`.
pub open spec fn first_among_most(letters: Seq<char>, pattern: Seq<char>, tried: Seq<char>, c: char) -> bool {
    forall|j: int| 0 <= j < letters.len() && worth_asking(pattern, tried, #[trigger] letters[j])
        && occurrences(letters, letters[j]) == occurrences(letters, c) ==> exists|i: int| 0 <= i <= j && letters[i] == c
}

/// Among the first `k` letters, `c` (occurring `count` times in all of
/// `letters`) is the first letter met among those worth asking for that
/// occur most.
pub open spec fn leads(letters: Seq<char>, pattern: Seq<char>, tried: Seq<char>, k: int, c: char, count: nat) -> bool {
    &&& letters.take(k).contains(c)
    &&& worth_asking(pattern, tried, c)
    &&& count == occurrences(letters, c)
    &&& forall|d: char| letters.take(k).contains(d) && worth_asking(pattern, tried, d) ==> occurrences(letters, d) <= count
    &&& forall|j: int| 0 <= j < k && worth_asking(pattern, tried, #[trigger] letters[j])
        && occurrences(letters, letters[j]) == count ==> exists|i: int| 0 <= i <= j && letters[i] == c
}

/// One more letter read: it leads when it is worth asking for and occurs
/// more than the leader so far (or there was none); else the leader stays.
pub proof fn lemma_leads_step(letters: Seq<char>, pattern: Seq<char>, tried: Seq<char>, k: int, best: Option<char>, count: nat)
    requires
        0 <= k < letters.len(),
        match best {
            Some(c) => leads(letters, pattern, tried, k, c, count),
            None => !some_worth_asking(letters.take(k), pattern, tried),
        },
    ensures
        ({
            let x = letters[k];
            let n = occurrences(letters, x);
            if worth_asking(pattern, tried, x) && (best is None || n > count) {
                leads(letters, pattern, tried, k + 1, x, n)
            } else {
                match best {
                    Some(c) => leads(letters, pattern, tried, k + 1, c, count),
                    None => !some_worth_asking(letters.take(k + 1), pattern, tried),
                }
            }
        }),
{
    let x = letters[k];
    let before = letters.take(k);
    let after = letters.take(k + 1);
    assert(after =~= before.push(x));
    assert(after[k] == x);
    assert forall|d: char| after.contains(d) implies before.contains(d) || d == x by {
        let j = choose|j: int| 0 <= j < after.len() && after[j] == d;
        if j < before.len() {
            assert(before[j] == d);
        }
    }
    assert forall|d: char| before.contains(d) implies after.contains(d) by {
        let j = choose|j: int| 0 <= j < before.len() && before[j] == d;
        assert(after[j] == d);
    }
    let n = occurrences(letters, x);
    if worth_asking(pattern, tried, x) && (best is None || n > count) {
        assert forall|j: int| 0 <= j < k + 1 && worth_asking(pattern, tried, #[trigger] letters[j])
            && occurrences(letters, letters[j]) == n implies exists|i: int| 0 <= i <= j && letters[i] == x by {
            if j < k {
                assert(before[j] == letters[j]);
                assert(before.contains(letters[j]));
            }
        }
    } else if let Some(c) = best {
        let w = choose|w: int| 0 <= w < before.len() && before[w] == c;
        assert(letters[w] == c);
        assert forall|j: int| 0 <= j < k + 1 && worth_asking(pattern, tried, #[trigger] letters[j])
            && occurrences(letters, letters[j]) == count implies exists|i: int| 0 <= i <= j && letters[i] == c by {
            if j == k {
                assert(0 <= w <= j && letters[w] == c);
            }
        }
    }
}

/// A letter worth asking for that occurs most often in `letters` (the first
/// such letter met), if any.
pub fn most_telling_letter(letters: &Vec<char>, pattern: &Vec<char>, tried: &Vec<char>) -> (r: Option<char>)
    ensures
        match r {
            Some(c) => most_telling(letters@, pattern@, tried@, c) && first_among_most(letters@, pattern@, tried@, c),
            None => !some_worth_asking(letters@, pattern@, tried@),
        },
{
    let mut best: Option<char> = None;
    let mut best_count: usize = 0;
    let mut k: usize = 0;
    while k < letters.len()
        invariant
            k <= letters.len(),
            match best {
                Some(c) => leads(letters@, pattern@, tried@, k as int, c, best_count as nat),
                None => !some_worth_asking(letters@.take(k as int), pattern@, tried@),
            },
        decreases letters.len() - k,
    {
        let c = letters[k];
        proof {
            lemma_leads_step(letters@, pattern@, tried@, k as int, best, best_count as nat);
        }
        if !vec_contains_char(pattern, c) && !vec_contains_char(tried, c) {
            let n = count_occurrences(letters, c);
            let better = match best {
                Some(_) => n > best_count,
                None => true,
            };
            if better {
                best = Some(c);
                best_count = n;
            }
        }
        k = k + 1;
    }
    assert(letters@.take(letters.len() as int) =~= letters@);
    best
}

/// The moves the opponent of difficulty `d`, having tried `tried`, may make
/// against `pattern` with the dictionary `words`, ending with `tried2` tried:
/// while the length is unknown (`?` in the pattern) it asks for a letter;
/// otherwise, among the words that fit the pattern, it may guess one (in
/// Easy when there are fewer than five, in Normal when there are at most
/// two, in Hard and Expert only a lone candidate with at least 60% of the
/// pattern shown), else asks for a letter of a lone candidate that is worth
/// asking for, else (in Hard and Expert) the letter that occurs most in the
/// candidates, else a letter as `guess_letter` does.
pub open spec fn ai_decision(d: Difficulty, tried: Seq<char>, tried2: Seq<char>, pattern: Seq<char>, words: Seq<Seq<char>>,
    r: AIAction) -> bool {
    let cands = candidates(words, pattern);
    let hard = d == Difficulty::Hard || d == Difficulty::Expert;
    let sure = cands.len() == 1 && sure_enough(pattern);
    if pattern.contains('?') {
        r matches AIAction::ProposeLetter(c) && letter_outcome(d, tried, tried2, c)
    } else {
        match r {
            AIAction::GuessWord(w) => {
                &&& tried2 == tried
                &&& cands.contains(w@)
                &&& d == Difficulty::Easy ==> cands.len() < 5
                &&& d == Difficulty::Normal ==> cands.len() <= 2
                &&& hard ==> sure && w@ == cands[0]
            },
            AIAction::ProposeLetter(c) => {
                &&& !(d == Difficulty::Normal && 0 < cands.len() <= 2)
                &&& !(hard && sure)
                &&& if cands.len() == 1 && missing_letter(cands[0], pattern, tried) is Some {
                    c == missing_letter(cands[0], pattern, tried)->0 && tried2 == tried.push(c)
                } else if cands.len() > 0 && hard && some_worth_asking(flatten(cands), pattern, tried) {
                    most_telling(flatten(cands), pattern, tried, c) && tried2 == tried.push(c)
                } else {
                    letter_outcome(d, tried, tried2, c)
                }
            },
        }
    }
}

impl AI {
    /// The opponent's move against a pattern such as `I_L_S_ON` (or `???`
    /// when the word's length is unknown), given the words of the game's
    /// dictionary (see `ai_decision`).
    pub fn decide_action(&mut self, target_pattern: &str, dictionary_words: &Vec<String>) -> (r: AIAction)
        ensures
            final(self).difficulty == old(self).difficulty,
            // a letter is never asked for twice
            no_repeats(old(self).tried_letters@) ==> no_repeats(final(self).tried_letters@),
            ai_decision(old(self).difficulty, old(self).tried_letters@, final(self).tried_letters@, target_pattern@,
                views(dictionary_words@), r),
    {
        if str_contains_char(target_pattern, '?') {
            let letter = self.guess_letter(target_pattern);
            return AIAction::ProposeLetter(letter);
        }
        let pattern_len = target_pattern.len();
        let known = chars_of(target_pattern);
        let cands = pattern_candidates(target_pattern, dictionary_words);
        let ghost cv = views(cands@);
        if cands.len() > 0 {
            let mut should_guess = false;
            let mut guess_at: usize = 0;
            match self.difficulty {
                Difficulty::Easy => {
                    if cands.len() < 5 && random_ratio(3, 10) {
                        should_guess = true;
                        guess_at = random_index(cands.len());
                    }
                }
                Difficulty::Normal => {
                    if cands.len() <= 2 {
                        should_guess = true;
                        guess_at = random_index(cands.len());
                    }
                }
                Difficulty::Hard | Difficulty::Expert => {
                    if cands.len() == 1 {
                        let shown = count_shown(&known);
                        let shown_wide: u128 = shown as u128;
                        let len_wide: u128 = pattern_len as u128;
                        if shown_wide * 5 >= len_wide * 3 {
                            should_guess = true;
                            guess_at = 0;
                        }
                    }
                }
            }
            if should_guess {
                assert(cv[guess_at as int] == cands@[guess_at as int]@);
                return AIAction::GuessWord(cands[guess_at].clone());
            } else if cands.len() == 1 {
                let w = chars_of(cands[0].as_str());
                match find_missing_letter(&w, &known, &self.tried_letters) {
                    Some(c) => {
                        proof {
                            lemma_missing_letter_worth(w@, known@, self.tried_letters@);
                            if no_repeats(self.tried_letters@) {
                                lemma_push_new(self.tried_letters@, c);
                            }
                        }
                        self.tried_letters.push(c);
                        return AIAction::ProposeLetter(c);
                    }
                    None => {}
                }
            }
        }
        match self.difficulty {
            Difficulty::Hard | Difficulty::Expert => {
                if cands.len() > 0 {
                    let letters = flatten_words(&cands);
                    match most_telling_letter(&letters, &known, &self.tried_letters) {
                        Some(c) => {
                            proof {
                                if no_repeats(self.tried_letters@) {
                                    lemma_push_new(self.tried_letters@, c);
                                }
                            }
                            self.tried_letters.push(c);
                            return AIAction::ProposeLetter(c);
                        }
                        None => {}
                    }
                }
            }
            _ => {}
        }
        let letter = self.guess_letter(target_pattern);
        AIAction::ProposeLetter(letter)
    }
}

} // verus!
