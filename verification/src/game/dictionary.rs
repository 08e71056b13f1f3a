//! The word lists: themes, their sub-themes, and the words of each.
//!
//! The lists are read from a JSON file by the application; the library
//! works on the loaded lists.
use vstd::prelude::*;
use crate::chance::random_index;
use crate::game::model::{str_len, Rarity, SecretWord};
use crate::text::{is_prefix, lemma_views_push, lex_le, sort_strings, starts_with, strings_sorted, to_uppercase, unicode_upper, views};

verus! {

/// A group of words within a theme.
#[derive(Debug, Clone)]
pub struct SubTheme {
    pub name: String,
    pub words: Vec<String>,
}

/// A theme and its sub-themes.
#[derive(Debug, Clone)]
pub struct Theme {
    pub name: String,
    pub sub_themes: Vec<SubTheme>,
}

/// The name of the pseudo sub-theme that stands for every word of a theme.
pub open spec fn all_sub_themes_name() -> Seq<char> {
    "Général (Tous)"@
}

/// The names of the themes, in order.
pub open spec fn theme_names(ts: Seq<Theme>) -> Seq<Seq<char>> {
    Seq::new(ts.len(), |i: int| ts[i].name@)
}

/// The names of the sub-themes, in order.
pub open spec fn sub_theme_names(ss: Seq<SubTheme>) -> Seq<Seq<char>> {
    Seq::new(ss.len(), |i: int| ss[i].name@)
}

/// `i` is the first name equal to `name`.
pub open spec fn is_first_name(names: Seq<Seq<char>>, name: Seq<char>, i: int) -> bool {
    0 <= i < names.len() && names[i] == name && forall|j: int| 0 <= j < i ==> names[j] != name
}

/// The index of the first name equal to `name` (or -1).
pub open spec fn name_index(names: Seq<Seq<char>>, name: Seq<char>) -> int {
    if names.contains(name) {
        choose|i: int| is_first_name(names, name, i)
    } else {
        -1
    }
}

/// The words of the sub-themes, one sub-theme after the other.
pub open spec fn words_of(ss: Seq<SubTheme>) -> Seq<Seq<char>>
    decreases ss.len(),
{
    if ss.len() == 0 {
        Seq::empty()
    } else {
        words_of(ss.drop_last()) + views(ss.last().words@)
    }
}

/// The words of every theme, one theme after the other.
pub open spec fn all_words(ts: Seq<Theme>) -> Seq<Seq<char>>
    decreases ts.len(),
{
    if ts.len() == 0 {
        Seq::empty()
    } else {
        all_words(ts.drop_last()) + words_of(ts.last().sub_themes@)
    }
}

/// The words to draw from for a theme and an optional sub-theme: all the
/// words of the (first) theme of that name when no sub-theme or the
/// pseudo sub-theme `Général (Tous)` is given, else the words of its (first)
/// sub-theme of that name; nothing for an unknown theme or sub-theme.
pub open spec fn word_pool(ts: Seq<Theme>, theme: Seq<char>, sub: Option<Seq<char>>) -> Seq<Seq<char>> {
    if !theme_names(ts).contains(theme) {
        Seq::empty()
    } else {
        let t = ts[name_index(theme_names(ts), theme)];
        match sub {
            None => words_of(t.sub_themes@),
            Some(s) => if s == all_sub_themes_name() {
                words_of(t.sub_themes@)
            } else if sub_theme_names(t.sub_themes@).contains(s) {
                views(t.sub_themes@[name_index(sub_theme_names(t.sub_themes@), s)].words@)
            } else {
                Seq::empty()
            },
        }
    }
}

/// Finds the first name equal to `name`.
fn find_name(names: &Vec<String>, name: &String) -> (r: Option<usize>)
    ensures
        match r {
            Some(i) => is_first_name(views(names@), name@, i as int) && i as int == name_index(views(names@), name@),
            None => !views(names@).contains(name@),
        },
{
    let ghost ns = views(names@);
    let mut i: usize = 0;
    while i < names.len()
        invariant
            ns == views(names@),
            i <= names.len(),
            forall|j: int| 0 <= j < i ==> ns[j] != name@,
        decreases names.len() - i,
    {
        if names[i] == *name {
            proof {
                assert(is_first_name(ns, name@, i as int));
                assert(ns.contains(name@));
                let k = choose|k: int| is_first_name(ns, name@, k);
                assert(k == i as int) by {
                    if k < i as int {
                    } else if k > i as int {
                    }
                }
            }
            return Some(i);
        }
        i = i + 1;
    }
    None
}

/// The names of all themes, in order.
pub fn get_all_themes(themes: &Vec<Theme>) -> (r: Vec<String>)
    ensures
        views(r@) == theme_names(themes@),
{
    let mut r: Vec<String> = Vec::new();
    let mut i: usize = 0;
    while i < themes.len()
        invariant
            i <= themes.len(),
            views(r@) == theme_names(themes@).take(i as int),
        decreases themes.len() - i,
    {
        let ghost r0 = r@;
        let n = themes[i].name.clone();
        r.push(n);
        proof { lemma_views_push(r0, n); }
        i = i + 1;
        assert(views(r@) =~= theme_names(themes@).take(i as int));
    }
    assert(theme_names(themes@).take(themes.len() as int) =~= theme_names(themes@));
    r
}

/// The names of the sub-themes, in order.
fn sub_names(subs: &Vec<SubTheme>) -> (r: Vec<String>)
    ensures
        views(r@) == sub_theme_names(subs@),
{
    let mut r: Vec<String> = Vec::new();
    let mut i: usize = 0;
    while i < subs.len()
        invariant
            i <= subs.len(),
            views(r@) == sub_theme_names(subs@).take(i as int),
        decreases subs.len() - i,
    {
        let ghost r0 = r@;
        let n = subs[i].name.clone();
        r.push(n);
        proof { lemma_views_push(r0, n); }
        i = i + 1;
        assert(views(r@) =~= sub_theme_names(subs@).take(i as int));
    }
    assert(sub_theme_names(subs@).take(subs.len() as int) =~= sub_theme_names(subs@));
    r
}

/// The sub-theme names of the (first) theme named `theme`; none for an
/// unknown theme.
pub open spec fn sub_themes_of(ts: Seq<Theme>, theme: Seq<char>) -> Seq<Seq<char>> {
    if theme_names(ts).contains(theme) {
        sub_theme_names(ts[name_index(theme_names(ts), theme)].sub_themes@)
    } else {
        Seq::empty()
    }
}

/// The sub-theme names of the (first) theme named `theme_name` (see
/// `sub_themes_of`).
pub fn get_sub_themes(themes: &Vec<Theme>, theme_name: &str) -> (r: Vec<String>)
    ensures
        views(r@) == sub_themes_of(themes@, theme_name@),
{
    let names = get_all_themes(themes);
    let wanted = String::from_str(theme_name);
    match find_name(&names, &wanted) {
        Some(i) => sub_names(&themes[i].sub_themes),
        None => {
            let r: Vec<String> = Vec::new();
            assert(views(r@) =~= Seq::<Seq<char>>::empty());
            r
        }
    }
}

/// Appends the words of the sub-themes to `out`.
fn push_words_of(subs: &Vec<SubTheme>, out: &mut Vec<String>)
    ensures
        views(final(out)@) == views(old(out)@) + words_of(subs@),
{
    let mut i: usize = 0;
    while i < subs.len()
        invariant
            i <= subs.len(),
            views(out@) == views(old(out)@) + words_of(subs@.take(i as int)),
        decreases subs.len() - i,
    {
        assert(subs@.take(i + 1).drop_last() =~= subs@.take(i as int));
        let ghost before = views(out@);
        let ws = &subs[i].words;
        let mut j: usize = 0;
        while j < ws.len()
            invariant
                j <= ws.len(),
                views(out@) == before + views(ws@).take(j as int),
            decreases ws.len() - j,
        {
            let ghost o0 = out@;
            let w = ws[j].clone();
            out.push(w);
            proof { lemma_views_push(o0, w); }
            j = j + 1;
            assert(views(out@) =~= before + views(ws@).take(j as int));
        }
        assert(views(ws@).take(ws.len() as int) =~= views(ws@));
        i = i + 1;
        assert(views(out@) =~= views(old(out)@) + words_of(subs@.take(i as int)));
    }
    assert(subs@.take(subs.len() as int) =~= subs@);
}

/// Every word of every theme, in order.
pub fn get_all_words(themes: &Vec<Theme>) -> (r: Vec<String>)
    ensures
        views(r@) == all_words(themes@),
{
    let mut r: Vec<String> = Vec::new();
    let mut i: usize = 0;
    while i < themes.len()
        invariant
            i <= themes.len(),
            views(r@) == all_words(themes@.take(i as int)),
        decreases themes.len() - i,
    {
        assert(themes@.take(i + 1).drop_last() =~= themes@.take(i as int));
        push_words_of(&themes[i].sub_themes, &mut r);
        i = i + 1;
    }
    assert(themes@.take(themes.len() as int) =~= themes@);
    r
}

/// The words to draw from (see `word_pool`).
pub fn theme_word_pool(themes: &Vec<Theme>, theme_name: &str, sub_theme_name: Option<&str>) -> (r: Vec<String>)
    ensures
        views(r@) == word_pool(themes@, theme_name@, match sub_theme_name { Some(s) => Some(s@), None => None }),
{
    let mut r: Vec<String> = Vec::new();
    let names = get_all_themes(themes);
    let wanted = String::from_str(theme_name);
    let t = match find_name(&names, &wanted) {
        Some(t) => t,
        None => {
            assert(views(r@) =~= Seq::<Seq<char>>::empty());
            return r;
        }
    };
    let subs = &themes[t].sub_themes;
    match sub_theme_name {
        None => {
            push_words_of(subs, &mut r);
            assert(views(r@) =~= words_of(subs@));
        }
        Some(s) => {
            let sub = String::from_str(s);
            let all_name = String::from_str("Général (Tous)");
            if sub == all_name {
                push_words_of(subs, &mut r);
                assert(views(r@) =~= words_of(subs@));
            } else {
                let snames = sub_names(subs);
                match find_name(&snames, &sub) {
                    Some(k) => {
                        let ws = &subs[k].words;
                        let mut j: usize = 0;
                        while j < ws.len()
                            invariant
                                j <= ws.len(),
                                views(r@) == views(ws@).take(j as int),
                            decreases ws.len() - j,
                        {
                            let ghost r0 = r@;
                            let w = ws[j].clone();
                            r.push(w);
                            proof { lemma_views_push(r0, w); }
                            j = j + 1;
                            assert(views(r@) =~= views(ws@).take(j as int));
                        }
                        assert(views(ws@).take(ws.len() as int) =~= views(ws@));
                    }
                    None => {
                        assert(views(r@) =~= Seq::<Seq<char>>::empty());
                    }
                }
            }
        }
    }
    r
}

/// The secret word made of `pool[pick]`, or of `MYSTERE` for an empty
/// pool: in theme `theme_name`, common, of difficulty 1, with its byte
/// length.
pub fn secret_word_from_pool(theme_name: &str, pool: &Vec<String>, pick: usize) -> (r: SecretWord)
    requires
        pool.len() > 0 ==> pick < pool.len(),
    ensures
        r.id == 0,
        r.content@ == if pool.len() > 0 { pool@[pick as int]@ } else { "MYSTERE"@ },
        r.length == #[verifier::truncate] (str_len(r.content@) as u32),
        r.theme@ == theme_name@,
        r.rarity is Common,
        r.difficulty_score == 1,
{
    let word = if pool.len() > 0 { pool[pick].clone() } else { String::from_str("MYSTERE") };
    let n: usize = word.as_str().len();
    SecretWord {
        id: 0,
        length: #[verifier::truncate] (n as u32),
        content: word,
        theme: String::from_str(theme_name),
        rarity: Rarity::Common,
        difficulty_score: 1,
    }
}

/// A word drawn at random from the pool of a theme and optional sub-theme
/// (see `word_pool` and `secret_word_from_pool`).
pub fn get_random_word(themes: &Vec<Theme>, theme_name: &str, sub_theme_name: Option<&str>) -> (r: SecretWord)
    ensures
        ({
            let pool = word_pool(themes@, theme_name@, match sub_theme_name { Some(s) => Some(s@), None => None });
            &&& pool.len() > 0 ==> pool.contains(r.content@)
            &&& pool.len() == 0 ==> r.content@ == "MYSTERE"@
        }),
        r.id == 0,
        r.length == #[verifier::truncate] (str_len(r.content@) as u32),
        r.theme@ == theme_name@,
        r.rarity is Common,
        r.difficulty_score == 1,
{
    let pool = theme_word_pool(themes, theme_name, sub_theme_name);
    let pick = if pool.len() > 0 { random_index(pool.len()) } else { 0 };
    let r = secret_word_from_pool(theme_name, &pool, pick);
    proof {
        if pool.len() > 0 {
            assert(views(pool@)[pick as int] == pool@[pick as int]@);
        }
    }
    r
}

/// Whether `word`, read in upper case, is a word of the dictionary.
pub fn validate_word(themes: &Vec<Theme>, word: &str) -> (r: bool)
    ensures
        r == all_words(themes@).contains(unicode_upper(word@)),
{
    let upper = to_uppercase(word);
    let words = get_all_words(themes);
    let mut i: usize = 0;
    while i < words.len()
        invariant
            i <= words.len(),
            views(words@) == all_words(themes@),
            upper@ == unicode_upper(word@),
            forall|j: int| 0 <= j < i ==> words@[j]@ != upper@,
        decreases words.len() - i,
    {
        if words[i] == upper {
            assert(views(words@)[i as int] == upper@);
            assert(all_words(themes@)[i as int] == unicode_upper(word@));
            return true;
        }
        i = i + 1;
    }
    assert forall|j: int| 0 <= j < views(words@).len() implies views(words@)[j] != upper@ by {
        assert(views(words@)[j] == words@[j]@);
    }
    false
}

/// The words of `ws` that start with `prefix`, in order.
pub open spec fn with_prefix(ws: Seq<Seq<char>>, prefix: Seq<char>) -> Seq<Seq<char>>
    decreases ws.len(),
{
    if ws.len() == 0 {
        Seq::empty()
    } else if is_prefix(prefix, ws.last()) {
        with_prefix(ws.drop_last(), prefix).push(ws.last())
    } else {
        with_prefix(ws.drop_last(), prefix)
    }
}

/// `s` without consecutive repeats (what `Vec::dedup` leaves).
pub open spec fn dedup_seq(s: Seq<Seq<char>>) -> Seq<Seq<char>>
    decreases s.len(),
{
    if s.len() == 0 {
        s
    } else if s.len() >= 2 && s[s.len() - 1] == s[s.len() - 2] {
        dedup_seq(s.drop_last())
    } else {
        dedup_seq(s.drop_last()).push(s.last())
    }
}

/// The first `n` elements of `s` (all of them when there are fewer).
pub open spec fn first_n<A>(s: Seq<A>, n: nat) -> Seq<A> {
    if s.len() <= n { s } else { s.take(n as int) }
}

/// `Vec::dedup`, on strings compared by their characters.
fn dedup_strings(v: Vec<String>) -> (r: Vec<String>)
    ensures
        views(r@) == dedup_seq(views(v@)),
{
    let mut r: Vec<String> = Vec::new();
    let mut i: usize = 0;
    while i < v.len()
        invariant
            i <= v.len(),
            views(r@) == dedup_seq(views(v@).take(i as int)),
            i > 0 ==> r.len() > 0 && r@[r.len() - 1]@ == v@[i - 1]@,
        decreases v.len() - i,
    {
        let ghost vs = views(v@).take(i + 1);
        assert(vs.drop_last() =~= views(v@).take(i as int));
        proof {
            if i >= 1 {
                assert(vs[vs.len() - 2] == v@[i - 1]@);
            }
        }
        if i == 0 || !(v[i] == r[r.len() - 1]) {
            let ghost r0 = r@;
            let w = v[i].clone();
            r.push(w);
            proof { lemma_views_push(r0, w); }
            assert(views(r@) =~= dedup_seq(vs));
        }
        i = i + 1;
    }
    assert(views(v@).take(v.len() as int) =~= views(v@));
    r
}

/// Up to five distinct dictionary words of the theme's pool (see
/// `word_pool`) that start with `prefix` read in upper case, in sorted
/// order; none for an empty prefix.
pub fn get_suggestions(themes: &Vec<Theme>, prefix: &str, theme_name: &str, sub_theme_name: Option<&str>) -> (r: Vec<String>)
    ensures
        unicode_upper(prefix@).len() == 0 ==> r@.len() == 0,
        unicode_upper(prefix@).len() > 0 ==> exists|s: Seq<Seq<char>>| #![trigger dedup_seq(s)]
            s.to_multiset() == with_prefix(word_pool(themes@, theme_name@, match sub_theme_name { Some(x) => Some(x@), None => None }),
                unicode_upper(prefix@)).to_multiset()
            && strings_sorted(s)
            && views(r@) == first_n(dedup_seq(s), 5),
{
    let upper = to_uppercase(prefix);
    if upper.as_str().is_empty() {
        return Vec::new();
    }
    let pool = theme_word_pool(themes, theme_name, sub_theme_name);
    let mut matching: Vec<String> = Vec::new();
    let mut i: usize = 0;
    while i < pool.len()
        invariant
            i <= pool.len(),
            views(matching@) == with_prefix(views(pool@).take(i as int), upper@),
        decreases pool.len() - i,
    {
        assert(views(pool@).take(i + 1).drop_last() =~= views(pool@).take(i as int));
        assert(views(pool@).take(i + 1).last() == pool@[i as int]@);
        if starts_with(pool[i].as_str(), upper.as_str()) {
            let ghost m0 = matching@;
            let w = pool[i].clone();
            matching.push(w);
            proof { lemma_views_push(m0, w); }
            assert(views(matching@) =~= with_prefix(views(pool@).take(i + 1), upper@));
        }
        i = i + 1;
    }
    assert(views(pool@).take(pool.len() as int) =~= views(pool@));
    let ghost unsorted = views(matching@);
    sort_strings(&mut matching);
    let ghost s = views(matching@);
    let deduped = dedup_strings(matching);
    let mut r: Vec<String> = Vec::new();
    let mut k: usize = 0;
    while k < deduped.len() && k < 5
        invariant
            k <= deduped.len(),
            k <= 5,
            views(r@) == views(deduped@).take(k as int),
        decreases deduped.len() - k,
    {
        let ghost r0 = r@;
        let w = deduped[k].clone();
        r.push(w);
        proof { lemma_views_push(r0, w); }
        k = k + 1;
        assert(views(r@) =~= views(deduped@).take(k as int));
    }
    assert(views(r@) =~= first_n(dedup_seq(s), 5));
    r
}


/// A word kept by `with_prefix` is one of the words and starts with the
/// prefix.
pub proof fn lemma_with_prefix_contains(ws: Seq<Seq<char>>, prefix: Seq<char>, x: Seq<char>)
    requires
        with_prefix(ws, prefix).contains(x),
    ensures
        ws.contains(x),
        is_prefix(prefix, x),
    decreases ws.len(),
{
    let rest = with_prefix(ws.drop_last(), prefix);
    let k = choose|k: int| 0 <= k < with_prefix(ws, prefix).len() && with_prefix(ws, prefix)[k] == x;
    if k < rest.len() {
        assert(rest[k] == x);
        lemma_with_prefix_contains(ws.drop_last(), prefix, x);
        let j = choose|j: int| 0 <= j < ws.drop_last().len() && ws.drop_last()[j] == x;
        assert(ws[j] == x);
    } else {
        assert(ws[ws.len() - 1] == x);
    }
}

/// What `dedup_seq` keeps was there.
pub proof fn lemma_dedup_contains(s: Seq<Seq<char>>, x: Seq<char>)
    requires
        dedup_seq(s).contains(x),
    ensures
        s.contains(x),
    decreases s.len(),
{
    let d = dedup_seq(s);
    let rest = dedup_seq(s.drop_last());
    let k = choose|k: int| 0 <= k < d.len() && d[k] == x;
    if k < rest.len() {
        assert(rest[k] == x);
        lemma_dedup_contains(s.drop_last(), x);
        let j = choose|j: int| 0 <= j < s.drop_last().len() && s.drop_last()[j] == x;
        assert(s[j] == x);
    } else {
        assert(s[s.len() - 1] == x);
    }
}

/// Suggestions are at most five dictionary words of the pool that start
/// with the prefix.
pub proof fn law_suggestions_match(pool: Seq<Seq<char>>, prefix: Seq<char>, s: Seq<Seq<char>>, out: Seq<Seq<char>>)
    requires
        s.to_multiset() == with_prefix(pool, prefix).to_multiset(),
        out == first_n(dedup_seq(s), 5),
    ensures
        out.len() <= 5,
        forall|i: int| 0 <= i < out.len() ==> pool.contains(#[trigger] out[i]) && is_prefix(prefix, out[i]),
{
    broadcast use vstd::seq_lib::group_to_multiset_ensures;
    assert forall|i: int| 0 <= i < out.len() implies pool.contains(#[trigger] out[i]) && is_prefix(prefix, out[i]) by {
        let x = out[i];
        assert(dedup_seq(s)[i] == x);
        assert(dedup_seq(s).contains(x));
        lemma_dedup_contains(s, x);
        assert(s.to_multiset().count(x) > 0);
        assert(with_prefix(pool, prefix).contains(x));
        lemma_with_prefix_contains(pool, prefix, x);
    }
}

/// Two strings each at most the other are the same.
pub proof fn lemma_lex_antisymmetric(a: Seq<char>, b: Seq<char>)
    requires
        lex_le(a, b),
        lex_le(b, a),
    ensures
        a == b,
    decreases a.len(),
{
    if a.len() == 0 {
        assert(b.len() == 0);
        assert(a =~= b);
    } else {
        assert(b.len() > 0);
        assert(a[0] == b[0]);
        lemma_lex_antisymmetric(a.drop_first(), b.drop_first());
        assert(a =~= seq![a[0]] + a.drop_first());
        assert(b =~= seq![b[0]] + b.drop_first());
    }
}

/// The last string `dedup_seq` keeps is the last one.
pub proof fn lemma_dedup_last(s: Seq<Seq<char>>)
    requires
        s.len() > 0,
    ensures
        dedup_seq(s).len() > 0,
        dedup_seq(s).last() == s.last(),
    decreases s.len(),
{
    if s.len() >= 2 && s[s.len() - 1] == s[s.len() - 2] {
        lemma_dedup_last(s.drop_last());
    }
}

/// Removing the repeats of a sorted list keeps it sorted, with no two
/// neighbours alike.
pub proof fn lemma_dedup_sorted(s: Seq<Seq<char>>)
    requires
        strings_sorted(s),
    ensures
        strings_sorted(dedup_seq(s)),
        forall|i: int, j: int| 0 <= i && j == i + 1 && j < dedup_seq(s).len() ==> #[trigger] dedup_seq(s)[i] != #[trigger] dedup_seq(s)[j],
    decreases s.len(),
{
    if s.len() > 0 {
        let t = s.drop_last();
        assert(strings_sorted(t)) by {
            assert forall|i: int, j: int| 0 <= i < j < t.len() implies lex_le(t[i], t[j]) by {
                assert(t[i] == s[i] && t[j] == s[j]);
            }
        }
        lemma_dedup_sorted(t);
        let d = dedup_seq(t);
        if !(s.len() >= 2 && s[s.len() - 1] == s[s.len() - 2]) {
            let e = dedup_seq(s);
            assert(e == d.push(s.last()));
            assert forall|i: int, j: int| 0 <= i < j < e.len() implies lex_le(e[i], e[j]) by {
                if j == e.len() - 1 {
                    assert(d.contains(e[i])) by {
                        assert(d[i] == e[i]);
                    }
                    lemma_dedup_contains(t, e[i]);
                    let k = choose|k: int| 0 <= k < t.len() && t[k] == e[i];
                    assert(s[k] == e[i]);
                    assert(lex_le(s[k], s[s.len() - 1]));
                } else {
                    assert(e[i] == d[i] && e[j] == d[j]);
                }
            }
            if t.len() > 0 {
                lemma_dedup_last(t);
                assert(d.last() == s[s.len() - 2]);
            }
            assert forall|i: int, j: int| 0 <= i && j == i + 1 && j < e.len() implies #[trigger] e[i] != #[trigger] e[j] by {
                if j == e.len() - 1 {
                    assert(e[i] == d.last());
                } else {
                    assert(e[i] == d[i] && e[j] == d[j]);
                }
            }
        }
    }
}

/// Suggestions never repeat a word: the sorted matches without their
/// repeats hold each word once.
pub proof fn law_suggestions_distinct(s: Seq<Seq<char>>, out: Seq<Seq<char>>)
    requires
        strings_sorted(s),
        out == first_n(dedup_seq(s), 5),
    ensures
        forall|i: int, j: int| 0 <= i < j < out.len() ==> out[i] != out[j],
{
    lemma_dedup_sorted(s);
    let d = dedup_seq(s);
    assert forall|i: int, j: int| 0 <= i < j < out.len() implies out[i] != out[j] by {
        assert(out[i] == d[i] && out[j] == d[j]);
        if d[i] == d[j] {
            assert(lex_le(d[i], d[i + 1]));
            if i + 1 < j {
                assert(lex_le(d[i + 1], d[j]));
                lemma_lex_antisymmetric(d[i], d[i + 1]);
            }
            let k = i + 1;
            assert(d[i] != d[k]);
        }
    }
}

} // verus!
