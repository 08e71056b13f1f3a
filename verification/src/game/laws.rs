//! Properties of the game rules that span its operations.
use vstd::prelude::*;
use crate::game::model::{
    answer_applied, energies_capped, lemma_index_of, guess_applied, guess_is_correct, guess_points, has_player, index_of,
    mask_with_letter, noted_letter, notebooks_penalized, penalty_char, penalty_len, penalty_notebook,
    penalty_fresh_notebook, power_applied, power_notebook, power_refused, progress_after_answer,
    notebook_base, Player, Progress, PowerType, POWER_COST, table_view, table_insert, table_has, table_index, table_lookup,
    is_first_entry, voyance_notebook, revelation_notebook, is_initial_progress, positions_of, Difficulty,
    fresh_notebooks, last_length, combined_knowledge, lemma_combined_len, threat_of,
};
use crate::text::{ascii_upper, unicode_upper};

verus! {

broadcast use vstd::seq_lib::group_to_multiset_ensures;

/// Every uncovered letter of the mask is the word's letter at that place.
pub open spec fn truthful(mask: Seq<char>, word: Seq<char>) -> bool {
    forall|i: int| 0 <= i < mask.len() && mask[i] != '_' ==> i < word.len() && #[trigger] mask[i] == word[i]
}

/// Noting a letter lists it.
pub proof fn lemma_noted_lists(before: Seq<char>, after: Seq<char>, c: char)
    requires
        noted_letter(before, after, c),
    ensures
        after.contains(c),
{
    if !before.contains(c) {
        assert(before.push(c).contains(c)) by {
            assert(before.push(c)[before.len() as int] == c);
        }
        assert(after.to_multiset().count(c) > 0);
    }
}

/// An investigation is private: it changes the inquirer's record alone.
pub proof fn law_investigation_is_private(ps: Seq<Player>, qs: Seq<Player>, actor: u32, target: u32, letter: char, told: Seq<usize>,
    i: int)
    requires
        answer_applied(ps, qs, actor, target, letter, told),
        0 <= i < ps.len(),
        !has_player(ps, actor) || i != index_of(ps, actor),
    ensures
        qs[i] == ps[i],
{
}

/// A power is private: it changes its user's record alone.
pub proof fn law_power_is_private(ps: Seq<Player>, qs: Seq<Player>, actor: u32, target: u32, power: PowerType, i: int)
    requires
        power_applied(ps, qs, actor, target, power),
        0 <= i < ps.len(),
        !has_player(ps, actor) || i != index_of(ps, actor),
    ensures
        qs[i] == ps[i],
{
}

/// An answer tells the truth: an absent letter is listed as missed; a
/// present one is uncovered at each of its places when positions are shown,
/// and listed as found otherwise.
pub proof fn law_answer_is_truthful(p: Progress, q: Progress, secret: Seq<char>, letter: char, told: Seq<usize>)
    requires
        progress_after_answer(p, q, secret, letter, told),
    ensures
        !secret.contains(letter) ==> q.missed_letters@.contains(letter),
        secret.contains(letter) && !p.positions_known ==> q.found_letters@.contains(letter),
        p.positions_known ==> forall|i: int| 0 <= i < q.mask@.len() && i < secret.len() && secret[i] == letter ==> #[trigger] q.mask@[i] == letter,
{
    if !secret.contains(letter) {
        lemma_noted_lists(p.missed_letters@, q.missed_letters@, letter);
    } else if !p.positions_known {
        lemma_noted_lists(p.found_letters@, q.found_letters@, letter);
    }
}

/// A notebook whose uncovered letters are right stays right after an answer.
pub proof fn law_answer_keeps_mask_truthful(p: Progress, q: Progress, secret: Seq<char>, letter: char, told: Seq<usize>)
    requires
        progress_after_answer(p, q, secret, letter, told),
        truthful(p.mask@, secret),
    ensures
        truthful(q.mask@, secret),
{
    if p.positions_known {
        assert(q.mask@ == mask_with_letter(p.mask@, secret, letter));
    }
}

/// A correct guess eliminates the target and pays the guesser; a wrong one
/// eliminates nobody.
pub proof fn law_guess_outcome(ps: Seq<Player>, qs: Seq<Player>, actor: u32, target: u32, guessed: Seq<char>, buzz: bool, idx: u32)
    requires
        guess_applied(ps, qs, actor, target, guessed, buzz, idx),
        has_player(ps, target),
    ensures
        guess_is_correct(ps, target, guessed) ==> qs[index_of(ps, target)].is_eliminated,
        guess_is_correct(ps, target, guessed) && has_player(ps, actor) ==>
            qs[index_of(ps, actor)].score == ps[index_of(ps, actor)].score + guess_points(ps, target, buzz),
        !guess_is_correct(ps, target, guessed) ==> forall|i: int| 0 <= i < ps.len() ==> #[trigger] qs[i].is_eliminated == ps[i].is_eliminated,
{
    lemma_index_of(ps, target);
    let t = index_of(ps, target);
    assert(qs[t].is_eliminated == (ps[t].is_eliminated || (guess_is_correct(ps, target, guessed) && t == t)));
    if has_player(ps, actor) {
        lemma_index_of(ps, actor);
        let a = index_of(ps, actor);
        assert(qs[a].score == if guess_is_correct(ps, target, guessed) { ps[a].score + guess_points(ps, target, buzz) } else { ps[a].score as int });
    }
}

/// A failed buzz shows one letter of the buzzer's word to every other
/// player: each now holds a notebook on the buzzer that knows the length
/// and shows the letter at the drawn place (when the mask reaches it).
pub proof fn law_failed_buzz_reveals(ps: Seq<Player>, qs: Seq<Player>, actor: u32, target: u32, guessed: Seq<char>, idx: u32, i: int)
    requires
        guess_applied(ps, qs, actor, target, guessed, true, idx),
        has_player(ps, target),
        !guess_is_correct(ps, target, guessed),
        0 <= i < ps.len(),
        ps[i].id != actor,
    ensures
        qs[i].progress_on_opponents@.contains_key(actor),
        qs[i].progress_on_opponents@[actor].length_known,
        (idx as int) < qs[i].progress_on_opponents@[actor].mask@.len() ==>
            qs[i].progress_on_opponents@[actor].mask@[idx as int] == penalty_char(ps, actor, idx),
{
    let (p, q) = (ps[i], qs[i]);
    assert(notebooks_penalized(p, q, actor, penalty_len(ps, actor) as nat, idx as int, penalty_char(ps, actor, idx)));
    let pr = choose|pr: Progress| q.progress_on_opponents@ == #[trigger] p.progress_on_opponents@.insert(actor, pr)
        && if p.progress_on_opponents@.contains_key(actor) {
            penalty_notebook(p.progress_on_opponents@[actor], pr, penalty_len(ps, actor) as nat, idx as int, penalty_char(ps, actor, idx))
        } else {
            penalty_fresh_notebook(pr, penalty_len(ps, actor) as nat, idx as int, penalty_char(ps, actor, idx))
        };
    assert(q.progress_on_opponents@[actor] == pr);
}

/// Answers keep every energy at most 100.
pub proof fn law_answer_keeps_energy_cap(ps: Seq<Player>, qs: Seq<Player>, actor: u32, target: u32, letter: char, told: Seq<usize>)
    requires
        answer_applied(ps, qs, actor, target, letter, told),
        energies_capped(ps),
    ensures
        energies_capped(qs),
{
    assert forall|i: int| 0 <= i < qs.len() implies #[trigger] qs[i].energy <= 100 by {
        if has_player(ps, actor) && i == index_of(ps, actor) && qs != ps {
            assert(ps[i].energy <= 100);
        }
    }
}

/// Guesses keep every energy at most 100.
pub proof fn law_guess_keeps_energy_cap(ps: Seq<Player>, qs: Seq<Player>, actor: u32, target: u32, guessed: Seq<char>, buzz: bool, idx: u32)
    requires
        guess_applied(ps, qs, actor, target, guessed, buzz, idx),
        energies_capped(ps),
    ensures
        energies_capped(qs),
{
    assert forall|i: int| 0 <= i < qs.len() implies #[trigger] qs[i].energy <= 100 by {
        assert(ps[i].energy <= 100);
    }
}

/// Powers keep every energy at most 100 (they only spend it).
pub proof fn law_power_keeps_energy_cap(ps: Seq<Player>, qs: Seq<Player>, actor: u32, target: u32, power: PowerType)
    requires
        power_applied(ps, qs, actor, target, power),
        energies_capped(ps),
    ensures
        energies_capped(qs),
{
    assert forall|i: int| 0 <= i < qs.len() implies #[trigger] qs[i].energy <= 100 by {
        assert(ps[i].energy <= 100);
        if !power_refused(ps, actor) && has_player(ps, actor) && i == index_of(ps, actor) {
            if has_player(ps, target) {
                let t = index_of(ps, target);
                let len = ps[t].secret_word.length;
                let secret = crate::text::unicode_upper(ps[t].secret_word.content@);
                let (b, q) = choose|b: Progress, q: Progress| #[trigger] notebook_base(ps[i], target, len as nat, b)
                    && #[trigger] power_notebook(power, b, q, len as nat, secret)
                    && crate::game::model::player_after(ps[i], qs[i], target, Some(q), (ps[i].energy - POWER_COST) as u32,
                        ps[i].score, ps[i].turns_played, ps[i].correct_guesses);
            }
        }
    }
}


/// No letter has two entries in a positions table.
pub open spec fn table_unique(t: Seq<(char, Seq<usize>)>) -> bool {
    forall|i: int, j: int| 0 <= i < j < t.len() ==> t[i].0 != t[j].0
}

/// Recording the positions of a letter keeps each letter at most once in
/// the table, and the letter then reads back the positions recorded.
pub proof fn law_table_insert_unique(t: Seq<(char, Seq<usize>)>, c: char, p: Seq<usize>)
    requires
        table_unique(t),
    ensures
        table_unique(table_insert(t, c, p)),
        table_lookup(table_insert(t, c, p), c) == Some(p),
{
    let u = table_insert(t, c, p);
    if table_has(t, c) {
        let w = choose|i: int| 0 <= i < t.len() && t[i].0 == c;
        assert(is_first_entry(t, c, w)) by {
            assert forall|j: int| 0 <= j < w implies t[j].0 != c by {
                if t[j].0 == c {
                    assert(t[j].0 == t[w].0);
                }
            }
        }
        let k = choose|i: int| is_first_entry(t, c, i);
        assert(k == w) by {
            if k < w {
            } else if k > w {
            }
        }
        assert(table_index(t, c) == k);
        assert(is_first_entry(u, c, k));
        assert(table_has(u, c));
        assert(table_index(u, c) == k) by {
            let k2 = choose|i: int| is_first_entry(u, c, i);
            if k2 < k {
            } else if k2 > k {
            }
        }
    } else {
        assert(u[t.len() as int].0 == c);
        assert(table_has(u, c));
        assert(is_first_entry(u, c, t.len() as int));
        assert(table_index(u, c) == t.len() as int) by {
            let k2 = choose|i: int| is_first_entry(u, c, i);
            if k2 < t.len() {
                assert(t[k2].0 == c);
            }
        }
    }
}

/// A notebook's positions table keeps each letter at most once through an
/// answer to an inquiry, a Voyance, a Révélation and a revealed buzz
/// (fresh notebooks start with an empty table).
pub proof fn law_notebook_table_unique(b: Progress, q: Progress, secret: Seq<char>, letter: char, told: Seq<usize>, len: nat, idx: int)
    requires
        table_unique(table_view(b.found_letter_positions@)),
    ensures
        progress_after_answer(b, q, secret, letter, told) ==> table_unique(table_view(q.found_letter_positions@)),
        voyance_notebook(b, q, secret, letter) ==> table_unique(table_view(q.found_letter_positions@)),
        revelation_notebook(b, q, len) ==> table_unique(table_view(q.found_letter_positions@)),
        penalty_notebook(b, q, len, idx, letter) ==> table_unique(table_view(q.found_letter_positions@)),
        penalty_fresh_notebook(q, len, idx, letter) ==> table_unique(table_view(q.found_letter_positions@)),
        is_initial_progress(q, len, Difficulty::Normal) ==> table_unique(table_view(q.found_letter_positions@)),
{
    law_table_insert_unique(table_view(b.found_letter_positions@), letter, told);
    if secret.contains(letter) {
        law_table_insert_unique(table_view(b.found_letter_positions@), letter, positions_of(secret, letter));
    }
}

/// A fresh notebook knows the length of the word, and shows the places of
/// the letters found, exactly in Easy mode, where its mask is a `_` for
/// each letter; in Normal, Hard and Expert mode its mask reads `???` and
/// the length is unknown. It starts with no letter found or missed.
pub proof fn law_fresh_notebook(p: Progress, length: nat, d: Difficulty)
    requires
        is_initial_progress(p, length, d),
    ensures
        p.length_known <==> d == Difficulty::Easy,
        p.positions_known <==> d == Difficulty::Easy,
        d == Difficulty::Easy ==> p.mask@.len() == length && forall|i: int| 0 <= i < length ==> p.mask@[i] == '_',
        d != Difficulty::Easy ==> p.mask@ == "???"@,
        p.found_letters@.len() == 0,
        p.missed_letters@.len() == 0,
        p.found_letter_positions@.len() == 0,
{
}

/// At the start of a game, every notebook a player holds on an opponent
/// is fresh as the difficulty wants it (see `law_fresh_notebook`).
pub proof fn law_new_game_notebooks(m: Map<u32, Progress>, pairs: Seq<(u32, u32)>, self_id: u32, d: Difficulty, k: u32)
    requires
        fresh_notebooks(m, pairs, self_id, d),
        m.contains_key(k),
    ensures
        m[k].length_known <==> d == Difficulty::Easy,
        m[k].positions_known <==> d == Difficulty::Easy,
        d != Difficulty::Easy ==> m[k].mask@ == "???"@,
        d == Difficulty::Easy ==> forall|i: int| 0 <= i < m[k].mask@.len() ==> m[k].mask@[i] == '_',
{
    law_fresh_notebook(m[k], last_length(pairs, k), d);
}

/// The 1-based places of `c` in `w` are exactly those where `w` has `c`.
pub proof fn lemma_positions_of(w: Seq<char>, c: char)
    requires
        w.len() <= usize::MAX,
    ensures
        forall|k: usize| #[trigger] positions_of(w, c).contains(k) ==> 1 <= k <= w.len(),
        forall|i: int| 0 <= i < w.len() ==> (#[trigger] positions_of(w, c).contains((i + 1) as usize) <==> w[i] == c),
    decreases w.len(),
{
    if w.len() > 0 {
        let v = w.drop_last();
        lemma_positions_of(v, c);
        let p = positions_of(v, c);
        let n = w.len() as usize;
        if w.last() == c {
            let q = p.push(n);
            assert(positions_of(w, c) == q);
            assert forall|k: usize| #[trigger] positions_of(w, c).contains(k) implies 1 <= k <= w.len() by {
                let x = choose|x: int| 0 <= x < q.len() && q[x] == k;
                if x < p.len() {
                    assert(p.contains(k));
                }
            }
            assert forall|i: int| 0 <= i < w.len() implies (#[trigger] positions_of(w, c).contains((i + 1) as usize) <==> w[i] == c) by {
                if i < v.len() {
                    assert(w[i] == v[i]);
                    if q.contains((i + 1) as usize) {
                        let x = choose|x: int| 0 <= x < q.len() && q[x] == (i + 1) as usize;
                        if x < p.len() {
                            assert(p.contains((i + 1) as usize));
                        }
                    }
                    if p.contains((i + 1) as usize) {
                        let x = choose|x: int| 0 <= x < p.len() && p[x] == (i + 1) as usize;
                        assert(q[x] == (i + 1) as usize);
                    }
                } else {
                    assert(q[p.len() as int] == n);
                }
            }
        } else {
            assert(positions_of(w, c) == p);
            assert forall|i: int| 0 <= i < w.len() implies (#[trigger] positions_of(w, c).contains((i + 1) as usize) <==> w[i] == c) by {
                if i < v.len() {
                    assert(w[i] == v[i]);
                } else {
                    if p.contains((i + 1) as usize) {
                        assert(1 <= (i + 1) as usize <= v.len());
                    }
                }
            }
        }
    }
}

/// After a Voyance that finds its letter, a notebook whose length is known
/// (whether or not it showed positions before) shows the letter at each of
/// its places in the word; the other places of the mask stay as they were.
pub proof fn law_voyance_shows_found_letter(b: Progress, q: Progress, secret: Seq<char>, u: char)
    requires
        voyance_notebook(b, q, secret, u),
        secret.contains(u),
        b.length_known,
        secret.len() <= usize::MAX,
    ensures
        q.length_known,
        q.mask@.len() == b.mask@.len(),
        forall|i: int| 0 <= i < b.mask@.len() && i < secret.len() && secret[i] == u ==> q.mask@[i] == u,
        forall|i: int| 0 <= i < b.mask@.len() && i < secret.len() && secret[i] != u ==> q.mask@[i] == b.mask@[i],
{
    lemma_positions_of(secret, u);
    assert forall|i: int| 0 <= i < b.mask@.len() && i < secret.len() && secret[i] == u implies q.mask@[i] == u by {
        assert(positions_of(secret, u).contains((i + 1) as usize));
    }
    assert forall|i: int| 0 <= i < b.mask@.len() && i < secret.len() && secret[i] != u implies q.mask@[i] == b.mask@[i] by {
        assert(!positions_of(secret, u).contains((i + 1) as usize));
    }
}

/// The same, for the Voyance power on a letter `l` (read in upper case):
/// with the notebook's length known, the letter shows at its places.
pub proof fn law_voyance_power_shows_letter(b: Progress, q: Progress, len: nat, secret: Seq<char>, l: char)
    requires
        power_notebook(PowerType::Voyance(l), b, q, len, secret),
        secret.contains(ascii_upper(l)),
        b.length_known,
        secret.len() <= usize::MAX,
    ensures
        forall|i: int| 0 <= i < b.mask@.len() && i < secret.len() && secret[i] == ascii_upper(l) ==> q.mask@[i] == ascii_upper(l),
{
    law_voyance_shows_found_letter(b, q, secret, ascii_upper(l));
}

/// Player `o` is an opponent of `pid` whose notebook on `pid` knows the
/// length and has the letter at place `i` uncovered.
pub open spec fn uncovers(o: Player, pid: u32, i: int) -> bool {
    &&& o.id != pid
    &&& o.progress_on_opponents@.contains_key(pid)
    &&& o.progress_on_opponents@[pid].length_known
    &&& 0 <= i < o.progress_on_opponents@[pid].mask@.len()
    &&& o.progress_on_opponents@[pid].mask@[i] != '_'
}

/// The letter player `o`'s notebook on `pid` shows at place `i`.
pub open spec fn shown_at(o: Player, pid: u32, i: int) -> char {
    o.progress_on_opponents@[pid].mask@[i]
}

/// Combining the notebooks over `known`: a place some notebook uncovers
/// shows the letter of such a notebook; another place keeps `known`.
pub proof fn lemma_combined_places(ps: Seq<Player>, pid: u32, known: Seq<char>, i: int)
    requires
        0 <= i < known.len(),
    ensures
        (exists|j: int| 0 <= j < ps.len() && #[trigger] uncovers(ps[j], pid, i)) ==> exists|j: int| 0 <= j < ps.len()
            && #[trigger] uncovers(ps[j], pid, i) && combined_knowledge(ps, pid, known)[i] == shown_at(ps[j], pid, i),
        !(exists|j: int| 0 <= j < ps.len() && #[trigger] uncovers(ps[j], pid, i)) ==> combined_knowledge(ps, pid, known)[i] == known[i],
    decreases ps.len(),
{
    if ps.len() > 0 {
        let v = ps.drop_last();
        lemma_combined_places(v, pid, known, i);
        lemma_combined_len(v, pid, known);
        let o = ps.last();
        let last = (ps.len() - 1) as int;
        assert(ps[last] == o);
        if uncovers(o, pid, i) {
            assert(uncovers(ps[last], pid, i));
        } else {
            assert forall|j: int| 0 <= j < v.len() implies (#[trigger] uncovers(ps[j], pid, i) <==> uncovers(v[j], pid, i)) by {
                assert(ps[j] == v[j]);
            }
            if exists|j: int| 0 <= j < ps.len() && #[trigger] uncovers(ps[j], pid, i) {
                let j = choose|j: int| 0 <= j < ps.len() && #[trigger] uncovers(ps[j], pid, i);
                assert(j < v.len());
                assert(uncovers(v[j], pid, i));
                let j2 = choose|j2: int| 0 <= j2 < v.len() && #[trigger] uncovers(v[j2], pid, i)
                    && combined_knowledge(v, pid, known)[i] == shown_at(v[j2], pid, i);
                assert(ps[j2] == v[j2]);
                assert(uncovers(ps[j2], pid, i));
            } else {
                assert forall|j: int| 0 <= j < v.len() implies !#[trigger] uncovers(v[j], pid, i) by {
                    assert(ps[j] == v[j]);
                    assert(!uncovers(ps[j], pid, i));
                }
            }
        }
    }
}

/// The threat level combines what all of a player's opponents have
/// uncovered: it has a place for each letter of the word (read in upper
/// case); a place shows a letter exactly when some opponent's notebook
/// whose length is known has a letter uncovered there (whether or not that
/// notebook shows positions), and then it is the letter one of them shows.
pub proof fn law_threat_combines_notebooks(ps: Seq<Player>, pid: u32)
    requires
        has_player(ps, pid),
    ensures
        ({
            let r = threat_of(ps, pid);
            let n = unicode_upper(ps[index_of(ps, pid)].secret_word.content@).len();
            &&& r.len() == n
            &&& forall|i: int| 0 <= i < n && (exists|j: int| 0 <= j < ps.len() && #[trigger] uncovers(ps[j], pid, i)) ==> r[i] != '_'
                && exists|j: int| 0 <= j < ps.len() && #[trigger] uncovers(ps[j], pid, i) && r[i] == shown_at(ps[j], pid, i)
            &&& forall|i: int| 0 <= i < n && !(exists|j: int| 0 <= j < ps.len() && #[trigger] uncovers(ps[j], pid, i)) ==> r[i] == '_'
        }),
{
    let n = unicode_upper(ps[index_of(ps, pid)].secret_word.content@).len();
    let known = Seq::new(n, |_i: int| '_');
    lemma_combined_len(ps, pid, known);
    let r = threat_of(ps, pid);
    assert forall|i: int| #![trigger r[i]] 0 <= i < n && (exists|j: int| 0 <= j < ps.len() && #[trigger] uncovers(ps[j], pid, i))
        implies r[i] != '_' && exists|j: int| 0 <= j < ps.len() && #[trigger] uncovers(ps[j], pid, i) && r[i] == shown_at(ps[j], pid, i) by {
        lemma_combined_places(ps, pid, known, i);
    }
    assert forall|i: int| #![trigger r[i]] 0 <= i < n && !(exists|j: int| 0 <= j < ps.len() && #[trigger] uncovers(ps[j], pid, i))
        implies r[i] == '_' by {
        lemma_combined_places(ps, pid, known, i);
    }
}

} // verus!
