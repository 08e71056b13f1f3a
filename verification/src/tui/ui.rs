//! Text layout helpers for the screens.
use vstd::prelude::*;
use crate::game::model::{active_count, Player, Progress};
use crate::text::{ascii_upper, char_to_ascii_uppercase, chars_of, string_from_chars};

verus! {

/// What `scroll_text` shows: the text itself when it fits in `width`
/// characters, else a `width`-character window on the text followed by
/// three spaces, repeated endlessly, moved one character every three frames.
pub open spec fn scrolled(text: Seq<char>, width: nat, frame: nat) -> Seq<char> {
    if text.len() <= width {
        text
    } else {
        let full = text + "   "@;
        let offset = (frame / 3) % full.len();
        Seq::new(width, |i: int| full[(offset + i) % (full.len() as int)])
    }
}

/// The marquee repeats itself: shifting the frame by three frames per
/// character of the text and its three trailing spaces shows the same
/// characters. It always shows `min(n, width)` characters, and the text
/// itself when it fits.
pub proof fn law_scroll_periodic(text: Seq<char>, width: nat, frame: nat)
    ensures
        scrolled(text, width, frame + 3 * (text.len() + 3)) == scrolled(text, width, frame),
        scrolled(text, width, frame).len() == if text.len() <= width { text.len() } else { width },
        text.len() <= width ==> scrolled(text, width, frame) == text,
{
    let m: int = text.len() as int + 3;
    let f2: nat = frame + 3 * (text.len() + 3);
    assert(f2 / 3 == frame / 3 + m) by (nonlinear_arith)
        requires
            f2 == frame + 3 * m,
            m >= 3;
    vstd::arithmetic::div_mod::lemma_mod_add_multiples_vanish((frame / 3) as int, m);
    if text.len() > width {
        reveal_strlit("   ");
        let full = text + "   "@;
        assert(full.len() == m);
        assert((f2 / 3) % full.len() == (frame / 3) % full.len());
        assert(scrolled(text, width, f2) =~= scrolled(text, width, frame));
    }
}

/// A marquee for text longer than the space it is shown in.
pub fn scroll_text(text: &str, width: usize, frame: usize) -> (r: String)
    ensures
        r@ == scrolled(text@, width as nat, frame as nat),
{
    let t = chars_of(text);
    if t.len() <= width {
        return String::from_str(text);
    }
    let mut full = t;
    full.push(' ');
    full.push(' ');
    full.push(' ');
    proof {
        reveal_strlit("   ");
        assert(full@ =~= text@ + "   "@);
    }
    let n = full.len();
    let offset = (frame / 3) % n;
    let mut out: Vec<char> = Vec::new();
    let mut i: usize = 0;
    let mut k: usize = offset;
    proof {
        vstd::arithmetic::div_mod::lemma_small_mod(offset as nat, n as nat);
    }
    while i < width
        invariant
            full@ == text@ + "   "@,
            n == full@.len(),
            n > 0,
            offset == ((frame / 3) as int) % (n as int),
            i <= width,
            k < n,
            k == (offset + i) % (n as int),
            out@ == Seq::new(i as nat, |j: int| full@[(offset + j) % (n as int)]),
        decreases width - i,
    {
        out.push(full[k]);
        proof {
            assert((offset + i + 1) % (n as int) == if k + 1 < n { k + 1 } else { 0 }) by (nonlinear_arith)
                requires
                    n > 0,
                    k < n,
                    k == (offset + i) % (n as int),
                    offset >= 0,
                    i >= 0,
            {
                let q = (offset + i) / (n as int);
                assert(offset + i == q * n + k);
                assert(offset + i + 1 == q * n + k + 1);
                if k + 1 < n {
                } else {
                    assert(offset + i + 1 == (q + 1) * n);
                }
            }
        }
        k = if k + 1 < n { k + 1 } else { 0 };
        i = i + 1;
        assert(out@ =~= Seq::new(i as nat, |j: int| full@[(offset + j) % (n as int)]));
    }
    string_from_chars(&out)
}

/// The energy gauge: eight cells, the `i`-th full when `12 * i` is below
/// the energy.
pub open spec fn gauge(energy: u32) -> Seq<char> {
    Seq::new(8, |i: int| if 12 * i < energy { '█' } else { '░' })
}

/// The energy gauge (see `gauge`).
pub fn energy_bar(energy: u32) -> (r: String)
    ensures
        r@ == gauge(energy),
{
    let mut v: Vec<char> = Vec::new();
    let mut i: u32 = 0;
    while i < 8
        invariant
            i <= 8,
            v@ == Seq::new(i as nat, |k: int| if 12 * k < energy { '█' } else { '░' }),
        decreases 8 - i,
    {
        v.push(if 12 * i < energy { '█' } else { '░' });
        i = i + 1;
        assert(v@ =~= Seq::new(i as nat, |k: int| if 12 * k < energy { '█' } else { '░' }));
    }
    assert(v@ =~= gauge(energy));
    string_from_chars(&v)
}

/// The letter at `i` of a word is exposed to the holder of notebook `nb`:
/// it is listed as found, or shown at its place in a mask of known length
/// (letters compared in ASCII upper case).
pub open spec fn exposed_at(word: Seq<char>, nb: Progress, i: int) -> bool {
    let u = ascii_upper(word[i]);
    ||| exists|k: int| 0 <= k < nb.found_letters@.len() && ascii_upper(nb.found_letters@[k]) == u
    ||| nb.length_known && i < nb.mask@.len() && ascii_upper(nb.mask@[i]) == u
}

/// Which letters of `word` the holder of notebook `nb` has exposed.
pub fn exposed_letters(word: &str, nb: &Progress) -> (r: Vec<bool>)
    ensures
        r@.len() == word@.len(),
        forall|i: int| 0 <= i < r@.len() ==> r@[i] == exposed_at(word@, *nb, i),
{
    let w = chars_of(word);
    let mask = chars_of(nb.mask.as_str());
    let mut r: Vec<bool> = Vec::new();
    let mut i: usize = 0;
    while i < w.len()
        invariant
            w@ == word@,
            mask@ == nb.mask@,
            i <= w.len(),
            r@.len() == i,
            forall|j: int| 0 <= j < i ==> r@[j] == exposed_at(word@, *nb, j),
        decreases w.len() - i,
    {
        let u = char_to_ascii_uppercase(w[i]);
        let mut found = false;
        let mut k: usize = 0;
        while k < nb.found_letters.len()
            invariant
                k <= nb.found_letters.len(),
                found == exists|x: int| 0 <= x < k && ascii_upper(nb.found_letters@[x]) == u,
            decreases nb.found_letters.len() - k,
        {
            if char_to_ascii_uppercase(nb.found_letters[k]) == u {
                found = true;
            }
            k = k + 1;
        }
        let shown = nb.length_known && i < mask.len() && char_to_ascii_uppercase(mask[i]) == u;
        r.push(found || shown);
        i = i + 1;
    }
    r
}

/// Player `a` is ranked before player `b`: a higher score, or the same
/// score and an earlier seat.
pub open spec fn ranked_before(ps: Seq<Player>, a: int, b: int) -> bool {
    ps[a].score > ps[b].score || (ps[a].score == ps[b].score && a < b)
}

/// `r` lists the seats `0..n` once each.
pub open spec fn lists_seats(r: Seq<usize>, n: nat) -> bool {
    &&& r.len() == n
    &&& forall|t: int| 0 <= t < r.len() ==> r[t] < n
    &&& forall|t: int, u: int| 0 <= t < u < r.len() ==> r[t] != r[u]
}

/// The final ranking: the seats of the players, by score from the highest,
/// the earlier seat first on equal scores.
pub fn ranking(players: &Vec<Player>) -> (r: Vec<usize>)
    ensures
        lists_seats(r@, players@.len()),
        forall|t: int, u: int| 0 <= t < u < r@.len() ==> ranked_before(players@, r@[t] as int, r@[u] as int),
{
    let ghost ps = players@;
    let mut r: Vec<usize> = Vec::new();
    let mut i: usize = 0;
    while i < players.len()
        invariant
            ps == players@,
            i <= players.len(),
            r@.len() == i,
            forall|t: int| 0 <= t < r@.len() ==> r@[t] < i,
            forall|t: int, u: int| 0 <= t < u < r@.len() ==> r@[t] != r@[u],
            forall|t: int, u: int| 0 <= t < u < r@.len() ==> ranked_before(ps, r@[t] as int, r@[u] as int),
        decreases players.len() - i,
    {
        let score = players[i].score;
        let mut pos: usize = 0;
        while pos < r.len() && players[r[pos]].score >= score
            invariant
                ps == players@,
                i < players.len(),
                score == ps[i as int].score,
                pos <= r@.len(),
                forall|t: int| 0 <= t < r@.len() ==> r@[t] < i,
                forall|t: int| 0 <= t < pos ==> ps[r@[t] as int].score >= score,
            decreases r.len() - pos,
        {
            pos = pos + 1;
        }
        let ghost r0 = r@;
        proof {
            assert forall|t: int| pos <= t < r0.len() implies ps[r0[t] as int].score < score by {
                if t > pos {
                    assert(ranked_before(ps, r0[pos as int] as int, r0[t] as int));
                }
            }
        }
        r.insert(pos, i);
        assert(r@ == r0.insert(pos as int, i));
        i = i + 1;
    }
    r
}


/// The status shown for the player at seat `seat` when the game is over:
/// out of the game, the last one standing (the winner), or still in.
pub open spec fn status_label(ps: Seq<Player>, seat: int) -> Seq<char> {
    if ps[seat].is_eliminated {
        "ÉLIMINÉ"@
    } else if active_count(ps) == 1 {
        "VAINQUEUR"@
    } else {
        "ACTIF"@
    }
}

/// The number of players still in the game.
fn count_active(players: &Vec<Player>) -> (r: usize)
    ensures
        r == active_count(players@),
{
    let mut count: usize = 0;
    let mut i: usize = 0;
    while i < players.len()
        invariant
            i <= players.len(),
            count == active_count(players@.take(i as int)),
            count <= i,
        decreases players.len() - i,
    {
        assert(players@.take(i + 1).drop_last() =~= players@.take(i as int));
        if !players[i].is_eliminated {
            count = count + 1;
        }
        i = i + 1;
    }
    assert(players@.take(players.len() as int) =~= players@);
    count
}

/// The status column of the final ranking, for its `k`-th row.
pub fn status_of(players: &Vec<Player>, order: &Vec<usize>, k: usize) -> (r: String)
    requires
        k < order.len(),
        order@[k as int] < players.len(),
    ensures
        r@ == status_label(players@, order@[k as int] as int),
{
    let seat = order[k];
    if players[seat].is_eliminated {
        String::from_str("ÉLIMINÉ")
    } else if count_active(players) == 1 {
        String::from_str("VAINQUEUR")
    } else {
        String::from_str("ACTIF")
    }
}
} // verus!
