use vstd::prelude::*;

use crate::model::{Guess, HistoryItem, GUESS_LEN};

verus! {

/// Number of digits that `g` and `t` share, regardless of position.
/// Digits within a guess are distinct, so this is the size of the
/// intersection of the two digit sets.
pub open spec fn spec_common_count(g: Guess, t: Guess) -> int {
    (if g.has(t.d0) {
        1int
    } else {
        0int
    }) + (if g.has(t.d1) {
        1int
    } else {
        0int
    }) + (if g.has(t.d2) {
        1int
    } else {
        0int
    })
}

/// Number of slots at which `g` and `t` hold the same digit.
pub open spec fn spec_bull_count(g: Guess, t: Guess) -> int {
    (if g.d0 == t.d0 {
        1int
    } else {
        0int
    }) + (if g.d1 == t.d1 {
        1int
    } else {
        0int
    }) + (if g.d2 == t.d2 {
        1int
    } else {
        0int
    })
}

/// The forced-digit deduction (zero bulls, one cow implies that every digit
/// outside the tried guess is in the solution) is only sound when exactly
/// two alphabet digits lie outside a guess, so it is guarded to that case.
pub open spec fn forced_digit_rule_applies(h: HistoryItem, alphabet: u8) -> bool {
    alphabet == GUESS_LEN + 2 && h.feedback.bulls == 0 && h.feedback.cows == 1
}

/// A candidate `g` is kept by the round `h`: the conjunction of the six
/// filter rules, each a pure deduction from the round's feedback.
pub open spec fn survives(g: Guess, h: HistoryItem, alphabet: u8) -> bool {
    // the tried guess itself is never a candidate again
    &&& g != h.guess
    // zero bulls, one cow: every alphabet digit outside the tried guess is forced
    &&& (forced_digit_rule_applies(h, alphabet) ==> (forall|x: u8|
        x < alphabet && !h.guess.has(x) ==> g.has(x)))
    // zero bulls: no digit of the tried guess is right in its position
    &&& (h.feedback.bulls == 0 ==> (g.d0 != h.guess.d0 && g.d1 != h.guess.d1 && g.d2
        != h.guess.d2))
    // three cows: every digit of the tried guess is in the solution
    &&& (h.feedback.cows == 3 ==> (g.has(h.guess.d0) && g.has(h.guess.d1) && g.has(h.guess.d2)))
    // positive cows: the shared-digit count equals cows + bulls exactly
    &&& (h.feedback.cows > 0 ==> spec_common_count(g, h.guess) == h.feedback.cows
        + h.feedback.bulls)
    // positive bulls: positional matches are bounded by the bull count
    &&& (h.feedback.bulls > 0 ==> spec_bull_count(g, h.guess) <= h.feedback.bulls)
}

/// Counts the digits of `t` that occur anywhere in `g`.
pub fn common_count(g: &Guess, t: &Guess) -> (r: u8)
    ensures
        r as int == spec_common_count(*g, *t),
{
    let mut r: u8 = 0;
    if g.contains_digit(t.d0) {
        r = r + 1;
    }
    if g.contains_digit(t.d1) {
        r = r + 1;
    }
    if g.contains_digit(t.d2) {
        r = r + 1;
    }
    r
}

/// Counts the slots at which `g` and `t` agree.
pub fn bull_count(g: &Guess, t: &Guess) -> (r: u8)
    ensures
        r as int == spec_bull_count(*g, *t),
{
    let mut r: u8 = 0;
    if g.d0 == t.d0 {
        r = r + 1;
    }
    if g.d1 == t.d1 {
        r = r + 1;
    }
    if g.d2 == t.d2 {
        r = r + 1;
    }
    r
}

/// Decides whether `g` survives the round `h`.
pub fn survives_round(g: &Guess, h: &HistoryItem, alphabet: u8) -> (r: bool)
    requires
        h.feedback.wf(),
    ensures
        r == survives(*g, *h, alphabet),
{
    if *g == h.guess {
        return false;
    }
    if alphabet == GUESS_LEN + 2 && h.feedback.bulls == 0 && h.feedback.cows == 1 {
        let mut x: u8 = 0;
        while x < alphabet
            invariant
                x <= alphabet,
                forced_digit_rule_applies(*h, alphabet),
                forall|y: u8| y < x && !h.guess.has(y) ==> g.has(y),
            decreases alphabet - x,
        {
            if !h.guess.contains_digit(x) && !g.contains_digit(x) {
                proof {
                    assert(forced_digit_rule_applies(*h, alphabet));
                    assert(!(forall|y: u8| y < alphabet && !h.guess.has(y) ==> g.has(y))) by {
                        assert(x < alphabet && !h.guess.has(x) && !g.has(x));
                    }
                }
                return false;
            }
            x = x + 1;
        }
    }
    if h.feedback.bulls == 0 {
        if g.d0 == h.guess.d0 || g.d1 == h.guess.d1 || g.d2 == h.guess.d2 {
            return false;
        }
    }
    if h.feedback.cows == 3 {
        if !(g.contains_digit(h.guess.d0) && g.contains_digit(h.guess.d1) && g.contains_digit(
            h.guess.d2,
        )) {
            return false;
        }
    }
    if h.feedback.cows > 0 {
        let c = common_count(g, &h.guess);
        if (c as i32) != h.feedback.cows + h.feedback.bulls {
            return false;
        }
    }
    if h.feedback.bulls > 0 {
        let b = bull_count(g, &h.guess);
        if (b as i32) > h.feedback.bulls {
            return false;
        }
    }
    true
}

/// Lexicographic order on guesses, by digit tuple.
pub open spec fn lex_lt(a: Guess, b: Guess) -> bool {
    ||| a.d0 < b.d0
    ||| (a.d0 == b.d0 && a.d1 < b.d1)
    ||| (a.d0 == b.d0 && a.d1 == b.d1 && a.d2 < b.d2)
}

/// The sequence is strictly increasing in `lex_lt` (so it has no duplicates).
pub open spec fn strictly_sorted(s: Seq<Guess>) -> bool {
    forall|i: int, j: int| 0 <= i < j < s.len() ==> lex_lt(s[i], s[j])
}

/// The subsequence of `s` that survives the round `h`, in unchanged order.
pub open spec fn filter_round_seq(s: Seq<Guess>, h: HistoryItem, alphabet: u8) -> Seq<Guess>
    decreases s.len(),
{
    if s.len() == 0 {
        Seq::empty()
    } else {
        let rest = filter_round_seq(s.drop_last(), h, alphabet);
        if survives(s.last(), h, alphabet) {
            rest.push(s.last())
        } else {
            rest
        }
    }
}

/// A guess is in the filtered sequence exactly when it was in the input and
/// survives the round.
pub proof fn lemma_filter_round_membership(s: Seq<Guess>, h: HistoryItem, alphabet: u8)
    ensures
        forall|g: Guess| #[trigger]
            filter_round_seq(s, h, alphabet).contains(g) <==> (s.contains(g) && survives(
                g,
                h,
                alphabet,
            )),
    decreases s.len(),
{
    let out = filter_round_seq(s, h, alphabet);
    if s.len() == 0 {
        assert(forall|g: Guess| !(#[trigger] s.contains(g)));
        assert(forall|g: Guess| !(#[trigger] out.contains(g)));
    } else {
        let prefix = s.drop_last();
        let rest = filter_round_seq(prefix, h, alphabet);
        lemma_filter_round_membership(prefix, h, alphabet);
        assert forall|g: Guess| #[trigger] out.contains(g) implies (s.contains(g) && survives(
            g,
            h,
            alphabet,
        )) by {
            let i = choose|i: int| 0 <= i < out.len() && out[i] == g;
            if survives(s.last(), h, alphabet) && i == out.len() - 1 {
                assert(g == s.last());
                assert(s[s.len() - 1] == g);
            } else {
                assert(rest.contains(g));
                let j = choose|j: int| 0 <= j < prefix.len() && prefix[j] == g;
                assert(s[j] == g);
            }
        }
        assert forall|g: Guess| s.contains(g) && survives(g, h, alphabet) implies #[trigger] out
            .contains(g) by {
            let i = choose|i: int| 0 <= i < s.len() && s[i] == g;
            if i == s.len() - 1 {
                assert(out[out.len() - 1] == g);
            } else {
                assert(prefix[i] == g);
                assert(rest.contains(g));
                let j = choose|j: int| 0 <= j < rest.len() && rest[j] == g;
                assert(out[j] == g);
            }
        }
    }
}

/// Every element of the filtered sequence sits somewhere in the input, at or
/// beyond its own position (the filter is a subsequence map).
pub proof fn lemma_filter_round_sorted(s: Seq<Guess>, h: HistoryItem, alphabet: u8)
    requires
        strictly_sorted(s),
    ensures
        strictly_sorted(filter_round_seq(s, h, alphabet)),
    decreases s.len(),
{
    let out = filter_round_seq(s, h, alphabet);
    if s.len() > 0 {
        let prefix = s.drop_last();
        let rest = filter_round_seq(prefix, h, alphabet);
        assert(strictly_sorted(prefix)) by {
            assert(forall|i: int, j: int|
                0 <= i < j < prefix.len() ==> s[i] == prefix[i] && s[j] == prefix[j]);
        }
        lemma_filter_round_sorted(prefix, h, alphabet);
        lemma_filter_round_membership(prefix, h, alphabet);
        if survives(s.last(), h, alphabet) {
            assert forall|i: int, j: int| 0 <= i < j < out.len() implies lex_lt(out[i], out[j]) by {
                if j == out.len() - 1 {
                    assert(rest.contains(rest[i]));
                    assert(prefix.contains(rest[i]));
                    let k = choose|k: int| 0 <= k < prefix.len() && prefix[k] == rest[i];
                    assert(s[k] == rest[i]);
                    assert(lex_lt(s[k], s[s.len() - 1]));
                }
            }
        }
    }
}

/// Keeps exactly the guesses that survive the round `h`, in order.
pub fn filter_round(candidates: &Vec<Guess>, h: &HistoryItem, alphabet: u8) -> (r: Vec<Guess>)
    requires
        h.feedback.wf(),
    ensures
        r@ == filter_round_seq(candidates@, *h, alphabet),
{
    let mut r: Vec<Guess> = Vec::new();
    let mut i: usize = 0;
    while i < candidates.len()
        invariant
            i <= candidates@.len(),
            h.feedback.wf(),
            r@ == filter_round_seq(candidates@.take(i as int), *h, alphabet),
        decreases candidates@.len() - i,
    {
        let g = candidates[i];
        proof {
            assert(candidates@.take(i + 1int).drop_last() =~= candidates@.take(i as int));
            assert(candidates@.take(i + 1int).last() == candidates@[i as int]);
        }
        if survives_round(&g, h, alphabet) {
            r.push(g);
        }
        i = i + 1;
    }
    proof {
        assert(candidates@.take(candidates@.len() as int) =~= candidates@);
    }
    r
}

/// The digit tuple of `g` comes strictly before the position `(x, y, z)` of
/// the enumeration.
pub open spec fn before_position(g: Guess, x: u8, y: u8, z: int) -> bool {
    ||| g.d0 < x
    ||| (g.d0 == x && g.d1 < y)
    ||| (g.d0 == x && g.d1 == y && g.d2 < z)
}

/// Enumerates every legal guess over `0..alphabet`, in strictly increasing
/// lexicographic order; the three clauses pin the sequence uniquely.
pub fn generate_all(alphabet: u8) -> (r: Vec<Guess>)
    ensures
        forall|i: int| 0 <= i < r@.len() ==> (#[trigger] r@[i]).wf(alphabet),
        forall|g: Guess| g.wf(alphabet) ==> r@.contains(g),
        strictly_sorted(r@),
{
    let mut r: Vec<Guess> = Vec::new();
    let mut x: u8 = 0;
    while x < alphabet
        invariant
            x <= alphabet,
            forall|i: int|
                0 <= i < r@.len() ==> (#[trigger] r@[i]).wf(alphabet) && r@[i].d0 < x,
            forall|g: Guess| g.wf(alphabet) && g.d0 < x ==> r@.contains(g),
            strictly_sorted(r@),
        decreases alphabet - x,
    {
        let mut y: u8 = 0;
        while y < alphabet
            invariant
                x < alphabet,
                y <= alphabet,
                forall|i: int|
                    0 <= i < r@.len() ==> (#[trigger] r@[i]).wf(alphabet) && before_position(
                        r@[i],
                        x,
                        y,
                        0,
                    ),
                forall|g: Guess|
                    g.wf(alphabet) && before_position(g, x, y, 0) ==> r@.contains(g),
                strictly_sorted(r@),
            decreases alphabet - y,
        {
            let mut z: u8 = 0;
            while z < alphabet
                invariant
                    x < alphabet,
                    y < alphabet,
                    z <= alphabet,
                    forall|i: int|
                        0 <= i < r@.len() ==> (#[trigger] r@[i]).wf(alphabet) && before_position(
                            r@[i],
                            x,
                            y,
                            z as int,
                        ),
                    forall|g: Guess|
                        g.wf(alphabet) && before_position(g, x, y, z as int) ==> r@.contains(g),
                    strictly_sorted(r@),
                decreases alphabet - z,
            {
                if x != y && x != z && y != z {
                    let g0 = Guess { d0: x, d1: y, d2: z };
                    let ghost old_r = r@;
                    r.push(g0);
                    proof {
                        assert forall|g: Guess|
                            g.wf(alphabet) && before_position(g, x, y, z + 1) implies r@.contains(
                            g,
                        ) by {
                            if before_position(g, x, y, z as int) {
                                assert(old_r.contains(g));
                                let k = choose|k: int| 0 <= k < old_r.len() && old_r[k] == g;
                                assert(r@[k] == g);
                            } else {
                                assert(g == g0);
                                assert(r@[r@.len() - 1] == g);
                            }
                        }
                        assert forall|i: int, j: int| 0 <= i < j < r@.len() implies lex_lt(
                            r@[i],
                            r@[j],
                        ) by {
                            if j == r@.len() - 1 {
                                assert(before_position(old_r[i], x, y, z as int));
                            }
                        }
                    }
                } else {
                    proof {
                        assert forall|g: Guess|
                            g.wf(alphabet) && before_position(g, x, y, z + 1) implies r@.contains(
                            g,
                        ) by {
                            if !before_position(g, x, y, z as int) {
                                assert(g.d0 == x && g.d1 == y && g.d2 == z);
                            }
                        }
                    }
                }
                z = z + 1;
            }
            y = y + 1;
        }
        x = x + 1;
    }
    r
}

/// The guess `g` is consistent with every round on record.
pub open spec fn survives_all(g: Guess, history: Seq<HistoryItem>, alphabet: u8) -> bool {
    forall|i: int| 0 <= i < history.len() ==> survives(g, #[trigger] history[i], alphabet)
}

/// The candidate space after the whole history: the legal guesses that no
/// recorded round has ruled out.
pub open spec fn in_space(g: Guess, history: Seq<HistoryItem>, alphabet: u8) -> bool {
    g.wf(alphabet) && survives_all(g, history, alphabet)
}

/// Selects the next guess: the lexicographically least guess still in the
/// candidate space, or `None` when every guess has been ruled out.
pub fn guess_next_value(history: &Vec<HistoryItem>, alphabet: u8) -> (r: Option<Guess>)
    requires
        forall|i: int| 0 <= i < history@.len() ==> (#[trigger] history@[i]).feedback.wf(),
    ensures
        match r {
            Some(g) => in_space(g, history@, alphabet) && (forall|g2: Guess|
                in_space(g2, history@, alphabet) ==> !lex_lt(g2, g)),
            None => forall|g: Guess| !in_space(g, history@, alphabet),
        },
{
    let mut all = generate_all(alphabet);
    proof {
        assert forall|g: Guess| #[trigger]
            all@.contains(g) <==> in_space(g, history@.take(0), alphabet) by {
            if all@.contains(g) {
                let k = choose|k: int| 0 <= k < all@.len() && all@[k] == g;
            }
        }
    }
    let mut i: usize = 0;
    while i < history.len()
        invariant
            i <= history@.len(),
            forall|k: int| 0 <= k < history@.len() ==> (#[trigger] history@[k]).feedback.wf(),
            strictly_sorted(all@),
            forall|g: Guess| #[trigger]
                all@.contains(g) <==> in_space(g, history@.take(i as int), alphabet),
        decreases history@.len() - i,
    {
        let ghost prev = all@;
        let next = filter_round(&all, &history[i], alphabet);
        all = next;
        proof {
            lemma_filter_round_membership(prev, history@[i as int], alphabet);
            lemma_filter_round_sorted(prev, history@[i as int], alphabet);
            assert forall|g: Guess| #[trigger]
                all@.contains(g) <==> in_space(g, history@.take(i + 1int), alphabet) by {
                assert(all@.contains(g) <==> (prev.contains(g) && survives(
                    g,
                    history@[i as int],
                    alphabet,
                )));
                if in_space(g, history@.take(i + 1int), alphabet) {
                    assert forall|k: int|
                        0 <= k < history@.take(i as int).len() implies survives(
                        g,
                        #[trigger] history@.take(i as int)[k],
                        alphabet,
                    ) by {
                        assert(history@.take(i + 1int)[k] == history@.take(i as int)[k]);
                        assert(survives(g, history@.take(i + 1int)[k], alphabet));
                    }
                    assert(history@.take(i + 1int)[i as int] == history@[i as int]);
                    assert(survives(g, history@[i as int], alphabet));
                }
                if all@.contains(g) {
                    assert(in_space(g, history@.take(i as int), alphabet));
                    assert forall|k: int|
                        0 <= k < history@.take(i + 1int).len() implies survives(
                        g,
                        #[trigger] history@.take(i + 1int)[k],
                        alphabet,
                    ) by {
                        if k < i as int {
                            assert(history@.take(i as int)[k] == history@.take(i + 1int)[k]);
                            assert(survives(g, history@.take(i as int)[k], alphabet));
                        } else {
                            assert(history@.take(i + 1int)[k] == history@[i as int]);
                        }
                    }
                }
            }
        }
        i = i + 1;
    }
    proof {
        assert(history@.take(history@.len() as int) =~= history@);
    }
    if all.len() == 0 {
        proof {
            assert forall|g: Guess| !in_space(g, history@, alphabet) by {
                if in_space(g, history@, alphabet) {
                    assert(all@.contains(g));
                }
            }
        }
        None
    } else {
        let g = all[0];
        proof {
            assert(all@.contains(all@[0]));
            assert forall|g2: Guess| in_space(g2, history@, alphabet) implies !lex_lt(g2, g) by {
                assert(all@.contains(g2));
                let k = choose|k: int| 0 <= k < all@.len() && all@[k] == g2;
                if k > 0 {
                    assert(lex_lt(all@[0], all@[k]));
                }
            }
        }
        Some(g)
    }
}

} // verus!
