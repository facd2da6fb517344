use vstd::prelude::*;

use crate::candidates::{filter_round_seq, in_space, lemma_filter_round_membership, survives};
use crate::model::{Guess, HistoryItem};

verus! {

/// Monotonicity: folding one more round of feedback into a candidate
/// sequence never grows it, so the candidate space after a history extended
/// by one item is at most as large as before.
pub proof fn lemma_candidate_space_monotone(s: Seq<Guess>, h: HistoryItem, alphabet: u8)
    ensures
        filter_round_seq(s, h, alphabet).len() <= s.len(),
    decreases s.len(),
{
    if s.len() > 0 {
        lemma_candidate_space_monotone(s.drop_last(), h, alphabet);
    }
}

/// Soundness of the zero-bulls rule: every guess that survives a round whose
/// feedback reported no bull differs from the tried guess at all three
/// positions.
pub proof fn lemma_zero_bulls_sound(s: Seq<Guess>, h: HistoryItem, alphabet: u8, g: Guess)
    requires
        h.feedback.bulls == 0,
        filter_round_seq(s, h, alphabet).contains(g),
    ensures
        g.d0 != h.guess.d0,
        g.d1 != h.guess.d1,
        g.d2 != h.guess.d2,
{
    lemma_filter_round_membership(s, h, alphabet);
    assert(survives(g, h, alphabet));
}

/// Soundness of the three-cows rule: every guess that survives a round whose
/// feedback reported three cows uses exactly the digit set of the tried
/// guess.
pub proof fn lemma_three_cows_sound(s: Seq<Guess>, h: HistoryItem, alphabet: u8, g: Guess)
    requires
        h.feedback.cows == 3,
        h.guess.wf(alphabet),
        g.wf(alphabet),
        filter_round_seq(s, h, alphabet).contains(g),
    ensures
        forall|x: u8| g.has(x) <==> h.guess.has(x),
{
    lemma_filter_round_membership(s, h, alphabet);
    assert(survives(g, h, alphabet));
    // g holds the three distinct digits of the tried guess in its three
    // distinct slots, so its digit set cannot reach beyond them.
    assert forall|x: u8| g.has(x) <==> h.guess.has(x) by {
        assert(g.has(h.guess.d0) && g.has(h.guess.d1) && g.has(h.guess.d2));
    }
}

/// Self-exclusion: a guess that was tried in some round never reappears in
/// the candidate space of the history containing that round.
pub proof fn lemma_self_exclusion(g: Guess, history: Seq<HistoryItem>, alphabet: u8, i: int)
    requires
        0 <= i < history.len(),
        in_space(g, history, alphabet),
    ensures
        g != history[i].guess,
{
    assert(survives(g, history[i], alphabet));
}

} // verus!
