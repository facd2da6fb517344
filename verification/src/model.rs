use vstd::prelude::*;

verus! {

/// Number of digit slots in every guess and in the hidden code.
pub const GUESS_LEN: u8 = 3;

/// Default digit alphabet size: digits are drawn from `0..DEFAULT_ALPHABET`.
pub const DEFAULT_ALPHABET: u8 = 5;

/// Default ceiling on oracle rounds in one session.
pub const DEFAULT_MAX_ATTEMPTS: u32 = 10;

/// An ordered triple of pairwise distinct digits.
#[derive(Clone, Copy, PartialEq, Eq, Structural, Debug)]
pub struct Guess {
    pub d0: u8,
    pub d1: u8,
    pub d2: u8,
}

impl Guess {
    /// A legal guess: three digits below `alphabet`, pairwise distinct.
    pub open spec fn wf(self, alphabet: u8) -> bool {
        &&& self.d0 < alphabet
        &&& self.d1 < alphabet
        &&& self.d2 < alphabet
        &&& self.d0 != self.d1
        &&& self.d0 != self.d2
        &&& self.d1 != self.d2
    }

    /// The digit `x` occurs somewhere in this guess.
    pub open spec fn has(self, x: u8) -> bool {
        self.d0 == x || self.d1 == x || self.d2 == x
    }

    pub fn new(d0: u8, d1: u8, d2: u8) -> (g: Guess)
        ensures
            g.d0 == d0,
            g.d1 == d1,
            g.d2 == d2,
    {
        Guess { d0, d1, d2 }
    }

    pub fn contains_digit(&self, x: u8) -> (r: bool)
        ensures
            r == self.has(x),
    {
        self.d0 == x || self.d1 == x || self.d2 == x
    }

    pub fn is_wf(&self, alphabet: u8) -> (r: bool)
        ensures
            r == self.wf(alphabet),
    {
        self.d0 < alphabet && self.d1 < alphabet && self.d2 < alphabet && self.d0 != self.d1
            && self.d0 != self.d2 && self.d1 != self.d2
    }
}

/// One round's oracle feedback: `bulls` digits right in value and position,
/// `cows` digits right in value only.
#[derive(Clone, Copy, PartialEq, Eq, Structural, Debug)]
pub struct Feedback {
    pub bulls: i32,
    pub cows: i32,
}

impl Feedback {
    /// Bulls and cows count disjoint subsets of the three slots.
    pub open spec fn wf(self) -> bool {
        &&& 0 <= self.bulls
        &&& 0 <= self.cows
        &&& self.bulls + self.cows <= 3
    }

    pub fn is_wf(&self) -> (r: bool)
        ensures
            r == self.wf(),
    {
        self.bulls >= 0 && self.cows >= 0 && (self.bulls as i64) + (self.cows as i64) <= 3
    }
}

/// The record of one completed round: the guess that was submitted and the
/// feedback the oracle returned for it.
#[derive(Clone, Copy, PartialEq, Eq, Structural, Debug)]
pub struct HistoryItem {
    pub guess: Guess,
    pub feedback: Feedback,
}

impl HistoryItem {
    pub open spec fn wf(self, alphabet: u8) -> bool {
        self.guess.wf(alphabet) && self.feedback.wf()
    }
}

} // verus!
