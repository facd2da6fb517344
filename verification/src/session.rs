use vstd::prelude::*;
use vstd::string::StringExecFns;

use crate::candidates::{guess_next_value, in_space, lex_lt};
use crate::model::{Feedback, Guess, HistoryItem, DEFAULT_ALPHABET, DEFAULT_MAX_ATTEMPTS};

verus! {

/// What the oracle returns for one submitted guess.
#[allow(non_snake_case)]
#[derive(Debug)]
pub struct GuessResponse {
    pub cows: i32,
    pub bulls: i32,
    pub gameId: String,
    pub guesses: i32,
    pub solved: bool,
}

/// The caller-facing record of a solved game.
#[allow(non_snake_case)]
#[derive(Debug)]
pub struct Output {
    pub gameId: String,
    pub solved: bool,
    pub guesses: i32,
    pub solution: String,
}

/// The decimal character of a single digit.
pub open spec fn spec_digit_char(d: u8) -> char {
    if d == 0 {
        '0'
    } else if d == 1 {
        '1'
    } else if d == 2 {
        '2'
    } else if d == 3 {
        '3'
    } else if d == 4 {
        '4'
    } else if d == 5 {
        '5'
    } else if d == 6 {
        '6'
    } else if d == 7 {
        '7'
    } else if d == 8 {
        '8'
    } else {
        '9'
    }
}

/// A guess rendered as the fixed 3-character digit string the oracle takes.
pub open spec fn spec_render(g: Guess) -> Seq<char> {
    seq![spec_digit_char(g.d0), spec_digit_char(g.d1), spec_digit_char(g.d2)]
}

fn digit_str(d: u8) -> (r: &'static str)
    requires
        d < 10,
    ensures
        r@.len() == 1,
        r@[0] == spec_digit_char(d),
{
    proof {
        reveal_strlit("0");
        reveal_strlit("1");
        reveal_strlit("2");
        reveal_strlit("3");
        reveal_strlit("4");
        reveal_strlit("5");
        reveal_strlit("6");
        reveal_strlit("7");
        reveal_strlit("8");
        reveal_strlit("9");
    }
    match d {
        0 => "0",
        1 => "1",
        2 => "2",
        3 => "3",
        4 => "4",
        5 => "5",
        6 => "6",
        7 => "7",
        8 => "8",
        _ => "9",
    }
}

/// Renders a guess digit by digit, most significant slot first.
pub fn render_guess(g: &Guess) -> (r: String)
    requires
        g.d0 < 10,
        g.d1 < 10,
        g.d2 < 10,
    ensures
        r@ == spec_render(*g),
{
    let mut s = String::new();
    s.append(digit_str(g.d0));
    s.append(digit_str(g.d1));
    s.append(digit_str(g.d2));
    proof {
        assert(s@ =~= spec_render(*g));
    }
    s
}

/// Solver configuration: digits are drawn from `0..alphabet`, and a session
/// submits at most `max_attempts` guesses. A guess travels to the oracle as a
/// fixed 3-character digit string, so every digit must render as one decimal
/// character: the alphabet is capped at 10. The forced-digit deduction needs
/// at least 3 digits to talk about.
#[derive(Clone, Copy, PartialEq, Eq, Structural, Debug)]
pub struct SolverConfig {
    pub alphabet: u8,
    pub max_attempts: u32,
}

impl SolverConfig {
    pub open spec fn wf(self) -> bool {
        3 <= self.alphabet <= 10
    }

    /// The configuration the reference game uses: five digits, ten rounds.
    pub fn new_default() -> (c: SolverConfig)
        ensures
            c.alphabet == DEFAULT_ALPHABET,
            c.max_attempts == DEFAULT_MAX_ATTEMPTS,
            c.wf(),
    {
        SolverConfig { alphabet: DEFAULT_ALPHABET, max_attempts: DEFAULT_MAX_ATTEMPTS }
    }
}

/// One solving session: the oracle-assigned game id, the rounds played so
/// far, and how many attempts are left. The candidate space is not stored:
/// it is a pure function of the history.
pub struct GameSession {
    pub config: SolverConfig,
    pub game_id: String,
    pub history: Vec<HistoryItem>,
    pub attempts_remaining: u32,
}

/// The move the policy decides on before an oracle call.
pub enum NextStep {
    /// Submit this guess to the oracle.
    Submit(Guess),
    /// The attempt ceiling is used up.
    OutOfAttempts,
    /// No legal guess is consistent with the history any more.
    NoCandidates,
}

/// What one completed round leads to.
pub enum RoundOutcome {
    /// The oracle confirmed the guess: the session is over.
    Solved(Output),
    /// Keep guessing.
    Continue,
    /// The attempt ceiling was reached without a solution.
    Exhausted,
    /// The response's counts cannot come from comparing two 3-digit codes.
    MalformedFeedback,
}

impl GameSession {
    pub open spec fn wf(self) -> bool {
        &&& self.config.wf()
        &&& forall|i: int|
            0 <= i < self.history@.len() ==> (#[trigger] self.history@[i]).wf(
                self.config.alphabet,
            )
    }

    pub fn new(config: SolverConfig) -> (s: GameSession)
        requires
            config.wf(),
        ensures
            s.wf(),
            s.config == config,
            s.game_id@.len() == 0,
            s.history@.len() == 0,
            s.attempts_remaining == config.max_attempts,
    {
        GameSession {
            config,
            game_id: String::new(),
            history: Vec::new(),
            attempts_remaining: config.max_attempts,
        }
    }

    /// Decides the next move: the lexicographically least candidate still
    /// consistent with the whole history, exhaustion when the ceiling is
    /// reached, or the empty-space failure.
    pub fn next_step(&self) -> (r: NextStep)
        requires
            self.wf(),
        ensures
            match r {
                NextStep::Submit(g) => self.attempts_remaining > 0 && in_space(
                    g,
                    self.history@,
                    self.config.alphabet,
                ) && (forall|g2: Guess|
                    in_space(g2, self.history@, self.config.alphabet) ==> !lex_lt(g2, g)),
                NextStep::OutOfAttempts => self.attempts_remaining == 0,
                NextStep::NoCandidates => self.attempts_remaining > 0 && (forall|g: Guess|
                    !in_space(g, self.history@, self.config.alphabet)),
            },
    {
        if self.attempts_remaining == 0 {
            return NextStep::OutOfAttempts;
        }
        match guess_next_value(&self.history, self.config.alphabet) {
            Some(g) => NextStep::Submit(g),
            None => NextStep::NoCandidates,
        }
    }

    /// Folds one oracle response into the session: records the round, adopts
    /// the oracle's game id, decrements the attempt counter on an unsolved
    /// round, and decides whether the session is over. Counts that cannot
    /// come from a real comparison are rejected without touching the state.
    pub fn apply_response(&mut self, guess: Guess, resp: &GuessResponse) -> (r: RoundOutcome)
        requires
            old(self).wf(),
            old(self).attempts_remaining > 0,
            guess.wf(old(self).config.alphabet),
        ensures
            final(self).wf(),
            final(self).config == old(self).config,
            match r {
                RoundOutcome::MalformedFeedback => *final(self) == *old(self) && !(Feedback {
                    bulls: resp.bulls,
                    cows: resp.cows,
                }).wf(),
                RoundOutcome::Solved(out) => {
                    &&& resp.solved
                    &&& (Feedback { bulls: resp.bulls, cows: resp.cows }).wf()
                    &&& final(self).history@ == old(self).history@.push(
                        HistoryItem {
                            guess,
                            feedback: Feedback { bulls: resp.bulls, cows: resp.cows },
                        },
                    )
                    &&& final(self).game_id@ == resp.gameId@
                    &&& final(self).attempts_remaining == old(self).attempts_remaining
                    &&& out.gameId@ == resp.gameId@
                    &&& out.solved == true
                    &&& out.guesses == resp.guesses
                    &&& out.solution@ == spec_render(guess)
                },
                RoundOutcome::Continue => {
                    &&& !resp.solved
                    &&& (Feedback { bulls: resp.bulls, cows: resp.cows }).wf()
                    &&& final(self).history@ == old(self).history@.push(
                        HistoryItem {
                            guess,
                            feedback: Feedback { bulls: resp.bulls, cows: resp.cows },
                        },
                    )
                    &&& final(self).game_id@ == resp.gameId@
                    &&& final(self).attempts_remaining == old(self).attempts_remaining - 1
                    &&& final(self).attempts_remaining > 0
                },
                RoundOutcome::Exhausted => {
                    &&& !resp.solved
                    &&& (Feedback { bulls: resp.bulls, cows: resp.cows }).wf()
                    &&& final(self).history@ == old(self).history@.push(
                        HistoryItem {
                            guess,
                            feedback: Feedback { bulls: resp.bulls, cows: resp.cows },
                        },
                    )
                    &&& final(self).game_id@ == resp.gameId@
                    &&& final(self).attempts_remaining == 0
                    &&& old(self).attempts_remaining == 1
                },
            },
    {
        let fb = Feedback { bulls: resp.bulls, cows: resp.cows };
        if !fb.is_wf() {
            return RoundOutcome::MalformedFeedback;
        }
        self.game_id = resp.gameId.clone();
        self.history.push(HistoryItem { guess, feedback: fb });
        if resp.solved {
            RoundOutcome::Solved(
                Output {
                    gameId: resp.gameId.clone(),
                    solved: true,
                    guesses: resp.guesses,
                    solution: render_guess(&guess),
                },
            )
        } else {
            self.attempts_remaining = self.attempts_remaining - 1;
            if self.attempts_remaining == 0 {
                RoundOutcome::Exhausted
            } else {
                RoundOutcome::Continue
            }
        }
    }
}

/// One oracle interaction as the transport observed it: a reply, or a
/// network-level failure.
pub enum OracleOutcome {
    Reply(GuessResponse),
    Failure,
}

/// A terminal session result.
pub enum SolveOutcome {
    /// The oracle confirmed a guess.
    Solved(Output),
    /// The attempt ceiling was reached with no solution.
    AttemptsExhausted,
    /// The candidate space emptied: the recorded feedback is inconsistent.
    ExhaustedCandidates,
    /// The oracle failed, stopped answering, or answered with impossible
    /// counts.
    OracleTransportError,
}

/// A finished run: its terminal outcome and the session as it ended.
pub struct SolveRun {
    pub outcome: SolveOutcome,
    pub session: GameSession,
}

/// `g` is the guess the policy picks after `history`: the lexicographically
/// least guess still in the candidate space.
pub open spec fn chosen_guess(g: Guess, history: Seq<HistoryItem>, alphabet: u8) -> bool {
    &&& in_space(g, history, alphabet)
    &&& forall|g2: Guess| in_space(g2, history, alphabet) ==> !lex_lt(g2, g)
}

/// The round `k` of the run is recorded faithfully: its guess is the one the
/// policy picks after the earlier rounds, and its feedback is the oracle's.
pub open spec fn round_recorded(
    history: Seq<HistoryItem>,
    replies: Seq<OracleOutcome>,
    alphabet: u8,
    k: int,
) -> bool {
    &&& chosen_guess(history[k].guess, history.take(k), alphabet)
    &&& k < replies.len()
    &&& (replies[k] matches OracleOutcome::Reply(resp) && resp.bulls == history[k].feedback.bulls
        && resp.cows == history[k].feedback.cows)
}

/// Drives one whole session against a pre-recorded sequence of oracle
/// outcomes: round `k` consumes `replies[k]`; a missing outcome counts as a
/// transport failure. The loop always terminates, and never runs past the
/// attempt ceiling.
pub fn solve_with_replies(config: SolverConfig, replies: &Vec<OracleOutcome>) -> (r: SolveRun)
    requires
        config.wf(),
    ensures
        r.session.wf(),
        r.session.config == config,
        r.session.history@.len() <= config.max_attempts,
        forall|k: int|
            0 <= k < r.session.history@.len() ==> round_recorded(
                r.session.history@,
                replies@,
                config.alphabet,
                k,
            ),
        forall|k: int|
            0 <= k < r.session.history@.len() - 1 ==> ((#[trigger] replies@[k]) matches OracleOutcome::Reply(
                resp,
            ) && !resp.solved),
        match r.outcome {
            SolveOutcome::Solved(out) => {
                let n = r.session.history@.len() as int;
                &&& n > 0
                &&& (replies@[n - 1] matches OracleOutcome::Reply(resp) && resp.solved
                    && out.gameId@ == resp.gameId@ && out.guesses == resp.guesses)
                &&& out.solved == true
                &&& out.solution@ == spec_render(r.session.history@[n - 1].guess)
            },
            SolveOutcome::AttemptsExhausted => {
                &&& r.session.history@.len() == config.max_attempts
                &&& forall|k: int|
                    0 <= k < r.session.history@.len() ==> ((#[trigger] replies@[k]) matches
                        OracleOutcome::Reply(resp) && !resp.solved)
            },
            SolveOutcome::ExhaustedCandidates => forall|g: Guess|
                !in_space(g, r.session.history@, config.alphabet),
            SolveOutcome::OracleTransportError => {
                let n = r.session.history@.len() as int;
                ||| replies@.len() <= n
                ||| replies@[n] matches OracleOutcome::Failure
                ||| (replies@[n] matches OracleOutcome::Reply(resp) && !(Feedback {
                    bulls: resp.bulls,
                    cows: resp.cows,
                }).wf())
            },
        },
{
    let mut session = GameSession::new(config);
    let mut i: usize = 0;
    loop
        invariant
            config.wf(),
            session.wf(),
            session.config == config,
            i == session.history@.len(),
            i <= config.max_attempts,
            session.attempts_remaining == config.max_attempts - i,
            forall|k: int|
                0 <= k < i ==> round_recorded(session.history@, replies@, config.alphabet, k),
            forall|k: int|
                0 <= k < i ==> ((#[trigger] replies@[k]) matches OracleOutcome::Reply(resp)
                    && !resp.solved),
        decreases config.max_attempts - i,
    {
        let step = session.next_step();
        let g = match step {
            NextStep::OutOfAttempts => {
                return SolveRun { outcome: SolveOutcome::AttemptsExhausted, session };
            },
            NextStep::NoCandidates => {
                return SolveRun { outcome: SolveOutcome::ExhaustedCandidates, session };
            },
            NextStep::Submit(g) => g,
        };
        if i >= replies.len() {
            return SolveRun { outcome: SolveOutcome::OracleTransportError, session };
        }
        let resp = match &replies[i] {
            OracleOutcome::Failure => {
                return SolveRun { outcome: SolveOutcome::OracleTransportError, session };
            },
            OracleOutcome::Reply(resp) => resp,
        };
        let ghost old_history = session.history@;
        let outcome = session.apply_response(g, resp);
        proof {
            if !(outcome matches RoundOutcome::MalformedFeedback) {
                assert(session.history@.take(i as int) =~= old_history);
                assert forall|k: int| 0 <= k < i + 1 implies round_recorded(
                    session.history@,
                    replies@,
                    config.alphabet,
                    k,
                ) by {
                    if k < i {
                        assert(round_recorded(old_history, replies@, config.alphabet, k));
                        assert(session.history@.take(k) =~= old_history.take(k));
                        assert(session.history@[k] == old_history[k]);
                    } else {
                        assert(session.history@.take(k) =~= old_history);
                        assert(session.history@[k].guess == g);
                    }
                }
            }
        }
        match outcome {
            RoundOutcome::MalformedFeedback => {
                return SolveRun { outcome: SolveOutcome::OracleTransportError, session };
            },
            RoundOutcome::Solved(out) => {
                return SolveRun { outcome: SolveOutcome::Solved(out), session };
            },
            RoundOutcome::Exhausted => {
                return SolveRun { outcome: SolveOutcome::AttemptsExhausted, session };
            },
            RoundOutcome::Continue => {
                i = i + 1;
            },
        }
    }
}

} // verus!
