use bulls_n_cows::candidates::{filter_round, generate_all, guess_next_value};
use bulls_n_cows::model::{Feedback, Guess, HistoryItem};
use bulls_n_cows::session::{
    solve_with_replies, GameSession, GuessResponse, NextStep, OracleOutcome, RoundOutcome,
    SolveOutcome, SolverConfig,
};

fn guess(d0: u8, d1: u8, d2: u8) -> Guess {
    Guess::new(d0, d1, d2)
}

fn item(g: Guess, bulls: i32, cows: i32) -> HistoryItem {
    HistoryItem { guess: g, feedback: Feedback { bulls, cows } }
}

fn reply(bulls: i32, cows: i32, solved: bool, game_id: &str, guesses: i32) -> OracleOutcome {
    OracleOutcome::Reply(GuessResponse {
        cows,
        bulls,
        gameId: game_id.to_string(),
        guesses,
        solved,
    })
}

#[test]
fn test_guess_next_value() {
    let history: Vec<HistoryItem> = vec![item(guess(0, 1, 2), 0, 1)];
    let result = guess_next_value(&history, 5).unwrap();
    assert_ne!(result, guess(0, 1, 2));
    assert_eq!(result, guess(1, 3, 4));
}

#[test]
fn test_guess_all_cows() {
    let history: Vec<HistoryItem> = vec![item(guess(0, 1, 2), 0, 3)];
    let result = guess_next_value(&history, 5).unwrap();
    assert_ne!(result, guess(0, 1, 2));
    assert_eq!(result, guess(1, 2, 0));
}

#[test]
fn enumerates_sixty_ordered_candidates() {
    let all = generate_all(5);
    assert_eq!(all.len(), 60);
    assert_eq!(all[0], guess(0, 1, 2));
    for w in all.windows(2) {
        assert!((w[0].d0, w[0].d1, w[0].d2) < (w[1].d0, w[1].d1, w[1].d2));
    }
    for g in &all {
        assert!(g.d0 < 5 && g.d1 < 5 && g.d2 < 5);
        assert!(g.d0 != g.d1 && g.d0 != g.d2 && g.d1 != g.d2);
    }
}

#[test]
fn filter_never_grows_and_excludes_tried() {
    let all = generate_all(5);
    let tried = item(guess(0, 1, 2), 1, 1);
    let kept = filter_round(&all, &tried, 5);
    assert!(kept.len() <= all.len());
    assert!(!kept.contains(&guess(0, 1, 2)));
}

#[test]
fn zero_bulls_survivors_differ_at_every_position() {
    let all = generate_all(5);
    let tried = item(guess(0, 1, 2), 0, 0);
    let kept = filter_round(&all, &tried, 5);
    assert!(kept.len() > 0);
    for g in &kept {
        assert!(g.d0 != 0 && g.d1 != 1 && g.d2 != 2);
    }
}

#[test]
fn three_cows_survivors_use_exactly_the_tried_digits() {
    let all = generate_all(5);
    let tried = item(guess(0, 1, 2), 0, 3);
    let kept = filter_round(&all, &tried, 5);
    assert!(kept.len() > 0);
    for g in &kept {
        let digits = [g.d0, g.d1, g.d2];
        for d in [0u8, 1, 2] {
            assert!(digits.contains(&d));
        }
        for d in digits {
            assert!(d <= 2);
        }
    }
}

#[test]
fn solved_on_first_round() {
    let config = SolverConfig::new_default();
    let replies = vec![reply(3, 0, true, "g1", 1)];
    let run = solve_with_replies(config, &replies);
    match run.outcome {
        SolveOutcome::Solved(out) => {
            assert_eq!(out.solution, "012");
            assert_eq!(out.gameId, "g1");
            assert_eq!(out.guesses, 1);
            assert!(out.solved);
        }
        _ => panic!("expected a solved outcome"),
    }
    assert_eq!(run.session.history.len(), 1);
}

#[test]
fn transport_error_on_second_round_keeps_one_round() {
    let config = SolverConfig::new_default();
    let replies = vec![reply(0, 1, false, "g1", 1), OracleOutcome::Failure];
    let run = solve_with_replies(config, &replies);
    assert!(matches!(run.outcome, SolveOutcome::OracleTransportError));
    assert_eq!(run.session.history.len(), 1);
}

#[test]
fn exhausted_exactly_at_the_attempt_ceiling() {
    let config = SolverConfig::new_default();
    let mut replies = Vec::new();
    for k in 0..12 {
        replies.push(reply(2, 0, false, "g1", k + 1));
    }
    let run = solve_with_replies(config, &replies);
    assert!(matches!(run.outcome, SolveOutcome::AttemptsExhausted));
    assert_eq!(run.session.history.len(), 10);
    assert_eq!(run.session.attempts_remaining, 0);
}

#[test]
fn session_counts_down_round_by_round() {
    let config = SolverConfig::new_default();
    let mut session = GameSession::new(config);
    for round in 1..=10 {
        let g = match session.next_step() {
            NextStep::Submit(g) => g,
            _ => panic!("expected a submit before the ceiling"),
        };
        let resp = GuessResponse {
            cows: 0,
            bulls: 2,
            gameId: "g7".to_string(),
            guesses: round,
            solved: false,
        };
        let outcome = session.apply_response(g, &resp);
        if round < 10 {
            assert!(matches!(outcome, RoundOutcome::Continue));
        } else {
            assert!(matches!(outcome, RoundOutcome::Exhausted));
        }
    }
    assert!(matches!(session.next_step(), NextStep::OutOfAttempts));
    assert_eq!(session.game_id, "g7");
}

#[test]
fn impossible_counts_are_a_transport_error() {
    let config = SolverConfig::new_default();
    let replies = vec![reply(9, 9, false, "g1", 1)];
    let run = solve_with_replies(config, &replies);
    assert!(matches!(run.outcome, SolveOutcome::OracleTransportError));
    assert_eq!(run.session.history.len(), 0);
}

#[test]
fn inconsistent_feedback_empties_the_space() {
    let config = SolverConfig::new_default();
    let mut replies = Vec::new();
    for k in 0..10 {
        replies.push(reply(0, 0, false, "g1", k + 1));
    }
    let run = solve_with_replies(config, &replies);
    assert!(matches!(run.outcome, SolveOutcome::ExhaustedCandidates));
    assert_eq!(run.session.history.len(), 4);
}
