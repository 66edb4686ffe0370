use soccer_game::scoring::{GoalEvent, ScoreBoard};

fn goal(amount: i32) -> GoalEvent {
    GoalEvent { score_amount: amount, goal: 3 }
}

#[test]
fn score_is_the_sum_of_the_deltas() {
    let mut board = ScoreBoard { score: 0, high_score: 0 };
    board.score_goal(&vec![goal(1), goal(2), goal(-1), goal(4)]);
    assert_eq!(board.score, 6);
    assert_eq!(board.high_score, 0);
}

#[test]
fn score_starts_from_the_stored_value() {
    let mut board = ScoreBoard::from_stored(Some(10), Some(12));
    board.score_goal(&vec![goal(1), goal(1)]);
    assert_eq!(board.score, 12);
}

#[test]
fn missing_counters_read_as_zero() {
    let board = ScoreBoard::from_stored(None, None);
    assert_eq!(board, ScoreBoard { score: 0, high_score: 0 });
    let board = ScoreBoard::from_stored(Some(4), None);
    assert_eq!(board, ScoreBoard { score: 4, high_score: 0 });
}

#[test]
fn scoring_in_batches_matches_scoring_at_once() {
    let mut split = ScoreBoard { score: 2, high_score: 0 };
    split.score_goal(&vec![goal(1), goal(3)]);
    split.score_goal(&vec![goal(5)]);
    let mut whole = ScoreBoard { score: 2, high_score: 0 };
    whole.score_goal(&vec![goal(1), goal(3), goal(5)]);
    assert_eq!(split.score, whole.score);
    assert_eq!(whole.score, 11);
}

#[test]
fn no_goal_events_leave_the_score() {
    let mut board = ScoreBoard { score: 7, high_score: 9 };
    board.score_goal(&vec![]);
    assert_eq!(board, ScoreBoard { score: 7, high_score: 9 });
}

#[test]
fn high_score_follows_a_higher_score() {
    let mut board = ScoreBoard { score: 8, high_score: 3 };
    board.update_high_score();
    assert_eq!(board, ScoreBoard { score: 8, high_score: 8 });
}

#[test]
fn high_score_stays_above_a_lower_score() {
    let mut board = ScoreBoard { score: 2, high_score: 3 };
    board.update_high_score();
    assert_eq!(board, ScoreBoard { score: 2, high_score: 3 });
}

#[test]
fn high_score_never_falls_over_frames() {
    let mut board = ScoreBoard { score: 0, high_score: 0 };
    let frames = vec![vec![goal(2)], vec![goal(-5)], vec![], vec![goal(1), goal(1)], vec![goal(4)]];
    let mut last_high = board.high_score;
    for events in frames.iter() {
        board.frame(events);
        assert!(board.high_score >= last_high);
        assert!(board.high_score >= board.score);
        last_high = board.high_score;
    }
    assert_eq!(board.score, 3);
    assert_eq!(board.high_score, 3);
}

#[test]
fn exit_resets_score_and_keeps_high_score() {
    let mut board = ScoreBoard { score: 6, high_score: 9 };
    board.clear_score(1);
    assert_eq!(board, ScoreBoard { score: 0, high_score: 9 });
}

#[test]
fn no_exit_keeps_score() {
    let mut board = ScoreBoard { score: 6, high_score: 9 };
    board.clear_score(0);
    assert_eq!(board, ScoreBoard { score: 6, high_score: 9 });
}

#[test]
fn one_goal_from_five_raises_both_to_six() {
    let mut board = ScoreBoard::from_stored(Some(5), Some(5));
    board.score_goal(&vec![GoalEvent { score_amount: 1, goal: 11 }]);
    assert_eq!(board.score, 6);
    assert_eq!(board.high_score, 5);
    board.update_high_score();
    assert_eq!(board.high_score, 6);
}
