use soccer_game::arena::CollisionEvent;
use soccer_game::ball::{ball_start, despawn_after_goal, run_if_no_ball};
use soccer_game::game::GameState;
use soccer_game::arena::Position;
use soccer_game::scoring::{GoalEvent, ScoreBoard};

const GOALS: [u64; 4] = [1, 2, 3, 4];
const WALLS: [u64; 4] = [5, 6, 7, 8];

fn fresh(score: i32, high_score: i32) -> GameState {
    GameState::new(
        ScoreBoard { score, high_score },
        GOALS.to_vec(),
        WALLS.to_vec(),
        100,
    )
}

#[test]
fn a_ball_is_owed_only_when_there_is_none() {
    assert!(run_if_no_ball(&vec![]));
    assert!(!run_if_no_ball(&vec![7]));
}

#[test]
fn new_ball_starts_mid_ground() {
    assert_eq!(ball_start(), Position { x: 0, y: 25, z: 1 });
}

#[test]
fn a_goal_removes_every_ball() {
    let goal = GoalEvent { score_amount: 1, goal: 1 };
    assert_eq!(despawn_after_goal(&vec![7, 9], &vec![goal]), vec![7, 9]);
    assert!(despawn_after_goal(&vec![7], &vec![]).is_empty());
}

#[test]
fn first_frame_spawns_one_ball() {
    let mut game = fresh(0, 0);
    let report = game.frame(&vec![], 16_000);
    assert_eq!(report.spawned, Some(100));
    assert_eq!(game.balls, vec![100]);
    let report = game.frame(&vec![], 16_000);
    assert_eq!(report.spawned, None);
    assert_eq!(game.balls, vec![100]);
}

#[test]
fn goal_frame_leaves_no_ball_until_next_spawn() {
    let mut game = fresh(5, 5);
    game.frame(&vec![], 16_000);
    let report = game.frame(&vec![CollisionEvent::Started(100, 2)], 16_000);
    assert_eq!(report.goal_events, vec![GoalEvent { score_amount: 1, goal: 2 }]);
    assert_eq!(report.despawned, vec![100]);
    assert!(game.balls.is_empty());
    assert_eq!(game.board, ScoreBoard { score: 6, high_score: 6 });
    let report = game.frame(&vec![], 16_000);
    assert_eq!(report.spawned, Some(101));
    assert_eq!(game.balls, vec![101]);
}

#[test]
fn at_most_one_ball_over_many_frames() {
    let mut game = fresh(0, 0);
    for frame in 0..20u64 {
        let contacts = if frame % 3 == 2 {
            vec![CollisionEvent::Started(game.next_entity - 1, 3)]
        } else {
            vec![]
        };
        game.frame(&contacts, 16_000);
        assert!(game.balls.len() <= 1);
    }
}

#[test]
fn wall_hit_in_a_frame_is_reported() {
    let mut game = fresh(0, 0);
    let report = game.frame(&vec![CollisionEvent::Started(100, 6)], 16_000);
    assert_eq!(report.wall_hits, vec![100]);
    assert!(report.goal_events.is_empty());
    assert_eq!(game.balls, vec![100]);
}
