use soccer_game::arena::{
    goal_positions, ground_block, hit_walls, touch_goal, wall_layout, Block, CollisionEvent, Position,
};
use soccer_game::scoring::GoalEvent;

const GOAL: u64 = 10;
const OTHER_GOAL: u64 = 11;
const BALL: u64 = 20;
const WALL: u64 = 30;
const PLAYER: u64 = 40;

#[test]
fn contact_start_with_a_goal_scores_one() {
    let events = vec![CollisionEvent::Started(GOAL, BALL)];
    let found = touch_goal(&events, &vec![GOAL, OTHER_GOAL]);
    assert_eq!(found, vec![GoalEvent { score_amount: 1, goal: GOAL }]);
}

#[test]
fn goal_may_be_either_body() {
    let events = vec![CollisionEvent::Started(BALL, OTHER_GOAL)];
    let found = touch_goal(&events, &vec![GOAL, OTHER_GOAL]);
    assert_eq!(found, vec![GoalEvent { score_amount: 1, goal: OTHER_GOAL }]);
}

#[test]
fn a_pair_counts_once_per_frame() {
    let events = vec![
        CollisionEvent::Started(GOAL, BALL),
        CollisionEvent::Started(BALL, GOAL),
        CollisionEvent::Started(GOAL, BALL),
    ];
    let found = touch_goal(&events, &vec![GOAL]);
    assert_eq!(found.len(), 1);
}

#[test]
fn distinct_pairs_each_count() {
    let events = vec![
        CollisionEvent::Started(GOAL, BALL),
        CollisionEvent::Started(OTHER_GOAL, BALL),
        CollisionEvent::Started(GOAL, PLAYER),
    ];
    let found = touch_goal(&events, &vec![GOAL, OTHER_GOAL]);
    assert_eq!(
        found,
        vec![
            GoalEvent { score_amount: 1, goal: GOAL },
            GoalEvent { score_amount: 1, goal: OTHER_GOAL },
            GoalEvent { score_amount: 1, goal: GOAL },
        ]
    );
}

#[test]
fn contact_stop_scores_nothing() {
    let events = vec![CollisionEvent::Stopped(GOAL, BALL)];
    assert!(touch_goal(&events, &vec![GOAL]).is_empty());
}

#[test]
fn a_stop_does_not_hide_a_later_start() {
    let events = vec![CollisionEvent::Stopped(GOAL, BALL), CollisionEvent::Started(GOAL, BALL)];
    assert_eq!(touch_goal(&events, &vec![GOAL]).len(), 1);
}

#[test]
fn contacts_away_from_goals_score_nothing() {
    let events = vec![CollisionEvent::Started(BALL, WALL), CollisionEvent::Started(PLAYER, BALL)];
    assert!(touch_goal(&events, &vec![GOAL]).is_empty());
    assert!(touch_goal(&vec![], &vec![GOAL]).is_empty());
}

#[test]
fn ball_striking_a_wall_is_reported() {
    let events = vec![
        CollisionEvent::Started(BALL, WALL),
        CollisionEvent::Started(WALL, BALL),
        CollisionEvent::Stopped(BALL, WALL),
        CollisionEvent::Started(PLAYER, WALL),
        CollisionEvent::Started(BALL, PLAYER),
    ];
    assert_eq!(hit_walls(&events, &vec![BALL], &vec![WALL]), vec![BALL, BALL]);
}

#[test]
fn goal_zones_sit_at_the_ground_corners() {
    assert_eq!(
        goal_positions(),
        vec![
            Position { x: 400, y: 200, z: 1 },
            Position { x: -400, y: 200, z: 1 },
            Position { x: 400, y: -150, z: 1 },
            Position { x: -400, y: -150, z: 1 },
        ]
    );
}

#[test]
fn ground_spans_the_window_above_the_score_bar() {
    assert_eq!(
        ground_block(),
        Block { center: Position { x: 0, y: 25, z: 0 }, width: 800, height: 350 }
    );
}

#[test]
fn walls_enclose_the_ground() {
    let walls = wall_layout();
    assert_eq!(walls.len(), 4);
    assert_eq!(walls[0], Block { center: Position { x: 400, y: 0, z: 0 }, width: 2, height: 400 });
    assert_eq!(walls[1], Block { center: Position { x: -400, y: 0, z: 0 }, width: 2, height: 400 });
    assert_eq!(walls[2], Block { center: Position { x: 0, y: 200, z: 0 }, width: 800, height: 2 });
    assert_eq!(walls[3], Block { center: Position { x: 0, y: -150, z: 0 }, width: 800, height: 2 });
}
