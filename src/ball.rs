//! The ball's lifecycle: one ball at a time, removed when a goal is scored.
use vstd::prelude::*;
use crate::arena::{Position, GROUND_MIDDLE};
use crate::scoring::{EntityId, GoalEvent};

verus! {

/// Radius of the ball, in pixels.
pub const BALL_RADIUS: i32 = 10;

/// A new ball is owed exactly when there is none.
pub fn run_if_no_ball(balls: &Vec<EntityId>) -> (r: bool)
    ensures
        r == (balls@.len() == 0),
{
    balls.len() == 0
}

/// Where a new ball is placed: the middle of the ground, above it.
pub fn ball_start() -> (r: Position)
    ensures
        r == (Position { x: 0, y: 25, z: 1 }),
{
    Position { x: 0, y: GROUND_MIDDLE, z: 1 }
}

/// The balls to remove this frame: all of them when a goal was scored, else
/// none.
pub fn despawn_after_goal(balls: &Vec<EntityId>, goal_events: &Vec<GoalEvent>) -> (r: Vec<EntityId>)
    ensures
        r@ == if goal_events@.len() > 0 {
            balls@
        } else {
            Seq::<EntityId>::empty()
        },
{
    if goal_events.len() > 0 {
        balls.clone()
    } else {
        Vec::new()
    }
}

} // verus!
