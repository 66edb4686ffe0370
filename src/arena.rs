//! The arena: goal zones and walls, and what their contacts mean.
use vstd::prelude::*;
use crate::scoring::{EntityId, GoalEvent};

verus! {

/// What a goal is worth.
pub const GOAL_SCORE: i32 = 1;

/// A contact notice from the physics layer between two bodies.
#[derive(Clone, Copy, Debug, PartialEq, Eq, Structural)]
pub enum CollisionEvent {
    Started(EntityId, EntityId),
    Stopped(EntityId, EntityId),
}

/// Some notice in `events` starts a contact between `a` and `b`, either way round.
pub open spec fn started_in(events: Seq<CollisionEvent>, a: EntityId, b: EntityId) -> bool {
    events.contains(CollisionEvent::Started(a, b)) || events.contains(CollisionEvent::Started(b, a))
}

/// The goal that a contact between `a` and `b` strikes: `a` if it is a goal,
/// else `b` if it is one.
pub open spec fn struck_goal(goals: Seq<EntityId>, a: EntityId, b: EntityId) -> Option<EntityId> {
    if goals.contains(a) {
        Some(a)
    } else if goals.contains(b) {
        Some(b)
    } else {
        None
    }
}

/// The goal events of one frame: one for each contact start that touches a
/// goal, in order, where the same pair of bodies has not started a contact
/// earlier in the frame.
pub open spec fn detected_goals(events: Seq<CollisionEvent>, goals: Seq<EntityId>) -> Seq<GoalEvent>
    decreases events.len(),
{
    if events.len() == 0 {
        Seq::empty()
    } else {
        let earlier = events.drop_last();
        let found = detected_goals(earlier, goals);
        match events.last() {
            CollisionEvent::Started(a, b) => if !started_in(earlier, a, b) && struck_goal(
                goals,
                a,
                b,
            ) is Some {
                found.push(GoalEvent { score_amount: GOAL_SCORE, goal: struck_goal(goals, a, b)->0 })
            } else {
                found
            },
            CollisionEvent::Stopped(_, _) => found,
        }
    }
}

/// Whether `ids` holds `x`.
pub fn holds(ids: &Vec<EntityId>, x: EntityId) -> (r: bool)
    ensures
        r == ids@.contains(x),
{
    let mut i: usize = 0;
    while i < ids.len()
        invariant
            i <= ids.len(),
            forall|j: int| 0 <= j < i ==> ids@[j] != x,
        decreases ids.len() - i,
    {
        if ids[i] == x {
            return true;
        }
        i = i + 1;
    }
    false
}

/// Whether one of the first `n` notices starts a contact between `a` and `b`.
fn started_among(events: &Vec<CollisionEvent>, n: usize, a: EntityId, b: EntityId) -> (r: bool)
    requires
        n <= events.len(),
    ensures
        r == started_in(events@.take(n as int), a, b),
{
    let ghost prefix = events@.take(n as int);
    let mut i: usize = 0;
    while i < n
        invariant
            i <= n <= events.len(),
            prefix == events@.take(n as int),
            forall|j: int|
                0 <= j < i ==> events@[j] != CollisionEvent::Started(a, b) && events@[j]
                    != CollisionEvent::Started(b, a),
        decreases n - i,
    {
        let e = events[i];
        if e == CollisionEvent::Started(a, b) || e == CollisionEvent::Started(b, a) {
            proof {
                assert(prefix[i as int] == e);
            }
            return true;
        }
        i = i + 1;
    }
    proof {
        assert forall|j: int| 0 <= j < prefix.len() implies prefix[j] != CollisionEvent::Started(
            a,
            b,
        ) && prefix[j] != CollisionEvent::Started(b, a) by {
            assert(prefix[j] == events@[j]);
        }
    }
    false
}

/// Turns the frame's contact notices into goal events: one per contact start
/// that touches a goal, counting a pair of bodies once per frame.
pub fn touch_goal(events: &Vec<CollisionEvent>, goals: &Vec<EntityId>) -> (r: Vec<GoalEvent>)
    ensures
        r@ == detected_goals(events@, goals@),
{
    let mut found: Vec<GoalEvent> = Vec::new();
    let mut i: usize = 0;
    while i < events.len()
        invariant
            i <= events.len(),
            found@ == detected_goals(events@.take(i as int), goals@),
        decreases events.len() - i,
    {
        proof {
            assert(events@.take(i as int + 1).drop_last() =~= events@.take(i as int));
        }
        if let CollisionEvent::Started(a, b) = events[i] {
            if !started_among(events, i, a, b) {
                if holds(goals, a) {
                    found.push(GoalEvent { score_amount: GOAL_SCORE, goal: a });
                } else if holds(goals, b) {
                    found.push(GoalEvent { score_amount: GOAL_SCORE, goal: b });
                }
            }
        }
        i = i + 1;
    }
    proof {
        assert(events@.take(events@.len() as int) =~= events@);
    }
    found
}

/// The balls whose impulse a frame's contacts reset: one entry for each
/// contact start between a ball and a wall, in order.
pub open spec fn wall_hits(events: Seq<CollisionEvent>, balls: Seq<EntityId>, walls: Seq<EntityId>) -> Seq<
    EntityId,
>
    decreases events.len(),
{
    if events.len() == 0 {
        Seq::empty()
    } else {
        let found = wall_hits(events.drop_last(), balls, walls);
        match events.last() {
            CollisionEvent::Started(a, b) => if balls.contains(a) && walls.contains(b) {
                found.push(a)
            } else if balls.contains(b) && walls.contains(a) {
                found.push(b)
            } else {
                found
            },
            CollisionEvent::Stopped(_, _) => found,
        }
    }
}

/// The balls that struck a wall this frame, once per contact start, so that
/// their impulse can be reset.
pub fn hit_walls(events: &Vec<CollisionEvent>, balls: &Vec<EntityId>, walls: &Vec<EntityId>) -> (r:
    Vec<EntityId>)
    ensures
        r@ == wall_hits(events@, balls@, walls@),
{
    let mut found: Vec<EntityId> = Vec::new();
    let mut i: usize = 0;
    while i < events.len()
        invariant
            i <= events.len(),
            found@ == wall_hits(events@.take(i as int), balls@, walls@),
        decreases events.len() - i,
    {
        proof {
            assert(events@.take(i as int + 1).drop_last() =~= events@.take(i as int));
        }
        if let CollisionEvent::Started(a, b) = events[i] {
            if holds(balls, a) && holds(walls, b) {
                found.push(a);
            } else if holds(balls, b) && holds(walls, a) {
                found.push(b);
            }
        }
        i = i + 1;
    }
    proof {
        assert(events@.take(events@.len() as int) =~= events@);
    }
    found
}

/// Width of the window, in pixels.
pub const WINDOW_WIDTH: i32 = 800;

/// Height of the window, in pixels.
pub const WINDOW_HEIGHT: i32 = 400;

/// Height of the score bar, in pixels.
pub const UI_HEIGHT: i32 = 50;

/// Height of the playing ground, in pixels.
pub const GROUND_HEIGHT: i32 = 350;

/// Height of the ground's middle above the window's middle, in pixels.
pub const GROUND_MIDDLE: i32 = 25;

/// Diameter of a goal zone, in pixels.
pub const GOAL_SIZE: i32 = 80;

/// A point of the arena in pixels, the window's centre at the origin; `z`
/// orders drawing.
#[derive(Clone, Copy, Debug, PartialEq, Eq, Structural)]
pub struct Position {
    pub x: i32,
    pub y: i32,
    pub z: i32,
}

/// A fixed rectangle of the arena: its centre and its full size in pixels.
#[derive(Clone, Copy, Debug, PartialEq, Eq, Structural)]
pub struct Block {
    pub center: Position,
    pub width: i32,
    pub height: i32,
}

/// The goal zones' centres: the four corners of the ground, top right, top
/// left, bottom right, bottom left.
pub fn goal_positions() -> (r: Vec<Position>)
    ensures
        r@ == seq![
            Position { x: 400, y: 200, z: 1 },
            Position { x: -400i32, y: 200, z: 1 },
            Position { x: 400, y: -150i32, z: 1 },
            Position { x: -400i32, y: -150i32, z: 1 },
        ],
{
    let top = WINDOW_HEIGHT / 2;
    let bottom = -WINDOW_HEIGHT / 2 + UI_HEIGHT;
    let right = WINDOW_WIDTH / 2;
    let left = -right;
    let r = vec![
        Position { x: right, y: top, z: 1 },
        Position { x: left, y: top, z: 1 },
        Position { x: right, y: bottom, z: 1 },
        Position { x: left, y: bottom, z: 1 },
    ];
    proof {
        assert(r@ =~= seq![
            Position { x: 400, y: 200, z: 1 },
            Position { x: -400i32, y: 200, z: 1 },
            Position { x: 400, y: -150i32, z: 1 },
            Position { x: -400i32, y: -150i32, z: 1 },
        ]);
    }
    r
}

/// The ground: the whole width of the window, above the score bar.
pub fn ground_block() -> (r: Block)
    ensures
        r == (Block {
            center: Position { x: 0, y: 25, z: 0 },
            width: 800,
            height: 350,
        }),
{
    Block { center: Position { x: 0, y: UI_HEIGHT / 2, z: 0 }, width: WINDOW_WIDTH, height: GROUND_HEIGHT }
}

/// The four walls, two pixels thick: the left and right edges of the window,
/// its top edge, and the top of the score bar.
pub fn wall_layout() -> (r: Vec<Block>)
    ensures
        r@ == seq![
            Block { center: Position { x: 400, y: 0, z: 0 }, width: 2, height: 400 },
            Block { center: Position { x: -400i32, y: 0, z: 0 }, width: 2, height: 400 },
            Block { center: Position { x: 0, y: 200, z: 0 }, width: 800, height: 2 },
            Block { center: Position { x: 0, y: -150i32, z: 0 }, width: 800, height: 2 },
        ],
{
    let mut r: Vec<Block> = Vec::new();
    let xs: [i32; 2] = [WINDOW_WIDTH / 2, -WINDOW_WIDTH / 2];
    let mut i: usize = 0;
    while i < 2
        invariant
            i <= 2,
            xs@ == seq![400i32, -400i32],
            r@.len() == i,
            forall|j: int|
                0 <= j < i ==> r@[j] == (Block {
                    center: Position { x: xs@[j], y: 0, z: 0 },
                    width: 2,
                    height: WINDOW_HEIGHT,
                }),
        decreases 2 - i,
    {
        r.push(Block { center: Position { x: xs[i], y: 0, z: 0 }, width: 2, height: WINDOW_HEIGHT });
        i = i + 1;
    }
    let ys: [i32; 2] = [WINDOW_HEIGHT / 2, -WINDOW_HEIGHT / 2 + UI_HEIGHT];
    let mut k: usize = 0;
    while k < 2
        invariant
            k <= 2,
            ys@ == seq![200i32, -150i32],
            r@.len() == 2 + k,
            forall|j: int|
                0 <= j < 2 ==> r@[j] == (Block {
                    center: Position { x: xs@[j], y: 0, z: 0 },
                    width: 2,
                    height: WINDOW_HEIGHT,
                }),
            xs@ == seq![400i32, -400i32],
            forall|j: int|
                0 <= j < k ==> r@[2 + j] == (Block {
                    center: Position { x: 0, y: ys@[j], z: 0 },
                    width: WINDOW_WIDTH,
                    height: 2,
                }),
        decreases 2 - k,
    {
        r.push(Block { center: Position { x: 0, y: ys[k], z: 0 }, width: WINDOW_WIDTH, height: 2 });
        k = k + 1;
    }
    proof {
        assert(r@ =~= seq![
            Block { center: Position { x: 400, y: 0, z: 0 }, width: 2, height: 400 },
            Block { center: Position { x: -400i32, y: 0, z: 0 }, width: 2, height: 400 },
            Block { center: Position { x: 0, y: 200, z: 0 }, width: 800, height: 2 },
            Block { center: Position { x: 0, y: -150i32, z: 0 }, width: 800, height: 2 },
        ]);
    }
    r
}

} // verus!
