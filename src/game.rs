//! One frame of play: the ball spawn check, goal detection, the score
//! ledger, the ball's removal after a goal, and obstacle motion.
use vstd::prelude::*;
use crate::arena::{detected_goals, hit_walls, touch_goal, wall_hits, CollisionEvent};
use crate::ball::{despawn_after_goal, run_if_no_ball};
use crate::obstacle::{default_obstacles, tick_spec, Obstacle};
use crate::scoring::{ledger_frame, running_total_fits, EntityId, GoalEvent, ScoreBoard};

verus! {

/// The state of a match between frames.
pub struct GameState {
    pub board: ScoreBoard,
    pub goals: Vec<EntityId>,
    pub walls: Vec<EntityId>,
    pub balls: Vec<EntityId>,
    pub obstacles: Vec<Obstacle>,
    /// The identifier that the next spawned body receives.
    pub next_entity: EntityId,
}

/// What one frame did.
pub struct FrameReport {
    /// The ball spawned at the start of the frame, if there was none.
    pub spawned: Option<EntityId>,
    /// The goals scored.
    pub goal_events: Vec<GoalEvent>,
    /// The balls whose impulse is reset after striking a wall.
    pub wall_hits: Vec<EntityId>,
    /// The balls removed because a goal was scored.
    pub despawned: Vec<EntityId>,
}

/// The balls after the spawn check: those there were, or a new one.
pub open spec fn balls_after_spawn(balls: Seq<EntityId>, next_entity: EntityId) -> Seq<EntityId> {
    if balls.len() == 0 {
        seq![next_entity]
    } else {
        balls
    }
}

impl GameState {
    /// At most one ball, and every obstacle well formed.
    pub open spec fn wf(&self) -> bool {
        &&& self.balls@.len() <= 1
        &&& forall|i: int| 0 <= i < self.obstacles@.len() ==> (#[trigger] self.obstacles@[i]).wf()
    }

    /// The frame with these contacts and this duration keeps every number
    /// in range, an identifier for a new ball included.
    pub open spec fn frame_fits(&self, contacts: Seq<CollisionEvent>, dt: u64) -> bool {
        &&& self.next_entity < u64::MAX
        &&& running_total_fits(self.board.score as int, detected_goals(contacts, self.goals@))
        &&& forall|i: int|
            0 <= i < self.obstacles@.len() ==> (#[trigger] self.obstacles@[i]).tick_fits(dt as int)
    }

    /// A match with no ball yet, the arena's obstacles at rest, the given
    /// goal zones and walls, and the stored counters.
    pub fn new(board: ScoreBoard, goals: Vec<EntityId>, walls: Vec<EntityId>, next_entity: EntityId) -> (r:
        GameState)
        ensures
            r.wf(),
            r.board == board,
            r.goals@ == goals@,
            r.walls@ == walls@,
            r.balls@.len() == 0,
            r.next_entity == next_entity,
    {
        let obstacles = default_obstacles();
        GameState { board, goals, walls, balls: Vec::new(), obstacles, next_entity }
    }

    /// Runs one frame of `dt` microseconds with the physics layer's contact
    /// notices: a ball is spawned if there is none; the contacts give the
    /// goal events and the wall hits; the goal events are scored and the
    /// high score updated; after a goal every ball is removed; the obstacles
    /// move.
    pub fn frame(&mut self, contacts: &Vec<CollisionEvent>, dt: u64) -> (r: FrameReport)
        requires
            old(self).wf(),
            old(self).frame_fits(contacts@, dt),
        ensures
            final(self).wf(),
            r.spawned == if old(self).balls@.len() == 0 {
                Some(old(self).next_entity)
            } else {
                None
            },
            final(self).next_entity == if old(self).balls@.len() == 0 {
                (old(self).next_entity + 1) as u64
            } else {
                old(self).next_entity
            },
            r.goal_events@ == detected_goals(contacts@, old(self).goals@),
            r.wall_hits@ == wall_hits(
                contacts@,
                balls_after_spawn(old(self).balls@, old(self).next_entity),
                old(self).walls@,
            ),
            final(self).board@ == ledger_frame(old(self).board@, r.goal_events@),
            r.goal_events@.len() > 0 ==> {
                &&& final(self).balls@.len() == 0
                &&& r.despawned@ == balls_after_spawn(old(self).balls@, old(self).next_entity)
            },
            r.goal_events@.len() == 0 ==> {
                &&& final(self).balls@ == balls_after_spawn(old(self).balls@, old(self).next_entity)
                &&& final(self).balls@.len() == 1
                &&& r.despawned@.len() == 0
            },
            final(self).goals@ == old(self).goals@,
            final(self).walls@ == old(self).walls@,
            final(self).obstacles@.len() == old(self).obstacles@.len(),
            forall|i: int|
                0 <= i < final(self).obstacles@.len() ==> #[trigger] final(self).obstacles@[i]
                    == tick_spec(old(self).obstacles@[i], dt as int),
    {
        let mut spawned: Option<EntityId> = None;
        if run_if_no_ball(&self.balls) {
            let id = self.next_entity;
            self.balls.push(id);
            self.next_entity = id + 1;
            spawned = Some(id);
        }
        proof {
            assert(self.balls@ =~= balls_after_spawn(old(self).balls@, old(self).next_entity));
        }
        let goal_events = touch_goal(contacts, &self.goals);
        let hits = hit_walls(contacts, &self.balls, &self.walls);
        self.board.frame(&goal_events);
        let despawned = despawn_after_goal(&self.balls, &goal_events);
        if goal_events.len() > 0 {
            self.balls = Vec::new();
        }
        self.tick_obstacles(dt);
        FrameReport { spawned, goal_events, wall_hits: hits, despawned }
    }

    /// Moves every obstacle by one frame of `dt` microseconds.
    fn tick_obstacles(&mut self, dt: u64)
        requires
            forall|i: int| 0 <= i < old(self).obstacles@.len() ==> (#[trigger] old(self).obstacles@[i]).wf(),
            forall|i: int|
                0 <= i < old(self).obstacles@.len() ==> (#[trigger] old(self).obstacles@[i]).tick_fits(
                    dt as int,
                ),
        ensures
            final(self).board == old(self).board,
            final(self).goals@ == old(self).goals@,
            final(self).walls@ == old(self).walls@,
            final(self).balls@ == old(self).balls@,
            final(self).next_entity == old(self).next_entity,
            final(self).obstacles@.len() == old(self).obstacles@.len(),
            forall|i: int|
                0 <= i < final(self).obstacles@.len() ==> {
                    &&& (#[trigger] final(self).obstacles@[i]).wf()
                    &&& final(self).obstacles@[i] == tick_spec(old(self).obstacles@[i], dt as int)
                },
    {
        let mut i: usize = 0;
        while i < self.obstacles.len()
            invariant
                i <= self.obstacles@.len(),
                self.obstacles@.len() == old(self).obstacles@.len(),
                self.board == old(self).board,
                self.goals@ == old(self).goals@,
                self.walls@ == old(self).walls@,
                self.balls@ == old(self).balls@,
                self.next_entity == old(self).next_entity,
                forall|j: int| i <= j < self.obstacles@.len() ==> self.obstacles@[j] == old(self).obstacles@[j],
                forall|j: int| 0 <= j < old(self).obstacles@.len() ==> (#[trigger] old(self).obstacles@[j]).wf(),
                forall|j: int|
                    0 <= j < old(self).obstacles@.len() ==> (#[trigger] old(self).obstacles@[j]).tick_fits(
                        dt as int,
                    ),
                forall|j: int|
                    0 <= j < i ==> {
                        &&& (#[trigger] self.obstacles@[j]).wf()
                        &&& self.obstacles@[j] == tick_spec(old(self).obstacles@[j], dt as int)
                    },
            decreases self.obstacles@.len() - i,
        {
            let mut o = self.obstacles[i];
            o.tick(dt);
            self.obstacles.set(i, o);
            i = i + 1;
        }
    }
}

} // verus!
