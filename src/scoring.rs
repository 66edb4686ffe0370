//! The score ledger: a running score and its running maximum.
use vstd::prelude::*;

verus! {

/// Identifier of a game object, as handed out by the host engine.
pub type EntityId = u64;

/// A goal was scored: what it is worth and which goal zone was struck.
#[derive(Clone, Copy, Debug, PartialEq, Eq, Structural)]
pub struct GoalEvent {
    pub score_amount: i32,
    pub goal: EntityId,
}

/// The sum of the score amounts of `events`.
pub open spec fn total_delta(events: Seq<GoalEvent>) -> int
    decreases events.len(),
{
    if events.len() == 0 {
        0
    } else {
        total_delta(events.drop_last()) + events.last().score_amount as int
    }
}

/// Adding the events to `start` one by one never leaves the range of `i32`.
pub open spec fn running_total_fits(start: int, events: Seq<GoalEvent>) -> bool {
    forall|k: int|
        0 <= k <= events.len() ==> i32::MIN <= #[trigger] (start + total_delta(events.take(k)))
            <= i32::MAX
}

/// The two persisted counters: the current score and the best score so far.
#[derive(Clone, Copy, Debug, PartialEq, Eq, Structural)]
pub struct ScoreBoard {
    pub score: i32,
    pub high_score: i32,
}

impl ScoreBoard {
    /// Builds the board from what the store holds; a missing entry counts as 0.
    pub fn from_stored(score: Option<i32>, high_score: Option<i32>) -> (r: ScoreBoard)
        ensures
            r.score == match score {
                Some(s) => s,
                None => 0,
            },
            r.high_score == match high_score {
                Some(h) => h,
                None => 0,
            },
    {
        let s = match score {
            Some(s) => s,
            None => 0,
        };
        let h = match high_score {
            Some(h) => h,
            None => 0,
        };
        ScoreBoard { score: s, high_score: h }
    }

    /// Adds the score amount of every goal event, in order, to the score.
    pub fn score_goal(&mut self, events: &Vec<GoalEvent>)
        requires
            running_total_fits(old(self).score as int, events@),
        ensures
            final(self).score == old(self).score + total_delta(events@),
            final(self).high_score == old(self).high_score,
    {
        let mut i: usize = 0;
        while i < events.len()
            invariant
                i <= events.len(),
                running_total_fits(old(self).score as int, events@),
                self.score == old(self).score + total_delta(events@.take(i as int)),
                self.high_score == old(self).high_score,
            decreases events.len() - i,
        {
            let ghost before = events@.take(i as int);
            proof {
                let next = events@.take(i as int + 1);
                assert(next.drop_last() =~= before);
                assert(old(self).score + total_delta(next) <= i32::MAX);
            }
            self.score = self.score + events[i].score_amount;
            i = i + 1;
        }
        proof {
            assert(events@.take(events@.len() as int) =~= events@);
        }
    }

    /// Raises the high score to the score when the score is above it.
    pub fn update_high_score(&mut self)
        ensures
            final(self).score == old(self).score,
            final(self).high_score == if old(self).score > old(self).high_score {
                old(self).score
            } else {
                old(self).high_score
            },
    {
        if self.score > self.high_score {
            self.high_score = self.score;
        }
    }

    /// The counters as integers.
    pub open spec fn view(&self) -> Ledger {
        Ledger { score: self.score as int, high_score: self.high_score as int }
    }

    /// One frame of the ledger: the frame's goal events are added to the
    /// score, then the high score catches up with the score.
    pub fn frame(&mut self, events: &Vec<GoalEvent>)
        requires
            running_total_fits(old(self).score as int, events@),
        ensures
            final(self)@ == ledger_frame(old(self)@, events@),
            final(self).high_score >= old(self).high_score,
            final(self).high_score >= final(self).score,
    {
        self.score_goal(events);
        self.update_high_score();
    }

    /// On application exit the score goes back to 0; the high score stays.
    pub fn clear_score(&mut self, exit_events: usize)
        ensures
            final(self).score == if exit_events > 0 {
                0
            } else {
                old(self).score
            },
            final(self).high_score == old(self).high_score,
    {
        if exit_events > 0 {
            self.score = 0;
        }
    }
}

/// The score ledger as integers.
pub struct Ledger {
    pub score: int,
    pub high_score: int,
}

/// The ledger after one frame with the goal events `events`.
pub open spec fn ledger_frame(l: Ledger, events: Seq<GoalEvent>) -> Ledger {
    let score = l.score + total_delta(events);
    Ledger {
        score,
        high_score: if score > l.high_score {
            score
        } else {
            l.high_score
        },
    }
}

/// The ledger after the frames `frames`, in order.
pub open spec fn ledger_frames(l: Ledger, frames: Seq<Seq<GoalEvent>>) -> Ledger
    decreases frames.len(),
{
    if frames.len() == 0 {
        l
    } else {
        ledger_frame(ledger_frames(l, frames.drop_last()), frames.last())
    }
}

/// Scoring two batches of goal events one after the other adds to the score
/// what scoring them as one batch adds: the score moves by the sum of all
/// the deltas, whatever their grouping.
pub proof fn lemma_total_delta_concat(a: Seq<GoalEvent>, b: Seq<GoalEvent>)
    ensures
        total_delta(a + b) == total_delta(a) + total_delta(b),
    decreases b.len(),
{
    if b.len() == 0 {
        assert(a + b =~= a);
    } else {
        lemma_total_delta_concat(a, b.drop_last());
        assert((a + b).drop_last() =~= a + b.drop_last());
    }
}

/// Over any sequence of frames the high score never falls: after the first
/// `i` frames it is at most what it is after the first `j`, for `i <= j`.
/// After at least one frame it is at least the score.
pub proof fn lemma_high_score_never_falls(l: Ledger, frames: Seq<Seq<GoalEvent>>, i: int, j: int)
    requires
        0 <= i <= j <= frames.len(),
    ensures
        ledger_frames(l, frames.take(i)).high_score <= ledger_frames(l, frames.take(j)).high_score,
        j > 0 ==> ledger_frames(l, frames.take(j)).high_score >= ledger_frames(
            l,
            frames.take(j),
        ).score,
    decreases j - i,
{
    if j > 0 {
        assert(frames.take(j).drop_last() =~= frames.take(j - 1));
    }
    if i < j {
        lemma_high_score_never_falls(l, frames, i, j - 1);
    }
}

} // verus!
