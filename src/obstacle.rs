//! Obstacle motion: static, spinning, or oscillating along one scale axis.
//!
//! Time is counted in microseconds. A rotation is counted in millionths of a
//! turn, so a spinning obstacle that makes one turn per second advances by
//! exactly its elapsed microseconds. A scale is counted in billionths
//! (`SCALE_ONE` is a scale of 1), and a speed in billionths of scale per
//! microsecond, which is the same number as thousandths of scale per second.
use vstd::arithmetic::div_mod::{
    lemma_add_mod_noop, lemma_add_mod_noop_right, lemma_mod_add_multiples_vanish, lemma_mod_twice,
    lemma_small_mod, lemma_sub_mod_noop, lemma_sub_mod_noop_right,
};
use vstd::prelude::*;

verus! {

/// Millionths of a turn in one full turn.
pub const TURN: u64 = 1_000_000;

/// A scale of 1.
pub const SCALE_ONE: i64 = 1_000_000_000;

/// How an obstacle moves from frame to frame.
#[derive(Clone, Copy, Debug, PartialEq, Eq, Structural)]
pub enum ObstacleVariant {
    Static,
    Spinning { clockwise: bool },
    Expanding { speed: u32, max_scale: i64, min_scale: i64, expanding: bool, horizontal: bool },
}

/// An obstacle's variant with its rotation and scale.
#[derive(Clone, Copy, Debug, PartialEq, Eq, Structural)]
pub struct Obstacle {
    pub variant: ObstacleVariant,
    /// Millionths of a turn, below `TURN`.
    pub rotation: u64,
    pub scale_x: i64,
    pub scale_y: i64,
}

/// The rotation after spinning for `dt` microseconds, one turn per second.
pub open spec fn spun(rotation: int, clockwise: bool, dt: int) -> int {
    if clockwise {
        (rotation + dt) % (TURN as int)
    } else {
        (rotation - dt) % (TURN as int)
    }
}

/// One tick of an oscillating axis: the new scale and direction flag.
pub open spec fn expand_step(scale: int, step: int, min: int, max: int, expanding: bool) -> (
    int,
    bool,
) {
    if expanding && scale <= max {
        let s = scale + step;
        (s, !(s >= max))
    } else if !expanding && scale >= min {
        let s = scale - step;
        (s, s <= min)
    } else {
        (scale, expanding)
    }
}

/// An obstacle after one frame of `dt` microseconds.
pub open spec fn tick_spec(o: Obstacle, dt: int) -> Obstacle {
    match o.variant {
        ObstacleVariant::Static => o,
        ObstacleVariant::Spinning { clockwise } => Obstacle {
            rotation: spun(o.rotation as int, clockwise, dt) as u64,
            ..o
        },
        ObstacleVariant::Expanding { speed, max_scale, min_scale, expanding, horizontal } => {
            let axis = if horizontal {
                o.scale_x
            } else {
                o.scale_y
            };
            let (s, e) = expand_step(axis as int, dt * speed, min_scale as int, max_scale as int, expanding);
            Obstacle {
                variant: ObstacleVariant::Expanding {
                    speed,
                    max_scale,
                    min_scale,
                    expanding: e,
                    horizontal,
                },
                scale_x: if horizontal {
                    s as i64
                } else {
                    o.scale_x
                },
                scale_y: if horizontal {
                    o.scale_y
                } else {
                    s as i64
                },
                ..o
            }
        },
    }
}

/// An obstacle at rest: no rotation, scale 1 on both axes.
pub open spec fn at_rest(variant: ObstacleVariant) -> Obstacle {
    Obstacle { variant, rotation: 0, scale_x: SCALE_ONE, scale_y: SCALE_ONE }
}

impl Obstacle {
    /// An obstacle at rest: no rotation, scale 1 on both axes.
    pub fn new(variant: ObstacleVariant) -> (r: Obstacle)
        ensures
            r == at_rest(variant),
    {
        Obstacle { variant, rotation: 0, scale_x: SCALE_ONE, scale_y: SCALE_ONE }
    }

    /// The rotation stays below a full turn.
    pub open spec fn wf(self) -> bool {
        self.rotation < TURN
    }

    /// The scale of the axis that an expanding obstacle moves, or 0.
    pub open spec fn moving_axis(self) -> int {
        match self.variant {
            ObstacleVariant::Expanding { horizontal, .. } => if horizontal {
                self.scale_x as int
            } else {
                self.scale_y as int
            },
            _ => 0,
        }
    }

    /// One frame of `dt` microseconds leaves the moving scale within `i64`.
    pub open spec fn tick_fits(self, dt: int) -> bool {
        match self.variant {
            ObstacleVariant::Expanding { speed, .. } => i64::MIN <= self.moving_axis() - dt * speed
                && self.moving_axis() + dt * speed <= i64::MAX,
            _ => true,
        }
    }

    /// A spinning obstacle turns by `dt` microseconds' worth of one turn per
    /// second, clockwise or not; other obstacles are left as they are.
    pub fn spin(&mut self, dt: u64)
        requires
            old(self).wf(),
        ensures
            final(self).wf(),
            *final(self) == match old(self).variant {
                ObstacleVariant::Spinning { .. } => tick_spec(*old(self), dt as int),
                _ => *old(self),
            },
    {
        if let ObstacleVariant::Spinning { clockwise } = self.variant {
            let d = dt % TURN;
            if clockwise {
                self.rotation = (self.rotation + d) % TURN;
            } else {
                self.rotation = (self.rotation + (TURN - d)) % TURN;
            }
            proof {
                let r = old(self).rotation as int;
                let t = TURN as int;
                let x = dt as int;
                lemma_add_mod_noop_right(r, x, t);
                lemma_sub_mod_noop_right(r, x, t);
                lemma_mod_add_multiples_vanish(r - x % t, t);
                assert(r + (t - x % t) == t + (r - x % t));
            }
        }
    }

    /// An expanding obstacle moves its axis by `dt * speed` toward its bound,
    /// and turns round once it has reached or passed that bound; other
    /// obstacles are left as they are.
    pub fn expand(&mut self, dt: u64)
        requires
            old(self).tick_fits(dt as int),
        ensures
            final(self).rotation == old(self).rotation,
            *final(self) == match old(self).variant {
                ObstacleVariant::Expanding { .. } => tick_spec(*old(self), dt as int),
                _ => *old(self),
            },
    {
        if let ObstacleVariant::Expanding { speed, max_scale, min_scale, expanding, horizontal } =
            self.variant {
            let step = (dt as i128) * (speed as i128);
            let axis = if horizontal {
                self.scale_x
            } else {
                self.scale_y
            };
            let mut now_expanding = expanding;
            let mut scale = axis;
            if expanding && axis <= max_scale {
                scale = (axis as i128 + step) as i64;
                if scale >= max_scale {
                    now_expanding = false;
                }
            } else if !expanding && axis >= min_scale {
                scale = (axis as i128 - step) as i64;
                if scale <= min_scale {
                    now_expanding = true;
                }
            }
            if horizontal {
                self.scale_x = scale;
            } else {
                self.scale_y = scale;
            }
            self.variant = ObstacleVariant::Expanding {
                speed,
                max_scale,
                min_scale,
                expanding: now_expanding,
                horizontal,
            };
        }
    }

    /// One frame: spin, then expand, whichever applies.
    pub fn tick(&mut self, dt: u64)
        requires
            old(self).wf(),
            old(self).tick_fits(dt as int),
        ensures
            final(self).wf(),
            *final(self) == tick_spec(*old(self), dt as int),
    {
        self.spin(dt);
        self.expand(dt);
    }
}

impl Default for Obstacle {
    /// A static obstacle at rest.
    fn default() -> (r: Obstacle)
        ensures
            r == at_rest(ObstacleVariant::Static),
    {
        Obstacle::new(ObstacleVariant::Static)
    }
}

/// The obstacles of the arena, at rest: two static ones at the bottom, a
/// clockwise and a counter-clockwise spinner at the top, and two that swing
/// between scale 1 and 2 at half a scale per second, one across and one
/// upright.
pub fn default_obstacles() -> (r: Vec<Obstacle>)
    ensures
        r@ == seq![
            at_rest(ObstacleVariant::Static),
            at_rest(ObstacleVariant::Static),
            at_rest(ObstacleVariant::Spinning { clockwise: true }),
            at_rest(ObstacleVariant::Spinning { clockwise: false }),
            at_rest(
                ObstacleVariant::Expanding {
                    speed: 500,
                    max_scale: 2_000_000_000,
                    min_scale: SCALE_ONE,
                    expanding: true,
                    horizontal: true,
                },
            ),
            at_rest(
                ObstacleVariant::Expanding {
                    speed: 500,
                    max_scale: 2_000_000_000,
                    min_scale: SCALE_ONE,
                    expanding: true,
                    horizontal: false,
                },
            ),
        ],
{
    let mut r: Vec<Obstacle> = Vec::new();
    r.push(Obstacle::new(ObstacleVariant::Static));
    r.push(Obstacle::new(ObstacleVariant::Static));
    r.push(Obstacle::new(ObstacleVariant::Spinning { clockwise: true }));
    r.push(Obstacle::new(ObstacleVariant::Spinning { clockwise: false }));
    r.push(
        Obstacle::new(
            ObstacleVariant::Expanding {
                speed: 500,
                max_scale: 2_000_000_000,
                min_scale: SCALE_ONE,
                expanding: true,
                horizontal: true,
            },
        ),
    );
    r.push(
        Obstacle::new(
            ObstacleVariant::Expanding {
                speed: 500,
                max_scale: 2_000_000_000,
                min_scale: SCALE_ONE,
                expanding: true,
                horizontal: false,
            },
        ),
    );
    proof {
        assert(r@ =~= seq![
            at_rest(ObstacleVariant::Static),
            at_rest(ObstacleVariant::Static),
            at_rest(ObstacleVariant::Spinning { clockwise: true }),
            at_rest(ObstacleVariant::Spinning { clockwise: false }),
            at_rest(
                ObstacleVariant::Expanding {
                    speed: 500,
                    max_scale: 2_000_000_000,
                    min_scale: SCALE_ONE,
                    expanding: true,
                    horizontal: true,
                },
            ),
            at_rest(
                ObstacleVariant::Expanding {
                    speed: 500,
                    max_scale: 2_000_000_000,
                    min_scale: SCALE_ONE,
                    expanding: true,
                    horizontal: false,
                },
            ),
        ]);
    }
    r
}

/// Spins every spinning obstacle by one frame of `dt` microseconds.
pub fn spin_obstacles(obstacles: &mut Vec<Obstacle>, dt: u64)
    requires
        forall|i: int| 0 <= i < old(obstacles).len() ==> (#[trigger] old(obstacles)[i]).wf(),
    ensures
        final(obstacles).len() == old(obstacles).len(),
        forall|i: int|
            0 <= i < final(obstacles).len() ==> {
                &&& (#[trigger] final(obstacles)[i]).wf()
                &&& final(obstacles)[i] == match old(obstacles)[i].variant {
                    ObstacleVariant::Spinning { .. } => tick_spec(old(obstacles)[i], dt as int),
                    _ => old(obstacles)[i],
                }
            },
{
    let mut i: usize = 0;
    while i < obstacles.len()
        invariant
            i <= obstacles.len(),
            obstacles.len() == old(obstacles).len(),
            forall|j: int| i <= j < obstacles.len() ==> obstacles[j] == old(obstacles)[j],
            forall|j: int| 0 <= j < old(obstacles).len() ==> (#[trigger] old(obstacles)[j]).wf(),
            forall|j: int|
                0 <= j < i ==> {
                    &&& (#[trigger] obstacles[j]).wf()
                    &&& obstacles[j] == match old(obstacles)[j].variant {
                        ObstacleVariant::Spinning { .. } => tick_spec(old(obstacles)[j], dt as int),
                        _ => old(obstacles)[j],
                    }
                },
        decreases obstacles.len() - i,
    {
        let mut o = obstacles[i];
        o.spin(dt);
        obstacles.set(i, o);
        i = i + 1;
    }
}

/// Moves every expanding obstacle by one frame of `dt` microseconds.
pub fn expand_obstacles(obstacles: &mut Vec<Obstacle>, dt: u64)
    requires
        forall|i: int|
            0 <= i < old(obstacles).len() ==> (#[trigger] old(obstacles)[i]).tick_fits(dt as int),
    ensures
        final(obstacles).len() == old(obstacles).len(),
        forall|i: int|
            0 <= i < final(obstacles).len() ==> #[trigger] final(obstacles)[i] == match old(
                obstacles,
            )[i].variant {
                ObstacleVariant::Expanding { .. } => tick_spec(old(obstacles)[i], dt as int),
                _ => old(obstacles)[i],
            },
{
    let mut i: usize = 0;
    while i < obstacles.len()
        invariant
            i <= obstacles.len(),
            obstacles.len() == old(obstacles).len(),
            forall|j: int| i <= j < obstacles.len() ==> obstacles[j] == old(obstacles)[j],
            forall|j: int|
                0 <= j < old(obstacles).len() ==> (#[trigger] old(obstacles)[j]).tick_fits(
                    dt as int,
                ),
            forall|j: int|
                0 <= j < i ==> #[trigger] obstacles[j] == match old(obstacles)[j].variant {
                    ObstacleVariant::Expanding { .. } => tick_spec(old(obstacles)[j], dt as int),
                    _ => old(obstacles)[j],
                },
        decreases obstacles.len() - i,
    {
        let mut o = obstacles[i];
        o.expand(dt);
        obstacles.set(i, o);
        i = i + 1;
    }
}

/// The total of a sequence of frame durations.
pub open spec fn total_time(dts: Seq<nat>) -> int
    decreases dts.len(),
{
    if dts.len() == 0 {
        0
    } else {
        total_time(dts.drop_last()) + dts.last()
    }
}

/// The rotation after spinning through the frames `dts` in order.
pub open spec fn spin_frames(rotation: int, clockwise: bool, dts: Seq<nat>) -> int
    decreases dts.len(),
{
    if dts.len() == 0 {
        rotation
    } else {
        spun(spin_frames(rotation, clockwise, dts.drop_last()), clockwise, dts.last() as int)
    }
}

/// Spinning through any sequence of frames lands where one frame of their
/// total length lands: after a time `t` from rotation 0, a clockwise
/// obstacle stands at `t` turns and a counter-clockwise one at `-t` turns,
/// modulo a whole turn.
pub proof fn lemma_spin_follows_time(rotation: int, clockwise: bool, dts: Seq<nat>)
    requires
        0 <= rotation < TURN,
    ensures
        spin_frames(rotation, clockwise, dts) == spun(rotation, clockwise, total_time(dts)),
    decreases dts.len(),
{
    let t = TURN as int;
    if dts.len() == 0 {
        lemma_small_mod(rotation as nat, t as nat);
        lemma_small_mod((rotation - 0) as nat, t as nat);
    } else {
        let rest = dts.drop_last();
        let d = dts.last() as int;
        lemma_spin_follows_time(rotation, clockwise, rest);
        let s = total_time(rest);
        if clockwise {
            lemma_add_mod_noop(rotation + s, d, t);
            lemma_mod_twice(d, t);
            lemma_add_mod_noop((rotation + s) % t, d, t);
            lemma_mod_twice(rotation + s, t);
        } else {
            lemma_sub_mod_noop(rotation - s, d, t);
            lemma_sub_mod_noop((rotation - s) % t, d, t);
            lemma_mod_twice(rotation - s, t);
        }
    }
}

/// The state of an oscillating axis after `n` equal ticks of `step`.
pub open spec fn expand_ticks(scale: int, expanding: bool, step: int, min: int, max: int, n: nat) -> (
    int,
    bool,
)
    decreases n,
{
    if n == 0 {
        (scale, expanding)
    } else {
        let (s, e) = expand_step(scale, step, min, max, expanding);
        expand_ticks(s, e, step, min, max, (n - 1) as nat)
    }
}

/// One tick is one step.
proof fn lemma_expand_one_tick(scale: int, expanding: bool, step: int, min: int, max: int)
    ensures
        expand_ticks(scale, expanding, step, min, max, 1) == expand_step(
            scale,
            step,
            min,
            max,
            expanding,
        ),
{
    let (s, e) = expand_step(scale, step, min, max, expanding);
    assert(expand_ticks(s, e, step, min, max, 0) == (s, e));
}

/// Ticks compose: `a` ticks then `b` ticks are `a + b` ticks.
pub proof fn lemma_expand_ticks_compose(
    scale: int,
    expanding: bool,
    step: int,
    min: int,
    max: int,
    a: nat,
    b: nat,
)
    ensures
        ({
            let (s, e) = expand_ticks(scale, expanding, step, min, max, a);
            expand_ticks(s, e, step, min, max, b)
        }) == expand_ticks(scale, expanding, step, min, max, a + b),
    decreases a,
{
    if a > 0 {
        let (s, e) = expand_step(scale, step, min, max, expanding);
        lemma_expand_ticks_compose(s, e, step, min, max, (a - 1) as nat, b);
        assert((a + b - 1) as nat == (a - 1) as nat + b);
    }
}

/// Starting at its minimum and growing, an oscillating axis rises linearly:
/// until it first reaches its maximum, after `n` ticks it stands at
/// `min + n * step`, and it is still growing while below the maximum.
pub proof fn lemma_expand_rises(step: int, min: int, max: int, n: nat)
    requires
        step > 0,
        min < max,
        n * step <= max - min,
    ensures
        expand_ticks(min, true, step, min, max, n) == (min + n * step, n * step < max - min),
    decreases n,
{
    if n > 0 {
        let m = (n - 1) as nat;
        assert(m * step == n * step - step) by (nonlinear_arith)
            requires m == n - 1;
        lemma_expand_rises(step, min, max, m);
        lemma_expand_ticks_compose(min, true, step, min, max, m, 1);
        let (s, e) = expand_ticks(min, true, step, min, max, m);
        lemma_expand_one_tick(s, e, step, min, max);
        assert(m + 1 == n);
        assert(s == min + m * step && e == (m * step < max - min));
        assert(expand_step(s, step, min, max, e) == (min + n * step, n * step < max - min));
    } else {
        assert(n * step == 0) by (nonlinear_arith)
            requires n == 0;
    }
}

/// After `j` ticks down from its maximum, an oscillating axis that turned
/// round there stands at `max - j * step`, and turns up again once it has
/// reached its minimum.
proof fn lemma_expand_falls(step: int, min: int, max: int, j: nat)
    requires
        step > 0,
        min < max,
        j * step <= max - min,
    ensures
        expand_ticks(max, false, step, min, max, j) == (max - j * step, j * step == max - min),
    decreases j,
{
    if j > 0 {
        let m = (j - 1) as nat;
        assert(m * step == j * step - step) by (nonlinear_arith)
            requires m == j - 1;
        lemma_expand_falls(step, min, max, m);
        lemma_expand_ticks_compose(max, false, step, min, max, m, 1);
        let (s, e) = expand_ticks(max, false, step, min, max, m);
        lemma_expand_one_tick(s, e, step, min, max);
        assert(m + 1 == j);
    } else {
        assert(j * step == 0) by (nonlinear_arith)
            requires j == 0;
    }
}

/// The height of a triangle wave that rises for `k` ticks and falls for `k`.
pub open spec fn triangle(n: int, k: int) -> int {
    if n <= k {
        n
    } else {
        2 * k - n
    }
}

/// Where the span between the bounds is a whole number `k` of steps, an
/// oscillating axis that starts at its minimum, growing, traces a triangle
/// wave: after `n` ticks it stands at `min + step * triangle(n mod 2k, k)`,
/// and every `2k` ticks it is back in its starting state.
pub proof fn lemma_expand_triangle_wave(step: int, min: int, max: int, k: nat, n: nat)
    requires
        step > 0,
        k > 0,
        max - min == k * step,
    ensures
        expand_ticks(min, true, step, min, max, 2 * k) == (min, true),
        expand_ticks(min, true, step, min, max, n).0 == min + step * triangle(
            n as int % (2 * k as int),
            k as int,
        ),
    decreases n,
{
    assert(min < max) by (nonlinear_arith)
        requires max - min == k * step, step > 0, k > 0;
    lemma_expand_rises(step, min, max, k);
    assert(!(k * step < max - min));
    lemma_expand_falls(step, min, max, k);
    lemma_expand_ticks_compose(min, true, step, min, max, k, k);
    assert(k + k == 2 * k);
    let p = 2 * k;
    if n >= p {
        let r = (n - p) as nat;
        lemma_expand_triangle_wave(step, min, max, k, r);
        lemma_expand_ticks_compose(min, true, step, min, max, p, r);
        assert(p + r == n);
        lemma_mod_add_multiples_vanish(r as int, p as int);
    } else if n <= k {
        lemma_small_mod(n, p);
        assert(n * step <= max - min) by (nonlinear_arith)
            requires n <= k, max - min == k * step, step > 0;
        lemma_expand_rises(step, min, max, n);
        assert(step * n == n * step) by (nonlinear_arith);
    } else {
        lemma_small_mod(n, p);
        let j = (n - k) as nat;
        assert(j * step <= max - min) by (nonlinear_arith)
            requires j <= k, max - min == k * step, step > 0;
        lemma_expand_falls(step, min, max, j);
        lemma_expand_ticks_compose(min, true, step, min, max, k, j);
        assert(k + j == n);
        assert(max - j * step == min + step * (2 * k - n)) by (nonlinear_arith)
            requires max - min == k * step, j == n - k;
    }
}

} // verus!
