use crate::vector::{
    div_trunc, lemma_trunc_div_bound, limited_of, norm_sq, trunc_div, with_magnitude_of, Vec2,
    SCALE,
};
use crate::buffer::{Buffer, FrameView, Pixel};
use vstd::arithmetic::div_mod::lemma_div_is_ordered;
use vstd::prelude::*;

verus! {

/// Largest steering force, in fixed-point units (0.2 pixel per frame squared).
pub const MAX_FORCE: i64 = 200;

/// Largest speed after an update, in fixed-point units (5 pixels per frame).
pub const MAX_VELOCITY: i64 = 5000;

/// Side of the square body that an agent draws, in pixels.
pub const BODY_SIZE: usize = 5;

/// Largest absolute position component that an agent may hold.
pub const POSITION_LIMIT: i64 = 4294967296;

/// Largest absolute velocity component that an agent may hold.
pub const VELOCITY_LIMIT: i64 = 1048576;

/// Largest absolute acceleration component that an agent may hold.
pub const ACCELERATION_LIMIT: i64 = 2097152;

/// Room left in each acceleration component for one more round of steering.
pub const STEERING_ROOM: i64 = 1000;

/// Largest width or height of the world, in pixels.
pub const MAX_DIMENSION: usize = 1000000;

/// Largest population whose neighbor sums are computed.
pub const MAX_POPULATION: usize = 65536;

/// Largest absolute component of one neighbor's contribution to a sum.
pub const CONTRIBUTION_LIMIT: i64 = 34359738368;

/// Squared perception radii, in fixed-point units.
pub const ALIGNMENT_RADIUS_SQ: i128 = 625000000;

pub const SEPARATION_RADIUS_SQ: i128 = 576000000;

pub const COHESION_RADIUS_SQ: i128 = 2500000000;

/// The three steering rules.
#[derive(Clone, Copy, Debug, PartialEq, Eq, Structural)]
pub enum Rule {
    Alignment,
    Separation,
    Cohesion,
}

pub open spec fn radius_sq(rule: Rule) -> int {
    match rule {
        Rule::Alignment => ALIGNMENT_RADIUS_SQ as int,
        Rule::Separation => SEPARATION_RADIUS_SQ as int,
        Rule::Cohesion => COHESION_RADIUS_SQ as int,
    }
}

/// An agent: its kinematic state in fixed-point units.
#[derive(Clone, Copy, Debug, PartialEq, Eq, Structural)]
pub struct Boid {
    pub position: Vec2,
    pub velocity: Vec2,
    pub acceleration: Vec2,
}

/// Squared distance between two agents.
pub open spec fn dist_sq(a: Boid, b: Boid) -> int {
    norm_sq(a.position.x - b.position.x, a.position.y - b.position.y)
}

/// The agent at index `j` is a neighbor under `rule` of `me`, which sits at
/// index `me_index`: another index, strictly inside the perception radius.
pub open spec fn qualifies(me: Boid, me_index: int, rule: Rule, j: int, other: Boid) -> bool {
    j != me_index && dist_sq(me, other) < radius_sq(rule)
}

/// What one neighbor adds to the sum of a rule: its velocity, its position, or
/// the inverse-square push away from it (nothing when both stand on one point).
pub open spec fn contribution(me: Boid, rule: Rule, other: Boid) -> (int, int) {
    match rule {
        Rule::Alignment => other.velocity.pair(),
        Rule::Cohesion => other.position.pair(),
        Rule::Separation => {
            let dx = me.position.x - other.position.x;
            let dy = me.position.y - other.position.y;
            let d = norm_sq(dx, dy);
            if d == 0 {
                (0, 0)
            } else {
                (trunc_div(dx * SCALE * SCALE, d), trunc_div(dy * SCALE * SCALE, d))
            }
        },
    }
}

/// Sum of the contributions of the neighbors in `bs`, and their number.
pub open spec fn neighbor_total(me: Boid, me_index: int, rule: Rule, bs: Seq<Boid>) -> (
    int,
    int,
    int,
)
    decreases bs.len(),
{
    if bs.len() == 0 {
        (0, 0, 0)
    } else {
        let prev = neighbor_total(me, me_index, rule, bs.drop_last());
        let j = bs.len() - 1;
        if qualifies(me, me_index, rule, j, bs[j]) {
            let c = contribution(me, rule, bs[j]);
            (prev.0 + c.0, prev.1 + c.1, prev.2 + 1)
        } else {
            prev
        }
    }
}

/// Number of neighbors of `me` under `rule`.
pub open spec fn neighbor_count(me: Boid, me_index: int, rule: Rule, bs: Seq<Boid>) -> int {
    neighbor_total(me, me_index, rule, bs).2
}

/// The steering force of `rule`: zero without neighbors; otherwise the
/// average (less the own position, for cohesion) set to the largest speed,
/// less the own velocity, limited to the largest force.
pub open spec fn steering_of(me: Boid, me_index: int, rule: Rule, bs: Seq<Boid>) -> (int, int) {
    let t = neighbor_total(me, me_index, rule, bs);
    if t.2 == 0 {
        (0, 0)
    } else {
        let ax = trunc_div(t.0, t.2);
        let ay = trunc_div(t.1, t.2);
        let target = if rule == Rule::Cohesion {
            (ax - me.position.x, ay - me.position.y)
        } else {
            (ax, ay)
        };
        let d = with_magnitude_of(target.0, target.1, MAX_VELOCITY as int);
        limited_of(d.0 - me.velocity.x, d.1 - me.velocity.y, MAX_FORCE as int)
    }
}

/// One coordinate after the boundary policy: a hard toroidal wrap that leaves
/// the far edge for the near one and the near edge for the far one, ignoring
/// the body's extent.
pub open spec fn wrap(p: int, extent: int) -> int {
    if p > extent {
        0
    } else if p < 0 {
        extent
    } else {
        p
    }
}

/// The three forces summed with weights 1.5, 1 and 2, added to `a`.
pub open spec fn steered(a: int, align: int, cohere: int, separate: int) -> int {
    a + trunc_div(3 * align, 2) + cohere + 2 * separate
}

/// The agent after `flock` against the snapshot `bs`.
pub open spec fn flocked(me: Boid, me_index: int, bs: Seq<Boid>) -> Boid {
    let al = steering_of(me, me_index, Rule::Alignment, bs);
    let co = steering_of(me, me_index, Rule::Cohesion, bs);
    let se = steering_of(me, me_index, Rule::Separation, bs);
    Boid {
        acceleration: Vec2 {
            x: steered(me.acceleration.x as int, al.0, co.0, se.0) as i64,
            y: steered(me.acceleration.y as int, al.1, co.1, se.1) as i64,
        },
        ..me
    }
}

/// The agent after `update` in a world of `width` by `height` pixels.
pub open spec fn updated(me: Boid, width: int, height: int) -> Boid {
    let v = limited_of(
        me.velocity.x + me.acceleration.x,
        me.velocity.y + me.acceleration.y,
        MAX_VELOCITY as int,
    );
    Boid {
        position: Vec2 {
            x: wrap(me.position.x + me.velocity.x, width * SCALE) as i64,
            y: wrap(me.position.y + me.velocity.y, height * SCALE) as i64,
        },
        velocity: Vec2 { x: v.0 as i64, y: v.1 as i64 },
        acceleration: Vec2 { x: 0, y: 0 },
    }
}

/// The pixel column or row an agent is drawn at; negative positions clamp to 0.
pub open spec fn pixel_coord(p: int) -> int {
    if p < 0 {
        0
    } else {
        p / SCALE as int
    }
}

/// The color an agent's body is drawn in.
pub open spec fn body_color() -> Pixel {
    Pixel { red: 255, green: 0, blue: 0 }
}

/// The frame after writing the first `k` pixels, row by row, of the body
/// square whose top left corner is `(x0, y0)`.
pub open spec fn painted(v: FrameView, x0: int, y0: int, k: nat) -> FrameView
    decreases k,
{
    if k == 0 {
        v
    } else {
        let i = k - 1;
        painted(v, x0, y0, (k - 1) as nat).with_pixel(
            x0 + i % (BODY_SIZE as int),
            y0 + i / (BODY_SIZE as int),
            body_color(),
        )
    }
}

/// The frame after `b` draws itself into it.
pub open spec fn drawn(v: FrameView, b: Boid) -> FrameView {
    painted(
        v,
        pixel_coord(b.position.x as int),
        pixel_coord(b.position.y as int),
        (BODY_SIZE * BODY_SIZE) as nat,
    )
}

impl Boid {
    /// The bounds that every operation keeps.
    pub open spec fn wf(self) -> bool {
        -POSITION_LIMIT <= self.position.x <= POSITION_LIMIT && -POSITION_LIMIT
            <= self.position.y <= POSITION_LIMIT && -VELOCITY_LIMIT <= self.velocity.x
            <= VELOCITY_LIMIT && -VELOCITY_LIMIT <= self.velocity.y <= VELOCITY_LIMIT
            && -ACCELERATION_LIMIT <= self.acceleration.x <= ACCELERATION_LIMIT
            && -ACCELERATION_LIMIT <= self.acceleration.y <= ACCELERATION_LIMIT
    }

    /// Room for one more call of `flock` before the next `update`.
    pub open spec fn can_steer(self) -> bool {
        self.wf() && -(ACCELERATION_LIMIT - STEERING_ROOM) <= self.acceleration.x
            <= ACCELERATION_LIMIT - STEERING_ROOM && -(ACCELERATION_LIMIT - STEERING_ROOM)
            <= self.acceleration.y <= ACCELERATION_LIMIT - STEERING_ROOM
    }

    pub fn new(position: Vec2, velocity: Vec2) -> (r: Boid)
        requires
            -POSITION_LIMIT <= position.x <= POSITION_LIMIT,
            -POSITION_LIMIT <= position.y <= POSITION_LIMIT,
            -VELOCITY_LIMIT <= velocity.x <= VELOCITY_LIMIT,
            -VELOCITY_LIMIT <= velocity.y <= VELOCITY_LIMIT,
        ensures
            r.position == position,
            r.velocity == velocity,
            r.acceleration == (Vec2 { x: 0, y: 0 }),
            r.can_steer(),
    {
        Boid { position, velocity, acceleration: Vec2::zero() }
    }

    /// Steering toward the average velocity of the neighbors within 25 pixels.
    pub fn alignment(&self, me_index: usize, boids: &[Boid]) -> (r: Vec2)
        requires
            self.wf(),
            boids.len() <= MAX_POPULATION,
            forall|j: int| 0 <= j < boids.len() ==> (#[trigger] boids[j]).wf(),
        ensures
            r.pair() == steering_of(*self, me_index as int, Rule::Alignment, boids@),
            neighbor_count(*self, me_index as int, Rule::Alignment, boids@) == 0 ==> r.x == 0 && r.y
                == 0,
            neighbor_count(*self, me_index as int, Rule::Alignment, boids@) > 0 ==> r.len_sq()
                <= MAX_FORCE * MAX_FORCE,
            -MAX_FORCE <= r.x <= MAX_FORCE,
            -MAX_FORCE <= r.y <= MAX_FORCE,
    {
        self.steer(me_index, Rule::Alignment, boids)
    }

    /// Steering away from the neighbors within 24 pixels, pushed by each in inverse
    /// proportion to the squared distance.
    pub fn separation(&self, me_index: usize, boids: &[Boid]) -> (r: Vec2)
        requires
            self.wf(),
            boids.len() <= MAX_POPULATION,
            forall|j: int| 0 <= j < boids.len() ==> (#[trigger] boids[j]).wf(),
        ensures
            r.pair() == steering_of(*self, me_index as int, Rule::Separation, boids@),
            neighbor_count(*self, me_index as int, Rule::Separation, boids@) == 0 ==> r.x == 0 && r.y
                == 0,
            neighbor_count(*self, me_index as int, Rule::Separation, boids@) > 0 ==> r.len_sq()
                <= MAX_FORCE * MAX_FORCE,
            -MAX_FORCE <= r.x <= MAX_FORCE,
            -MAX_FORCE <= r.y <= MAX_FORCE,
    {
        self.steer(me_index, Rule::Separation, boids)
    }

    /// Steering toward the centroid of the neighbors within 50 pixels.
    pub fn cohesion(&self, me_index: usize, boids: &[Boid]) -> (r: Vec2)
        requires
            self.wf(),
            boids.len() <= MAX_POPULATION,
            forall|j: int| 0 <= j < boids.len() ==> (#[trigger] boids[j]).wf(),
        ensures
            r.pair() == steering_of(*self, me_index as int, Rule::Cohesion, boids@),
            neighbor_count(*self, me_index as int, Rule::Cohesion, boids@) == 0 ==> r.x == 0 && r.y
                == 0,
            neighbor_count(*self, me_index as int, Rule::Cohesion, boids@) > 0 ==> r.len_sq()
                <= MAX_FORCE * MAX_FORCE,
            -MAX_FORCE <= r.x <= MAX_FORCE,
            -MAX_FORCE <= r.y <= MAX_FORCE,
    {
        self.steer(me_index, Rule::Cohesion, boids)
    }

    /// Adds the three steering forces, weighted 1.5, 1 and 2, to the
    /// acceleration; `boids` is the snapshot of the population, in which this
    /// agent sits at `me_index`.
    pub fn flock(&mut self, me_index: usize, boids: &[Boid])
        requires
            old(self).can_steer(),
            boids.len() <= MAX_POPULATION,
            forall|j: int| 0 <= j < boids.len() ==> (#[trigger] boids[j]).wf(),
        ensures
            *final(self) == flocked(*old(self), me_index as int, boids@),
            final(self).wf(),
    {
        let al = self.alignment(me_index, boids);
        let co = self.cohesion(me_index, boids);
        let se = self.separation(me_index, boids);
        let wx = div_trunc(3 * (al.x as i128), 2) as i64;
        let wy = div_trunc(3 * (al.y as i128), 2) as i64;
        proof {
            lemma_trunc_div_bound(3 * al.x, 2, 300);
            lemma_trunc_div_bound(3 * al.y, 2, 300);
        }
        self.acceleration = Vec2 {
            x: self.acceleration.x + wx + co.x + 2 * se.x,
            y: self.acceleration.y + wy + co.y + 2 * se.y,
        };
    }

    /// Wraps the position into the world of `width` by `height` pixels.
    fn edges(&mut self, width: usize, height: usize)
        requires
            -(POSITION_LIMIT + VELOCITY_LIMIT) <= old(self).position.x <= POSITION_LIMIT
                + VELOCITY_LIMIT,
            -(POSITION_LIMIT + VELOCITY_LIMIT) <= old(self).position.y <= POSITION_LIMIT
                + VELOCITY_LIMIT,
            width <= MAX_DIMENSION,
            height <= MAX_DIMENSION,
        ensures
            final(self).position.x == wrap(old(self).position.x as int, width * SCALE),
            final(self).position.y == wrap(old(self).position.y as int, height * SCALE),
            final(self).velocity == old(self).velocity,
            final(self).acceleration == old(self).acceleration,
    {
        let w = (width as i64) * SCALE;
        let h = (height as i64) * SCALE;
        if self.position.x > w {
            self.position.x = 0;
        } else if self.position.x < 0 {
            self.position.x = w;
        }
        if self.position.y > h {
            self.position.y = 0;
        } else if self.position.y < 0 {
            self.position.y = h;
        }
    }

    /// Advances one frame: moves by the velocity, adds the acceleration to the
    /// velocity and caps its length at the largest speed, clears the
    /// acceleration, and wraps the position into the world.
    pub fn update(&mut self, width: usize, height: usize)
        requires
            old(self).wf(),
            width <= MAX_DIMENSION,
            height <= MAX_DIMENSION,
        ensures
            *final(self) == updated(*old(self), width as int, height as int),
            final(self).velocity.len_sq() <= MAX_VELOCITY * MAX_VELOCITY,
            0 <= final(self).position.x <= width * SCALE,
            0 <= final(self).position.y <= height * SCALE,
            final(self).can_steer(),
    {
        self.position = self.position.add(self.velocity);
        let v = self.velocity.add(self.acceleration);
        let v = v.limit(MAX_VELOCITY);
        self.velocity = v;
        self.acceleration = Vec2::zero();
        self.edges(width, height);
    }

    /// Draws the body square into the active plane of `buffer`; pixels that
    /// fall outside it are skipped.
    pub fn draw(&self, buffer: &mut Buffer)
        requires
            self.wf(),
            old(buffer).wf(),
        ensures
            final(buffer)@ == drawn(old(buffer)@, *self),
            final(buffer).wf(),
    {
        let x0: usize = if self.position.x < 0 {
            0
        } else {
            proof {
                lemma_div_is_ordered(self.position.x as int, POSITION_LIMIT as int, 1000);
                assert(POSITION_LIMIT as int / 1000 == 4294967);
            }
            ((self.position.x as u64) / (SCALE as u64)) as usize
        };
        let y0: usize = if self.position.y < 0 {
            0
        } else {
            proof {
                lemma_div_is_ordered(self.position.y as int, POSITION_LIMIT as int, 1000);
                assert(POSITION_LIMIT as int / 1000 == 4294967);
            }
            ((self.position.y as u64) / (SCALE as u64)) as usize
        };
        let color = Pixel::new(255, 0, 0);
        let mut k: usize = 0;
        while k < BODY_SIZE * BODY_SIZE
            invariant
                k <= BODY_SIZE * BODY_SIZE,
                x0 == pixel_coord(self.position.x as int),
                y0 == pixel_coord(self.position.y as int),
                x0 <= 4294968,
                y0 <= 4294968,
                color == body_color(),
                buffer.wf(),
                buffer@ == painted(old(buffer)@, x0 as int, y0 as int, k as nat),
            decreases BODY_SIZE * BODY_SIZE - k,
        {
            buffer.set_pixel(x0 + k % BODY_SIZE, y0 + k / BODY_SIZE, color);
            k = k + 1;
        }
    }

    /// Squared distance to `other`, exact.
    fn distance_sq(&self, other: &Boid) -> (r: i128)
        requires
            self.wf(),
            other.wf(),
        ensures
            r == dist_sq(*self, *other),
            r >= 0,
    {
        let dx = (self.position.x - other.position.x) as i128;
        let dy = (self.position.y - other.position.y) as i128;
        assert(dx * dx <= 73786976294838206464 && dy * dy <= 73786976294838206464)
            by (nonlinear_arith)
            requires
                -8589934592 <= dx <= 8589934592,
                -8589934592 <= dy <= 8589934592,
        ;
        assert(dx * dx >= 0 && dy * dy >= 0) by (nonlinear_arith);
        dx * dx + dy * dy
    }

    /// What `other`, a neighbor at squared distance `d`, adds under `rule`.
    fn contribution_of(&self, rule: Rule, other: &Boid, d: i128) -> (r: (i64, i64))
        requires
            self.wf(),
            other.wf(),
            d == dist_sq(*self, *other),
            0 <= d < radius_sq(rule),
        ensures
            (r.0 as int, r.1 as int) == contribution(*self, rule, *other),
            -CONTRIBUTION_LIMIT <= r.0 <= CONTRIBUTION_LIMIT,
            -CONTRIBUTION_LIMIT <= r.1 <= CONTRIBUTION_LIMIT,
    {
        match rule {
            Rule::Alignment => (other.velocity.x, other.velocity.y),
            Rule::Cohesion => (other.position.x, other.position.y),
            Rule::Separation => {
                if d == 0 {
                    return (0, 0);
                }
                let dx = self.position.x - other.position.x;
                let dy = self.position.y - other.position.y;
                proof {
                    let (dxi, dyi) = (dx as int, dy as int);
                    assert(-24000 <= dxi <= 24000 && -24000 <= dyi <= 24000) by (nonlinear_arith)
                        requires
                            dxi * dxi + dyi * dyi < 576000000,
                    ;
                }
                let ax = (dx as i128) * 1000000;
                let ay = (dy as i128) * 1000000;
                proof {
                    let c: int = 24000000000;
                    let di = d as int;
                    assert(c <= di * c) by (nonlinear_arith)
                        requires
                            di >= 1,
                            c >= 0,
                    ;
                    lemma_trunc_div_bound(ax as int, d as int, c);
                    lemma_trunc_div_bound(ay as int, d as int, c);
                    assert(dx * SCALE * SCALE == ax);
                    assert(dy * SCALE * SCALE == ay);
                }
                let rx = div_trunc(ax, d);
                let ry = div_trunc(ay, d);
                (rx as i64, ry as i64)
            },
        }
    }

    /// Sum of the contributions of this agent's neighbors under `rule`, and
    /// their number; the agent itself sits at `me_index` in `boids`.
    pub fn neighbor_sum(&self, me_index: usize, rule: Rule, boids: &[Boid]) -> (r: (
        i64,
        i64,
        usize,
    ))
        requires
            self.wf(),
            boids.len() <= MAX_POPULATION,
            forall|j: int| 0 <= j < boids.len() ==> (#[trigger] boids[j]).wf(),
        ensures
            (r.0 as int, r.1 as int, r.2 as int) == neighbor_total(
                *self,
                me_index as int,
                rule,
                boids@,
            ),
            -(r.2 * CONTRIBUTION_LIMIT) <= r.0 <= r.2 * CONTRIBUTION_LIMIT,
            -(r.2 * CONTRIBUTION_LIMIT) <= r.1 <= r.2 * CONTRIBUTION_LIMIT,
    {
        let limit: i128 = match rule {
            Rule::Alignment => ALIGNMENT_RADIUS_SQ,
            Rule::Separation => SEPARATION_RADIUS_SQ,
            Rule::Cohesion => COHESION_RADIUS_SQ,
        };
        let mut sx: i64 = 0;
        let mut sy: i64 = 0;
        let mut count: usize = 0;
        let mut i: usize = 0;
        assert(boids@.subrange(0, 0) =~= Seq::<Boid>::empty());
        while i < boids.len()
            invariant
                i <= boids.len() <= MAX_POPULATION,
                self.wf(),
                limit == radius_sq(rule),
                forall|j: int| 0 <= j < boids.len() ==> (#[trigger] boids[j]).wf(),
                count <= i,
                (sx as int, sy as int, count as int) == neighbor_total(
                    *self,
                    me_index as int,
                    rule,
                    boids@.subrange(0, i as int),
                ),
                -(count * CONTRIBUTION_LIMIT) <= sx <= count * CONTRIBUTION_LIMIT,
                -(count * CONTRIBUTION_LIMIT) <= sy <= count * CONTRIBUTION_LIMIT,
            decreases boids.len() - i,
        {
            let other = boids[i];
            let d = self.distance_sq(&other);
            if i != me_index && d < limit {
                let c = self.contribution_of(rule, &other, d);
                sx = sx + c.0;
                sy = sy + c.1;
                count = count + 1;
            }
            assert(boids@.subrange(0, i + 1).drop_last() =~= boids@.subrange(0, i as int));
            i = i + 1;
        }
        assert(boids@.subrange(0, boids.len() as int) =~= boids@);
        (sx, sy, count)
    }

    /// The steering force of `rule` against the snapshot `boids`.
    pub fn steer(&self, me_index: usize, rule: Rule, boids: &[Boid]) -> (r: Vec2)
        requires
            self.wf(),
            boids.len() <= MAX_POPULATION,
            forall|j: int| 0 <= j < boids.len() ==> (#[trigger] boids[j]).wf(),
        ensures
            r.pair() == steering_of(*self, me_index as int, rule, boids@),
            neighbor_count(*self, me_index as int, rule, boids@) == 0 ==> r.x == 0 && r.y == 0,
            neighbor_count(*self, me_index as int, rule, boids@) > 0 ==> r.len_sq()
                <= MAX_FORCE * MAX_FORCE,
            -MAX_FORCE <= r.x <= MAX_FORCE,
            -MAX_FORCE <= r.y <= MAX_FORCE,
    {
        let (sx, sy, count) = self.neighbor_sum(me_index, rule, boids);
        if count == 0 {
            return Vec2::zero();
        }
        proof {
            lemma_trunc_div_bound(sx as int, count as int, CONTRIBUTION_LIMIT as int);
            lemma_trunc_div_bound(sy as int, count as int, CONTRIBUTION_LIMIT as int);
        }
        let ax = div_trunc(sx as i128, count as i128) as i64;
        let ay = div_trunc(sy as i128, count as i128) as i64;
        let target = match rule {
            Rule::Cohesion => Vec2::new(ax - self.position.x, ay - self.position.y),
            _ => Vec2::new(ax, ay),
        };
        let desired = target.with_magnitude(MAX_VELOCITY);
        let r = desired.sub(self.velocity).limit(MAX_FORCE);
        proof {
            lemma_force_bound(r.x as int, r.y as int);
        }
        r
    }
}

/// An agent alone in its population has no neighbor under any rule, so every
/// steering force on it is zero.
pub proof fn lemma_alone_feels_no_force(me: Boid, bs: Seq<Boid>, rule: Rule)
    requires
        bs.len() == 1,
    ensures
        neighbor_count(me, 0, rule, bs) == 0,
        steering_of(me, 0, rule, bs) == (0int, 0int),
{
    assert(bs.drop_last().len() == 0);
    assert(neighbor_total(me, 0, rule, bs.drop_last()) == (0int, 0int, 0int));
}

proof fn lemma_force_bound(x: int, y: int)
    requires
        norm_sq(x, y) <= MAX_FORCE * MAX_FORCE,
    ensures
        -MAX_FORCE <= x <= MAX_FORCE,
        -MAX_FORCE <= y <= MAX_FORCE,
{
    assert(-200 <= x <= 200 && -200 <= y <= 200) by (nonlinear_arith)
        requires
            x * x + y * y <= 40000,
    ;
}

} // verus!
