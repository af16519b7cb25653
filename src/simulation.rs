use crate::boid::{
    drawn, flocked, updated, Boid, MAX_DIMENSION, MAX_POPULATION,
};
use crate::buffer::{Buffer, FrameView};
use crate::vector::{Vec2, SCALE};
use vstd::prelude::*;

verus! {

/// Number of agents in a simulation started from random draws.
pub const POPULATION: usize = 100;

/// Number of random words that make one agent.
pub const DRAWS_PER_AGENT: usize = 4;

/// Maps a uniformly random word into `[start, end]`.
pub open spec fn in_range_of(number: int, start: int, end: int) -> int {
    number % (end - start + 1) + start
}

/// Maps a uniformly random word into `[start, end]`.
pub fn range_from_random(number: usize, start: usize, end: usize) -> (r: usize)
    requires
        start <= end < usize::MAX,
    ensures
        r == in_range_of(number as int, start as int, end as int),
        start <= r <= end,
{
    number % (end - start + 1) + start
}

/// The agent made from four random words: a position inside the world and a
/// velocity of 2 to 4 pixels per frame on each axis.
pub open spec fn initial_boid(d: Seq<usize>, k: int, width: int, height: int) -> Boid {
    let b = DRAWS_PER_AGENT as int * k;
    Boid {
        position: Vec2 {
            x: (in_range_of(d[b] as int, 0, width) * SCALE) as i64,
            y: (in_range_of(d[b + 1] as int, 0, height) * SCALE) as i64,
        },
        velocity: Vec2 {
            x: (in_range_of(d[b + 2] as int, 2, 4) * SCALE) as i64,
            y: (in_range_of(d[b + 3] as int, 2, 4) * SCALE) as i64,
        },
        acceleration: Vec2 { x: 0, y: 0 },
    }
}

/// The population one frame later: each agent flocks against the snapshot
/// `bs` of the whole population, then updates.
pub open spec fn stepped(bs: Seq<Boid>, width: int, height: int) -> Seq<Boid> {
    Seq::new(bs.len(), |j: int| updated(flocked(bs[j], j, bs), width, height))
}

/// The frame after the first `n` agents of `bs` draw themselves, in order.
pub open spec fn drawn_all(v: FrameView, bs: Seq<Boid>, n: nat) -> FrameView
    decreases n,
{
    if n == 0 {
        v
    } else {
        drawn(drawn_all(v, bs, (n - 1) as nat), bs[n - 1])
    }
}

/// A population of agents in a world of `width` by `height` pixels.
#[derive(Debug)]
pub struct Simulation {
    boids: Vec<Boid>,
    width: usize,
    height: usize,
}

impl Simulation {
    pub closed spec fn agents(&self) -> Seq<Boid> {
        self.boids@
    }

    pub closed spec fn world_width(&self) -> nat {
        self.width as nat
    }

    pub closed spec fn world_height(&self) -> nat {
        self.height as nat
    }

    pub open spec fn wf(&self) -> bool {
        self.agents().len() <= MAX_POPULATION && self.world_width() <= MAX_DIMENSION
            && self.world_height() <= MAX_DIMENSION && forall|j: int|
            0 <= j < self.agents().len() ==> (#[trigger] self.agents()[j]).can_steer()
    }

    /// One agent for each four words of `draws`, in order.
    pub fn new(draws: &Vec<usize>, width: usize, height: usize) -> (r: Simulation)
        requires
            draws.len() <= DRAWS_PER_AGENT * MAX_POPULATION,
            width <= MAX_DIMENSION,
            height <= MAX_DIMENSION,
        ensures
            r.wf(),
            r.world_width() == width,
            r.world_height() == height,
            r.agents().len() == draws.len() / DRAWS_PER_AGENT,
            forall|k: int|
                0 <= k < r.agents().len() ==> #[trigger] r.agents()[k] == initial_boid(
                    draws@,
                    k,
                    width as int,
                    height as int,
                ),
    {
        let n = draws.len() / DRAWS_PER_AGENT;
        let mut boids: Vec<Boid> = Vec::new();
        let mut k: usize = 0;
        while k < n
            invariant
                n == draws.len() / DRAWS_PER_AGENT,
                n <= MAX_POPULATION,
                k <= n,
                width <= MAX_DIMENSION,
                height <= MAX_DIMENSION,
                boids@.len() == k,
                forall|j: int|
                    0 <= j < k ==> #[trigger] boids@[j] == initial_boid(
                        draws@,
                        j,
                        width as int,
                        height as int,
                    ),
                forall|j: int| 0 <= j < k ==> (#[trigger] boids@[j]).can_steer(),
            decreases n - k,
        {
            let b = DRAWS_PER_AGENT * k;
            let px = range_from_random(draws[b], 0, width) as i64;
            let py = range_from_random(draws[b + 1], 0, height) as i64;
            let vx = range_from_random(draws[b + 2], 2, 4) as i64;
            let vy = range_from_random(draws[b + 3], 2, 4) as i64;
            let boid = Boid::new(
                Vec2::new(px * SCALE, py * SCALE),
                Vec2::new(vx * SCALE, vy * SCALE),
            );
            boids.push(boid);
            k = k + 1;
        }
        Simulation { boids, width, height }
    }

    pub fn boids(&self) -> (r: &Vec<Boid>)
        ensures
            r@ == self.agents(),
    {
        &self.boids
    }

    pub fn width(&self) -> (r: usize)
        ensures
            r == self.world_width(),
    {
        self.width
    }

    pub fn height(&self) -> (r: usize)
        ensures
            r == self.world_height(),
    {
        self.height
    }

    /// A copy of the population, separate from it.
    fn snapshot(&self) -> (r: Vec<Boid>)
        ensures
            r@ == self.agents(),
    {
        let mut r: Vec<Boid> = Vec::new();
        let mut i: usize = 0;
        while i < self.boids.len()
            invariant
                i <= self.boids.len(),
                r@ == self.boids@.subrange(0, i as int),
            decreases self.boids.len() - i,
        {
            r.push(self.boids[i]);
            i = i + 1;
            assert(r@ =~= self.boids@.subrange(0, i as int));
        }
        assert(self.boids@.subrange(0, self.boids.len() as int) =~= self.boids@);
        r
    }

    /// One frame: every agent flocks against a snapshot of the population
    /// taken before any of them moved, updates, and draws itself into the
    /// active plane of `buffer`, in order.
    pub fn step(&mut self, buffer: &mut Buffer)
        requires
            old(self).wf(),
            old(buffer).wf(),
        ensures
            final(self).wf(),
            final(self).world_width() == old(self).world_width(),
            final(self).world_height() == old(self).world_height(),
            final(self).agents() == stepped(
                old(self).agents(),
                old(self).world_width() as int,
                old(self).world_height() as int,
            ),
            final(buffer)@ == drawn_all(
                old(buffer)@,
                final(self).agents(),
                final(self).agents().len(),
            ),
            final(buffer).wf(),
    {
        let snapshot = self.snapshot();
        let ghost next = stepped(snapshot@, self.width as int, self.height as int);
        let n = self.boids.len();
        let mut i: usize = 0;
        while i < n
            invariant
                n == self.boids.len() == snapshot.len(),
                n <= MAX_POPULATION,
                i <= n,
                self.width == old(self).width,
                self.height == old(self).height,
                self.width <= MAX_DIMENSION,
                self.height <= MAX_DIMENSION,
                next == stepped(snapshot@, self.width as int, self.height as int),
                forall|j: int| 0 <= j < n ==> (#[trigger] snapshot@[j]).can_steer(),
                forall|j: int| 0 <= j < i ==> #[trigger] self.boids@[j] == next[j],
                forall|j: int| i <= j < n ==> #[trigger] self.boids@[j] == snapshot@[j],
                forall|j: int| 0 <= j < n ==> (#[trigger] self.boids@[j]).can_steer(),
                buffer.wf(),
                buffer@ == drawn_all(old(buffer)@, next, i as nat),
            decreases n - i,
        {
            let mut b = self.boids[i];
            b.flock(i, snapshot.as_slice());
            b.update(self.width, self.height);
            b.draw(buffer);
            self.boids.set(i, b);
            i = i + 1;
        }
        assert(self.boids@ =~= next);
    }
}

} // verus!
