//! The arena map: dimensions and circular barriers, generated from a seed.
//!
//! Barrier positions come from a seeded deterministic generator, so a
//! recorded seed reproduces the same positions. Each barrier's radius is
//! derived from a smooth noise field sampled at the barrier's position;
//! the noise field itself is evaluated outside this crate (its programming
//! interface is floating point) and handed in as one fixed-point sample in
//! `[-FX, FX]` per barrier, which `GameMap::new` normalizes into
//! `[0, max_barrier_radius]`.

use vstd::prelude::*;

use crate::fixed::{dist2, dist2_i64, iabs, sq, sq_u128, COORD_LIMIT, FX};
use crate::rng::{random_u64, std_rng_stream, SeededRng};

verus! {

/// An immovable circular obstacle.
#[derive(Clone, Copy, Debug, PartialEq, Eq, Structural)]
pub struct Barrier {
    pub x: i64,
    pub y: i64,
    pub r: i64,
}

/// The arena: dimensions, obstacles and the seed that reproduces them.
#[derive(Clone, Debug)]
pub struct GameMap {
    pub width: i64,
    pub height: i64,
    pub barriers: Vec<Barrier>,
    pub seed: u64,
}

/// A draw folded into `[0, size)`.
pub open spec fn coord_from_draw(u: u64, size: int) -> int
    recommends
        size > 0,
{
    u as int % size
}

/// A noise sample clamped into `[-FX, FX]` and normalized into
/// `[0, max_r]`.
pub open spec fn radius_from_noise(n: int, max_r: int) -> int {
    let c = if n < -(FX as int) {
        -(FX as int)
    } else if n > FX {
        FX as int
    } else {
        n
    };
    (c + FX) * max_r / (2 * (FX as int))
}

/// The barrier a given seed produces at position `i` of the generation
/// sequence: draws `2i` and `2i + 1` give the center, the noise sample
/// gives the radius.
pub open spec fn barrier_at(seed: u64, i: nat, width: int, height: int, max_r: int, n: int) -> Barrier {
    Barrier {
        x: coord_from_draw(std_rng_stream(seed, 2 * i), width) as i64,
        y: coord_from_draw(std_rng_stream(seed, 2 * i + 1), height) as i64,
        r: radius_from_noise(n, max_r) as i64,
    }
}

/// The full barrier sequence of a map.
pub open spec fn barriers_spec(
    seed: u64,
    width: int,
    height: int,
    max_r: int,
    noise: Seq<i64>,
) -> Seq<Barrier> {
    Seq::new(noise.len(), |i: int| barrier_at(seed, i as nat, width, height, max_r, noise[i] as int))
}

impl GameMap {
    /// Dimensions and barriers the rest of the engine can do arithmetic on.
    pub open spec fn wf(&self) -> bool {
        &&& 0 < self.width <= COORD_LIMIT
        &&& 0 < self.height <= COORD_LIMIT
        &&& forall|i: int| #![trigger self.barriers@[i]]
            0 <= i < self.barriers@.len() ==> {
                &&& iabs(self.barriers@[i].x as int) <= COORD_LIMIT
                &&& iabs(self.barriers@[i].y as int) <= COORD_LIMIT
                &&& 0 <= self.barriers@[i].r <= COORD_LIMIT
            }
    }

    /// Generate a map from a seed. `radius_noise` holds one fixed-point
    /// noise-field sample per requested barrier, taken at the position
    /// the seed produces for that barrier (`barrier_at` names it); the
    /// same seed and samples always rebuild the same map.
    pub fn new(
        width: i64,
        height: i64,
        barriers_amount: u8,
        max_barrier_radius: i64,
        seed: u64,
        radius_noise: Vec<i64>,
    ) -> (m: GameMap)
        requires
            0 < width <= COORD_LIMIT,
            0 < height <= COORD_LIMIT,
            0 <= max_barrier_radius <= COORD_LIMIT,
            radius_noise@.len() == barriers_amount as nat,
        ensures
            m.width == width,
            m.height == height,
            m.seed == seed,
            m.barriers@ == barriers_spec(
                seed,
                width as int,
                height as int,
                max_barrier_radius as int,
                radius_noise@,
            ),
            m.wf(),
            forall|i: int| #![trigger m.barriers@[i]]
                0 <= i < m.barriers@.len() ==> {
                    &&& 0 <= m.barriers@[i].x < width
                    &&& 0 <= m.barriers@[i].y < height
                    &&& 0 <= m.barriers@[i].r <= max_barrier_radius
                },
    {
        let mut rng = SeededRng::new(seed);
        let mut barriers: Vec<Barrier> = Vec::new();
        let count: usize = barriers_amount as usize;
        let ghost gspec = barriers_spec(
            seed,
            width as int,
            height as int,
            max_barrier_radius as int,
            radius_noise@,
        );
        let mut i: usize = 0;
        while i < count
        invariant
            0 < width <= COORD_LIMIT,
            0 < height <= COORD_LIMIT,
            0 <= max_barrier_radius <= COORD_LIMIT,
            radius_noise@.len() == count,
            i <= count,
            rng.seed_spec() == seed,
            rng.drawn() == 2 * i,
            gspec == barriers_spec(
                seed,
                width as int,
                height as int,
                max_barrier_radius as int,
                radius_noise@,
            ),
            barriers@.len() == i,
            forall|j: int| 0 <= j < i ==> barriers@[j] == gspec[j],
            forall|j: int| #![trigger barriers@[j]]
                0 <= j < i ==> {
                    &&& 0 <= barriers@[j].x < width
                    &&& 0 <= barriers@[j].y < height
                    &&& 0 <= barriers@[j].r <= max_barrier_radius
                },
        decreases count - i,
        {
            let ux: u64 = rng.next();
            let uy: u64 = rng.next();
            let x: i64 = (ux % (width as u64)) as i64;
            let y: i64 = (uy % (height as u64)) as i64;
            let n: i64 = radius_noise[i];
            let c: i64 = if n < -FX {
                -FX
            } else if n > FX {
                FX
            } else {
                n
            };
            proof {
                assert(0 <= (c + FX) as int * max_barrier_radius as int <= 2 * (FX as int)
                    * COORD_LIMIT) by (nonlinear_arith)
                    requires
                        0 <= c + FX <= 2 * (FX as int),
                        0 <= max_barrier_radius <= COORD_LIMIT,
                ;
                assert((c + FX) as int * max_barrier_radius as int / (2 * (FX as int))
                    <= max_barrier_radius) by (nonlinear_arith)
                    requires
                        0 <= c + FX <= 2 * (FX as int),
                        0 <= max_barrier_radius,
                ;
            }
            let r: i64 = (((c + FX) as u128 * max_barrier_radius as u128) / (2 * FX as u128)) as i64;
            proof {
                assert(barrier_at(
                    seed,
                    i as nat,
                    width as int,
                    height as int,
                    max_barrier_radius as int,
                    radius_noise@[i as int] as int,
                ) == Barrier { x, y, r });
            }
            barriers.push(Barrier { x, y, r });
            i = i + 1;
        }
        proof {
            assert(barriers@ =~= gspec);
        }
        GameMap { width, height, barriers, seed }
    }

    /// Rejection-sample a point whose surrounding disc of radius `r` lies
    /// inside the borders and clear of every barrier. With no barriers the
    /// first draw is taken; with barriers that leave no room the sampling
    /// gives up after a fixed number of draws and returns nothing, a
    /// configuration error the caller reports.
    pub fn get_free_point(&self, r: i64) -> (p: Option<(i64, i64)>)
        requires
            self.wf(),
            0 <= r,
            2 * r < self.width,
            2 * r < self.height,
        ensures
            match p {
                Some(q) => {
                    &&& r <= q.0 < self.width - r
                    &&& r <= q.1 < self.height - r
                    &&& forall|i: int|
                        0 <= i < self.barriers@.len() ==> dist2(
                            q.0 as int,
                            q.1 as int,
                            self.barriers@[i].x as int,
                            self.barriers@[i].y as int,
                        ) >= sq(r + self.barriers@[i].r)
                },
                None => self.barriers@.len() > 0,
            },
    {
        let mut attempts: u32 = 0;
        while attempts < 100_000
            invariant
                self.wf(),
                0 <= r,
                2 * r < self.width,
                2 * r < self.height,
                attempts > 0 ==> self.barriers@.len() > 0,
            decreases 100_000 - attempts,
        {
            attempts = attempts + 1;
            let spanx: i64 = self.width - 2 * r;
            let spany: i64 = self.height - 2 * r;
            let x: i64 = r + (random_u64() % (spanx as u64)) as i64;
            let y: i64 = r + (random_u64() % (spany as u64)) as i64;
            let mut clear = true;
            let mut i: usize = 0;
            while i < self.barriers.len()
                invariant
                    self.wf(),
                    0 <= r <= COORD_LIMIT,
                    iabs(x as int) <= COORD_LIMIT,
                    iabs(y as int) <= COORD_LIMIT,
                    i <= self.barriers@.len(),
                    clear <==> forall|j: int|
                        0 <= j < i ==> dist2(
                            x as int,
                            y as int,
                            self.barriers@[j].x as int,
                            self.barriers@[j].y as int,
                        ) >= sq(r + self.barriers@[j].r),
                decreases self.barriers@.len() - i,
            {
                let b = self.barriers[i];
                proof {
                    assert(self.barriers@[i as int] == b);
                    assert(0 <= b.r <= COORD_LIMIT);
                }
                let d2: u128 = dist2_i64(x, y, b.x, b.y);
                let reach: u128 = sq_u128(r + b.r);
                if d2 < reach {
                    clear = false;
                }
                i = i + 1;
            }
            if clear {
                return Some((x, y));
            }
            proof {
                assert(!(forall|j: int|
                    0 <= j < self.barriers@.len() ==> dist2(
                        x as int,
                        y as int,
                        self.barriers@[j].x as int,
                        self.barriers@[j].y as int,
                    ) >= sq(r + self.barriers@[j].r)));
                assert(self.barriers@.len() > 0);
            }
        }
        None
    }
}

/// Drawing a fresh seed from entropy, for a map built without one.
pub fn fresh_seed() -> u64 {
    random_u64()
}

/// Generation is deterministic: the same seed, dimensions, radius cap and
/// noise samples always rebuild the same map, so a recorded seed
/// reproduces its map.
pub proof fn lemma_generation_deterministic(
    m1: GameMap,
    m2: GameMap,
    seed: u64,
    width: int,
    height: int,
    max_r: int,
    noise: Seq<i64>,
)
    requires
        m1.width == width,
        m1.height == height,
        m1.seed == seed,
        m1.barriers@ == barriers_spec(seed, width, height, max_r, noise),
        m2.width == width,
        m2.height == height,
        m2.seed == seed,
        m2.barriers@ == barriers_spec(seed, width, height, max_r, noise),
    ensures
        m1.width == m2.width,
        m1.height == m2.height,
        m1.seed == m2.seed,
        m1.barriers@ =~= m2.barriers@,
{
}

} // verus!
