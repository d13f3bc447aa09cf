//! The ray engine: sphere tracing over the map, its barriers and the other
//! agents, and the per-agent view fan built on it.
//!
//! A ray marches from its start point by the least distance to any scene
//! object until that distance falls under `DISTANCE_LIMIT_FX`; the class of
//! the nearest object then names the hit. Steps never overshoot the
//! borders, and a defensive fuel cap bounds the march.

use vstd::prelude::*;

use crate::fixed::{
    dist2, dist2_i64, iabs, lemma_dist2_bound, march_spec, march_step, sqrt_dist, sqrt_floor,
    COORD_LIMIT, FX,
};
use crate::game::Game;
use crate::game::GameView;
use crate::map::Barrier;
use crate::player::{Player, ViewHit};
use crate::trig::{
    cos_fx, cos_fx_spec, lemma_trig_periodic, reduce_turn, sin_fx, sin_fx_spec, FULL_TURN_FX,
};

verus! {

/// A ray stops when the nearest object is at most this close.
pub const DISTANCE_LIMIT_FX: i64 = 100;

/// Defensive cap on march iterations.
pub const RAY_FUEL: u32 = 10_000;

/// What a ray hit, and where.
#[derive(Clone, Copy, Debug, PartialEq, Eq, Structural)]
pub enum RayHit {
    Border(i64, i64),
    Barrier(i64, i64),
    Player(i64, i64),
}

/// The hit point of a ray stays in the coordinate range.
pub open spec fn hit_in_range(r: RayHit) -> bool {
    match r {
        RayHit::Border(a, b) => iabs(a as int) <= 2 * COORD_LIMIT && iabs(b as int) <= 2
            * COORD_LIMIT,
        RayHit::Barrier(a, b) => iabs(a as int) <= 2 * COORD_LIMIT && iabs(b as int) <= 2
            * COORD_LIMIT,
        RayHit::Player(a, b) => iabs(a as int) <= 2 * COORD_LIMIT && iabs(b as int) <= 2
            * COORD_LIMIT,
    }
}

/// Conservative distance from a point to the nearest border: the
/// perpendicular distance to the closer axis, never an overestimate.
pub open spec fn border_distance_spec(width: int, height: int, x: int, y: int) -> int {
    let dx = width / 2 - iabs(x - width / 2);
    let dy = height / 2 - iabs(y - height / 2);
    if dx < dy {
        dx
    } else {
        dy
    }
}

/// The least of `acc` and the distances to barriers `bs[i..]`.
pub open spec fn min_barrier_distance(bs: Seq<Barrier>, x: int, y: int, acc: int, i: int) -> int
    decreases bs.len() - i,
{
    if i >= bs.len() || i < 0 {
        acc
    } else {
        let d = sqrt_floor(dist2(x, y, bs[i].x as int, bs[i].y as int)) - bs[i].r;
        min_barrier_distance(bs, x, y, if d < acc {
            d
        } else {
            acc
        }, i + 1)
    }
}

/// The least of `acc` and the distances to the agents `ps[i..]` other than
/// the caster.
pub open spec fn min_player_distance(
    ps: Seq<Player>,
    x: int,
    y: int,
    pid: usize,
    acc: int,
    i: int,
) -> int
    decreases ps.len() - i,
{
    if i >= ps.len() || i < 0 {
        acc
    } else if ps[i].id == pid {
        min_player_distance(ps, x, y, pid, acc, i + 1)
    } else {
        let d = sqrt_floor(dist2(x, y, ps[i].x as int, ps[i].y as int)) - ps[i].r;
        min_player_distance(ps, x, y, pid, if d < acc {
            d
        } else {
            acc
        }, i + 1)
    }
}

/// The sphere-tracing recursion: classify the nearest object, stop if it
/// is within the limit (or the fuel is out, counted a border hit), else
/// advance by the free distance and march on.
pub open spec fn ray_march_spec(
    g: GameView,
    x: int,
    y: int,
    dir: int,
    pid: usize,
    fuel: nat,
) -> RayHit
    decreases fuel,
{
    let bd = border_distance_spec(g.width, g.height, x, y);
    if bd <= DISTANCE_LIMIT_FX {
        RayHit::Border(x as i64, y as i64)
    } else {
        let d1 = min_barrier_distance(g.barriers, x, y, bd, 0);
        if d1 <= DISTANCE_LIMIT_FX {
            RayHit::Barrier(x as i64, y as i64)
        } else {
            let d2 = min_player_distance(g.players, x, y, pid, d1, 0);
            if d2 <= DISTANCE_LIMIT_FX {
                RayHit::Player(x as i64, y as i64)
            } else if fuel == 0 {
                RayHit::Border(x as i64, y as i64)
            } else {
                ray_march_spec(
                    g,
                    x + march_spec(sin_fx_spec(dir), d2),
                    y + march_spec(cos_fx_spec(dir), d2),
                    dir,
                    pid,
                    (fuel - 1) as nat,
                )
            }
        }
    }
}

/// Conservative border distance, computed.
fn border_distance(width: i64, height: i64, x: i64, y: i64) -> (d: i64)
    requires
        0 < width <= COORD_LIMIT,
        0 < height <= COORD_LIMIT,
        iabs(x as int) <= 2 * COORD_LIMIT,
        iabs(y as int) <= 2 * COORD_LIMIT,
    ensures
        d == border_distance_spec(width as int, height as int, x as int, y as int),
        d <= width / 2,
        d <= height / 2,
{
    let hw: i64 = (width as u64 / 2) as i64;
    let hh: i64 = (height as u64 / 2) as i64;
    let ax: i64 = if x - hw >= 0 {
        x - hw
    } else {
        -(x - hw)
    };
    let ay: i64 = if y - hh >= 0 {
        y - hh
    } else {
        -(y - hh)
    };
    let dx: i64 = hw - ax;
    let dy: i64 = hh - ay;
    if dx < dy {
        dx
    } else {
        dy
    }
}

/// Least barrier distance, computed by folding the roster.
fn barrier_distance_fold(bs: &Vec<Barrier>, x: i64, y: i64, acc: i64) -> (r: i64)
    requires
        forall|k: int|
            0 <= k < bs@.len() ==> {
                &&& iabs((#[trigger] bs@[k]).x as int) <= COORD_LIMIT
                &&& iabs(bs@[k].y as int) <= COORD_LIMIT
                &&& 0 <= bs@[k].r <= COORD_LIMIT
            },
        iabs(x as int) <= 2 * COORD_LIMIT,
        iabs(y as int) <= 2 * COORD_LIMIT,
        0 <= acc <= COORD_LIMIT,
    ensures
        r == min_barrier_distance(bs@, x as int, y as int, acc as int, 0),
        r <= acc,
        -(2 * COORD_LIMIT) <= r,
{
    let n = bs.len();
    let mut cur: i64 = acc;
    let mut i: usize = 0;
    while i < n
        invariant
            forall|k: int|
                0 <= k < bs@.len() ==> {
                    &&& iabs((#[trigger] bs@[k]).x as int) <= COORD_LIMIT
                    &&& iabs(bs@[k].y as int) <= COORD_LIMIT
                    &&& 0 <= bs@[k].r <= COORD_LIMIT
                },
            iabs(x as int) <= 2 * COORD_LIMIT,
            iabs(y as int) <= 2 * COORD_LIMIT,
            n == bs@.len(),
            0 <= i <= n,
            -(2 * COORD_LIMIT) <= cur <= acc,
            min_barrier_distance(bs@, x as int, y as int, acc as int, 0) == min_barrier_distance(
                bs@,
                x as int,
                y as int,
                cur as int,
                i as int,
            ),
        decreases n - i,
    {
        let b = bs[i];
        proof {
            assert(bs@[i as int] == b);
            lemma_dist2_bound(x as int, y as int, b.x as int, b.y as int);
        }
        let d2: u128 = dist2_i64(x, y, b.x, b.y);
        let d: i64 = sqrt_dist(d2) - b.r;
        if d < cur {
            cur = d;
        }
        i = i + 1;
    }
    cur
}

/// Least foreign-agent distance, computed by folding the roster.
fn player_distance_fold(ps: &Vec<Player>, x: i64, y: i64, pid: usize, acc: i64) -> (r: i64)
    requires
        forall|k: int| 0 <= k < ps@.len() ==> (#[trigger] ps@[k]).wf(),
        iabs(x as int) <= 2 * COORD_LIMIT,
        iabs(y as int) <= 2 * COORD_LIMIT,
        0 <= acc <= COORD_LIMIT,
    ensures
        r == min_player_distance(ps@, x as int, y as int, pid, acc as int, 0),
        r <= acc,
        -(2 * COORD_LIMIT) <= r,
{
    let n = ps.len();
    let mut cur: i64 = acc;
    let mut i: usize = 0;
    while i < n
        invariant
            forall|k: int| 0 <= k < ps@.len() ==> (#[trigger] ps@[k]).wf(),
            iabs(x as int) <= 2 * COORD_LIMIT,
            iabs(y as int) <= 2 * COORD_LIMIT,
            n == ps@.len(),
            0 <= i <= n,
            -(2 * COORD_LIMIT) <= cur <= acc,
            min_player_distance(ps@, x as int, y as int, pid, acc as int, 0)
                == min_player_distance(ps@, x as int, y as int, pid, cur as int, i as int),
        decreases n - i,
    {
        let p = ps[i];
        proof {
            assert(ps@[i as int] == p);
            assert(p.wf());
            lemma_dist2_bound(x as int, y as int, p.x as int, p.y as int);
        }
        if p.id != pid {
            let d2: u128 = dist2_i64(x, y, p.x, p.y);
            let d: i64 = sqrt_dist(d2) - p.r;
            if d < cur {
                cur = d;
            }
        }
        i = i + 1;
    }
    cur
}

/// March one ray through the world and classify what it first comes close
/// to, ignoring the casting agent itself.
pub fn ray_marching(game: &Game, x: i64, y: i64, direction: i64, player_id: usize) -> (r: RayHit)
    requires
        game.wf(),
        iabs(x as int) <= 2 * COORD_LIMIT,
        iabs(y as int) <= 2 * COORD_LIMIT,
    ensures
        r == ray_march_spec(
            game.gv(),
            x as int,
            y as int,
            direction as int,
            player_id,
            RAY_FUEL as nat,
        ),
        hit_in_range(r),
{
    let s = sin_fx(direction);
    let c = cos_fx(direction);
    let mut cx: i64 = x;
    let mut cy: i64 = y;
    let mut fuel: u32 = RAY_FUEL;
    loop
        invariant
            game.wf(),
            iabs(cx as int) <= 2 * COORD_LIMIT,
            iabs(cy as int) <= 2 * COORD_LIMIT,
            s == sin_fx_spec(direction as int),
            c == cos_fx_spec(direction as int),
            iabs(s as int) <= FX,
            iabs(c as int) <= FX,
            ray_march_spec(
                game.gv(),
                x as int,
                y as int,
                direction as int,
                player_id,
                RAY_FUEL as nat,
            ) == ray_march_spec(
                game.gv(),
                cx as int,
                cy as int,
                direction as int,
                player_id,
                fuel as nat,
            ),
        decreases fuel,
    {
        let bd = border_distance(game.map.width, game.map.height, cx, cy);
        if bd <= DISTANCE_LIMIT_FX {
            return RayHit::Border(cx, cy);
        }
        let d1 = barrier_distance_fold(&game.map.barriers, cx, cy, bd);
        if d1 <= DISTANCE_LIMIT_FX {
            return RayHit::Barrier(cx, cy);
        }
        let d2 = player_distance_fold(&game.players, cx, cy, player_id, d1);
        if d2 <= DISTANCE_LIMIT_FX {
            return RayHit::Player(cx, cy);
        }
        if fuel == 0 {
            return RayHit::Border(cx, cy);
        }
        let ghost px = cx as int;
        let ghost py = cy as int;
        let mx = march_step(s, d2);
        let my = march_step(c, d2);
        proof {
            lemma_step_stays_inside(
                game.map.width as int,
                game.map.height as int,
                px,
                py,
                d2 as int,
                mx as int,
                my as int,
            );
        }
        cx = cx + mx;
        cy = cy + my;
        fuel = fuel - 1;
    }
}

/// A march's outcome depends on the heading only through its sine and
/// cosine.
pub proof fn lemma_ray_march_dir_equiv(
    g: GameView,
    x: int,
    y: int,
    d1: int,
    d2: int,
    pid: usize,
    fuel: nat,
)
    requires
        sin_fx_spec(d1) == sin_fx_spec(d2),
        cos_fx_spec(d1) == cos_fx_spec(d2),
    ensures
        ray_march_spec(g, x, y, d1, pid, fuel) == ray_march_spec(g, x, y, d2, pid, fuel),
    decreases fuel,
{
    let bd = border_distance_spec(g.width, g.height, x, y);
    if bd <= DISTANCE_LIMIT_FX {
    } else {
        let m1 = min_barrier_distance(g.barriers, x, y, bd, 0);
        if m1 <= DISTANCE_LIMIT_FX {
        } else {
            let m2 = min_player_distance(g.players, x, y, pid, m1, 0);
            if m2 <= DISTANCE_LIMIT_FX || fuel == 0 {
            } else {
                lemma_ray_march_dir_equiv(
                    g,
                    x + march_spec(sin_fx_spec(d1), m2),
                    y + march_spec(cos_fx_spec(d1), m2),
                    d1,
                    d2,
                    pid,
                    (fuel - 1) as nat,
                );
            }
        }
    }
}

/// The spacing of the ray fan: the view angle split over the gaps between
/// rays (the whole angle when there is a single ray).
pub open spec fn ray_offset_spec(view_angle: int, rays: int) -> int {
    if rays > 1 {
        view_angle / (rays - 1)
    } else {
        view_angle
    }
}

/// The heading of ray `i` of an agent's fan: offsets are counted from
/// `i - rays / 2` with integer division, which leaves an even fan
/// slightly off-center by design.
pub open spec fn ray_direction_spec(p: Player, i: int) -> int {
    p.direction + (i - (p.rays_amount as int) / 2) * ray_offset_spec(
        p.view_angle as int,
        p.rays_amount as int,
    )
}

/// What ray `i` of an agent's view reports: the hit class and the hit
/// point's distance from the agent's rim.
pub open spec fn view_hit_spec(g: GameView, p: Player, i: int) -> ViewHit {
    match ray_march_spec(
        g,
        p.x as int,
        p.y as int,
        ray_direction_spec(p, i),
        p.id,
        RAY_FUEL as nat,
    ) {
        RayHit::Border(hx, hy) => ViewHit::Border(
            (sqrt_floor(dist2(p.x as int, p.y as int, hx as int, hy as int)) - p.r) as i64,
        ),
        RayHit::Barrier(hx, hy) => ViewHit::Barrier(
            (sqrt_floor(dist2(p.x as int, p.y as int, hx as int, hy as int)) - p.r) as i64,
        ),
        RayHit::Player(hx, hy) => ViewHit::Enemy(
            (sqrt_floor(dist2(p.x as int, p.y as int, hx as int, hy as int)) - p.r) as i64,
        ),
    }
}

/// An agent's whole view: one record per ray, in fan order.
pub open spec fn view_spec(g: GameView, p: Player) -> Seq<ViewHit> {
    Seq::new(p.rays_amount as nat, |i: int| view_hit_spec(g, p, i))
}

impl Game {
    /// The egocentric view of the agent with the given id: one distance
    /// record per sight ray. An unknown id sees nothing.
    pub fn view(&self, player_id: usize) -> (r: Vec<ViewHit>)
        requires
            self.wf(),
        ensures
            match Game::index_of_id(self.players@, player_id, 0) {
                Some(j) => r@ == view_spec(self.gv(), self.players@[j]),
                None => r@ == Seq::<ViewHit>::empty(),
            },
    {
        let found = self.find_player_index(player_id);
        let j = match found {
            Some(j) => j,
            None => {
                return Vec::new();
            },
        };
        let p = self.players[j];
        proof {
            assert(self.players@[j as int] == p);
            assert(p.wf());
        }
        let rays: u16 = p.rays_amount;
        let offset: i64 = if rays > 1 {
            ((p.view_angle as u64) / ((rays - 1) as u64)) as i64
        } else {
            p.view_angle
        };
        proof {
            assert(offset == ray_offset_spec(p.view_angle as int, p.rays_amount as int));
            assert(0 <= offset <= p.view_angle);
        }
        let mut res: Vec<ViewHit> = Vec::new();
        let mut i: u16 = 0;
        while i < rays
            invariant
                self.wf(),
                0 <= j < self.players@.len(),
                self.players@[j as int] == p,
                p.wf(),
                rays == p.rays_amount,
                offset == ray_offset_spec(p.view_angle as int, p.rays_amount as int),
                0 <= offset <= FULL_TURN_FX,
                0 <= i <= rays,
                res@.len() == i,
                forall|k: int| 0 <= k < i ==> res@[k] == view_hit_spec(self.gv(), p, k),
            decreases rays - i,
        {
            let norm: i64 = i as i64 - (rays / 2) as i64;
            proof {
                assert(-3_600_000_000_000 <= norm * offset <= 3_600_000_000_000)
                    by (nonlinear_arith)
                    requires
                        -65536 <= norm <= 65536,
                        0 <= offset <= 3_600_000,
                ;
            }
            let full_dir: i128 = p.direction as i128 + (norm * offset) as i128;
            let rd: i64 = reduce_turn(full_dir);
            proof {
                assert(full_dir == ray_direction_spec(p, i as int));
                lemma_trig_periodic(ray_direction_spec(p, i as int));
                lemma_ray_march_dir_equiv(
                    self.gv(),
                    p.x as int,
                    p.y as int,
                    rd as int,
                    ray_direction_spec(p, i as int),
                    p.id,
                    RAY_FUEL as nat,
                );
            }
            let hit = ray_marching(self, p.x, p.y, rd, p.id);
            let (hx, hy): (i64, i64) = match hit {
                RayHit::Border(a, b) => (a, b),
                RayHit::Barrier(a, b) => (a, b),
                RayHit::Player(a, b) => (a, b),
            };
            proof {
                lemma_dist2_bound(p.x as int, p.y as int, hx as int, hy as int);
            }
            let dist: i64 = sqrt_dist(dist2_i64(p.x, p.y, hx, hy)) - p.r;
            let record = match hit {
                RayHit::Border(_, _) => ViewHit::Border(dist),
                RayHit::Barrier(_, _) => ViewHit::Barrier(dist),
                RayHit::Player(_, _) => ViewHit::Enemy(dist),
            };
            res.push(record);
            i = i + 1;
        }
        proof {
            assert(res@ =~= view_spec(self.gv(), p));
        }
        res
    }
}

/// A march step bounded by the conservative border distance keeps the
/// point inside the map.
proof fn lemma_step_stays_inside(
    width: int,
    height: int,
    x: int,
    y: int,
    d: int,
    mx: int,
    my: int,
)
    requires
        0 < width,
        0 < height,
        0 < d,
        d <= border_distance_spec(width, height, x, y),
        iabs(mx) <= d,
        iabs(my) <= d,
    ensures
        0 <= x + mx <= width,
        0 <= y + my <= height,
{
    let hw = width / 2;
    let hh = height / 2;
    assert(2 * hw <= width && width <= 2 * hw + 1) by {
        vstd::arithmetic::div_mod::lemma_fundamental_div_mod(width, 2);
        vstd::arithmetic::div_mod::lemma_mod_bound(width, 2);
    }
    assert(2 * hh <= height && height <= 2 * hh + 1) by {
        vstd::arithmetic::div_mod::lemma_fundamental_div_mod(height, 2);
        vstd::arithmetic::div_mod::lemma_mod_bound(height, 2);
    }
}

} // verus!
