//! The world: a map, agents and projectiles, advanced by a fixed-substep
//! tick with collision handling and win detection.
//!
//! `advance_spec` is the mathematical model of the tick: it consumes a
//! real-time delta in whole substeps of `TIME_STEP_FX` (the last substep
//! uses whatever fraction remains, while the bookkeeping still subtracts a
//! full step), moves agents with border clamping and barrier reverts,
//! detects a draw or a winner, then moves projectiles and drops those that
//! leave the map, touch a barrier or hit a foreign agent. `Game::process`
//! is proved to compute exactly this model.

use vstd::prelude::*;

use crate::fixed::{
    clamp_coord, clamp_spec, dist2, dist2_i64, iabs, scaled_step, sq, sq_u128, step_spec,
    COORD_LIMIT, TIME_STEP_FX,
};
use crate::map::{Barrier, GameMap};
use crate::player::{Missile, Player, PlayerStatus};
use crate::trig::{cos_fx, cos_fx_spec, sin_fx, sin_fx_spec};

verus! {

/// Whether the match is running, won by an agent, or a draw.
#[derive(Clone, Copy, Debug, PartialEq, Eq, Structural)]
pub enum GameStatus {
    On,
    Over(usize),
    OverDraw,
}

/// The world.
pub struct Game {
    pub map: GameMap,
    pub players: Vec<Player>,
    pub missiles: Vec<Missile>,
    pub status: GameStatus,
    pub next_id: usize,
}

/// The mathematical state of a world: what the tick model computes on.
pub struct GameView {
    pub width: int,
    pub height: int,
    pub barriers: Seq<Barrier>,
    pub players: Seq<Player>,
    pub missiles: Seq<Missile>,
    pub status: GameStatus,
}

/// Whether a disc of radius `r` at `(x, y)` overlaps a barrier.
pub open spec fn hits_barrier(x: int, y: int, r: int, b: Barrier) -> bool {
    dist2(x, y, b.x as int, b.y as int) < sq(r + b.r)
}

/// Whether a disc overlaps any barrier of a sequence.
pub open spec fn hits_any_barrier(x: int, y: int, r: int, bs: Seq<Barrier>) -> bool {
    exists|j: int| 0 <= j < bs.len() && hits_barrier(x, y, r, bs[j])
}

/// One agent's movement in one substep: step along the heading, clamp into
/// the borders per axis, and revert the whole move if the clamped target
/// overlaps any barrier.
pub open spec fn moved_player(width: int, height: int, bs: Seq<Barrier>, p: Player, sub: int) -> Player {
    let nx = clamp_spec(p.x + step_spec(sin_fx_spec(p.direction as int), p.speed as int, sub), p.r as int, width);
    let ny = clamp_spec(p.y + step_spec(cos_fx_spec(p.direction as int), p.speed as int, sub), p.r as int, height);
    if hits_any_barrier(nx, ny, p.r as int, bs) {
        p
    } else {
        Player { x: nx as i64, y: ny as i64, ..p }
    }
}

/// All agents after one substep of movement: only agents in play move.
pub open spec fn stepped_players(g: GameView, sub: int) -> Seq<Player> {
    g.players.map(
        |i: int, p: Player|
            if p.status == PlayerStatus::InGame {
                moved_player(g.width, g.height, g.barriers, p, sub)
            } else {
                p
            },
    )
}

/// How many of the first `i` agents are in play.
pub open spec fn alive_upto(ps: Seq<Player>, i: int) -> int
    decreases i,
{
    if i <= 0 {
        0
    } else {
        alive_upto(ps, i - 1) + if ps[i - 1].status == PlayerStatus::InGame {
            1int
        } else {
            0int
        }
    }
}

/// The last agent in play at index `j` or below, if any: when exactly one
/// agent is left this is the winner.
pub open spec fn last_alive(ps: Seq<Player>, j: int) -> Option<int>
    decreases j + 1,
{
    if j < 0 {
        None
    } else if ps[j].status == PlayerStatus::InGame {
        Some(j)
    } else {
        last_alive(ps, j - 1)
    }
}

/// One projectile's movement in one substep.
pub open spec fn moved_missile(mi: Missile, sub: int) -> Missile {
    Missile {
        x: (mi.x + step_spec(sin_fx_spec(mi.direction as int), mi.speed as int, sub)) as i64,
        y: (mi.y + step_spec(cos_fx_spec(mi.direction as int), mi.speed as int, sub)) as i64,
        ..mi
    }
}

/// Whether a projectile is still inside the map.
pub open spec fn missile_in_map(width: int, height: int, mi: Missile) -> bool {
    0 <= mi.x <= width && 0 <= mi.y <= height
}

/// Whether a projectile clears a barrier (its center stays outside the
/// barrier's disc).
pub open spec fn missile_clears_barrier(mi: Missile, b: Barrier) -> bool {
    dist2(mi.x as int, mi.y as int, b.x as int, b.y as int) >= sq(b.r as int)
}

/// Whether a projectile clears every barrier.
pub open spec fn missile_clears_barriers(bs: Seq<Barrier>, mi: Missile) -> bool {
    forall|j: int| 0 <= j < bs.len() ==> missile_clears_barrier(mi, bs[j])
}

/// Whether a projectile hits an agent: a foreign agent in play whose disc
/// contains the projectile's center.
pub open spec fn missile_hits(p: Player, mi: Missile) -> bool {
    mi.player_id != p.id && dist2(mi.x as int, mi.y as int, p.x as int, p.y as int) < sq(p.r as int)
        && p.status == PlayerStatus::InGame
}

/// The first agent (in roster order) from index `j` on that a projectile
/// hits, if any.
pub open spec fn first_victim(ps: Seq<Player>, mi: Missile, j: int) -> Option<int>
    decreases ps.len() - j,
{
    if j >= ps.len() || j < 0 {
        None
    } else if missile_hits(ps[j], mi) {
        Some(j)
    } else {
        first_victim(ps, mi, j + 1)
    }
}

/// The projectiles that survive one substep, from index `i` on and in
/// order: each is moved along its heading and kept only if it stays inside
/// the map and clear of every barrier.
pub open spec fn surviving_missiles(g: GameView, sub: int, i: int) -> Seq<Missile>
    decreases g.missiles.len() - i,
{
    if i >= g.missiles.len() || i < 0 {
        Seq::empty()
    } else {
        let q = moved_missile(g.missiles[i], sub);
        let rest = surviving_missiles(g, sub, i + 1);
        if missile_in_map(g.width, g.height, q) && missile_clears_barriers(g.barriers, q) {
            seq![q] + rest
        } else {
            rest
        }
    }
}

/// The kill pass over projectiles `ms[i..]`, in order: each projectile
/// kills at most the first agent it hits and is then dropped; agents
/// already dead this substep cannot be hit again. Returns the agents after
/// all kills and the projectiles that survive, in order.
pub open spec fn kill_pass(ps: Seq<Player>, ms: Seq<Missile>, i: int) -> (Seq<Player>, Seq<Missile>)
    decreases ms.len() - i,
{
    if i >= ms.len() || i < 0 {
        (ps, Seq::empty())
    } else {
        match first_victim(ps, ms[i], 0) {
            Some(j) => {
                let ps2 = ps.update(j, Player { status: PlayerStatus::KilledBy(ms[i].player_id), ..ps[j] });
                kill_pass(ps2, ms, i + 1)
            },
            None => {
                let r = kill_pass(ps, ms, i + 1);
                (r.0, seq![ms[i]] + r.1)
            },
        }
    }
}

/// One substep of the tick. Returns the next state and whether the tick
/// stops here: it does when the substep ends the match (a draw or a win),
/// in which case projectiles do not move this substep. A match needs at
/// least two agents to end: a lone agent keeps flying.
pub open spec fn substep_spec(g: GameView, sub: int) -> (GameView, bool) {
    let ps = stepped_players(g, sub);
    let n = alive_upto(ps, ps.len() as int);
    if g.players.len() >= 2 && n == 0 {
        (GameView { players: ps, status: GameStatus::OverDraw, ..g }, true)
    } else if g.players.len() >= 2 && n == 1 {
        let w = last_alive(ps, ps.len() as int - 1)->Some_0;
        let ps2 = ps.update(w, Player { status: PlayerStatus::Win, ..ps[w] });
        (GameView { players: ps2, status: GameStatus::Over(ps[w].id), ..g }, true)
    } else {
        let ms = surviving_missiles(g, sub, 0);
        let killed = kill_pass(ps, ms, 0);
        (GameView { players: killed.0, missiles: killed.1, ..g }, false)
    }
}

/// `remaining`, floored at zero: the termination measure of the tick.
pub open spec fn time_left(remaining: int) -> int {
    if remaining > 0 {
        remaining
    } else {
        0
    }
}

/// The whole tick: substeps of at most `TIME_STEP_FX` until the delta is
/// used up or the match ends. The bookkeeping subtracts a full step even
/// when less time was left, so the final substep covers the remainder.
pub open spec fn advance_spec(g: GameView, remaining: int) -> GameView
    decreases time_left(remaining),
{
    if remaining <= 0 {
        g
    } else {
        let sub = if remaining > TIME_STEP_FX {
            TIME_STEP_FX as int
        } else {
            remaining
        };
        let r = substep_spec(g, sub);
        if r.1 {
            r.0
        } else {
            advance_spec(r.0, remaining - TIME_STEP_FX)
        }
    }
}

/// Move one agent for one substep, exactly as `moved_player` says.
fn step_player(map: &GameMap, p: &Player, sub: i64) -> (q: Player)
    requires
        map.wf(),
        p.wf(),
        0 <= sub <= TIME_STEP_FX,
    ensures
        q == moved_player(map.width as int, map.height as int, map.barriers@, *p, sub as int),
        q.wf(),
{
    let s = sin_fx(p.direction);
    let c = cos_fx(p.direction);
    let dx = scaled_step(s, p.speed, sub);
    let dy = scaled_step(c, p.speed, sub);
    let nx = clamp_coord(p.x + dx, p.r, map.width);
    let ny = clamp_coord(p.y + dy, p.r, map.height);
    let nb = map.barriers.len();
    let mut hit = false;
    let mut j: usize = 0;
    while j < nb
        invariant
            map.wf(),
            0 <= p.r <= COORD_LIMIT,
            iabs(nx as int) <= COORD_LIMIT,
            iabs(ny as int) <= COORD_LIMIT,
            nb == map.barriers@.len(),
            0 <= j <= nb,
            hit <==> exists|k: int|
                0 <= k < j && hits_barrier(nx as int, ny as int, p.r as int, map.barriers@[k]),
        decreases nb - j,
    {
        let b = map.barriers[j];
        proof {
            assert(map.barriers@[j as int] == b);
            assert(0 <= b.r <= COORD_LIMIT);
        }
        let d2: u128 = dist2_i64(nx, ny, b.x, b.y);
        let reach: u128 = sq_u128(p.r + b.r);
        if d2 < reach {
            hit = true;
        }
        j = j + 1;
    }
    if hit {
        *p
    } else {
        Player { x: nx, y: ny, ..*p }
    }
}

/// Move one projectile for one substep, exactly as `moved_missile` says.
fn step_missile(mi: &Missile, sub: i64) -> (q: Missile)
    requires
        mi.wf(),
        0 <= sub <= TIME_STEP_FX,
    ensures
        q == moved_missile(*mi, sub as int),
        iabs(q.x as int) <= 2 * COORD_LIMIT,
        iabs(q.y as int) <= 2 * COORD_LIMIT,
        q.speed == mi.speed,
{
    let s = sin_fx(mi.direction);
    let c = cos_fx(mi.direction);
    let dx = scaled_step(s, mi.speed, sub);
    let dy = scaled_step(c, mi.speed, sub);
    Missile { x: mi.x + dx, y: mi.y + dy, ..*mi }
}

impl Game {
    /// The mathematical state of this world.
    pub open spec fn gv(&self) -> GameView {
        GameView {
            width: self.map.width as int,
            height: self.map.height as int,
            barriers: self.map.barriers@,
            players: self.players@,
            missiles: self.missiles@,
            status: self.status,
        }
    }

    /// Bounds every world the engine operates on satisfies.
    pub open spec fn wf(&self) -> bool {
        &&& self.map.wf()
        &&& forall|i: int| 0 <= i < self.players@.len() ==> (#[trigger] self.players@[i]).wf()
        &&& forall|i: int| 0 <= i < self.missiles@.len() ==> (#[trigger] self.missiles@[i]).wf()
    }

    /// A fresh world on a map: no agents, no projectiles, match running.
    pub fn create(map: GameMap) -> (g: Game)
        requires
            map.wf(),
        ensures
            g.map == map,
            g.players@.len() == 0,
            g.missiles@.len() == 0,
            g.status == GameStatus::On,
            g.next_id == 1,
            g.wf(),
    {
        Game { map, players: Vec::new(), missiles: Vec::new(), status: GameStatus::On, next_id: 1 }
    }

    /// Append an agent to the roster, assigning it a fresh id.
    pub fn register_player(&mut self, player: Player) -> (id: usize)
        requires
            old(self).wf(),
            player.wf(),
            old(self).next_id < usize::MAX,
        ensures
            id == old(self).next_id,
            final(self).players@ == old(self).players@.push(
                Player { id, ..player },
            ),
            final(self).map == old(self).map,
            final(self).missiles == old(self).missiles,
            final(self).status == old(self).status,
            final(self).next_id == old(self).next_id + 1,
            final(self).wf(),
    {
        let id = self.next_id;
        self.next_id = self.next_id + 1;
        self.players.push(Player { id, ..player });
        id
    }

    /// The roster index of the agent with a given id, if any.
    pub open spec fn index_of_id(ps: Seq<Player>, id: usize, j: int) -> Option<int>
        decreases ps.len() - j,
    {
        if j >= ps.len() || j < 0 {
            None
        } else if ps[j].id == id {
            Some(j)
        } else {
            Game::index_of_id(ps, id, j + 1)
        }
    }

    /// Find the roster index of the agent with a given id.
    pub fn find_player_index(&self, player_id: usize) -> (r: Option<usize>)
        ensures
            match r {
                Some(j) => 0 <= j < self.players@.len() && Game::index_of_id(
                    self.players@,
                    player_id,
                    0,
                ) == Some(j as int),
                None => Game::index_of_id(self.players@, player_id, 0) is None,
            },
    {
        let n = self.players.len();
        let mut j: usize = 0;
        while j < n
            invariant
                n == self.players@.len(),
                0 <= j <= n,
                Game::index_of_id(self.players@, player_id, 0) == Game::index_of_id(
                    self.players@,
                    player_id,
                    j as int,
                ),
            decreases n - j,
        {
            if self.players[j].id == player_id {
                return Some(j);
            }
            j = j + 1;
        }
        None
    }

    /// Fire the weapon of the agent with the given id: append a projectile
    /// at the agent's position and heading, with the agent's missile
    /// speed. Nothing happens if no such agent is in play.
    pub fn fire(&mut self, player_id: usize)
        requires
            old(self).wf(),
            old(self).next_id < usize::MAX,
        ensures
            final(self).map == old(self).map,
            final(self).players == old(self).players,
            final(self).status == old(self).status,
            final(self).wf(),
            match Game::index_of_id(old(self).players@, player_id, 0) {
                Some(j) => {
                    if old(self).players@[j].status == PlayerStatus::InGame {
                        &&& final(self).missiles@ == old(self).missiles@.push(
                            Missile {
                                x: old(self).players@[j].x,
                                y: old(self).players@[j].y,
                                direction: old(self).players@[j].direction,
                                id: old(self).next_id,
                                player_id,
                                speed: old(self).players@[j].missile_speed,
                            },
                        )
                        &&& final(self).next_id == old(self).next_id + 1
                    } else {
                        &&& final(self).missiles == old(self).missiles
                        &&& final(self).next_id == old(self).next_id
                    }
                },
                None => {
                    &&& final(self).missiles == old(self).missiles
                    &&& final(self).next_id == old(self).next_id
                },
            },
    {
        let found = self.find_player_index(player_id);
        if let Some(j) = found {
            let p = self.players[j];
            if matches!(p.status, PlayerStatus::InGame) {
                let id = self.next_id;
                self.next_id = self.next_id + 1;
                self.missiles.push(
                    Missile {
                        x: p.x,
                        y: p.y,
                        direction: p.direction,
                        id,
                        player_id,
                        speed: p.missile_speed,
                    },
                );
            }
        }
    }

    /// The first agent a projectile hits, scanning the roster in order.
    fn find_victim(players: &Vec<Player>, mi: &Missile) -> (r: Option<usize>)
        requires
            forall|k: int| 0 <= k < players@.len() ==> (#[trigger] players@[k]).wf(),
            iabs(mi.x as int) <= 2 * COORD_LIMIT,
            iabs(mi.y as int) <= 2 * COORD_LIMIT,
        ensures
            match r {
                Some(j) => 0 <= j < players@.len() && first_victim(players@, *mi, 0) == Some(
                    j as int,
                ),
                None => first_victim(players@, *mi, 0) is None,
            },
    {
        let n = players.len();
        let mut j: usize = 0;
        while j < n
            invariant
                forall|k: int| 0 <= k < players@.len() ==> (#[trigger] players@[k]).wf(),
                iabs(mi.x as int) <= 2 * COORD_LIMIT,
                iabs(mi.y as int) <= 2 * COORD_LIMIT,
                n == players@.len(),
                0 <= j <= n,
                first_victim(players@, *mi, 0) == first_victim(players@, *mi, j as int),
            decreases n - j,
        {
            let p = players[j];
            proof {
                assert(players@[j as int] == p);
                assert(p.wf());
            }
            if mi.player_id != p.id {
                let d2: u128 = dist2_i64(mi.x, mi.y, p.x, p.y);
                let reach: u128 = sq_u128(p.r);
                if d2 < reach && matches!(p.status, PlayerStatus::InGame) {
                    return Some(j);
                }
            }
            j = j + 1;
        }
        None
    }

    /// One substep: move agents, settle the match status, then move and
    /// cull projectiles and apply kills — exactly as `substep_spec` says.
    fn substep(&mut self, sub: i64) -> (stopped: bool)
        requires
            old(self).wf(),
            0 < sub <= TIME_STEP_FX,
        ensures
            final(self).wf(),
            final(self).map == old(self).map,
            final(self).next_id == old(self).next_id,
            final(self).gv() == substep_spec(old(self).gv(), sub as int).0,
            stopped == substep_spec(old(self).gv(), sub as int).1,
    {
        let ghost g0 = self.gv();
        let ghost ps = stepped_players(g0, sub as int);
        let ghost map0 = self.map;
        let ghost missiles0 = self.missiles@;
        let ghost status0 = self.status;
        let ghost nid0 = self.next_id;

        // Move agents in play, counting the living and remembering the
        // last one seen, the winner if it ends up alone.
        let n = self.players.len();
        let mut alive: usize = 0;
        let mut winner_idx: usize = 0;
        let mut has_winner: bool = false;
        let mut i: usize = 0;
        while i < n
            invariant
                self.map == map0,
                self.missiles@ == missiles0,
                self.status == status0,
                self.next_id == nid0,
                self.map.wf(),
                g0.width == map0.width as int,
                g0.height == map0.height as int,
                g0.barriers == map0.barriers@,
                ps == stepped_players(g0, sub as int),
                0 < sub <= TIME_STEP_FX,
                n == self.players@.len(),
                g0.players.len() == n,
                ps.len() == n,
                0 <= i <= n,
                forall|k: int| 0 <= k < n ==> (#[trigger] self.players@[k]).wf(),
                forall|k: int| 0 <= k < n ==> (#[trigger] g0.players[k]).wf(),
                forall|k: int| 0 <= k < i ==> self.players@[k] == ps[k],
                forall|k: int| i <= k < n ==> self.players@[k] == g0.players[k],
                alive == alive_upto(ps, i as int),
                alive <= i,
                has_winner <==> alive > 0,
                has_winner ==> 0 <= winner_idx < i && last_alive(ps, i as int - 1) == Some(
                    winner_idx as int,
                ),
                !has_winner ==> last_alive(ps, i as int - 1) is None,
            decreases n - i,
        {
            let p = self.players[i];
            proof {
                assert(g0.players[i as int] == p);
                assert(ps[i as int] == if p.status == PlayerStatus::InGame {
                    moved_player(g0.width, g0.height, g0.barriers, p, sub as int)
                } else {
                    p
                });
            }
            if matches!(p.status, PlayerStatus::InGame) {
                let q = step_player(&self.map, &p, sub);
                self.players[i] = q;
                alive = alive + 1;
                winner_idx = i;
                has_winner = true;
            }
            i = i + 1;
            proof {
                assert(alive_upto(ps, i as int) == alive_upto(ps, i as int - 1) + if ps[i as int
                    - 1].status == PlayerStatus::InGame {
                    1int
                } else {
                    0int
                });
                assert(ps[i as int - 1].status == p.status);
            }
        }
        proof {
            assert(self.players@ =~= ps);
        }

        if n >= 2 && alive == 0 {
            self.status = GameStatus::OverDraw;
            proof {
                assert(self.gv() =~= substep_spec(g0, sub as int).0);
            }
            return true;
        }
        if n >= 2 && alive == 1 {
            let wp = self.players[winner_idx];
            self.players[winner_idx] = Player { status: PlayerStatus::Win, ..wp };
            self.status = GameStatus::Over(wp.id);
            proof {
                assert(last_alive(ps, n as int - 1) == Some(winner_idx as int));
                assert(wp == ps[winner_idx as int]);
                assert(self.gv().players =~= ps.update(
                    winner_idx as int,
                    Player { status: PlayerStatus::Win, ..ps[winner_idx as int] },
                ));
                assert(self.gv() =~= substep_spec(g0, sub as int).0);
            }
            return true;
        }

        // Move projectiles; keep those inside the map and clear of every
        // barrier.
        let ghost ms3 = surviving_missiles(g0, sub as int, 0);
        let m = self.missiles.len();
        let mut kept: Vec<Missile> = Vec::new();
        let mut j: usize = 0;
        while j < m
            invariant
                self.map == map0,
                self.missiles@ == missiles0,
                self.status == status0,
                self.next_id == nid0,
                self.map.wf(),
                g0.width == map0.width as int,
                g0.height == map0.height as int,
                g0.barriers == map0.barriers@,
                g0.missiles == missiles0,
                0 < sub <= TIME_STEP_FX,
                self.players@ == ps,
                forall|k: int| 0 <= k < ps.len() ==> (#[trigger] ps[k]).wf(),
                m == missiles0.len(),
                0 <= j <= m,
                forall|k: int| 0 <= k < m ==> (#[trigger] missiles0[k]).wf(),
                ms3 == surviving_missiles(g0, sub as int, 0),
                kept@ + surviving_missiles(g0, sub as int, j as int) =~= ms3,
                forall|k: int|
                    0 <= k < kept@.len() ==> (#[trigger] kept@[k]).wf() && 0 <= kept@[k].x
                        <= map0.width && 0 <= kept@[k].y <= map0.height,
            decreases m - j,
        {
            let mi = self.missiles[j];
            proof {
                assert(missiles0[j as int] == mi);
                assert(mi.wf());
            }
            let q = step_missile(&mi, sub);
            let ghost kept_before = kept@;
            if q.x >= 0 && q.y >= 0 && q.x <= self.map.width && q.y <= self.map.height {
                let nb = self.map.barriers.len();
                let mut clear = true;
                let mut k: usize = 0;
                while k < nb
                    invariant
                        self.map == map0,
                        self.map.wf(),
                        nb == self.map.barriers@.len(),
                        0 <= k <= nb,
                        iabs(q.x as int) <= 2 * COORD_LIMIT,
                        iabs(q.y as int) <= 2 * COORD_LIMIT,
                        clear <==> forall|t: int|
                            0 <= t < k ==> missile_clears_barrier(q, self.map.barriers@[t]),
                    decreases nb - k,
                {
                    let b = self.map.barriers[k];
                    proof {
                        assert(self.map.barriers@[k as int] == b);
                        assert(0 <= b.r <= COORD_LIMIT);
                    }
                    let d2: u128 = dist2_i64(q.x, q.y, b.x, b.y);
                    let reach: u128 = sq_u128(b.r);
                    if d2 < reach {
                        clear = false;
                    }
                    k = k + 1;
                }
                if clear {
                    kept.push(q);
                }
            }
            proof {
                let jj = j as int;
                assert(surviving_missiles(g0, sub as int, jj) == {
                    let qq = moved_missile(g0.missiles[jj], sub as int);
                    let rest = surviving_missiles(g0, sub as int, jj + 1);
                    if missile_in_map(g0.width, g0.height, qq) && missile_clears_barriers(
                        g0.barriers,
                        qq,
                    ) {
                        seq![qq] + rest
                    } else {
                        rest
                    }
                });
                assert(q == moved_missile(g0.missiles[jj], sub as int));
                if missile_in_map(g0.width, g0.height, q) && missile_clears_barriers(
                    g0.barriers,
                    q,
                ) {
                    assert(kept@ == kept_before.push(q));
                    assert(kept@ + surviving_missiles(g0, sub as int, jj + 1) =~= kept_before + (
                    seq![q] + surviving_missiles(g0, sub as int, jj + 1)));
                } else {
                    assert(kept@ == kept_before);
                }
            }
            j = j + 1;
        }
        proof {
            assert(surviving_missiles(g0, sub as int, m as int) =~= Seq::<Missile>::empty());
            assert(kept@ =~= ms3);
        }

        // The kill pass: each surviving projectile takes down the first
        // foreign agent in play it touches, and is dropped with it.
        let ghost killed = kill_pass(ps, ms3, 0);
        let mut final_missiles: Vec<Missile> = Vec::new();
        let mm = kept.len();
        let mut t: usize = 0;
        while t < mm
            invariant
                self.map == map0,
                self.missiles@ == missiles0,
                self.status == status0,
                self.next_id == nid0,
                self.map.wf(),
                kept@ == ms3,
                mm == ms3.len(),
                0 <= t <= mm,
                self.players@.len() == ps.len(),
                forall|k: int| 0 <= k < self.players@.len() ==> (#[trigger] self.players@[k]).wf(),
                forall|k: int|
                    0 <= k < kept@.len() ==> (#[trigger] kept@[k]).wf() && 0 <= kept@[k].x
                        <= map0.width && 0 <= kept@[k].y <= map0.height,
                killed == kill_pass(ps, ms3, 0),
                killed == (
                    kill_pass(self.players@, ms3, t as int).0,
                    final_missiles@ + kill_pass(self.players@, ms3, t as int).1,
                ),
                forall|k: int|
                    0 <= k < final_missiles@.len() ==> (#[trigger] final_missiles@[k]).wf(),
            decreases mm - t,
        {
            let mi = kept[t];
            proof {
                assert(kept@[t as int] == mi);
                assert(mi.wf());
            }
            let ghost players_before = self.players@;
            let v = Game::find_victim(&self.players, &mi);
            let ghost fm_before = final_missiles@;
            match v {
                Some(vi) => {
                    let vp = self.players[vi];
                    self.players[vi] = Player {
                        status: PlayerStatus::KilledBy(mi.player_id),
                        ..vp
                    };
                },
                None => {
                    final_missiles.push(mi);
                },
            }
            proof {
                let tt = t as int;
                match first_victim(players_before, mi, 0) {
                    Some(vj) => {
                        assert(kill_pass(players_before, ms3, tt) == kill_pass(
                            players_before.update(
                                vj,
                                Player {
                                    status: PlayerStatus::KilledBy(mi.player_id),
                                    ..players_before[vj]
                                },
                            ),
                            ms3,
                            tt + 1,
                        ));
                        assert(self.players@ =~= players_before.update(
                            vj,
                            Player {
                                status: PlayerStatus::KilledBy(mi.player_id),
                                ..players_before[vj]
                            },
                        ));
                    },
                    None => {
                        let r = kill_pass(players_before, ms3, tt + 1);
                        assert(kill_pass(players_before, ms3, tt) == (r.0, seq![mi] + r.1));
                        assert(final_missiles@ + r.1 =~= fm_before + (seq![mi] + r.1));
                    },
                }
            }
            t = t + 1;
        }
        proof {
            assert(kill_pass(self.players@, ms3, mm as int) == (
                self.players@,
                Seq::<Missile>::empty(),
            ));
            assert(final_missiles@ + Seq::<Missile>::empty() =~= final_missiles@);
            assert(killed.0 == self.players@);
            assert(killed.1 == final_missiles@);
        }
        self.missiles = final_missiles;
        proof {
            assert(self.gv() =~= substep_spec(g0, sub as int).0);
        }
        false
    }

    /// Advance the world by a real-time delta, in substeps of
    /// `TIME_STEP_FX`: exactly the tick model `advance_spec`. The
    /// bookkeeping subtracts a full step from the remaining time even on a
    /// shorter final substep, and the tick stops early when the match
    /// ends.
    pub fn process(&mut self, time: i64)
        requires
            old(self).wf(),
            0 <= time <= COORD_LIMIT,
        ensures
            final(self).wf(),
            final(self).map == old(self).map,
            final(self).next_id == old(self).next_id,
            final(self).gv() == advance_spec(old(self).gv(), time as int),
    {
        let ghost g0 = self.gv();
        let ghost map0 = self.map;
        let ghost nid0 = self.next_id;
        let mut remaining: i64 = time;
        let mut done: bool = false;
        while !done
            invariant
                self.wf(),
                self.map == map0,
                self.next_id == nid0,
                remaining <= time <= COORD_LIMIT,
                remaining >= -TIME_STEP_FX,
                if done {
                    self.gv() == advance_spec(g0, time as int)
                } else {
                    advance_spec(self.gv(), remaining as int) == advance_spec(g0, time as int)
                },
            decreases 2 * time_left(remaining as int) + if done {
                0int
            } else {
                1int
            },
        {
            if remaining <= 0 {
                done = true;
            } else {
                let sub: i64 = if remaining > TIME_STEP_FX {
                    TIME_STEP_FX
                } else {
                    remaining
                };
                let ghost before = self.gv();
                let ghost rem0 = remaining as int;
                let stopped = self.substep(sub);
                remaining = remaining - TIME_STEP_FX;
                proof {
                    assert(advance_spec(before, rem0) == if substep_spec(before, sub as int).1 {
                        substep_spec(before, sub as int).0
                    } else {
                        advance_spec(substep_spec(before, sub as int).0, rem0 - TIME_STEP_FX)
                    });
                }
                if stopped {
                    done = true;
                }
            }
        }
    }

    /// The positions of all projectiles, in order.
    pub fn get_missiles(&self) -> (r: Vec<(i64, i64)>)
        ensures
            r@.len() == self.missiles@.len(),
            forall|i: int|
                0 <= i < r@.len() ==> #[trigger] r@[i] == (self.missiles@[i].x, self.missiles@[i].y),
    {
        let mut r: Vec<(i64, i64)> = Vec::new();
        let mut i: usize = 0;
        while i < self.missiles.len()
            invariant
                0 <= i <= self.missiles@.len(),
                r@.len() == i,
                forall|k: int|
                    0 <= k < i ==> #[trigger] r@[k] == (self.missiles@[k].x, self.missiles@[k].y),
            decreases self.missiles@.len() - i,
        {
            let m = &self.missiles[i];
            r.push((m.x, m.y));
            i = i + 1;
        }
        r
    }
}

} // verus!
