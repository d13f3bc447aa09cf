//! Laws of the tick: properties of `advance_spec` that hold for every
//! world and every time delta, proved by induction over the substeps.

use vstd::prelude::*;

use crate::fixed::{clamp_spec, step_spec, COORD_LIMIT, TIME_STEP_FX};
use crate::game::{
    advance_spec, alive_upto, first_victim, hits_any_barrier, kill_pass, last_alive, missile_hits,
    moved_player, stepped_players, substep_spec, surviving_missiles, time_left, GameStatus,
    GameView,
};
use crate::map::Barrier;
use crate::player::{Missile, Player, PlayerStatus};

verus! {

/// An agent's center stays within the inner margin of the map.
pub open spec fn in_bounds(p: Player, width: int, height: int) -> bool {
    &&& p.r <= p.x <= width - p.r
    &&& p.r <= p.y <= height - p.r
}

/// An agent's disc fits the map at all.
pub open spec fn fits_map(p: Player, width: int, height: int) -> bool {
    &&& 0 <= p.r
    &&& 2 * p.r <= width
    &&& 2 * p.r <= height
}

/// Every agent in play fits the map and sits within its margins.
pub open spec fn players_in_bounds(g: GameView) -> bool {
    forall|i: int|
        0 <= i < g.players.len() && (#[trigger] g.players[i]).status == PlayerStatus::InGame ==> {
            &&& fits_map(g.players[i], g.width, g.height)
            &&& in_bounds(g.players[i], g.width, g.height)
        }
}

/// Every agent in play is clear of every barrier.
pub open spec fn players_clear_of_barriers(g: GameView) -> bool {
    forall|i: int|
        0 <= i < g.players.len() && (#[trigger] g.players[i]).status == PlayerStatus::InGame
            ==> !hits_any_barrier(
            g.players[i].x as int,
            g.players[i].y as int,
            g.players[i].r as int,
            g.barriers,
        )
}

/// The machine-range bounds every well-formed world's view satisfies:
/// dimensions and radii within the coordinate range.
pub open spec fn view_bounded(g: GameView) -> bool {
    &&& 0 < g.width <= COORD_LIMIT
    &&& 0 < g.height <= COORD_LIMIT
    &&& forall|i: int| 0 <= i < g.players.len() ==> 0 <= (#[trigger] g.players[i]).r <= COORD_LIMIT
}

/// What one tick may do to one agent: its identity is kept, an agent
/// already out of play is left alone entirely, and an agent can only be
/// killed by someone else.
pub open spec fn agent_transition(p_old: Player, p_new: Player) -> bool {
    &&& p_new.id == p_old.id
    &&& p_new.r == p_old.r
    &&& (p_old.status != PlayerStatus::InGame ==> p_new == p_old)
    &&& (match p_new.status {
        PlayerStatus::KilledBy(k) => p_old.status == PlayerStatus::KilledBy(k) || k
            != p_old.id,
        _ => true,
    })
}

/// An agent replaced by its killed form: every field kept but the status,
/// which names a killer other than the agent itself.
pub open spec fn same_but_killed(p_old: Player, p_new: Player) -> bool {
    &&& p_old.status == PlayerStatus::InGame
    &&& (match p_new.status {
        PlayerStatus::KilledBy(k) => k != p_old.id,
        _ => false,
    })
    &&& p_new == (Player { status: p_new.status, ..p_old })
}

/// The tick never changes the map.
pub proof fn lemma_substep_frame(g: GameView, sub: int)
    ensures
        substep_spec(g, sub).0.width == g.width,
        substep_spec(g, sub).0.height == g.height,
        substep_spec(g, sub).0.barriers == g.barriers,
{
}

pub proof fn lemma_advance_frame(g: GameView, dt: int)
    ensures
        advance_spec(g, dt).width == g.width,
        advance_spec(g, dt).height == g.height,
        advance_spec(g, dt).barriers == g.barriers,
    decreases time_left(dt),
{
    if dt <= 0 {
    } else {
        let sub = if dt > TIME_STEP_FX {
            TIME_STEP_FX as int
        } else {
            dt
        };
        lemma_substep_frame(g, sub);
        if !substep_spec(g, sub).1 {
            lemma_advance_frame(substep_spec(g, sub).0, dt - TIME_STEP_FX);
        }
    }
}

/// A found victim really is hit, and lies in the roster.
proof fn lemma_first_victim_some(ps: Seq<Player>, mi: Missile, j: int)
    requires
        0 <= j,
    ensures
        match first_victim(ps, mi, j) {
            Some(v) => j <= v < ps.len() && missile_hits(ps[v], mi),
            None => true,
        },
    decreases ps.len() - j,
{
    if j >= ps.len() {
    } else if missile_hits(ps[j], mi) {
    } else {
        lemma_first_victim_some(ps, mi, j + 1);
    }
}

/// The kill pass leaves every agent alone or replaces it by its killed
/// form.
proof fn lemma_kill_pass_players(ps: Seq<Player>, ms: Seq<Missile>, i: int)
    ensures
        kill_pass(ps, ms, i).0.len() == ps.len(),
        forall|idx: int|
            0 <= idx < ps.len() ==> (#[trigger] kill_pass(ps, ms, i).0[idx]) == ps[idx]
                || same_but_killed(ps[idx], kill_pass(ps, ms, i).0[idx]),
    decreases ms.len() - i,
{
    if i >= ms.len() || i < 0 {
    } else {
        match first_victim(ps, ms[i], 0) {
            Some(j) => {
                lemma_first_victim_some(ps, ms[i], 0);
                let ps2 = ps.update(
                    j,
                    Player { status: PlayerStatus::KilledBy(ms[i].player_id), ..ps[j] },
                );
                lemma_kill_pass_players(ps2, ms, i + 1);
                assert forall|idx: int| 0 <= idx < ps.len() implies (#[trigger] kill_pass(
                    ps,
                    ms,
                    i,
                ).0[idx]) == ps[idx] || same_but_killed(ps[idx], kill_pass(ps, ms, i).0[idx]) by {
                    let r = kill_pass(ps2, ms, i + 1).0[idx];
                    if idx == j {
                        assert(same_but_killed(ps[j], ps2[j]));
                        assert(ps2[j].status != PlayerStatus::InGame);
                        assert(r == ps2[j] || same_but_killed(ps2[j], r));
                        assert(r == ps2[j]);
                    } else {
                        assert(ps2[idx] == ps[idx]);
                    }
                }
            },
            None => {
                lemma_kill_pass_players(ps, ms, i + 1);
            },
        }
    }
}

/// Moving an agent keeps everything but its position.
proof fn lemma_moved_player_frame(width: int, height: int, bs: Seq<Barrier>, p: Player, sub: int)
    ensures
        moved_player(width, height, bs, p, sub).id == p.id,
        moved_player(width, height, bs, p, sub).r == p.r,
        moved_player(width, height, bs, p, sub).status == p.status,
{
}

/// The movement substep keeps an agent inside the margins of a map it
/// fits: a revert keeps the old admissible position, a committed move was
/// clamped into the margins.
proof fn lemma_moved_player_in_bounds(
    width: int,
    height: int,
    bs: Seq<Barrier>,
    p: Player,
    sub: int,
)
    requires
        0 < width <= COORD_LIMIT,
        0 < height <= COORD_LIMIT,
        fits_map(p, width, height),
        in_bounds(p, width, height),
    ensures
        in_bounds(moved_player(width, height, bs, p, sub), width, height),
{
    let nx = clamp_spec(
        p.x + step_spec(crate::trig::sin_fx_spec(p.direction as int), p.speed as int, sub),
        p.r as int,
        width,
    );
    let ny = clamp_spec(
        p.y + step_spec(crate::trig::cos_fx_spec(p.direction as int), p.speed as int, sub),
        p.r as int,
        height,
    );
    assert(p.r <= nx <= width - p.r);
    assert(p.r <= ny <= height - p.r);
}

/// The movement substep keeps an agent clear of the barriers it was clear
/// of: a committed move passed the overlap check, a revert keeps the old
/// clear position.
proof fn lemma_moved_player_clear(width: int, height: int, bs: Seq<Barrier>, p: Player, sub: int)
    requires
        0 < width <= COORD_LIMIT,
        0 < height <= COORD_LIMIT,
        0 <= p.r <= COORD_LIMIT,
        !hits_any_barrier(p.x as int, p.y as int, p.r as int, bs),
    ensures
        !hits_any_barrier(
            moved_player(width, height, bs, p, sub).x as int,
            moved_player(width, height, bs, p, sub).y as int,
            moved_player(width, height, bs, p, sub).r as int,
            bs,
        ),
{
    let nx = clamp_spec(
        p.x + step_spec(crate::trig::sin_fx_spec(p.direction as int), p.speed as int, sub),
        p.r as int,
        width,
    );
    let ny = clamp_spec(
        p.y + step_spec(crate::trig::cos_fx_spec(p.direction as int), p.speed as int, sub),
        p.r as int,
        height,
    );
    assert(-COORD_LIMIT <= nx <= COORD_LIMIT);
    assert(-COORD_LIMIT <= ny <= COORD_LIMIT);
}

/// The winner reported by the scan is an agent in play.
proof fn lemma_last_alive_in_game(ps: Seq<Player>, j: int)
    requires
        j < ps.len(),
    ensures
        match last_alive(ps, j) {
            Some(w) => 0 <= w <= j && ps[w].status == PlayerStatus::InGame,
            None => true,
        },
    decreases j + 1,
{
    if j < 0 {
    } else if ps[j].status == PlayerStatus::InGame {
    } else {
        lemma_last_alive_in_game(ps, j - 1);
    }
}

/// A positive count of agents in play means the backward scan finds one.
proof fn lemma_alive_last(ps: Seq<Player>, i: int)
    requires
        0 <= i <= ps.len(),
    ensures
        alive_upto(ps, i) > 0 ==> last_alive(ps, i - 1) is Some,
    decreases i,
{
    if i <= 0 {
    } else if ps[i - 1].status == PlayerStatus::InGame {
    } else {
        lemma_alive_last(ps, i - 1);
    }
}

/// One substep takes every agent through an admissible transition.
#[verifier::rlimit(100)]
proof fn lemma_substep_players(g: GameView, sub: int)
    ensures
        substep_spec(g, sub).0.players.len() == g.players.len(),
        forall|idx: int|
            0 <= idx < g.players.len() ==> agent_transition(
                g.players[idx],
                #[trigger] substep_spec(g, sub).0.players[idx],
            ),
{
    let ps = stepped_players(g, sub);
    let out = substep_spec(g, sub).0.players;
    assert(ps.len() == g.players.len());
    assert forall|idx: int| 0 <= idx < g.players.len() implies (#[trigger] ps[idx]).id
        == g.players[idx].id && ps[idx].status == g.players[idx].status && (g.players[idx].status
        != PlayerStatus::InGame ==> ps[idx] == g.players[idx]) by {
        if g.players[idx].status == PlayerStatus::InGame {
            lemma_moved_player_frame(g.width, g.height, g.barriers, g.players[idx], sub);
        }
    }
    let n = alive_upto(ps, ps.len() as int);
    if g.players.len() >= 2 && n == 0 {
        assert(out == ps);
        assert forall|idx: int| 0 <= idx < g.players.len() implies agent_transition(
            g.players[idx],
            #[trigger] out[idx],
        ) by {
            assert(out[idx] == ps[idx]);
        }
    } else if g.players.len() >= 2 && n == 1 {
        lemma_alive_last(ps, ps.len() as int);
        lemma_last_alive_in_game(ps, ps.len() as int - 1);
        let w = last_alive(ps, ps.len() as int - 1)->Some_0;
        assert(out == ps.update(w, Player { status: PlayerStatus::Win, ..ps[w] }));
        assert forall|idx: int| 0 <= idx < g.players.len() implies agent_transition(
            g.players[idx],
            #[trigger] out[idx],
        ) by {
            if idx == w {
                assert(out[idx] == (Player { status: PlayerStatus::Win, ..ps[w] }));
                assert(ps[w].status == PlayerStatus::InGame);
            } else {
                assert(out[idx] == ps[idx]);
            }
        }
    } else {
        let ms = surviving_missiles(g, sub, 0);
        lemma_kill_pass_players(ps, ms, 0);
        assert forall|idx: int| 0 <= idx < g.players.len() implies agent_transition(
            g.players[idx],
            #[trigger] out[idx],
        ) by {
            assert(out[idx] == ps[idx] || same_but_killed(ps[idx], out[idx]));
        }
    }
}

/// One substep keeps the view within machine range: the map is untouched
/// and radii are preserved.
proof fn lemma_substep_bounded(g: GameView, sub: int)
    requires
        view_bounded(g),
    ensures
        view_bounded(substep_spec(g, sub).0),
{
    lemma_substep_frame(g, sub);
    lemma_substep_players(g, sub);
    assert forall|i: int|
        0 <= i < substep_spec(g, sub).0.players.len() implies 0 <= (#[trigger] substep_spec(
        g,
        sub,
    ).0.players[i]).r <= COORD_LIMIT by {
        assert(agent_transition(g.players[i], substep_spec(g, sub).0.players[i]));
    }
}

/// Every tick takes every agent through an admissible transition: ids are
/// stable, settled agents stay settled, and nothing ever records an agent
/// as killed by itself.
pub proof fn lemma_advance_players(g: GameView, dt: int)
    ensures
        advance_spec(g, dt).players.len() == g.players.len(),
        forall|idx: int|
            0 <= idx < g.players.len() ==> agent_transition(
                g.players[idx],
                #[trigger] advance_spec(g, dt).players[idx],
            ),
    decreases time_left(dt),
{
    if dt <= 0 {
    } else {
        let sub = if dt > TIME_STEP_FX {
            TIME_STEP_FX as int
        } else {
            dt
        };
        let r = substep_spec(g, sub);
        lemma_substep_players(g, sub);
        if !r.1 {
            lemma_advance_players(r.0, dt - TIME_STEP_FX);
            assert forall|idx: int| 0 <= idx < g.players.len() implies agent_transition(
                g.players[idx],
                #[trigger] advance_spec(g, dt).players[idx],
            ) by {
                assert(agent_transition(g.players[idx], r.0.players[idx]));
                assert(agent_transition(r.0.players[idx], advance_spec(g, dt).players[idx]));
            }
        }
    }
}

/// A projectile never harms its owner: whenever a tick turns an agent
/// from in play to killed, the recorded killer is another agent.
pub proof fn lemma_no_self_kill(g: GameView, dt: int, idx: int, k: usize)
    requires
        0 <= idx < g.players.len(),
        g.players[idx].status == PlayerStatus::InGame,
        advance_spec(g, dt).players[idx].status == PlayerStatus::KilledBy(k),
    ensures
        k != g.players[idx].id,
{
    lemma_advance_players(g, dt);
}

/// The match status never returns to running: a world whose tick reports
/// the match still on was on before the tick.
pub proof fn lemma_status_monotonic(g: GameView, dt: int)
    ensures
        advance_spec(g, dt).status == GameStatus::On ==> g.status == GameStatus::On,
    decreases time_left(dt),
{
    if dt <= 0 {
    } else {
        let sub = if dt > TIME_STEP_FX {
            TIME_STEP_FX as int
        } else {
            dt
        };
        let r = substep_spec(g, sub);
        if !r.1 {
            lemma_status_monotonic(r.0, dt - TIME_STEP_FX);
        }
    }
}

/// Surviving projectiles are never more numerous than the projectiles
/// examined.
proof fn lemma_surviving_missiles_len(g: GameView, sub: int, i: int)
    requires
        0 <= i <= g.missiles.len(),
    ensures
        surviving_missiles(g, sub, i).len() <= g.missiles.len() - i,
    decreases g.missiles.len() - i,
{
    if i >= g.missiles.len() {
    } else {
        lemma_surviving_missiles_len(g, sub, i + 1);
    }
}

/// The kill pass only ever drops projectiles.
proof fn lemma_kill_pass_missiles_len(ps: Seq<Player>, ms: Seq<Missile>, i: int)
    requires
        0 <= i <= ms.len(),
    ensures
        kill_pass(ps, ms, i).1.len() <= ms.len() - i,
    decreases ms.len() - i,
{
    if i >= ms.len() {
    } else {
        match first_victim(ps, ms[i], 0) {
            Some(j) => {
                let ps2 = ps.update(
                    j,
                    Player { status: PlayerStatus::KilledBy(ms[i].player_id), ..ps[j] },
                );
                lemma_kill_pass_missiles_len(ps2, ms, i + 1);
            },
            None => {
                lemma_kill_pass_missiles_len(ps, ms, i + 1);
            },
        }
    }
}

/// Within one advance the projectile count never grows: projectiles are
/// only dropped (at borders, barriers and hits), never created.
pub proof fn lemma_missiles_nonincreasing(g: GameView, dt: int)
    ensures
        advance_spec(g, dt).missiles.len() <= g.missiles.len(),
    decreases time_left(dt),
{
    if dt <= 0 {
    } else {
        let sub = if dt > TIME_STEP_FX {
            TIME_STEP_FX as int
        } else {
            dt
        };
        let r = substep_spec(g, sub);
        let ps = stepped_players(g, sub);
        let n = alive_upto(ps, ps.len() as int);
        if g.players.len() >= 2 && (n == 0 || n == 1) {
        } else {
            let ms = surviving_missiles(g, sub, 0);
            lemma_surviving_missiles_len(g, sub, 0);
            lemma_kill_pass_missiles_len(ps, ms, 0);
        }
        if !r.1 {
            lemma_missiles_nonincreasing(r.0, dt - TIME_STEP_FX);
        }
    }
}

/// Agents in play stay within the map's margins through every tick.
pub proof fn lemma_players_stay_in_bounds(g: GameView, dt: int)
    requires
        view_bounded(g),
        players_in_bounds(g),
    ensures
        players_in_bounds(advance_spec(g, dt)),
    decreases time_left(dt),
{
    if dt <= 0 {
    } else {
        let sub = if dt > TIME_STEP_FX {
            TIME_STEP_FX as int
        } else {
            dt
        };
        let r = substep_spec(g, sub);
        lemma_substep_frame(g, sub);
        lemma_substep_bounded(g, sub);
        lemma_substep_in_bounds(g, sub);
        if !r.1 {
            lemma_players_stay_in_bounds(r.0, dt - TIME_STEP_FX);
        }
    }
}

/// One substep keeps agents in play within the margins.
#[verifier::rlimit(100)]
proof fn lemma_substep_in_bounds(g: GameView, sub: int)
    requires
        view_bounded(g),
        players_in_bounds(g),
    ensures
        players_in_bounds(substep_spec(g, sub).0),
{
    let ps = stepped_players(g, sub);
    let out = substep_spec(g, sub).0.players;
    assert forall|idx: int|
        0 <= idx < ps.len() && (#[trigger] ps[idx]).status == PlayerStatus::InGame implies fits_map(
        ps[idx],
        g.width,
        g.height,
    ) && in_bounds(ps[idx], g.width, g.height) by {
        lemma_moved_player_frame(g.width, g.height, g.barriers, g.players[idx], sub);
        if g.players[idx].status == PlayerStatus::InGame {
            lemma_moved_player_in_bounds(g.width, g.height, g.barriers, g.players[idx], sub);
        }
    }
    let n = alive_upto(ps, ps.len() as int);
    if g.players.len() >= 2 && n == 0 {
        assert(out == ps);
    } else if g.players.len() >= 2 && n == 1 {
        lemma_alive_last(ps, ps.len() as int);
        lemma_last_alive_in_game(ps, ps.len() as int - 1);
        let w = last_alive(ps, ps.len() as int - 1)->Some_0;
        assert(out == ps.update(w, Player { status: PlayerStatus::Win, ..ps[w] }));
        assert forall|idx: int|
            0 <= idx < out.len() && (#[trigger] out[idx]).status == PlayerStatus::InGame
            implies fits_map(out[idx], g.width, g.height) && in_bounds(
            out[idx],
            g.width,
            g.height,
        ) by {
            if idx != w {
                assert(out[idx] == ps[idx]);
            }
        }
    } else {
        let ms = surviving_missiles(g, sub, 0);
        lemma_kill_pass_players(ps, ms, 0);
        assert(out == kill_pass(ps, ms, 0).0);
        assert forall|idx: int|
            0 <= idx < out.len() && (#[trigger] out[idx]).status == PlayerStatus::InGame
            implies fits_map(out[idx], g.width, g.height) && in_bounds(
            out[idx],
            g.width,
            g.height,
        ) by {
            assert(out[idx] == ps[idx] || same_but_killed(ps[idx], out[idx]));
        }
    }
}

/// Agents in play stay clear of every barrier through every tick.
pub proof fn lemma_players_stay_clear(g: GameView, dt: int)
    requires
        view_bounded(g),
        players_clear_of_barriers(g),
    ensures
        players_clear_of_barriers(advance_spec(g, dt)),
    decreases time_left(dt),
{
    if dt <= 0 {
    } else {
        let sub = if dt > TIME_STEP_FX {
            TIME_STEP_FX as int
        } else {
            dt
        };
        let r = substep_spec(g, sub);
        lemma_substep_frame(g, sub);
        lemma_substep_bounded(g, sub);
        lemma_substep_clear(g, sub);
        if !r.1 {
            lemma_players_stay_clear(r.0, dt - TIME_STEP_FX);
        }
    }
}

/// One substep keeps agents in play clear of the barriers.
#[verifier::rlimit(100)]
proof fn lemma_substep_clear(g: GameView, sub: int)
    requires
        view_bounded(g),
        players_clear_of_barriers(g),
    ensures
        players_clear_of_barriers(substep_spec(g, sub).0),
{
    let ps = stepped_players(g, sub);
    let out = substep_spec(g, sub).0.players;
    assert forall|idx: int|
        0 <= idx < ps.len() && (#[trigger] ps[idx]).status == PlayerStatus::InGame
        implies !hits_any_barrier(
        ps[idx].x as int,
        ps[idx].y as int,
        ps[idx].r as int,
        g.barriers,
    ) by {
        lemma_moved_player_frame(g.width, g.height, g.barriers, g.players[idx], sub);
        if g.players[idx].status == PlayerStatus::InGame {
            lemma_moved_player_clear(g.width, g.height, g.barriers, g.players[idx], sub);
        }
    }
    let n = alive_upto(ps, ps.len() as int);
    if g.players.len() >= 2 && n == 0 {
        assert(out == ps);
    } else if g.players.len() >= 2 && n == 1 {
        lemma_alive_last(ps, ps.len() as int);
        lemma_last_alive_in_game(ps, ps.len() as int - 1);
        let w = last_alive(ps, ps.len() as int - 1)->Some_0;
        assert(out == ps.update(w, Player { status: PlayerStatus::Win, ..ps[w] }));
        assert forall|idx: int|
            0 <= idx < out.len() && (#[trigger] out[idx]).status == PlayerStatus::InGame
            implies !hits_any_barrier(
            out[idx].x as int,
            out[idx].y as int,
            out[idx].r as int,
            g.barriers,
        ) by {
            if idx != w {
                assert(out[idx] == ps[idx]);
            }
        }
    } else {
        let ms = surviving_missiles(g, sub, 0);
        lemma_kill_pass_players(ps, ms, 0);
        assert(out == kill_pass(ps, ms, 0).0);
        assert forall|idx: int|
            0 <= idx < out.len() && (#[trigger] out[idx]).status == PlayerStatus::InGame
            implies !hits_any_barrier(
            out[idx].x as int,
            out[idx].y as int,
            out[idx].r as int,
            g.barriers,
        ) by {
            assert(out[idx] == ps[idx] || same_but_killed(ps[idx], out[idx]));
        }
    }
}

} // verus!
