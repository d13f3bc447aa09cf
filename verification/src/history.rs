//! The history recorder: a decimated append-only log of world snapshots,
//! with the map, the player roster and the winner, ready for
//! serialization by the surrounding program.

use vstd::prelude::*;

use crate::game::{Game, GameView};
use crate::map::{Barrier, GameMap};
use crate::player::{Missile, Player};

verus! {

/// One entry of the roster: who played, from where.
#[derive(Clone, Debug)]
pub struct PlayerRecord {
    pub id: usize,
    pub ip: String,
    pub name: String,
}

/// One object of a snapshot: a projectile or an agent, at its position.
#[derive(Clone, Copy, Debug, PartialEq, Eq, Structural)]
pub enum SnapshotObject {
    Missile { x: i64, y: i64, direction: i64, id: usize, player_id: usize },
    Player { x: i64, y: i64, r: i64, direction: i64, id: usize },
}

/// One snapshot: a wall-clock time in fixed-point seconds since the
/// epoch, and the objects then in the world, projectiles first.
#[derive(Clone, Debug)]
pub struct WorldState {
    pub time: i64,
    pub objects: Vec<SnapshotObject>,
}

/// The map as recorded: enough to regenerate it from the seed.
#[derive(Clone, Debug)]
pub struct MapState {
    pub width: i64,
    pub height: i64,
    pub barriers: Vec<Barrier>,
    pub seed: u64,
}

impl MapState {
    /// Snapshot of a map.
    pub fn from_map(map: &GameMap) -> (m: MapState)
        ensures
            m.width == map.width,
            m.height == map.height,
            m.barriers@ == map.barriers@,
            m.seed == map.seed,
    {
        let mut barriers: Vec<Barrier> = Vec::new();
        let mut i: usize = 0;
        while i < map.barriers.len()
            invariant
                0 <= i <= map.barriers@.len(),
                barriers@.len() == i,
                forall|k: int| 0 <= k < i ==> barriers@[k] == map.barriers@[k],
            decreases map.barriers@.len() - i,
        {
            let b = map.barriers[i];
            barriers.push(b);
            i = i + 1;
        }
        proof {
            assert(barriers@ =~= map.barriers@);
        }
        MapState { width: map.width, height: map.height, barriers, seed: map.seed }
    }
}

/// The snapshot a world yields: all projectiles, then all agents.
pub open spec fn objects_of(g: GameView) -> Seq<SnapshotObject> {
    g.missiles.map(
        |i: int, m: Missile|
            SnapshotObject::Missile {
                x: m.x,
                y: m.y,
                direction: m.direction,
                id: m.id,
                player_id: m.player_id,
            },
    ) + g.players.map(
        |i: int, p: Player|
            SnapshotObject::Player { x: p.x, y: p.y, r: p.r, direction: p.direction, id: p.id },
    )
}

/// The recorder. `rate` decimates: of every `rate` offered snapshots one
/// is kept, starting with the first.
pub struct History {
    pub map: MapState,
    pub history: Vec<WorldState>,
    pub players: Vec<PlayerRecord>,
    pub winner: Option<PlayerRecord>,
    pub rate: u8,
    pub offered: u64,
}

impl History {
    /// A fresh recorder over a map. A decimation rate of `n` keeps one of
    /// every `n` snapshots; `1` keeps all.
    pub fn new(map: &GameMap, rate: u8) -> (h: History)
        requires
            rate >= 1,
        ensures
            h.map.width == map.width,
            h.map.height == map.height,
            h.map.barriers@ == map.barriers@,
            h.map.seed == map.seed,
            h.history@.len() == 0,
            h.players@.len() == 0,
            h.winner is None,
            h.rate == rate,
            h.offered == 0,
    {
        History {
            map: MapState::from_map(map),
            history: Vec::new(),
            players: Vec::new(),
            winner: None,
            rate,
            offered: 0,
        }
    }

    /// Offer a snapshot of the world at a given time. Every `rate`-th
    /// offer is recorded, the first one always; the rest are dropped.
    pub fn write_state(&mut self, game: &Game, time: i64)
        requires
            old(self).rate >= 1,
            old(self).offered < u64::MAX,
        ensures
            final(self).map == old(self).map,
            final(self).players == old(self).players,
            final(self).winner == old(self).winner,
            final(self).rate == old(self).rate,
            final(self).offered == old(self).offered + 1,
            if old(self).offered % (old(self).rate as u64) == 0 {
                &&& final(self).history@.len() == old(self).history@.len() + 1
                &&& forall|k: int|
                    0 <= k < old(self).history@.len() ==> final(self).history@[k] == old(
                        self,
                    ).history@[k]
                &&& final(self).history@.last().time == time
                &&& final(self).history@.last().objects@ == objects_of(game.gv())
            } else {
                final(self).history == old(self).history
            },
    {
        let keep = self.offered % (self.rate as u64) == 0;
        self.offered = self.offered + 1;
        if !keep {
            return;
        }
        let mut objects: Vec<SnapshotObject> = Vec::new();
        let ghost target = objects_of(game.gv());
        let nm = game.missiles.len();
        let mut i: usize = 0;
        while i < nm
            invariant
                nm == game.missiles@.len(),
                0 <= i <= nm,
                target == objects_of(game.gv()),
                target.len() == game.missiles@.len() + game.players@.len(),
                objects@.len() == i,
                forall|k: int| 0 <= k < i ==> objects@[k] == target[k],
            decreases nm - i,
        {
            let m = &game.missiles[i];
            objects.push(
                SnapshotObject::Missile {
                    x: m.x,
                    y: m.y,
                    direction: m.direction,
                    id: m.id,
                    player_id: m.player_id,
                },
            );
            i = i + 1;
        }
        let np = game.players.len();
        let mut j: usize = 0;
        while j < np
            invariant
                nm == game.missiles@.len(),
                np == game.players@.len(),
                0 <= j <= np,
                target == objects_of(game.gv()),
                target.len() == game.missiles@.len() + game.players@.len(),
                objects@.len() == nm + j,
                forall|k: int| 0 <= k < nm + j ==> objects@[k] == target[k],
            decreases np - j,
        {
            let p = &game.players[j];
            objects.push(
                SnapshotObject::Player {
                    x: p.x,
                    y: p.y,
                    r: p.r,
                    direction: p.direction,
                    id: p.id,
                },
            );
            j = j + 1;
        }
        proof {
            assert(objects@ =~= target);
        }
        self.history.push(WorldState { time, objects });
    }

    /// Add a player to the roster.
    pub fn add_player(&mut self, id: usize, name: &str, ip: &str)
        ensures
            final(self).map == old(self).map,
            final(self).history == old(self).history,
            final(self).winner == old(self).winner,
            final(self).rate == old(self).rate,
            final(self).offered == old(self).offered,
            final(self).players@.len() == old(self).players@.len() + 1,
            forall|k: int|
                0 <= k < old(self).players@.len() ==> final(self).players@[k] == old(
                    self,
                ).players@[k],
            final(self).players@.last().id == id,
            final(self).players@.last().name@ == name@,
            final(self).players@.last().ip@ == ip@,
    {
        self.players.push(PlayerRecord { id, ip: ip.to_string(), name: name.to_string() });
    }

    /// Record the winner.
    pub fn set_winner(&mut self, id: usize, name: &str, ip: &str)
        ensures
            final(self).map == old(self).map,
            final(self).history == old(self).history,
            final(self).players == old(self).players,
            final(self).rate == old(self).rate,
            final(self).offered == old(self).offered,
            final(self).winner matches Some(w) && w.id == id && w.name@ == name@ && w.ip@ == ip@,
    {
        self.winner = Some(PlayerRecord { id, ip: ip.to_string(), name: name.to_string() });
    }
}

} // verus!
