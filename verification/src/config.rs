//! Configuration defaults and validation.
//!
//! Values are read from the environment by the surrounding program; this
//! module owns the defaults and the bounds a configuration must satisfy
//! before a map and world are built from it. Dimensional values are fixed
//! point, like everything else in the engine.

use vstd::prelude::*;

use crate::fixed::{COORD_LIMIT, SPEED_LIMIT};
use crate::trig::FULL_TURN_FX;

verus! {

/// Where the recorded history is posted after the match.
pub fn default_backend() -> (s: String)
    ensures
        s@ == "0.0.0.0:3334"@,
{
    "0.0.0.0:3334".to_string()
}

/// The port the listener binds by default.
pub fn default_host_port() -> (p: u16)
    ensures
        p == 3333,
{
    3333
}

pub fn default_map_width() -> (v: i64)
    ensures
        v == 9_600_000,
{
    9_600_000
}

pub fn default_map_height() -> (v: i64)
    ensures
        v == 5_400_000,
{
    5_400_000
}

pub fn default_map_barriers_amount() -> (v: u8)
    ensures
        v == 30,
{
    30
}

pub fn default_map_max_barrier_radius() -> (v: i64)
    ensures
        v == 400_000,
{
    400_000
}

pub fn default_map_seed() -> (v: Option<u64>)
    ensures
        v is None,
{
    None
}

pub fn default_player_radius() -> (v: i64)
    ensures
        v == 100_000,
{
    100_000
}

pub fn default_player_max_speed() -> (v: i64)
    ensures
        v == 9_600_000,
{
    9_600_000
}

pub fn default_player_view_angle() -> (v: i64)
    ensures
        v == 300_000,
{
    300_000
}

pub fn default_player_rays_amount() -> (v: u16)
    ensures
        v == 21,
{
    21
}

pub fn default_player_missile_speed() -> (v: i64)
    ensures
        v == 28_800_000,
{
    28_800_000
}

pub fn default_players_amount() -> (v: usize)
    ensures
        v == 2,
{
    2
}

pub fn default_history_optimization_rate() -> (v: u8)
    ensures
        v == 30,
{
    30
}

/// A full configuration of the engine, in fixed point.
#[derive(Clone, Copy, Debug)]
pub struct GameConfig {
    pub map_width: i64,
    pub map_height: i64,
    pub map_barriers_amount: u8,
    pub map_max_barrier_radius: i64,
    pub player_radius: i64,
    pub player_max_speed: i64,
    pub player_view_angle: i64,
    pub player_rays_amount: u16,
    pub player_missile_speed: i64,
    pub players_amount: usize,
    pub history_optimization_rate: u8,
}

impl GameConfig {
    /// The bounds under which a map, agents and a recorder can be built:
    /// positive dimensions within range, an agent that fits the map, a
    /// match that needs at least one player, a usable decimation rate.
    pub open spec fn wf(&self) -> bool {
        &&& 0 < self.map_width <= COORD_LIMIT
        &&& 0 < self.map_height <= COORD_LIMIT
        &&& 0 <= self.map_max_barrier_radius <= COORD_LIMIT
        &&& 0 <= self.player_radius <= COORD_LIMIT
        &&& 2 * self.player_radius < self.map_width
        &&& 2 * self.player_radius < self.map_height
        &&& 0 <= self.player_max_speed <= SPEED_LIMIT
        &&& 0 <= self.player_missile_speed <= SPEED_LIMIT
        &&& 0 <= self.player_view_angle <= FULL_TURN_FX
        &&& self.players_amount >= 1
        &&& self.history_optimization_rate >= 1
    }

    /// The configuration every default yields.
    pub fn defaults() -> (c: GameConfig)
        ensures
            c.wf(),
            c.map_width == 9_600_000,
            c.map_height == 5_400_000,
            c.map_barriers_amount == 30,
            c.map_max_barrier_radius == 400_000,
            c.player_radius == 100_000,
            c.player_max_speed == 9_600_000,
            c.player_view_angle == 300_000,
            c.player_rays_amount == 21,
            c.player_missile_speed == 28_800_000,
            c.players_amount == 2,
            c.history_optimization_rate == 30,
    {
        GameConfig {
            map_width: default_map_width(),
            map_height: default_map_height(),
            map_barriers_amount: default_map_barriers_amount(),
            map_max_barrier_radius: default_map_max_barrier_radius(),
            player_radius: default_player_radius(),
            player_max_speed: default_player_max_speed(),
            player_view_angle: default_player_view_angle(),
            player_rays_amount: default_player_rays_amount(),
            player_missile_speed: default_player_missile_speed(),
            players_amount: default_players_amount(),
            history_optimization_rate: default_history_optimization_rate(),
        }
    }

    /// Whether the configuration is one the engine accepts: exactly the
    /// bounds of `wf`. A failure here is fatal before the listener
    /// starts.
    pub fn validate(&self) -> (ok: bool)
        ensures
            ok <==> self.wf(),
    {
        0 < self.map_width && self.map_width <= COORD_LIMIT && 0 < self.map_height
            && self.map_height <= COORD_LIMIT && 0 <= self.map_max_barrier_radius
            && self.map_max_barrier_radius <= COORD_LIMIT && 0 <= self.player_radius
            && self.player_radius <= COORD_LIMIT && 2 * self.player_radius < self.map_width && 2
            * self.player_radius < self.map_height && 0 <= self.player_max_speed
            && self.player_max_speed <= SPEED_LIMIT && 0 <= self.player_missile_speed
            && self.player_missile_speed <= SPEED_LIMIT && 0 <= self.player_view_angle
            && self.player_view_angle <= FULL_TURN_FX && self.players_amount >= 1
            && self.history_optimization_rate >= 1
    }
}

} // verus!
