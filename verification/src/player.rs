//! Agents and projectiles: kinematic state, lifecycle status and the
//! per-agent operators (rotate, set speed, fire is on the world).

use vstd::prelude::*;

use crate::fixed::{iabs, COORD_LIMIT, SPEED_LIMIT};
use crate::rng::random_u64;
use crate::trig::{FULL_TURN_FX, HALF_TURN_FX};

verus! {

/// Lifecycle of an agent: in play, the winner, or dead with the killer's id.
#[derive(Clone, Copy, Debug, PartialEq, Eq, Structural)]
pub enum PlayerStatus {
    InGame,
    Win,
    KilledBy(usize),
}

/// One record of an agent's view: the class of the first object a sight
/// ray reached, and its distance from the agent's rim.
#[derive(Clone, Copy, Debug, PartialEq, Eq, Structural)]
pub enum ViewHit {
    Barrier(i64),
    Border(i64),
    Enemy(i64),
}

/// A projectile: fixed heading and speed, owned by the agent that fired it.
#[derive(Clone, Copy, Debug, PartialEq, Eq, Structural)]
pub struct Missile {
    pub x: i64,
    pub y: i64,
    pub direction: i64,
    pub id: usize,
    pub player_id: usize,
    pub speed: i64,
}

impl Missile {
    /// Bounds every projectile held by a world satisfies.
    pub open spec fn wf(&self) -> bool {
        &&& iabs(self.x as int) <= COORD_LIMIT
        &&& iabs(self.y as int) <= COORD_LIMIT
        &&& 0 <= self.speed <= SPEED_LIMIT
    }
}

/// A player-controlled agent: position, heading, speed, sight and weapon
/// parameters, and lifecycle status. The id is assigned when the agent is
/// registered with a world.
#[derive(Clone, Copy, Debug, PartialEq, Eq, Structural)]
pub struct Player {
    pub x: i64,
    pub y: i64,
    pub r: i64,
    pub direction: i64,
    pub speed: i64,
    pub max_speed: i64,
    pub view_angle: i64,
    pub rays_amount: u16,
    pub id: usize,
    pub missile_speed: i64,
    pub status: PlayerStatus,
}

impl Player {
    /// Bounds every agent held by a world satisfies.
    pub open spec fn wf(&self) -> bool {
        &&& iabs(self.x as int) <= COORD_LIMIT
        &&& iabs(self.y as int) <= COORD_LIMIT
        &&& 0 <= self.r <= COORD_LIMIT
        &&& 0 <= self.max_speed <= SPEED_LIMIT
        &&& 0 <= self.speed <= self.max_speed
        &&& 0 <= self.missile_speed <= SPEED_LIMIT
        &&& 0 <= self.view_angle <= FULL_TURN_FX
    }

    /// A new agent with a heading drawn from entropy, anywhere in
    /// `[-180, 180)` degrees. Standing speed is zero and the id is left
    /// for registration to assign.
    pub fn create(
        x: i64,
        y: i64,
        r: i64,
        max_speed: i64,
        view_angle: i64,
        rays_amount: u16,
        missile_speed: i64,
    ) -> (p: Player)
        requires
            iabs(x as int) <= COORD_LIMIT,
            iabs(y as int) <= COORD_LIMIT,
            0 <= r <= COORD_LIMIT,
            0 <= max_speed <= SPEED_LIMIT,
            0 <= missile_speed <= SPEED_LIMIT,
            0 <= view_angle <= FULL_TURN_FX,
        ensures
            p.x == x,
            p.y == y,
            p.r == r,
            p.max_speed == max_speed,
            p.view_angle == view_angle,
            p.rays_amount == rays_amount,
            p.missile_speed == missile_speed,
            p.speed == 0,
            p.id == 0,
            p.status == PlayerStatus::InGame,
            -HALF_TURN_FX <= p.direction < HALF_TURN_FX,
            p.wf(),
    {
        let direction: i64 = -HALF_TURN_FX + (random_u64() % (FULL_TURN_FX as u64)) as i64;
        Player {
            x,
            y,
            r,
            direction,
            speed: 0,
            max_speed,
            view_angle,
            rays_amount,
            id: 0,
            missile_speed,
            status: PlayerStatus::InGame,
        }
    }

    /// A new agent with the given heading.
    pub fn create_with_direction(
        x: i64,
        y: i64,
        r: i64,
        max_speed: i64,
        view_angle: i64,
        rays_amount: u16,
        direction: i64,
        missile_speed: i64,
    ) -> (p: Player)
        requires
            iabs(x as int) <= COORD_LIMIT,
            iabs(y as int) <= COORD_LIMIT,
            0 <= r <= COORD_LIMIT,
            0 <= max_speed <= SPEED_LIMIT,
            0 <= missile_speed <= SPEED_LIMIT,
            0 <= view_angle <= FULL_TURN_FX,
        ensures
            p == (Player {
                x,
                y,
                r,
                direction,
                speed: 0,
                max_speed,
                view_angle,
                rays_amount,
                id: 0,
                missile_speed,
                status: PlayerStatus::InGame,
            }),
            p.wf(),
    {
        Player {
            x,
            y,
            r,
            direction,
            speed: 0,
            max_speed,
            view_angle,
            rays_amount,
            id: 0,
            missile_speed,
            status: PlayerStatus::InGame,
        }
    }

    pub fn get_x(&self) -> (v: i64)
        ensures
            v == self.x,
    {
        self.x
    }

    pub fn get_y(&self) -> (v: i64)
        ensures
            v == self.y,
    {
        self.y
    }

    pub fn get_direction(&self) -> (v: i64)
        ensures
            v == self.direction,
    {
        self.direction
    }

    pub fn get_speed(&self) -> (v: i64)
        ensures
            v == self.speed,
    {
        self.speed
    }

    /// Add an angle to the heading. Headings do not wrap: they are
    /// unbounded, so the caller keeps the sum inside the machine range.
    pub fn rotate(&mut self, angle: i64)
        requires
            i64::MIN <= old(self).direction + angle <= i64::MAX,
        ensures
            *final(self) == (Player { direction: (old(self).direction + angle) as i64, ..*old(self) }),
    {
        self.direction = self.direction + angle;
    }

    /// The speed an agent actually takes when asked for `v`: clamped into
    /// `[0, max_speed]`.
    pub open spec fn clamped_speed(&self, v: int) -> int {
        if v < 0 {
            0
        } else if v > self.max_speed {
            self.max_speed as int
        } else {
            v
        }
    }

    /// Set the speed, clamped into `[0, max_speed]`.
    pub fn set_speed(&mut self, speed: i64)
        ensures
            *final(self) == (Player {
                speed: old(self).clamped_speed(speed as int) as i64,
                ..*old(self)
            }),
    {
        if speed < 0 {
            self.speed = 0;
        } else if speed > self.max_speed {
            self.speed = self.max_speed;
        } else {
            self.speed = speed;
        }
    }
}

} // verus!
