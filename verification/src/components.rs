//! Data carried by simulation entities: kinds, the formation descriptor,
//! the entity record itself, the player respawn state and the counters.

use vstd::prelude::*;

verus! {

/// Viewport size in milli-units, fixed for the process lifetime.
pub struct WinSize {
    pub w: u64,
    pub h: u64,
}

impl WinSize {
    /// The core accepts windows within a fixed, generous band.
    pub open spec fn inv(self) -> bool {
        &&& crate::WIN_MIN_MILLI <= self.w <= crate::WIN_MAX_MILLI
        &&& crate::WIN_MIN_MILLI <= self.h <= crate::WIN_MAX_MILLI
    }
}

/// Number of concurrently live enemies; never exceeds the population cap.
pub struct EnemyCount(pub u32);

/// Number of enemies destroyed by player lasers since the start.
pub struct KillCount(pub u32);

/// What an entity is. A laser carries the side that fired it in its
/// kind, so the joint queries (laser and from-player, laser and
/// from-enemy) are single tests here.
#[derive(Clone, Copy, PartialEq, Eq, Structural, Debug)]
pub enum Kind {
    Player,
    Enemy,
    PlayerLaser,
    EnemyLaser,
    ExplosionMarker,
    Explosion,
}

/// Per-enemy orbital path parameters, created once at spawn.
///
/// Positions are in milli-units, the phase angle in milliradians within
/// [0, tau), the speed scalar in milli-units per second.
#[derive(Clone, Copy, Debug)]
pub struct Formation {
    pub start_x: i64,
    pub start_y: i64,
    pub pivot_x: i64,
    pub pivot_y: i64,
    pub radius_x: i64,
    pub radius_y: i64,
    pub angle: i64,
    pub speed: i64,
}

impl Formation {
    /// Well-formedness: the fields stay inside the bands the flight
    /// arithmetic is proved against. In particular both semi-axes are
    /// strictly positive and bounded away from zero, since the angle
    /// advance divides by the smaller of them.
    pub open spec fn inv(self) -> bool {
        &&& -10_000_000 <= self.start_x <= 10_000_000
        &&& -10_000_000 <= self.start_y <= 10_000_000
        &&& -10_000_000 <= self.pivot_x <= 10_000_000
        &&& -10_000_000 <= self.pivot_y <= 10_000_000
        &&& crate::RADIUS_MIN_MILLI <= self.radius_x <= crate::RADIUS_MAX_MILLI
        &&& crate::RADIUS_MIN_MILLI <= self.radius_y <= crate::RADIUS_MAX_MILLI
        &&& 0 <= self.angle < crate::TAU_MILLI
        &&& crate::FORMATION_SPEED_MIN_MILLI <= self.speed <= crate::FORMATION_SPEED_MAX_MILLI
    }

    /// Orbit direction, fixed by the sign of the spawn abscissa:
    /// counter-clockwise from the left half, clockwise from the right.
    pub open spec fn spec_direction(self) -> int {
        if self.start_x < 0 {
            1
        } else {
            -1
        }
    }

    /// The smaller of the two ellipse semi-axes.
    pub open spec fn spec_min_radius(self) -> int {
        if self.radius_x <= self.radius_y {
            self.radius_x as int
        } else {
            self.radius_y as int
        }
    }

    /// Returns the orbit direction derived from the spawn position.
    pub fn direction(&self) -> (r: i64)
        ensures
            r == self.spec_direction(),
    {
        if self.start_x < 0 {
            1
        } else {
            -1
        }
    }
}

/// One entity of the store: its kind, whether it is still live this
/// tick, its transform, sprite size, velocity and per-kind data.
///
/// Velocity components are a direction sign in {-1, 0, 1}; a movable
/// entity advances by that sign times the fixed per-tick step. The
/// `alive` flag is the transient destroyed-set of a tick: systems mark
/// entities dead and a flush drops them before the next tick reads them.
#[derive(Clone, Copy, Debug)]
pub struct Entity {
    pub kind: Kind,
    pub alive: bool,
    pub x: i64,
    pub y: i64,
    pub scale_milli: u64,
    pub w_milli: u64,
    pub h_milli: u64,
    pub vx: i64,
    pub vy: i64,
    pub movable: bool,
    pub auto_despawn: bool,
    pub formation: Option<Formation>,
    pub timer_ms: u64,
    pub frame: u64,
}

impl Entity {
    /// Well-formedness of one entity record.
    pub open spec fn inv(self) -> bool {
        &&& -crate::POS_LIMIT_MILLI <= self.x <= crate::POS_LIMIT_MILLI
        &&& -crate::POS_LIMIT_MILLI <= self.y <= crate::POS_LIMIT_MILLI
        &&& 0 < self.scale_milli <= 1000
        &&& 0 < self.w_milli <= 1_000_000
        &&& 0 < self.h_milli <= 1_000_000
        &&& -1 <= self.vx <= 1
        &&& -1 <= self.vy <= 1
        &&& self.frame <= crate::EXPLOSION_LEN
        &&& self.timer_ms <= 1_000_000
        &&& self.kind is Enemy ==> {
            &&& self.formation is Some
            &&& self.formation->0.inv()
            &&& -11_000_000 <= self.x <= 11_000_000
            &&& -11_000_000 <= self.y <= 11_000_000
        }
    }

    /// Collision half-extent along x, from the sprite size and scale.
    pub open spec fn spec_half_x(self) -> int {
        crate::geom::spec_half_extent(self.w_milli, self.scale_milli)
    }

    /// Collision half-extent along y, from the sprite size and scale.
    pub open spec fn spec_half_y(self) -> int {
        crate::geom::spec_half_extent(self.h_milli, self.scale_milli)
    }

    /// The live player ship, centered at the bottom of the viewport.
    pub fn new_player(win: &WinSize) -> (e: Entity)
        requires
            win.inv(),
        ensures
            e.inv(),
            e.kind is Player,
            e.alive,
            e.x == 0,
            e.y == -((win.h / 2) as int) + 44_250 + 5_000,
            e.vx == 0 && e.vy == 0,
            e.movable && !e.auto_despawn,
            e.w_milli == crate::PLAYER_W_MILLI && e.h_milli == crate::PLAYER_H_MILLI,
            e.scale_milli == crate::SPRITE_SCALE_MILLI,
    {
        let bottom = -((win.h / 2) as i64);
        Entity {
            kind: Kind::Player,
            alive: true,
            x: 0,
            y: bottom + 44_250 + 5_000,
            scale_milli: crate::SPRITE_SCALE_MILLI,
            w_milli: crate::PLAYER_W_MILLI,
            h_milli: crate::PLAYER_H_MILLI,
            vx: 0,
            vy: 0,
            movable: true,
            auto_despawn: false,
            formation: None,
            timer_ms: 0,
            frame: 0,
        }
    }

    /// A player laser, rising at full speed and despawning off screen.
    pub fn new_player_laser(x: i64, y: i64) -> (e: Entity)
        requires
            -crate::POS_LIMIT_MILLI <= x <= crate::POS_LIMIT_MILLI,
            -crate::POS_LIMIT_MILLI <= y <= crate::POS_LIMIT_MILLI,
        ensures
            e.inv(),
            e.kind is PlayerLaser,
            e.alive,
            e.x == x && e.y == y,
            e.vx == 0 && e.vy == 1,
            e.movable && e.auto_despawn,
            e.w_milli == crate::PLAYER_LASER_W_MILLI && e.h_milli == crate::PLAYER_LASER_H_MILLI,
            e.scale_milli == crate::SPRITE_SCALE_MILLI,
    {
        Entity {
            kind: Kind::PlayerLaser,
            alive: true,
            x,
            y,
            scale_milli: crate::SPRITE_SCALE_MILLI,
            w_milli: crate::PLAYER_LASER_W_MILLI,
            h_milli: crate::PLAYER_LASER_H_MILLI,
            vx: 0,
            vy: 1,
            movable: true,
            auto_despawn: true,
            formation: None,
            timer_ms: 0,
            frame: 0,
        }
    }

    /// An enemy laser, falling at full speed and despawning off screen.
    pub fn new_enemy_laser(x: i64, y: i64) -> (e: Entity)
        requires
            -crate::POS_LIMIT_MILLI <= x <= crate::POS_LIMIT_MILLI,
            -crate::POS_LIMIT_MILLI <= y <= crate::POS_LIMIT_MILLI,
        ensures
            e.inv(),
            e.kind is EnemyLaser,
            e.alive,
            e.x == x && e.y == y,
            e.vx == 0 && e.vy == -1,
            e.movable && e.auto_despawn,
            e.w_milli == crate::ENEMY_LASER_W_MILLI && e.h_milli == crate::ENEMY_LASER_H_MILLI,
            e.scale_milli == crate::SPRITE_SCALE_MILLI,
    {
        Entity {
            kind: Kind::EnemyLaser,
            alive: true,
            x,
            y,
            scale_milli: crate::SPRITE_SCALE_MILLI,
            w_milli: crate::ENEMY_LASER_W_MILLI,
            h_milli: crate::ENEMY_LASER_H_MILLI,
            vx: 0,
            vy: -1,
            movable: true,
            auto_despawn: true,
            formation: None,
            timer_ms: 0,
            frame: 0,
        }
    }

    /// An enemy at its formation's start point, carrying the formation.
    pub fn new_enemy(f: Formation) -> (e: Entity)
        requires
            f.inv(),
        ensures
            e.inv(),
            e.kind is Enemy,
            e.alive,
            e.x == f.start_x && e.y == f.start_y,
            e.formation == Some(f),
            !e.movable && !e.auto_despawn,
            e.w_milli == crate::ENEMY_W_MILLI && e.h_milli == crate::ENEMY_H_MILLI,
            e.scale_milli == crate::SPRITE_SCALE_MILLI,
    {
        Entity {
            kind: Kind::Enemy,
            alive: true,
            x: f.start_x,
            y: f.start_y,
            scale_milli: crate::SPRITE_SCALE_MILLI,
            w_milli: crate::ENEMY_W_MILLI,
            h_milli: crate::ENEMY_H_MILLI,
            vx: 0,
            vy: 0,
            movable: false,
            auto_despawn: false,
            formation: Some(f),
            timer_ms: 0,
            frame: 0,
        }
    }

    /// The short-lived marker that requests an explosion at a position.
    pub fn new_explosion_marker(x: i64, y: i64) -> (e: Entity)
        requires
            -crate::POS_LIMIT_MILLI <= x <= crate::POS_LIMIT_MILLI,
            -crate::POS_LIMIT_MILLI <= y <= crate::POS_LIMIT_MILLI,
        ensures
            e.inv(),
            e.kind is ExplosionMarker,
            e.alive,
            e.x == x && e.y == y,
            !e.movable && !e.auto_despawn,
    {
        Entity {
            kind: Kind::ExplosionMarker,
            alive: true,
            x,
            y,
            scale_milli: crate::SPRITE_SCALE_MILLI,
            w_milli: 64_000,
            h_milli: 64_000,
            vx: 0,
            vy: 0,
            movable: false,
            auto_despawn: false,
            formation: None,
            timer_ms: 0,
            frame: 0,
        }
    }

    /// An animating explosion, starting at frame zero.
    pub fn new_explosion(x: i64, y: i64) -> (e: Entity)
        requires
            -crate::POS_LIMIT_MILLI <= x <= crate::POS_LIMIT_MILLI,
            -crate::POS_LIMIT_MILLI <= y <= crate::POS_LIMIT_MILLI,
        ensures
            e.inv(),
            e.kind is Explosion,
            e.alive,
            e.x == x && e.y == y,
            e.timer_ms == 0 && e.frame == 0,
            !e.movable && !e.auto_despawn,
    {
        Entity {
            kind: Kind::Explosion,
            alive: true,
            x,
            y,
            scale_milli: crate::SPRITE_SCALE_MILLI,
            w_milli: 64_000,
            h_milli: 64_000,
            vx: 0,
            vy: 0,
            movable: false,
            auto_despawn: false,
            formation: None,
            timer_ms: 0,
            frame: 0,
        }
    }
}

/// Whether the player ship is live, and when it last died. A dead
/// player respawns only after the respawn delay has fully elapsed.
pub struct PlayerState {
    pub on: bool,
    pub last_shot_ms: Option<u64>,
}

impl PlayerState {
    /// At startup no player ship exists and none has ever died.
    pub fn new() -> (s: PlayerState)
        ensures
            !s.on,
            s.last_shot_ms is None,
    {
        PlayerState { on: false, last_shot_ms: None }
    }

    /// The respawn guard: a player may spawn only while none is on and
    /// either none has ever died or the delay since the death is over.
    pub open spec fn spec_respawn_due(self, now_ms: u64) -> bool {
        &&& !self.on
        &&& match self.last_shot_ms {
            None => true,
            Some(t) => now_ms > t + crate::PLAYER_RESPAWN_DELAY_MS,
        }
    }

    /// Records that a player ship was created.
    pub fn spawned(&mut self)
        ensures
            final(self).on,
            final(self).last_shot_ms == old(self).last_shot_ms,
    {
        self.on = true;
    }

    /// Records that the player ship was destroyed now.
    pub fn shot(&mut self, now_ms: u64)
        ensures
            !final(self).on,
            final(self).last_shot_ms == Some(now_ms),
    {
        self.on = false;
        self.last_shot_ms = Some(now_ms);
    }
}

} // verus!
