//! The motion integrator: advances every movable entity by its velocity
//! each tick and expires auto-despawn projectiles that leave the
//! extended viewport. Also the player steering systems.

use vstd::prelude::*;

use crate::components::{Entity, Kind, WinSize};
use crate::world::{
    count_alive, entities_wf, lemma_count_pointwise, lemma_count_pointwise_kind, World,
};

verus! {

/// Positions saturate at a hard limit far beyond any viewport, so the
/// integrator is total; inside the limit it adds exactly one step.
pub open spec fn spec_clamp_pos(v: int) -> int {
    if v > crate::POS_LIMIT_MILLI {
        crate::POS_LIMIT_MILLI as int
    } else if v < -crate::POS_LIMIT_MILLI {
        -crate::POS_LIMIT_MILLI
    } else {
        v
    }
}

/// The border beyond which auto-despawn entities die. Both axes use the
/// viewport half height plus the margin: by design the abscissa check
/// reuses the height bound rather than the width.
pub open spec fn spec_despawn_bound(win_h: int) -> int {
    win_h / 2 + crate::DESPAWN_MARGIN_MILLI
}

/// Whether a position lies outside the extended viewport.
pub open spec fn spec_out_of_bounds(x: int, y: int, win_h: int) -> bool {
    let b = spec_despawn_bound(win_h);
    ||| y > b
    ||| y < -b
    ||| x > b
    ||| x < -b
}

/// One linear integration step: each axis advances by the velocity sign
/// times the fixed per-tick displacement.
pub open spec fn spec_integrate(e: Entity) -> Entity {
    Entity {
        x: spec_clamp_pos(e.x + e.vx * crate::STEP_MILLI) as i64,
        y: spec_clamp_pos(e.y + e.vy * crate::STEP_MILLI) as i64,
        ..e
    }
}

/// One tick of the integrator on one record: only live movable records
/// move; an auto-despawn record whose new position lies outside the
/// extended viewport dies on the spot.
pub open spec fn spec_movable_tick(e: Entity, win_h: int) -> Entity {
    if !(e.alive && e.movable) {
        e
    } else {
        let m = spec_integrate(e);
        if m.auto_despawn && spec_out_of_bounds(m.x as int, m.y as int, win_h) {
            Entity { alive: false, ..m }
        } else {
            m
        }
    }
}

/// Clamps a coordinate to the hard position limit.
pub fn clamp_pos(v: i64) -> (r: i64)
    ensures
        r == spec_clamp_pos(v as int),
        -crate::POS_LIMIT_MILLI <= r <= crate::POS_LIMIT_MILLI,
{
    if v > crate::POS_LIMIT_MILLI {
        crate::POS_LIMIT_MILLI
    } else if v < -crate::POS_LIMIT_MILLI {
        -crate::POS_LIMIT_MILLI
    } else {
        v
    }
}

/// Advances one record by one integrator tick.
pub fn movable_step(e: &Entity, win: &WinSize) -> (r: Entity)
    requires
        e.inv(),
        win.inv(),
        e.kind == Kind::Enemy ==> !e.movable,
    ensures
        r == spec_movable_tick(*e, win.h as int),
        r.inv(),
        r.kind == e.kind,
        e.kind == Kind::Player && !e.auto_despawn ==> r.alive == e.alive,
{
    if !(e.alive && e.movable) {
        return *e;
    }
    let nx = clamp_pos(e.x + e.vx * crate::STEP_MILLI);
    let ny = clamp_pos(e.y + e.vy * crate::STEP_MILLI);
    let bound = (win.h / 2) as i64 + crate::DESPAWN_MARGIN_MILLI;
    let mut m = *e;
    m.x = nx;
    m.y = ny;
    if m.auto_despawn && (ny > bound || ny < -bound || nx > bound || nx < -bound) {
        m.alive = false;
    }
    m
}

impl World {
    /// One tick of the motion integrator over the whole store.
    pub fn movable_system(&mut self)
        requires
            old(self).wf(),
        ensures
            final(self).wf(),
            final(self).entities@.len() == old(self).entities@.len(),
            forall|i: int|
                0 <= i < old(self).entities@.len() ==> final(self).entities@[i]
                    == spec_movable_tick(
                    #[trigger] old(self).entities@[i],
                    old(self).win.h as int,
                ),
            final(self).win == old(self).win,
            final(self).enemy_count == old(self).enemy_count,
            final(self).kill_count == old(self).kill_count,
            final(self).player == old(self).player,
            final(self).next_enemy_spawn_ms == old(self).next_enemy_spawn_ms,
            final(self).next_player_spawn_ms == old(self).next_player_spawn_ms,
    {
        let ghost s0 = self.entities@;
        let ghost h = self.win.h as int;
        let n = self.entities.len();
        let mut i: usize = 0;
        while i < n
            invariant
                0 <= i <= n,
                n == s0.len(),
                self.entities@.len() == s0.len(),
                self.win == old(self).win,
                self.win.inv(),
                entities_wf(s0),
                h == self.win.h as int,
                forall|j: int|
                    0 <= j < i ==> self.entities@[j] == spec_movable_tick(
                        #[trigger] s0[j],
                        h,
                    ),
                forall|j: int| i <= j < s0.len() ==> self.entities@[j] == s0[j],
                entities_wf(self.entities@),
                self.enemy_count == old(self).enemy_count,
                self.kill_count == old(self).kill_count,
                self.player == old(self).player,
                self.next_enemy_spawn_ms == old(self).next_enemy_spawn_ms,
                self.next_player_spawn_ms == old(self).next_player_spawn_ms,
            decreases n - i,
        {
            let e = self.entities[i];
            if e.alive && e.movable {
                let ne = movable_step(&e, &self.win);
                self.entities[i] = ne;
            }
            i = i + 1;
        }
        proof {
            lemma_count_pointwise_kind(s0, self.entities@, Kind::Enemy);
            lemma_count_pointwise_kind(s0, self.entities@, Kind::Player);
        }
    }

    /// Moves the player ship by its steering velocity. The ship is not
    /// auto-despawn, so it only ever moves, never dies here.
    pub fn player_movement_system(&mut self)
        requires
            old(self).wf(),
        ensures
            final(self).wf(),
            final(self).entities@.len() == old(self).entities@.len(),
            forall|i: int|
                0 <= i < old(self).entities@.len() ==> final(self).entities@[i] == (
                if (#[trigger] old(self).entities@[i]).alive && old(self).entities@[i].kind
                    == Kind::Player {
                    spec_integrate(old(self).entities@[i])
                } else {
                    old(self).entities@[i]
                }),
            final(self).win == old(self).win,
            final(self).enemy_count == old(self).enemy_count,
            final(self).kill_count == old(self).kill_count,
            final(self).player == old(self).player,
            final(self).next_enemy_spawn_ms == old(self).next_enemy_spawn_ms,
            final(self).next_player_spawn_ms == old(self).next_player_spawn_ms,
    {
        let ghost s0 = self.entities@;
        let n = self.entities.len();
        let mut i: usize = 0;
        while i < n
            invariant
                0 <= i <= n,
                n == s0.len(),
                self.entities@.len() == s0.len(),
                entities_wf(s0),
                forall|j: int|
                    0 <= j < i ==> self.entities@[j] == (
                    if (#[trigger] s0[j]).alive && s0[j].kind == Kind::Player {
                        spec_integrate(s0[j])
                    } else {
                        s0[j]
                    }),
                forall|j: int| i <= j < s0.len() ==> self.entities@[j] == s0[j],
                entities_wf(self.entities@),
                self.win == old(self).win,
                self.enemy_count == old(self).enemy_count,
                self.kill_count == old(self).kill_count,
                self.player == old(self).player,
                self.next_enemy_spawn_ms == old(self).next_enemy_spawn_ms,
                self.next_player_spawn_ms == old(self).next_player_spawn_ms,
            decreases n - i,
        {
            let e = self.entities[i];
            if e.alive && matches!(e.kind, Kind::Player) {
                let nx = clamp_pos(e.x + e.vx * crate::STEP_MILLI);
                let ny = clamp_pos(e.y + e.vy * crate::STEP_MILLI);
                let mut m = e;
                m.x = nx;
                m.y = ny;
                self.entities[i] = m;
            }
            i = i + 1;
        }
        proof {
            lemma_count_pointwise(s0, self.entities@, Kind::Enemy);
            lemma_count_pointwise(s0, self.entities@, Kind::Player);
        }
    }

    /// Steers the player from the pressed arrow keys: left wins over
    /// right, no key stops the ship.
    pub fn player_keyboard_event_system(&mut self, left: bool, right: bool)
        requires
            old(self).wf(),
        ensures
            final(self).wf(),
            final(self).entities@.len() == old(self).entities@.len(),
            forall|i: int|
                0 <= i < old(self).entities@.len() ==> final(self).entities@[i] == (
                if (#[trigger] old(self).entities@[i]).alive && old(self).entities@[i].kind
                    == Kind::Player {
                    Entity {
                        vx: if left {
                            -1i64
                        } else if right {
                            1i64
                        } else {
                            0i64
                        },
                        ..old(self).entities@[i]
                    }
                } else {
                    old(self).entities@[i]
                }),
            final(self).win == old(self).win,
            final(self).enemy_count == old(self).enemy_count,
            final(self).kill_count == old(self).kill_count,
            final(self).player == old(self).player,
            final(self).next_enemy_spawn_ms == old(self).next_enemy_spawn_ms,
            final(self).next_player_spawn_ms == old(self).next_player_spawn_ms,
    {
        let vx: i64 = if left {
            -1
        } else if right {
            1
        } else {
            0
        };
        let ghost s0 = self.entities@;
        let n = self.entities.len();
        let mut i: usize = 0;
        while i < n
            invariant
                0 <= i <= n,
                n == s0.len(),
                self.entities@.len() == s0.len(),
                entities_wf(s0),
                vx == (if left {
                    -1int
                } else if right {
                    1int
                } else {
                    0int
                }),
                forall|j: int|
                    0 <= j < i ==> self.entities@[j] == (
                    if (#[trigger] s0[j]).alive && s0[j].kind == Kind::Player {
                        Entity { vx: vx, ..s0[j] }
                    } else {
                        s0[j]
                    }),
                forall|j: int| i <= j < s0.len() ==> self.entities@[j] == s0[j],
                entities_wf(self.entities@),
                self.win == old(self).win,
                self.enemy_count == old(self).enemy_count,
                self.kill_count == old(self).kill_count,
                self.player == old(self).player,
                self.next_enemy_spawn_ms == old(self).next_enemy_spawn_ms,
                self.next_player_spawn_ms == old(self).next_player_spawn_ms,
            decreases n - i,
        {
            let e = self.entities[i];
            if e.alive && matches!(e.kind, Kind::Player) {
                let mut m = e;
                m.vx = vx;
                self.entities[i] = m;
            }
            i = i + 1;
        }
        proof {
            lemma_count_pointwise(s0, self.entities@, Kind::Enemy);
            lemma_count_pointwise(s0, self.entities@, Kind::Player);
        }
    }
}

} // verus!
