//! The enemy flight controller.
//!
//! Each tick an enemy advances a candidate phase angle along its
//! formation, aims at the point of the orbit the candidate angle picks
//! (by design the parametrization uses the cosine on both axes, so the
//! path runs along a diagonal chord of the ellipse), and homes toward
//! that point by at most one step, clamped per axis so it never
//! overshoots. The phase is
//! committed into the descriptor only once the enemy has converged onto
//! the orbit: while it is still far, the angle stays frozen and the
//! enemy keeps homing toward the same target.

use vstd::prelude::*;

use crate::components::{Entity, Formation};
use crate::trig::{spec_cos_milli, spec_isqrt, spec_sin_milli};
use vstd::arithmetic::div_mod::{
    lemma_div_is_ordered, lemma_div_is_ordered_by_denominator, lemma_div_multiples_vanish,
    lemma_div_pos_is_pos,
};

verus! {

/// Absolute value.
pub open spec fn spec_abs(x: int) -> int {
    if x >= 0 {
        x
    } else {
        -x
    }
}

/// Farthest distance an enemy may cover in one tick, milli-units:
/// its formation speed over the tick rate.
pub open spec fn spec_max_step(speed: int) -> int {
    speed / 60
}

/// Per-tick advance of the phase angle, milliradians: the tick step
/// scaled by the quarter-turn arc of the smaller semi-axis.
pub open spec fn spec_d_angle(f: Formation) -> int {
    spec_max_step(f.speed as int) * 1000 / (f.spec_min_radius() * crate::PI_MILLI / 2000)
}

/// Normalizes an angle one period off back into [0, tau).
pub open spec fn spec_wrap_tau(a: int) -> int {
    if a < 0 {
        a + crate::TAU_MILLI
    } else if a >= crate::TAU_MILLI {
        a - crate::TAU_MILLI
    } else {
        a
    }
}

/// Candidate phase for this tick: the stored phase advanced by the
/// per-tick angle in the orbit direction.
pub open spec fn spec_angle_cand(f: Formation) -> int {
    spec_wrap_tau(f.angle + f.spec_direction() * spec_d_angle(f))
}

/// A semi-axis scaled by a milli-cosine, rounded toward zero.
pub open spec fn spec_scaled(r: int, c: int) -> int {
    if c >= 0 {
        r * c / 1000
    } else {
        -(r * (-c) / 1000)
    }
}

/// Abscissa of the point of the orbit the candidate phase picks.
pub open spec fn spec_target_x(f: Formation) -> int {
    f.pivot_x + spec_scaled(f.radius_x as int, spec_cos_milli(spec_angle_cand(f)))
}

/// Ordinate of the point of the orbit the candidate phase picks.
/// Like the abscissa it uses the cosine of the phase.
pub open spec fn spec_target_y(f: Formation) -> int {
    f.pivot_y + spec_scaled(f.radius_y as int, spec_cos_milli(spec_angle_cand(f)))
}

/// Integral Euclidean distance between two points.
pub open spec fn spec_distance(x: int, y: int, tx: int, ty: int) -> int {
    spec_isqrt((((x - tx) * (x - tx)) + ((y - ty) * (y - ty))) as nat) as int
}

/// Length of this tick's movement along one axis: the axis delta scaled
/// by the ratio of the tick step to the distance, zero at the target.
pub open spec fn spec_axis_step(delta: int, dist: int, max_step: int) -> int {
    if dist == 0 {
        0
    } else {
        spec_abs(delta) * max_step / dist
    }
}

/// New coordinate along one axis: moved toward the target by the axis
/// step, clamped so it never passes the target.
pub open spec fn spec_axis_new(cur: int, dst: int, dist: int, max_step: int) -> int {
    let d = cur - dst;
    let s = spec_axis_step(d, dist, max_step);
    if d > 0 {
        if cur - s >= dst {
            cur - s
        } else {
            dst
        }
    } else if d < 0 {
        if cur + s <= dst {
            cur + s
        } else {
            dst
        }
    } else {
        cur
    }
}

/// Distance under which the enemy counts as converged onto its orbit
/// and the phase angle starts advancing.
pub open spec fn spec_lock_threshold(f: Formation) -> int {
    spec_max_step(f.speed as int) * f.speed / 20_000
}

/// The formation after one tick: the candidate phase is committed only
/// once the enemy is within the lock-on distance of the target.
pub open spec fn spec_flight_formation(f: Formation, dist: int) -> Formation {
    if dist < spec_lock_threshold(f) {
        Formation { angle: spec_angle_cand(f) as i64, ..f }
    } else {
        f
    }
}

/// One full flight tick of an enemy: move both axes toward the target
/// of the candidate phase, then commit the phase if converged.
pub open spec fn spec_flight_step(e: Entity) -> Entity {
    let f = e.formation->0;
    let tx = spec_target_x(f);
    let ty = spec_target_y(f);
    let dist = spec_distance(e.x as int, e.y as int, tx, ty);
    let ms = spec_max_step(f.speed as int);
    Entity {
        x: spec_axis_new(e.x as int, tx, dist, ms) as i64,
        y: spec_axis_new(e.y as int, ty, dist, ms) as i64,
        formation: Some(spec_flight_formation(f, dist)),
        ..e
    }
}

/// The integer square root of anything at least a square is at least
/// its root.
pub proof fn lemma_isqrt_ge(n: nat, a: nat)
    requires
        a * a <= n,
    ensures
        spec_isqrt(n) >= a,
{
    crate::trig::lemma_isqrt_bounds(n);
    if spec_isqrt(n) < a {
        assert((spec_isqrt(n) + 1) * (spec_isqrt(n) + 1) <= a * a) by (nonlinear_arith)
            requires
                spec_isqrt(n) + 1 <= a,
        ;
    }
}

/// Absolute value of a coordinate, as an unsigned.
fn abs_i64(x: i64) -> (r: u64)
    requires
        x > i64::MIN,
    ensures
        r == spec_abs(x as int),
{
    if x >= 0 {
        x as u64
    } else {
        (-x) as u64
    }
}

/// A semi-axis scaled by a milli-cosine.
fn scaled_radius(rad: i64, c: i64) -> (r: i64)
    requires
        crate::RADIUS_MIN_MILLI <= rad <= crate::RADIUS_MAX_MILLI,
        -1000 <= c <= 1000,
    ensures
        r == spec_scaled(rad as int, c as int),
        -crate::RADIUS_MAX_MILLI <= r <= crate::RADIUS_MAX_MILLI,
{
    if c >= 0 {
        proof {
            assert((rad as u64) * (c as u64) <= 150_000_000) by (nonlinear_arith)
                requires
                    rad <= 150_000i64,
                    c <= 1000i64,
                    rad >= 0,
                    c >= 0,
            ;
        }
        let p = (rad as u64) * (c as u64);
        proof {
            lemma_div_is_ordered(p as int, 150_000_000, 1000);
            lemma_div_pos_is_pos(p as int, 1000);
        }
        (p / 1000) as i64
    } else {
        let cm = -c;
        proof {
            assert((rad as u64) * (cm as u64) <= 150_000_000) by (nonlinear_arith)
                requires
                    rad <= 150_000i64,
                    0 < cm <= 1000i64,
                    rad >= 0,
            ;
        }
        let p = (rad as u64) * (cm as u64);
        proof {
            lemma_div_is_ordered(p as int, 150_000_000, 1000);
            lemma_div_pos_is_pos(p as int, 1000);
        }
        -((p / 1000) as i64)
    }
}

/// Advances one enemy by one flight tick.
#[verifier::rlimit(100)]
pub fn flight_step(e: &Entity) -> (r: Entity)
    requires
        e.inv(),
        e.kind is Enemy,
    ensures
        r == spec_flight_step(*e),
        r.inv(),
        r.kind == e.kind,
        r.alive == e.alive,
{
    let f = e.formation.unwrap();
    let speed_u = f.speed as u64;
    let ms_u: u64 = speed_u / 60;
    proof {
        lemma_div_is_ordered(20_000, f.speed as int, 60);
        lemma_div_is_ordered(f.speed as int, 1_000_000, 60);
        assert(333 <= ms_u <= 16_666);
    }
    let min_r: i64 = if f.radius_x <= f.radius_y {
        f.radius_x
    } else {
        f.radius_y
    };
    proof {
        assert((min_r as u64) * 3142 >= 251_360_000 && (min_r as u64) * 3142 <= 471_300_000)
            by (nonlinear_arith)
            requires
                80_000i64 <= min_r <= 150_000i64,
        ;
    }
    let den_u: u64 = ((min_r as u64) * 3142) / 2000;
    let num_u: u64 = ms_u * 1000;
    proof {
        lemma_div_is_ordered(251_360_000, (min_r as u64) * 3142, 2000);
        lemma_div_is_ordered((min_r as u64) * 3142, 471_300_000, 2000);
        assert(125_680 <= den_u <= 235_650);
        lemma_div_is_ordered(num_u as int, 16_666_000, den_u as int);
        lemma_div_is_ordered_by_denominator(16_666_000, 125_680, den_u as int);
        assert(num_u / den_u <= 132);
        lemma_div_pos_is_pos(num_u as int, den_u as int);
    }
    let da: u64 = num_u / den_u;
    assert(da == spec_d_angle(f));
    let dir = f.direction();
    let dai = da as i64;
    let angle_cand: i64 = if dir == 1 {
        let t = f.angle + dai;
        if t >= crate::TAU_MILLI {
            t - crate::TAU_MILLI
        } else {
            t
        }
    } else {
        if f.angle >= dai {
            f.angle - dai
        } else {
            f.angle + crate::TAU_MILLI - dai
        }
    };
    proof {
        let raw = f.angle as int + f.spec_direction() * spec_d_angle(f);
        if f.spec_direction() == 1 {
            assert(f.spec_direction() * spec_d_angle(f) == spec_d_angle(f)) by (nonlinear_arith)
                requires
                    f.spec_direction() == 1,
            ;
            assert(raw == f.angle + da);
        } else {
            assert(f.spec_direction() == -1);
            assert(f.spec_direction() * spec_d_angle(f) == -spec_d_angle(f)) by (nonlinear_arith)
                requires
                    f.spec_direction() == -1,
            ;
            assert(raw == f.angle - da);
        }
        assert(angle_cand == spec_wrap_tau(raw));
        assert(angle_cand == spec_angle_cand(f));
    }
    assert(0 <= angle_cand < crate::TAU_MILLI);
    let c = crate::trig::cos_milli(angle_cand);
    let tx = f.pivot_x + scaled_radius(f.radius_x, c);
    let ty = f.pivot_y + scaled_radius(f.radius_y, c);
    assert(tx == spec_target_x(f) && ty == spec_target_y(f));
    assert(-10_150_000 <= tx <= 10_150_000 && -10_150_000 <= ty <= 10_150_000);
    let dx = e.x - tx;
    let dy = e.y - ty;
    let dxu = abs_i64(dx);
    let dyu = abs_i64(dy);
    proof {
        assert(dxu * dxu == (dx as int) * (dx as int) && dxu * dxu <= 447_745_000_000_000
            && dyu * dyu == (dy as int) * (dy as int) && dyu * dyu <= 447_745_000_000_000)
            by (nonlinear_arith)
            requires
                dxu == spec_abs(dx as int),
                dyu == spec_abs(dy as int),
                -21_150_000 <= dx <= 21_150_000,
                -21_150_000 <= dy <= 21_150_000,
        ;
    }
    let sq = dxu * dxu + dyu * dyu;
    let dist = crate::trig::isqrt(sq);
    proof {
        lemma_isqrt_ge(sq as nat, dxu as nat);
        lemma_isqrt_ge(sq as nat, dyu as nat);
        assert(dist >= dxu && dist >= dyu);
    }
    let sx: u64 = if dist == 0 {
        0
    } else {
        proof {
            assert(dxu * ms_u <= 352_485_450_000_000) by (nonlinear_arith)
                requires
                    dxu <= 21_150_000u64,
                    ms_u <= 16_666u64,
            ;
            lemma_div_is_ordered(dxu as int * ms_u, dxu as int * ms_u, dist as int);
            if dxu > 0 {
                lemma_div_is_ordered_by_denominator(dxu as int * ms_u, dxu as int, dist as int);
                lemma_div_multiples_vanish(ms_u as int, dxu as int);
                assert(dxu as int * ms_u == dxu as int * (ms_u as int));
                assert((dxu as int * (ms_u as int)) / (dxu as int) == ms_u);
            } else {
                assert(dxu == 0);
                assert(dxu as int * (ms_u as int) == 0) by (nonlinear_arith)
                    requires
                        dxu == 0u64,
                ;
                lemma_div_multiples_vanish(0, dist as int);
            }
            lemma_div_pos_is_pos(dxu as int * ms_u, dist as int);
        }
        dxu * ms_u / dist
    };
    let sy: u64 = if dist == 0 {
        0
    } else {
        proof {
            assert(dyu * ms_u <= 352_485_450_000_000) by (nonlinear_arith)
                requires
                    dyu <= 21_150_000u64,
                    ms_u <= 16_666u64,
            ;
            if dyu > 0 {
                lemma_div_is_ordered_by_denominator(dyu as int * ms_u, dyu as int, dist as int);
                lemma_div_multiples_vanish(ms_u as int, dyu as int);
                assert(dyu as int * ms_u == dyu as int * (ms_u as int));
                assert((dyu as int * (ms_u as int)) / (dyu as int) == ms_u);
            } else {
                assert(dyu == 0);
                assert(dyu as int * (ms_u as int) == 0) by (nonlinear_arith)
                    requires
                        dyu == 0u64,
                ;
                lemma_div_multiples_vanish(0, dist as int);
            }
            lemma_div_pos_is_pos(dyu as int * ms_u, dist as int);
        }
        dyu * ms_u / dist
    };
    assert(sx <= 16_666 && sy <= 16_666);
    assert(sx == spec_axis_step(e.x - tx, dist as int, ms_u as int));
    assert(sy == spec_axis_step(e.y - ty, dist as int, ms_u as int));
    let nx: i64 = if dx > 0 {
        let cand = e.x - (sx as i64);
        if cand >= tx {
            cand
        } else {
            tx
        }
    } else if dx < 0 {
        let cand = e.x + (sx as i64);
        if cand <= tx {
            cand
        } else {
            tx
        }
    } else {
        e.x
    };
    let ny: i64 = if dy > 0 {
        let cand = e.y - (sy as i64);
        if cand >= ty {
            cand
        } else {
            ty
        }
    } else if dy < 0 {
        let cand = e.y + (sy as i64);
        if cand <= ty {
            cand
        } else {
            ty
        }
    } else {
        e.y
    };
    assert(nx == spec_axis_new(e.x as int, tx as int, dist as int, ms_u as int));
    assert(ny == spec_axis_new(e.y as int, ty as int, dist as int, ms_u as int));
    assert(-11_000_000 <= nx <= 11_000_000 && -11_000_000 <= ny <= 11_000_000);
    proof {
        assert(ms_u * speed_u <= 16_666_000_000) by (nonlinear_arith)
            requires
                ms_u <= 16_666u64,
                speed_u <= 1_000_000u64,
        ;
        lemma_div_pos_is_pos(ms_u as int * speed_u, 20_000);
    }
    let thr: u64 = ms_u * speed_u / 20_000;
    let new_f = if dist < thr {
        Formation { angle: angle_cand, ..f }
    } else {
        f
    };
    let r = Entity { x: nx, y: ny, formation: Some(new_f), ..*e };
    assert(new_f == spec_flight_formation(f, dist as int));
    assert(r == spec_flight_step(*e));
    r
}

impl crate::world::World {
    /// One tick of the flight controller over every live enemy.
    pub fn enemy_move_system(&mut self)
        requires
            old(self).wf(),
        ensures
            final(self).wf(),
            final(self).entities@.len() == old(self).entities@.len(),
            forall|i: int|
                0 <= i < old(self).entities@.len() ==> final(self).entities@[i] == (
                if (#[trigger] old(self).entities@[i]).alive && old(self).entities@[i].kind
                    == crate::components::Kind::Enemy {
                    spec_flight_step(old(self).entities@[i])
                } else {
                    old(self).entities@[i]
                }),
            final(self).win == old(self).win,
            final(self).enemy_count == old(self).enemy_count,
            final(self).kill_count == old(self).kill_count,
            final(self).player == old(self).player,
            final(self).next_enemy_spawn_ms == old(self).next_enemy_spawn_ms,
            final(self).next_player_spawn_ms == old(self).next_player_spawn_ms,
    {
        let ghost s0 = self.entities@;
        let n = self.entities.len();
        let mut i: usize = 0;
        while i < n
            invariant
                0 <= i <= n,
                n == s0.len(),
                self.entities@.len() == s0.len(),
                crate::world::entities_wf(s0),
                forall|j: int|
                    0 <= j < i ==> self.entities@[j] == (
                    if (#[trigger] s0[j]).alive && s0[j].kind == crate::components::Kind::Enemy {
                        spec_flight_step(s0[j])
                    } else {
                        s0[j]
                    }),
                forall|j: int| i <= j < s0.len() ==> self.entities@[j] == s0[j],
                crate::world::entities_wf(self.entities@),
                self.win == old(self).win,
                self.enemy_count == old(self).enemy_count,
                self.kill_count == old(self).kill_count,
                self.player == old(self).player,
                self.next_enemy_spawn_ms == old(self).next_enemy_spawn_ms,
                self.next_player_spawn_ms == old(self).next_player_spawn_ms,
            decreases n - i,
        {
            let e = self.entities[i];
            if e.alive && matches!(e.kind, crate::components::Kind::Enemy) {
                let ne = flight_step(&e);
                self.entities[i] = ne;
            }
            i = i + 1;
        }
        proof {
            crate::world::lemma_count_pointwise(s0, self.entities@, crate::components::Kind::Enemy);
            crate::world::lemma_count_pointwise(s0, self.entities@, crate::components::Kind::Player);
        }
    }
}

/// The milli-cosine always lies within one milli-unit.
pub proof fn lemma_cos_range(x: int)
    requires
        0 <= x < crate::TAU_MILLI,
    ensures
        -1000 <= spec_cos_milli(x) <= 1000,
{
    let s = if x + 1571 >= crate::TAU_MILLI {
        x + 1571 - crate::TAU_MILLI
    } else {
        x + 1571
    };
    assert(0 <= s < crate::TAU_MILLI);
    lemma_sin_range(s);
}

/// The milli-sine always lies within one milli-unit.
pub proof fn lemma_sin_range(x: int)
    requires
        0 <= x < crate::TAU_MILLI,
    ensures
        -1000 <= spec_sin_milli(x) <= 1000,
{
    if x <= crate::PI_MILLI {
        lemma_sin_half_range(x);
    } else {
        lemma_sin_half_range(x - crate::PI_MILLI);
    }
}

/// The half-wave approximation stays within [0, 1000].
pub proof fn lemma_sin_half_range(x: int)
    requires
        0 <= x <= crate::PI_MILLI,
    ensures
        0 <= crate::trig::spec_sin_half(x) <= 1000,
{
    let u = x * (crate::PI_MILLI - x);
    assert(0 <= u && 4 * u <= crate::PI_MILLI * crate::PI_MILLI) by (nonlinear_arith)
        requires
            0 <= x <= crate::PI_MILLI,
            u == x * (crate::PI_MILLI - x),
            crate::PI_MILLI == 3142,
    ;
    let den = 5 * crate::PI_MILLI * crate::PI_MILLI - 4 * u;
    lemma_div_pos_is_pos(16_000 * u, den);
    assert(16_000 * u / den <= 1000) by (nonlinear_arith)
        requires
            den == 5 * crate::PI_MILLI * crate::PI_MILLI - 4 * u,
            0 <= u,
            4 * u <= crate::PI_MILLI * crate::PI_MILLI,
            crate::PI_MILLI == 3142,
    ;
}

/// The per-tick phase advance of a well-formed formation is at least
/// one milliradian and far under a full turn.
pub proof fn lemma_d_angle_range(f: Formation)
    requires
        f.inv(),
    ensures
        1 <= spec_d_angle(f) <= 132,
        0 <= spec_angle_cand(f) < crate::TAU_MILLI,
{
    let ms = spec_max_step(f.speed as int);
    lemma_div_is_ordered(20_000, f.speed as int, 60);
    lemma_div_is_ordered(f.speed as int, 1_000_000, 60);
    assert(333 <= ms <= 16_666);
    let den = f.spec_min_radius() * crate::PI_MILLI / 2000;
    assert(251_360_000 <= f.spec_min_radius() * crate::PI_MILLI <= 471_300_000)
        by (nonlinear_arith)
        requires
            80_000 <= f.spec_min_radius() <= 150_000,
            crate::PI_MILLI == 3142,
    ;
    lemma_div_is_ordered(251_360_000, f.spec_min_radius() * crate::PI_MILLI, 2000);
    lemma_div_is_ordered(f.spec_min_radius() * crate::PI_MILLI, 471_300_000, 2000);
    assert(125_680 <= den <= 235_650);
    lemma_div_is_ordered(den, ms * 1000, den);
    lemma_div_multiples_vanish(1, den);
    assert(ms * 1000 >= 333_000) by (nonlinear_arith)
        requires
            ms >= 333,
    ;
    lemma_div_is_ordered(ms * 1000, 16_666_000, den);
    lemma_div_is_ordered_by_denominator(16_666_000, 125_680, den);
    assert(spec_d_angle(f) <= 132);
    assert(spec_d_angle(f) >= 1);
    if f.spec_direction() == 1 {
        assert(f.spec_direction() * spec_d_angle(f) == spec_d_angle(f)) by (nonlinear_arith)
            requires
                f.spec_direction() == 1,
        ;
    } else {
        assert(f.spec_direction() * spec_d_angle(f) == -spec_d_angle(f)) by (nonlinear_arith)
            requires
                f.spec_direction() == -1,
        ;
    }
}

/// The orbit target of a well-formed formation stays within the world.
pub proof fn lemma_target_range(f: Formation)
    requires
        f.inv(),
    ensures
        -10_150_000 <= spec_target_x(f) <= 10_150_000,
        -10_150_000 <= spec_target_y(f) <= 10_150_000,
{
    lemma_d_angle_range(f);
    lemma_cos_range(spec_angle_cand(f));
    let c = spec_cos_milli(spec_angle_cand(f));
    lemma_scaled_range(f.radius_x as int, c);
    lemma_scaled_range(f.radius_y as int, c);
}

/// A semi-axis scaled by a milli-cosine stays within the semi-axis.
pub proof fn lemma_scaled_range(r: int, c: int)
    requires
        0 <= r <= 150_000,
        -1000 <= c <= 1000,
    ensures
        -150_000 <= spec_scaled(r, c) <= 150_000,
{
    if c >= 0 {
        assert(0 <= r * c <= 150_000_000) by (nonlinear_arith)
            requires
                0 <= r <= 150_000,
                0 <= c <= 1000,
        ;
        lemma_div_pos_is_pos(r * c, 1000);
        lemma_div_is_ordered(r * c, 150_000_000, 1000);
    } else {
        assert(0 <= r * (-c) <= 150_000_000) by (nonlinear_arith)
            requires
                0 <= r <= 150_000,
                -1000 <= c < 0,
        ;
        lemma_div_pos_is_pos(r * (-c), 1000);
        lemma_div_is_ordered(r * (-c), 150_000_000, 1000);
    }
}

/// One axis of the homing step stays between the current coordinate
/// and the target, and never moves away from the target.
pub proof fn lemma_axis_between(cur: int, dst: int, dist: int, ms: int)
    requires
        dist >= 0,
        ms >= 0,
    ensures
        cur <= dst ==> cur <= spec_axis_new(cur, dst, dist, ms) <= dst,
        dst <= cur ==> dst <= spec_axis_new(cur, dst, dist, ms) <= cur,
{
    let d = cur - dst;
    if d != 0 && dist != 0 {
        assert(spec_abs(d) * ms >= 0) by (nonlinear_arith)
            requires
                spec_abs(d) >= 0,
                ms >= 0,
        ;
        lemma_div_pos_is_pos(spec_abs(d) * ms, dist);
    }
}

/// While the target is not reached, one homing step strictly shrinks
/// the squared distance to it: either the step covers the whole
/// distance and the enemy lands on the target, or the larger axis
/// moves at least one milli-unit closer while neither axis overshoots.
pub proof fn lemma_homing_strict_decrease(cx: int, cy: int, tx: int, ty: int, ms: int)
    requires
        ms >= 2,
        spec_distance(cx, cy, tx, ty) > 0,
    ensures
        ({
            let d = spec_distance(cx, cy, tx, ty);
            let nx = spec_axis_new(cx, tx, d, ms);
            let ny = spec_axis_new(cy, ty, d, ms);
            (nx - tx) * (nx - tx) + (ny - ty) * (ny - ty) < (cx - tx) * (cx - tx) + (cy - ty) * (cy
                - ty)
        }),
{
    let dx = cx - tx;
    let dy = cy - ty;
    let sq = dx * dx + dy * dy;
    assert(sq >= 0) by (nonlinear_arith)
        requires
            sq == dx * dx + dy * dy,
    ;
    crate::trig::lemma_isqrt_bounds(sq as nat);
    let d = spec_distance(cx, cy, tx, ty);
    assert(d * d <= sq < (d + 1) * (d + 1));
    assert(sq > 0) by {
        if sq == 0 {
            crate::trig::lemma_isqrt_unique(0, 0);
        }
    }
    let nx = spec_axis_new(cx, tx, d, ms);
    let ny = spec_axis_new(cy, ty, d, ms);
    if d <= ms {
        lemma_axis_lands(cx, tx, d, ms);
        lemma_axis_lands(cy, ty, d, ms);
        assert(nx == tx && ny == ty);
        assert((nx - tx) * (nx - tx) + (ny - ty) * (ny - ty) == 0) by (nonlinear_arith)
            requires
                nx == tx,
                ny == ty,
        ;
    } else {
        let ax = spec_abs(dx);
        let ay = spec_abs(dy);
        lemma_axis_no_overshoot(cx, tx, d, ms);
        lemma_axis_no_overshoot(cy, ty, d, ms);
        assert(ax * ax == dx * dx && ay * ay == dy * dy) by (nonlinear_arith)
            requires
                ax == spec_abs(dx),
                ay == spec_abs(dy),
        ;
        lemma_abs_sq(nx - tx);
        lemma_abs_sq(ny - ty);
        if ax >= ay {
            assert(2 * (ax * ax) >= sq) by (nonlinear_arith)
                requires
                    ax >= ay >= 0,
                    ax * ax == dx * dx,
                    ay * ay == dy * dy,
                    sq == dx * dx + dy * dy,
            ;
            assert(2 * ax >= d) by (nonlinear_arith)
                requires
                    2 * (ax * ax) >= sq,
                    d * d <= sq,
                    d >= 0,
                    ax >= 0,
            ;
            lemma_axis_moves(cx, tx, d, ms);
            assert(spec_abs(nx - tx) <= ax - 1);
            assert(spec_abs(ny - ty) <= ay);
            assert((nx - tx) * (nx - tx) + (ny - ty) * (ny - ty) < sq) by (nonlinear_arith)
                requires
                    spec_abs(nx - tx) <= ax - 1,
                    spec_abs(ny - ty) <= ay,
                    ax >= 1,
                    ay >= 0,
                    ax * ax == dx * dx,
                    ay * ay == dy * dy,
                    sq == dx * dx + dy * dy,
                    spec_abs(nx - tx) >= 0,
                    spec_abs(ny - ty) >= 0,
                    spec_abs(nx - tx) * spec_abs(nx - tx) == (nx - tx) * (nx - tx),
                    spec_abs(ny - ty) * spec_abs(ny - ty) == (ny - ty) * (ny - ty),
            ;
        } else {
            assert(2 * (ay * ay) >= sq) by (nonlinear_arith)
                requires
                    ay >= ax >= 0,
                    ax * ax == dx * dx,
                    ay * ay == dy * dy,
                    sq == dx * dx + dy * dy,
            ;
            assert(2 * ay >= d) by (nonlinear_arith)
                requires
                    2 * (ay * ay) >= sq,
                    d * d <= sq,
                    d >= 0,
                    ay >= 0,
            ;
            lemma_axis_moves(cy, ty, d, ms);
            assert(spec_abs(ny - ty) <= ay - 1);
            assert(spec_abs(nx - tx) <= ax);
            assert((nx - tx) * (nx - tx) + (ny - ty) * (ny - ty) < sq) by (nonlinear_arith)
                requires
                    spec_abs(ny - ty) <= ay - 1,
                    spec_abs(nx - tx) <= ax,
                    ay >= 1,
                    ax >= 0,
                    ax * ax == dx * dx,
                    ay * ay == dy * dy,
                    sq == dx * dx + dy * dy,
                    spec_abs(ny - ty) >= 0,
                    spec_abs(nx - tx) >= 0,
                    spec_abs(ny - ty) * spec_abs(ny - ty) == (ny - ty) * (ny - ty),
                    spec_abs(nx - tx) * spec_abs(nx - tx) == (nx - tx) * (nx - tx),
            ;
        }
    }
}

/// The absolute value squares to the same as its argument.
proof fn lemma_abs_sq(v: int)
    ensures
        spec_abs(v) >= 0,
        spec_abs(v) * spec_abs(v) == v * v,
{
    if v < 0 {
        assert((-v) * (-v) == v * v) by (nonlinear_arith);
    }
}

/// When the tick step covers the whole distance, the axis lands
/// exactly on the target.
proof fn lemma_axis_lands(cur: int, dst: int, dist: int, ms: int)
    requires
        0 < dist <= ms,
    ensures
        spec_axis_new(cur, dst, dist, ms) == dst,
{
    let d = cur - dst;
    if d != 0 {
        let a = spec_abs(d);
        assert(a * ms >= a * dist) by (nonlinear_arith)
            requires
                ms >= dist,
                a >= 0,
        ;
        lemma_div_is_ordered(a * dist, a * ms, dist);
        lemma_div_multiples_vanish(a, dist);
        assert(a * dist == dist * a) by (nonlinear_arith);
        assert(a * dist / dist == a);
        assert(spec_axis_step(d, dist, ms) >= a);
    }
}

/// When the distance exceeds the tick step, no axis overshoots its
/// target.
proof fn lemma_axis_no_overshoot(cur: int, dst: int, dist: int, ms: int)
    requires
        0 <= ms < dist,
    ensures
        spec_abs(spec_axis_new(cur, dst, dist, ms) - dst) <= spec_abs(cur - dst),
        spec_abs(spec_axis_new(cur, dst, dist, ms) - dst) == spec_abs(cur - dst) - spec_axis_step(
            cur - dst,
            dist,
            ms,
        ),
{
    let d = cur - dst;
    let a = spec_abs(d);
    if d != 0 {
        let s = spec_axis_step(d, dist, ms);
        assert(a * ms >= 0) by (nonlinear_arith)
            requires
                a >= 0,
                ms >= 0,
        ;
        lemma_div_pos_is_pos(a * ms, dist);
        assert(a * ms <= a * dist) by (nonlinear_arith)
            requires
                ms <= dist,
                a >= 0,
        ;
        lemma_div_is_ordered(a * ms, a * dist, dist);
        lemma_div_multiples_vanish(a, dist);
        assert(a * dist == dist * a) by (nonlinear_arith);
        assert(s <= a);
    }
}

/// When the distance exceeds the tick step but the axis carries at
/// least half the distance, the axis moves at least one milli-unit.
proof fn lemma_axis_moves(cur: int, dst: int, dist: int, ms: int)
    requires
        2 <= ms < dist,
        2 * spec_abs(cur - dst) >= dist,
    ensures
        spec_abs(spec_axis_new(cur, dst, dist, ms) - dst) <= spec_abs(cur - dst) - 1,
{
    let d = cur - dst;
    let a = spec_abs(d);
    assert(a >= 1);
    let s = spec_axis_step(d, dist, ms);
    assert(a * ms >= dist) by (nonlinear_arith)
        requires
            2 * a >= dist,
            ms >= 2,
            a >= 0,
            dist >= 0,
    ;
    lemma_div_is_ordered(dist, a * ms, dist);
    lemma_div_multiples_vanish(1, dist);
    assert(dist * 1 == dist);
    assert(s >= 1);
    lemma_axis_no_overshoot(cur, dst, dist, ms);
}

/// Homing convergence: while an enemy is farther from its tick target
/// than the lock-on threshold, the phase angle stays frozen (so the
/// target stands still from tick to tick) and each tick strictly
/// shrinks the squared distance to it; once within the threshold, the
/// phase is committed and advances by the per-tick angle in the orbit
/// direction.
pub proof fn lemma_homing_convergence(e: Entity)
    requires
        e.inv(),
        e.kind is Enemy,
        spec_distance(
            e.x as int,
            e.y as int,
            spec_target_x(e.formation->0),
            spec_target_y(e.formation->0),
        ) > 0,
    ensures
        ({
            let f = e.formation->0;
            let tx = spec_target_x(f);
            let ty = spec_target_y(f);
            let d = spec_distance(e.x as int, e.y as int, tx, ty);
            let r = spec_flight_step(e);
            &&& (d >= spec_lock_threshold(f) ==> r.formation == e.formation)
            &&& (d < spec_lock_threshold(f) ==> r.formation->0.angle == spec_angle_cand(f)
                && 1 <= spec_d_angle(f))
            &&& ((r.x - tx) * (r.x - tx) + (r.y - ty) * (r.y - ty) < (e.x - tx) * (e.x - tx) + (e.y
                - ty) * (e.y - ty))
        }),
{
    let f = e.formation->0;
    let tx = spec_target_x(f);
    let ty = spec_target_y(f);
    let d = spec_distance(e.x as int, e.y as int, tx, ty);
    let ms = spec_max_step(f.speed as int);
    lemma_div_is_ordered(20_000, f.speed as int, 60);
    lemma_div_is_ordered(f.speed as int, 1_000_000, 60);
    assert(333 <= ms <= 16_666);
    lemma_target_range(f);
    lemma_d_angle_range(f);
    lemma_homing_strict_decrease(e.x as int, e.y as int, tx, ty, ms);
    lemma_axis_between(e.x as int, tx, d, ms);
    lemma_axis_between(e.y as int, ty, d, ms);
    let nx = spec_axis_new(e.x as int, tx, d, ms);
    let ny = spec_axis_new(e.y as int, ty, d, ms);
    assert(-11_000_000 <= nx <= 11_000_000 && -11_000_000 <= ny <= 11_000_000);
    let r = spec_flight_step(e);
    assert(r.x == nx && r.y == ny);
}

} // verus!
