//! The library's laws: properties that tie the systems together,
//! stated over the same spec functions the systems' contracts use.

use vstd::prelude::*;

use crate::components::{Entity, Kind, PlayerState};
use crate::motion::{spec_integrate, spec_movable_tick, spec_out_of_bounds};
use crate::weapons::{
    collision_frame, laser_death_counted, markers_at_killed, pairs_resolved, spec_overlap,
};
use crate::world::{
    count_alive, lemma_count_drop, lemma_count_drop_strict, lemma_count_tail_other, World,
};

verus! {

/// Population bound: in every well-formed world the enemy counter
/// equals the number of live enemy records and never exceeds the cap.
/// Every system keeps the world well-formed, so this holds after any
/// sequence of ticks.
pub proof fn lemma_population_bound(w: World)
    requires
        w.wf(),
    ensures
        w.enemy_count.0 == count_alive(w.entities@, Kind::Enemy),
        w.enemy_count.0 <= crate::ENEMY_MAX,
{
}

/// Respawn gating: while the player is off after a death at time t, the
/// spawn guard stays false through the whole respawn delay and becomes
/// true at the first instant past it. Together with the player spawn
/// system's contract (it creates exactly one player record if and only
/// if the guard holds) this pins the respawn times down.
pub proof fn lemma_respawn_gating(s: PlayerState, t: u64, now_ms: u64)
    requires
        !s.on,
        s.last_shot_ms == Some(t),
    ensures
        now_ms <= t + crate::PLAYER_RESPAWN_DELAY_MS ==> !s.spec_respawn_due(now_ms),
        now_ms > t + crate::PLAYER_RESPAWN_DELAY_MS ==> s.spec_respawn_due(now_ms),
{
}

/// Collision exclusivity: when exactly one live enemy exists and some
/// live player laser overlaps some live enemy, one collision pass
/// destroys exactly one enemy and exactly one laser (the one that hit
/// it), counts exactly one kill, and appends exactly one explosion
/// marker - never two. The requires restate what the collision pass
/// ensures between its pre- and post-state.
#[verifier::rlimit(100)]
pub proof fn lemma_collision_exclusivity(pre: World, post: World)
    requires
        pre.wf(),
        post.wf(),
        post.entities@.len() >= pre.entities@.len(),
        collision_frame(pre.entities@, post.entities@.take(pre.entities@.len() as int)),
        pairs_resolved(
            pre.entities@,
            post.entities@.take(pre.entities@.len() as int),
            pre.entities@.len() as int,
        ),
        laser_death_counted(
            pre.entities@,
            post.entities@.take(pre.entities@.len() as int),
            pre.enemy_count.0 - post.enemy_count.0,
        ),
        markers_at_killed(pre.entities@, post.entities@),
        post.enemy_count.0 <= pre.enemy_count.0,
        post.entities@.len() - pre.entities@.len() == pre.enemy_count.0 - post.enemy_count.0,
        post.kill_count.0 == (
        if pre.kill_count.0 + (pre.enemy_count.0 - post.enemy_count.0) <= u32::MAX {
            (pre.kill_count.0 + (pre.enemy_count.0 - post.enemy_count.0)) as u32
        } else {
            u32::MAX
        }),
        pre.kill_count.0 < u32::MAX,
        count_alive(pre.entities@, Kind::Enemy) == 1,
        exists|j: int, i: int|
            {
                &&& 0 <= j < pre.entities@.len()
                &&& 0 <= i < pre.entities@.len()
                &&& (#[trigger] pre.entities@[j]).kind == Kind::PlayerLaser
                &&& pre.entities@[j].alive
                &&& (#[trigger] pre.entities@[i]).kind == Kind::Enemy
                &&& pre.entities@[i].alive
                &&& spec_overlap(pre.entities@[j], pre.entities@[i])
            },
    ensures
        post.enemy_count.0 == pre.enemy_count.0 - 1,
        post.kill_count.0 == pre.kill_count.0 + 1,
        post.entities@.len() == pre.entities@.len() + 1,
{
    let s0 = pre.entities@;
    let n = s0.len() as int;
    let postt = post.entities@.take(n);
    assert forall|k: int| n <= k < post.entities@.len() implies (#[trigger] post.entities@[k]).kind
        != Kind::Enemy by {
        reveal(markers_at_killed);
    }
    let (j, i) = choose|j: int, i: int|
        {
            &&& 0 <= j < s0.len()
            &&& 0 <= i < s0.len()
            &&& (#[trigger] s0[j]).kind == Kind::PlayerLaser
            &&& s0[j].alive
            &&& (#[trigger] s0[i]).kind == Kind::Enemy
            &&& s0[i].alive
            &&& spec_overlap(s0[j], s0[i])
        };
    assert(!postt[j].alive || !postt[i].alive);
    assert(forall|m: int| 0 <= m < n ==> ((#[trigger] postt[m]).alive ==> s0[m].alive));
    assert(forall|m: int| 0 <= m < n ==> (#[trigger] postt[m]).kind == s0[m].kind);
    lemma_count_tail_other(post.entities@, Kind::Enemy, n);
    assert(count_alive(post.entities@, Kind::Enemy) == count_alive(postt, Kind::Enemy));
    let kills = pre.enemy_count.0 - post.enemy_count.0;
    if !postt[i].alive {
        lemma_count_drop_strict(s0, postt, Kind::Enemy, i);
        assert(count_alive(postt, Kind::Enemy) < 1);
        assert(post.enemy_count.0 == 0);
    } else {
        assert(!postt[j].alive);
        assert(kills >= 1);
    }
    lemma_count_drop(s0, postt, Kind::Enemy);
    assert(post.enemy_count.0 <= pre.enemy_count.0);
    assert(kills == 1);
}

/// Despawn boundary: a live auto-despawn projectile survives the
/// integrator tick exactly when its advanced position stays inside the
/// viewport extended by the margin.
pub proof fn lemma_despawn_boundary(e: Entity, win_h: int)
    requires
        e.inv(),
        e.alive,
        e.movable,
        e.auto_despawn,
    ensures
        spec_movable_tick(e, win_h).alive == !spec_out_of_bounds(
            spec_integrate(e).x as int,
            spec_integrate(e).y as int,
            win_h,
        ),
{
}

} // verus!
