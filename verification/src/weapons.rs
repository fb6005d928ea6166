//! The weapons and collision engine: player and enemy fire, the
//! projectile/enemy collision pass and the explosion lifecycle.

use vstd::prelude::*;

use crate::components::{Entity, Kind};
use crate::geom::spec_aabb_overlap;
use crate::motion::{clamp_pos, spec_clamp_pos};
use crate::rng::rand_chance;
use crate::world::{
    count_alive, entities_wf, lemma_count_at_least_one, lemma_count_push, lemma_count_take_all,
    lemma_count_take_step, lemma_count_update, lemma_count_zero, World,
};

verus! {

/// Whether the collision boxes of two entities overlap: centers from
/// their transforms, half-extents from their sprite sizes and scales.
#[verifier::opaque]
pub open spec fn spec_overlap(a: Entity, b: Entity) -> bool {
    spec_aabb_overlap(
        a.x as int,
        a.y as int,
        a.spec_half_x(),
        a.spec_half_y(),
        b.x as int,
        b.y as int,
        b.spec_half_x(),
        b.spec_half_y(),
    )
}

/// A record destroyed in place: only its liveness changes.
pub open spec fn spec_killed(e: Entity) -> Entity {
    Entity { alive: false, ..e }
}

/// Tests overlap of the collision boxes of two entities.
pub fn overlap(a: &Entity, b: &Entity) -> (r: bool)
    requires
        a.inv(),
        b.inv(),
    ensures
        r == spec_overlap(*a, *b),
{
    proof {
        reveal(spec_overlap);
    }
    let ahx = crate::geom::half_extent(a.w_milli, a.scale_milli);
    let ahy = crate::geom::half_extent(a.h_milli, a.scale_milli);
    let bhx = crate::geom::half_extent(b.w_milli, b.scale_milli);
    let bhy = crate::geom::half_extent(b.h_milli, b.scale_milli);
    crate::geom::aabb_overlap(a.x, a.y, ahx, ahy, b.x, b.y, bhx, bhy)
}

/// A freshly fired player laser: live, rising at full speed, marked
/// for off-screen despawn, carrying the laser sprite size at the
/// uniform scale.
pub open spec fn laser_record_ok(e: Entity) -> bool {
    &&& e.kind == Kind::PlayerLaser
    &&& e.alive
    &&& e.vx == 0
    &&& e.vy == 1
    &&& e.movable
    &&& e.auto_despawn
    &&& e.w_milli == crate::PLAYER_LASER_W_MILLI
    &&& e.h_milli == crate::PLAYER_LASER_H_MILLI
    &&& e.scale_milli == crate::SPRITE_SCALE_MILLI
}

impl World {
    /// Fires the player's twin lasers: if the fire key is down and a
    /// player ship is live, two rising lasers appear beside it.
    pub fn player_fire_system(&mut self, fire: bool)
        requires
            old(self).wf(),
        ensures
            final(self).wf(),
            !fire || count_alive(old(self).entities@, Kind::Player) == 0 ==> *final(self) == *old(self),
            fire && count_alive(old(self).entities@, Kind::Player) > 0 ==> {
                &&& final(self).entities@.len() == old(self).entities@.len() + 2
                &&& (forall|j: int|
                    0 <= j < old(self).entities@.len() ==> final(self).entities@[j] == old(self).entities@[j])
                &&& (exists|pi: int|
                    {
                        &&& 0 <= pi < old(self).entities@.len()
                        &&& (#[trigger] old(self).entities@[pi]).alive
                        &&& old(self).entities@[pi].kind == Kind::Player
                        &&& final(self).entities@[old(self).entities@.len() as int].x
                            == spec_clamp_pos(old(self).entities@[pi].x - 11_000)
                        &&& final(self).entities@[old(self).entities@.len() as int].y
                            == spec_clamp_pos(old(self).entities@[pi].y + 42_250)
                        &&& final(self).entities@.last().x == spec_clamp_pos(
                            old(self).entities@[pi].x - 1_000,
                        )
                        &&& final(self).entities@.last().y == spec_clamp_pos(
                            old(self).entities@[pi].y + 42_250,
                        )
                    })
                &&& laser_record_ok(final(self).entities@[old(self).entities@.len() as int])
                &&& laser_record_ok(final(self).entities@.last())
            },
            final(self).win == old(self).win,
            final(self).enemy_count == old(self).enemy_count,
            final(self).kill_count == old(self).kill_count,
            final(self).player == old(self).player,
            final(self).next_enemy_spawn_ms == old(self).next_enemy_spawn_ms,
            final(self).next_player_spawn_ms == old(self).next_player_spawn_ms,
    {
        let n = self.entities.len();
        let mut pi: usize = 0;
        let mut found = false;
        while pi < n && !found
            invariant
                0 <= pi <= n,
                n == self.entities@.len(),
                entities_wf(self.entities@),
                !found ==> forall|j: int|
                    0 <= j < pi ==> !((#[trigger] self.entities@[j]).alive
                        && self.entities@[j].kind == Kind::Player),
                found ==> pi < n && self.entities@[pi as int].alive && self.entities@[pi as int].kind
                    == Kind::Player,
            decreases n - pi, (if found { 0int } else { 1int }),
        {
            let e = &self.entities[pi];
            if e.alive && matches!(e.kind, Kind::Player) {
                found = true;
            } else {
                pi = pi + 1;
            }
        }
        if !fire || !found {
            proof {
                if !found {
                    lemma_count_zero(self.entities@, Kind::Player);
                }
            }
            return ;
        }
        let px = self.entities[pi].x;
        let py = self.entities[pi].y;
        let a = Entity::new_player_laser(clamp_pos(px - 11_000), clamp_pos(py + 42_250));
        let b = Entity::new_player_laser(clamp_pos(px - 1_000), clamp_pos(py + 42_250));
        proof {
            lemma_count_push(self.entities@, Kind::Enemy, a);
            lemma_count_push(self.entities@, Kind::Player, a);
            lemma_count_push(self.entities@.push(a), Kind::Enemy, b);
            lemma_count_push(self.entities@.push(a), Kind::Player, b);
            lemma_count_at_least_one(self.entities@, Kind::Player, pi as int);
        }
        self.entities.push(a);
        self.entities.push(b);
    }

    /// Every live enemy may fire one falling laser this tick, each by
    /// an independent chance draw.
    pub fn enemy_fire_system(&mut self)
        requires
            old(self).wf(),
        ensures
            final(self).wf(),
            final(self).entities@.len() >= old(self).entities@.len(),
            forall|j: int|
                0 <= j < old(self).entities@.len() ==> final(self).entities@[j] == old(self).entities@[j],
            forall|k: int|
                old(self).entities@.len() <= k < final(self).entities@.len() ==> {
                    &&& (#[trigger] final(self).entities@[k]).kind == Kind::EnemyLaser
                    &&& final(self).entities@[k].alive
                    &&& final(self).entities@[k].vy == -1
                    &&& final(self).entities@[k].auto_despawn
                    &&& (exists|i: int|
                        {
                            &&& 0 <= i < old(self).entities@.len()
                            &&& (#[trigger] old(self).entities@[i]).alive
                            &&& old(self).entities@[i].kind == Kind::Enemy
                            &&& final(self).entities@[k].x == old(self).entities@[i].x
                            &&& final(self).entities@[k].y == spec_clamp_pos(
                                old(self).entities@[i].y - 15_000,
                            )
                        })
                },
            final(self).entities@.len() - old(self).entities@.len() <= count_alive(
                old(self).entities@,
                Kind::Enemy,
            ),
            final(self).win == old(self).win,
            final(self).enemy_count == old(self).enemy_count,
            final(self).kill_count == old(self).kill_count,
            final(self).player == old(self).player,
            final(self).next_enemy_spawn_ms == old(self).next_enemy_spawn_ms,
            final(self).next_player_spawn_ms == old(self).next_player_spawn_ms,
    {
        let ghost s0 = self.entities@;
        let n = self.entities.len();
        let mut i: usize = 0;
        proof {
            assert(s0.take(0) =~= Seq::<Entity>::empty());
        }
        while i < n
            invariant
                0 <= i <= n,
                n == s0.len(),
                self.entities@.len() >= n,
                forall|j: int| 0 <= j < n ==> self.entities@[j] == s0[j],
                forall|k: int|
                    n <= k < self.entities@.len() ==> {
                        &&& (#[trigger] self.entities@[k]).kind == Kind::EnemyLaser
                        &&& self.entities@[k].alive
                        &&& self.entities@[k].vy == -1
                        &&& self.entities@[k].auto_despawn
                        &&& (exists|j: int|
                            {
                                &&& 0 <= j < n
                                &&& (#[trigger] s0[j]).alive
                                &&& s0[j].kind == Kind::Enemy
                                &&& self.entities@[k].x == s0[j].x
                                &&& self.entities@[k].y == spec_clamp_pos(s0[j].y - 15_000)
                            })
                    },
                self.entities@.len() - n <= count_alive(s0.take(i as int), Kind::Enemy),
                entities_wf(s0),
                entities_wf(self.entities@),
                self.enemy_count.0 == count_alive(self.entities@, Kind::Enemy),
                count_alive(self.entities@, Kind::Enemy) == count_alive(s0, Kind::Enemy),
                count_alive(self.entities@, Kind::Player) == count_alive(s0, Kind::Player),
                self.win == old(self).win,
                self.win.inv(),
                self.enemy_count == old(self).enemy_count,
                self.kill_count == old(self).kill_count,
                self.player == old(self).player,
                self.next_enemy_spawn_ms == old(self).next_enemy_spawn_ms,
                self.next_player_spawn_ms == old(self).next_player_spawn_ms,
            decreases n - i,
        {
            proof {
                lemma_count_take_step(s0, Kind::Enemy, i as int);
            }
            let e = self.entities[i];
            if e.alive && matches!(e.kind, Kind::Enemy) {
                if rand_chance(crate::ENEMY_FIRE_NUM, crate::ENEMY_FIRE_DEN) {
                    let l = Entity::new_enemy_laser(e.x, clamp_pos(e.y - 15_000));
                    proof {
                        lemma_count_push(self.entities@, Kind::Enemy, l);
                        lemma_count_push(self.entities@, Kind::Player, l);
                    }
                    self.entities.push(l);
                }
            }
            i = i + 1;
        }
        proof {
            lemma_count_take_all(s0, Kind::Enemy);
        }
    }
}

/// The positions of the live explosion markers of a store snapshot,
/// in store order.
pub open spec fn marker_positions(s: Seq<Entity>) -> Seq<(i64, i64)>
    decreases s.len(),
{
    if s.len() == 0 {
        Seq::empty()
    } else {
        let rest = marker_positions(s.drop_last());
        if s.last().alive && s.last().kind == Kind::ExplosionMarker {
            rest.push((s.last().x, s.last().y))
        } else {
            rest
        }
    }
}

/// Extending a prefix by one record appends that record's position to
/// the marker positions exactly when it is a live marker.
pub proof fn lemma_marker_positions_take_step(s: Seq<Entity>, i: int)
    requires
        0 <= i < s.len(),
    ensures
        marker_positions(s.take(i + 1)) == (
        if s[i].alive && s[i].kind == Kind::ExplosionMarker {
            marker_positions(s.take(i)).push((s[i].x, s[i].y))
        } else {
            marker_positions(s.take(i))
        }),
{
    assert(s.take(i + 1).drop_last() =~= s.take(i));
    assert(s.take(i + 1).last() == s[i]);
}

/// The whole store is its own full prefix.
pub proof fn lemma_marker_positions_take_all(s: Seq<Entity>)
    ensures
        marker_positions(s.take(s.len() as int)) == marker_positions(s),
{
    assert(s.take(s.len() as int) =~= s);
}

/// One tick of the explosion clock on one record: the timer accrues the
/// tick; each time it fills, the animation advances one frame, and the
/// explosion dies once the last frame is reached.
pub open spec fn spec_explosion_tick(e: Entity, delta_ms: int) -> Entity {
    if !(e.alive && e.kind == Kind::Explosion) {
        e
    } else {
        let t = e.timer_ms + delta_ms;
        if t >= crate::EXPLOSION_FRAME_MS {
            if e.frame + 1 >= crate::EXPLOSION_LEN {
                Entity { alive: false, timer_ms: 0, frame: crate::EXPLOSION_LEN as u64, ..e }
            } else {
                Entity { timer_ms: 0, frame: (e.frame + 1) as u64, ..e }
            }
        } else {
            Entity { timer_ms: t as u64, ..e }
        }
    }
}

impl World {
    /// Materializes every pending explosion marker: an animating
    /// explosion appears at the stored position and the marker dies.
    pub fn explosion_to_spawn_system(&mut self)
        requires
            old(self).wf(),
        ensures
            final(self).wf(),
            final(self).entities@.len() == old(self).entities@.len() + marker_positions(
                old(self).entities@,
            ).len(),
            forall|j: int|
                0 <= j < old(self).entities@.len() ==> final(self).entities@[j] == (
                if (#[trigger] old(self).entities@[j]).alive && old(self).entities@[j].kind
                    == Kind::ExplosionMarker {
                    spec_killed(old(self).entities@[j])
                } else {
                    old(self).entities@[j]
                }),
            forall|k: int|
                old(self).entities@.len() <= k < final(self).entities@.len() ==> {
                    &&& (#[trigger] final(self).entities@[k]).kind == Kind::Explosion
                    &&& final(self).entities@[k].alive
                    &&& final(self).entities@[k].timer_ms == 0
                    &&& final(self).entities@[k].frame == 0
                    &&& final(self).entities@[k].x == marker_positions(old(self).entities@)[k - old(
                        self,
                    ).entities@.len()].0
                    &&& final(self).entities@[k].y == marker_positions(old(self).entities@)[k - old(
                        self,
                    ).entities@.len()].1
                },
            final(self).win == old(self).win,
            final(self).enemy_count == old(self).enemy_count,
            final(self).kill_count == old(self).kill_count,
            final(self).player == old(self).player,
            final(self).next_enemy_spawn_ms == old(self).next_enemy_spawn_ms,
            final(self).next_player_spawn_ms == old(self).next_player_spawn_ms,
    {
        let ghost s0 = self.entities@;
        let n = self.entities.len();
        let mut i: usize = 0;
        proof {
            assert(s0.take(0) =~= Seq::<Entity>::empty());
        }
        while i < n
            invariant
                0 <= i <= n,
                n == s0.len(),
                self.entities@.len() == n + marker_positions(s0.take(i as int)).len(),
                forall|j: int|
                    0 <= j < i ==> self.entities@[j] == (
                    if (#[trigger] s0[j]).alive && s0[j].kind == Kind::ExplosionMarker {
                        spec_killed(s0[j])
                    } else {
                        s0[j]
                    }),
                forall|j: int| i <= j < n ==> self.entities@[j] == s0[j],
                forall|k: int|
                    n <= k < self.entities@.len() ==> {
                        &&& (#[trigger] self.entities@[k]).kind == Kind::Explosion
                        &&& self.entities@[k].alive
                        &&& self.entities@[k].timer_ms == 0
                        &&& self.entities@[k].frame == 0
                        &&& self.entities@[k].x == marker_positions(s0.take(i as int))[k - n].0
                        &&& self.entities@[k].y == marker_positions(s0.take(i as int))[k - n].1
                    },
                entities_wf(s0),
                entities_wf(self.entities@),
                count_alive(self.entities@, Kind::Enemy) == count_alive(s0, Kind::Enemy),
                count_alive(self.entities@, Kind::Player) == count_alive(s0, Kind::Player),
                self.win == old(self).win,
                self.enemy_count == old(self).enemy_count,
                self.kill_count == old(self).kill_count,
                self.player == old(self).player,
                self.next_enemy_spawn_ms == old(self).next_enemy_spawn_ms,
                self.next_player_spawn_ms == old(self).next_player_spawn_ms,
            decreases n - i,
        {
            proof {
                lemma_marker_positions_take_step(s0, i as int);
            }
            let e = self.entities[i];
            if e.alive && matches!(e.kind, Kind::ExplosionMarker) {
                let ex = Entity::new_explosion(e.x, e.y);
                let mut d = e;
                d.alive = false;
                proof {
                    lemma_count_update(self.entities@, Kind::Enemy, i as int, d);
                    lemma_count_update(self.entities@, Kind::Player, i as int, d);
                }
                self.entities[i] = d;
                proof {
                    lemma_count_push(self.entities@, Kind::Enemy, ex);
                    lemma_count_push(self.entities@, Kind::Player, ex);
                }
                self.entities.push(ex);
            }
            i = i + 1;
        }
        proof {
            lemma_marker_positions_take_all(s0);
        }
    }

    /// One tick of every explosion's animation clock.
    pub fn explosion_animation_system(&mut self, delta_ms: u64)
        requires
            old(self).wf(),
            delta_ms <= 1000,
        ensures
            final(self).wf(),
            final(self).entities@.len() == old(self).entities@.len(),
            forall|i: int|
                0 <= i < old(self).entities@.len() ==> final(self).entities@[i]
                    == spec_explosion_tick(#[trigger] old(self).entities@[i], delta_ms as int),
            final(self).win == old(self).win,
            final(self).enemy_count == old(self).enemy_count,
            final(self).kill_count == old(self).kill_count,
            final(self).player == old(self).player,
            final(self).next_enemy_spawn_ms == old(self).next_enemy_spawn_ms,
            final(self).next_player_spawn_ms == old(self).next_player_spawn_ms,
    {
        let ghost s0 = self.entities@;
        let n = self.entities.len();
        let mut i: usize = 0;
        while i < n
            invariant
                0 <= i <= n,
                n == s0.len(),
                self.entities@.len() == s0.len(),
                forall|j: int|
                    0 <= j < i ==> self.entities@[j] == spec_explosion_tick(
                        #[trigger] s0[j],
                        delta_ms as int,
                    ),
                forall|j: int| i <= j < n ==> self.entities@[j] == s0[j],
                entities_wf(s0),
                entities_wf(self.entities@),
                delta_ms <= 1000,
                count_alive(self.entities@, Kind::Enemy) == count_alive(s0, Kind::Enemy),
                count_alive(self.entities@, Kind::Player) == count_alive(s0, Kind::Player),
                self.win == old(self).win,
                self.enemy_count == old(self).enemy_count,
                self.kill_count == old(self).kill_count,
                self.player == old(self).player,
                self.next_enemy_spawn_ms == old(self).next_enemy_spawn_ms,
                self.next_player_spawn_ms == old(self).next_player_spawn_ms,
            decreases n - i,
        {
            let e = self.entities[i];
            if e.alive && matches!(e.kind, Kind::Explosion) {
                let t = e.timer_ms + delta_ms;
                let mut d = e;
                if t >= crate::EXPLOSION_FRAME_MS {
                    d.timer_ms = 0;
                    if e.frame + 1 >= crate::EXPLOSION_LEN {
                        d.frame = crate::EXPLOSION_LEN;
                        d.alive = false;
                    } else {
                        d.frame = e.frame + 1;
                    }
                } else {
                    d.timer_ms = t;
                }
                proof {
                    lemma_count_update(self.entities@, Kind::Enemy, i as int, d);
                    lemma_count_update(self.entities@, Kind::Player, i as int, d);
                }
                self.entities[i] = d;
            }
            i = i + 1;
        }
    }
}

/// The record at slot i was overlapped by some live player laser of
/// the pre-pass store.
#[verifier::opaque]
pub open spec fn hit_by_live_laser(s0: Seq<Entity>, i: int) -> bool {
    exists|j: int|
        {
            &&& 0 <= j < s0.len()
            &&& (#[trigger] s0[j]).kind == Kind::PlayerLaser
            &&& s0[j].alive
            &&& spec_overlap(s0[j], s0[i])
        }
}

/// What one collision pass may do to the records that already existed:
/// each is either untouched or killed in place; only live enemies and
/// live player lasers die; and a dead enemy was hit by a live laser.
pub open spec fn collision_frame(s0: Seq<Entity>, cur: Seq<Entity>) -> bool {
    &&& cur.len() == s0.len()
    &&& forall|i: int|
        0 <= i < s0.len() ==> (#[trigger] cur[i]) == s0[i] || cur[i] == spec_killed(s0[i])
    &&& forall|i: int|
        0 <= i < s0.len() && (#[trigger] cur[i]) != s0[i] ==> s0[i].alive && (s0[i].kind
            == Kind::Enemy || s0[i].kind == Kind::PlayerLaser)
    &&& forall|i: int|
        0 <= i < s0.len() && (#[trigger] s0[i]).kind == Kind::Enemy && s0[i].alive
            && !cur[i].alive ==> hit_by_live_laser(s0, i)
}

/// Every overlapping pair of a live player laser among the first nl
/// lasers and a live enemy has been resolved: one of the two is dead.
pub open spec fn pairs_resolved(s0: Seq<Entity>, cur: Seq<Entity>, nl: int) -> bool {
    forall|j: int, i: int|
        #![trigger s0[j], s0[i]]
        {
            &&& 0 <= j < nl
            &&& 0 <= i < s0.len()
            &&& s0[j].kind == Kind::PlayerLaser
            &&& s0[j].alive
            &&& s0[i].kind == Kind::Enemy
            &&& s0[i].alive
            &&& spec_overlap(s0[j], s0[i])
        } ==> !cur[j].alive || !cur[i].alive
}

/// As pairs_resolved, for the single laser li against the first ne
/// enemies.
pub open spec fn laser_pairs(s0: Seq<Entity>, cur: Seq<Entity>, li: int, ne: int) -> bool {
    forall|i: int|
        #![trigger s0[i]]
        {
            &&& 0 <= i < ne
            &&& s0[i].kind == Kind::Enemy
            &&& s0[i].alive
            &&& spec_overlap(s0[li], s0[i])
        } ==> !cur[li].alive || !cur[i].alive
}

/// Each recorded hit is witnessed by a store slot: the slot held a
/// live enemy before the pass, the enemy is dead in the current store,
/// and the hit carries its position.
pub open spec fn hits_witnessed(
    s0: Seq<Entity>,
    cur: Seq<Entity>,
    hits: Seq<(i64, i64)>,
    wit: Seq<int>,
) -> bool {
    &&& wit.len() == hits.len()
    &&& forall|m: int|
        #![trigger wit[m]]
        #![trigger hits[m]]
        0 <= m < hits.len() ==> {
            &&& 0 <= wit[m] < s0.len()
            &&& s0[wit[m]].kind == Kind::Enemy
            &&& s0[wit[m]].alive
            &&& !cur[wit[m]].alive
            &&& hits[m].0 == s0[wit[m]].x
            &&& hits[m].1 == s0[wit[m]].y
        }
}

/// A one-to-one pairing of one collision pass's kills: the m-th
/// destroyed player laser overlapped the m-th destroyed enemy, no
/// laser and no enemy appears twice, and every laser and every enemy
/// the pass destroyed appears in the pairing. So exactly as many
/// player lasers as enemies die, each with the enemy it hit.
#[verifier::opaque]
pub open spec fn kill_pairing(
    s0: Seq<Entity>,
    cur: Seq<Entity>,
    lw: Seq<int>,
    ew: Seq<int>,
) -> bool {
    &&& lw.len() == ew.len()
    &&& forall|m: int|
        #![trigger lw[m]]
        #![trigger ew[m]]
        0 <= m < lw.len() ==> {
            &&& 0 <= lw[m] < s0.len()
            &&& 0 <= ew[m] < s0.len()
            &&& s0[lw[m]].kind == Kind::PlayerLaser
            &&& s0[lw[m]].alive
            &&& !cur[lw[m]].alive
            &&& s0[ew[m]].kind == Kind::Enemy
            &&& s0[ew[m]].alive
            &&& !cur[ew[m]].alive
            &&& spec_overlap(s0[lw[m]], s0[ew[m]])
        }
    &&& forall|m1: int, m2: int|
        #![trigger lw[m1], lw[m2]]
        0 <= m1 < m2 < lw.len() ==> lw[m1] != lw[m2] && ew[m1] != ew[m2]
    &&& forall|j: int|
        #![trigger s0[j], cur[j]]
        0 <= j < s0.len() && s0[j].kind == Kind::PlayerLaser && s0[j].alive && !cur[j].alive
            ==> (exists|m: int| #![trigger lw[m]] 0 <= m < lw.len() && lw[m] == j)
    &&& forall|i: int|
        #![trigger s0[i], cur[i]]
        0 <= i < s0.len() && s0[i].kind == Kind::Enemy && s0[i].alive && !cur[i].alive ==> (
        exists|m: int| #![trigger ew[m]] 0 <= m < ew.len() && ew[m] == i)
}

/// An untouched store has the empty pairing.
proof fn lemma_pairing_init(s0: Seq<Entity>)
    ensures
        kill_pairing(s0, s0, Seq::<int>::empty(), Seq::<int>::empty()),
{
    reveal(kill_pairing);
}

/// Killing the live laser at li together with the live enemy at ei
/// extends the pairing by that pair.
#[verifier::rlimit(100)]
proof fn lemma_pairing_kill(
    s0: Seq<Entity>,
    cur: Seq<Entity>,
    lw: Seq<int>,
    ew: Seq<int>,
    li: int,
    ei: int,
)
    requires
        kill_pairing(s0, cur, lw, ew),
        cur.len() == s0.len(),
        0 <= li < s0.len(),
        0 <= ei < s0.len(),
        cur[li] == s0[li],
        s0[li].kind == Kind::PlayerLaser,
        s0[li].alive,
        cur[ei] == s0[ei],
        s0[ei].kind == Kind::Enemy,
        s0[ei].alive,
        spec_overlap(s0[li], s0[ei]),
    ensures
        kill_pairing(
            s0,
            cur.update(ei, spec_killed(s0[ei])).update(li, spec_killed(s0[li])),
            lw.push(li),
            ew.push(ei),
        ),
{
    reveal(kill_pairing);
    let cur2 = cur.update(ei, spec_killed(s0[ei])).update(li, spec_killed(s0[li]));
    let lw2 = lw.push(li);
    let ew2 = ew.push(ei);
    assert(li != ei);
    assert(cur2[ei] == spec_killed(s0[ei]));
    assert(cur2[li] == spec_killed(s0[li]));
    assert(forall|i: int|
        0 <= i < s0.len() && i != ei && i != li ==> (#[trigger] cur2[i]) == cur[i]);
    assert forall|m: int| 0 <= m < lw2.len() implies {
        &&& 0 <= lw2[m] < s0.len()
        &&& 0 <= ew2[m] < s0.len()
        &&& s0[lw2[m]].kind == Kind::PlayerLaser
        &&& s0[lw2[m]].alive
        &&& !cur2[lw2[m]].alive
        &&& s0[ew2[m]].kind == Kind::Enemy
        &&& s0[ew2[m]].alive
        &&& !cur2[ew2[m]].alive
        &&& spec_overlap(s0[lw2[m]], s0[ew2[m]])
    } by {
        if m < lw.len() {
            assert(lw2[m] == lw[m] && ew2[m] == ew[m]);
            assert(!cur[lw[m]].alive && !cur[ew[m]].alive);
        } else {
            assert(lw2[m] == li && ew2[m] == ei);
        }
    }
    assert forall|m1: int, m2: int| 0 <= m1 < m2 < lw2.len() implies lw2[m1] != lw2[m2]
        && ew2[m1] != ew2[m2] by {
        if m2 < lw.len() {
        } else {
            assert(lw2[m2] == li && ew2[m2] == ei);
            assert(lw2[m1] == lw[m1] && ew2[m1] == ew[m1]);
            assert(!cur[lw[m1]].alive && cur[li].alive);
            assert(!cur[ew[m1]].alive && cur[ei].alive);
        }
    }
    assert forall|j: int|
        0 <= j < s0.len() && s0[j].kind == Kind::PlayerLaser && s0[j].alive
            && !cur2[j].alive implies (exists|m: int|
        #![trigger lw2[m]]
        0 <= m < lw2.len() && lw2[m] == j) by {
        if j == li {
            assert(lw2[lw.len() as int] == li);
        } else {
            assert(cur2[j] == cur[j]);
            let m = choose|m: int| #![trigger lw[m]] 0 <= m < lw.len() && lw[m] == j;
            assert(lw2[m] == j);
        }
    }
    assert forall|i: int|
        0 <= i < s0.len() && s0[i].kind == Kind::Enemy && s0[i].alive
            && !cur2[i].alive implies (exists|m: int|
        #![trigger ew2[m]]
        0 <= m < ew2.len() && ew2[m] == i) by {
        if i == ei {
            assert(ew2[ew.len() as int] == ei);
        } else {
            assert(cur2[i] == cur[i]);
            let m = choose|m: int| #![trigger ew[m]] 0 <= m < ew.len() && ew[m] == i;
            assert(ew2[m] == i);
        }
    }
}

/// Every record the pass appended is a live explosion marker standing
/// at the position of some enemy that the pass killed.
#[verifier::opaque]
pub open spec fn markers_at_killed(s0: Seq<Entity>, cur: Seq<Entity>) -> bool {
    forall|k: int|
        s0.len() <= k < cur.len() ==> {
            &&& (#[trigger] cur[k]).kind == Kind::ExplosionMarker
            &&& cur[k].alive
            &&& (exists|i: int|
                {
                    &&& 0 <= i < s0.len()
                    &&& (#[trigger] s0[i]).kind == Kind::Enemy
                    &&& s0[i].alive
                    &&& !cur[i].alive
                    &&& cur[k].x == s0[i].x
                    &&& cur[k].y == s0[i].y
                })
        }
}

/// If some player laser died during the pass, at least one enemy was
/// killed with it.
pub open spec fn laser_death_counted(s0: Seq<Entity>, cur: Seq<Entity>, kills: int) -> bool {
    forall|j: int|
        #![trigger s0[j], cur[j]]
        0 <= j < s0.len() && s0[j].kind == Kind::PlayerLaser && s0[j].alive && !cur[j].alive
            ==> kills >= 1
}

/// An untouched store satisfies all pass predicates vacuously.
proof fn lemma_frame_init(s0: Seq<Entity>)
    ensures
        collision_frame(s0, s0),
        pairs_resolved(s0, s0, 0),
        laser_death_counted(s0, s0, 0),
{
}

/// An empty scan of a laser resolves nothing yet.
proof fn lemma_laser_pairs_init(s0: Seq<Entity>, cur: Seq<Entity>, li: int)
    ensures
        laser_pairs(s0, cur, li, 0),
{
}

/// A dead laser has all its pairs resolved.
proof fn lemma_laser_pairs_dead(s0: Seq<Entity>, cur: Seq<Entity>, li: int, ne: int)
    requires
        0 <= li < cur.len(),
        !cur[li].alive,
    ensures
        laser_pairs(s0, cur, li, ne),
{
}

/// Scanning past an enemy slot that cannot collide keeps the laser's
/// pairs resolved.
#[verifier::rlimit(100)]
proof fn lemma_laser_pairs_skip(s0: Seq<Entity>, cur: Seq<Entity>, li: int, ei: int)
    requires
        collision_frame(s0, cur),
        laser_pairs(s0, cur, li, ei),
        0 <= ei < s0.len(),
        !(cur[ei].alive && cur[ei].kind == Kind::Enemy) || !spec_overlap(s0[li], s0[ei]),
    ensures
        laser_pairs(s0, cur, li, ei + 1),
{
    if cur[ei].alive {
        assert(cur[ei] == s0[ei]);
    }
}

/// Killing the enemy at ei and the laser at li preserves the frame.
#[verifier::rlimit(100)]
proof fn lemma_kill_frame(s0: Seq<Entity>, cur: Seq<Entity>, li: int, ei: int)
    requires
        collision_frame(s0, cur),
        0 <= li < s0.len(),
        0 <= ei < s0.len(),
        cur[li] == s0[li],
        s0[li].kind == Kind::PlayerLaser,
        s0[li].alive,
        cur[ei] == s0[ei],
        s0[ei].kind == Kind::Enemy,
        s0[ei].alive,
        spec_overlap(s0[li], s0[ei]),
    ensures
        collision_frame(
            s0,
            cur.update(ei, spec_killed(s0[ei])).update(li, spec_killed(s0[li])),
        ),
{
    let cur2 = cur.update(ei, spec_killed(s0[ei])).update(li, spec_killed(s0[li]));
    assert(li != ei);
    assert(cur2[ei] == spec_killed(s0[ei]));
    assert(cur2[li] == spec_killed(s0[li]));
    assert(forall|i: int|
        0 <= i < s0.len() && i != ei && i != li ==> (#[trigger] cur2[i]) == cur[i]);
    assert(hit_by_live_laser(s0, ei)) by {
        reveal(hit_by_live_laser);
    }
    assert forall|i: int|
        0 <= i < s0.len() && (#[trigger] s0[i]).kind == Kind::Enemy && s0[i].alive
            && !cur2[i].alive implies hit_by_live_laser(s0, i) by {
        if i != ei {
            assert(cur2[i] == cur[i]);
        }
    }
}

/// Killing a pair keeps every earlier resolution.
#[verifier::rlimit(100)]
proof fn lemma_kill_pairs(s0: Seq<Entity>, cur: Seq<Entity>, li: int, ei: int, nl: int)
    requires
        pairs_resolved(s0, cur, nl),
        0 <= li < s0.len() <= cur.len(),
        0 <= ei < s0.len(),
        0 <= nl <= s0.len(),
    ensures
        pairs_resolved(
            s0,
            cur.update(ei, spec_killed(s0[ei])).update(li, spec_killed(s0[li])),
            nl,
        ),
{
    let cur2 = cur.update(ei, spec_killed(s0[ei])).update(li, spec_killed(s0[li]));
    assert forall|j: int, i: int|
        #![trigger s0[j], s0[i]]
        {
            &&& 0 <= j < nl
            &&& 0 <= i < s0.len()
            &&& s0[j].kind == Kind::PlayerLaser
            &&& s0[j].alive
            &&& s0[i].kind == Kind::Enemy
            &&& s0[i].alive
            &&& spec_overlap(s0[j], s0[i])
        } implies !cur2[j].alive || !cur2[i].alive by {
        assert(!cur[j].alive || !cur[i].alive);
        if !cur[j].alive {
            if j == li {
                assert(cur2[j] == spec_killed(s0[li]));
            } else if j == ei {
                assert(cur2[j] == spec_killed(s0[ei]));
            } else {
                assert(cur2[j] == cur[j]);
            }
            assert(!cur2[j].alive);
        } else {
            if i == li {
                assert(cur2[i] == spec_killed(s0[li]));
            } else if i == ei {
                assert(cur2[i] == spec_killed(s0[ei]));
            } else {
                assert(cur2[i] == cur[i]);
            }
            assert(!cur2[i].alive);
        }
    }
}

/// Killing a pair counts the laser's death among the kills.
#[verifier::rlimit(100)]
proof fn lemma_kill_counted(s0: Seq<Entity>, cur: Seq<Entity>, li: int, ei: int, kills: int)
    requires
        laser_death_counted(s0, cur, kills),
        0 <= li < s0.len() <= cur.len(),
        0 <= ei < s0.len(),
        kills >= 0,
    ensures
        laser_death_counted(
            s0,
            cur.update(ei, spec_killed(s0[ei])).update(li, spec_killed(s0[li])),
            kills + 1,
        ),
{
}

/// Once a laser's scan is over (or the slot never held a live laser),
/// the resolved pairs extend to it.
#[verifier::rlimit(100)]
proof fn lemma_pairs_extend(s0: Seq<Entity>, cur: Seq<Entity>, li: int)
    requires
        collision_frame(s0, cur),
        pairs_resolved(s0, cur, li),
        0 <= li < s0.len(),
        laser_pairs(s0, cur, li, s0.len() as int) || !(cur[li].alive && cur[li].kind
            == Kind::PlayerLaser),
    ensures
        pairs_resolved(s0, cur, li + 1),
{
    if !(cur[li].alive && cur[li].kind == Kind::PlayerLaser) {
        if cur[li].alive {
            assert(cur[li] == s0[li]);
        }
    }
}

impl World {
    /// The collision pass: every live player laser is tested against
    /// every live enemy; on the first overlap both die on the spot, the
    /// enemy counter falls, the kill counter rises (saturating at its
    /// type's maximum), and an explosion marker appears at the enemy's
    /// last position. A record destroyed earlier in the pass is never
    /// matched again.
    #[verifier::rlimit(100)]
    pub fn player_laser_hit_enemy_system(&mut self)
        requires
            old(self).wf(),
        ensures
            final(self).wf(),
            final(self).entities@.len() >= old(self).entities@.len(),
            collision_frame(
                old(self).entities@,
                final(self).entities@.take(old(self).entities@.len() as int),
            ),
            pairs_resolved(
                old(self).entities@,
                final(self).entities@.take(old(self).entities@.len() as int),
                old(self).entities@.len() as int,
            ),
            laser_death_counted(
                old(self).entities@,
                final(self).entities@.take(old(self).entities@.len() as int),
                old(self).enemy_count.0 - final(self).enemy_count.0,
            ),
            exists|lw: Seq<int>, ew: Seq<int>|
                #![trigger kill_pairing(old(self).entities@, final(self).entities@.take(old(self).entities@.len() as int), lw, ew)]
                {
                    &&& kill_pairing(
                        old(self).entities@,
                        final(self).entities@.take(old(self).entities@.len() as int),
                        lw,
                        ew,
                    )
                    &&& lw.len() == old(self).enemy_count.0 - final(self).enemy_count.0
                },
            markers_at_killed(old(self).entities@, final(self).entities@),
            final(self).enemy_count.0 <= old(self).enemy_count.0,
            final(self).entities@.len() - old(self).entities@.len() == old(self).enemy_count.0
                - final(self).enemy_count.0,
            final(self).kill_count.0 == (
            if old(self).kill_count.0 + (old(self).enemy_count.0 - final(self).enemy_count.0)
                <= u32::MAX {
                (old(self).kill_count.0 + (old(self).enemy_count.0
                    - final(self).enemy_count.0)) as u32
            } else {
                u32::MAX
            }),
            final(self).win == old(self).win,
            final(self).player == old(self).player,
            final(self).next_enemy_spawn_ms == old(self).next_enemy_spawn_ms,
            final(self).next_player_spawn_ms == old(self).next_player_spawn_ms,
    {
        let ghost s0 = self.entities@;
        let n = self.entities.len();
        let mut hits: Vec<(i64, i64)> = Vec::new();
        let ghost mut wit: Seq<int> = Seq::empty();
        let ghost mut lwit: Seq<int> = Seq::empty();
        let mut li: usize = 0;
        proof {
            lemma_frame_init(s0);
            lemma_pairing_init(s0);
        }
        while li < n
            invariant
                0 <= li <= n,
                n == s0.len(),
                self.entities@.len() == n,
                entities_wf(s0),
                entities_wf(self.entities@),
                collision_frame(s0, self.entities@),
                pairs_resolved(s0, self.entities@, li as int),
                laser_death_counted(s0, self.entities@, hits@.len() as int),
                hits_witnessed(s0, self.entities@, hits@, wit),
                kill_pairing(s0, self.entities@, lwit, wit),
                lwit.len() == hits@.len(),
                hits@.len() + count_alive(self.entities@, Kind::Enemy) == count_alive(
                    s0,
                    Kind::Enemy,
                ),
                count_alive(self.entities@, Kind::Player) == count_alive(s0, Kind::Player),
                self.win == old(self).win,
                self.enemy_count == old(self).enemy_count,
                self.kill_count == old(self).kill_count,
                self.player == old(self).player,
                self.next_enemy_spawn_ms == old(self).next_enemy_spawn_ms,
                self.next_player_spawn_ms == old(self).next_player_spawn_ms,
            decreases n - li,
        {
            let l = self.entities[li];
            if l.alive && matches!(l.kind, Kind::PlayerLaser) {
                proof {
                    assert(l == s0[li as int]);
                    lemma_laser_pairs_init(s0, self.entities@, li as int);
                }
                let mut ei: usize = 0;
                let mut laser_dead = false;
                while ei < n && !laser_dead
                    invariant
                        0 <= ei <= n,
                        0 <= li < n,
                        n == s0.len(),
                        self.entities@.len() == n,
                        entities_wf(s0),
                        entities_wf(self.entities@),
                        l == s0[li as int],
                        l.alive,
                        l.kind == Kind::PlayerLaser,
                        l.inv(),
                        laser_dead == !self.entities@[li as int].alive,
                        collision_frame(s0, self.entities@),
                        pairs_resolved(s0, self.entities@, li as int),
                        laser_pairs(s0, self.entities@, li as int, ei as int),
                        laser_death_counted(s0, self.entities@, hits@.len() as int),
                        hits_witnessed(s0, self.entities@, hits@, wit),
                        kill_pairing(s0, self.entities@, lwit, wit),
                        lwit.len() == hits@.len(),
                        hits@.len() + count_alive(self.entities@, Kind::Enemy) == count_alive(
                            s0,
                            Kind::Enemy,
                        ),
                        count_alive(self.entities@, Kind::Player) == count_alive(s0, Kind::Player),
                        self.win == old(self).win,
                        self.enemy_count == old(self).enemy_count,
                        self.kill_count == old(self).kill_count,
                        self.player == old(self).player,
                        self.next_enemy_spawn_ms == old(self).next_enemy_spawn_ms,
                        self.next_player_spawn_ms == old(self).next_player_spawn_ms,
                    decreases n - ei,
                {
                    let e = self.entities[ei];
                    let ghost cur = self.entities@;
                    if e.alive && matches!(e.kind, Kind::Enemy) {
                        proof {
                            assert(e == s0[ei as int]);
                        }
                        if overlap(&l, &e) {
                            let mut de = e;
                            de.alive = false;
                            proof {
                                lemma_count_update(self.entities@, Kind::Enemy, ei as int, de);
                                lemma_count_update(self.entities@, Kind::Player, ei as int, de);
                            }
                            self.entities[ei] = de;
                            let mut dl = l;
                            dl.alive = false;
                            proof {
                                lemma_count_update(self.entities@, Kind::Enemy, li as int, dl);
                                lemma_count_update(self.entities@, Kind::Player, li as int, dl);
                            }
                            self.entities[li] = dl;
                            proof {
                                assert(de == spec_killed(s0[ei as int]));
                                assert(dl == spec_killed(s0[li as int]));
                                assert(self.entities@ =~= cur.update(
                                    ei as int,
                                    spec_killed(s0[ei as int]),
                                ).update(li as int, spec_killed(s0[li as int])));
                                lemma_kill_frame(s0, cur, li as int, ei as int);
                                lemma_kill_pairs(s0, cur, li as int, ei as int, li as int);
                                lemma_kill_counted(s0, cur, li as int, ei as int, hits@.len() as int);
                                lemma_pairing_kill(s0, cur, lwit, wit, li as int, ei as int);
                                lwit = lwit.push(li as int);
                                lemma_laser_pairs_dead(s0, self.entities@, li as int, ei + 1);
                            }
                            proof {
                                assert forall|m: int| 0 <= m < hits@.len() implies {
                                    &&& 0 <= wit[m] < n
                                    &&& !self.entities@[wit[m]].alive
                                } by {
                                    assert(hits_witnessed(s0, cur, hits@, wit));
                                    assert(0 <= wit[m] < s0.len());
                                    assert(!cur[wit[m]].alive);
                                    if wit[m] != ei as int && wit[m] != li as int {
                                        assert(self.entities@[wit[m]] == cur[wit[m]]);
                                    }
                                }
                                wit = wit.push(ei as int);
                            }
                            hits.push((e.x, e.y));
                            laser_dead = true;
                        } else {
                            proof {
                                lemma_laser_pairs_skip(s0, self.entities@, li as int, ei as int);
                            }
                        }
                    } else {
                        proof {
                            lemma_laser_pairs_skip(s0, self.entities@, li as int, ei as int);
                        }
                    }
                    ei = ei + 1;
                }
                proof {
                    if laser_dead {
                        lemma_laser_pairs_dead(s0, self.entities@, li as int, n as int);
                    }
                    lemma_pairs_extend(s0, self.entities@, li as int);
                }
            } else {
                proof {
                    lemma_pairs_extend(s0, self.entities@, li as int);
                }
            }
            li = li + 1;
        }
        let ghost s1 = self.entities@;
        let nh = hits.len();
        let mut m: usize = 0;
        while m < nh
            invariant
                0 <= m <= nh,
                nh == hits@.len(),
                n == s0.len(),
                s1.len() == n,
                self.entities@.len() == n + m,
                forall|i: int| 0 <= i < n ==> self.entities@[i] == s1[i],
                forall|k: int|
                    n <= k < self.entities@.len() ==> {
                        &&& (#[trigger] self.entities@[k]).kind == Kind::ExplosionMarker
                        &&& self.entities@[k].alive
                        &&& (exists|i: int|
                            {
                                &&& 0 <= i < n
                                &&& (#[trigger] s0[i]).kind == Kind::Enemy
                                &&& s0[i].alive
                                &&& !s1[i].alive
                                &&& self.entities@[k].x == s0[i].x
                                &&& self.entities@[k].y == s0[i].y
                            })
                    },
                entities_wf(s0),
                entities_wf(self.entities@),
                entities_wf(s1),
                hits_witnessed(s0, s1, hits@, wit),
                kill_pairing(s0, s1, lwit, wit),
                lwit.len() == nh,
                count_alive(self.entities@, Kind::Enemy) == count_alive(s1, Kind::Enemy),
                count_alive(self.entities@, Kind::Player) == count_alive(s1, Kind::Player),
                self.win == old(self).win,
                self.enemy_count == old(self).enemy_count,
                self.kill_count == old(self).kill_count,
                self.player == old(self).player,
                self.next_enemy_spawn_ms == old(self).next_enemy_spawn_ms,
                self.next_player_spawn_ms == old(self).next_player_spawn_ms,
            decreases nh - m,
        {
            let hx = hits[m].0;
            let hy = hits[m].1;
            proof {
                assert(0 <= wit[m as int] < n && s0[wit[m as int]].kind == Kind::Enemy
                    && s0[wit[m as int]].alive && !s1[wit[m as int]].alive
                    && hx == s0[wit[m as int]].x && hy == s0[wit[m as int]].y);
                assert(s0[wit[m as int]].inv());
            }
            let mk = Entity::new_explosion_marker(hx, hy);
            proof {
                lemma_count_push(self.entities@, Kind::Enemy, mk);
                lemma_count_push(self.entities@, Kind::Player, mk);
            }
            self.entities.push(mk);
            m = m + 1;
        }
        proof {
            assert(self.entities@.take(n as int) =~= s1);
            assert(markers_at_killed(s0, self.entities@)) by {
                reveal(markers_at_killed);
            }
            assert(kill_pairing(s0, self.entities@.take(n as int), lwit, wit));
        }
        let alive_enemies = self.alive_count(Kind::Enemy);
        proof {
            assert(alive_enemies + nh == old(self).enemy_count.0);
        }
        self.enemy_count.0 = alive_enemies as u32;
        let kc: u64 = self.kill_count.0 as u64 + (nh as u64);
        if kc > 0xffff_ffff {
            self.kill_count.0 = u32::MAX;
        } else {
            self.kill_count.0 = kc as u32;
        }
    }
}

} // verus!
