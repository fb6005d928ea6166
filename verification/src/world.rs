//! The simulation state: one struct threaded explicitly through every
//! system call, owning the entity store, the population counters and
//! the player respawn state.

use vstd::prelude::*;

use crate::components::{EnemyCount, Entity, KillCount, Kind, PlayerState, WinSize};

verus! {

/// Number of live entities of one kind in a store snapshot.
pub open spec fn count_alive(s: Seq<Entity>, k: Kind) -> nat
    decreases s.len(),
{
    if s.len() == 0 {
        0
    } else {
        count_alive(s.drop_last(), k) + if s.last().alive && s.last().kind == k {
            1nat
        } else {
            0nat
        }
    }
}

/// Every entity record of a store snapshot is well-formed; player
/// records never carry the auto-despawn policy, and enemy records are
/// never movable (they fly along their formation instead).
pub open spec fn entities_wf(s: Seq<Entity>) -> bool {
    forall|i: int|
        0 <= i < s.len() ==> (#[trigger] s[i]).inv() && (s[i].kind == Kind::Player
            ==> !s[i].auto_despawn) && (s[i].kind == Kind::Enemy ==> !s[i].movable)
}

/// Counting one more prefix element adds that element's contribution.
pub proof fn lemma_count_take_step(s: Seq<Entity>, k: Kind, i: int)
    requires
        0 <= i < s.len(),
    ensures
        count_alive(s.take(i + 1), k) == count_alive(s.take(i), k) + if s[i].alive && s[i].kind
            == k {
            1nat
        } else {
            0nat
        },
{
    assert(s.take(i + 1).drop_last() =~= s.take(i));
    assert(s.take(i + 1).last() == s[i]);
}

/// The whole store is its own full prefix.
pub proof fn lemma_count_take_all(s: Seq<Entity>, k: Kind)
    ensures
        count_alive(s.take(s.len() as int), k) == count_alive(s, k),
{
    assert(s.take(s.len() as int) =~= s);
}

/// Counts are untouched by changes that keep each record's kind and
/// liveness.
pub proof fn lemma_count_pointwise(s1: Seq<Entity>, s2: Seq<Entity>, k: Kind)
    requires
        s1.len() == s2.len(),
        forall|i: int|
            0 <= i < s1.len() ==> ((#[trigger] s2[i]).alive == s1[i].alive && s2[i].kind
                == s1[i].kind),
    ensures
        count_alive(s2, k) == count_alive(s1, k),
    decreases s1.len(),
{
    if s1.len() > 0 {
        lemma_count_pointwise(s1.drop_last(), s2.drop_last(), k);
    }
}

/// Counts of one kind are untouched by changes that keep each record's
/// kind, and the liveness of the records of that kind.
pub proof fn lemma_count_pointwise_kind(s1: Seq<Entity>, s2: Seq<Entity>, k: Kind)
    requires
        s1.len() == s2.len(),
        forall|i: int| 0 <= i < s1.len() ==> (#[trigger] s2[i]).kind == s1[i].kind,
        forall|i: int|
            0 <= i < s1.len() && (#[trigger] s1[i]).kind == k ==> s2[i].alive == s1[i].alive,
    ensures
        count_alive(s2, k) == count_alive(s1, k),
    decreases s1.len(),
{
    if s1.len() > 0 {
        lemma_count_pointwise_kind(s1.drop_last(), s2.drop_last(), k);
    }
}

/// Replacing one record changes the count by the difference of the old
/// and new contributions.
pub proof fn lemma_count_update(s: Seq<Entity>, k: Kind, i: int, e: Entity)
    requires
        0 <= i < s.len(),
    ensures
        count_alive(s.update(i, e), k) == count_alive(s, k) - (
        if s[i].alive && s[i].kind == k {
            1int
        } else {
            0int
        }) + (
        if e.alive && e.kind == k {
            1int
        } else {
            0int
        }),
    decreases s.len(),
{
    if i == s.len() - 1 {
        assert(s.update(i, e).drop_last() =~= s.drop_last());
        assert(s.update(i, e).last() == e);
    } else {
        assert(s.update(i, e).drop_last() =~= s.drop_last().update(i, e));
        assert(s.update(i, e).last() == s.last());
        lemma_count_update(s.drop_last(), k, i, e);
    }
}

/// Appending one record adds its contribution.
pub proof fn lemma_count_push(s: Seq<Entity>, k: Kind, e: Entity)
    ensures
        count_alive(s.push(e), k) == count_alive(s, k) + if e.alive && e.kind == k {
            1nat
        } else {
            0nat
        },
{
    assert(s.push(e).drop_last() =~= s);
}

/// Counts can only drop under changes that keep kinds and never
/// revive a record; a witness that died makes the drop strict.
pub proof fn lemma_count_drop(s1: Seq<Entity>, s2: Seq<Entity>, k: Kind)
    requires
        s1.len() == s2.len(),
        forall|i: int| 0 <= i < s1.len() ==> (#[trigger] s2[i]).kind == s1[i].kind,
        forall|i: int| 0 <= i < s1.len() ==> ((#[trigger] s2[i]).alive ==> s1[i].alive),
    ensures
        count_alive(s2, k) <= count_alive(s1, k),
    decreases s1.len(),
{
    if s1.len() > 0 {
        lemma_count_drop(s1.drop_last(), s2.drop_last(), k);
    }
}

/// As lemma_count_drop, and a record of the kind that died makes the
/// inequality strict.
pub proof fn lemma_count_drop_strict(s1: Seq<Entity>, s2: Seq<Entity>, k: Kind, w: int)
    requires
        s1.len() == s2.len(),
        forall|i: int| 0 <= i < s1.len() ==> (#[trigger] s2[i]).kind == s1[i].kind,
        forall|i: int| 0 <= i < s1.len() ==> ((#[trigger] s2[i]).alive ==> s1[i].alive),
        0 <= w < s1.len(),
        s1[w].kind == k,
        s1[w].alive,
        !s2[w].alive,
    ensures
        count_alive(s2, k) < count_alive(s1, k),
    decreases s1.len(),
{
    if w == s1.len() - 1 {
        lemma_count_drop(s1.drop_last(), s2.drop_last(), k);
    } else {
        lemma_count_drop_strict(s1.drop_last(), s2.drop_last(), k, w);
    }
}

/// Records past a prefix that are not of the kind leave its count as
/// the prefix's.
pub proof fn lemma_count_tail_other(s: Seq<Entity>, k: Kind, n: int)
    requires
        0 <= n <= s.len(),
        forall|m: int| n <= m < s.len() ==> (#[trigger] s[m]).kind != k,
    ensures
        count_alive(s, k) == count_alive(s.take(n), k),
    decreases s.len() - n,
{
    if n < s.len() {
        assert(s.drop_last() =~= s.take(s.len() - 1));
        lemma_count_tail_other(s.take(s.len() - 1), k, n);
        assert(s.take(s.len() - 1).take(n) =~= s.take(n));
    } else {
        assert(s.take(n) =~= s);
    }
}

/// Without a live record of a kind, its count is zero.
pub proof fn lemma_count_zero(s: Seq<Entity>, k: Kind)
    requires
        forall|i: int| 0 <= i < s.len() ==> !((#[trigger] s[i]).alive && s[i].kind == k),
    ensures
        count_alive(s, k) == 0,
    decreases s.len(),
{
    if s.len() > 0 {
        lemma_count_zero(s.drop_last(), k);
    }
}

/// A live record of a kind witnesses a positive count of that kind.
pub proof fn lemma_count_at_least_one(s: Seq<Entity>, k: Kind, i: int)
    requires
        0 <= i < s.len(),
        s[i].alive,
        s[i].kind == k,
    ensures
        count_alive(s, k) >= 1,
    decreases s.len(),
{
    if i < s.len() - 1 {
        lemma_count_at_least_one(s.drop_last(), k, i);
    }
}

/// The whole simulation: the viewport, the entity store, the two
/// population counters, the player respawn state and the scheduler
/// cadence marks.
pub struct World {
    pub win: WinSize,
    pub entities: Vec<Entity>,
    pub enemy_count: EnemyCount,
    pub kill_count: KillCount,
    pub player: PlayerState,
    pub next_enemy_spawn_ms: u64,
    pub next_player_spawn_ms: u64,
}

impl World {
    /// The world invariant. It carries the population bound: the enemy
    /// counter equals the number of live enemy records and never
    /// exceeds the cap; at most one player record is live, exactly when
    /// the player state says one is on.
    pub open spec fn wf(self) -> bool {
        &&& self.win.inv()
        &&& entities_wf(self.entities@)
        &&& self.enemy_count.0 == count_alive(self.entities@, Kind::Enemy)
        &&& self.enemy_count.0 <= crate::ENEMY_MAX
        &&& count_alive(self.entities@, Kind::Player) <= 1
        &&& (self.player.on <==> count_alive(self.entities@, Kind::Player) == 1)
    }

    /// Sets up an empty world over a viewport: no entities, both
    /// counters at zero, no player yet, both schedulers due at once.
    pub fn new(win: WinSize) -> (w: World)
        requires
            win.inv(),
        ensures
            w.wf(),
            w.win == win,
            w.entities@.len() == 0,
            w.enemy_count.0 == 0,
            w.kill_count.0 == 0,
            !w.player.on,
            w.player.last_shot_ms is None,
    {
        World {
            win,
            entities: Vec::new(),
            enemy_count: EnemyCount(0),
            kill_count: KillCount(0),
            player: PlayerState::new(),
            next_enemy_spawn_ms: 0,
            next_player_spawn_ms: 0,
        }
    }

    /// Counts the live entities of one kind, by scanning the store.
    pub fn alive_count(&self, k: Kind) -> (n: u64)
        ensures
            n == count_alive(self.entities@, k),
    {
        let mut n: u64 = 0;
        let mut i: usize = 0;
        proof {
            assert(self.entities@.take(0) =~= Seq::<Entity>::empty());
        }
        while i < self.entities.len()
            invariant
                0 <= i <= self.entities@.len(),
                n == count_alive(self.entities@.take(i as int), k),
                n <= i,
            decreases self.entities@.len() - i,
        {
            proof {
                lemma_count_take_step(self.entities@, k, i as int);
            }
            let e = &self.entities[i];
            if e.alive && e.kind == k {
                n = n + 1;
            }
            i = i + 1;
        }
        proof {
            lemma_count_take_all(self.entities@, k);
        }
        n
    }

    /// Drops the records marked dead during this tick, keeping the live
    /// ones in order: the well-defined flush point between ticks.
    pub fn flush_despawned(&mut self)
        requires
            old(self).wf(),
        ensures
            final(self).wf(),
            final(self).entities@ == old(self).entities@.filter(|e: Entity| e.alive),
            final(self).win == old(self).win,
            final(self).enemy_count == old(self).enemy_count,
            final(self).kill_count == old(self).kill_count,
            final(self).player == old(self).player,
            final(self).next_enemy_spawn_ms == old(self).next_enemy_spawn_ms,
            final(self).next_player_spawn_ms == old(self).next_player_spawn_ms,
    {
        let ghost s = self.entities@;
        let mut kept: Vec<Entity> = Vec::new();
        let mut i: usize = 0;
        proof {
            assert(s.take(0) =~= Seq::<Entity>::empty());
            assert(Seq::<Entity>::empty().filter(|e: Entity| e.alive) =~= Seq::<
                Entity,
            >::empty());
        }
        while i < self.entities.len()
            invariant
                0 <= i <= s.len(),
                self.entities@ == s,
                entities_wf(s),
                kept@ == s.take(i as int).filter(|e: Entity| e.alive),
                entities_wf(kept@),
            decreases s.len() - i,
        {
            let e = self.entities[i];
            proof {
                reveal(Seq::filter);
                assert(s.take(i + 1).drop_last() =~= s.take(i as int));
                assert(s.take(i + 1).last() == s[i as int]);
            }
            if e.alive {
                kept.push(e);
            }
            i = i + 1;
        }
        proof {
            assert(s.take(s.len() as int) =~= s);
        }
        self.entities = kept;
        proof {
            lemma_count_filter_alive(s, Kind::Enemy);
            lemma_count_filter_alive(s, Kind::Player);
        }
    }
}

/// Filtering out the dead records keeps every live count.
pub proof fn lemma_count_filter_alive(s: Seq<Entity>, k: Kind)
    ensures
        count_alive(s.filter(|e: Entity| e.alive), k) == count_alive(s, k),
    decreases s.len(),
{
    reveal(Seq::filter);
    if s.len() > 0 {
        lemma_count_filter_alive(s.drop_last(), k);
        if s.last().alive {
            assert(s.filter(|e: Entity| e.alive).drop_last() =~= s.drop_last().filter(
                |e: Entity| e.alive,
            ));
        } else {
            assert(s.filter(|e: Entity| e.alive) =~= s.drop_last().filter(|e: Entity| e.alive));
        }
    } else {
        assert(s.filter(|e: Entity| e.alive) =~= s);
    }
}

/// What one enemy spawn call does: exactly the enemy spawn system's
/// contract, between a pre- and a post-state.
#[verifier::opaque]
pub open spec fn rel_enemy_spawn(pre: World, post: World) -> bool {
    &&& post.wf()
    &&& (pre.enemy_count.0 >= crate::ENEMY_MAX ==> post == pre)
    &&& (pre.enemy_count.0 < crate::ENEMY_MAX ==> {
        &&& post.entities@.len() == pre.entities@.len() + 1
        &&& (forall|j: int| 0 <= j < pre.entities@.len() ==> post.entities@[j] == pre.entities@[j])
        &&& post.entities@.last().kind == Kind::Enemy
        &&& post.entities@.last().alive
        &&& post.entities@.last().w_milli == crate::ENEMY_W_MILLI
        &&& post.entities@.last().h_milli == crate::ENEMY_H_MILLI
        &&& post.entities@.last().scale_milli == crate::SPRITE_SCALE_MILLI
        &&& post.entities@.last().formation is Some
        &&& post.entities@.last().formation->0.inv()
        &&& post.entities@.last().x == post.entities@.last().formation->0.start_x
        &&& post.entities@.last().y == post.entities@.last().formation->0.start_y
        &&& -((pre.win.w / 2) as int) + crate::SPAWN_MARGIN_MILLI <= post.entities@.last().x
        &&& post.entities@.last().x < (pre.win.w / 2) as int - crate::SPAWN_MARGIN_MILLI
        &&& -((pre.win.h / 2) as int) + crate::SPAWN_MARGIN_MILLI <= post.entities@.last().y
        &&& post.entities@.last().y < (pre.win.h / 2) as int - crate::SPAWN_MARGIN_MILLI
        &&& post.enemy_count.0 == pre.enemy_count.0 + 1
    })
    &&& post.win == pre.win
    &&& post.kill_count == pre.kill_count
    &&& post.player == pre.player
    &&& post.next_enemy_spawn_ms == pre.next_enemy_spawn_ms
    &&& post.next_player_spawn_ms == pre.next_player_spawn_ms
}

/// What one player spawn call does: exactly the player spawn system's
/// contract.
#[verifier::opaque]
pub open spec fn rel_player_spawn(pre: World, post: World, now_ms: u64) -> bool {
    &&& post.wf()
    &&& (!pre.player.spec_respawn_due(now_ms) ==> post == pre)
    &&& (pre.player.spec_respawn_due(now_ms) ==> {
        &&& post.entities@.len() == pre.entities@.len() + 1
        &&& (forall|j: int| 0 <= j < pre.entities@.len() ==> post.entities@[j] == pre.entities@[j])
        &&& post.entities@.last().kind == Kind::Player
        &&& post.entities@.last().alive
        &&& post.entities@.last().x == 0
        &&& post.entities@.last().y == -((pre.win.h / 2) as int) + 49_250
        &&& post.entities@.last().vx == 0
        &&& post.entities@.last().vy == 0
        &&& post.entities@.last().movable
        &&& !post.entities@.last().auto_despawn
        &&& post.entities@.last().w_milli == crate::PLAYER_W_MILLI
        &&& post.entities@.last().h_milli == crate::PLAYER_H_MILLI
        &&& post.entities@.last().scale_milli == crate::SPRITE_SCALE_MILLI
        &&& post.player.on
        &&& post.player.last_shot_ms == pre.player.last_shot_ms
    })
    &&& post.win == pre.win
    &&& post.enemy_count == pre.enemy_count
    &&& post.kill_count == pre.kill_count
    &&& post.next_enemy_spawn_ms == pre.next_enemy_spawn_ms
    &&& post.next_player_spawn_ms == pre.next_player_spawn_ms
}

/// The enemy spawn scheduler step of a tick: when the cadence is due,
/// the spawn system runs and the next due time moves one period past
/// now; otherwise nothing happens.
#[verifier::opaque]
pub open spec fn rel_enemy_scheduler(pre: World, post: World, now_ms: u64) -> bool {
    if now_ms >= pre.next_enemy_spawn_ms {
        exists|mid: World|
            #![trigger rel_enemy_spawn(pre, mid)]
            {
                &&& rel_enemy_spawn(pre, mid)
                &&& post == World {
                    next_enemy_spawn_ms: (now_ms + crate::ENEMY_SPAWN_PERIOD_MS) as u64,
                    ..mid
                }
            }
    } else {
        post == pre
    }
}

/// The player spawn scheduler step of a tick, on its own cadence.
#[verifier::opaque]
pub open spec fn rel_player_scheduler(pre: World, post: World, now_ms: u64) -> bool {
    if now_ms >= pre.next_player_spawn_ms {
        exists|mid: World|
            #![trigger rel_player_spawn(pre, mid, now_ms)]
            {
                &&& rel_player_spawn(pre, mid, now_ms)
                &&& post == World {
                    next_player_spawn_ms: (now_ms + crate::PLAYER_SPAWN_PERIOD_MS) as u64,
                    ..mid
                }
            }
    } else {
        post == pre
    }
}

/// What the steering step does: exactly the keyboard system's contract.
#[verifier::opaque]
pub open spec fn rel_keyboard(pre: World, post: World, left: bool, right: bool) -> bool {
    &&& post.wf()
    &&& post.entities@.len() == pre.entities@.len()
    &&& forall|i: int|
        0 <= i < pre.entities@.len() ==> post.entities@[i] == (
        if (#[trigger] pre.entities@[i]).alive && pre.entities@[i].kind == Kind::Player {
            Entity {
                vx: if left {
                    -1i64
                } else if right {
                    1i64
                } else {
                    0i64
                },
                ..pre.entities@[i]
            }
        } else {
            pre.entities@[i]
        })
    &&& post.win == pre.win
    &&& post.enemy_count == pre.enemy_count
    &&& post.kill_count == pre.kill_count
    &&& post.player == pre.player
    &&& post.next_enemy_spawn_ms == pre.next_enemy_spawn_ms
    &&& post.next_player_spawn_ms == pre.next_player_spawn_ms
}

/// What the motion step does: every record advances by one integrator
/// tick, exactly the movable system's contract.
#[verifier::opaque]
pub open spec fn rel_movable(pre: World, post: World) -> bool {
    &&& post.wf()
    &&& post.entities@.len() == pre.entities@.len()
    &&& forall|i: int|
        0 <= i < pre.entities@.len() ==> post.entities@[i] == crate::motion::spec_movable_tick(
            #[trigger] pre.entities@[i],
            pre.win.h as int,
        )
    &&& post.win == pre.win
    &&& post.enemy_count == pre.enemy_count
    &&& post.kill_count == pre.kill_count
    &&& post.player == pre.player
    &&& post.next_enemy_spawn_ms == pre.next_enemy_spawn_ms
    &&& post.next_player_spawn_ms == pre.next_player_spawn_ms
}

/// What the flight step does: every live enemy advances by one flight
/// tick, exactly the enemy move system's contract.
#[verifier::opaque]
pub open spec fn rel_flight(pre: World, post: World) -> bool {
    &&& post.wf()
    &&& post.entities@.len() == pre.entities@.len()
    &&& forall|i: int|
        0 <= i < pre.entities@.len() ==> post.entities@[i] == (
        if (#[trigger] pre.entities@[i]).alive && pre.entities@[i].kind == Kind::Enemy {
            crate::flight::spec_flight_step(pre.entities@[i])
        } else {
            pre.entities@[i]
        })
    &&& post.win == pre.win
    &&& post.enemy_count == pre.enemy_count
    &&& post.kill_count == pre.kill_count
    &&& post.player == pre.player
    &&& post.next_enemy_spawn_ms == pre.next_enemy_spawn_ms
    &&& post.next_player_spawn_ms == pre.next_player_spawn_ms
}

/// What the player fire step does: exactly the player fire system's
/// contract.
#[verifier::opaque]
pub open spec fn rel_player_fire(pre: World, post: World, fire: bool) -> bool {
    &&& post.wf()
    &&& (!fire || count_alive(pre.entities@, Kind::Player) == 0 ==> post == pre)
    &&& (fire && count_alive(pre.entities@, Kind::Player) > 0 ==> {
        &&& post.entities@.len() == pre.entities@.len() + 2
        &&& (forall|j: int| 0 <= j < pre.entities@.len() ==> post.entities@[j] == pre.entities@[j])
        &&& (exists|pi: int|
            {
                &&& 0 <= pi < pre.entities@.len()
                &&& (#[trigger] pre.entities@[pi]).alive
                &&& pre.entities@[pi].kind == Kind::Player
                &&& post.entities@[pre.entities@.len() as int].x == crate::motion::spec_clamp_pos(
                    pre.entities@[pi].x - 11_000,
                )
                &&& post.entities@[pre.entities@.len() as int].y == crate::motion::spec_clamp_pos(
                    pre.entities@[pi].y + 42_250,
                )
                &&& post.entities@.last().x == crate::motion::spec_clamp_pos(
                    pre.entities@[pi].x - 1_000,
                )
                &&& post.entities@.last().y == crate::motion::spec_clamp_pos(
                    pre.entities@[pi].y + 42_250,
                )
            })
        &&& crate::weapons::laser_record_ok(post.entities@[pre.entities@.len() as int])
        &&& crate::weapons::laser_record_ok(post.entities@.last())
    })
    &&& post.win == pre.win
    &&& post.enemy_count == pre.enemy_count
    &&& post.kill_count == pre.kill_count
    &&& post.player == pre.player
    &&& post.next_enemy_spawn_ms == pre.next_enemy_spawn_ms
    &&& post.next_player_spawn_ms == pre.next_player_spawn_ms
}

/// What the enemy fire step does: exactly the enemy fire system's
/// contract; which enemies fired is up to chance.
#[verifier::opaque]
pub open spec fn rel_enemy_fire(pre: World, post: World) -> bool {
    &&& post.wf()
    &&& post.entities@.len() >= pre.entities@.len()
    &&& forall|j: int| 0 <= j < pre.entities@.len() ==> post.entities@[j] == pre.entities@[j]
    &&& forall|k: int|
        pre.entities@.len() <= k < post.entities@.len() ==> {
            &&& (#[trigger] post.entities@[k]).kind == Kind::EnemyLaser
            &&& post.entities@[k].alive
            &&& post.entities@[k].vy == -1
            &&& post.entities@[k].auto_despawn
            &&& (exists|i: int|
                {
                    &&& 0 <= i < pre.entities@.len()
                    &&& (#[trigger] pre.entities@[i]).alive
                    &&& pre.entities@[i].kind == Kind::Enemy
                    &&& post.entities@[k].x == pre.entities@[i].x
                    &&& post.entities@[k].y == crate::motion::spec_clamp_pos(
                        pre.entities@[i].y - 15_000,
                    )
                })
        }
    &&& post.entities@.len() - pre.entities@.len() <= count_alive(pre.entities@, Kind::Enemy)
    &&& post.win == pre.win
    &&& post.enemy_count == pre.enemy_count
    &&& post.kill_count == pre.kill_count
    &&& post.player == pre.player
    &&& post.next_enemy_spawn_ms == pre.next_enemy_spawn_ms
    &&& post.next_player_spawn_ms == pre.next_player_spawn_ms
}

/// What the collision pass does: exactly its contract.
#[verifier::opaque]
pub open spec fn rel_collision(pre: World, post: World) -> bool {
    &&& post.wf()
    &&& post.entities@.len() >= pre.entities@.len()
    &&& crate::weapons::collision_frame(
        pre.entities@,
        post.entities@.take(pre.entities@.len() as int),
    )
    &&& crate::weapons::pairs_resolved(
        pre.entities@,
        post.entities@.take(pre.entities@.len() as int),
        pre.entities@.len() as int,
    )
    &&& crate::weapons::laser_death_counted(
        pre.entities@,
        post.entities@.take(pre.entities@.len() as int),
        pre.enemy_count.0 - post.enemy_count.0,
    )
    &&& (exists|lw: Seq<int>, ew: Seq<int>|
        #![trigger crate::weapons::kill_pairing(pre.entities@, post.entities@.take(pre.entities@.len() as int), lw, ew)]
        {
            &&& crate::weapons::kill_pairing(
                pre.entities@,
                post.entities@.take(pre.entities@.len() as int),
                lw,
                ew,
            )
            &&& lw.len() == pre.enemy_count.0 - post.enemy_count.0
        })
    &&& crate::weapons::markers_at_killed(pre.entities@, post.entities@)
    &&& post.enemy_count.0 <= pre.enemy_count.0
    &&& post.entities@.len() - pre.entities@.len() == pre.enemy_count.0 - post.enemy_count.0
    &&& post.kill_count.0 == (
    if pre.kill_count.0 + (pre.enemy_count.0 - post.enemy_count.0) <= u32::MAX {
        (pre.kill_count.0 + (pre.enemy_count.0 - post.enemy_count.0)) as u32
    } else {
        u32::MAX
    })
    &&& post.win == pre.win
    &&& post.player == pre.player
    &&& post.next_enemy_spawn_ms == pre.next_enemy_spawn_ms
    &&& post.next_player_spawn_ms == pre.next_player_spawn_ms
}

/// What the explosion materialization step does: exactly its contract.
#[verifier::opaque]
pub open spec fn rel_explosions(pre: World, post: World) -> bool {
    &&& post.wf()
    &&& post.entities@.len() == pre.entities@.len() + crate::weapons::marker_positions(
        pre.entities@,
    ).len()
    &&& forall|j: int|
        0 <= j < pre.entities@.len() ==> post.entities@[j] == (
        if (#[trigger] pre.entities@[j]).alive && pre.entities@[j].kind == Kind::ExplosionMarker {
            crate::weapons::spec_killed(pre.entities@[j])
        } else {
            pre.entities@[j]
        })
    &&& forall|k: int|
        pre.entities@.len() <= k < post.entities@.len() ==> {
            &&& (#[trigger] post.entities@[k]).kind == Kind::Explosion
            &&& post.entities@[k].alive
            &&& post.entities@[k].timer_ms == 0
            &&& post.entities@[k].frame == 0
            &&& post.entities@[k].x == crate::weapons::marker_positions(pre.entities@)[k
                - pre.entities@.len()].0
            &&& post.entities@[k].y == crate::weapons::marker_positions(pre.entities@)[k
                - pre.entities@.len()].1
        }
    &&& post.win == pre.win
    &&& post.enemy_count == pre.enemy_count
    &&& post.kill_count == pre.kill_count
    &&& post.player == pre.player
    &&& post.next_enemy_spawn_ms == pre.next_enemy_spawn_ms
    &&& post.next_player_spawn_ms == pre.next_player_spawn_ms
}

/// What the explosion clock step does: exactly its contract.
#[verifier::opaque]
pub open spec fn rel_explosion_anim(pre: World, post: World, delta_ms: u64) -> bool {
    &&& post.wf()
    &&& post.entities@.len() == pre.entities@.len()
    &&& forall|i: int|
        0 <= i < pre.entities@.len() ==> post.entities@[i] == crate::weapons::spec_explosion_tick(
            #[trigger] pre.entities@[i],
            delta_ms as int,
        )
    &&& post.win == pre.win
    &&& post.enemy_count == pre.enemy_count
    &&& post.kill_count == pre.kill_count
    &&& post.player == pre.player
    &&& post.next_enemy_spawn_ms == pre.next_enemy_spawn_ms
    &&& post.next_player_spawn_ms == pre.next_player_spawn_ms
}

/// What the end-of-tick flush does: exactly its contract.
#[verifier::opaque]
pub open spec fn rel_flush(pre: World, post: World) -> bool {
    &&& post.wf()
    &&& post.entities@ == pre.entities@.filter(|e: Entity| e.alive)
    &&& post.win == pre.win
    &&& post.enemy_count == pre.enemy_count
    &&& post.kill_count == pre.kill_count
    &&& post.player == pre.player
    &&& post.next_enemy_spawn_ms == pre.next_enemy_spawn_ms
    &&& post.next_player_spawn_ms == pre.next_player_spawn_ms
}

/// The resolution phase of a tick: collision, explosion
/// materialization, the explosion clock, then the flush, in that
/// order.
#[verifier::opaque]
pub open spec fn rel_resolve_phase(pre: World, post: World) -> bool {
    exists|w1: World, w2: World, w3: World|
        #![trigger rel_collision(pre, w1), rel_explosions(w1, w2), rel_explosion_anim(w2, w3, crate::TICK_MS)]
        {
            &&& rel_collision(pre, w1)
            &&& rel_explosions(w1, w2)
            &&& rel_explosion_anim(w2, w3, crate::TICK_MS)
            &&& rel_flush(w3, post)
        }
}

/// The weapons phase of a tick: player fire, enemy fire, then the
/// resolution phase, in that order.
#[verifier::opaque]
pub open spec fn rel_weapons_phase(pre: World, post: World, fire: bool) -> bool {
    exists|w1: World, w2: World|
        #![trigger rel_player_fire(pre, w1, fire), rel_enemy_fire(w1, w2)]
        {
            &&& rel_player_fire(pre, w1, fire)
            &&& rel_enemy_fire(w1, w2)
            &&& rel_resolve_phase(w2, post)
        }
}

/// One whole tick: the two spawn schedulers on their cadences, then
/// steering, motion, flight, and the weapons phase, in that fixed
/// order.
#[verifier::opaque]
pub open spec fn spec_tick_rel(
    pre: World,
    post: World,
    now_ms: u64,
    left: bool,
    right: bool,
    fire: bool,
) -> bool {
    exists|w1: World, w2: World, w3: World, w4: World, w5: World|
        #![trigger rel_enemy_scheduler(pre, w1, now_ms), rel_player_scheduler(w1, w2, now_ms), rel_keyboard(w2, w3, left, right), rel_movable(w3, w4), rel_flight(w4, w5)]
        {
            &&& rel_enemy_scheduler(pre, w1, now_ms)
            &&& rel_player_scheduler(w1, w2, now_ms)
            &&& rel_keyboard(w2, w3, left, right)
            &&& rel_movable(w3, w4)
            &&& rel_flight(w4, w5)
            &&& rel_weapons_phase(w5, post, fire)
        }
}

impl World {
    /// The weapons phase of a tick: firing, collision resolution, the
    /// explosion lifecycle and the end-of-tick flush.
    fn tick_weapons(&mut self, fire: bool)
        requires
            old(self).wf(),
        ensures
            final(self).wf(),
            final(self).win == old(self).win,
            final(self).next_enemy_spawn_ms == old(self).next_enemy_spawn_ms,
            final(self).next_player_spawn_ms == old(self).next_player_spawn_ms,
            rel_weapons_phase(*old(self), *final(self), fire),
    {
        let ghost p0 = *self;
        self.player_fire_system(fire);
        let ghost p1 = *self;
        proof {
            assert(rel_player_fire(p0, p1, fire)) by {
                reveal(rel_player_fire);
            }
        }
        self.enemy_fire_system();
        let ghost p2 = *self;
        proof {
            assert(rel_enemy_fire(p1, p2)) by {
                reveal(rel_enemy_fire);
            }
        }
        self.tick_resolve();
        proof {
            assert(rel_weapons_phase(p0, *self, fire)) by {
                reveal(rel_weapons_phase);
            }
        }
    }

    /// The resolution phase of a tick: collisions, explosions, flush.
    fn tick_resolve(&mut self)
        requires
            old(self).wf(),
        ensures
            final(self).wf(),
            final(self).win == old(self).win,
            final(self).next_enemy_spawn_ms == old(self).next_enemy_spawn_ms,
            final(self).next_player_spawn_ms == old(self).next_player_spawn_ms,
            rel_resolve_phase(*old(self), *final(self)),
    {
        let ghost p0 = *self;
        self.player_laser_hit_enemy_system();
        let ghost p1 = *self;
        proof {
            assert(rel_collision(p0, p1)) by {
                reveal(rel_collision);
            }
        }
        self.explosion_to_spawn_system();
        let ghost p2 = *self;
        proof {
            assert(rel_explosions(p1, p2)) by {
                reveal(rel_explosions);
            }
        }
        self.explosion_animation_system(crate::TICK_MS);
        let ghost p3 = *self;
        proof {
            assert(rel_explosion_anim(p2, p3, crate::TICK_MS)) by {
                reveal(rel_explosion_anim);
            }
        }
        self.flush_despawned();
        proof {
            assert(rel_flush(p3, *self)) by {
                reveal(rel_flush);
            }
            assert(rel_resolve_phase(p0, *self)) by {
                reveal(rel_resolve_phase);
            }
        }
    }

    /// One full simulation tick, running every system in the fixed
    /// order: spawn schedulers on their cadences, steering, motion and
    /// flight, weapons, collision resolution, the explosion lifecycle,
    /// and finally the flush of everything destroyed this tick.
    /// The ensures names the whole composition: the final state is
    /// reachable from the initial one by the eleven steps in order.
    pub fn tick(&mut self, now_ms: u64, left: bool, right: bool, fire: bool)
        requires
            old(self).wf(),
            now_ms < 0xffff_ffff_ffff_0000,
        ensures
            final(self).wf(),
            final(self).win == old(self).win,
            now_ms >= old(self).next_enemy_spawn_ms ==> final(self).next_enemy_spawn_ms == now_ms
                + crate::ENEMY_SPAWN_PERIOD_MS,
            now_ms < old(self).next_enemy_spawn_ms ==> final(self).next_enemy_spawn_ms == old(
                self,
            ).next_enemy_spawn_ms,
            now_ms >= old(self).next_player_spawn_ms ==> final(self).next_player_spawn_ms == now_ms
                + crate::PLAYER_SPAWN_PERIOD_MS,
            now_ms < old(self).next_player_spawn_ms ==> final(self).next_player_spawn_ms == old(
                self,
            ).next_player_spawn_ms,
            spec_tick_rel(*old(self), *final(self), now_ms, left, right, fire),
    {
        let maker = crate::formation::FormationMaker::new();
        let ghost t0 = *self;
        if now_ms >= self.next_enemy_spawn_ms {
            self.enemy_spawn_system(&maker);
            let ghost m1 = *self;
            self.next_enemy_spawn_ms = now_ms + crate::ENEMY_SPAWN_PERIOD_MS;
            proof {
                assert(rel_enemy_spawn(t0, m1)) by {
                    reveal(rel_enemy_spawn);
                }
                assert(*self == World {
                    next_enemy_spawn_ms: (now_ms + crate::ENEMY_SPAWN_PERIOD_MS) as u64,
                    ..m1
                });
                assert(rel_enemy_scheduler(t0, *self, now_ms)) by {
                    reveal(rel_enemy_scheduler);
                }
            }
        } else {
            proof {
                assert(rel_enemy_scheduler(t0, *self, now_ms)) by {
                    reveal(rel_enemy_scheduler);
                }
            }
        }
        let ghost w1 = *self;
        if now_ms >= self.next_player_spawn_ms {
            self.player_spawn_system(now_ms);
            let ghost m2 = *self;
            self.next_player_spawn_ms = now_ms + crate::PLAYER_SPAWN_PERIOD_MS;
            proof {
                assert(rel_player_spawn(w1, m2, now_ms)) by {
                    reveal(rel_player_spawn);
                }
                assert(*self == World {
                    next_player_spawn_ms: (now_ms + crate::PLAYER_SPAWN_PERIOD_MS) as u64,
                    ..m2
                });
                assert(rel_player_scheduler(w1, *self, now_ms)) by {
                    reveal(rel_player_scheduler);
                }
            }
        } else {
            proof {
                assert(rel_player_scheduler(w1, *self, now_ms)) by {
                    reveal(rel_player_scheduler);
                }
            }
        }
        let ghost w2 = *self;
        self.player_keyboard_event_system(left, right);
        let ghost w3 = *self;
        proof {
            assert(rel_keyboard(w2, w3, left, right)) by {
                reveal(rel_keyboard);
            }
        }
        self.movable_system();
        let ghost w4 = *self;
        proof {
            assert(rel_movable(w3, w4)) by {
                reveal(rel_movable);
            }
        }
        self.enemy_move_system();
        let ghost w5 = *self;
        proof {
            assert(rel_flight(w4, w5)) by {
                reveal(rel_flight);
            }
        }
        self.tick_weapons(fire);
        proof {
            assert(spec_tick_rel(t0, *self, now_ms, left, right, fire)) by {
                reveal(spec_tick_rel);
            }
        }
    }
}

} // verus!
