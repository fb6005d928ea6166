//! The spawn scheduler: population-capped enemy spawning and the
//! delay-gated player respawn. Both are silent no-ops when their guard
//! is false.

use vstd::prelude::*;

use crate::components::{Entity, Kind};
use crate::formation::FormationMaker;
use crate::world::{count_alive, lemma_count_push, World};

verus! {

impl World {
    /// Spawns one enemy on its formation's start point, if and only if
    /// the population is under the cap; the counter follows the store.
    pub fn enemy_spawn_system(&mut self, maker: &FormationMaker)
        requires
            old(self).wf(),
        ensures
            final(self).wf(),
            old(self).enemy_count.0 >= crate::ENEMY_MAX ==> *final(self) == *old(self),
            old(self).enemy_count.0 < crate::ENEMY_MAX ==> {
                &&& final(self).entities@.len() == old(self).entities@.len() + 1
                &&& (forall|j: int|
                    0 <= j < old(self).entities@.len() ==> final(self).entities@[j] == old(
                        self,
                    ).entities@[j])
                &&& final(self).entities@.last().kind == Kind::Enemy
                &&& final(self).entities@.last().alive
                &&& final(self).entities@.last().w_milli == crate::ENEMY_W_MILLI
                &&& final(self).entities@.last().h_milli == crate::ENEMY_H_MILLI
                &&& final(self).entities@.last().scale_milli == crate::SPRITE_SCALE_MILLI
                &&& final(self).entities@.last().formation is Some
                &&& final(self).entities@.last().formation->0.inv()
                &&& final(self).entities@.last().x
                    == final(self).entities@.last().formation->0.start_x
                &&& final(self).entities@.last().y
                    == final(self).entities@.last().formation->0.start_y
                &&& -((old(self).win.w / 2) as int) + crate::SPAWN_MARGIN_MILLI
                    <= final(self).entities@.last().x
                &&& final(self).entities@.last().x
                    < (old(self).win.w / 2) as int - crate::SPAWN_MARGIN_MILLI
                &&& -((old(self).win.h / 2) as int) + crate::SPAWN_MARGIN_MILLI
                    <= final(self).entities@.last().y
                &&& final(self).entities@.last().y
                    < (old(self).win.h / 2) as int - crate::SPAWN_MARGIN_MILLI
                &&& final(self).enemy_count.0 == old(self).enemy_count.0 + 1
            },
            final(self).win == old(self).win,
            final(self).kill_count == old(self).kill_count,
            final(self).player == old(self).player,
            final(self).next_enemy_spawn_ms == old(self).next_enemy_spawn_ms,
            final(self).next_player_spawn_ms == old(self).next_player_spawn_ms,
    {
        if self.enemy_count.0 < crate::ENEMY_MAX {
            let f = maker.make(&self.win);
            let e = Entity::new_enemy(f);
            proof {
                lemma_count_push(self.entities@, Kind::Enemy, e);
                lemma_count_push(self.entities@, Kind::Player, e);
            }
            self.entities.push(e);
            self.enemy_count.0 = self.enemy_count.0 + 1;
        }
    }

    /// Spawns the player ship at the bottom of the viewport, if and
    /// only if none is on and the respawn delay since the last death
    /// has fully elapsed (or none ever died).
    pub fn player_spawn_system(&mut self, now_ms: u64)
        requires
            old(self).wf(),
        ensures
            final(self).wf(),
            !old(self).player.spec_respawn_due(now_ms) ==> *final(self) == *old(self),
            old(self).player.spec_respawn_due(now_ms) ==> {
                &&& final(self).entities@.len() == old(self).entities@.len() + 1
                &&& (forall|j: int|
                    0 <= j < old(self).entities@.len() ==> final(self).entities@[j] == old(
                        self,
                    ).entities@[j])
                &&& final(self).entities@.last().kind == Kind::Player
                &&& final(self).entities@.last().alive
                &&& final(self).entities@.last().x == 0
                &&& final(self).entities@.last().y == -((old(self).win.h / 2) as int) + 49_250
                &&& final(self).entities@.last().vx == 0
                &&& final(self).entities@.last().vy == 0
                &&& final(self).entities@.last().movable
                &&& !final(self).entities@.last().auto_despawn
                &&& final(self).entities@.last().w_milli == crate::PLAYER_W_MILLI
                &&& final(self).entities@.last().h_milli == crate::PLAYER_H_MILLI
                &&& final(self).entities@.last().scale_milli == crate::SPRITE_SCALE_MILLI
                &&& final(self).player.on
                &&& final(self).player.last_shot_ms == old(self).player.last_shot_ms
            },
            final(self).win == old(self).win,
            final(self).enemy_count == old(self).enemy_count,
            final(self).kill_count == old(self).kill_count,
            final(self).next_enemy_spawn_ms == old(self).next_enemy_spawn_ms,
            final(self).next_player_spawn_ms == old(self).next_player_spawn_ms,
    {
        let due_delay: bool = match self.player.last_shot_ms {
            None => true,
            Some(t) => now_ms > t && now_ms - t > crate::PLAYER_RESPAWN_DELAY_MS,
        };
        if !self.player.on && due_delay {
            let e = Entity::new_player(&self.win);
            proof {
                lemma_count_push(self.entities@, Kind::Enemy, e);
                lemma_count_push(self.entities@, Kind::Player, e);
            }
            self.entities.push(e);
            self.player.spawned();
        }
    }
}

} // verus!
