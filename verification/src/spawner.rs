//! Cooldown-gated, weighted-random entity spawning.
//!
//! Randomness comes from the rand crate behind trusted wrappers whose
//! contracts state only what holds of every outcome: a sampled kind index is
//! in range with nonzero weight, and a sampled offset lies within its bounds.
//! The decision logic around those draws is verified: a spawn happens only on
//! a walkable, unoccupied tile while the living population is below the cap.

use vstd::prelude::*;

use rand::distr::Distribution;

use crate::action::Action;
use crate::controller::{spec_first_player, AiBehavior, ChasePlayerBehavior, Controller};
use crate::coords::Direction;
use crate::entity::{Entity, EntityKind};
use crate::manager::{spec_alive, spec_first_at, EntityManager};
use crate::map::WorldMap;
use vstd::string::StringExecFns;

verus! {

/// How the spawner behaves: cadence, population cap, placement and the
/// weighted distribution of kinds.
pub struct SpawnerConfiguration {
    /// Minimum milliseconds between spawns.
    pub interval_ms: u64,
    /// Spawns happen only while fewer living entities exist.
    pub max_entities: u32,
    /// Chebyshev radius of the placement square.
    pub spawn_radius: i32,
    /// Place near the player rather than the world origin.
    pub spawn_around_player: bool,
    /// Entity kinds with their relative weights.
    pub spawn_chances: Vec<(EntityKind, u32)>,
}

impl Default for SpawnerConfiguration {
    /// Every three seconds, up to ten entities, within 20 tiles of the
    /// player: mostly sheep, some humans, the rare dragon.
    fn default() -> (r: SpawnerConfiguration)
        ensures
            r.interval_ms == 3000,
            r.max_entities == 10,
            r.spawn_radius == 20,
            r.spawn_around_player,
            r.spawn_chances@.map_values(|c: (EntityKind, u32)| c.0) == seq![
                EntityKind::Human,
                EntityKind::Sheep,
                EntityKind::Dragon,
            ],
            r.spawn_chances@.map_values(|c: (EntityKind, u32)| c.1) == seq![100u32, 500u32, 1u32],
    {
        let mut spawn_chances: Vec<(EntityKind, u32)> = Vec::new();
        spawn_chances.push((EntityKind::Human, 100));
        spawn_chances.push((EntityKind::Sheep, 500));
        spawn_chances.push((EntityKind::Dragon, 1));
        proof {
            assert(spawn_chances@.map_values(|c: (EntityKind, u32)| c.0) =~= seq![
                EntityKind::Human,
                EntityKind::Sheep,
                EntityKind::Dragon,
            ]);
            assert(spawn_chances@.map_values(|c: (EntityKind, u32)| c.1) =~= seq![
                100u32,
                500u32,
                1u32,
            ]);
        }
        SpawnerConfiguration {
            interval_ms: 3000,
            max_entities: 10,
            spawn_radius: 20,
            spawn_around_player: true,
            spawn_chances,
        }
    }
}

/// Relies on rand's `WeightedIndex::new` and `Distribution::sample` with the
/// thread-local generator: a sampled index always addresses a weight that is
/// present and nonzero; `new` reports an error on an empty list, a zero total
/// or an overflowing total, which becomes `None`.
#[verifier::external_body]
fn sample_weighted(weights: &Vec<u32>) -> (r: Option<usize>)
    ensures
        match r {
            Some(i) => i < weights@.len() && weights@[i as int] > 0,
            None => true,
        },
{
    let dist = match rand::distr::weighted::WeightedIndex::new(weights.iter().copied()) {
        Ok(d) => d,
        Err(_) => {
            return None;
        },
    };
    Some(dist.sample(&mut rand::rng()))
}

/// Relies on rand's `Rng::random_range` over an inclusive range: the draw
/// lies within the bounds. An empty range panics, so the bounds must be
/// ordered.
#[verifier::external_body]
fn random_in_range(lo: i32, hi: i32) -> (r: i32)
    requires
        lo <= hi,
    ensures
        lo <= r <= hi,
{
    rand::Rng::random_range(&mut rand::rng(), lo..=hi)
}

/// Milliseconds elapsed on the caller's clock since `last_ms` (zero when the
/// clock reads earlier than the last spawn).
pub open spec fn spec_elapsed(now_ms: u64, last_ms: u64) -> int {
    if now_ms >= last_ms {
        now_ms - last_ms
    } else {
        0
    }
}

/// The placement base: the player's position when spawning around the player
/// (the origin when none exists), the world origin otherwise.
pub open spec fn spec_spawn_base(config: SpawnerConfiguration, s: Seq<Entity>) -> (i32, i32, i32) {
    if config.spawn_around_player {
        match spec_first_player(s, 0) {
            Some(i) => s[i].position,
            None => (0i32, 0i32, 0i32),
        }
    } else {
        (0i32, 0i32, 0i32)
    }
}

/// The effective placement radius: a non-positive configuration collapses to
/// zero.
pub open spec fn spec_spawn_radius(config: SpawnerConfiguration) -> int {
    if config.spawn_radius > 0 {
        config.spawn_radius as int
    } else {
        0
    }
}

/// A freshly created AI chaser: the kind's default stats and actions, the
/// kind's name, ten XP on death, level one, bare equipment, facing north.
pub open spec fn is_fresh_spawn(e: Entity) -> bool {
    &&& e.controller == Controller::AI(AiBehavior::ChasePlayer(ChasePlayerBehavior {}))
    &&& e.stats == e.kind.spec_stats()
    &&& e.name@ == e.kind.spec_name()
    &&& e.xp_drop == 10
    &&& e.level_manager.level == 1
    &&& e.level_manager.current_xp == 0
    &&& e.level_manager.xp_curve.base == 2
    &&& e.actions@.map_values(|a: Action| a@) == e.kind.spec_actions()
    &&& e.equipment@.len() == 0
    &&& e.inventory.items@.len() == 0
    &&& e.direction == Direction::North
    &&& e.wf()
}

/// Appending an entity raises the living count by one exactly when it is
/// alive.
proof fn lemma_count_living_push(s: Seq<Entity>, e: Entity, i: int)
    requires
        0 <= i <= s.len(),
    ensures
        EntityManager::spec_count_living(s.push(e), i) == EntityManager::spec_count_living(s, i)
            + (if spec_alive(e) {
            1int
        } else {
            0int
        }),
    decreases s.len() - i,
{
    if i < s.len() {
        assert(s.push(e)[i] == s[i]);
        lemma_count_living_push(s, e, i + 1);
    } else {
        assert(s.push(e)[i] == e);
        assert(EntityManager::spec_count_living(s.push(e), i + 1) == 0);
        assert(EntityManager::spec_count_living(s, i) == 0);
    }
}

/// Every entity kind starts alive.
proof fn lemma_kinds_start_alive(k: EntityKind)
    ensures
        k.spec_stats().hp > 0,
{
}

/// Periodically adds weighted-random entities to the world.
pub struct Spawner {
    pub config: SpawnerConfiguration,
    /// When the last spawn happened, in the caller's millisecond clock.
    pub last_spawn_ms: u64,
}

impl Spawner {
    /// A spawner whose cooldown starts at the given clock value.
    pub fn new(config: SpawnerConfiguration, now_ms: u64) -> (r: Spawner)
        ensures
            r.config == config,
            r.last_spawn_ms == now_ms,
    {
        Spawner { config, last_spawn_ms: now_ms }
    }

    /// Places one freshly sampled spawn, deterministically: the spot is the
    /// base (player or origin) displaced by the given offsets, on the base's
    /// layer. Exactly when the spot fits world coordinates, its tile is
    /// loaded and walkable, and no entity (living or dead) stands there, the
    /// cooldown clock restarts; a fresh AI entity of `chosen_kind` joins
    /// exactly when additionally the living population is below the cap.
    /// Anything else changes nothing.
    pub fn spawn_at(
        &mut self,
        now_ms: u64,
        chosen_kind: EntityKind,
        offset_x: i32,
        offset_y: i32,
        entity_manager: &mut EntityManager,
        map: &WorldMap,
    )
        requires
            old(entity_manager).wf(),
            map.wf(),
        ensures
            final(self).config == old(self).config,
            final(entity_manager).wf(),
            final(entity_manager).dead_entities == old(entity_manager).dead_entities,
            ({
                let base = spec_spawn_base(old(self).config, old(entity_manager).entities@);
                let sx = base.0 + offset_x;
                let sy = base.1 + offset_y;
                if !(i32::MIN <= sx <= i32::MAX && i32::MIN <= sy <= i32::MAX) {
                    // the spot falls outside the world: nothing changes
                    *final(entity_manager) == *old(entity_manager) && *final(self) == *old(self)
                } else {
                    let spot = ((sx as i32), (sy as i32), base.2);
                    let sound = (match map.spec_get_tile(spot.0 as int, spot.1 as int, spot.2) {
                        Some(t) => t.spec_walkable(),
                        None => false,
                    }) && spec_first_at(old(entity_manager).entities@, spot, 0) is None
                        && spec_first_at(old(entity_manager).dead_entities@, spot, 0) is None;
                    if !sound {
                        // blocked, occupied or unloaded: nothing changes
                        *final(entity_manager) == *old(entity_manager) && *final(self) == *old(
                            self,
                        )
                    } else {
                        &&& final(self).last_spawn_ms == now_ms
                        &&& (if EntityManager::spec_count_living(
                            old(entity_manager).entities@,
                            0,
                        ) < old(self).config.max_entities {
                            let spawned = final(entity_manager).entities@.last();
                            &&& final(entity_manager).entities@ == old(
                                entity_manager,
                            ).entities@.push(spawned)
                            &&& EntityManager::spec_count_living(
                                final(entity_manager).entities@,
                                0,
                            ) == EntityManager::spec_count_living(
                                old(entity_manager).entities@,
                                0,
                            ) + 1
                            &&& is_fresh_spawn(spawned)
                            &&& spawned.kind == chosen_kind
                            &&& spawned.position == spot
                        } else {
                            *final(entity_manager) == *old(entity_manager)
                        })
                    }
                }
            }),
    {
        let player_position = match entity_manager.get_player_position() {
            Some(p) => p,
            None => (0, 0, 0),
        };
        let (base_x, base_y, layer) = if self.config.spawn_around_player {
            player_position
        } else {
            (0, 0, 0)
        };

        let sx64 = base_x as i64 + offset_x as i64;
        let sy64 = base_y as i64 + offset_y as i64;
        if sx64 < i32::MIN as i64 || sx64 > i32::MAX as i64 || sy64 < i32::MIN as i64 || sy64
            > i32::MAX as i64 {
            return ;
        }
        let spawn_x = sx64 as i32;
        let spawn_y = sy64 as i32;
        let spot = (spawn_x, spawn_y, layer);

        let can_spawn = match map.get_tile(spot) {
            Some(tile) => tile.walkable(),
            None => false,
        };
        if can_spawn && entity_manager.find_entity_at(spot).is_none() {
            self.last_spawn_ms = now_ms;
            if entity_manager.count_living_entities() < self.config.max_entities {
                let new_entity = Entity::new(
                    chosen_kind,
                    String::from_str(chosen_kind.name()),
                    spot,
                    Controller::AI(AiBehavior::ChasePlayer(ChasePlayerBehavior {})),
                );
                let ghost fresh = new_entity;
                entity_manager.add_entity(new_entity);
                proof {
                    lemma_kinds_start_alive(chosen_kind);
                    lemma_count_living_push(old(entity_manager).entities@, fresh, 0);
                    assert(is_fresh_spawn(fresh));
                }
            }
        }
    }

    /// Attempts one spawn at clock value `now_ms`: nothing happens before the
    /// cooldown elapses; otherwise a kind is sampled from the configured
    /// weighted distribution and an offset within the radius is drawn, and
    /// `spawn_at` places the result. A failed attempt changes nothing except,
    /// when only the cap blocked it, the cooldown clock.
    pub fn try_spawn(&mut self, now_ms: u64, entity_manager: &mut EntityManager, map: &WorldMap)
        requires
            old(entity_manager).wf(),
            map.wf(),
        ensures
            final(self).config == old(self).config,
            final(entity_manager).wf(),
            final(entity_manager).dead_entities == old(entity_manager).dead_entities,
            // before the cooldown elapses, nothing changes at all
            spec_elapsed(now_ms, old(self).last_spawn_ms) < old(self).config.interval_ms ==> (
            *final(entity_manager) == *old(entity_manager) && *final(self) == *old(self)),
            ({
                // a failed attempt changes nothing
                ||| (*final(entity_manager) == *old(entity_manager) && *final(self) == *old(self))
                // a sound spot was found but the cap blocked it: only the clock restarts
                ||| (spec_elapsed(now_ms, old(self).last_spawn_ms)
                    >= old(self).config.interval_ms && *final(entity_manager) == *old(
                    entity_manager,
                ) && final(self).last_spawn_ms == now_ms && EntityManager::spec_count_living(
                    old(entity_manager).entities@,
                    0,
                ) >= old(self).config.max_entities)
                // exactly one fresh entity joined, and the cooldown restarts
                ||| (spec_elapsed(now_ms, old(self).last_spawn_ms)
                    >= old(self).config.interval_ms && ({
                    let spawned = final(entity_manager).entities@.last();
                    let base = spec_spawn_base(old(self).config, old(entity_manager).entities@);
                    let rad = spec_spawn_radius(old(self).config);
                    &&& final(entity_manager).entities@ == old(entity_manager).entities@.push(
                        spawned,
                    )
                    // the living count rises by exactly one, from below the cap
                    &&& EntityManager::spec_count_living(final(entity_manager).entities@, 0)
                        == EntityManager::spec_count_living(old(entity_manager).entities@, 0) + 1
                    &&& EntityManager::spec_count_living(old(entity_manager).entities@, 0) < old(
                        self,
                    ).config.max_entities
                    // a fresh AI chaser of a kind from the distribution's support
                    &&& is_fresh_spawn(spawned)
                    &&& (exists|i: int|
                        0 <= i < old(self).config.spawn_chances@.len() && spawned.kind == (
                        #[trigger] old(self).config.spawn_chances@[i]).0 && old(
                            self,
                        ).config.spawn_chances@[i].1 > 0)
                    // placed within the radius of the base, on the base's layer
                    &&& base.0 - rad <= spawned.position.0 <= base.0 + rad
                    &&& base.1 - rad <= spawned.position.1 <= base.1 + rad
                    &&& spawned.position.2 == base.2
                    // on a loaded, walkable tile nobody (living or dead) occupies
                    &&& (match map.spec_get_tile(
                        spawned.position.0 as int,
                        spawned.position.1 as int,
                        spawned.position.2,
                    ) {
                        Some(t) => t.spec_walkable(),
                        None => false,
                    })
                    &&& spec_first_at(old(entity_manager).entities@, spawned.position, 0) is None
                    &&& spec_first_at(
                        old(entity_manager).dead_entities@,
                        spawned.position,
                        0,
                    ) is None
                    &&& final(self).last_spawn_ms == now_ms
                }))
            }),
    {
        let elapsed = now_ms.saturating_sub(self.last_spawn_ms);
        if elapsed < self.config.interval_ms {
            return ;
        }

        let mut kinds: Vec<EntityKind> = Vec::new();
        let mut weights: Vec<u32> = Vec::new();
        let mut i: usize = 0;
        let n = self.config.spawn_chances.len();
        while i < n
            invariant
                n == self.config.spawn_chances@.len(),
                0 <= i <= n,
                kinds@.len() == i,
                weights@.len() == i,
                forall|j: int|
                    0 <= j < i ==> #[trigger] kinds@[j] == self.config.spawn_chances@[j].0,
                forall|j: int|
                    0 <= j < i ==> #[trigger] weights@[j] == self.config.spawn_chances@[j].1,
            decreases n - i,
        {
            let c = self.config.spawn_chances[i];
            kinds.push(c.0);
            weights.push(c.1);
            i = i + 1;
        }

        let idx: usize = match sample_weighted(&weights) {
            Some(idx) => idx,
            None => {
                return ;
            },
        };
        let chosen_kind: EntityKind = kinds[idx];

        let rad: i32 = if self.config.spawn_radius > 0 {
            self.config.spawn_radius
        } else {
            0
        };
        let offset_x = random_in_range(-rad, rad);
        let offset_y = random_in_range(-rad, rad);
        self.spawn_at(now_ms, chosen_kind, offset_x, offset_y, entity_manager, map);
        proof {
            assert(self.config.spawn_chances@[idx as int].0 == chosen_kind
                && self.config.spawn_chances@[idx as int].1 > 0);
        }
    }
}

} // verus!
