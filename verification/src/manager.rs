//! The entity manager: owns every entity and runs the per-tick update cycle.
//!
//! Entities act in collection order; the entity at the current index gets the
//! whole arena plus its index, so no two code paths mutate the same entity in
//! one resolution. Entities whose hp reached zero migrate to the dead
//! collection once per tick, after everyone has acted.

use vstd::prelude::*;

use crate::camera::{visibility_refreshed, Camera};
use crate::controller::{
    lemma_tick_step_preserves_wf, spec_first_player, tick_step_resolves, Controller, InputCommand,
};
use crate::entity::Entity;
use crate::logger::Logger;
use crate::map::WorldMap;

verus! {

/// How far the player sees when a tick refreshes visibility.
pub const VIEW_RANGE: i32 = 50;

/// Whether an entity is still alive.
pub open spec fn spec_alive(e: Entity) -> bool {
    e.stats.hp > 0
}

/// The first entity standing at `c`, scanning from `i`.
pub open spec fn spec_first_at(s: Seq<Entity>, c: (i32, i32, i32), i: int) -> Option<int>
    decreases s.len() - i,
        when 0 <= i <= s.len()
{
    if i >= s.len() {
        None
    } else if s[i].position == c {
        Some(i)
    } else {
        spec_first_at(s, c, i + 1)
    }
}

/// Every element a filter keeps comes from the original sequence.
proof fn lemma_filter_elements<A>(s: Seq<A>, pred: spec_fn(A) -> bool)
    ensures
        forall|i: int|
            0 <= i < s.filter(pred).len() ==> s.contains(#[trigger] s.filter(pred)[i]),
    decreases s.len(),
{
    reveal(Seq::filter);
    if s.len() > 0 {
        lemma_filter_elements(s.drop_last(), pred);
        assert forall|i: int|
            0 <= i < s.filter(pred).len() implies s.contains(#[trigger] s.filter(pred)[i]) by {
            let f = s.filter(pred);
            if i < s.drop_last().filter(pred).len() {
                assert(s.drop_last().contains(s.drop_last().filter(pred)[i]));
                let w = choose|w: int|
                    0 <= w < s.drop_last().len() && s.drop_last()[w] == s.drop_last().filter(
                        pred,
                    )[i];
                assert(s[w] == f[i]);
            } else {
                assert(f[i] == s.last());
            }
        }
    }
}

/// The living and the dead partition the collection.
proof fn lemma_alive_partition(s: Seq<Entity>)
    ensures
        s.filter(|e: Entity| spec_alive(e)).len() + s.filter(|e: Entity| !spec_alive(e)).len()
            == s.len(),
    decreases s.len(),
{
    reveal(Seq::filter);
    if s.len() > 0 {
        lemma_alive_partition(s.drop_last());
    }
}

/// A valid tick trace: `trace[j]` holds the entities, map and log just
/// before the entity at index `j` acts, plus the map between its step and
/// the visibility refresh. Each entity resolves exactly once, in collection
/// order, through `tick_step_resolves` (the whole arena plus its own index),
/// and whenever the acting entity is the player, the map's visibility is
/// refreshed at the player's post-step position with `VIEW_RANGE`.
/// `s_end`/`m_end`/`l_end` are the entities, map and log after the last step.
pub open spec fn tick_trace_valid(
    input: InputCommand,
    s0: Seq<Entity>,
    m0: WorldMap,
    logs0: Seq<String>,
    trace: Seq<(Seq<Entity>, WorldMap, Seq<String>, WorldMap)>,
    s_end: Seq<Entity>,
    m_end: WorldMap,
    l_end: Seq<String>,
) -> bool {
    let n = trace.len() as int;
    &&& (if n == 0 {
        s_end == s0 && m_end == m0 && l_end == logs0
    } else {
        trace[0].0 == s0 && trace[0].1 == m0 && trace[0].2 == logs0
    })
    &&& (forall|j: int|
        0 <= j < n ==> {
            let pre = #[trigger] trace[j];
            let post_entities = if j + 1 < n {
                trace[j + 1].0
            } else {
                s_end
            };
            let post_map = if j + 1 < n {
                trace[j + 1].1
            } else {
                m_end
            };
            let post_logs = if j + 1 < n {
                trace[j + 1].2
            } else {
                l_end
            };
            &&& tick_step_resolves(input, pre.0, j, pre.1, pre.3, pre.2, post_logs, post_entities)
            &&& (if pre.0[j].controller is Player {
                visibility_refreshed(pre.3, post_map, post_entities[j].position, VIEW_RANGE)
            } else {
                post_map == pre.3
            })
        })
}

/// Owns all entities, split into the living and the dead.
pub struct EntityManager {
    /// Entities that still act each tick (an entity that died this tick stays
    /// here until the tick's migration).
    pub entities: Vec<Entity>,
    /// Entities kept for rendering and lookup after death.
    pub dead_entities: Vec<Entity>,
}

impl EntityManager {
    /// Every owned entity is well-formed.
    pub open spec fn wf(&self) -> bool {
        &&& (forall|i: int| 0 <= i < self.entities@.len() ==> (#[trigger] self.entities@[i]).wf())
        &&& (forall|i: int|
            0 <= i < self.dead_entities@.len() ==> (#[trigger] self.dead_entities@[i]).wf())
    }

    /// A manager holding just the player at the origin.
    pub fn new() -> (r: EntityManager)
        ensures
            r.wf(),
            r.entities@.len() == 1,
            r.entities@[0].controller is Player,
            r.entities@[0].position == (0i32, 0i32, 0i32),
            r.dead_entities@.len() == 0,
    {
        let mut entities: Vec<Entity> = Vec::new();
        entities.push(Entity::player((0, 0, 0)));
        EntityManager { entities, dead_entities: Vec::new() }
    }

    /// Hands an entity to the manager.
    pub fn add_entity(&mut self, entity: Entity)
        requires
            old(self).wf(),
            entity.wf(),
        ensures
            final(self).wf(),
            final(self).entities@ == old(self).entities@.push(entity),
            final(self).dead_entities == old(self).dead_entities,
    {
        self.entities.push(entity);
    }

    /// The first entity (living first, dead second) standing at the given
    /// coordinates.
    pub fn find_entity_at(&self, global_coordinates: (i32, i32, i32)) -> (r: Option<&Entity>)
        ensures
            match spec_first_at(self.entities@, global_coordinates, 0) {
                Some(i) => r is Some && *r->Some_0 == self.entities@[i],
                None => match spec_first_at(self.dead_entities@, global_coordinates, 0) {
                    Some(i) => r is Some && *r->Some_0 == self.dead_entities@[i],
                    None => r is None,
                },
            },
    {
        let mut i: usize = 0;
        let n = self.entities.len();
        while i < n
            invariant
                n == self.entities@.len(),
                0 <= i <= n,
                spec_first_at(self.entities@, global_coordinates, 0) == spec_first_at(
                    self.entities@,
                    global_coordinates,
                    i as int,
                ),
            decreases n - i,
        {
            let p = self.entities[i].position;
            if p.0 == global_coordinates.0 && p.1 == global_coordinates.1 && p.2
                == global_coordinates.2 {
                return Some(&self.entities[i]);
            }
            i = i + 1;
        }
        let mut j: usize = 0;
        let m = self.dead_entities.len();
        while j < m
            invariant
                m == self.dead_entities@.len(),
                0 <= j <= m,
                spec_first_at(self.entities@, global_coordinates, 0) is None,
                spec_first_at(self.dead_entities@, global_coordinates, 0) == spec_first_at(
                    self.dead_entities@,
                    global_coordinates,
                    j as int,
                ),
            decreases m - j,
        {
            let p = self.dead_entities[j].position;
            if p.0 == global_coordinates.0 && p.1 == global_coordinates.1 && p.2
                == global_coordinates.2 {
                return Some(&self.dead_entities[j]);
            }
            j = j + 1;
        }
        None
    }

    /// How many living entities are held, counting from `i`.
    pub open spec fn spec_count_living(s: Seq<Entity>, i: int) -> int
        decreases s.len() - i,
        when 0 <= i <= s.len()
    {
        if i >= s.len() {
            0
        } else {
            (if spec_alive(s[i]) {
                1int
            } else {
                0int
            }) + Self::spec_count_living(s, i + 1)
        }
    }

    /// Counts the entities that are still alive (saturating at `u32::MAX`).
    pub fn count_living_entities(&self) -> (r: u32)
        ensures
            r as int == vstd::math::min(
                Self::spec_count_living(self.entities@, 0),
                u32::MAX as int,
            ),
    {
        let n = self.entities.len();
        let mut i: usize = n;
        let mut counter: u32 = 0;
        while i > 0
            invariant
                n == self.entities@.len(),
                0 <= i <= n,
                counter as int == vstd::math::min(
                    Self::spec_count_living(self.entities@, i as int),
                    u32::MAX as int,
                ),
            decreases i,
        {
            i = i - 1;
            if self.entities[i].stats.hp > 0 {
                if counter < u32::MAX {
                    counter = counter + 1;
                }
            }
        }
        counter
    }

    /// The player entity, when one is held.
    pub fn get_player(&self) -> (r: Option<&Entity>)
        ensures
            match spec_first_player(self.entities@, 0) {
                Some(i) => r is Some && *r->Some_0 == self.entities@[i],
                None => r is None,
            },
    {
        let mut i: usize = 0;
        let n = self.entities.len();
        while i < n
            invariant
                n == self.entities@.len(),
                0 <= i <= n,
                spec_first_player(self.entities@, 0) == spec_first_player(
                    self.entities@,
                    i as int,
                ),
            decreases n - i,
        {
            if self.entities[i].is_player() {
                return Some(&self.entities[i]);
            }
            i = i + 1;
        }
        None
    }

    /// The player's position, when a player is held.
    pub fn get_player_position(&self) -> (r: Option<(i32, i32, i32)>)
        ensures
            match spec_first_player(self.entities@, 0) {
                Some(i) => r == Some(self.entities@[i].position),
                None => r is None,
            },
    {
        match self.get_player() {
            Some(player) => Some(player.position),
            None => None,
        }
    }

    /// Migrates every entity whose hp reached zero from the living to the
    /// dead collection, keeping both orders.
    pub fn handle_dead_entities(&mut self)
        requires
            old(self).wf(),
        ensures
            final(self).wf(),
            final(self).entities@ == old(self).entities@.filter(|e: Entity| spec_alive(e)),
            final(self).dead_entities@ == old(self).dead_entities@ + old(self).entities@.filter(
                |e: Entity| !spec_alive(e),
            ),
    {
        let ghost orig = self.entities@;
        let ghost dead0 = self.dead_entities@;
        let mut i: usize = 0;
        let ghost k: int = 0;
        proof {
            assert(orig.take(0).filter(|e: Entity| spec_alive(e)) =~= Seq::<Entity>::empty()) by {
                assert(orig.take(0) =~= Seq::<Entity>::empty());
                reveal_with_fuel(Seq::filter, 1);
            }
            assert(orig.take(0).filter(|e: Entity| !spec_alive(e)) =~= Seq::<Entity>::empty()) by {
                assert(orig.take(0) =~= Seq::<Entity>::empty());
                reveal_with_fuel(Seq::filter, 1);
            }
        }
        while i < self.entities.len()
            invariant
                old(self).wf(),
                orig == old(self).entities@,
                dead0 == old(self).dead_entities@,
                0 <= k <= orig.len(),
                self.entities@.len() == orig.len() - k + i,
                i as int == orig.take(k).filter(|e: Entity| spec_alive(e)).len(),
                self.entities@ == orig.take(k).filter(|e: Entity| spec_alive(e)) + orig.skip(k),
                self.dead_entities@ == dead0 + orig.take(k).filter(|e: Entity| !spec_alive(e)),
            decreases orig.len() - k,
        {
            proof {
                assert(orig.take(k + 1).drop_last() =~= orig.take(k));
                assert(orig.take(k + 1).last() == orig[k]);
                reveal_with_fuel(Seq::filter, 2);
                assert(self.entities@[i as int] == orig[k]);
            }
            if self.entities[i].stats.hp == 0 {
                let e = self.entities.remove(i);
                self.dead_entities.push(e);
                proof {
                    assert(self.entities@ =~= orig.take(k + 1).filter(|e: Entity| spec_alive(e))
                        + orig.skip(k + 1));
                    assert(self.dead_entities@ =~= dead0 + orig.take(k + 1).filter(
                        |e: Entity| !spec_alive(e),
                    ));
                }
            } else {
                i = i + 1;
                proof {
                    assert(self.entities@ =~= orig.take(k + 1).filter(|e: Entity| spec_alive(e))
                        + orig.skip(k + 1));
                    assert(self.dead_entities@ =~= dead0 + orig.take(k + 1).filter(
                        |e: Entity| !spec_alive(e),
                    ));
                }
            }
            proof {
                k = k + 1;
            }
        }
        proof {
            assert(orig.take(orig.len() as int) =~= orig);
            assert(orig.skip(orig.len() as int) =~= Seq::<Entity>::empty());
            assert(self.entities@ =~= orig.filter(|e: Entity| spec_alive(e)));
            assert(self.dead_entities@ =~= dead0 + orig.filter(|e: Entity| !spec_alive(e)));
            lemma_filter_elements(orig, |e: Entity| spec_alive(e));
            lemma_filter_elements(orig, |e: Entity| !spec_alive(e));
            assert forall|j: int|
                0 <= j < self.entities@.len() implies (#[trigger] self.entities@[j]).wf() by {
                assert(orig.contains(self.entities@[j]));
                let w = choose|w: int| 0 <= w < orig.len() && orig[w] == self.entities@[j];
                assert(orig[w].wf());
            }
            assert forall|j: int|
                0 <= j < self.dead_entities@.len() implies (
            #[trigger] self.dead_entities@[j]).wf() by {
                if j >= dead0.len() {
                    let f = orig.filter(|e: Entity| !spec_alive(e));
                    assert(self.dead_entities@[j] == f[j - dead0.len()]);
                    assert(orig.contains(f[j - dead0.len()]));
                    let w = choose|w: int|
                        0 <= w < orig.len() && orig[w] == f[j - dead0.len()];
                    assert(orig[w].wf());
                }
            }
        }
    }

    /// Runs one tick: every entity resolves its step in collection order
    /// through the shared resolution path (the player consumes the input; AI
    /// entities chase), the map's visibility is refreshed at the player's
    /// post-step position right after the player acts, and entities that died
    /// migrate to the dead collection at the end of the tick. The returned
    /// ghost value is the tick's trace: the state before each entity's step,
    /// plus the entity collection just before the migration.
    pub fn update(
        &mut self,
        key_code: InputCommand,
        camera: &Camera,
        map: &mut WorldMap,
        logger: &mut Logger,
    ) -> (trace: Ghost<(Seq<(Seq<Entity>, WorldMap, Seq<String>, WorldMap)>, Seq<Entity>)>)
        requires
            old(self).wf(),
            old(map).wf(),
        ensures
            final(self).wf(),
            final(map).wf(),
            final(logger).max_displayed() == old(logger).max_displayed(),
            // the tick: every entity stepped exactly once, in collection order
            trace@.0.len() == old(self).entities@.len(),
            tick_trace_valid(
                key_code,
                old(self).entities@,
                *old(map),
                old(logger).logs@,
                trace@.0,
                trace@.1,
                *final(map),
                final(logger).logs@,
            ),
            // then the dead migrated, in order, and nobody else
            final(self).entities@ == trace@.1.filter(|e: Entity| spec_alive(e)),
            final(self).dead_entities@ == old(self).dead_entities@ + trace@.1.filter(
                |e: Entity| !spec_alive(e),
            ),
            // after the tick, every entity still in the living collection is alive
            forall|i: int|
                0 <= i < final(self).entities@.len() ==> spec_alive(
                    #[trigger] final(self).entities@[i],
                ),
            // the dead are never forgotten
            final(self).dead_entities@.len() >= old(self).dead_entities@.len(),
            forall|i: int|
                0 <= i < old(self).dead_entities@.len() ==> #[trigger] final(self).dead_entities@[i] == old(self).dead_entities@[i],
            // entities are moved, never created or destroyed, by the tick
            final(self).entities@.len() + final(self).dead_entities@.len() == old(self).entities@.len() + old(self).dead_entities@.len(),
    {
        let size = self.entities.len();
        let ghost s0 = self.entities@;
        let ghost m0 = *map;
        let ghost logs0 = logger.logs@;
        let ghost mut trace: Seq<(Seq<Entity>, WorldMap, Seq<String>, WorldMap)> = Seq::empty();
        let mut i: usize = 0;
        while i < size
            invariant
                size == s0.len(),
                s0 == old(self).entities@,
                m0 == *old(map),
                logs0 == old(logger).logs@,
                size == self.entities@.len(),
                0 <= i <= size,
                self.wf(),
                map.wf(),
                self.dead_entities == old(self).dead_entities,
                logger.max_displayed() == old(logger).max_displayed(),
                trace.len() == i,
                tick_trace_valid(
                    key_code,
                    s0,
                    m0,
                    logs0,
                    trace,
                    self.entities@,
                    *map,
                    logger.logs@,
                ),
            decreases size - i,
        {
            let ctrl = self.entities[i].controller;
            let is_player_turn = match ctrl {
                Controller::Player => true,
                _ => false,
            };
            let ghost s_pre = self.entities@;
            let ghost m_pre = *map;
            let ghost l_pre = logger.logs@;
            let ghost trace_pre = trace;
            ctrl.update_entity(&mut self.entities, i, key_code, map, logger);
            proof {
                lemma_tick_step_preserves_wf(
                    key_code,
                    s_pre,
                    i as int,
                    m_pre,
                    *map,
                    l_pre,
                    logger.logs@,
                    self.entities@,
                );
            }
            let ghost m_mid = *map;
            if is_player_turn {
                let pos = self.entities[i].position;
                camera.update_visibility(pos, VIEW_RANGE, map);
            }
            proof {
                trace = trace.push((s_pre, m_pre, l_pre, m_mid));
                assert forall|j: int| 0 <= j < trace.len() as int implies {
                    let pre = #[trigger] trace[j];
                    let post_entities = if j + 1 < trace.len() as int {
                        trace[j + 1].0
                    } else {
                        self.entities@
                    };
                    let post_map = if j + 1 < trace.len() as int {
                        trace[j + 1].1
                    } else {
                        *map
                    };
                    let post_logs = if j + 1 < trace.len() as int {
                        trace[j + 1].2
                    } else {
                        logger.logs@
                    };
                    &&& tick_step_resolves(
                        key_code,
                        pre.0,
                        j,
                        pre.1,
                        pre.3,
                        pre.2,
                        post_logs,
                        post_entities,
                    )
                    &&& (if pre.0[j].controller is Player {
                        visibility_refreshed(pre.3, post_map, post_entities[j].position, VIEW_RANGE)
                    } else {
                        post_map == pre.3
                    })
                } by {
                    if j < trace_pre.len() as int {
                        assert(trace[j] == trace_pre[j]);
                        if j + 1 < trace.len() as int {
                            assert(trace[j + 1] == (if j + 1 < trace_pre.len() as int {
                                trace_pre[j + 1]
                            } else {
                                (s_pre, m_pre, l_pre, m_mid)
                            }));
                        }
                    } else {
                        assert(trace[j] == (s_pre, m_pre, l_pre, m_mid));
                    }
                }
            }
            i = i + 1;
        }
        let ghost before_migration = self.entities@;
        self.handle_dead_entities();
        proof {
            assert forall|j: int|
                0 <= j < self.entities@.len() implies spec_alive(
                #[trigger] self.entities@[j],
            ) by {
                before_migration.lemma_filter_pred(|e: Entity| spec_alive(e), j);
            }
            lemma_alive_partition(before_migration);
        }
        Ghost((trace, before_migration))
    }
}

} // verus!
