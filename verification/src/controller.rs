//! Controllers: who drives an entity, and the single movement/attack
//! resolution path shared by the player and the AI.

use vstd::prelude::*;

use crate::action::{
    lemma_find_target_props, lemma_run_actions_preserves, spec_find_target, spec_run_actions,
};
use crate::coords::{sat_add_i32, Direction};
use crate::entity::Entity;
use crate::level::{spec_cascade, spec_xp_required, LevelManager};
use crate::logger::{lemma_logs_extended_compose, logs_extended_by, Logger};
use crate::map::WorldMap;
use crate::stats::sat_add_u32;
use crate::text::{append_u32, spec_decimal};
use vstd::string::StringExecFns;

verus! {

/// The abstract input commands the core accepts; raw keycode decoding is the
/// input layer's business.
#[derive(Clone, Copy, PartialEq, Eq, Structural, Debug)]
pub enum InputCommand {
    Up,
    Down,
    Left,
    Right,
    LayerUp,
    LayerDown,
    Interact,
    Wait,
}

/// The chase-the-player strategy: step toward the player, or stand still
/// when there is none.
#[derive(Clone, Copy, PartialEq, Eq, Structural, Debug)]
pub struct ChasePlayerBehavior {}

/// The closed set of AI strategies.
#[derive(Clone, Copy, PartialEq, Eq, Structural, Debug)]
pub enum AiBehavior {
    ChasePlayer(ChasePlayerBehavior),
}

/// Who controls an entity.
#[derive(Clone, Copy, PartialEq, Eq, Structural, Debug)]
pub enum Controller {
    Player,
    AI(AiBehavior),
}

/// The direction an entity faces after intending the step `(dx, dy)`:
/// the vertical component decides first, then the horizontal one overrides.
/// Direction updates before the collision check.
pub open spec fn spec_new_direction(d: Direction, dx: int, dy: int) -> Direction {
    let d1 = if dy < 0 {
        Direction::North
    } else if dy > 0 {
        Direction::South
    } else {
        d
    };
    if dx < 0 {
        Direction::West
    } else if dx > 0 {
        Direction::East
    } else {
        d1
    }
}

/// The arena after the actor turns toward its intended step.
pub open spec fn spec_after_direction(s: Seq<Entity>, actor: int, dx: int, dy: int) -> Seq<Entity> {
    s.update(
        actor,
        Entity { direction: spec_new_direction(s[actor].direction, dx, dy), ..s[actor] },
    )
}

/// The intended destination, in unbounded integers.
pub open spec fn spec_dest(e: Entity, dx: int, dy: int, dz: int) -> (int, int, int) {
    (e.position.0 + dx, e.position.1 + dy, e.position.2 + dz)
}

/// Whether the destination fits world coordinates at all.
pub open spec fn spec_dest_representable(d: (int, int, int)) -> bool {
    &&& i32::MIN <= d.0 <= i32::MAX
    &&& i32::MIN <= d.1 <= i32::MAX
    &&& i32::MIN <= d.2 <= i32::MAX
}

/// The `<n> xp needed for next level` log line.
pub open spec fn spec_xp_needed_message(lm: LevelManager) -> Seq<char> {
    spec_decimal(
        spec_xp_required(lm.xp_curve.base, sat_add_u32(lm.level as int, 1) as u32) as int,
    ) + " xp needed for next level"@
}

/// The attacker after an XP grant: the grant saturates into its pool and
/// every level-up it pays for is applied.
pub open spec fn spec_apply_xp(e: Entity, xp: u32) -> Entity {
    let start = LevelManager {
        level: e.level_manager.level,
        current_xp: sat_add_u32(e.level_manager.current_xp as int, xp as int) as u32,
        xp_curve: e.level_manager.xp_curve,
    };
    let after = spec_cascade(start, e.stats);
    Entity { level_manager: after.0, stats: after.1, ..e }
}

/// The log lines of an XP grant: the gain line, then a level line when the
/// grant raised the level.
pub open spec fn spec_xp_gain_messages(e: Entity, xp: u32) -> Seq<Seq<char>> {
    let sym = e.kind.spec_symbol();
    let gained = sym + " gained "@ + spec_decimal(xp as int) + " XP"@;
    if spec_apply_xp(e, xp).level_manager.level > e.level_manager.level {
        seq![gained, sym + " reached level "@ + spec_decimal(
            spec_apply_xp(e, xp).level_manager.level as int,
        )]
    } else {
        seq![gained]
    }
}

/// Index of the first entity other than `actor` standing at `c`.
fn find_target_at(entities: &Vec<Entity>, actor: usize, c: (i32, i32, i32)) -> (r: Option<usize>)
    ensures
        match r {
            Some(j) => spec_find_target(entities@, actor as int, c, 0) == Some(j as int),
            None => spec_find_target(entities@, actor as int, c, 0) is None,
        },
{
    let n = entities.len();
    let mut j: usize = 0;
    while j < n
        invariant
            n == entities@.len(),
            0 <= j <= n,
            spec_find_target(entities@, actor as int, c, 0) == spec_find_target(
                entities@,
                actor as int,
                c,
                j as int,
            ),
        decreases n - j,
    {
        if j != actor {
            let p = entities[j].position;
            if p.0 == c.0 && p.1 == c.1 && p.2 == c.2 {
                proof {
                    assert(spec_find_target(entities@, actor as int, c, j as int) == Some(
                        j as int,
                    ));
                }
                return Some(j);
            }
        }
        j = j + 1;
    }
    None
}

/// Grants the dead target's XP drop to the attacker, logging the gain and any
/// level-up.
fn handle_xp_gain(entities: &mut Vec<Entity>, actor: usize, xp: u32, logger: &mut Logger)
    requires
        actor < old(entities)@.len(),
        old(entities)@[actor as int].wf(),
    ensures
        final(entities)@ == old(entities)@.update(
            actor as int,
            spec_apply_xp(old(entities)@[actor as int], xp),
        ),
        logs_extended_by(
            old(logger).logs@,
            final(logger).logs@,
            spec_xp_gain_messages(old(entities)@[actor as int], xp),
        ),
        final(logger).max_displayed() == old(logger).max_displayed(),
{
    let sym = entities[actor].kind.symbol();
    let a = &mut entities[actor];
    let levels_gained = a.level_manager.add_xp(xp, &mut a.stats);
    let mut gained = String::new();
    gained.append(sym);
    gained.append(" gained ");
    append_u32(&mut gained, xp);
    gained.append(" XP");
    proof {
        assert(gained@ =~= old(entities)@[actor as int].kind.spec_symbol() + " gained "@
            + spec_decimal(xp as int) + " XP"@);
        assert(entities@ =~= old(entities)@.update(
            actor as int,
            spec_apply_xp(old(entities)@[actor as int], xp),
        ));
    }
    logger.push_message(gained);
    if levels_gained > 0 {
        let mut reached = String::new();
        reached.append(sym);
        reached.append(" reached level ");
        let lvl = entities[actor].level_manager.level;
        append_u32(&mut reached, lvl);
        proof {
            assert(reached@ =~= old(entities)@[actor as int].kind.spec_symbol()
                + " reached level "@ + spec_decimal(
                spec_apply_xp(old(entities)@[actor as int], xp).level_manager.level as int,
            ));
        }
        logger.push_message(reached);
    }
}

/// What one resolved step leaves behind: `s0`/`m0`/`logs0` are the entities,
/// map and log before the step, `s2`/`m1`/`logs1` after it.
pub open spec fn movement_resolves(
    s0: Seq<Entity>,
    actor: int,
    dx: int,
    dy: int,
    dz: int,
    m0: WorldMap,
    m1: WorldMap,
    logs0: Seq<String>,
    logs1: Seq<String>,
    s2: Seq<Entity>,
) -> bool {
    let e = s0[actor];
    let s1 = spec_after_direction(s0, actor, dx, dy);
    let d = spec_dest(e, dx, dy, dz);
    if !spec_dest_representable(d) {
        // a destination outside the world: only the turn happens
        s2 == s1 && m1 == m0 && logs1 == logs0
    } else {
        let dest = ((d.0 as i32), (d.1 as i32), (d.2 as i32));
        match spec_find_target(s1, actor, dest, 0) {
            Some(j) => {
                // attack in place: the actor never moves onto an occupied cell
                let run = spec_run_actions(s1, actor, dest, e.actions@, 0);
                let was_alive = s1[j].stats.hp > 0;
                let dead_now = run.0[j].stats.hp == 0;
                let attacker = run.0[actor];
                let xp = run.0[j].xp_drop;
                &&& m1 == m0
                &&& (was_alive && dead_now ==> s2 == run.0.update(
                    actor,
                    spec_apply_xp(attacker, xp),
                ) && logs_extended_by(
                    logs0,
                    logs1,
                    run.1 + seq![spec_xp_needed_message(attacker.level_manager)]
                        + spec_xp_gain_messages(attacker, xp),
                ))
                &&& (!(was_alive && dead_now) ==> s2 == run.0 && logs_extended_by(
                    logs0,
                    logs1,
                    run.1,
                ))
            },
            None => {
                // plain movement: committed exactly when the tile is walkable
                let moved = match m1.spec_get_tile(d.0, d.1, (d.2 as i32)) {
                    Some(t) => t.spec_walkable(),
                    None => false,
                };
                &&& s2 == s1.update(
                    actor,
                    Entity {
                        position: (if moved {
                            dest
                        } else {
                            e.position
                        }),
                        ..s1[actor]
                    },
                )
                &&& logs1 == logs0
                &&& (forall|cx: int, cy: int|
                    {
                        let ccx = crate::coords::spec_chunk_coord(d.0);
                        let ccy = crate::coords::spec_chunk_coord(d.1);
                        ccx - crate::map::LOAD_DISTANCE <= cx <= ccx + crate::map::LOAD_DISTANCE
                            && ccy - crate::map::LOAD_DISTANCE <= cy <= ccy
                            + crate::map::LOAD_DISTANCE && crate::map::valid_chunk_pos(cx, cy)
                    } ==> #[trigger] m1.spec_loaded(cx, cy, (d.2 as i32)))
                // the destination tile itself is loaded after the call
                &&& m1.spec_get_tile(d.0, d.1, (d.2 as i32)) is Some
                &&& (forall|cx: int, cy: int, z: i32|
                    m0.spec_loaded(cx, cy, z) ==> m1.spec_loaded(cx, cy, z) && m1.spec_layer(
                        cx,
                        cy,
                        z,
                    ) == m0.spec_layer(cx, cy, z))
                // layers loaded by this step carry freshly generated content
                &&& (forall|cx: int, cy: int, z: i32|
                    !m0.spec_loaded(cx, cy, z) && #[trigger] m1.spec_loaded(cx, cy, z)
                        ==> crate::map::is_generated_layer(
                        m1.spec_layer(cx, cy, z),
                        ((cx as i32), (cy as i32)),
                        z,
                    ))
            },
        }
    }
}

impl Controller {
    /// Resolves one intended step of the acting entity: its facing direction
    /// updates first; a living or dead entity on the destination turns the
    /// step into an attack in place (each affordable action is paid for and
    /// applied, and a target killed by the exchange grants its XP drop to the
    /// actor); an empty destination is moved onto after loading its chunk
    /// neighbourhood, exactly when its tile is walkable. An unrepresentable
    /// or blocked destination leaves the actor in place; nothing is an error.
    #[verifier::rlimit(100)]
    pub fn handle_entity_movement(
        &self,
        entities: &mut Vec<Entity>,
        actor: usize,
        dx: i32,
        dy: i32,
        dz: i32,
        map: &mut WorldMap,
        logger: &mut Logger,
    )
        requires
            actor < old(entities)@.len(),
            old(entities)@[actor as int].wf(),
            old(map).wf(),
        ensures
            final(map).wf(),
            final(entities)@.len() == old(entities)@.len(),
            final(logger).max_displayed() == old(logger).max_displayed(),
            movement_resolves(
                old(entities)@,
                actor as int,
                dx as int,
                dy as int,
                dz as int,
                *old(map),
                *final(map),
                old(logger).logs@,
                final(logger).logs@,
                final(entities)@,
            ),
    {
        let ghost s0 = entities@;
        // the step turns the actor before anything else
        {
            let a = &mut entities[actor];
            if dy < 0 {
                a.direction = Direction::North;
            } else if dy > 0 {
                a.direction = Direction::South;
            }
            if dx < 0 {
                a.direction = Direction::West;
            } else if dx > 0 {
                a.direction = Direction::East;
            }
        }
        proof {
            assert(entities@ =~= spec_after_direction(s0, actor as int, dx as int, dy as int));
        }
        let ghost s_dir = entities@;

        let px = entities[actor].position.0 as i64 + dx as i64;
        let py = entities[actor].position.1 as i64 + dy as i64;
        let pz = entities[actor].position.2 as i64 + dz as i64;
        let in_range = i32::MIN as i64 <= px && px <= i32::MAX as i64 && i32::MIN as i64 <= py && py
            <= i32::MAX as i64 && i32::MIN as i64 <= pz && pz <= i32::MAX as i64;
        if !in_range {
            return ;
        }
        let dest = (px as i32, py as i32, pz as i32);

        match find_target_at(entities, actor, dest) {
            Some(j) => {
                proof {
                    lemma_find_target_props(s_dir, actor as int, dest, 0);
                    assert(spec_find_target(s_dir, actor as int, dest, 0) == Some(j as int));
                }
                let was_alive = entities[j].stats.hp > 0;
                let ghost actions0 = entities@[actor as int].actions@;
                let ghost logs0 = logger.logs@;
                let ghost maxd0 = logger.max_displayed();
                let ghost map0 = *map;
                let ghost mut done: Seq<Seq<char>> = Seq::empty();
                let n_actions = entities[actor].actions.len();
                let mut k: usize = 0;
                while k < n_actions
                    invariant
                        0 <= k <= actions0.len(),
                        n_actions == actions0.len(),
                        actor < entities@.len(),
                        entities@.len() == s_dir.len(),
                        entities@[actor as int].actions@ == actions0,
                        entities@[actor as int].wf(),
                        *map == map0,
                        logger.max_displayed() == maxd0,
                        spec_run_actions(s_dir, actor as int, dest, actions0, 0).0
                            == spec_run_actions(entities@, actor as int, dest, actions0, k as int).0,
                        spec_run_actions(s_dir, actor as int, dest, actions0, 0).1 == done
                            + spec_run_actions(entities@, actor as int, dest, actions0, k as int).1,
                        logs_extended_by(logs0, logger.logs@, done),
                    decreases n_actions - k,
                {
                    let a = entities[actor].actions[k].clone();
                    proof {
                        assert(a == actions0[k as int]);
                    }
                    let ghost cur = entities@;
                    let can = a.handle_mana_cost(&mut entities[actor].stats);
                    if can {
                        proof {
                            assert(entities@ =~= cur.update(
                                actor as int,
                                crate::action::spec_pay(cur[actor as int], a.spec_mana_cost()),
                            ));
                        }
                        let ghost s_paid = entities@;
                        let ghost logs_before = logger.logs@;
                        a.affect(entities, actor, dest, logger);
                        proof {
                            let m = crate::action::spec_affect_messages(
                                a,
                                s_paid,
                                actor as int,
                                dest,
                            );
                            assert(spec_run_actions(cur, actor as int, dest, actions0, k as int).0
                                == spec_run_actions(
                                entities@,
                                actor as int,
                                dest,
                                actions0,
                                k + 1,
                            ).0);
                            assert(spec_run_actions(cur, actor as int, dest, actions0, k as int).1
                                == m + spec_run_actions(
                                entities@,
                                actor as int,
                                dest,
                                actions0,
                                k + 1,
                            ).1);
                            assert(done + (m + spec_run_actions(
                                entities@,
                                actor as int,
                                dest,
                                actions0,
                                k + 1,
                            ).1) =~= (done + m) + spec_run_actions(
                                entities@,
                                actor as int,
                                dest,
                                actions0,
                                k + 1,
                            ).1);
                            lemma_logs_extended_compose(
                                logs0,
                                logs_before,
                                logger.logs@,
                                done,
                                m,
                            );
                            done = done + m;
                        }
                    } else {
                        proof {
                            assert(entities@ == cur);
                            assert(spec_run_actions(cur, actor as int, dest, actions0, k as int)
                                == spec_run_actions(
                                entities@,
                                actor as int,
                                dest,
                                actions0,
                                k + 1,
                            ));
                        }
                    }
                    k = k + 1;
                }
                proof {
                    assert(spec_run_actions(s_dir, actor as int, dest, actions0, 0).0
                        == entities@);
                    assert(spec_run_actions(s_dir, actor as int, dest, actions0, 0).1 == done + Seq::<
                        Seq<char>,
                    >::empty());
                    assert(done + Seq::<Seq<char>>::empty() =~= done);
                    lemma_run_actions_preserves(s_dir, actor as int, dest, actions0, 0);
                }
                proof {
                    assert(s_dir == spec_after_direction(
                        s0,
                        actor as int,
                        dx as int,
                        dy as int,
                    ));
                    assert(actions0 == s0[actor as int].actions@);
                    assert(entities@ == spec_run_actions(
                        s_dir,
                        actor as int,
                        dest,
                        actions0,
                        0,
                    ).0);
                    assert(done == spec_run_actions(s_dir, actor as int, dest, actions0, 0).1);
                }
                if was_alive && entities[j].stats.hp == 0 {
                    let need = entities[actor].level_manager.xp_to_next_level();
                    let mut need_msg = String::new();
                    append_u32(&mut need_msg, need);
                    need_msg.append(" xp needed for next level");
                    proof {
                        assert(need_msg@ =~= spec_xp_needed_message(
                            entities@[actor as int].level_manager,
                        ));
                    }
                    let ghost logs_mid = logger.logs@;
                    logger.push_message(need_msg);
                    proof {
                        lemma_logs_extended_compose(
                            logs0,
                            logs_mid,
                            logger.logs@,
                            done,
                            seq![spec_xp_needed_message(entities@[actor as int].level_manager)],
                        );
                    }
                    let ghost logs_mid2 = logger.logs@;
                    let ghost attacker = entities@[actor as int];
                    let xp = entities[j].xp_drop;
                    handle_xp_gain(entities, actor, xp, logger);
                    proof {
                        lemma_logs_extended_compose(
                            logs0,
                            logs_mid2,
                            logger.logs@,
                            done + seq![spec_xp_needed_message(attacker.level_manager)],
                            spec_xp_gain_messages(attacker, xp),
                        );
                        let run = spec_run_actions(s_dir, actor as int, dest, actions0, 0);
                        assert(attacker == run.0[actor as int]);
                        assert(xp == run.0[j as int].xp_drop);
                        assert(entities@ == run.0.update(
                            actor as int,
                            spec_apply_xp(attacker, xp),
                        ));
                        assert((done + seq![spec_xp_needed_message(attacker.level_manager)])
                            + spec_xp_gain_messages(attacker, xp) =~= run.1 + seq![
                            spec_xp_needed_message(attacker.level_manager),
                        ] + spec_xp_gain_messages(attacker, xp));
                        assert(logs_extended_by(
                            logs0,
                            logger.logs@,
                            run.1 + seq![spec_xp_needed_message(attacker.level_manager)]
                                + spec_xp_gain_messages(attacker, xp),
                        ));
                        let e = s0[actor as int];
                        let d = spec_dest(e, dx as int, dy as int, dz as int);
                        assert(spec_dest_representable(d));
                        assert(s_dir[actor as int].position == e.position);
                        assert(px as int == d.0 && py as int == d.1 && pz as int == d.2);
                        assert(dest == (((d.0 as i32), (d.1 as i32), (d.2 as i32))));
                        assert(e.actions@ == actions0);
                        assert(spec_find_target(s_dir, actor as int, dest, 0) == Some(j as int));
                        assert(spec_run_actions(s_dir, actor as int, dest, e.actions@, 0) == run);
                        assert(was_alive == (s_dir[j as int].stats.hp > 0));
                        assert(run.0[j as int].stats.hp == 0);
                        assert(movement_resolves(
                            s0,
                            actor as int,
                            dx as int,
                            dy as int,
                            dz as int,
                            map0,
                            *map,
                            logs0,
                            logger.logs@,
                            entities@,
                        ));
                    }
                }
            },
            None => {
                map.load_around(dest);
                proof {
                    crate::coords::lemma_chunk_coord_bounds(dest.0 as int);
                    crate::coords::lemma_chunk_coord_bounds(dest.1 as int);
                    assert(map.spec_loaded(
                        crate::coords::spec_chunk_coord(dest.0 as int),
                        crate::coords::spec_chunk_coord(dest.1 as int),
                        dest.2,
                    ));
                }
                let walkable = match map.get_tile(dest) {
                    Some(t) => t.walkable(),
                    None => false,
                };
                if walkable {
                    let a = &mut entities[actor];
                    a.position = dest;
                }
                proof {
                    let e = s0[actor as int];
                    let moved = match map.spec_get_tile(
                        px as int,
                        py as int,
                        (pz as int) as i32,
                    ) {
                        Some(t) => t.spec_walkable(),
                        None => false,
                    };
                    assert(entities@ =~= s_dir.update(
                        actor as int,
                        Entity {
                            position: (if moved {
                                dest
                            } else {
                                e.position
                            }),
                            ..s_dir[actor as int]
                        },
                    ));
                }
            },
        }
    }
}

/// The `<x> <y> <z>` log line announcing which cell an interaction targets.
pub open spec fn spec_coords_message(c: (i32, i32, i32)) -> Seq<char> {
    crate::text::spec_decimal_i32(c.0 as int) + " "@ + crate::text::spec_decimal_i32(c.1 as int)
        + " "@ + crate::text::spec_decimal_i32(c.2 as int)
}

/// What one interaction leaves behind: the cell in front is announced; a
/// door or chest there resolves in place; stairs displace the actor one
/// layer through the movement resolver; a bare or unloaded tile does nothing
/// more.
pub open spec fn interact_resolves(
    s0: Seq<Entity>,
    actor: int,
    m0: WorldMap,
    m1: WorldMap,
    logs0: Seq<String>,
    logs1: Seq<String>,
    s2: Seq<Entity>,
) -> bool {
    let e = s0[actor];
    let front = (
        crate::coords::sat_add_i32(e.position.0 as int, e.direction.spec_offset().0) as i32,
        crate::coords::sat_add_i32(e.position.1 as int, e.direction.spec_offset().1) as i32,
        e.position.2,
    );
    let coords_msg = spec_coords_message(front);
    let st = (match m0.spec_get_tile(front.0 as int, front.1 as int, front.2) {
        Some(t) => t.structure,
        None => None,
    });
    match st {
        None => {
            &&& m1 == m0
            &&& s2 == s0
            &&& logs_extended_by(logs0, logs1, seq![coords_msg])
        },
        Some(st0) => {
            if st0 is Stairs {
                let ddz = if st0->Stairs_0.goes_up {
                    1int
                } else {
                    -1int
                };
                let mid = logs1.take(logs0.len() as int + 1);
                &&& logs1.len() >= logs0.len() + 1
                &&& logs_extended_by(logs0, mid, seq![coords_msg])
                &&& movement_resolves(s0, actor, 0, 0, ddz, m0, m1, mid, logs1, s2)
            } else {
                &&& s2 == s0
                &&& logs_extended_by(
                    logs0,
                    logs1,
                    seq![coords_msg] + st0.spec_interact_messages(),
                )
                &&& crate::map::structure_replaced(m0, m1, front, st0.spec_after_interact())
            }
        },
    }
}

/// What one entity's tick step leaves behind, by who controls it: the player
/// consumes the input (an interact command resolves the faced cell, anything
/// else is a movement intent); an AI feeds its chase decision into the same
/// movement resolution.
pub open spec fn tick_step_resolves(
    input: InputCommand,
    s0: Seq<Entity>,
    actor: int,
    m0: WorldMap,
    m1: WorldMap,
    logs0: Seq<String>,
    logs1: Seq<String>,
    s2: Seq<Entity>,
) -> bool {
    match s0[actor].controller {
        Controller::Player => (input is Interact ==> interact_resolves(
            s0,
            actor,
            m0,
            m1,
            logs0,
            logs1,
            s2,
        )) && (!(input is Interact) ==> movement_resolves(
            s0,
            actor,
            spec_input_delta(input).0,
            spec_input_delta(input).1,
            spec_input_delta(input).2,
            m0,
            m1,
            logs0,
            logs1,
            s2,
        )),
        Controller::AI(_) => movement_resolves(
            s0,
            actor,
            spec_chase_delta(s0, actor).0,
            spec_chase_delta(s0, actor).1,
            spec_chase_delta(s0, actor).2,
            m0,
            m1,
            logs0,
            logs1,
            s2,
        ),
    }
}

/// A tick step keeps every entity well-formed and the arena's size.
pub proof fn lemma_tick_step_preserves_wf(
    input: InputCommand,
    s0: Seq<Entity>,
    actor: int,
    m0: WorldMap,
    m1: WorldMap,
    logs0: Seq<String>,
    logs1: Seq<String>,
    s2: Seq<Entity>,
)
    requires
        tick_step_resolves(input, s0, actor, m0, m1, logs0, logs1, s2),
        0 <= actor < s0.len(),
        forall|i: int| 0 <= i < s0.len() ==> (#[trigger] s0[i]).wf(),
    ensures
        s2.len() == s0.len(),
        forall|i: int| 0 <= i < s2.len() ==> (#[trigger] s2[i]).wf(),
{
    match s0[actor].controller {
        Controller::Player => {
            if input is Interact {
                lemma_interact_preserves_wf(s0, actor, m0, m1, logs0, logs1, s2);
            } else {
                lemma_movement_preserves_wf(
                    s0,
                    actor,
                    spec_input_delta(input).0,
                    spec_input_delta(input).1,
                    spec_input_delta(input).2,
                    m0,
                    m1,
                    logs0,
                    logs1,
                    s2,
                );
            }
        },
        Controller::AI(_) => {
            lemma_movement_preserves_wf(
                s0,
                actor,
                spec_chase_delta(s0, actor).0,
                spec_chase_delta(s0, actor).1,
                spec_chase_delta(s0, actor).2,
                m0,
                m1,
                logs0,
                logs1,
                s2,
            );
        },
    }
}

/// Law: a step onto an occupied destination resolves to an attack in place —
/// no entity's position changes, and when the target was alive and the actor
/// could afford its first action, at least one combat message is emitted.
pub proof fn lemma_collision_attacks_in_place(
    s0: Seq<Entity>,
    actor: int,
    dx: int,
    dy: int,
    dz: int,
    m0: WorldMap,
    m1: WorldMap,
    logs0: Seq<String>,
    logs1: Seq<String>,
    s2: Seq<Entity>,
)
    requires
        movement_resolves(s0, actor, dx, dy, dz, m0, m1, logs0, logs1, s2),
        0 <= actor < s0.len(),
        spec_dest_representable(spec_dest(s0[actor], dx, dy, dz)),
        spec_find_target(
            spec_after_direction(s0, actor, dx, dy),
            actor,
            (
                (spec_dest(s0[actor], dx, dy, dz).0 as i32),
                (spec_dest(s0[actor], dx, dy, dz).1 as i32),
                (spec_dest(s0[actor], dx, dy, dz).2 as i32),
            ),
            0,
        ) is Some,
    ensures
        s2.len() == s0.len(),
        forall|i: int| 0 <= i < s0.len() ==> (#[trigger] s2[i]).position == s0[i].position,
        s0[actor].actions@.len() > 0 && s0[actor].actions@[0].spec_mana_cost()
            <= s0[actor].stats.mana ==> logs1.len() > logs0.len(),
{
    let e = s0[actor];
    let s1 = spec_after_direction(s0, actor, dx, dy);
    let d = spec_dest(e, dx, dy, dz);
    let dest = ((d.0 as i32), (d.1 as i32), (d.2 as i32));
    lemma_run_actions_preserves(s1, actor, dest, e.actions@, 0);
    if s0[actor].actions@.len() > 0 && s0[actor].actions@[0].spec_mana_cost()
        <= s0[actor].stats.mana {
        crate::action::lemma_combat_emits_message(s1, actor, dest, e.actions@);
    }
}

/// Law: a step onto an empty, walkable destination moves the actor there and
/// never invokes combat — no stats change and no message is emitted.
pub proof fn lemma_empty_move_never_fights(
    s0: Seq<Entity>,
    actor: int,
    dx: int,
    dy: int,
    dz: int,
    m0: WorldMap,
    m1: WorldMap,
    logs0: Seq<String>,
    logs1: Seq<String>,
    s2: Seq<Entity>,
)
    requires
        movement_resolves(s0, actor, dx, dy, dz, m0, m1, logs0, logs1, s2),
        0 <= actor < s0.len(),
        spec_dest_representable(spec_dest(s0[actor], dx, dy, dz)),
        spec_find_target(
            spec_after_direction(s0, actor, dx, dy),
            actor,
            (
                (spec_dest(s0[actor], dx, dy, dz).0 as i32),
                (spec_dest(s0[actor], dx, dy, dz).1 as i32),
                (spec_dest(s0[actor], dx, dy, dz).2 as i32),
            ),
            0,
        ) is None,
        (match m1.spec_get_tile(
            spec_dest(s0[actor], dx, dy, dz).0,
            spec_dest(s0[actor], dx, dy, dz).1,
            (spec_dest(s0[actor], dx, dy, dz).2 as i32),
        ) {
            Some(t) => t.spec_walkable(),
            None => false,
        }),
    ensures
        s2.len() == s0.len(),
        logs1 == logs0,
        s2[actor].position == (
            (spec_dest(s0[actor], dx, dy, dz).0 as i32),
            (spec_dest(s0[actor], dx, dy, dz).1 as i32),
            (spec_dest(s0[actor], dx, dy, dz).2 as i32),
        ),
        forall|i: int| 0 <= i < s0.len() ==> (#[trigger] s2[i]).stats == s0[i].stats,
{
}

/// A resolved step keeps every entity well-formed and the arena's size.
pub proof fn lemma_movement_preserves_wf(
    s0: Seq<Entity>,
    actor: int,
    dx: int,
    dy: int,
    dz: int,
    m0: WorldMap,
    m1: WorldMap,
    logs0: Seq<String>,
    logs1: Seq<String>,
    s2: Seq<Entity>,
)
    requires
        movement_resolves(s0, actor, dx, dy, dz, m0, m1, logs0, logs1, s2),
        0 <= actor < s0.len(),
        forall|i: int| 0 <= i < s0.len() ==> (#[trigger] s0[i]).wf(),
    ensures
        s2.len() == s0.len(),
        forall|i: int| 0 <= i < s2.len() ==> (#[trigger] s2[i]).wf(),
{
    let e = s0[actor];
    let s1 = spec_after_direction(s0, actor, dx, dy);
    let d = spec_dest(e, dx, dy, dz);
    assert(forall|i: int| 0 <= i < s1.len() ==> (#[trigger] s1[i]).wf());
    if spec_dest_representable(d) {
        let dest = ((d.0 as i32), (d.1 as i32), (d.2 as i32));
        match spec_find_target(s1, actor, dest, 0) {
            Some(j) => {
                lemma_run_actions_preserves(s1, actor, dest, e.actions@, 0);
                let run = spec_run_actions(s1, actor, dest, e.actions@, 0);
                assert(forall|i: int| 0 <= i < run.0.len() ==> (#[trigger] run.0[i]).wf());
                let was_alive = s1[j].stats.hp > 0;
                let dead_now = run.0[j].stats.hp == 0;
                if was_alive && dead_now {
                    let attacker = run.0[actor];
                    let xp = run.0[j].xp_drop;
                    let start = LevelManager {
                        level: attacker.level_manager.level,
                        current_xp: sat_add_u32(
                            attacker.level_manager.current_xp as int,
                            xp as int,
                        ) as u32,
                        xp_curve: attacker.level_manager.xp_curve,
                    };
                    crate::level::lemma_cascade_monotonic(start, attacker.stats);
                    assert(spec_apply_xp(attacker, xp).wf());
                }
            },
            None => {},
        }
    }
}

/// A resolved interaction keeps every entity well-formed and the arena's size.
pub proof fn lemma_interact_preserves_wf(
    s0: Seq<Entity>,
    actor: int,
    m0: WorldMap,
    m1: WorldMap,
    logs0: Seq<String>,
    logs1: Seq<String>,
    s2: Seq<Entity>,
)
    requires
        interact_resolves(s0, actor, m0, m1, logs0, logs1, s2),
        0 <= actor < s0.len(),
        forall|i: int| 0 <= i < s0.len() ==> (#[trigger] s0[i]).wf(),
    ensures
        s2.len() == s0.len(),
        forall|i: int| 0 <= i < s2.len() ==> (#[trigger] s2[i]).wf(),
{
    let e = s0[actor];
    let front = (
        crate::coords::sat_add_i32(e.position.0 as int, e.direction.spec_offset().0) as i32,
        crate::coords::sat_add_i32(e.position.1 as int, e.direction.spec_offset().1) as i32,
        e.position.2,
    );
    let st = (match m0.spec_get_tile(front.0 as int, front.1 as int, front.2) {
        Some(t) => t.structure,
        None => None,
    });
    match st {
        None => {},
        Some(st0) => {
            if st0 is Stairs {
                let ddz = if st0->Stairs_0.goes_up {
                    1int
                } else {
                    -1int
                };
                let mid = logs1.take(logs0.len() as int + 1);
                lemma_movement_preserves_wf(s0, actor, 0, 0, ddz, m0, m1, mid, logs1, s2);
            }
        },
    }
}

/// A resolved step never removes log entries: the log after is an extension
/// of the log before.
pub proof fn lemma_movement_logs_monotone(
    s0: Seq<Entity>,
    actor: int,
    dx: int,
    dy: int,
    dz: int,
    m0: WorldMap,
    m1: WorldMap,
    logs0: Seq<String>,
    logs1: Seq<String>,
    s2: Seq<Entity>,
)
    requires
        movement_resolves(s0, actor, dx, dy, dz, m0, m1, logs0, logs1, s2),
    ensures
        logs1.len() >= logs0.len(),
        forall|i: int| 0 <= i < logs0.len() ==> logs1[i] == logs0[i],
{
    let e = s0[actor];
    let s1 = spec_after_direction(s0, actor, dx, dy);
    let d = spec_dest(e, dx, dy, dz);
    if spec_dest_representable(d) {
        let dest = ((d.0 as i32), (d.1 as i32), (d.2 as i32));
        match spec_find_target(s1, actor, dest, 0) {
            Some(j) => {},
            None => {},
        }
    }
}

/// Resolves an explicit interact command: announces the cell the actor faces
/// and, when a structure stands there, interacts with it (doors toggle,
/// stairs displace the actor one layer through the movement resolver).
#[verifier::rlimit(100)]
pub fn handle_interact(
    entities: &mut Vec<Entity>,
    actor: usize,
    map: &mut WorldMap,
    logger: &mut Logger,
)
    requires
        actor < old(entities)@.len(),
        old(entities)@[actor as int].wf(),
        old(map).wf(),
    ensures
        final(map).wf(),
        final(entities)@.len() == old(entities)@.len(),
        final(logger).max_displayed() == old(logger).max_displayed(),
        interact_resolves(
            old(entities)@,
            actor as int,
            *old(map),
            *final(map),
            old(logger).logs@,
            final(logger).logs@,
            final(entities)@,
        ),
{
    let front = entities[actor].direction.coordinates_in_front(entities[actor].position);
    let mut msg = String::new();
    crate::text::append_i32(&mut msg, front.0);
    msg.append(" ");
    crate::text::append_i32(&mut msg, front.1);
    msg.append(" ");
    crate::text::append_i32(&mut msg, front.2);
    proof {
        assert(msg@ =~= spec_coords_message(front));
    }
    logger.push_message(msg);
    let ghost logs_mid = logger.logs@;
    match map.structure_at(front) {
        None => {
            proof {
                assert(interact_resolves(
                    old(entities)@,
                    actor as int,
                    *old(map),
                    *map,
                    old(logger).logs@,
                    logger.logs@,
                    entities@,
                ));
            }
        },
        Some(st) => {
            match st {
                crate::structure::Structure::Stairs(stairs) => {
                    let ddz: i32 = if stairs.goes_up {
                        1
                    } else {
                        -1
                    };
                    let ctrl = entities[actor].controller;
                    ctrl.handle_entity_movement(entities, actor, 0, 0, ddz, map, logger);
                    proof {
                        assert(logs_extended_by(
                            old(logger).logs@,
                            logs_mid,
                            seq![spec_coords_message(front)],
                        ));
                        assert(movement_resolves(
                            old(entities)@,
                            actor as int,
                            0,
                            0,
                            ddz as int,
                            *old(map),
                            *map,
                            logs_mid,
                            logger.logs@,
                            entities@,
                        ));
                        lemma_movement_logs_monotone(
                            old(entities)@,
                            actor as int,
                            0,
                            0,
                            ddz as int,
                            *old(map),
                            *map,
                            logs_mid,
                            logger.logs@,
                            entities@,
                        );
                        assert(logger.logs@.take(old(logger).logs@.len() as int + 1)
                            =~= logs_mid);
                        let e0 = old(entities)@[actor as int];
                        assert(front == ((sat_add_i32(
                            e0.position.0 as int,
                            e0.direction.spec_offset().0,
                        ) as i32), (sat_add_i32(
                            e0.position.1 as int,
                            e0.direction.spec_offset().1,
                        ) as i32), e0.position.2));
                        assert(st->Stairs_0 == stairs);
                        assert(ddz as int == (if stairs.goes_up {
                            1int
                        } else {
                            -1int
                        }));
                        assert(interact_resolves(
                            old(entities)@,
                            actor as int,
                            *old(map),
                            *map,
                            old(logger).logs@,
                            logger.logs@,
                            entities@,
                        ));
                    }
                },
                _ => {
                    let mut st2 = st;
                    let _displacement = st2.interact(logger);
                    map.add_structure_at(front, st2);
                    proof {
                        lemma_logs_extended_compose(
                            old(logger).logs@,
                            logs_mid,
                            logger.logs@,
                            seq![spec_coords_message(front)],
                            st.spec_interact_messages(),
                        );
                        assert(interact_resolves(
                            old(entities)@,
                            actor as int,
                            *old(map),
                            *map,
                            old(logger).logs@,
                            logger.logs@,
                            entities@,
                        ));
                    }
                },
            }
        },
    }
}

/// A mathematical sign: -1, 0 or 1.
pub open spec fn spec_signum(v: int) -> int {
    if v < 0 {
        -1
    } else if v > 0 {
        1
    } else {
        0
    }
}

/// The first player-controlled entity, scanning from `i`.
pub open spec fn spec_first_player(s: Seq<Entity>, i: int) -> Option<int>
    decreases s.len() - i,
        when 0 <= i <= s.len()
{
    if i >= s.len() {
        None
    } else if s[i].controller is Player {
        Some(i)
    } else {
        spec_first_player(s, i + 1)
    }
}

/// The unit step the chase strategy asks for: the sign of the difference to
/// the player's position per axis, or a standstill when there is no player.
pub open spec fn spec_chase_delta(s: Seq<Entity>, actor: int) -> (int, int, int) {
    match spec_first_player(s, 0) {
        None => (0int, 0int, 0int),
        Some(p) => (
            spec_signum(s[p].position.0 - s[actor].position.0),
            spec_signum(s[p].position.1 - s[actor].position.1),
            spec_signum(s[p].position.2 - s[actor].position.2),
        ),
    }
}

impl ChasePlayerBehavior {
    /// One unit step per axis toward the player, or a standstill when no
    /// player exists.
    pub fn decide_movement(&self, entities: &Vec<Entity>, actor: usize) -> (r: (i32, i32, i32))
        requires
            actor < entities@.len(),
        ensures
            r.0 == spec_chase_delta(entities@, actor as int).0,
            r.1 == spec_chase_delta(entities@, actor as int).1,
            r.2 == spec_chase_delta(entities@, actor as int).2,
    {
        let n = entities.len();
        let mut i: usize = 0;
        while i < n
            invariant
                n == entities@.len(),
                actor < n,
                0 <= i <= n,
                spec_first_player(entities@, 0) == spec_first_player(entities@, i as int),
            decreases n - i,
        {
            if entities[i].is_player() {
                let target = entities[i].position;
                let current = entities[actor].position;
                let sx = signum_i64(target.0 as i64 - current.0 as i64);
                let sy = signum_i64(target.1 as i64 - current.1 as i64);
                let sz = signum_i64(target.2 as i64 - current.2 as i64);
                return (sx, sy, sz);
            }
            i = i + 1;
        }
        (0, 0, 0)
    }
}

/// The sign of a 64-bit value, as an `i32` step.
fn signum_i64(v: i64) -> (r: i32)
    ensures
        r as int == spec_signum(v as int),
{
    if v < 0 {
        -1
    } else if v > 0 {
        1
    } else {
        0
    }
}

/// The movement delta a non-interact input command asks for.
pub open spec fn spec_input_delta(input: InputCommand) -> (int, int, int) {
    match input {
        InputCommand::Up => (0int, -1int, 0int),
        InputCommand::Down => (0int, 1int, 0int),
        InputCommand::Left => (-1int, 0int, 0int),
        InputCommand::Right => (1int, 0int, 0int),
        InputCommand::LayerUp => (0int, 0int, 1int),
        InputCommand::LayerDown => (0int, 0int, -1int),
        InputCommand::Interact => (0int, 0int, 0int),
        InputCommand::Wait => (0int, 0int, 0int),
    }
}

impl Controller {
    /// Feeds one player input into the shared resolution path: an interact
    /// command resolves the cell the actor faces; every other command is a
    /// movement intent (possibly a standstill).
    pub fn handle_player_input(
        &self,
        entities: &mut Vec<Entity>,
        actor: usize,
        input: InputCommand,
        map: &mut WorldMap,
        logger: &mut Logger,
    )
        requires
            actor < old(entities)@.len(),
            old(entities)@[actor as int].wf(),
            old(map).wf(),
        ensures
            final(map).wf(),
            final(entities)@.len() == old(entities)@.len(),
            final(logger).max_displayed() == old(logger).max_displayed(),
            input is Interact ==> interact_resolves(
                old(entities)@,
                actor as int,
                *old(map),
                *final(map),
                old(logger).logs@,
                final(logger).logs@,
                final(entities)@,
            ),
            !(input is Interact) ==> movement_resolves(
                old(entities)@,
                actor as int,
                spec_input_delta(input).0,
                spec_input_delta(input).1,
                spec_input_delta(input).2,
                *old(map),
                *final(map),
                old(logger).logs@,
                final(logger).logs@,
                final(entities)@,
            ),
    {
        match input {
            InputCommand::Interact => {
                handle_interact(entities, actor, map, logger);
            },
            _ => {
                let (dx, dy, dz): (i32, i32, i32) = match input {
                    InputCommand::Up => (0, -1, 0),
                    InputCommand::Down => (0, 1, 0),
                    InputCommand::Left => (-1, 0, 0),
                    InputCommand::Right => (1, 0, 0),
                    InputCommand::LayerUp => (0, 0, 1),
                    InputCommand::LayerDown => (0, 0, -1),
                    _ => (0, 0, 0),
                };
                self.handle_entity_movement(entities, actor, dx, dy, dz, map, logger);
            },
        }
    }

    /// Runs one tick of the acting entity: player input goes through
    /// `handle_player_input`; an AI decides its step and feeds it into the
    /// same movement resolution.
    pub fn update_entity(
        &self,
        entities: &mut Vec<Entity>,
        actor: usize,
        input: InputCommand,
        map: &mut WorldMap,
        logger: &mut Logger,
    )
        requires
            actor < old(entities)@.len(),
            old(entities)@[actor as int].wf(),
            old(map).wf(),
            *self == old(entities)@[actor as int].controller,
        ensures
            final(map).wf(),
            final(entities)@.len() == old(entities)@.len(),
            final(logger).max_displayed() == old(logger).max_displayed(),
            tick_step_resolves(
                input,
                old(entities)@,
                actor as int,
                *old(map),
                *final(map),
                old(logger).logs@,
                final(logger).logs@,
                final(entities)@,
            ),
    {
        match self {
            Controller::Player => {
                self.handle_player_input(entities, actor, input, map, logger);
            },
            Controller::AI(AiBehavior::ChasePlayer(behavior)) => {
                let (dx, dy, dz) = behavior.decide_movement(entities, actor);
                self.handle_entity_movement(entities, actor, dx, dy, dz, map, logger);
            },
        }
    }
}

} // verus!
