//! Movement, combat resolution, damage, XP and the attack/move exclusivity.

use adventure_core::action::{Action, ActionType, AreaAttack, MeleeAttack};
use adventure_core::controller::{AiBehavior, ChasePlayerBehavior, Controller, InputCommand};
use adventure_core::coords::Direction;
use adventure_core::entity::{Entity, EntityKind};
use adventure_core::logger::Logger;
use adventure_core::map::WorldMap;

fn human_at(position: (i32, i32, i32)) -> Entity {
    Entity::new(
        EntityKind::Human,
        String::from("Human"),
        position,
        Controller::Player,
    )
}

fn sheep_at(position: (i32, i32, i32)) -> Entity {
    Entity::new(
        EntityKind::Sheep,
        String::from("Sheep"),
        position,
        Controller::AI(AiBehavior::ChasePlayer(ChasePlayerBehavior {})),
    )
}

#[test]
fn human_attacks_sheep_twice_and_gains_xp() {
    // a Human (strength 5, base melee damage 10) attacks a Sheep (hp 30)
    let mut entities = vec![human_at((0, 0, 0)), sheep_at((0, 1, 0))];
    let mut map = WorldMap::new();
    let mut logger = Logger::new();
    let ctrl = Controller::Player;

    ctrl.handle_entity_movement(&mut entities, 0, 0, 1, 0, &mut map, &mut logger);
    // 30 - min(15, 30) = 15, and the mover stays put
    assert_eq!(entities[1].stats.hp, 15);
    assert_eq!(entities[0].position, (0, 0, 0));
    assert_eq!(logger.logs.len(), 1);
    assert_eq!(logger.logs[0], "@ attacks S (-15 PV)");

    ctrl.handle_entity_movement(&mut entities, 0, 0, 1, 0, &mut map, &mut logger);
    // second identical attack: hp 0, and the attacker receives xp_drop = 10
    assert_eq!(entities[1].stats.hp, 0);
    assert_eq!(entities[0].position, (0, 0, 0));
    // damage message first, then the XP messages, in that order
    assert_eq!(logger.logs[1], "@ attacks S (-15 PV) and it died");
    assert_eq!(logger.logs[2], "6 xp needed for next level");
    assert_eq!(logger.logs[3], "@ gained 10 XP");
    assert_eq!(logger.logs[4], "@ reached level 2");
    assert_eq!(logger.logs.len(), 5);
    // 10 XP pays the 6 needed for level 2 and leaves 4 over
    assert_eq!(entities[0].level_manager.level, 2);
    assert_eq!(entities[0].level_manager.current_xp, 4);
    // level-up growth: +10% max hp (rounded up), fully restored, +1 attributes
    assert_eq!(entities[0].stats.max_hp, 110);
    assert_eq!(entities[0].stats.hp, 110);
    assert_eq!(entities[0].stats.strength, 6);
}

#[test]
fn attacking_a_corpse_grants_no_second_xp() {
    let mut entities = vec![human_at((0, 0, 0)), sheep_at((0, 1, 0))];
    let mut map = WorldMap::new();
    let mut logger = Logger::new();
    let ctrl = Controller::Player;
    ctrl.handle_entity_movement(&mut entities, 0, 0, 1, 0, &mut map, &mut logger);
    ctrl.handle_entity_movement(&mut entities, 0, 0, 1, 0, &mut map, &mut logger);
    let xp_after_kill = entities[0].level_manager.current_xp;
    let level_after_kill = entities[0].level_manager.level;
    // the target is already dead: no duplicate XP or death handling
    ctrl.handle_entity_movement(&mut entities, 0, 0, 1, 0, &mut map, &mut logger);
    assert_eq!(entities[0].level_manager.current_xp, xp_after_kill);
    assert_eq!(entities[0].level_manager.level, level_after_kill);
    assert_eq!(logger.logs.last().unwrap(), "@ attacks S (-0 PV)");
}

#[test]
fn moving_onto_empty_walkable_tile_updates_position_without_combat() {
    let mut entities = vec![human_at((5, 5, 0))];
    let mut map = WorldMap::new();
    map.load_chunk(0, 0, 0);
    let mut logger = Logger::new();
    let ctrl = Controller::Player;
    ctrl.handle_entity_movement(&mut entities, 0, 1, 0, 0, &mut map, &mut logger);
    assert_eq!(entities[0].position, (6, 5, 0));
    assert_eq!(entities[0].direction, Direction::East);
    // never invokes combat
    assert!(logger.logs.is_empty());
    assert_eq!(entities[0].stats.hp, 100);
}

#[test]
fn moving_onto_blocked_tile_is_a_silent_no_op() {
    let mut entities = vec![human_at((1, 0, 0))];
    let mut map = WorldMap::new();
    map.load_chunk(0, 0, 0);
    let mut logger = Logger::new();
    let ctrl = Controller::Player;
    // (0, 0, 0) holds the generated wall
    ctrl.handle_entity_movement(&mut entities, 0, -1, 0, 0, &mut map, &mut logger);
    assert_eq!(entities[0].position, (1, 0, 0));
    assert_eq!(entities[0].direction, Direction::West);
    assert!(logger.logs.is_empty());
}

#[test]
fn moving_onto_living_target_attacks_but_never_displaces() {
    let mut entities = vec![human_at((3, 3, 0)), sheep_at((4, 3, 0))];
    let mut map = WorldMap::new();
    map.load_chunk(0, 0, 0);
    let mut logger = Logger::new();
    let ctrl = Controller::Player;
    ctrl.handle_entity_movement(&mut entities, 0, 1, 0, 0, &mut map, &mut logger);
    // collision resolves to attack-in-place, never displacement
    assert_eq!(entities[0].position, (3, 3, 0));
    assert_eq!(entities[1].position, (4, 3, 0));
    // and at least one action's effect was invoked
    assert!(logger.logs.len() >= 1);
    assert!(entities[1].stats.hp < 30);
}

#[test]
fn melee_damage_includes_the_equipped_weapon() {
    // the player carries the test sword: 10 + 5 + 1000, clamped by hp
    let mut entities = vec![Entity::player((0, 0, 0)), sheep_at((0, 1, 0))];
    let mut map = WorldMap::new();
    let mut logger = Logger::new();
    let ctrl = Controller::Player;
    ctrl.handle_entity_movement(&mut entities, 0, 0, 1, 0, &mut map, &mut logger);
    assert_eq!(entities[1].stats.hp, 0);
    assert_eq!(logger.logs[0], "@ attacks S (-30 PV) and it died");
}

#[test]
fn mana_cost_gates_actions_silently() {
    let costly = Action::Area(AreaAttack::new("blast", 10, 5, 2, ActionType::Fire, 30));
    let mut sheep = sheep_at((0, 0, 0));
    // a sheep has no mana: the action is skipped, nothing is deducted
    assert!(!costly.handle_mana_cost(&mut sheep.stats));
    assert_eq!(sheep.stats.mana, 0);
    let mut human = human_at((0, 0, 0));
    assert!(costly.handle_mana_cost(&mut human.stats));
    assert_eq!(human.stats.mana, 70);
    let free = Action::Melee(MeleeAttack::new("melee", 10, ActionType::Physical));
    assert!(free.handle_mana_cost(&mut sheep.stats));
    assert_eq!(sheep.stats.mana, 0);
}

#[test]
fn area_attack_hits_everything_in_radius_around_target() {
    let caster = human_at((0, 0, 0));
    let mut entities = vec![
        caster,
        sheep_at((3, 1, 0)), // distance 1 from (3, 0): hit
        sheep_at((5, 0, 0)), // distance 2: hit
        sheep_at((6, 0, 0)), // distance 3: out of the radius
        sheep_at((3, 0, 1)), // other layer: untouched
    ];
    let mut logger = Logger::new();
    let blast = Action::Area(AreaAttack::new("blast", 10, 5, 2, ActionType::Fire, 0));
    blast.affect(&mut entities, 0, (3, 0, 0), &mut logger);
    // damage is 10 + strength 5 = 15
    assert_eq!(entities[1].stats.hp, 15);
    assert_eq!(entities[2].stats.hp, 15);
    assert_eq!(entities[3].stats.hp, 30);
    assert_eq!(entities[4].stats.hp, 30);
    // one line per entity hit, then the summary
    assert_eq!(logger.logs.len(), 3);
    assert_eq!(logger.logs[0], "@ attacks S (-15 PV)");
    assert_eq!(logger.logs[1], "@ attacks S (-15 PV)");
    assert_eq!(logger.logs[2], "@ attacks blast and hits 2 entitys (-15 PV)");
}

#[test]
fn area_attack_missing_everyone_reports_it() {
    let mut entities = vec![human_at((0, 0, 0))];
    let mut logger = Logger::new();
    let blast = Action::Area(AreaAttack::new("blast", 10, 5, 1, ActionType::Fire, 0));
    blast.affect(&mut entities, 0, (9, 9, 0), &mut logger);
    assert_eq!(entities[0].stats.hp, 100);
    assert_eq!(logger.logs.len(), 1);
    assert_eq!(logger.logs[0], "@ attacks blast but does not reach any entities");
}

#[test]
fn chase_behavior_steps_toward_the_player() {
    let behavior = ChasePlayerBehavior {};
    let entities = vec![human_at((10, 2, 0)), sheep_at((4, 2, 1))];
    // from the sheep toward the player: +x, flat y, -z
    assert_eq!(behavior.decide_movement(&entities, 1), (1, 0, -1));
    // with no player anywhere, the AI stands still
    let lonely = vec![sheep_at((4, 2, 1)), sheep_at((0, 0, 0))];
    assert_eq!(behavior.decide_movement(&lonely, 0), (0, 0, 0));
}

#[test]
fn player_input_maps_to_unit_steps() {
    let mut entities = vec![human_at((5, 5, 0))];
    let mut map = WorldMap::new();
    map.load_chunk(0, 0, 0);
    let mut logger = Logger::new();
    let ctrl = Controller::Player;
    ctrl.handle_player_input(&mut entities, 0, InputCommand::Up, &mut map, &mut logger);
    assert_eq!(entities[0].position, (5, 4, 0));
    ctrl.handle_player_input(&mut entities, 0, InputCommand::Right, &mut map, &mut logger);
    assert_eq!(entities[0].position, (6, 4, 0));
    ctrl.handle_player_input(&mut entities, 0, InputCommand::Wait, &mut map, &mut logger);
    assert_eq!(entities[0].position, (6, 4, 0));
}

#[test]
fn interact_command_goes_through_the_player_path() {
    let mut map = WorldMap::new();
    map.load_chunk(0, 0, 0);
    assert!(map.add_structure_at(
        (5, 4, 0),
        adventure_core::structure::Structure::Door(adventure_core::structure::Door::new())
    ));
    let mut entities = vec![human_at((5, 5, 0))];
    let mut logger = Logger::new();
    let ctrl = Controller::Player;
    ctrl.handle_player_input(&mut entities, 0, InputCommand::Interact, &mut map, &mut logger);
    assert_eq!(logger.logs[0], "5 4 0");
    assert_eq!(logger.logs[1], "open door");
    assert!(map.get_tile((5, 4, 0)).unwrap().walkable());
}

#[test]
fn ai_ticks_feed_the_same_resolution_path() {
    let mut map = WorldMap::new();
    map.load_chunk(0, 0, 0);
    let mut entities = vec![human_at((8, 5, 0)), sheep_at((5, 5, 0))];
    let mut logger = Logger::new();
    let ctrl = entities[1].controller;
    // the sheep chases the player: one step east
    ctrl.update_entity(&mut entities, 1, InputCommand::Wait, &mut map, &mut logger);
    assert_eq!(entities[1].position, (6, 5, 0));
    // adjacent now? two more steps bring it into attack range
    ctrl.update_entity(&mut entities, 1, InputCommand::Wait, &mut map, &mut logger);
    assert_eq!(entities[1].position, (7, 5, 0));
    ctrl.update_entity(&mut entities, 1, InputCommand::Wait, &mut map, &mut logger);
    // the player's tile is occupied: the sheep attacks instead of moving
    assert_eq!(entities[1].position, (7, 5, 0));
    assert!(entities[0].stats.hp < 100);
    assert_eq!(logger.logs.last().unwrap(), "S attacks @ (-11 PV)");
}
