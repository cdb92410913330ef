//! The per-tick update cycle, death migration and the spawner.

use adventure_core::camera::Camera;
use adventure_core::controller::{AiBehavior, ChasePlayerBehavior, Controller, InputCommand};
use adventure_core::entity::{Entity, EntityKind};
use adventure_core::logger::Logger;
use adventure_core::manager::EntityManager;
use adventure_core::map::WorldMap;
use adventure_core::spawner::{Spawner, SpawnerConfiguration};

fn sheep_at(position: (i32, i32, i32)) -> Entity {
    Entity::new(
        EntityKind::Sheep,
        String::from("Sheep"),
        position,
        Controller::AI(AiBehavior::ChasePlayer(ChasePlayerBehavior {})),
    )
}

#[test]
fn manager_starts_with_the_player() {
    let manager = EntityManager::new();
    assert_eq!(manager.entities.len(), 1);
    assert!(manager.entities[0].is_player());
    assert_eq!(manager.get_player_position(), Some((0, 0, 0)));
    assert_eq!(manager.count_living_entities(), 1);
}

#[test]
fn find_entity_at_prefers_the_living() {
    let mut manager = EntityManager::new();
    manager.add_entity(sheep_at((2, 2, 0)));
    let found = manager.find_entity_at((2, 2, 0)).expect("sheep stands there");
    assert_eq!(found.kind, EntityKind::Sheep);
    assert!(manager.find_entity_at((9, 9, 0)).is_none());
    // kill the sheep and migrate it: it stays findable among the dead
    manager.entities[1].stats.hp = 0;
    manager.handle_dead_entities();
    assert_eq!(manager.entities.len(), 1);
    assert_eq!(manager.dead_entities.len(), 1);
    let corpse = manager.find_entity_at((2, 2, 0)).expect("corpse remains");
    assert_eq!(corpse.stats.hp, 0);
    assert_eq!(manager.count_living_entities(), 1);
}

#[test]
fn dead_entities_migrate_once_per_tick() {
    let mut manager = EntityManager::new();
    manager.add_entity(sheep_at((0, 1, 0)));
    manager.add_entity(sheep_at((0, 5, 0)));
    let camera = Camera::new((0, 0, 0));
    let mut map = WorldMap::default();
    let mut logger = Logger::new();
    // the player's test sword kills the adjacent sheep in one tick
    manager.update(InputCommand::Down, &camera, &mut map, &mut logger);
    assert_eq!(manager.dead_entities.len(), 1);
    assert_eq!(manager.dead_entities[0].kind, EntityKind::Sheep);
    // everyone left in the living collection is alive
    for e in manager.entities.iter() {
        assert!(e.stats.hp > 0);
    }
    // nothing is lost by migration
    assert_eq!(manager.entities.len() + manager.dead_entities.len(), 3);
}

#[test]
fn ticks_update_visibility_around_the_player() {
    let mut manager = EntityManager::new();
    let camera = Camera::new((0, 0, 0));
    let mut map = WorldMap::default();
    let mut logger = Logger::new();
    manager.update(InputCommand::Right, &camera, &mut map, &mut logger);
    // the player moved and sees its own tile
    let player = manager.get_player().unwrap();
    assert_eq!(player.position, (1, 0, 0));
    assert!(camera.is_visible_tile((1, 0, 0), &map));
}

#[test]
fn spawner_respects_the_cooldown() {
    let mut manager = EntityManager::new();
    let map = WorldMap::default();
    let config = SpawnerConfiguration::default();
    let mut spawner = Spawner::new(config, 0);
    // 3000 ms have not elapsed: nothing may happen
    spawner.try_spawn(100, &mut manager, &map);
    assert_eq!(manager.entities.len(), 1);
    assert_eq!(spawner.last_spawn_ms, 0);
}

#[test]
fn spawner_never_places_on_missing_or_blocked_tiles() {
    let mut manager = EntityManager::new();
    // an empty map: no tile is loaded, so no spawn can ever land
    let map = WorldMap::new();
    let mut spawner = Spawner::new(SpawnerConfiguration::default(), 0);
    for tick in 0..20u64 {
        spawner.try_spawn(3000 + tick * 3000, &mut manager, &map);
    }
    assert_eq!(manager.entities.len(), 1);
    assert_eq!(spawner.last_spawn_ms, 0);
}

#[test]
fn spawn_at_is_deterministic_about_its_spot() {
    let mut manager = EntityManager::new();
    let mut map = WorldMap::new();
    map.load_chunk(0, 0, 0);
    let mut spawner = Spawner::new(SpawnerConfiguration::default(), 0);
    // player stands at the origin: offset (5, 5) lands on plain grass
    spawner.spawn_at(7000, EntityKind::Sheep, 5, 5, &mut manager, &map);
    assert_eq!(manager.entities.len(), 2);
    let spawned = manager.entities.last().unwrap();
    assert_eq!(spawned.kind, EntityKind::Sheep);
    assert_eq!(spawned.position, (5, 5, 0));
    assert_eq!(spawned.stats.hp, 30);
    assert_eq!(spawned.xp_drop, 10);
    assert!(!spawned.is_player());
    assert_eq!(spawner.last_spawn_ms, 7000);

    // the generated wall at the chunk corner rejects a spawn; clock untouched
    let mut blocked = Spawner::new(SpawnerConfiguration::default(), 0);
    blocked.spawn_at(9000, EntityKind::Human, 0, 0, &mut manager, &map);
    assert_eq!(manager.entities.len(), 2);
    assert_eq!(blocked.last_spawn_ms, 0);

    // an occupied spot rejects a spawn too
    blocked.spawn_at(9000, EntityKind::Human, 5, 5, &mut manager, &map);
    assert_eq!(manager.entities.len(), 2);
    assert_eq!(blocked.last_spawn_ms, 0);

    // an unloaded spot rejects a spawn
    blocked.spawn_at(9000, EntityKind::Human, -3, -3, &mut manager, &map);
    assert_eq!(manager.entities.len(), 2);
    assert_eq!(blocked.last_spawn_ms, 0);
}

#[test]
fn spawner_fills_walkable_spots_up_to_the_cap() {
    let mut manager = EntityManager::new();
    let mut map = WorldMap::new();
    map.load_around((0, 0, 0));
    let mut spawner = Spawner::new(SpawnerConfiguration::default(), 0);
    let mut now: u64 = 0;
    for _ in 0..200 {
        now += 3000;
        let before = manager.entities.len();
        spawner.try_spawn(now, &mut manager, &map);
        let after = manager.entities.len();
        assert!(after == before || after == before + 1);
        if after > before {
            let spawned = manager.entities.last().unwrap();
            // placed on a loaded, walkable tile
            let tile = map.get_tile(spawned.position).expect("tile is loaded");
            assert!(tile.walkable());
            assert!(!spawned.is_player());
            // a kind from the configured distribution, within the radius of
            // the player at the origin, on its layer
            assert!(matches!(
                spawned.kind,
                EntityKind::Human | EntityKind::Sheep | EntityKind::Dragon
            ));
            assert!((-20..=20).contains(&spawned.position.0));
            assert!((-20..=20).contains(&spawned.position.1));
            assert_eq!(spawned.position.2, 0);
            assert_eq!(spawned.level_manager.level, 1);
        }
    }
    // the population cap (ten living entities) is never exceeded
    assert!(manager.count_living_entities() <= 10);
    // with a whole neighbourhood walkable, 200 attempts fill the cap
    assert_eq!(manager.count_living_entities(), 10);
}
