//! Items, equipment, structures, interaction and text rendering.

use adventure_core::controller::{handle_interact, Controller};
use adventure_core::coords::Direction;
use adventure_core::entity::{Entity, EntityKind};
use adventure_core::item::{
    ArmorKind, ConsumableEffect, ConsumableKind, EquipmentSlot, Item, ItemKind, WeaponKind,
};
use adventure_core::logger::Logger;
use adventure_core::map::WorldMap;
use adventure_core::structure::{Chest, Door, Stairs, Structure, Wall};
use adventure_core::text::{append_i32, append_u32};
use adventure_core::tile::{Tile, TileKind};

#[test]
fn decimal_rendering_is_exact() {
    let mut s = String::new();
    append_u32(&mut s, 0);
    s.push(' ');
    append_u32(&mut s, 1234);
    s.push(' ');
    append_i32(&mut s, -56);
    s.push(' ');
    append_u32(&mut s, u32::MAX);
    assert_eq!(s, "0 1234 -56 4294967295");
}

#[test]
fn logger_appends_in_order() {
    let mut logger = Logger::new();
    assert_eq!(logger.max_displayed_logs(), 30);
    logger.push_message(String::from("first"));
    logger.push_message(String::from("second"));
    assert_eq!(logger.logs, vec!["first", "second"]);
}

#[test]
fn equipment_slots_follow_the_item_kind() {
    let sword = Item::new_weapon(
        String::from("Sword"),
        String::from("A sword"),
        WeaponKind::Sword,
        3,
    );
    assert_eq!(sword.get_equipment_slot(), Some(EquipmentSlot::Hand));
    let helmet = Item::new_armor(
        String::from("Helmet"),
        String::from("A helmet"),
        ArmorKind::Helmet,
        2,
    );
    assert_eq!(helmet.get_equipment_slot(), Some(EquipmentSlot::Head));
    let potion = Item::new_consumable(
        String::from("Potion"),
        String::from("Red"),
        ConsumableKind::Potion,
        ConsumableEffect::Heal(20),
        1,
    );
    assert_eq!(potion.get_equipment_slot(), None);
}

#[test]
fn equipping_replaces_and_stores_the_previous_item() {
    let mut human = Entity::new(
        EntityKind::Human,
        String::from("Human"),
        (0, 0, 0),
        Controller::Player,
    );
    assert!(human.get_weapon_data().is_none());
    let old_sword = Item::new_weapon(
        String::from("Old"),
        String::from("Old sword"),
        WeaponKind::Sword,
        3,
    );
    human.equip_item(old_sword);
    assert_eq!(human.get_weapon_data().unwrap().strength, 3);
    let new_axe = Item::new_weapon(
        String::from("New"),
        String::from("New axe"),
        WeaponKind::Axe,
        7,
    );
    human.equip_item(new_axe);
    assert_eq!(human.get_weapon_data().unwrap().strength, 7);
    // the old sword moved to the inventory
    assert_eq!(human.inventory.items.len(), 1);
    assert_eq!(human.inventory.items[0].name, "Old");
}

#[test]
fn consumables_heal_and_everything_else_complains() {
    let mut human = Entity::new(
        EntityKind::Human,
        String::from("Hero"),
        (0, 0, 0),
        Controller::Player,
    );
    human.stats.take_damage(50);
    let mut logger = Logger::new();
    let potion = Item::new_consumable(
        String::from("Potion"),
        String::from("Red"),
        ConsumableKind::Potion,
        ConsumableEffect::Heal(20),
        1,
    );
    potion.use_on(&human.name, &mut human.stats, &mut logger);
    assert_eq!(human.stats.hp, 70);
    assert_eq!(logger.logs[0], "Hero uses Potion and recovers 20 HP");
    let sword = Item::new_weapon(
        String::from("Sword"),
        String::from("Sharp"),
        WeaponKind::Sword,
        3,
    );
    sword.use_on(&human.name, &mut human.stats, &mut logger);
    assert_eq!(human.stats.hp, 70);
    assert_eq!(logger.logs[1], "Sword is not a consumable");
}

#[test]
fn structures_override_terrain_properties() {
    let mut tile = Tile::new(TileKind::Grass);
    assert!(tile.walkable());
    assert!(!tile.block_sight());
    assert_eq!(tile.symbol(), ",");
    tile.add_structure(Structure::Wall(Wall {}));
    assert!(!tile.walkable());
    assert!(tile.block_sight());
    assert_eq!(tile.symbol(), "#");
    let mut door_tile = Tile::new(TileKind::Grass);
    door_tile.add_structure(Structure::Door(Door::new()));
    assert!(!door_tile.walkable());
    assert!(door_tile.block_sight());
    assert_eq!(door_tile.symbol(), "|");
    let mut stairs_tile = Tile::new(TileKind::Water);
    stairs_tile.add_structure(Structure::Stairs(Stairs::new(true)));
    assert!(stairs_tile.walkable());
    assert!(!stairs_tile.block_sight());
    assert_eq!(stairs_tile.symbol(), "<");
}

#[test]
fn doors_toggle_on_interaction() {
    let mut logger = Logger::new();
    let mut door = Structure::Door(Door::new());
    assert!(!door.walkable());
    let displacement = door.interact(&mut logger);
    assert_eq!(displacement, None);
    assert!(door.walkable());
    assert!(!door.block_sight());
    assert_eq!(door.symbol(), "=");
    assert_eq!(logger.logs[0], "open door");
    door.interact(&mut logger);
    assert!(!door.walkable());
    assert_eq!(logger.logs[1], "close door");
    let mut chest = Structure::Chest(Chest::new());
    chest.interact(&mut logger);
    assert_eq!(logger.logs[2], "open the chest");
    let mut stairs = Structure::Stairs(Stairs::new(false));
    assert_eq!(stairs.interact(&mut logger), Some(-1));
    assert_eq!(logger.logs.len(), 3);
}

#[test]
fn interacting_with_a_door_toggles_it_in_the_world() {
    let mut map = WorldMap::new();
    map.load_chunk(0, 0, 0);
    assert!(map.add_structure_at((5, 4, 0), Structure::Door(Door::new())));
    let mut entities = vec![Entity::new(
        EntityKind::Human,
        String::from("Human"),
        (5, 5, 0),
        Controller::Player,
    )];
    // a fresh entity faces north: the door sits directly in front
    assert_eq!(entities[0].direction, Direction::North);
    let mut logger = Logger::new();
    handle_interact(&mut entities, 0, &mut map, &mut logger);
    assert_eq!(logger.logs[0], "5 4 0");
    assert_eq!(logger.logs[1], "open door");
    let tile = map.get_tile((5, 4, 0)).unwrap();
    assert!(tile.walkable());
    // the actor itself does not move
    assert_eq!(entities[0].position, (5, 5, 0));
}

#[test]
fn stairs_displace_the_actor_one_layer() {
    let mut map = WorldMap::new();
    map.load_chunk(0, 0, 0);
    assert!(map.add_structure_at((5, 4, 0), Structure::Stairs(Stairs::new(true))));
    let mut entities = vec![Entity::new(
        EntityKind::Human,
        String::from("Human"),
        (5, 5, 0),
        Controller::Player,
    )];
    let mut logger = Logger::new();
    handle_interact(&mut entities, 0, &mut map, &mut logger);
    assert_eq!(entities[0].position, (5, 5, 1));
    // the destination layer was loaded on the way
    assert!(map.get_tile((5, 5, 1)).is_some());
}

#[test]
fn entity_kinds_expose_their_presentation() {
    assert_eq!(EntityKind::Human.name(), "Human");
    assert_eq!(EntityKind::Dragon.symbol(), "D");
    assert_eq!(EntityKind::Sheep.symbol(), "S");
    assert_eq!(
        EntityKind::Sheep.color(),
        adventure_core::color::TermColor::Rgb(255, 209, 223)
    );
    let dragon_stats = EntityKind::Dragon.stats();
    assert_eq!(dragon_stats.max_hp, 1000);
    assert_eq!(dragon_stats.strength, 50);
    let actions = EntityKind::Human.actions();
    assert_eq!(actions.len(), 1);
    assert_eq!(actions[0].range(), 1);
    assert_eq!(actions[0].mana_cost(), 0);
    assert_eq!(actions[0].name(), "melee human");
}

#[test]
fn the_player_entity_carries_the_test_sword() {
    let player = Entity::player((3, 4, 5));
    assert!(player.is_player());
    assert_eq!(player.position, (3, 4, 5));
    assert_eq!(player.stats.max_hp, 1_000_000);
    let weapon = player.get_weapon_data().unwrap();
    assert_eq!(weapon.strength, 1000);
    assert!(matches!(weapon.kind, WeaponKind::Sword));
    assert!(matches!(
        player.equipment[0].1.kind,
        ItemKind::Weapon(_)
    ));
}

#[test]
fn facing_directions_step_one_cell() {
    assert_eq!(Direction::North.coordinates_in_front((5, 5, 2)), (5, 4, 2));
    assert_eq!(Direction::South.coordinates_in_front((5, 5, 2)), (5, 6, 2));
    assert_eq!(Direction::West.coordinates_in_front((5, 5, 2)), (4, 5, 2));
    assert_eq!(Direction::East.coordinates_in_front((5, 5, 2)), (6, 5, 2));
    // clamped at the world edge instead of wrapping
    assert_eq!(
        Direction::North.coordinates_in_front((0, i32::MIN, 0)),
        (0, i32::MIN, 0)
    );
}
