//! Items: weapons, armor and consumables, as far as they affect combat.

use vstd::prelude::*;

use crate::logger::{logs_extended_by, Logger};
use crate::stats::{sat_add_u32, EntityStats};
use crate::text::{append_u32, spec_decimal};
use vstd::string::StringExecFns;

verus! {

/// Where an item can be equipped.
#[derive(Clone, Copy, PartialEq, Eq, Structural, Debug, Hash)]
pub enum EquipmentSlot {
    Hand,
    Head,
    Chest,
    Legs,
    Feet,
}

/// Weapon families.
#[derive(Clone, Copy, PartialEq, Eq, Structural, Debug)]
pub enum WeaponKind {
    Sword,
    Bow,
    Axe,
    Dagger,
    Staff,
}

/// Armor families.
#[derive(Clone, Copy, PartialEq, Eq, Structural, Debug)]
pub enum ArmorKind {
    Helmet,
    Chestplate,
    Boots,
}

/// Consumable families.
#[derive(Clone, Copy, PartialEq, Eq, Structural, Debug)]
pub enum ConsumableKind {
    Potion,
    Scroll,
    Food,
}

/// What a consumable does when used.
#[derive(Clone, Copy, PartialEq, Eq, Structural, Debug)]
pub enum ConsumableEffect {
    Heal(u32),
}

/// Combat-relevant data of a weapon.
#[derive(Clone, Copy, PartialEq, Eq, Structural, Debug)]
pub struct WeaponData {
    pub kind: WeaponKind,
    /// Added to the wielder's strength in the damage formula.
    pub strength: u32,
}

/// Combat-relevant data of an armor piece.
#[derive(Clone, Copy, PartialEq, Eq, Structural, Debug)]
pub struct ArmorData {
    pub kind: ArmorKind,
    pub defense: u32,
}

/// Combat-relevant data of a consumable.
#[derive(Clone, Copy, PartialEq, Eq, Structural, Debug)]
pub struct ConsumableData {
    pub kind: ConsumableKind,
    pub effect: ConsumableEffect,
    pub charges: u32,
}

/// The closed set of item categories.
#[derive(Clone, Copy, PartialEq, Eq, Structural, Debug)]
pub enum ItemKind {
    Weapon(WeaponData),
    Armor(ArmorData),
    Consumable(ConsumableData),
}

/// An item: a name, a description and its category data.
pub struct Item {
    pub name: String,
    pub description: String,
    pub kind: ItemKind,
}

impl Item {
    /// An item of the given kind.
    pub fn new(name: String, description: String, kind: ItemKind) -> (r: Item)
        ensures
            r.name == name,
            r.description == description,
            r.kind == kind,
    {
        Item { name, description, kind }
    }

    /// A weapon with the given strength bonus.
    pub fn new_weapon(name: String, description: String, kind: WeaponKind, strength: u32) -> (r:
        Item)
        ensures
            r.name == name,
            r.description == description,
            r.kind == ItemKind::Weapon(WeaponData { kind, strength }),
    {
        Item { name, description, kind: ItemKind::Weapon(WeaponData { kind, strength }) }
    }

    /// An armor piece with the given defense.
    pub fn new_armor(name: String, description: String, kind: ArmorKind, defense: u32) -> (r: Item)
        ensures
            r.name == name,
            r.description == description,
            r.kind == ItemKind::Armor(ArmorData { kind, defense }),
    {
        Item { name, description, kind: ItemKind::Armor(ArmorData { kind, defense }) }
    }

    /// A consumable with the given effect and charges.
    pub fn new_consumable(
        name: String,
        description: String,
        kind: ConsumableKind,
        effect: ConsumableEffect,
        charges: u32,
    ) -> (r: Item)
        ensures
            r.name == name,
            r.description == description,
            r.kind == ItemKind::Consumable(ConsumableData { kind, effect, charges }),
    {
        Item { name, description, kind: ItemKind::Consumable(ConsumableData { kind, effect, charges }) }
    }

    /// The slot the item can be equipped on: weapons go to the hand, armor to
    /// its body part, consumables nowhere.
    pub open spec fn spec_equipment_slot(&self) -> Option<EquipmentSlot> {
        match self.kind {
            ItemKind::Weapon(_) => Some(EquipmentSlot::Hand),
            ItemKind::Armor(a) => match a.kind {
                ArmorKind::Helmet => Some(EquipmentSlot::Head),
                ArmorKind::Chestplate => Some(EquipmentSlot::Chest),
                ArmorKind::Boots => Some(EquipmentSlot::Feet),
            },
            ItemKind::Consumable(_) => None,
        }
    }

    /// The slot the item can be equipped on, if any.
    pub fn get_equipment_slot(&self) -> (r: Option<EquipmentSlot>)
        ensures
            r == self.spec_equipment_slot(),
    {
        match &self.kind {
            ItemKind::Weapon(_) => Some(EquipmentSlot::Hand),
            ItemKind::Armor(armor_data) => match armor_data.kind {
                ArmorKind::Helmet => Some(EquipmentSlot::Head),
                ArmorKind::Chestplate => Some(EquipmentSlot::Chest),
                ArmorKind::Boots => Some(EquipmentSlot::Feet),
            },
            ItemKind::Consumable(_) => None,
        }
    }

    /// The message `use_on` emits for a consumer named `user`.
    pub open spec fn spec_use_message(&self, user: Seq<char>) -> Seq<char> {
        match self.kind {
            ItemKind::Consumable(c) => match c.effect {
                ConsumableEffect::Heal(amount) => user + " uses "@ + self.name@ + " and recovers "@
                    + spec_decimal(amount as int) + " HP"@,
            },
            _ => self.name@ + " is not a consumable"@,
        }
    }

    /// Uses the item on stats belonging to `user_name`: a healing consumable
    /// restores hp (clamped to the maximum); anything else only complains.
    pub fn use_on(&self, user_name: &String, stats: &mut EntityStats, logger: &mut Logger)
        ensures
            *final(stats) == (match self.kind {
                ItemKind::Consumable(c) => match c.effect {
                    ConsumableEffect::Heal(amount) => EntityStats {
                        hp: vstd::math::min(
                            sat_add_u32(old(stats).hp as int, amount as int),
                            old(stats).max_hp as int,
                        ) as u32,
                        ..*old(stats)
                    },
                },
                _ => *old(stats),
            }),
            logs_extended_by(
                old(logger).logs@,
                final(logger).logs@,
                seq![self.spec_use_message(user_name@)],
            ),
            final(logger).max_displayed() == old(logger).max_displayed(),
    {
        match &self.kind {
            ItemKind::Consumable(consumable_data) => {
                match consumable_data.effect {
                    ConsumableEffect::Heal(amount) => {
                        stats.heal(amount);
                        let mut msg = String::new();
                        msg.append(user_name.as_str());
                        msg.append(" uses ");
                        msg.append(self.name.as_str());
                        msg.append(" and recovers ");
                        append_u32(&mut msg, amount);
                        msg.append(" HP");
                        proof {
                            assert(msg@ =~= self.spec_use_message(user_name@));
                        }
                        logger.push_message(msg);
                    },
                }
            },
            _ => {
                let mut msg = String::new();
                msg.append(self.name.as_str());
                msg.append(" is not a consumable");
                proof {
                    assert(msg@ =~= self.spec_use_message(user_name@));
                }
                logger.push_message(msg);
            },
        }
    }
}

/// Overflow storage for items that are not equipped.
pub struct Inventory {
    pub items: Vec<Item>,
}

impl Inventory {
    /// An empty inventory.
    pub fn new() -> (r: Inventory)
        ensures
            r.items@.len() == 0,
    {
        Inventory { items: Vec::new() }
    }

    /// Stores one item.
    pub fn add(&mut self, item: Item)
        ensures
            final(self).items@ == old(self).items@.push(item),
    {
        self.items.push(item);
    }
}

} // verus!
