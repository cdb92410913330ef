//! Entities: the player and AI creatures, their stats, equipment and actions.

use vstd::prelude::*;

use crate::action::{Action, ActionType, ActionView, MeleeAttack, MeleeAttackView};
use crate::color::{TermColor, TermStyle};
use crate::controller::Controller;
use crate::coords::Direction;
use crate::item::{EquipmentSlot, Inventory, Item, ItemKind, WeaponData, WeaponKind};
use crate::level::LevelManager;
use crate::stats::EntityStats;
use vstd::string::StringExecFns;

verus! {

/// The closed set of entity kinds.
#[derive(Clone, Copy, PartialEq, Eq, Structural, Debug)]
pub enum EntityKind {
    Human,
    Dragon,
    Sheep,
}

impl EntityKind {
    /// The kind's display name.
    pub open spec fn spec_name(&self) -> Seq<char> {
        match self {
            EntityKind::Human => "Human"@,
            EntityKind::Dragon => "Dragon"@,
            EntityKind::Sheep => "Sheep"@,
        }
    }

    /// The kind's display name.
    pub fn name(&self) -> (r: &'static str)
        ensures
            r@ == self.spec_name(),
    {
        match self {
            EntityKind::Human => "Human",
            EntityKind::Dragon => "Dragon",
            EntityKind::Sheep => "Sheep",
        }
    }

    /// The glyph the renderer should use for the kind.
    pub open spec fn spec_symbol(&self) -> Seq<char> {
        match self {
            EntityKind::Human => "@"@,
            EntityKind::Dragon => "D"@,
            EntityKind::Sheep => "S"@,
        }
    }

    /// The glyph the renderer should use for the kind.
    pub fn symbol(&self) -> (r: &'static str)
        ensures
            r@ == self.spec_symbol(),
    {
        match self {
            EntityKind::Human => "@",
            EntityKind::Dragon => "D",
            EntityKind::Sheep => "S",
        }
    }

    /// The color the renderer should use for the kind.
    pub open spec fn spec_color(&self) -> TermColor {
        match self {
            EntityKind::Human => TermColor::Rgb(255, 255, 255),
            EntityKind::Dragon => TermColor::Rgb(255, 0, 0),
            EntityKind::Sheep => TermColor::Rgb(255, 209, 223),
        }
    }

    /// The color the renderer should use for the kind.
    pub fn color(&self) -> (r: TermColor)
        ensures
            r == self.spec_color(),
    {
        match self {
            EntityKind::Human => TermColor::Rgb(255, 255, 255),
            EntityKind::Dragon => TermColor::Rgb(255, 0, 0),
            EntityKind::Sheep => TermColor::Rgb(255, 209, 223),
        }
    }

    /// The draw style of the kind: its color as foreground.
    pub fn style(&self) -> (r: TermStyle)
        ensures
            r.fg == Some(self.spec_color()),
    {
        TermStyle::fg(self.color())
    }

    /// The kind's starting stats.
    pub open spec fn spec_stats(&self) -> EntityStats {
        match self {
            EntityKind::Human => EntityStats {
                max_hp: 100,
                hp: 100,
                max_mana: 100,
                mana: 100,
                defense: 5,
                strength: 5,
                magic: 5,
            },
            EntityKind::Dragon => EntityStats {
                max_hp: 1000,
                hp: 1000,
                max_mana: 200,
                mana: 200,
                defense: 50,
                strength: 50,
                magic: 20,
            },
            EntityKind::Sheep => EntityStats {
                max_hp: 30,
                hp: 30,
                max_mana: 0,
                mana: 0,
                defense: 5,
                strength: 1,
                magic: 0,
            },
        }
    }

    /// The kind's starting stats.
    pub fn stats(&self) -> (r: EntityStats)
        ensures
            r == self.spec_stats(),
            r.wf(),
    {
        match self {
            EntityKind::Human => EntityStats {
                max_hp: 100,
                hp: 100,
                max_mana: 100,
                mana: 100,
                defense: 5,
                strength: 5,
                magic: 5,
            },
            EntityKind::Dragon => EntityStats {
                max_hp: 1000,
                hp: 1000,
                max_mana: 200,
                mana: 200,
                defense: 50,
                strength: 50,
                magic: 20,
            },
            EntityKind::Sheep => EntityStats {
                max_hp: 30,
                hp: 30,
                max_mana: 0,
                mana: 0,
                defense: 5,
                strength: 1,
                magic: 0,
            },
        }
    }

    /// The kind's innate action list: one melee attack each.
    pub open spec fn spec_actions(&self) -> Seq<ActionView> {
        match self {
            EntityKind::Human => seq![
                ActionView::Melee(
                    MeleeAttackView {
                        name: "melee human"@,
                        damage: 10,
                        attack_type: ActionType::Physical,
                    },
                ),
            ],
            EntityKind::Dragon => seq![
                ActionView::Melee(
                    MeleeAttackView {
                        name: "melee dragon"@,
                        damage: 10,
                        attack_type: ActionType::Fire,
                    },
                ),
            ],
            EntityKind::Sheep => seq![
                ActionView::Melee(
                    MeleeAttackView {
                        name: "melee sheep"@,
                        damage: 10,
                        attack_type: ActionType::Physical,
                    },
                ),
            ],
        }
    }

    /// The kind's innate action list.
    pub fn actions(&self) -> (r: Vec<Action>)
        ensures
            r@.map_values(|a: Action| a@) == self.spec_actions(),
    {
        let mut v: Vec<Action> = Vec::new();
        match self {
            EntityKind::Human => {
                v.push(Action::Melee(MeleeAttack::new("melee human", 10, ActionType::Physical)));
            },
            EntityKind::Dragon => {
                v.push(Action::Melee(MeleeAttack::new("melee dragon", 10, ActionType::Fire)));
            },
            EntityKind::Sheep => {
                v.push(Action::Melee(MeleeAttack::new("melee sheep", 10, ActionType::Physical)));
            },
        }
        proof {
            assert(v@.map_values(|a: Action| a@) =~= self.spec_actions());
        }
        v
    }
}

/// An entity: kind, name, position, controller, stats, equipment, experience
/// and its action list.
pub struct Entity {
    pub kind: EntityKind,
    pub name: String,
    pub position: (i32, i32, i32),
    pub controller: Controller,
    pub stats: EntityStats,
    /// XP granted to whoever kills this entity.
    pub xp_drop: u32,
    pub level_manager: LevelManager,
    pub actions: Vec<Action>,
    /// Equipped items, one per slot.
    pub equipment: Vec<(EquipmentSlot, Item)>,
    /// Overflow storage for unequipped items.
    pub inventory: Inventory,
    /// Where the entity is looking.
    pub direction: Direction,
}

impl Entity {
    /// Equipment slots are pairwise distinct and the level manager is sound.
    pub open spec fn wf(&self) -> bool {
        &&& self.level_manager.wf()
        &&& (forall|i: int, j: int|
            0 <= i < j < self.equipment@.len() ==> (#[trigger] self.equipment@[i]).0 != (
            #[trigger] self.equipment@[j]).0)
    }

    /// Whether something is equipped on `slot`.
    pub open spec fn spec_has_equipment(&self, slot: EquipmentSlot) -> bool {
        exists|i: int| 0 <= i < self.equipment@.len() && (#[trigger] self.equipment@[i]).0 == slot
    }

    /// Index of the item equipped on `slot`, when there is one.
    pub open spec fn spec_equipment_idx(&self, slot: EquipmentSlot) -> int {
        choose|i: int| 0 <= i < self.equipment@.len() && (#[trigger] self.equipment@[i]).0 == slot
    }

    /// In a well-formed entity, an equipped slot determines its index.
    pub proof fn lemma_equipment_idx(&self, i: int)
        requires
            self.wf(),
            0 <= i < self.equipment@.len(),
        ensures
            self.spec_has_equipment(self.equipment@[i].0),
            self.spec_equipment_idx(self.equipment@[i].0) == i,
    {
        let slot = self.equipment@[i].0;
        assert(self.spec_has_equipment(slot));
        let j = self.spec_equipment_idx(slot);
        if j != i {
            if j < i {
                assert(self.equipment@[j].0 != self.equipment@[i].0);
            } else {
                assert(self.equipment@[i].0 != self.equipment@[j].0);
            }
        }
    }

    /// The weapon data of the item in hand, when a weapon is equipped.
    pub open spec fn spec_weapon_data(&self) -> Option<WeaponData> {
        if self.spec_has_equipment(EquipmentSlot::Hand) {
            match self.equipment@[self.spec_equipment_idx(EquipmentSlot::Hand)].1.kind {
                ItemKind::Weapon(w) => Some(w),
                _ => None,
            }
        } else {
            None
        }
    }

    /// A fresh entity of the given kind, with the kind's stats and actions,
    /// no equipment and an empty inventory, facing north.
    pub fn new(kind: EntityKind, name: String, position: (i32, i32, i32), controller: Controller)
        -> (r: Entity)
        ensures
            r.kind == kind,
            r.name == name,
            r.position == position,
            r.controller == controller,
            r.stats == kind.spec_stats(),
            r.xp_drop == 10,
            r.level_manager.level == 1,
            r.level_manager.current_xp == 0,
            r.level_manager.xp_curve.base == 2,
            r.actions@.map_values(|a: Action| a@) == kind.spec_actions(),
            r.equipment@.len() == 0,
            r.inventory.items@.len() == 0,
            r.direction == Direction::North,
            r.wf(),
    {
        Entity {
            name,
            position,
            controller,
            stats: kind.stats(),
            xp_drop: 10,
            level_manager: LevelManager::default(),
            actions: kind.actions(),
            kind,
            equipment: Vec::new(),
            inventory: Inventory::new(),
            direction: Direction::North,
        }
    }

    /// Whether the entity is driven by player input.
    pub fn is_player(&self) -> (r: bool)
        ensures
            r == (self.controller is Player),
    {
        match &self.controller {
            Controller::Player => true,
            _ => false,
        }
    }

    /// The player entity: a human with a vastly raised hp pool and a test
    /// sword in hand.
    pub fn player(position: (i32, i32, i32)) -> (r: Entity)
        ensures
            r.kind == EntityKind::Human,
            r.name@ == "Player"@,
            r.position == position,
            r.controller is Player,
            r.stats == (EntityStats { max_hp: 1000000, hp: 1000000, ..EntityKind::Human.spec_stats() }),
            r.xp_drop == 10,
            r.level_manager.level == 1,
            r.level_manager.current_xp == 0,
            r.level_manager.xp_curve.base == 2,
            r.actions@.map_values(|a: Action| a@) == EntityKind::Human.spec_actions(),
            r.spec_weapon_data() == Some(WeaponData { kind: WeaponKind::Sword, strength: 1000 }),
            r.direction == Direction::North,
            r.wf(),
    {
        let god_sword = Item::new_weapon(
            String::from_str("GodSword"),
            String::from_str("GodSword to test items"),
            WeaponKind::Sword,
            1000,
        );
        let mut player = Self::new(
            EntityKind::Human,
            String::from_str("Player"),
            position,
            Controller::Player,
        );
        player.stats.max_hp = 1000000;
        player.stats.hp = 1000000;
        player.equip_item(god_sword);
        proof {
            player.lemma_equipment_idx(0);
        }
        player
    }

    /// Whether the entity is dead: its hp reached zero.
    pub fn is_dead(&self) -> (r: bool)
        ensures
            r == (self.stats.hp == 0),
    {
        self.stats.hp == 0
    }

    /// Applies damage clamped so hp never goes below zero; returns the damage
    /// actually dealt. Nothing but the stats change.
    pub fn take_damage(&mut self, amount: u32) -> (dealt: u32)
        ensures
            final(self).stats == old(self).stats.spec_after_damage(amount),
            dealt == (if amount >= old(self).stats.hp {
                old(self).stats.hp as int
            } else {
                amount as int
            }),
            *final(self) == (Entity { stats: final(self).stats, ..*old(self) }),
    {
        self.stats.take_damage(amount)
    }

    /// Equips the item on its slot; a previous occupant moves to the
    /// inventory; an unequippable item is discarded.
    pub fn equip_item(&mut self, item: Item)
        requires
            old(self).wf(),
        ensures
            final(self).wf(),
            *final(self) == (Entity {
                equipment: final(self).equipment,
                inventory: final(self).inventory,
                ..*old(self)
            }),
            match item.spec_equipment_slot() {
                None => final(self).equipment == old(self).equipment && final(self).inventory
                    == old(self).inventory,
                Some(slot) => {
                    &&& (if old(self).spec_has_equipment(slot) {
                        final(self).equipment@ =~= old(self).equipment@.update(
                            old(self).spec_equipment_idx(slot),
                            (slot, item),
                        ) && final(self).inventory.items@ == old(self).inventory.items@.push(
                            old(self).equipment@[old(self).spec_equipment_idx(slot)].1,
                        )
                    } else {
                        final(self).equipment@ =~= old(self).equipment@.push((slot, item))
                            && final(self).inventory == old(self).inventory
                    })
                },
            },
    {
        match item.get_equipment_slot() {
            None => {},
            Some(slot) => {
                let mut i: usize = 0;
                let n = self.equipment.len();
                while i < n
                    invariant
                        old(self).wf(),
                        *self == *old(self),
                        item.spec_equipment_slot() == Some(slot),
                        n == self.equipment@.len(),
                        0 <= i <= n,
                        forall|j: int| 0 <= j < i ==> (#[trigger] self.equipment@[j]).0 != slot,
                    decreases n - i,
                {
                    if self.equipment[i].0 == slot {
                        proof {
                            self.lemma_equipment_idx(i as int);
                        }
                        let prev = self.equipment.remove(i);
                        self.inventory.add(prev.1);
                        self.equipment.insert(i, (slot, item));
                        proof {
                            assert(old(self).spec_has_equipment(slot));
                            assert(old(self).spec_equipment_idx(slot) == i as int);
                            assert(prev == old(self).equipment@[i as int]);
                            assert(self.inventory.items@ == old(self).inventory.items@.push(
                                old(self).equipment@[i as int].1,
                            ));
                            assert forall|b: int|
                                0 <= b < self.equipment@.len() implies self.equipment@[b] == old(
                                self,
                            ).equipment@.update(i as int, (slot, item))[b] by {
                                if b < i as int {
                                    assert(self.equipment@[b] == old(self).equipment@.remove(
                                        i as int,
                                    )[b]);
                                } else if b > i as int {
                                    assert(self.equipment@[b] == old(self).equipment@.remove(
                                        i as int,
                                    )[b - 1]);
                                }
                            }
                            assert(self.equipment@ =~= old(self).equipment@.update(
                                i as int,
                                (slot, item),
                            ));
                            assert forall|a: int, b: int|
                                0 <= a < b < self.equipment@.len() implies (
                            #[trigger] self.equipment@[a]).0 != (#[trigger] self.equipment@[b]).0 by {
                                assert(old(self).equipment@[a].0 == self.equipment@[a].0 || a == i);
                                assert(old(self).equipment@[b].0 == self.equipment@[b].0 || b == i);
                            }
                        }
                        return ;
                    }
                    i = i + 1;
                }
                self.equipment.push((slot, item));
                proof {
                    assert(!old(self).spec_has_equipment(slot));
                    assert forall|a: int, b: int|
                        0 <= a < b < self.equipment@.len() implies (
                    #[trigger] self.equipment@[a]).0 != (#[trigger] self.equipment@[b]).0 by {
                        if b == self.equipment@.len() - 1 {
                            assert(self.equipment@[a] == old(self).equipment@[a]);
                        }
                    }
                }
            },
        }
    }

    /// The weapon data of the item in hand, if a weapon is equipped there.
    pub fn get_weapon_data(&self) -> (r: Option<WeaponData>)
        requires
            self.wf(),
        ensures
            r == self.spec_weapon_data(),
    {
        let mut i: usize = 0;
        let n = self.equipment.len();
        while i < n
            invariant
                self.wf(),
                n == self.equipment@.len(),
                0 <= i <= n,
                forall|j: int|
                    0 <= j < i ==> (#[trigger] self.equipment@[j]).0 != EquipmentSlot::Hand,
            decreases n - i,
        {
            if self.equipment[i].0 == EquipmentSlot::Hand {
                proof {
                    self.lemma_equipment_idx(i as int);
                }
                return match &self.equipment[i].1.kind {
                    ItemKind::Weapon(weapon_data) => Some(*weapon_data),
                    _ => None,
                };
            }
            i = i + 1;
        }
        None
    }

    /// The glyph the renderer should use for the entity.
    pub fn symbol(&self) -> (r: &'static str)
        ensures
            r@ == self.kind.spec_symbol(),
    {
        self.kind.symbol()
    }

    /// The color the renderer should use for the entity.
    pub fn color(&self) -> (r: TermColor)
        ensures
            r == self.kind.spec_color(),
    {
        self.kind.color()
    }

    /// The draw style of the entity.
    pub fn style(&self) -> (r: TermStyle)
        ensures
            r.fg == Some(self.kind.spec_color()),
    {
        self.kind.style()
    }
}

} // verus!
