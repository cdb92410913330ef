//! Combat statistics of an entity.
//!
//! All values are non-negative integers; hp is clamped to `[0, max_hp]` by
//! damage and healing, and stat growth saturates instead of wrapping.

use vstd::prelude::*;

verus! {

/// Saturating 32-bit addition, as a mathematical function.
pub open spec fn sat_add_u32(a: int, b: int) -> int {
    if a + b > u32::MAX {
        u32::MAX as int
    } else {
        a + b
    }
}

/// Hit points, mana and the three combat attributes of one entity.
#[derive(Clone, Copy, PartialEq, Eq, Structural, Debug)]
pub struct EntityStats {
    pub max_hp: u32,
    pub hp: u32,
    pub max_mana: u32,
    pub mana: u32,
    pub defense: u32,
    pub strength: u32,
    pub magic: u32,
}

impl EntityStats {
    /// Current values never exceed their maxima.
    pub open spec fn wf(&self) -> bool {
        self.hp <= self.max_hp && self.mana <= self.max_mana
    }

    /// The stats after taking `amount` damage: hp loses
    /// `min(amount, hp)`, so it never goes negative.
    pub open spec fn spec_after_damage(&self, amount: u32) -> EntityStats {
        EntityStats {
            hp: if amount >= self.hp {
                0
            } else {
                (self.hp - amount) as u32
            },
            ..*self
        }
    }

    /// Applies `amount` damage, clamped so hp never goes below zero; returns
    /// the damage actually dealt.
    pub fn take_damage(&mut self, amount: u32) -> (dealt: u32)
        ensures
            *final(self) == old(self).spec_after_damage(amount),
            dealt == (if amount >= old(self).hp {
                old(self).hp as int
            } else {
                amount as int
            }),
            final(self).hp == old(self).hp - dealt,
    {
        let dealt = if amount < self.hp {
            amount
        } else {
            self.hp
        };
        self.hp = self.hp - dealt;
        dealt
    }

    /// Restores `amount` hp, clamped to `max_hp`.
    pub fn heal(&mut self, amount: u32)
        ensures
            final(self).hp == vstd::math::min(
                sat_add_u32(old(self).hp as int, amount as int),
                old(self).max_hp as int,
            ),
            *final(self) == (EntityStats { hp: final(self).hp, ..*old(self) }),
    {
        let raised = self.hp.saturating_add(amount);
        self.hp = if raised < self.max_hp {
            raised
        } else {
            self.max_hp
        };
    }
}

impl Default for EntityStats {
    /// All-zero stats.
    fn default() -> (r: EntityStats)
        ensures
            r == (EntityStats {
                max_hp: 0,
                hp: 0,
                max_mana: 0,
                mana: 0,
                defense: 0,
                strength: 0,
                magic: 0,
            }),
    {
        EntityStats { max_hp: 0, hp: 0, max_mana: 0, mana: 0, defense: 0, strength: 0, magic: 0 }
    }
}

} // verus!
