//! Damage clamping, healing, the XP curve and level-up cascades.

use adventure_core::entity::EntityKind;
use adventure_core::level::{ExponentialCurve, LevelManager, XPCurve};
use adventure_core::stats::EntityStats;

#[test]
fn damage_is_clamped_to_hp() {
    let mut stats = EntityKind::Sheep.stats();
    // hp 30: a 25-point hit deals 25
    let dealt = stats.take_damage(25);
    assert_eq!(dealt, 25);
    assert_eq!(stats.hp, 5);
    // a 100-point hit deals only the remaining 5: hp never goes negative
    let dealt = stats.take_damage(100);
    assert_eq!(dealt, 5);
    assert_eq!(stats.hp, 0);
    // no hp left: nothing more to deal
    let dealt = stats.take_damage(7);
    assert_eq!(dealt, 0);
    assert_eq!(stats.hp, 0);
}

#[test]
fn healing_is_clamped_to_max_hp() {
    let mut stats = EntityKind::Human.stats();
    stats.take_damage(40);
    assert_eq!(stats.hp, 60);
    stats.heal(25);
    assert_eq!(stats.hp, 85);
    stats.heal(1000);
    assert_eq!(stats.hp, 100);
}

#[test]
fn xp_curve_is_the_ceiling_of_base_times_level_to_three_halves() {
    let curve = ExponentialCurve::new(2);
    // ceil(2 * 1^1.5) = 2, ceil(2 * 2^1.5) = 6, ceil(2 * 3^1.5) = 11,
    // ceil(2 * 4^1.5) = 16, ceil(2 * 100^1.5) = 2000
    assert_eq!(curve.xp_required(1), 2);
    assert_eq!(curve.xp_required(2), 6);
    assert_eq!(curve.xp_required(3), 11);
    assert_eq!(curve.xp_required(4), 16);
    assert_eq!(curve.xp_required(100), 2000);
    let curve3 = ExponentialCurve::new(3);
    // ceil(3 * 2^1.5) = ceil(8.485...) = 9
    assert_eq!(curve3.xp_required(2), 9);
}

#[test]
fn exact_xp_raises_exactly_one_level_and_zeroes_the_pool() {
    let mut lm = LevelManager::default();
    let mut stats = EntityKind::Human.stats();
    assert_eq!(lm.xp_to_next_level(), 6);
    let gained = lm.add_xp(6, &mut stats);
    assert_eq!(gained, 1);
    assert_eq!(lm.level, 2);
    assert_eq!(lm.current_xp, 0);
    // growth: max pools +10% rounded up and fully restored, +1 attributes
    assert_eq!(stats.max_hp, 110);
    assert_eq!(stats.hp, 110);
    assert_eq!(stats.max_mana, 110);
    assert_eq!(stats.mana, 110);
    assert_eq!(stats.defense, 6);
    assert_eq!(stats.strength, 6);
    assert_eq!(stats.magic, 6);
}

#[test]
fn a_large_grant_cascades_multiple_levels() {
    let mut lm = LevelManager::default();
    let mut stats = EntityKind::Human.stats();
    // 17 = 6 (to level 2) + 11 (to level 3), with nothing left over
    let gained = lm.add_xp(17, &mut stats);
    assert_eq!(gained, 2);
    assert_eq!(lm.level, 3);
    assert_eq!(lm.current_xp, 0);
    // two rounds of +10% rounded up: 100 -> 110 -> 121
    assert_eq!(stats.max_hp, 121);
    assert_eq!(stats.strength, 7);
}

#[test]
fn granting_xp_never_decreases_the_level() {
    let mut lm = LevelManager::default();
    let mut stats = EntityKind::Human.stats();
    let mut previous = lm.level;
    for grant in [0u32, 1, 2, 3, 5, 8, 100, 0, 7] {
        lm.add_xp(grant, &mut stats);
        assert!(lm.level >= previous);
        previous = lm.level;
    }
}

#[test]
fn too_little_xp_accumulates_without_leveling() {
    let mut lm = LevelManager::default();
    let mut stats = EntityKind::Human.stats();
    let gained = lm.add_xp(5, &mut stats);
    assert_eq!(gained, 0);
    assert_eq!(lm.level, 1);
    assert_eq!(lm.current_xp, 5);
    assert_eq!(stats.max_hp, 100);
    // one more point tips it over
    let gained = lm.add_xp(1, &mut stats);
    assert_eq!(gained, 1);
    assert_eq!(lm.level, 2);
    assert_eq!(lm.current_xp, 0);
}

#[test]
fn custom_managers_start_where_asked() {
    let lm = LevelManager::new(4, 3, ExponentialCurve::new(2));
    assert_eq!(lm.level, 4);
    assert_eq!(lm.current_xp, 3);
    // reaching level 5: ceil(2 * 5^1.5) = ceil(22.36) = 23
    assert_eq!(lm.xp_to_next_level(), 23);
}

#[test]
fn default_stats_are_all_zero() {
    let stats = EntityStats::default();
    assert_eq!(stats.max_hp, 0);
    assert_eq!(stats.hp, 0);
    assert_eq!(stats.mana, 0);
    assert_eq!(stats.strength, 0);
}
