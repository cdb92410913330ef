//! Levels, experience and stat growth.
//!
//! The XP needed to reach a level follows `ceil(base * level^(3/2))`, computed
//! exactly in integers as the ceiling square root of `base^2 * level^3` and
//! capped at `u32::MAX`. Granting XP cascades through as many level-ups as the
//! grant pays for; each level-up grants ten percent more maximum hp and mana
//! (rounded up, fully restored) and one point of defense, strength and magic.

use vstd::prelude::*;

use crate::stats::{sat_add_u32, EntityStats};

verus! {

/// `r` is the least non-negative integer whose square is at least `m`.
pub open spec fn is_ceil_sqrt(m: int, r: int) -> bool {
    &&& 0 <= r
    &&& m <= r * r
    &&& (r == 0 || (r - 1) * (r - 1) < m)
}

/// The ceiling square root of a non-negative integer.
pub open spec fn spec_ceil_sqrt(m: int) -> int {
    choose|r: int| is_ceil_sqrt(m, r)
}

/// A ceiling square root exists for every non-negative integer.
pub proof fn lemma_ceil_sqrt_exists(m: int)
    requires
        0 <= m,
    ensures
        is_ceil_sqrt(m, spec_ceil_sqrt(m)),
    decreases m,
{
    if m == 0 {
        assert(is_ceil_sqrt(0, 0));
    } else {
        lemma_ceil_sqrt_exists(m - 1);
        let r0 = spec_ceil_sqrt(m - 1);
        if m <= r0 * r0 {
            assert(r0 != 0);
            assert(is_ceil_sqrt(m, r0));
        } else {
            assert(r0 * r0 == m - 1);
            assert((r0 + 1) * (r0 + 1) == r0 * r0 + 2 * r0 + 1) by (nonlinear_arith);
            assert(is_ceil_sqrt(m, r0 + 1));
        }
    }
    assert(exists|r: int| is_ceil_sqrt(m, r));
}

/// The ceiling square root is unique.
pub proof fn lemma_ceil_sqrt_unique(m: int, r: int)
    requires
        0 <= m,
        is_ceil_sqrt(m, r),
    ensures
        r == spec_ceil_sqrt(m),
{
    lemma_ceil_sqrt_exists(m);
    let r2 = spec_ceil_sqrt(m);
    if r < r2 {
        assert(r * r <= (r2 - 1) * (r2 - 1)) by (nonlinear_arith)
            requires
                0 <= r,
                r <= r2 - 1,
        ;
    } else if r2 < r {
        assert(r2 * r2 <= (r - 1) * (r - 1)) by (nonlinear_arith)
            requires
                0 <= r2,
                r2 <= r - 1,
        ;
    }
}

/// The ceiling square root of `m`, for `m` small enough that the root fits in
/// 32 bits: a binary search for the least `r` with `r * r >= m`.
fn ceil_sqrt_u64(m: u64) -> (r: u64)
    requires
        m <= 0xFFFF_FFFE_0000_0001,
    ensures
        is_ceil_sqrt(m as int, r as int),
        r == spec_ceil_sqrt(m as int),
{
    let mut lo: u64 = 0;
    let mut hi: u64 = 0xFFFF_FFFF;
    proof {
        assert((0xFFFF_FFFFu64 as int) * (0xFFFF_FFFFu64 as int) == 0xFFFF_FFFE_0000_0001)
            by (nonlinear_arith);
    }
    while lo < hi
        invariant
            m <= 0xFFFF_FFFE_0000_0001,
            0 <= lo <= hi <= 0xFFFF_FFFF,
            (hi as int) * (hi as int) >= m as int,
            lo == 0 || (lo - 1) * (lo - 1) < m as int,
        decreases hi - lo,
    {
        let mid: u64 = lo + (hi - lo) / 2;
        proof {
            assert((mid as int) * (mid as int) <= 0xFFFF_FFFE_0000_0001) by (nonlinear_arith)
                requires
                    0 <= mid as int <= 0xFFFF_FFFF,
            ;
        }
        if mid * mid >= m {
            hi = mid;
        } else {
            lo = mid + 1;
        }
    }
    proof {
        lemma_ceil_sqrt_unique(m as int, lo as int);
    }
    lo
}

/// The XP needed to reach `level`: `ceil(base * level^(3/2))`, that is the
/// ceiling square root of `base^2 * level^3`, capped at `u32::MAX`.
pub open spec fn spec_xp_required(base: u32, level: u32) -> u32 {
    let m = (base * base) * ((level * level) * level);
    if spec_ceil_sqrt(m) > u32::MAX {
        u32::MAX
    } else {
        spec_ceil_sqrt(m) as u32
    }
}

/// Reaching a level costs at least one XP point whenever the curve has a
/// positive base.
pub proof fn lemma_xp_required_pos(base: u32, level: u32)
    requires
        base >= 1,
        level >= 1,
    ensures
        spec_xp_required(base, level) >= 1,
{
    assert((base * base) * ((level * level) * level) >= 1) by (nonlinear_arith)
        requires
            base >= 1,
            level >= 1,
    ;
    lemma_ceil_sqrt_exists((base * base) * ((level * level) * level));
    assert(spec_ceil_sqrt((base * base) * ((level * level) * level)) >= 1);
}

/// An XP curve: how much XP a level costs to reach.
pub trait XPCurve: Sized {
    /// The XP needed to reach `level`.
    spec fn spec_xp_required(&self, level: u32) -> u32;

    /// The XP needed to reach `level`.
    fn xp_required(&self, level: u32) -> (r: u32)
        ensures
            r == self.spec_xp_required(level),
    ;
}

/// The curve `ceil(base * level^(3/2))`.
#[derive(Clone, Copy, PartialEq, Eq, Structural, Debug)]
pub struct ExponentialCurve {
    /// Cost scale; a sound curve needs `base >= 1`.
    pub base: u32,
}

impl ExponentialCurve {
    /// A curve with the given base.
    pub fn new(base: u32) -> (r: ExponentialCurve)
        ensures
            r.base == base,
    {
        ExponentialCurve { base }
    }
}

impl Default for ExponentialCurve {
    /// The default curve: base 2.
    fn default() -> (r: ExponentialCurve)
        ensures
            r.base == 2,
    {
        ExponentialCurve { base: 2 }
    }
}

impl XPCurve for ExponentialCurve {
    open spec fn spec_xp_required(&self, level: u32) -> u32 {
        spec_xp_required(self.base, level)
    }

    fn xp_required(&self, level: u32) -> (r: u32)
        ensures
            r == spec_xp_required(self.base, level),
    {
        let b = self.base as u64;
        let l = level as u64;
        proof {
            assert(b * b <= 0xFFFF_FFFF_FFFF_FFFF) by (nonlinear_arith)
                requires
                    0 <= b <= 0xFFFF_FFFF,
            ;
        }
        let b2: u64 = b * b;
        let b2_128 = b2 as u128;
        let l_128 = l as u128;
        proof {
            assert(l_128 * l_128 * l_128 <= 0xFFFF_FFFF_FFFF_FFFF_FFFF_FFFF
                && l_128 * l_128 <= 0xFFFF_FFFF_FFFF_FFFF) by (nonlinear_arith)
                requires
                    0 <= l_128 <= 0xFFFF_FFFF,
            ;
        }
        let l3: u128 = l_128 * l_128 * l_128;
        match b2_128.checked_mul(l3) {
            None => {
                // the radicand exceeds u128::MAX >= (u32::MAX)^2, so the root
                // exceeds u32::MAX and the curve is capped
                proof {
                    let m = (b2_128 as int) * (l3 as int);
                    lemma_ceil_sqrt_exists(m);
                    let r = spec_ceil_sqrt(m);
                    assert(r * r >= m);
                    assert(r > u32::MAX) by (nonlinear_arith)
                        requires
                            0 <= r,
                            r * r >= m,
                            m > u128::MAX,
                    ;
                }
                u32::MAX
            },
            Some(m) => {
                if m > 0xFFFF_FFFE_0000_0001 {
                    // larger than (u32::MAX)^2: capped
                    proof {
                        lemma_ceil_sqrt_exists(m as int);
                        let r = spec_ceil_sqrt(m as int);
                        assert(r > u32::MAX) by (nonlinear_arith)
                            requires
                                0 <= r,
                                r * r >= m as int,
                                m as int > 0xFFFF_FFFE_0000_0001,
                        ;
                    }
                    u32::MAX
                } else {
                    let root = ceil_sqrt_u64(m as u64);
                    proof {
                        assert(root <= u32::MAX) by (nonlinear_arith)
                            requires
                                is_ceil_sqrt(m as int, root as int),
                                m as int <= 0xFFFF_FFFE_0000_0001,
                        ;
                    }
                    root as u32
                }
            },
        }
    }
}

/// The stats after one level-up: maximum hp and mana grow by a tenth rounded
/// up (saturating) and are fully restored; the three attributes gain one.
pub open spec fn spec_stats_after_level_up(s: EntityStats) -> EntityStats {
    let new_max_hp = sat_add_u32(s.max_hp as int, spec_tenth_ceil(s.max_hp as int)) as u32;
    let new_max_mana = sat_add_u32(s.max_mana as int, spec_tenth_ceil(s.max_mana as int)) as u32;
    EntityStats {
        max_hp: new_max_hp,
        hp: new_max_hp,
        max_mana: new_max_mana,
        mana: new_max_mana,
        defense: sat_add_u32(s.defense as int, 1) as u32,
        strength: sat_add_u32(s.strength as int, 1) as u32,
        magic: sat_add_u32(s.magic as int, 1) as u32,
    }
}

/// A tenth of a non-negative value, rounded up.
pub open spec fn spec_tenth_ceil(v: int) -> int {
    v / 10 + if v % 10 != 0 {
        1int
    } else {
        0int
    }
}

/// A tenth of a value, rounded up.
fn tenth_ceil(v: u32) -> (r: u32)
    ensures
        r == spec_tenth_ceil(v as int),
{
    v / 10 + if v % 10 != 0 {
        1
    } else {
        0
    }
}

/// Tracks one entity's level and experience and applies stat growth.
pub struct LevelManager {
    /// Current level; at least 1.
    pub level: u32,
    /// XP accumulated toward the next level.
    pub current_xp: u32,
    /// The XP curve.
    pub xp_curve: ExponentialCurve,
}

/// The level manager and stats after granting enough XP for one level:
/// the next level's requirement is deducted, the level rises by one, and the
/// stats grow.
pub open spec fn spec_level_up_step(lm: LevelManager, stats: EntityStats) -> (
    LevelManager,
    EntityStats,
) {
    let req = spec_xp_required(lm.xp_curve.base, (lm.level + 1) as u32);
    (
        LevelManager {
            level: (lm.level + 1) as u32,
            current_xp: (lm.current_xp - req) as u32,
            xp_curve: lm.xp_curve,
        },
        spec_stats_after_level_up(stats),
    )
}

/// Whether the accumulated XP pays for the next level.
pub open spec fn spec_can_level_up(lm: LevelManager) -> bool {
    lm.level < u32::MAX && spec_xp_required(lm.xp_curve.base, (lm.level + 1) as u32)
        <= lm.current_xp
}

/// The level manager and stats after all the level-ups the accumulated XP
/// pays for.
pub open spec fn spec_cascade(lm: LevelManager, stats: EntityStats) -> (LevelManager, EntityStats)
    decreases lm.current_xp,
        when lm.wf()
        via spec_cascade_decreases
{
    if spec_can_level_up(lm) {
        let (lm2, stats2) = spec_level_up_step(lm, stats);
        spec_cascade(lm2, stats2)
    } else {
        (lm, stats)
    }
}

#[via_fn]
proof fn spec_cascade_decreases(lm: LevelManager, stats: EntityStats) {
    if spec_can_level_up(lm) {
        lemma_xp_required_pos(lm.xp_curve.base, (lm.level + 1) as u32);
    }
}

/// Law: granting XP never decreases the level, and keeps the manager
/// well-formed.
pub proof fn lemma_cascade_monotonic(lm: LevelManager, stats: EntityStats)
    requires
        lm.wf(),
    ensures
        spec_cascade(lm, stats).0.level >= lm.level,
        spec_cascade(lm, stats).0.wf(),
        spec_cascade(lm, stats).0.xp_curve == lm.xp_curve,
    decreases lm.current_xp,
{
    if spec_can_level_up(lm) {
        lemma_xp_required_pos(lm.xp_curve.base, (lm.level + 1) as u32);
        let (lm2, stats2) = spec_level_up_step(lm, stats);
        lemma_cascade_monotonic(lm2, stats2);
    }
}

/// Law: from current XP zero, granting exactly the next level's requirement
/// raises the level by exactly one and leaves the current XP at zero.
pub proof fn lemma_exact_xp_single_level(lm: LevelManager, stats: EntityStats)
    requires
        lm.wf(),
        lm.level < u32::MAX,
        lm.current_xp == spec_xp_required(lm.xp_curve.base, (lm.level + 1) as u32),
    ensures
        spec_cascade(lm, stats).0.level == lm.level + 1,
        spec_cascade(lm, stats).0.current_xp == 0,
{
    assert(spec_can_level_up(lm));
    let (lm2, stats2) = spec_level_up_step(lm, stats);
    assert(lm2.wf());
    assert(lm2.current_xp == 0);
    assert(spec_cascade(lm, stats) == spec_cascade(lm2, stats2));
    if lm2.level < u32::MAX {
        lemma_xp_required_pos(lm2.xp_curve.base, (lm2.level + 1) as u32);
    }
    assert(!spec_can_level_up(lm2));
    assert(spec_cascade(lm2, stats2) == (lm2, stats2));
}

impl LevelManager {
    /// The level starts at one and the curve's base is positive.
    pub open spec fn wf(&self) -> bool {
        self.level >= 1 && self.xp_curve.base >= 1
    }

    /// A manager at the given level and XP, on the given curve.
    pub fn new(initial_level: u32, current_xp: u32, xp_curve: ExponentialCurve) -> (r: LevelManager)
        ensures
            r.level == initial_level,
            r.current_xp == current_xp,
            r.xp_curve == xp_curve,
    {
        LevelManager { level: initial_level, current_xp, xp_curve }
    }

    /// The XP required to reach the next level.
    pub fn xp_to_next_level(&self) -> (r: u32)
        ensures
            r == spec_xp_required(
                self.xp_curve.base,
                sat_add_u32(self.level as int, 1) as u32,
            ),
    {
        let next = if self.level == u32::MAX {
            u32::MAX
        } else {
            self.level + 1
        };
        self.xp_curve.xp_required(next)
    }

    /// Deducts the next level's cost, raises the level by one, and applies
    /// stat growth.
    pub fn handle_level_up(&mut self, entity_stats: &mut EntityStats)
        requires
            old(self).wf(),
            spec_can_level_up(*old(self)),
        ensures
            (*final(self), *final(entity_stats)) == spec_level_up_step(
                *old(self),
                *old(entity_stats),
            ),
            final(self).wf(),
    {
        let req = self.xp_curve.xp_required(self.level + 1);
        self.current_xp = self.current_xp - req;
        self.level = self.level + 1;

        let bonus_hp = tenth_ceil(entity_stats.max_hp);
        entity_stats.max_hp = entity_stats.max_hp.saturating_add(bonus_hp);
        entity_stats.hp = entity_stats.max_hp;

        let bonus_mana = tenth_ceil(entity_stats.max_mana);
        entity_stats.max_mana = entity_stats.max_mana.saturating_add(bonus_mana);
        entity_stats.mana = entity_stats.max_mana;

        entity_stats.defense = entity_stats.defense.saturating_add(1);
        entity_stats.strength = entity_stats.strength.saturating_add(1);
        entity_stats.magic = entity_stats.magic.saturating_add(1);
    }

    /// Adds XP (saturating) and performs every level-up it pays for; returns
    /// how many levels were gained.
    pub fn add_xp(&mut self, xp: u32, entity_stats: &mut EntityStats) -> (levels_gained: u32)
        requires
            old(self).wf(),
        ensures
            ({
                let start = LevelManager {
                    level: old(self).level,
                    current_xp: sat_add_u32(old(self).current_xp as int, xp as int) as u32,
                    xp_curve: old(self).xp_curve,
                };
                (*final(self), *final(entity_stats)) == spec_cascade(start, *old(entity_stats))
            }),
            final(self).wf(),
            final(self).level >= old(self).level,
            final(self).xp_curve == old(self).xp_curve,
            levels_gained == final(self).level - old(self).level,
    {
        let initial_level = self.level;
        self.current_xp = self.current_xp.saturating_add(xp);
        let ghost start = *self;
        let ghost stats0 = *entity_stats;
        proof {
            lemma_cascade_monotonic(start, stats0);
        }
        loop
            invariant
                self.wf(),
                self.level >= initial_level,
                spec_cascade(*self, *entity_stats) == spec_cascade(start, stats0),
            ensures
                self.wf(),
                self.level >= initial_level,
                !spec_can_level_up(*self),
                spec_cascade(*self, *entity_stats) == spec_cascade(start, stats0),
            decreases self.current_xp,
        {
            if self.level == u32::MAX {
                break ;
            }
            let req = self.xp_curve.xp_required(self.level + 1);
            if req > self.current_xp {
                break ;
            }
            proof {
                lemma_xp_required_pos(self.xp_curve.base, (self.level + 1) as u32);
            }
            self.handle_level_up(entity_stats);
        }
        self.level - initial_level
    }
}

impl Default for LevelManager {
    /// Level 1, no XP, on the default curve.
    fn default() -> (r: LevelManager)
        ensures
            r.level == 1,
            r.current_xp == 0,
            r.xp_curve.base == 2,
            r.wf(),
    {
        LevelManager { level: 1, current_xp: 0, xp_curve: ExponentialCurve { base: 2 } }
    }
}

} // verus!
