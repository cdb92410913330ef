//! Combat actions: melee and area attacks, their damage formula, mana
//! gating, and their effect on the entity arena.
//!
//! An action's effect works on the whole entity list plus the index of the
//! acting entity, so one entity is mutated while the others stay addressable.
//! Area attacks never affect the acting entity itself.

use vstd::prelude::*;

use crate::entity::Entity;
use crate::logger::{logs_extended_by, Logger};
use crate::stats::{sat_add_u32, EntityStats};
use crate::text::{append_u64, spec_decimal};
use vstd::string::StringExecFns;

verus! {

/// The element of an attack.
#[derive(Clone, Copy, PartialEq, Eq, Structural, Debug)]
pub enum ActionType {
    Physical,
    Fire,
    Ice,
    Lightning,
    Healing,
}

/// A single-target attack on the destination cell.
pub struct MeleeAttack {
    pub name: String,
    pub damage: u32,
    pub attack_type: ActionType,
}

/// The ghost image of a melee attack: its name as a character sequence.
pub struct MeleeAttackView {
    pub name: Seq<char>,
    pub damage: u32,
    pub attack_type: ActionType,
}

impl View for MeleeAttack {
    type V = MeleeAttackView;

    open spec fn view(&self) -> MeleeAttackView {
        MeleeAttackView { name: self.name@, damage: self.damage, attack_type: self.attack_type }
    }
}

impl MeleeAttack {
    /// A melee attack with the given base damage.
    pub fn new(name: &str, damage: u32, attack_type: ActionType) -> (r: MeleeAttack)
        ensures
            r@ == (MeleeAttackView { name: name@, damage, attack_type }),
    {
        MeleeAttack { name: String::from_str(name), damage, attack_type }
    }

    /// The damage the attack deals for the given source entity.
    pub fn calculate_damage(&self, source: &Entity) -> (r: u32)
        requires
            source.wf(),
        ensures
            r == spec_action_damage(self.damage, *source),
    {
        calculate_damage_from(self.damage, source)
    }
}

/// An attack on every cell within a radius of the destination.
pub struct AreaAttack {
    pub name: String,
    pub damage: u32,
    pub attack_range: u32,
    pub area_radius: u32,
    pub attack_type: ActionType,
    pub mana_cost: u32,
}

/// The ghost image of an area attack: its name as a character sequence.
pub struct AreaAttackView {
    pub name: Seq<char>,
    pub damage: u32,
    pub attack_range: u32,
    pub area_radius: u32,
    pub attack_type: ActionType,
    pub mana_cost: u32,
}

impl View for AreaAttack {
    type V = AreaAttackView;

    open spec fn view(&self) -> AreaAttackView {
        AreaAttackView {
            name: self.name@,
            damage: self.damage,
            attack_range: self.attack_range,
            area_radius: self.area_radius,
            attack_type: self.attack_type,
            mana_cost: self.mana_cost,
        }
    }
}

impl AreaAttack {
    /// An area attack with the given base damage, range, radius and mana cost.
    pub fn new(
        name: &str,
        damage: u32,
        range: u32,
        radius: u32,
        attack_type: ActionType,
        mana_cost: u32,
    ) -> (r: AreaAttack)
        ensures
            r@ == (AreaAttackView {
                name: name@,
                damage,
                attack_range: range,
                area_radius: radius,
                attack_type,
                mana_cost,
            }),
    {
        AreaAttack {
            damage,
            name: String::from_str(name),
            attack_range: range,
            area_radius: radius,
            attack_type,
            mana_cost,
        }
    }

    /// The damage the attack deals for the given source entity.
    pub fn calculate_damage(&self, source: &Entity) -> (r: u32)
        requires
            source.wf(),
        ensures
            r == spec_action_damage(self.damage, *source),
    {
        calculate_damage_from(self.damage, source)
    }
}

/// The closed set of combat actions.
pub enum Action {
    Melee(MeleeAttack),
    Area(AreaAttack),
}

/// The ghost image of an action.
pub enum ActionView {
    Melee(MeleeAttackView),
    Area(AreaAttackView),
}

impl View for Action {
    type V = ActionView;

    open spec fn view(&self) -> ActionView {
        match self {
            Action::Melee(m) => ActionView::Melee(m@),
            Action::Area(a) => ActionView::Area(a@),
        }
    }
}

impl Clone for MeleeAttack {
    /// An exact copy.
    fn clone(&self) -> (r: MeleeAttack)
        ensures
            r == *self,
    {
        MeleeAttack {
            name: self.name.clone(),
            damage: self.damage,
            attack_type: self.attack_type,
        }
    }
}

impl Clone for AreaAttack {
    /// An exact copy.
    fn clone(&self) -> (r: AreaAttack)
        ensures
            r == *self,
    {
        AreaAttack {
            name: self.name.clone(),
            damage: self.damage,
            attack_range: self.attack_range,
            area_radius: self.area_radius,
            attack_type: self.attack_type,
            mana_cost: self.mana_cost,
        }
    }
}

impl Clone for Action {
    /// An exact copy.
    fn clone(&self) -> (r: Action)
        ensures
            r == *self,
    {
        match self {
            Action::Melee(m) => Action::Melee(m.clone()),
            Action::Area(a) => Action::Area(a.clone()),
        }
    }
}

/// The damage formula: base damage plus the source's strength, plus the
/// equipped weapon's strength when present (saturating).
pub open spec fn spec_action_damage(base: u32, source: Entity) -> u32 {
    let with_strength = sat_add_u32(base as int, source.stats.strength as int);
    match source.spec_weapon_data() {
        Some(w) => sat_add_u32(with_strength, w.strength as int) as u32,
        None => with_strength as u32,
    }
}

/// Computes the damage formula for a source entity.
fn calculate_damage_from(base: u32, source: &Entity) -> (r: u32)
    requires
        source.wf(),
    ensures
        r == spec_action_damage(base, *source),
{
    let with_strength = base.saturating_add(source.stats.strength);
    match source.get_weapon_data() {
        Some(w) => with_strength.saturating_add(w.strength),
        None => with_strength,
    }
}

impl Action {
    /// The action's base damage, before the formula.
    pub open spec fn spec_base_damage(&self) -> u32 {
        match self {
            Action::Melee(m) => m.damage,
            Action::Area(a) => a.damage,
        }
    }

    /// The action's mana cost: melee attacks are free.
    pub open spec fn spec_mana_cost(&self) -> u32 {
        match self {
            Action::Melee(_) => 0,
            Action::Area(a) => a.mana_cost,
        }
    }

    /// The action's mana cost.
    pub fn mana_cost(&self) -> (r: u32)
        ensures
            r == self.spec_mana_cost(),
    {
        match self {
            Action::Melee(_) => 0,
            Action::Area(a) => a.mana_cost,
        }
    }

    /// The action's reach: melee attacks reach one cell.
    pub fn range(&self) -> (r: u32)
        ensures
            r == (match self {
                Action::Melee(_) => 1u32,
                Action::Area(a) => a.attack_range,
            }),
    {
        match self {
            Action::Melee(_) => 1,
            Action::Area(a) => a.attack_range,
        }
    }

    /// The action's display name.
    pub fn name(&self) -> (r: &str)
        ensures
            r@ == (match self {
                Action::Melee(m) => m.name@,
                Action::Area(a) => a.name@,
            }),
    {
        match self {
            Action::Melee(m) => m.name.as_str(),
            Action::Area(a) => a.name.as_str(),
        }
    }

    /// The action's element.
    pub fn attack_type(&self) -> (r: ActionType)
        ensures
            r == (match self {
                Action::Melee(m) => m.attack_type,
                Action::Area(a) => a.attack_type,
            }),
    {
        match self {
            Action::Melee(m) => m.attack_type,
            Action::Area(a) => a.attack_type,
        }
    }

    /// Pays the mana cost when the stats can afford it: returns whether the
    /// action may proceed, deducting the cost exactly when it does.
    pub fn handle_mana_cost(&self, source_stats: &mut EntityStats) -> (r: bool)
        ensures
            r == (old(source_stats).mana >= self.spec_mana_cost()),
            r ==> *final(source_stats) == (EntityStats {
                mana: (old(source_stats).mana - self.spec_mana_cost()) as u32,
                ..*old(source_stats)
            }),
            !r ==> *final(source_stats) == *old(source_stats),
    {
        let mana_cost = self.mana_cost();
        if source_stats.mana >= mana_cost {
            source_stats.mana = source_stats.mana - mana_cost;
            true
        } else {
            false
        }
    }
}

/// An entity after taking `dmg` damage; nothing else changes.
pub open spec fn spec_damaged(e: Entity, dmg: u32) -> Entity {
    Entity { stats: e.stats.spec_after_damage(dmg), ..e }
}

/// The damage actually dealt to `e` by a hit of `dmg`: clamped to its hp.
pub open spec fn spec_dealt(e: Entity, dmg: u32) -> int {
    if dmg >= e.stats.hp {
        e.stats.hp as int
    } else {
        dmg as int
    }
}

/// Whether a hit of `dmg` kills `e`: it was alive and the damage covers its hp.
pub open spec fn spec_dies(e: Entity, dmg: u32) -> bool {
    e.stats.hp > 0 && dmg >= e.stats.hp
}

/// The attack log line: `<source> attacks <target> (-<dealt> PV)`, with
/// ` and it died` appended when the hit was lethal.
pub open spec fn spec_attack_message(
    ssym: Seq<char>,
    tsym: Seq<char>,
    dealt: int,
    died: bool,
) -> Seq<char> {
    ssym + " attacks "@ + tsym + " (-"@ + spec_decimal(dealt) + " PV)"@ + (if died {
        " and it died"@
    } else {
        Seq::<char>::empty()
    })
}

/// The first entity other than `source` standing at `c`, scanning from `i`.
pub open spec fn spec_find_target(s: Seq<Entity>, source: int, c: (i32, i32, i32), i: int) -> Option<
    int,
>
    decreases s.len() - i,
        when 0 <= i <= s.len()
{
    if i >= s.len() {
        None
    } else if i != source && s[i].position == c {
        Some(i)
    } else {
        spec_find_target(s, source, c, i + 1)
    }
}

/// The arena after a melee hit on the first entity (other than the source)
/// standing at `c`.
pub open spec fn spec_melee_result(s: Seq<Entity>, source: int, c: (i32, i32, i32), dmg: u32) -> Seq<
    Entity,
> {
    match spec_find_target(s, source, c, 0) {
        None => s,
        Some(j) => s.update(j, spec_damaged(s[j], dmg)),
    }
}

/// The messages a melee hit emits: one attack line when a target stood at `c`.
pub open spec fn spec_melee_messages(
    s: Seq<Entity>,
    source: int,
    c: (i32, i32, i32),
    dmg: u32,
) -> Seq<Seq<char>> {
    match spec_find_target(s, source, c, 0) {
        None => Seq::empty(),
        Some(j) => seq![
            spec_attack_message(
                s[source].kind.spec_symbol(),
                s[j].kind.spec_symbol(),
                spec_dealt(s[j], dmg),
                spec_dies(s[j], dmg),
            ),
        ],
    }
}

/// Whether `p` lies within `radius` of the target cell `c`: same layer and
/// inside the circular mask.
pub open spec fn spec_in_area(c: (i32, i32, i32), radius: u32, p: (i32, i32, i32)) -> bool {
    &&& p.2 == c.2
    &&& (p.0 - c.0) * (p.0 - c.0) + (p.1 - c.1) * (p.1 - c.1) <= radius * radius
}

/// The arena after an area hit around `c`: every entity in the area other
/// than the source takes the damage.
pub open spec fn spec_area_result(
    s: Seq<Entity>,
    source: int,
    c: (i32, i32, i32),
    dmg: u32,
    radius: u32,
) -> Seq<Entity> {
    Seq::new(
        s.len(),
        |j: int|
            if j != source && spec_in_area(c, radius, s[j].position) {
                spec_damaged(s[j], dmg)
            } else {
                s[j]
            },
    )
}

/// The attack lines an area hit emits for the first `i` entities, in index
/// order.
pub open spec fn spec_area_messages(
    s: Seq<Entity>,
    source: int,
    c: (i32, i32, i32),
    dmg: u32,
    radius: u32,
    i: int,
) -> Seq<Seq<char>>
    decreases i,
        when 0 <= i <= s.len()
{
    if i <= 0 {
        Seq::empty()
    } else {
        spec_area_messages(s, source, c, dmg, radius, i - 1) + (if i - 1 != source && spec_in_area(
            c,
            radius,
            s[i - 1].position,
        ) {
            seq![
                spec_attack_message(
                    s[source].kind.spec_symbol(),
                    s[i - 1].kind.spec_symbol(),
                    spec_dealt(s[i - 1], dmg),
                    spec_dies(s[i - 1], dmg),
                ),
            ]
        } else {
            Seq::<Seq<char>>::empty()
        })
    }
}

/// How many of the first `i` entities an area hit around `c` affects.
pub open spec fn spec_area_affected(
    s: Seq<Entity>,
    source: int,
    c: (i32, i32, i32),
    radius: u32,
    i: int,
) -> int
    decreases i,
        when 0 <= i <= s.len()
{
    if i <= 0 {
        0
    } else {
        spec_area_affected(s, source, c, radius, i - 1) + (if i - 1 != source && spec_in_area(
            c,
            radius,
            s[i - 1].position,
        ) {
            1int
        } else {
            0int
        })
    }
}

/// How many of the first `i` entities an area hit kills.
pub open spec fn spec_area_killed(
    s: Seq<Entity>,
    source: int,
    c: (i32, i32, i32),
    dmg: u32,
    radius: u32,
    i: int,
) -> int
    decreases i,
        when 0 <= i <= s.len()
{
    if i <= 0 {
        0
    } else {
        spec_area_killed(s, source, c, dmg, radius, i - 1) + (if i - 1 != source && spec_in_area(
            c,
            radius,
            s[i - 1].position,
        ) && spec_dies(s[i - 1], dmg) {
            1int
        } else {
            0int
        })
    }
}

/// The summary line an area attack emits.
pub open spec fn spec_area_summary(
    ssym: Seq<char>,
    aname: Seq<char>,
    affected: int,
    killed: int,
    dmg: u32,
) -> Seq<char> {
    if affected > 0 {
        ssym + " attacks "@ + aname + " and hits "@ + spec_decimal(affected) + " entity"@ + (if
        affected > 1 {
            "s"@
        } else {
            Seq::<char>::empty()
        }) + " (-"@ + spec_decimal(dmg as int) + " PV)"@ + (if killed > 0 {
            ", "@ + spec_decimal(killed) + " entity"@ + (if killed > 1 {
                "s"@
            } else {
                Seq::<char>::empty()
            }) + " dead"@ + (if killed > 1 {
                "s"@
            } else {
                Seq::<char>::empty()
            })
        } else {
            Seq::<char>::empty()
        })
    } else {
        ssym + " attacks "@ + aname + " but does not reach any entities"@
    }
}

/// The arena after an action's effect around `c`, acted by `source`.
pub open spec fn spec_affect_result(
    a: Action,
    s: Seq<Entity>,
    source: int,
    c: (i32, i32, i32),
) -> Seq<Entity> {
    let dmg = spec_action_damage(a.spec_base_damage(), s[source]);
    match a {
        Action::Melee(_) => spec_melee_result(s, source, c, dmg),
        Action::Area(ar) => spec_area_result(s, source, c, dmg, ar.area_radius),
    }
}

/// The messages an action's effect emits.
pub open spec fn spec_affect_messages(
    a: Action,
    s: Seq<Entity>,
    source: int,
    c: (i32, i32, i32),
) -> Seq<Seq<char>> {
    let dmg = spec_action_damage(a.spec_base_damage(), s[source]);
    match a {
        Action::Melee(_) => spec_melee_messages(s, source, c, dmg),
        Action::Area(ar) => spec_area_messages(s, source, c, dmg, ar.area_radius, s.len() as int)
            + seq![
            spec_area_summary(
                s[source].kind.spec_symbol(),
                ar.name@,
                spec_area_affected(s, source, c, ar.area_radius, s.len() as int),
                spec_area_killed(s, source, c, dmg, ar.area_radius, s.len() as int),
                dmg,
            ),
        ],
    }
}

/// A found target is a valid index other than the source, standing at `c`,
/// and no earlier such index exists; absence means no such index at all.
pub proof fn lemma_find_target_props(s: Seq<Entity>, source: int, c: (i32, i32, i32), i: int)
    requires
        0 <= i <= s.len(),
    ensures
        match spec_find_target(s, source, c, i) {
            Some(j) => i <= j < s.len() && j != source && s[j].position == c,
            None => forall|k: int| i <= k < s.len() && k != source ==> (#[trigger] s[k]).position != c,
        },
    decreases s.len() - i,
{
    if i < s.len() {
        if !(i != source && s[i].position == c) {
            lemma_find_target_props(s, source, c, i + 1);
        }
    }
}

/// Finding a target only depends on the entities' positions.
pub proof fn lemma_find_target_same_positions(
    s1: Seq<Entity>,
    s2: Seq<Entity>,
    source: int,
    c: (i32, i32, i32),
    i: int,
)
    requires
        0 <= i <= s1.len(),
        s2.len() == s1.len(),
        forall|k: int| 0 <= k < s1.len() ==> (#[trigger] s2[k]).position == s1[k].position,
    ensures
        spec_find_target(s2, source, c, i) == spec_find_target(s1, source, c, i),
    decreases s1.len() - i,
{
    if i < s1.len() {
        if !(i != source && s1[i].position == c) {
            lemma_find_target_same_positions(s1, s2, source, c, i + 1);
        }
    }
}

/// An action's effect only rewrites stats: every entity keeps its position,
/// kind, controller, equipment and everything else, and the source entity is
/// untouched entirely.
pub proof fn lemma_affect_preserves(a: Action, s: Seq<Entity>, source: int, c: (i32, i32, i32))
    requires
        0 <= source < s.len(),
    ensures
        spec_affect_result(a, s, source, c).len() == s.len(),
        forall|i: int|
            0 <= i < s.len() ==> #[trigger] spec_affect_result(a, s, source, c)[i] == (Entity {
                stats: spec_affect_result(a, s, source, c)[i].stats,
                ..s[i]
            }),
        spec_affect_result(a, s, source, c)[source] == s[source],
{
    let dmg = spec_action_damage(a.spec_base_damage(), s[source]);
    match a {
        Action::Melee(_) => {
            lemma_find_target_props(s, source, c, 0);
        },
        Action::Area(_) => {},
    }
}

/// The entity after paying a mana cost: only its mana changes.
pub open spec fn spec_pay(e: Entity, cost: u32) -> Entity {
    Entity { stats: EntityStats { mana: (e.stats.mana - cost) as u32, ..e.stats }, ..e }
}

/// The arena and messages after the acting entity runs its action list from
/// index `k`: each action whose mana cost the actor can still afford is paid
/// for and applied in order; unaffordable actions are skipped silently.
pub open spec fn spec_run_actions(
    s: Seq<Entity>,
    actor: int,
    c: (i32, i32, i32),
    actions: Seq<Action>,
    k: int,
) -> (Seq<Entity>, Seq<Seq<char>>)
    decreases actions.len() - k,
        when 0 <= k <= actions.len() && 0 <= actor < s.len()
        via spec_run_actions_decreases
{
    if k >= actions.len() {
        (s, Seq::empty())
    } else {
        let a = actions[k];
        if s[actor].stats.mana >= a.spec_mana_cost() {
            let s1 = s.update(actor, spec_pay(s[actor], a.spec_mana_cost()));
            let s2 = spec_affect_result(a, s1, actor, c);
            let msgs = spec_affect_messages(a, s1, actor, c);
            let rec = spec_run_actions(s2, actor, c, actions, k + 1);
            (rec.0, msgs + rec.1)
        } else {
            spec_run_actions(s, actor, c, actions, k + 1)
        }
    }
}

#[via_fn]
proof fn spec_run_actions_decreases(
    s: Seq<Entity>,
    actor: int,
    c: (i32, i32, i32),
    actions: Seq<Action>,
    k: int,
) {
    if k < actions.len() {
        let a = actions[k];
        if s[actor].stats.mana >= a.spec_mana_cost() {
            let s1 = s.update(actor, spec_pay(s[actor], a.spec_mana_cost()));
            lemma_affect_preserves(a, s1, actor, c);
        }
    }
}

/// Law: resolving an action list never moves anyone — every entity keeps its
/// position (and everything else but its stats), and the arena keeps its
/// size. In particular the acting entity's position is unchanged.
pub proof fn lemma_run_actions_preserves(
    s: Seq<Entity>,
    actor: int,
    c: (i32, i32, i32),
    actions: Seq<Action>,
    k: int,
)
    requires
        0 <= k <= actions.len(),
        0 <= actor < s.len(),
    ensures
        spec_run_actions(s, actor, c, actions, k).0.len() == s.len(),
        forall|i: int|
            0 <= i < s.len() ==> #[trigger] spec_run_actions(s, actor, c, actions, k).0[i] == (
            Entity { stats: spec_run_actions(s, actor, c, actions, k).0[i].stats, ..s[i] }),
    decreases actions.len() - k,
{
    if k < actions.len() {
        let a = actions[k];
        if s[actor].stats.mana >= a.spec_mana_cost() {
            let s1 = s.update(actor, spec_pay(s[actor], a.spec_mana_cost()));
            lemma_affect_preserves(a, s1, actor, c);
            let s2 = spec_affect_result(a, s1, actor, c);
            lemma_run_actions_preserves(s2, actor, c, actions, k + 1);
        } else {
            lemma_run_actions_preserves(s, actor, c, actions, k + 1);
        }
    }
}

/// Law: colliding with an occupied cell invokes combat — when a target
/// stands at the destination and the actor can afford its first action, at
/// least one combat message is emitted.
pub proof fn lemma_combat_emits_message(
    s: Seq<Entity>,
    actor: int,
    c: (i32, i32, i32),
    actions: Seq<Action>,
)
    requires
        0 <= actor < s.len(),
        actions.len() > 0,
        actions[0].spec_mana_cost() <= s[actor].stats.mana,
        spec_find_target(s, actor, c, 0) is Some,
    ensures
        spec_run_actions(s, actor, c, actions, 0).1.len() >= 1,
{
    let a = actions[0];
    let s1 = s.update(actor, spec_pay(s[actor], a.spec_mana_cost()));
    lemma_find_target_same_positions(s, s1, actor, c, 0);
    match a {
        Action::Melee(_) => {},
        Action::Area(_) => {},
    }
}

/// Builds the attack log line.
fn build_attack_message(ssym: &str, tsym: &str, dealt: u32, died: bool) -> (r: String)
    ensures
        r@ == spec_attack_message(ssym@, tsym@, dealt as int, died),
{
    let mut msg = String::new();
    msg.append(ssym);
    msg.append(" attacks ");
    msg.append(tsym);
    msg.append(" (-");
    append_u64(&mut msg, dealt as u64);
    msg.append(" PV)");
    if died {
        msg.append(" and it died");
    }
    proof {
        assert(msg@ =~= spec_attack_message(ssym@, tsym@, dealt as int, died));
    }
    msg
}

/// Builds the area attack summary line.
fn build_area_summary(ssym: &str, aname: &str, affected: u64, killed: u64, dmg: u32) -> (r: String)
    ensures
        r@ == spec_area_summary(ssym@, aname@, affected as int, killed as int, dmg),
{
    let mut msg = String::new();
    msg.append(ssym);
    msg.append(" attacks ");
    msg.append(aname);
    if affected > 0 {
        msg.append(" and hits ");
        append_u64(&mut msg, affected);
        msg.append(" entity");
        if affected > 1 {
            msg.append("s");
        }
        msg.append(" (-");
        append_u64(&mut msg, dmg as u64);
        msg.append(" PV)");
        if killed > 0 {
            msg.append(", ");
            append_u64(&mut msg, killed);
            msg.append(" entity");
            if killed > 1 {
                msg.append("s");
            }
            msg.append(" dead");
            if killed > 1 {
                msg.append("s");
            }
        }
    } else {
        msg.append(" but does not reach any entities");
    }
    proof {
        assert(msg@ =~= spec_area_summary(ssym@, aname@, affected as int, killed as int, dmg));
    }
    msg
}

impl Action {
    /// Applies the action's effect around the destination `target_coordinates`:
    /// a melee attack damages the first other entity standing there; an area
    /// attack damages every other entity within its radius of the destination
    /// (line of sight plays no role). One attack line is logged per entity
    /// hit, and area attacks log a summary line.
    pub fn affect(
        &self,
        entities: &mut Vec<Entity>,
        source: usize,
        target_coordinates: (i32, i32, i32),
        logger: &mut Logger,
    )
        requires
            source < old(entities)@.len(),
            old(entities)@[source as int].wf(),
        ensures
            final(entities)@ == spec_affect_result(
                *self,
                old(entities)@,
                source as int,
                target_coordinates,
            ),
            logs_extended_by(
                old(logger).logs@,
                final(logger).logs@,
                spec_affect_messages(*self, old(entities)@, source as int, target_coordinates),
            ),
            final(logger).max_displayed() == old(logger).max_displayed(),
            final(entities)@.len() == old(entities)@.len(),
            final(entities)@[source as int] == old(entities)@[source as int],
    {
        match self {
            Action::Melee(m) => {
                melee_affect(m, entities, source, target_coordinates, logger);
            },
            Action::Area(a) => {
                area_affect(a, entities, source, target_coordinates, logger);
            },
        }
    }
}

/// Applies a melee attack: the first other entity at the destination takes
/// the damage and an attack line is logged.
fn melee_affect(
    m: &MeleeAttack,
    entities: &mut Vec<Entity>,
    source: usize,
    c: (i32, i32, i32),
    logger: &mut Logger,
)
    requires
        source < old(entities)@.len(),
        old(entities)@[source as int].wf(),
    ensures
        ({
            let dmg = spec_action_damage(m.damage, old(entities)@[source as int]);
            &&& final(entities)@ == spec_melee_result(old(entities)@, source as int, c, dmg)
            &&& logs_extended_by(
                old(logger).logs@,
                final(logger).logs@,
                spec_melee_messages(old(entities)@, source as int, c, dmg),
            )
        }),
        final(logger).max_displayed() == old(logger).max_displayed(),
        final(entities)@.len() == old(entities)@.len(),
        final(entities)@[source as int] == old(entities)@[source as int],
{
    let dmg = m.calculate_damage(&entities[source]);
    let ssym = entities[source].kind.symbol();
    let n = entities.len();
    let mut j: usize = 0;
    while j < n
        invariant
            n == entities@.len(),
            0 <= j <= n,
            source < n,
            *entities == *old(entities),
            *logger == *old(logger),
            old(entities)@[source as int].wf(),
            dmg == spec_action_damage(m.damage, old(entities)@[source as int]),
            ssym@ == old(entities)@[source as int].kind.spec_symbol(),
            spec_find_target(entities@, source as int, c, 0) == spec_find_target(
                entities@,
                source as int,
                c,
                j as int,
            ),
        decreases n - j,
    {
        if j != source {
            let p = entities[j].position;
            if p.0 == c.0 && p.1 == c.1 && p.2 == c.2 {
                let tsym = entities[j].kind.symbol();
                let was_alive = entities[j].stats.hp > 0;
                let e = &mut entities[j];
                let dealt = e.take_damage(dmg);
                let died = was_alive && entities[j].stats.hp == 0;
                let msg = build_attack_message(ssym, tsym, dealt, died);
                logger.push_message(msg);
                proof {
                    assert(spec_find_target(old(entities)@, source as int, c, j as int) == Some(
                        j as int,
                    ));
                    assert(entities@ =~= old(entities)@.update(
                        j as int,
                        spec_damaged(old(entities)@[j as int], dmg),
                    ));
                }
                return ;
            }
        }
        j = j + 1;
    }
}

/// Applies an area attack: every other entity within the radius of the
/// destination takes the damage; an attack line is logged per entity hit and
/// a summary line closes the attack.
fn area_affect(
    a: &AreaAttack,
    entities: &mut Vec<Entity>,
    source: usize,
    c: (i32, i32, i32),
    logger: &mut Logger,
)
    requires
        source < old(entities)@.len(),
        old(entities)@[source as int].wf(),
    ensures
        ({
            let dmg = spec_action_damage(a.damage, old(entities)@[source as int]);
            let s0 = old(entities)@;
            let len = s0.len() as int;
            &&& final(entities)@ == spec_area_result(s0, source as int, c, dmg, a.area_radius)
            &&& logs_extended_by(
                old(logger).logs@,
                final(logger).logs@,
                spec_area_messages(s0, source as int, c, dmg, a.area_radius, len) + seq![
                    spec_area_summary(
                        s0[source as int].kind.spec_symbol(),
                        a.name@,
                        spec_area_affected(s0, source as int, c, a.area_radius, len),
                        spec_area_killed(s0, source as int, c, dmg, a.area_radius, len),
                        dmg,
                    ),
                ],
            )
        }),
        final(logger).max_displayed() == old(logger).max_displayed(),
        final(entities)@.len() == old(entities)@.len(),
        final(entities)@[source as int] == old(entities)@[source as int],
{
    let dmg = a.calculate_damage(&entities[source]);
    let ssym = entities[source].kind.symbol();
    let n = entities.len();
    let mut affected: u64 = 0;
    let mut killed: u64 = 0;
    let mut j: usize = 0;
    let ghost s0 = entities@;
    while j < n
        invariant
            n == s0.len(),
            entities@.len() == s0.len(),
            0 <= j <= n,
            source < n,
            s0[source as int].wf(),
            ssym@ == s0[source as int].kind.spec_symbol(),
            dmg == spec_action_damage(a.damage, s0[source as int]),
            entities@[source as int] == s0[source as int],
            forall|k: int| j <= k < n ==> entities@[k] == s0[k],
            forall|k: int|
                0 <= k < j ==> #[trigger] entities@[k] == (if k != source && spec_in_area(
                    c,
                    a.area_radius,
                    s0[k].position,
                ) {
                    spec_damaged(s0[k], dmg)
                } else {
                    s0[k]
                }),
            affected == spec_area_affected(s0, source as int, c, a.area_radius, j as int),
            killed == spec_area_killed(s0, source as int, c, dmg, a.area_radius, j as int),
            affected <= j,
            killed <= j,
            logs_extended_by(
                old(logger).logs@,
                logger.logs@,
                spec_area_messages(s0, source as int, c, dmg, a.area_radius, j as int),
            ),
            logger.max_displayed() == old(logger).max_displayed(),
        decreases n - j,
    {
        let ghost logs_before = logger.logs@;
        if j != source {
            let p = entities[j].position;
            let ddx: i128 = p.0 as i128 - c.0 as i128;
            let ddy: i128 = p.1 as i128 - c.1 as i128;
            proof {
                assert(ddx * ddx >= 0 && ddx * ddx <= 0x1_0000_0000_0000_0000 && ddy * ddy >= 0
                    && ddy * ddy <= 0x1_0000_0000_0000_0000 && (a.area_radius as i128) * (
                a.area_radius as i128) >= 0 && (a.area_radius as i128) * (a.area_radius as i128)
                    <= 0x1_0000_0000_0000_0000) by (nonlinear_arith)
                    requires
                        -0x1_0000_0000 <= ddx <= 0x1_0000_0000,
                        -0x1_0000_0000 <= ddy <= 0x1_0000_0000,
                        0 <= (a.area_radius as i128) <= 0x1_0000_0000,
                ;
            }
            if p.2 == c.2 && ddx * ddx + ddy * ddy <= (a.area_radius as i128) * (
            a.area_radius as i128) {
                let tsym = entities[j].kind.symbol();
                let was_alive = entities[j].stats.hp > 0;
                let e = &mut entities[j];
                let dealt = e.take_damage(dmg);
                let died = was_alive && entities[j].stats.hp == 0;
                affected = affected + 1;
                if died {
                    killed = killed + 1;
                }
                let msg = build_attack_message(ssym, tsym, dealt, died);
                logger.push_message(msg);
            }
        }
        proof {
            assert(spec_area_messages(s0, source as int, c, dmg, a.area_radius, j + 1)
                == spec_area_messages(s0, source as int, c, dmg, a.area_radius, j as int) + (if
            j as int != source && spec_in_area(c, a.area_radius, s0[j as int].position) {
                seq![
                    spec_attack_message(
                        s0[source as int].kind.spec_symbol(),
                        s0[j as int].kind.spec_symbol(),
                        spec_dealt(s0[j as int], dmg),
                        spec_dies(s0[j as int], dmg),
                    ),
                ]
            } else {
                Seq::<Seq<char>>::empty()
            }));
        }
        j = j + 1;
    }
    let aname = a.name.as_str();
    let msg = build_area_summary(ssym, aname, affected, killed, dmg);
    logger.push_message(msg);
    proof {
        assert(entities@ =~= spec_area_result(s0, source as int, c, dmg, a.area_radius));
    }
}

} // verus!
