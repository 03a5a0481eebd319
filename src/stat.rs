//! Combatant attributes, their stacking, and the attack and damage rules.
use crate::fixed::{
    complement, fmul, fmul_spec, lemma_fmul_le, lemma_fmul_split, lemma_fmul_unit, nonneg, nonneg_spec, unit,
    unit_spec, ONE,
};
use crate::hit::{body_part_spec, cumulative, outcome_spec, random_body_part, BodyPart, Chance, Hit, HitType};
use crate::random::roll_below;
use rand::rngs::StdRng;
use vstd::prelude::*;

verus! {

/// Identifiers of skills and status effects.
#[derive(PartialEq, Eq, Structural, Debug, Clone, Copy, Hash)]
pub enum IdSkills {
    WarcryOther,
    Confusion,
    WarcrySelf,
    FencerStance,
    SeizedInitiative,
    LossInitiative,
    DisengageSelf,
    DisengageOther,
    Bleeding,
    Daze,
    Stun,
    Knockback,
    Immobilization,
    Stagger,
    Poisoning,
    AcidBath,
}

/// Kinds of damage; poison and caustic are magical, the rest physical.
#[derive(PartialEq, Eq, Structural, Debug, Clone, Copy)]
pub enum DamageType {
    Slash,
    Pierc,
    Crush,
    Rend,
    Poison,
    Caustic,
}

impl DamageType {
    pub open spec fn is_magic_spec(self) -> bool {
        self is Poison || self is Caustic
    }

    pub fn is_magic(self) -> (r: bool)
        ensures
            r == self.is_magic_spec(),
    {
        match self {
            DamageType::Slash => false,
            DamageType::Pierc => false,
            DamageType::Crush => false,
            DamageType::Rend => false,
            DamageType::Poison => true,
            DamageType::Caustic => true,
        }
    }
}

#[derive(PartialEq, Eq, Structural, Debug, Clone, Copy)]
pub enum WeaponType {
    Sword,
    Axe,
    Mace,
    Dagger,
    TwohSword,
    TwohAxe,
    TwohMace,
    Staff,
    Spear,
    Bow,
    Crossbow,
    Rend,
}

impl WeaponType {
    /// The status effect that a critical hit with this weapon favours, and the
    /// chance added to it (in millionths).
    pub open spec fn crit_bonus_spec(self) -> Option<(IdSkills, i64)> {
        match self {
            WeaponType::Sword => Some((IdSkills::Bleeding, 500_000)),
            WeaponType::Mace => Some((IdSkills::Daze, 500_000)),
            WeaponType::TwohSword => Some((IdSkills::Bleeding, 750_000)),
            WeaponType::TwohMace => Some((IdSkills::Daze, 750_000)),
            WeaponType::Spear => Some((IdSkills::Immobilization, 750_000)),
            WeaponType::Bow => Some((IdSkills::Immobilization, 500_000)),
            WeaponType::Crossbow => Some((IdSkills::Knockback, 1_250_000)),
            WeaponType::Rend => Some((IdSkills::Bleeding, 500_000)),
            _ => None,
        }
    }

    pub fn additional_effect(&self) -> (r: Option<(IdSkills, i64)>)
        ensures
            r == self.crit_bonus_spec(),
    {
        match self {
            WeaponType::Sword => Some((IdSkills::Bleeding, 500_000)),
            WeaponType::Mace => Some((IdSkills::Daze, 500_000)),
            WeaponType::TwohSword => Some((IdSkills::Bleeding, 750_000)),
            WeaponType::TwohMace => Some((IdSkills::Daze, 750_000)),
            WeaponType::Spear => Some((IdSkills::Immobilization, 750_000)),
            WeaponType::Bow => Some((IdSkills::Immobilization, 500_000)),
            WeaponType::Crossbow => Some((IdSkills::Knockback, 1_250_000)),
            WeaponType::Rend => Some((IdSkills::Bleeding, 500_000)),
            _ => None,
        }
    }
}

/// Stacks two optional amounts: the sum when both are present (saturating at
/// the bounds of the type), the present one otherwise.
pub open spec fn merge_u64_spec(a: Option<u64>, b: Option<u64>) -> Option<u64> {
    match (a, b) {
        (Some(i), Some(j)) => Some(
            if i + j > u64::MAX {
                u64::MAX
            } else {
                (i + j) as u64
            },
        ),
        (Some(i), None) => Some(i),
        (None, Some(j)) => Some(j),
        (None, None) => None,
    }
}

/// As `merge_u64_spec`, for signed fixed-point values.
pub open spec fn merge_i64_spec(a: Option<i64>, b: Option<i64>) -> Option<i64> {
    match (a, b) {
        (Some(i), Some(j)) => Some(
            if i + j > i64::MAX {
                i64::MAX
            } else if i + j < i64::MIN {
                i64::MIN
            } else {
                (i + j) as i64
            },
        ),
        (Some(i), None) => Some(i),
        (None, Some(j)) => Some(j),
        (None, None) => None,
    }
}

/// A non-additive field: the later operand wins when present.
pub open spec fn override_spec<T>(a: Option<T>, b: Option<T>) -> Option<T> {
    match b {
        Some(_) => b,
        None => a,
    }
}

pub fn merge_u64(a: Option<u64>, b: Option<u64>) -> (r: Option<u64>)
    ensures
        r == merge_u64_spec(a, b),
{
    match (a, b) {
        (Some(i), Some(j)) => Some(i.saturating_add(j)),
        (Some(i), None) => Some(i),
        (None, Some(j)) => Some(j),
        (None, None) => None,
    }
}

pub fn merge_i64(a: Option<i64>, b: Option<i64>) -> (r: Option<i64>)
    ensures
        r == merge_i64_spec(a, b),
{
    match (a, b) {
        (Some(i), Some(j)) => {
            let t: i128 = i as i128 + j as i128;
            if t > i64::MAX as i128 {
                Some(i64::MAX)
            } else if t < i64::MIN as i128 {
                Some(i64::MIN)
            } else {
                Some(t as i64)
            }
        },
        (Some(i), None) => Some(i),
        (None, Some(j)) => Some(j),
        (None, None) => None,
    }
}

/// An optional signed value, or a default.
pub open spec fn or_i(o: Option<i64>, d: int) -> int {
    match o {
        Some(x) => x as int,
        None => d,
    }
}

/// An optional unsigned value, or a default.
pub open spec fn or_u(o: Option<u64>, d: int) -> int {
    match o {
        Some(x) => x as int,
        None => d,
    }
}

/// Protection and resistances of one body location. Fractions are in
/// millionths.
#[derive(PartialEq, Eq, Structural, Debug, Clone, Copy)]
pub struct BobyPart {
    pub protection: Option<u64>,
    pub phy_res: Option<i64>,
    pub slash_res: Option<i64>,
    pub pierc_res: Option<i64>,
    pub crush_res: Option<i64>,
    pub rend_res: Option<i64>,
    pub poison_res: Option<i64>,
    pub caustic_res: Option<i64>,
    pub bleed_res: Option<i64>,
}

impl BobyPart {
    /// The record with every field absent.
    pub open spec fn empty_spec() -> BobyPart {
        BobyPart {
            protection: None,
            phy_res: None,
            slash_res: None,
            pierc_res: None,
            crush_res: None,
            rend_res: None,
            poison_res: None,
            caustic_res: None,
            bleed_res: None,
        }
    }

    pub fn empty() -> (r: BobyPart)
        ensures
            r == BobyPart::empty_spec(),
    {
        BobyPart {
            protection: None,
            phy_res: None,
            slash_res: None,
            pierc_res: None,
            crush_res: None,
            rend_res: None,
            poison_res: None,
            caustic_res: None,
            bleed_res: None,
        }
    }

    pub open spec fn add_spec(self, other: BobyPart) -> BobyPart {
        BobyPart {
            protection: merge_u64_spec(self.protection, other.protection),
            phy_res: merge_i64_spec(self.phy_res, other.phy_res),
            slash_res: merge_i64_spec(self.slash_res, other.slash_res),
            pierc_res: merge_i64_spec(self.pierc_res, other.pierc_res),
            crush_res: merge_i64_spec(self.crush_res, other.crush_res),
            rend_res: merge_i64_spec(self.rend_res, other.rend_res),
            poison_res: merge_i64_spec(self.poison_res, other.poison_res),
            caustic_res: merge_i64_spec(self.caustic_res, other.caustic_res),
            bleed_res: merge_i64_spec(self.bleed_res, other.bleed_res),
        }
    }

    /// Field-wise stacking of two records.
    pub fn add(self, other: BobyPart) -> (r: BobyPart)
        ensures
            r == self.add_spec(other),
    {
        BobyPart {
            protection: merge_u64(self.protection, other.protection),
            phy_res: merge_i64(self.phy_res, other.phy_res),
            slash_res: merge_i64(self.slash_res, other.slash_res),
            pierc_res: merge_i64(self.pierc_res, other.pierc_res),
            crush_res: merge_i64(self.crush_res, other.crush_res),
            rend_res: merge_i64(self.rend_res, other.rend_res),
            poison_res: merge_i64(self.poison_res, other.poison_res),
            caustic_res: merge_i64(self.caustic_res, other.caustic_res),
            bleed_res: merge_i64(self.bleed_res, other.bleed_res),
        }
    }

    pub fn add_assign(&mut self, other: BobyPart)
        ensures
            *final(self) == old(self).add_spec(other),
    {
        *self = self.add(other);
    }
}

/// Stacks two optional body records.
pub open spec fn merge_part_spec(a: Option<BobyPart>, b: Option<BobyPart>) -> Option<BobyPart> {
    match (a, b) {
        (Some(i), Some(j)) => Some(i.add_spec(j)),
        (Some(i), None) => Some(i),
        (None, Some(j)) => Some(j),
        (None, None) => None,
    }
}

pub fn merge_part(a: Option<BobyPart>, b: Option<BobyPart>) -> (r: Option<BobyPart>)
    ensures
        r == merge_part_spec(a, b),
{
    match (a, b) {
        (Some(i), Some(j)) => Some(i.add(j)),
        (Some(i), None) => Some(i),
        (None, Some(j)) => Some(j),
        (None, None) => None,
    }
}

/// The attributes of a combatant, or the modifier that a skill applies.
/// Every field may be absent; defaults are taken where a value is used.
/// Fractions and multipliers are in millionths.
#[derive(Debug, Clone)]
pub struct Stat {
    pub hp: Option<u64>,
    pub damage: Option<Vec<(DamageType, u64)>>,
    pub weapon_type: Option<WeaponType>,
    pub weapon_dmg: Option<i64>,
    pub main_hand_eff: Option<i64>,
    pub armor_pen: Option<i64>,
    pub accuracy: Option<i64>,
    pub crit_chance: Option<i64>,
    pub crit_eff: Option<i64>,
    pub counter: Option<i64>,
    pub fumble: Option<i64>,
    pub bleed_chance: Option<i64>,
    pub daze_chance: Option<i64>,
    pub stun_chance: Option<i64>,
    pub knockback_chance: Option<i64>,
    pub immobilization_chance: Option<i64>,
    pub stagger_chance: Option<i64>,
    pub block: Option<i64>,
    pub block_power: Option<u64>,
    pub block_recovery: Option<i64>,
    pub dodge: Option<i64>,
    pub fortitude: Option<i64>,
    pub control_res: Option<i64>,
    pub move_res: Option<i64>,
    pub damage_taken: Option<i64>,
    pub hands: Option<BobyPart>,
    pub legs: Option<BobyPart>,
    pub torso: Option<BobyPart>,
    pub head: Option<BobyPart>,
    pub flat_damage_receive: Option<u64>,
    pub percent_damage_receive: Option<i64>,
    pub can_perform_action: Option<bool>,
}

impl Stat {
    /// Stacking: additive fields add up (saturating), non-additive fields
    /// (damage composition, weapon type, ability to act) take the later
    /// operand's value when it is present.
    pub open spec fn add_spec(self, other: Stat) -> Stat {
        Stat {
                hp: merge_u64_spec(self.hp, other.hp),
                damage: override_spec(self.damage, other.damage),
                weapon_type: override_spec(self.weapon_type, other.weapon_type),
                weapon_dmg: merge_i64_spec(self.weapon_dmg, other.weapon_dmg),
                main_hand_eff: merge_i64_spec(self.main_hand_eff, other.main_hand_eff),
                armor_pen: merge_i64_spec(self.armor_pen, other.armor_pen),
                accuracy: merge_i64_spec(self.accuracy, other.accuracy),
                crit_chance: merge_i64_spec(self.crit_chance, other.crit_chance),
                crit_eff: merge_i64_spec(self.crit_eff, other.crit_eff),
                counter: merge_i64_spec(self.counter, other.counter),
                fumble: merge_i64_spec(self.fumble, other.fumble),
                bleed_chance: merge_i64_spec(self.bleed_chance, other.bleed_chance),
                daze_chance: merge_i64_spec(self.daze_chance, other.daze_chance),
                stun_chance: merge_i64_spec(self.stun_chance, other.stun_chance),
                knockback_chance: merge_i64_spec(self.knockback_chance, other.knockback_chance),
                immobilization_chance: merge_i64_spec(self.immobilization_chance, other.immobilization_chance),
                stagger_chance: merge_i64_spec(self.stagger_chance, other.stagger_chance),
                block: merge_i64_spec(self.block, other.block),
                block_power: merge_u64_spec(self.block_power, other.block_power),
                block_recovery: merge_i64_spec(self.block_recovery, other.block_recovery),
                dodge: merge_i64_spec(self.dodge, other.dodge),
                fortitude: merge_i64_spec(self.fortitude, other.fortitude),
                control_res: merge_i64_spec(self.control_res, other.control_res),
                move_res: merge_i64_spec(self.move_res, other.move_res),
                damage_taken: merge_i64_spec(self.damage_taken, other.damage_taken),
                hands: merge_part_spec(self.hands, other.hands),
                legs: merge_part_spec(self.legs, other.legs),
                torso: merge_part_spec(self.torso, other.torso),
                head: merge_part_spec(self.head, other.head),
                flat_damage_receive: merge_u64_spec(self.flat_damage_receive, other.flat_damage_receive),
                percent_damage_receive: merge_i64_spec(self.percent_damage_receive, other.percent_damage_receive),
                can_perform_action: override_spec(self.can_perform_action, other.can_perform_action),
        }
    }

    pub fn add(self, other: Stat) -> (r: Stat)
        ensures
            r == self.add_spec(other),
    {
        Stat {
                hp: merge_u64(self.hp, other.hp),
                damage: match other.damage {
                Some(x) => Some(x),
                None => self.damage,
            },
                weapon_type: match other.weapon_type {
                Some(x) => Some(x),
                None => self.weapon_type,
            },
                weapon_dmg: merge_i64(self.weapon_dmg, other.weapon_dmg),
                main_hand_eff: merge_i64(self.main_hand_eff, other.main_hand_eff),
                armor_pen: merge_i64(self.armor_pen, other.armor_pen),
                accuracy: merge_i64(self.accuracy, other.accuracy),
                crit_chance: merge_i64(self.crit_chance, other.crit_chance),
                crit_eff: merge_i64(self.crit_eff, other.crit_eff),
                counter: merge_i64(self.counter, other.counter),
                fumble: merge_i64(self.fumble, other.fumble),
                bleed_chance: merge_i64(self.bleed_chance, other.bleed_chance),
                daze_chance: merge_i64(self.daze_chance, other.daze_chance),
                stun_chance: merge_i64(self.stun_chance, other.stun_chance),
                knockback_chance: merge_i64(self.knockback_chance, other.knockback_chance),
                immobilization_chance: merge_i64(self.immobilization_chance, other.immobilization_chance),
                stagger_chance: merge_i64(self.stagger_chance, other.stagger_chance),
                block: merge_i64(self.block, other.block),
                block_power: merge_u64(self.block_power, other.block_power),
                block_recovery: merge_i64(self.block_recovery, other.block_recovery),
                dodge: merge_i64(self.dodge, other.dodge),
                fortitude: merge_i64(self.fortitude, other.fortitude),
                control_res: merge_i64(self.control_res, other.control_res),
                move_res: merge_i64(self.move_res, other.move_res),
                damage_taken: merge_i64(self.damage_taken, other.damage_taken),
                hands: merge_part(self.hands, other.hands),
                legs: merge_part(self.legs, other.legs),
                torso: merge_part(self.torso, other.torso),
                head: merge_part(self.head, other.head),
                flat_damage_receive: merge_u64(self.flat_damage_receive, other.flat_damage_receive),
                percent_damage_receive: merge_i64(self.percent_damage_receive, other.percent_damage_receive),
                can_perform_action: match other.can_perform_action {
                Some(x) => Some(x),
                None => self.can_perform_action,
            },
        }
    }

    pub fn add_assign(&mut self, other: Stat)
        ensures
            *final(self) == old(self).add_spec(other),
    {
        let mut cur = Stat::empty();
        std::mem::swap(self, &mut cur);
        *self = cur.add(other);
    }

    /// The record with every field absent.
    pub open spec fn empty_spec() -> Stat {
        Stat {
            hp: None,
            damage: None,
            weapon_type: None,
            weapon_dmg: None,
            main_hand_eff: None,
            armor_pen: None,
            accuracy: None,
            crit_chance: None,
            crit_eff: None,
            counter: None,
            fumble: None,
            bleed_chance: None,
            daze_chance: None,
            stun_chance: None,
            knockback_chance: None,
            immobilization_chance: None,
            stagger_chance: None,
            block: None,
            block_power: None,
            block_recovery: None,
            dodge: None,
            fortitude: None,
            control_res: None,
            move_res: None,
            damage_taken: None,
            hands: None,
            legs: None,
            torso: None,
            head: None,
            flat_damage_receive: None,
            percent_damage_receive: None,
            can_perform_action: None,
        }
    }

    pub fn empty() -> (r: Stat)
        ensures
            r == Stat::empty_spec(),
    {
        Stat {
            hp: None,
            damage: None,
            weapon_type: None,
            weapon_dmg: None,
            main_hand_eff: None,
            armor_pen: None,
            accuracy: None,
            crit_chance: None,
            crit_eff: None,
            counter: None,
            fumble: None,
            bleed_chance: None,
            daze_chance: None,
            stun_chance: None,
            knockback_chance: None,
            immobilization_chance: None,
            stagger_chance: None,
            block: None,
            block_power: None,
            block_recovery: None,
            dodge: None,
            fortitude: None,
            control_res: None,
            move_res: None,
            damage_taken: None,
            hands: None,
            legs: None,
            torso: None,
            head: None,
            flat_damage_receive: None,
            percent_damage_receive: None,
            can_perform_action: None,
        }
    }

    pub fn get_hp(&self) -> (r: Option<u64>)
        ensures
            r == self.hp,
    {
        self.hp
    }

    pub fn get_block(&self) -> (r: Option<u64>)
        ensures
            r == self.block_power,
    {
        self.block_power
    }

    pub fn get_block_recovery(&self) -> (r: Option<i64>)
        ensures
            r == self.block_recovery,
    {
        self.block_recovery
    }

    pub fn get_counter(&self) -> (r: Option<i64>)
        ensures
            r == self.counter,
    {
        self.counter
    }
}

/// The attacker's accuracy against a defender: a negative dodge adds to it;
/// capped at one, floored at zero.
pub open spec fn eff_accuracy(a: Stat, d: Stat) -> int {
    let acc = or_i(a.accuracy, ONE as int);
    let dg = or_i(d.dodge, 0);
    unit_spec(if dg < 0 { acc - dg } else { acc })
}

/// The defender's dodge against an attacker: accuracy above one takes the
/// excess off it; clamped to `[0, 1]`.
pub open spec fn eff_dodge(a: Stat, d: Stat) -> int {
    let acc = or_i(a.accuracy, ONE as int);
    let dg = or_i(d.dodge, 0);
    if dg <= 0 {
        0
    } else if acc > ONE {
        unit_spec(dg - (acc - ONE))
    } else {
        unit_spec(dg)
    }
}

/// Whether the attacker can act (it can when the flag is absent).
pub open spec fn can_act(a: Stat) -> bool {
    match a.can_perform_action {
        Some(b) => b,
        None => true,
    }
}

/// The six outcome probabilities, in draw order, for clamped accuracy `acc`,
/// dodge `dg`, fumble `f`, critical chance `c` and block chance `b`.
pub open spec fn split_spec(acc: int, dg: int, f: int, c: int, b: int) -> Seq<int> {
    let hit = fmul_spec(acc, ONE - f);
    let half = fmul_spec(hit, dg) + fmul_spec(fmul_spec(acc, f), ONE - dg);
    let base = fmul_spec(hit, ONE - dg);
    let normal = fmul_spec(base, ONE - c);
    let crit = fmul_spec(base, c);
    seq![
        fmul_spec(crit, ONE - b),
        fmul_spec(normal, ONE - b),
        fmul_spec(half, ONE - b),
        fmul_spec(crit, b),
        fmul_spec(normal, b),
        fmul_spec(half, b),
    ]
}

/// The six outcome probabilities of an attack by `a` on `d`, in draw order.
pub open spec fn chance_spec(a: Stat, d: Stat) -> Seq<int> {
    if !can_act(a) {
        seq![0, 0, 0, 0, 0, 0]
    } else {
        split_spec(
            eff_accuracy(a, d),
            eff_dodge(a, d),
            unit_spec(or_i(a.fumble, 0)),
            unit_spec(or_i(a.crit_chance, 0)),
            unit_spec(or_i(d.block, 0)),
        )
    }
}

/// Builds the distribution from clamped accuracy, dodge, fumble, critical
/// chance and block chance.
pub fn split_chance(accuracy: u64, dodge: u64, fumble: u64, crit_chance: u64, block: u64) -> (r:
    Chance)
    requires
        accuracy <= ONE,
        dodge <= ONE,
        fumble <= ONE,
        crit_chance <= ONE,
        block <= ONE,
    ensures
        r@ == split_spec(
            accuracy as int,
            dodge as int,
            fumble as int,
            crit_chance as int,
            block as int,
        ),
{
    proof {
        lemma_fmul_split(accuracy as int, fumble as int);
    }
    let hit = fmul(accuracy, ONE - fumble);
    let fumbled = fmul(accuracy, fumble);
    proof {
        lemma_fmul_split(hit as int, dodge as int);
        lemma_fmul_le(fumbled as int, (ONE - dodge) as int);
    }
    let half_hit = fmul(hit, dodge) + fmul(fumbled, ONE - dodge);
    let base = fmul(hit, ONE - dodge);
    proof {
        lemma_fmul_split(base as int, crit_chance as int);
    }
    let normal_hit = fmul(base, ONE - crit_chance);
    let crit_hit = fmul(base, crit_chance);
    proof {
        lemma_fmul_split(crit_hit as int, block as int);
        lemma_fmul_split(normal_hit as int, block as int);
        lemma_fmul_split(half_hit as int, block as int);
    }
    Chance::new(
        fmul(crit_hit, ONE - block),
        fmul(normal_hit, ONE - block),
        fmul(half_hit, ONE - block),
        fmul(crit_hit, block),
        fmul(normal_hit, block),
        fmul(half_hit, block),
    )
}

impl Stat {
    /// The outcome distribution of an attack by `self` on `other`.
    pub fn chance_against(&self, other: &Stat) -> (r: Chance)
        ensures
            r@ == chance_spec(*self, *other),
    {
        if !self.can_perform_action.unwrap_or(true) {
            return Chance::new(0, 0, 0, 0, 0, 0);
        }
        let self_accuracy: i64 = self.accuracy.unwrap_or(ONE as i64);
        let other_dodge: i64 = other.dodge.unwrap_or(0);
        let accuracy: u64 = if other_dodge < 0 {
            let t: i128 = self_accuracy as i128 - other_dodge as i128;
            if t > ONE as i128 {
                ONE
            } else if t < 0 {
                0
            } else {
                t as u64
            }
        } else {
            unit(self_accuracy)
        };
        let dodge: u64 = if other_dodge <= 0 {
            0
        } else if self_accuracy > ONE as i64 {
            let t: i128 = other_dodge as i128 - (self_accuracy as i128 - ONE as i128);
            if t > ONE as i128 {
                ONE
            } else if t < 0 {
                0
            } else {
                t as u64
            }
        } else {
            unit(other_dodge)
        };
        let fumble = unit(self.fumble.unwrap_or(0));
        let crit_chance = unit(self.crit_chance.unwrap_or(0));
        let block = unit(other.block.unwrap_or(0));
        split_chance(accuracy, dodge, fumble, crit_chance, block)
    }

    /// Prepares an attack by `self` on `other`: its outcome distribution and a
    /// uniformly drawn target location (none when `self` cannot act).
    pub fn attack(&self, other: &Stat, rng: &mut StdRng) -> (r: Hit)
        ensures
            r.chance@ == chance_spec(*self, *other),
            can_act(*self) ==> exists|i: int| 0 <= i < 6 && r.body_part == body_part_spec(i),
            !can_act(*self) ==> r.body_part == BodyPart::Untargeted,
    {
        let chance = self.chance_against(other);
        if !self.can_perform_action.unwrap_or(true) {
            Hit::new(chance, BodyPart::Untargeted)
        } else {
            let body_part = random_body_part(rng);
            Hit::new(chance, body_part)
        }
    }
}

/// The defender's record for a targeted location (legs, hands, torso or head;
/// the torso when untargeted), all absent when the defender has none.
pub open spec fn target_part(d: Stat, part: BodyPart) -> BobyPart {
    let o = match part {
        BodyPart::RightLeg => d.legs,
        BodyPart::LeftLeg => d.legs,
        BodyPart::RightHand => d.hands,
        BodyPart::LeftHand => d.hands,
        BodyPart::Torso => d.torso,
        BodyPart::Head => d.head,
        BodyPart::Untargeted => d.torso,
    };
    match o {
        Some(bp) => bp,
        None => BobyPart::empty_spec(),
    }
}

/// The resistance of a location to a damage type (zero when absent).
pub open spec fn resistance(bp: BobyPart, t: DamageType) -> int {
    match t {
        DamageType::Slash => or_i(bp.slash_res, 0),
        DamageType::Pierc => or_i(bp.pierc_res, 0),
        DamageType::Crush => or_i(bp.crush_res, 0),
        DamageType::Rend => or_i(bp.rend_res, 0),
        DamageType::Poison => or_i(bp.poison_res, 0),
        DamageType::Caustic => or_i(bp.caustic_res, 0),
    }
}

/// The share of damage of type `t` that gets through a location `bp`:
/// `(1 - resistance) * taken`, where `taken` is the defender's damage-taken
/// multiplier; each factor floored at zero.
pub open spec fn pass_factor(bp: BobyPart, taken: int, t: DamageType) -> int {
    fmul_spec(nonneg_spec(ONE - resistance(bp, t)), taken)
}

/// The defender's damage-taken multiplier, floored at zero (one when absent).
pub open spec fn taken_of(d: Stat) -> int {
    nonneg_spec(or_i(d.damage_taken, ONE as int))
}

/// The multiplier of physical damage for an outcome: weapon damage times
/// main-hand efficiency, times the critical efficiency (at least one) on
/// critical outcomes, halved on glancing ones.
pub open spec fn hit_multiplier(s: Stat, h: HitType) -> int {
    let normal = fmul_spec(
        nonneg_spec(or_i(s.weapon_dmg, ONE as int)),
        nonneg_spec(or_i(s.main_hand_eff, ONE as int)),
    );
    let ce = or_i(s.crit_eff, ONE as int);
    let crit_eff = if ce < ONE { ONE as int } else { ce };
    match h {
        HitType::CritHit => fmul_spec(normal, crit_eff),
        HitType::BlockCritHit => fmul_spec(normal, crit_eff),
        HitType::NormalHit => normal,
        HitType::BlockNormalHit => normal,
        HitType::HalfHit => normal / 2,
        HitType::BlockHalfHit => normal / 2,
        HitType::NoHit => 0,
    }
}

/// The flat reduction at a location: its protection less the attacker's armor
/// penetration fraction.
pub open spec fn flat_reduction(s: Stat, d: Stat, part: BodyPart) -> int {
    fmul_spec(
        or_u(target_part(d, part).protection, 0),
        nonneg_spec(ONE - or_i(s.armor_pen, 0)),
    )
}

/// Resolves the damage components from index `i` on, with the running flat
/// reduction `flat`, block pool `block` and damage total `total`; gives the
/// final total and what is left of the pool. A magical component is not
/// scaled by the multiplier `mult` and meets half of the flat reduction and
/// half of the pool; each component uses up the pool by its amount, and what
/// exceeds the pool uses up the flat reduction.
pub open spec fn damage_fold(
    bp: BobyPart,
    taken: int,
    mult: int,
    comps: Seq<(DamageType, u64)>,
    i: int,
    flat: int,
    block: int,
    total: int,
) -> (int, int)
    decreases comps.len() - i,
{
    if i < 0 || i >= comps.len() {
        (total, block)
    } else {
        let t = comps[i].0;
        let amount = comps[i].1 as int;
        let magic = t.is_magic_spec();
        let cur = if magic { amount } else { fmul_spec(amount, mult) };
        let red = if magic { flat / 2 } else { flat };
        let blk = if magic { block / 2 } else { block };
        let got = if blk + red > cur { 0 } else { fmul_spec(cur - blk - red, pass_factor(bp, taken, t)) };
        let sum = if total + got > u64::MAX { u64::MAX as int } else { total + got };
        if cur > block {
            let flat2 = if cur - block > flat { 0 } else { flat - (cur - block) };
            damage_fold(bp, taken, mult, comps, i + 1, flat2, 0, sum)
        } else {
            damage_fold(bp, taken, mult, comps, i + 1, flat, block - cur, sum)
        }
    }
}

/// The damage dealt by `s` on `d` at `part` for outcome `h` with the
/// defender's pool at `block`, and the part of the pool used up; nothing on a
/// miss.
pub open spec fn damage_spec(
    s: Stat,
    d: Stat,
    part: BodyPart,
    h: HitType,
    block: int,
    comps: Seq<(DamageType, u64)>,
) -> (int, int) {
    if h is NoHit {
        (0, 0)
    } else {
        let pool = if h.is_blocked() { block } else { 0 };
        let r = damage_fold(
            target_part(d, part),
            taken_of(d),
            hit_multiplier(s, h),
            comps,
            0,
            flat_reduction(s, d, part),
            pool,
            0,
        );
        (r.0, if h.is_blocked() { block - r.1 } else { 0 })
    }
}

/// The damage components of a record, when present.
pub open spec fn components(s: Stat) -> Option<Seq<(DamageType, u64)>> {
    match s.damage {
        Some(v) => Some(v@),
        None => None,
    }
}

proof fn lemma_fold_bounds(
    bp: BobyPart,
    taken: int,
    mult: int,
    comps: Seq<(DamageType, u64)>,
    i: int,
    flat: int,
    block: int,
    total: int,
)
    requires
        0 <= block,
        0 <= flat,
        0 <= mult,
        0 <= taken,
        0 <= total <= u64::MAX,
    ensures
        0 <= damage_fold(bp, taken, mult, comps, i, flat, block, total).1 <= block,
        0 <= damage_fold(bp, taken, mult, comps, i, flat, block, total).0 <= u64::MAX,
    decreases comps.len() - i,
{
    if 0 <= i < comps.len() {
        let t = comps[i].0;
        let amount = comps[i].1 as int;
        let magic = t.is_magic_spec();
        let cur = if magic { amount } else { fmul_spec(amount, mult) };
        let red = if magic { flat / 2 } else { flat };
        let blk = if magic { block / 2 } else { block };
        let got = if blk + red > cur { 0 } else { fmul_spec(cur - blk - red, pass_factor(bp, taken, t)) };
        assert(amount * mult >= 0) by (nonlinear_arith)
            requires amount >= 0, mult >= 0;
        assert(pass_factor(bp, taken, t) >= 0) by {
            let x = nonneg_spec(ONE - resistance(bp, t));
            assert(x * taken >= 0) by (nonlinear_arith)
                requires x >= 0, taken >= 0;
        }
        assert(got >= 0) by {
            if blk + red <= cur {
                assert((cur - blk - red) * pass_factor(bp, taken, t) >= 0) by (nonlinear_arith)
                    requires cur - blk - red >= 0, pass_factor(bp, taken, t) >= 0;
            }
        }
        let sum = if total + got > u64::MAX { u64::MAX as int } else { total + got };
        if cur > block {
            let flat2 = if cur - block > flat { 0 } else { flat - (cur - block) };
            lemma_fold_bounds(bp, taken, mult, comps, i + 1, flat2, 0, sum);
        } else {
            lemma_fold_bounds(bp, taken, mult, comps, i + 1, flat, block - cur, sum);
        }
    }
}

/// The defender's record for a targeted location; see `target_part`.
pub fn part_record(d: &Stat, part: BodyPart) -> (r: BobyPart)
    ensures
        r == target_part(*d, part),
{
    let o = match part {
        BodyPart::RightLeg => d.legs,
        BodyPart::LeftLeg => d.legs,
        BodyPart::RightHand => d.hands,
        BodyPart::LeftHand => d.hands,
        BodyPart::Torso => d.torso,
        BodyPart::Head => d.head,
        BodyPart::Untargeted => d.torso,
    };
    match o {
        Some(bp) => bp,
        None => BobyPart::empty(),
    }
}

/// The resistance of a location to a damage type (zero when absent).
pub fn resistance_of(bp: &BobyPart, t: DamageType) -> (r: i64)
    ensures
        r == resistance(*bp, t),
{
    match t {
        DamageType::Slash => bp.slash_res.unwrap_or(0),
        DamageType::Pierc => bp.pierc_res.unwrap_or(0),
        DamageType::Crush => bp.crush_res.unwrap_or(0),
        DamageType::Rend => bp.rend_res.unwrap_or(0),
        DamageType::Poison => bp.poison_res.unwrap_or(0),
        DamageType::Caustic => bp.caustic_res.unwrap_or(0),
    }
}

impl Stat {
    /// The multiplier of physical damage for an outcome; see `hit_multiplier`.
    pub fn multiplier(&self, hit_type: HitType) -> (r: u64)
        ensures
            r == hit_multiplier(*self, hit_type),
    {
        let ce: i64 = self.crit_eff.unwrap_or(ONE as i64);
        let crit_eff: u64 = if ce < ONE as i64 {
            ONE
        } else {
            ce as u64
        };
        let normal = fmul(
            nonneg(self.weapon_dmg.unwrap_or(ONE as i64)),
            nonneg(self.main_hand_eff.unwrap_or(ONE as i64)),
        );
        match hit_type {
            HitType::CritHit => fmul(normal, crit_eff),
            HitType::BlockCritHit => fmul(normal, crit_eff),
            HitType::NormalHit => normal,
            HitType::BlockNormalHit => normal,
            HitType::HalfHit => normal / 2,
            HitType::BlockHalfHit => normal / 2,
            HitType::NoHit => 0,
        }
    }

    /// The damage that `self` deals on `other` at `body_part` for `hit_type`,
    /// with `other`'s block pool at `other_block_value`, and the part of that
    /// pool used up. `None` when `self` has no damage composition.
    pub fn get_damage(
        &self,
        other: &Stat,
        body_part: BodyPart,
        hit_type: HitType,
        other_block_value: u64,
    ) -> (r: Option<(u64, u64)>)
        ensures
            match components(*self) {
                None => r is None,
                Some(comps) => r matches Some(p) && p.0 == damage_spec(
                    *self,
                    *other,
                    body_part,
                    hit_type,
                    other_block_value as int,
                    comps,
                ).0 && p.1 == damage_spec(
                    *self,
                    *other,
                    body_part,
                    hit_type,
                    other_block_value as int,
                    comps,
                ).1,
            },
    {
        let comps = match &self.damage {
            Some(v) => v,
            None => {
                return None;
            },
        };
        let blocked = match hit_type {
            HitType::NoHit => {
                return Some((0, 0));
            },
            HitType::BlockCritHit => true,
            HitType::BlockNormalHit => true,
            HitType::BlockHalfHit => true,
            _ => false,
        };
        let mult = self.multiplier(hit_type);
        let bp = part_record(other, body_part);
        let flat0 = fmul(bp.protection.unwrap_or(0), complement(self.armor_pen.unwrap_or(0)));
        let pool: u64 = if blocked {
            other_block_value
        } else {
            0
        };
        let taken = nonneg(other.damage_taken.unwrap_or(ONE as i64));
        let mut flat: u64 = flat0;
        let mut block: u64 = pool;
        let mut damage: u64 = 0;
        let mut i: usize = 0;
        while i < comps.len()
            invariant
                i <= comps@.len(),
                block <= pool,
                taken == nonneg_spec(or_i(other.damage_taken, ONE as int)),
                bp == target_part(*other, body_part),
                damage_fold(bp, taken as int, mult as int, comps@, 0, flat0 as int, pool as int, 0)
                    == damage_fold(
                    bp,
                    taken as int,
                    mult as int,
                    comps@,
                    i as int,
                    flat as int,
                    block as int,
                    damage as int,
                ),
            decreases comps@.len() - i,
        {
            let (t, amount) = comps[i];
            let magic = t.is_magic();
            let cur: u64 = if magic {
                amount
            } else {
                fmul(amount, mult)
            };
            let red: u64 = if magic {
                flat / 2
            } else {
                flat
            };
            let blk: u64 = if magic {
                block / 2
            } else {
                block
            };
            let pass = fmul(complement(resistance_of(&bp, t)), taken);
            let got: u64 = if blk > cur || red > cur - blk {
                0
            } else {
                fmul(cur - blk - red, pass)
            };
            damage = if got > u64::MAX - damage {
                u64::MAX
            } else {
                damage + got
            };
            if cur > block {
                flat = if cur - block > flat {
                    0
                } else {
                    flat - (cur - block)
                };
                block = 0;
            } else {
                block = block - cur;
            }
            i = i + 1;
        }
        let used: u64 = if blocked {
            other_block_value - block
        } else {
            0
        };
        Some((damage, used))
    }
}

/// The status effects that an attack can trigger, in the order in which they
/// are rolled.
pub open spec fn status_ids() -> Seq<IdSkills> {
    seq![
        IdSkills::Bleeding,
        IdSkills::Daze,
        IdSkills::Stun,
        IdSkills::Knockback,
        IdSkills::Immobilization,
        IdSkills::Stagger,
    ]
}

/// An optional signed value, or zero.
pub open spec fn or_zero(o: Option<i64>) -> i64 {
    match o {
        Some(x) => x,
        None => 0,
    }
}

/// The attacker's base chance of each status effect, in `status_ids` order.
pub open spec fn additional_chance_spec(a: Stat) -> Seq<(IdSkills, i64)> {
    seq![
        (IdSkills::Bleeding, or_zero(a.bleed_chance)),
        (IdSkills::Daze, or_zero(a.daze_chance)),
        (IdSkills::Stun, or_zero(a.stun_chance)),
        (IdSkills::Knockback, or_zero(a.knockback_chance)),
        (IdSkills::Immobilization, or_zero(a.immobilization_chance)),
        (IdSkills::Stagger, or_zero(a.stagger_chance)),
    ]
}

/// The share of each status effect that the defender fails to resist, in
/// `status_ids` order: `1 - fortitude`, times `1 - bleed resistance` of the
/// targeted location for bleeding, `1 - control resistance` for daze and stun,
/// `1 - move resistance` for the rest; each factor floored at zero.
pub open spec fn additional_res_spec(d: Stat, part: BodyPart) -> Seq<(IdSkills, u64)> {
    let fort = nonneg_spec(ONE - or_i(d.fortitude, 0));
    let bleed = if part is Untargeted {
        fort
    } else {
        fmul_spec(fort, nonneg_spec(ONE - or_i(target_part(d, part).bleed_res, 0)))
    };
    let control = fmul_spec(fort, nonneg_spec(ONE - or_i(d.control_res, 0)));
    let moving = fmul_spec(fort, nonneg_spec(ONE - or_i(d.move_res, 0)));
    seq![
        (IdSkills::Bleeding, bleed as u64),
        (IdSkills::Daze, control as u64),
        (IdSkills::Stun, control as u64),
        (IdSkills::Knockback, moving as u64),
        (IdSkills::Immobilization, moving as u64),
        (IdSkills::Stagger, moving as u64),
    ]
}

/// The weapon of a record (a rending weapon when absent).
pub open spec fn weapon_of(a: Stat) -> WeaponType {
    match a.weapon_type {
        Some(w) => w,
        None => WeaponType::Rend,
    }
}

/// The chance of the `k`-th status effect: the base chance, plus the weapon's
/// bonus for that effect on a critical hit.
pub open spec fn trigger_chance(a: Stat, is_crit: bool, k: int) -> int {
    let base = additional_chance_spec(a)[k].1 as int;
    match weapon_of(a).crit_bonus_spec() {
        Some(b) => if is_crit && b.0 == status_ids()[k] {
            base + b.1
        } else {
            base
        },
        None => base,
    }
}

/// Which status effects an attack triggers, given one draw against the chance
/// and one against the resistance share of each (in millionths): both draws
/// must fall below their thresholds.
pub open spec fn triggers_spec(
    a: Stat,
    d: Stat,
    part: BodyPart,
    is_crit: bool,
    chance_rolls: Seq<u64>,
    res_rolls: Seq<u64>,
) -> Seq<(IdSkills, bool)> {
    Seq::new(
        6,
        |k: int|
            (
                status_ids()[k],
                chance_rolls[k] < trigger_chance(a, is_crit, k) && res_rolls[k]
                    < additional_res_spec(d, part)[k].1,
            ),
    )
}

/// The damage over time that a record's attributes deal to its opponent each
/// cycle: a percentage of the record's hit points plus a flat amount
/// (saturating).
pub open spec fn residual_spec(s: Stat) -> int {
    let t = fmul_spec(or_u(s.hp, 0), nonneg_spec(or_i(s.percent_damage_receive, 0))) + or_u(
        s.flat_damage_receive,
        0,
    );
    if t > u64::MAX {
        u64::MAX as int
    } else {
        t
    }
}

impl Stat {
    pub fn get_additional_chance(&self) -> (r: Vec<(IdSkills, i64)>)
        ensures
            r@ == additional_chance_spec(*self),
    {
        let r = vec![
            (IdSkills::Bleeding, self.bleed_chance.unwrap_or(0)),
            (IdSkills::Daze, self.daze_chance.unwrap_or(0)),
            (IdSkills::Stun, self.stun_chance.unwrap_or(0)),
            (IdSkills::Knockback, self.knockback_chance.unwrap_or(0)),
            (IdSkills::Immobilization, self.immobilization_chance.unwrap_or(0)),
            (IdSkills::Stagger, self.stagger_chance.unwrap_or(0)),
        ];
        assert(r@ =~= additional_chance_spec(*self));
        r
    }

    pub fn get_additional_res(&self, bodypart: BodyPart) -> (r: Vec<(IdSkills, u64)>)
        ensures
            r@ == additional_res_spec(*self, bodypart),
    {
        let fort = complement(self.fortitude.unwrap_or(0));
        let bleed = match bodypart {
            BodyPart::Untargeted => fort,
            _ => {
                let bp = part_record(self, bodypart);
                fmul(fort, complement(bp.bleed_res.unwrap_or(0)))
            },
        };
        let control = fmul(fort, complement(self.control_res.unwrap_or(0)));
        let moving = fmul(fort, complement(self.move_res.unwrap_or(0)));
        let r = vec![
            (IdSkills::Bleeding, bleed),
            (IdSkills::Daze, control),
            (IdSkills::Stun, control),
            (IdSkills::Knockback, moving),
            (IdSkills::Immobilization, moving),
            (IdSkills::Stagger, moving),
        ];
        assert(r@ =~= additional_res_spec(*self, bodypart));
        r
    }

    /// The damage over time that `self`'s attributes deal to its opponent
    /// each cycle.
    pub fn residual_damage(&self) -> (r: u64)
        ensures
            r == residual_spec(*self),
    {
        let pct = fmul(self.hp.unwrap_or(0), nonneg(self.percent_damage_receive.unwrap_or(0)));
        let flat = self.flat_damage_receive.unwrap_or(0);
        if pct > u64::MAX - flat {
            u64::MAX
        } else {
            pct + flat
        }
    }

    /// Which status effects an attack by `self` on `other` at `bodypart`
    /// triggers, given the draws against chance and resistance.
    pub fn effect_triggers(
        &self,
        other: &Stat,
        bodypart: BodyPart,
        is_crit: bool,
        chance_rolls: &Vec<u64>,
        res_rolls: &Vec<u64>,
    ) -> (r: Vec<(IdSkills, bool)>)
        requires
            chance_rolls@.len() == 6,
            res_rolls@.len() == 6,
        ensures
            r@ == triggers_spec(*self, *other, bodypart, is_crit, chance_rolls@, res_rolls@),
    {
        let chances = self.get_additional_chance();
        let res = other.get_additional_res(bodypart);
        let bonus = match self.weapon_type {
            Some(w) => w.additional_effect(),
            None => WeaponType::Rend.additional_effect(),
        };
        let mut r: Vec<(IdSkills, bool)> = Vec::new();
        let mut k: usize = 0;
        while k < 6
            invariant
                k <= 6,
                chance_rolls@.len() == 6,
                res_rolls@.len() == 6,
                chances@ == additional_chance_spec(*self),
                res@ == additional_res_spec(*other, bodypart),
                bonus == weapon_of(*self).crit_bonus_spec(),
                r@.len() == k,
                forall|j: int|
                    0 <= j < k ==> r@[j] == triggers_spec(
                        *self,
                        *other,
                        bodypart,
                        is_crit,
                        chance_rolls@,
                        res_rolls@,
                    )[j],
            decreases 6 - k,
        {
            let (id, base) = chances[k];
            let chance: i128 = match bonus {
                Some((b_id, b)) => if is_crit && b_id == id {
                    base as i128 + b as i128
                } else {
                    base as i128
                },
                None => base as i128,
            };
            let (_, share) = res[k];
            let hit = (chance_rolls[k] as i128) < chance && res_rolls[k] < share;
            r.push((id, hit));
            k = k + 1;
        }
        assert(r@ =~= triggers_spec(*self, *other, bodypart, is_crit, chance_rolls@, res_rolls@));
        r
    }

    /// Rolls which status effects an attack by `self` on `other` at
    /// `bodypart` triggers, with two uniform draws per effect.
    pub fn additional_effect(
        &self,
        other: &Stat,
        bodypart_hit: BodyPart,
        is_crit: bool,
        rng: &mut StdRng,
    ) -> (r: Vec<(IdSkills, bool)>)
        ensures
            exists|cr: Seq<u64>, rr: Seq<u64>|
                cr.len() == 6 && rr.len() == 6 && (forall|j: int|
                    0 <= j < 6 ==> cr[j] < ONE && rr[j] < ONE) && r@ == #[trigger] triggers_spec(
                    *self,
                    *other,
                    bodypart_hit,
                    is_crit,
                    cr,
                    rr,
                ),
    {
        let mut chance_rolls: Vec<u64> = Vec::new();
        let mut res_rolls: Vec<u64> = Vec::new();
        let mut k: usize = 0;
        while k < 6
            invariant
                k <= 6,
                chance_rolls@.len() == k,
                res_rolls@.len() == k,
                forall|j: int| 0 <= j < k ==> chance_rolls@[j] < ONE && res_rolls@[j] < ONE,
            decreases 6 - k,
        {
            chance_rolls.push(roll_below(rng, ONE));
            res_rolls.push(roll_below(rng, ONE));
            k = k + 1;
        }
        self.effect_triggers(other, bodypart_hit, is_crit, &chance_rolls, &res_rolls)
    }
}

/// The damage dealt fits in `u64` and the block used up is within the pool.
pub proof fn lemma_damage_bounds(
    s: Stat,
    d: Stat,
    part: BodyPart,
    h: HitType,
    block: int,
    comps: Seq<(DamageType, u64)>,
)
    requires
        0 <= block,
    ensures
        0 <= damage_spec(s, d, part, h, block, comps).0 <= u64::MAX,
        0 <= damage_spec(s, d, part, h, block, comps).1 <= block,
{
    if !(h is NoHit) {
        let pool = if h.is_blocked() { block } else { 0 };
        let mult = hit_multiplier(s, h);
        let normal = fmul_spec(
            nonneg_spec(or_i(s.weapon_dmg, ONE as int)),
            nonneg_spec(or_i(s.main_hand_eff, ONE as int)),
        );
        let x = nonneg_spec(or_i(s.weapon_dmg, ONE as int));
        let y = nonneg_spec(or_i(s.main_hand_eff, ONE as int));
        assert(x * y >= 0) by (nonlinear_arith)
            requires x >= 0, y >= 0;
        assert(normal >= 0);
        let ce = or_i(s.crit_eff, ONE as int);
        let crit_eff = if ce < ONE { ONE as int } else { ce };
        assert(normal * crit_eff >= 0) by (nonlinear_arith)
            requires normal >= 0, crit_eff >= 0;
        assert(mult >= 0);
        let z = or_u(target_part(d, part).protection, 0);
        let w = nonneg_spec(ONE - or_i(s.armor_pen, 0));
        assert(z * w >= 0) by (nonlinear_arith)
            requires z >= 0, w >= 0;
        lemma_fold_bounds(
            target_part(d, part),
            taken_of(d),
            mult,
            comps,
            0,
            flat_reduction(s, d, part),
            pool,
            0,
        );
    }
}

/// The sum of the component amounts from index `i` on, as the pipeline
/// meets them: physical ones scaled by `mult`, magical ones as they are.
pub open spec fn raw_total(comps: Seq<(DamageType, u64)>, mult: int, i: int) -> int
    decreases comps.len() - i,
{
    if i < 0 || i >= comps.len() {
        0
    } else {
        let amount = comps[i].1 as int;
        let cur = if comps[i].0.is_magic_spec() { amount } else { fmul_spec(amount, mult) };
        cur + raw_total(comps, mult, i + 1)
    }
}

proof fn lemma_fold_block(
    bp: BobyPart,
    taken: int,
    mult: int,
    comps: Seq<(DamageType, u64)>,
    i: int,
    flat: int,
    block: int,
    total: int,
)
    requires
        0 <= block,
        0 <= mult,
        0 <= i,
    ensures
        raw_total(comps, mult, i) >= 0,
        damage_fold(bp, taken, mult, comps, i, flat, block, total).1 == if block > raw_total(
            comps,
            mult,
            i,
        ) {
            block - raw_total(comps, mult, i)
        } else {
            0
        },
    decreases comps.len() - i,
{
    if i < comps.len() {
        let t = comps[i].0;
        let amount = comps[i].1 as int;
        let magic = t.is_magic_spec();
        let cur = if magic { amount } else { fmul_spec(amount, mult) };
        let red = if magic { flat / 2 } else { flat };
        let blk = if magic { block / 2 } else { block };
        let got = if blk + red > cur { 0 } else { fmul_spec(cur - blk - red, pass_factor(bp, taken, t)) };
        let sum = if total + got > u64::MAX { u64::MAX as int } else { total + got };
        assert(amount * mult >= 0) by (nonlinear_arith)
            requires amount >= 0, mult >= 0;
        if cur > block {
            let flat2 = if cur - block > flat { 0 } else { flat - (cur - block) };
            lemma_fold_block(bp, taken, mult, comps, i + 1, flat2, 0, sum);
        } else {
            lemma_fold_block(bp, taken, mult, comps, i + 1, flat, block - cur, sum);
        }
    }
}

/// A blocked outcome uses up the pool by the components' amounts, up to the
/// whole pool and never more; any other outcome leaves it alone.
pub proof fn lemma_block_use(
    s: Stat,
    d: Stat,
    part: BodyPart,
    h: HitType,
    block: int,
    comps: Seq<(DamageType, u64)>,
)
    requires
        0 <= block,
    ensures
        damage_spec(s, d, part, h, block, comps).1 == if h.is_blocked() {
            let total = raw_total(comps, hit_multiplier(s, h), 0);
            if total < block {
                total
            } else {
                block
            }
        } else {
            0
        },
{
    if h.is_blocked() {
        lemma_damage_bounds(s, d, part, h, block, comps);
        let mult = hit_multiplier(s, h);
        let x = nonneg_spec(or_i(s.weapon_dmg, ONE as int));
        let y = nonneg_spec(or_i(s.main_hand_eff, ONE as int));
        assert(x * y >= 0) by (nonlinear_arith)
            requires x >= 0, y >= 0;
        let normal = fmul_spec(x, y);
        let ce = or_i(s.crit_eff, ONE as int);
        let crit_eff = if ce < ONE { ONE as int } else { ce };
        assert(normal * crit_eff >= 0) by (nonlinear_arith)
            requires normal >= 0, crit_eff >= 0;
        lemma_fold_block(
            target_part(d, part),
            taken_of(d),
            mult,
            comps,
            0,
            flat_reduction(s, d, part),
            block,
            0,
        );
    }
}

/// An attacker with accuracy one, no fumble and no critical chance, against a
/// defender with neither dodge nor block, lands a normal hit on every draw.
pub proof fn lemma_sure_normal_hit(a: Stat, d: Stat, roll: int)
    requires
        can_act(a),
        or_i(a.accuracy, ONE as int) == ONE,
        or_i(a.fumble, 0) == 0,
        or_i(a.crit_chance, 0) == 0,
        or_i(d.dodge, 0) == 0,
        or_i(d.block, 0) == 0,
        0 <= roll < ONE,
    ensures
        outcome_spec(chance_spec(a, d), roll, ONE as int) == HitType::NormalHit,
{
    lemma_fmul_unit(ONE as int);
    lemma_fmul_unit(0);
    reveal_with_fuel(cumulative, 7);
}

/// With critical chance one and the same defaults, every draw is a critical
/// hit.
pub proof fn lemma_sure_crit_hit(a: Stat, d: Stat, roll: int)
    requires
        can_act(a),
        or_i(a.accuracy, ONE as int) == ONE,
        or_i(a.fumble, 0) == 0,
        or_i(a.crit_chance, 0) == ONE,
        or_i(d.dodge, 0) == 0,
        or_i(d.block, 0) == 0,
        0 <= roll < ONE,
    ensures
        outcome_spec(chance_spec(a, d), roll, ONE as int) == HitType::CritHit,
{
    lemma_fmul_unit(ONE as int);
    lemma_fmul_unit(0);
    reveal_with_fuel(cumulative, 7);
}

/// When the unblocked base of full and critical hits is zero, no draw, at any
/// scaling, gives a full or critical hit, blocked or not.
proof fn lemma_no_full_hit(p: Seq<int>, roll: int, factor: int)
    requires
        p.len() == 6,
        p[0] == 0,
        p[1] == 0,
        p[3] == 0,
        p[4] == 0,
        0 <= roll,
    ensures
        !outcome_spec(p, roll, factor).is_landed(),
{
    reveal_with_fuel(cumulative, 7);
    assert(cumulative(p, 1) == 0);
    assert(cumulative(p, 2) == 0);
    assert(cumulative(p, 4) == cumulative(p, 3));
    assert(cumulative(p, 5) == cumulative(p, 3));
    let t = roll * ONE;
    assert(t >= 0);
    assert(!(cumulative(p, 1) * factor > t));
    assert(!(cumulative(p, 2) * factor > t));
    assert(cumulative(p, 4) * factor == cumulative(p, 3) * factor);
    assert(cumulative(p, 5) * factor == cumulative(p, 3) * factor);
}

/// A certain fumble leaves only glancing hits, blocked glancing hits and
/// misses, on every draw and at any scaling.
pub proof fn lemma_fumble_only_glances(a: Stat, d: Stat, roll: int, factor: int)
    requires
        or_i(a.fumble, 0) == ONE,
        0 <= roll,
    ensures
        !outcome_spec(chance_spec(a, d), roll, factor).is_landed(),
{
    let acc = eff_accuracy(a, d);
    lemma_fmul_unit(acc);
    assert(fmul_spec(acc, ONE - ONE) == 0);
    assert(forall|x: int| fmul_spec(0, x) == 0);
    lemma_no_full_hit(chance_spec(a, d), roll, factor);
}

/// A certain dodge leaves no full or critical hit, on every draw and at any
/// scaling, when the attacker's accuracy is at most one.
pub proof fn lemma_dodge_only_glances(a: Stat, d: Stat, roll: int, factor: int)
    requires
        or_i(d.dodge, 0) == ONE,
        or_i(a.accuracy, ONE as int) <= ONE,
        0 <= roll,
    ensures
        !outcome_spec(chance_spec(a, d), roll, factor).is_landed(),
{
    let acc = eff_accuracy(a, d);
    let f = unit_spec(or_i(a.fumble, 0));
    lemma_fmul_le(acc, ONE - f);
    assert(eff_dodge(a, d) == ONE);
    assert(fmul_spec(fmul_spec(acc, ONE - f), ONE - ONE) == 0);
    assert(forall|x: int| fmul_spec(0, x) == 0);
    lemma_no_full_hit(chance_spec(a, d), roll, factor);
}

/// A certain fumble against a certain dodge misses on every draw, at any
/// scaling, when the attacker's accuracy is at most one.
pub proof fn lemma_fumble_and_dodge_miss(a: Stat, d: Stat, roll: int, factor: int)
    requires
        or_i(a.fumble, 0) == ONE,
        or_i(d.dodge, 0) == ONE,
        or_i(a.accuracy, ONE as int) <= ONE,
        0 <= roll,
    ensures
        outcome_spec(chance_spec(a, d), roll, factor) == HitType::NoHit,
{
    let acc = eff_accuracy(a, d);
    lemma_fmul_unit(acc);
    assert(eff_dodge(a, d) == ONE);
    assert(fmul_spec(acc, ONE - ONE) == 0);
    assert(forall|x: int| fmul_spec(0, x) == 0);
    assert(forall|x: int| fmul_spec(x, 0) == 0);
    let p = chance_spec(a, d);
    assert(p =~= seq![0int, 0, 0, 0, 0, 0]);
    reveal_with_fuel(cumulative, 7);
    assert(cumulative(p, 1) == 0 && cumulative(p, 2) == 0 && cumulative(p, 3) == 0);
    assert(cumulative(p, 4) == 0 && cumulative(p, 5) == 0 && cumulative(p, 6) == 0);
    assert(roll * ONE >= 0);
    assert(0 * factor == 0);
}

/// Flat protection (after armor penetration) that covers the raw damage of a
/// single physical component lets no damage through, whatever the outcome and
/// the block pool.
pub proof fn lemma_protection_clips(
    s: Stat,
    d: Stat,
    part: BodyPart,
    h: HitType,
    block: int,
    t: DamageType,
    amount: u64,
)
    requires
        !t.is_magic_spec(),
        0 <= block,
        fmul_spec(amount as int, hit_multiplier(s, h)) <= flat_reduction(s, d, part),
    ensures
        damage_spec(s, d, part, h, block, seq![(t, amount)]).0 == 0,
{
    reveal_with_fuel(damage_fold, 2);
    assert(forall|x: int| fmul_spec(0, x) == 0);
}

} // verus!
