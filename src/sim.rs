//! Combatants with active skills, the combat cycle, and the Monte Carlo
//! driver.
use crate::fixed::{fmul, fmul_spec, nonneg, nonneg_spec, ONE};
use crate::hit::{body_part_spec, factor_spec, outcome_spec, BodyPart, HitType};
use crate::stat::{
    can_act, chance_spec, components, or_i, damage_spec, flat_reduction, hit_multiplier, target_part, lemma_damage_bounds, residual_spec, triggers_spec,
    DamageType, IdSkills, Stat,
};
use rand::rngs::StdRng;
use vstd::prelude::*;

verus! {

/// A skill or status effect: its identifier, its duration in cycles (zero for
/// a permanent one) and the modifier that it stacks on its holder.
#[derive(Debug, Clone)]
pub struct Skill {
    pub id: IdSkills,
    pub turn: u64,
    pub effect: Stat,
}

/// A skill active on a combatant: its identifier, its duration, and the cycle
/// (counted from one) in which it was applied. A timed skill is active through
/// cycle `applied + turn - 1`.
#[derive(PartialEq, Eq, Structural, Debug, Clone, Copy)]
pub struct ActiveSkill {
    pub id: IdSkills,
    pub turn: u64,
    pub applied: u64,
}

impl ActiveSkill {
    /// Whether the skill is still active after `turn` cycles have run.
    pub open spec fn kept(self, turn: int) -> bool {
        self.turn == 0 || turn + 1 < self.applied + self.turn
    }
}

/// Two records that agree on every field, the damage composition by content.
pub open spec fn same(x: Stat, y: Stat) -> bool {
    Stat { damage: None, ..x } == Stat { damage: None, ..y } && components(x) == components(y)
}

/// The effect of the first skill with identifier `id` in `book`.
pub open spec fn effect_in(book: Seq<Skill>, id: IdSkills) -> Option<Stat>
    decreases book.len(),
{
    if book.len() == 0 {
        None
    } else if book[0].id == id {
        Some(book[0].effect)
    } else {
        effect_in(book.drop_first(), id)
    }
}

/// A base record with the effects of the active skills stacked on it in
/// order; a skill missing from `book` adds nothing.
pub open spec fn effective_spec(base: Stat, skills: Seq<ActiveSkill>, book: Seq<Skill>) -> Stat
    decreases skills.len(),
{
    if skills.len() == 0 {
        base
    } else {
        let acc = effective_spec(base, skills.drop_last(), book);
        match effect_in(book, skills.last().id) {
            Some(e) => acc.add_spec(e),
            None => acc,
        }
    }
}

/// Identifiers are unique among the active skills.
pub open spec fn unique_ids(s: Seq<ActiveSkill>) -> bool {
    forall|i: int, j: int| 0 <= i < j < s.len() ==> s[i].id != s[j].id
}

/// The active skills after applying `e`: an entry with the same identifier is
/// overwritten, else `e` is appended.
pub open spec fn with_skill(s: Seq<ActiveSkill>, e: ActiveSkill) -> Seq<ActiveSkill> {
    if exists|i: int| 0 <= i < s.len() && s[i].id == e.id {
        s.update(choose|i: int| 0 <= i < s.len() && s[i].id == e.id, e)
    } else {
        s.push(e)
    }
}

/// The active skills after applying, in order, every triggered effect that
/// `book` defines, in cycle `cycle`.
pub open spec fn with_triggered(
    s: Seq<ActiveSkill>,
    book: Seq<Skill>,
    triggers: Seq<(IdSkills, bool)>,
    cycle: int,
) -> Seq<ActiveSkill>
    decreases triggers.len(),
{
    if triggers.len() == 0 {
        s
    } else {
        let prev = with_triggered(s, book, triggers.drop_last(), cycle);
        let (id, hit) = triggers.last();
        if hit && effect_in(book, id) is Some {
            with_skill(
                prev,
                ActiveSkill { id, turn: skill_turn(book, id), applied: cycle as u64 },
            )
        } else {
            prev
        }
    }
}

/// The duration of the first skill with identifier `id` in `book`.
pub open spec fn skill_turn(book: Seq<Skill>, id: IdSkills) -> u64
    decreases book.len(),
{
    if book.len() == 0 {
        0
    } else if book[0].id == id {
        book[0].turn
    } else {
        skill_turn(book.drop_first(), id)
    }
}

/// Copies a damage composition.
fn copy_components(v: &Vec<(DamageType, u64)>) -> (r: Vec<(DamageType, u64)>)
    ensures
        r@ == v@,
{
    let mut r: Vec<(DamageType, u64)> = Vec::new();
    let mut i: usize = 0;
    while i < v.len()
        invariant
            i <= v@.len(),
            r@ == v@.take(i as int),
        decreases v@.len() - i,
    {
        r.push(v[i]);
        i = i + 1;
        assert(r@ =~= v@.take(i as int));
    }
    assert(v@.take(v@.len() as int) =~= v@);
    r
}

/// A copy of a record.
pub fn copy_stat(s: &Stat) -> (r: Stat)
    ensures
        same(r, *s),
{
    let damage = match &s.damage {
        Some(v) => Some(copy_components(v)),
        None => None,
    };
    Stat {
        hp: s.hp,
        damage,
        weapon_type: s.weapon_type,
        weapon_dmg: s.weapon_dmg,
        main_hand_eff: s.main_hand_eff,
        armor_pen: s.armor_pen,
        accuracy: s.accuracy,
        crit_chance: s.crit_chance,
        crit_eff: s.crit_eff,
        counter: s.counter,
        fumble: s.fumble,
        bleed_chance: s.bleed_chance,
        daze_chance: s.daze_chance,
        stun_chance: s.stun_chance,
        knockback_chance: s.knockback_chance,
        immobilization_chance: s.immobilization_chance,
        stagger_chance: s.stagger_chance,
        block: s.block,
        block_power: s.block_power,
        block_recovery: s.block_recovery,
        dodge: s.dodge,
        fortitude: s.fortitude,
        control_res: s.control_res,
        move_res: s.move_res,
        damage_taken: s.damage_taken,
        hands: s.hands,
        legs: s.legs,
        torso: s.torso,
        head: s.head,
        flat_damage_receive: s.flat_damage_receive,
        percent_damage_receive: s.percent_damage_receive,
        can_perform_action: s.can_perform_action,
    }
}

/// Stacking respects `same` on both operands.
proof fn lemma_same_add(a: Stat, a2: Stat, b: Stat, b2: Stat)
    requires
        same(a, a2),
        same(b, b2),
    ensures
        same(a.add_spec(b), a2.add_spec(b2)),
{
    assert(Stat { damage: None, ..a }.hp == a.hp);
    assert(Stat { damage: None, ..a2 }.hp == a2.hp);
}

/// Records that are the `same` agree on every field but the damage vector,
/// whose contents they share.
proof fn lemma_same_fields(x: Stat, y: Stat)
    requires
        same(x, y),
    ensures
        x.hp == y.hp,
        x.weapon_type == y.weapon_type,
        x.weapon_dmg == y.weapon_dmg,
        x.main_hand_eff == y.main_hand_eff,
        x.armor_pen == y.armor_pen,
        x.accuracy == y.accuracy,
        x.crit_chance == y.crit_chance,
        x.crit_eff == y.crit_eff,
        x.counter == y.counter,
        x.fumble == y.fumble,
        x.bleed_chance == y.bleed_chance,
        x.daze_chance == y.daze_chance,
        x.stun_chance == y.stun_chance,
        x.knockback_chance == y.knockback_chance,
        x.immobilization_chance == y.immobilization_chance,
        x.stagger_chance == y.stagger_chance,
        x.block == y.block,
        x.block_power == y.block_power,
        x.block_recovery == y.block_recovery,
        x.dodge == y.dodge,
        x.fortitude == y.fortitude,
        x.control_res == y.control_res,
        x.move_res == y.move_res,
        x.damage_taken == y.damage_taken,
        x.hands == y.hands,
        x.legs == y.legs,
        x.torso == y.torso,
        x.head == y.head,
        x.flat_damage_receive == y.flat_damage_receive,
        x.percent_damage_receive == y.percent_damage_receive,
        x.can_perform_action == y.can_perform_action,
{
    let x0 = Stat { damage: None, ..x };
    let y0 = Stat { damage: None, ..y };
    assert(x0.hp == x.hp && y0.hp == y.hp);
    assert(x0.weapon_type == x.weapon_type && y0.weapon_type == y.weapon_type);
    assert(x0.weapon_dmg == x.weapon_dmg && y0.weapon_dmg == y.weapon_dmg);
    assert(x0.main_hand_eff == x.main_hand_eff && y0.main_hand_eff == y.main_hand_eff);
    assert(x0.armor_pen == x.armor_pen && y0.armor_pen == y.armor_pen);
    assert(x0.accuracy == x.accuracy && y0.accuracy == y.accuracy);
    assert(x0.crit_chance == x.crit_chance && y0.crit_chance == y.crit_chance);
    assert(x0.crit_eff == x.crit_eff && y0.crit_eff == y.crit_eff);
    assert(x0.counter == x.counter && y0.counter == y.counter);
    assert(x0.fumble == x.fumble && y0.fumble == y.fumble);
    assert(x0.bleed_chance == x.bleed_chance && y0.bleed_chance == y.bleed_chance);
    assert(x0.daze_chance == x.daze_chance && y0.daze_chance == y.daze_chance);
    assert(x0.stun_chance == x.stun_chance && y0.stun_chance == y.stun_chance);
    assert(x0.knockback_chance == x.knockback_chance && y0.knockback_chance == y.knockback_chance);
    assert(x0.immobilization_chance == x.immobilization_chance && y0.immobilization_chance == y.immobilization_chance);
    assert(x0.stagger_chance == x.stagger_chance && y0.stagger_chance == y.stagger_chance);
    assert(x0.block == x.block && y0.block == y.block);
    assert(x0.block_power == x.block_power && y0.block_power == y.block_power);
    assert(x0.block_recovery == x.block_recovery && y0.block_recovery == y.block_recovery);
    assert(x0.dodge == x.dodge && y0.dodge == y.dodge);
    assert(x0.fortitude == x.fortitude && y0.fortitude == y.fortitude);
    assert(x0.control_res == x.control_res && y0.control_res == y.control_res);
    assert(x0.move_res == x.move_res && y0.move_res == y.move_res);
    assert(x0.damage_taken == x.damage_taken && y0.damage_taken == y.damage_taken);
    assert(x0.hands == x.hands && y0.hands == y.hands);
    assert(x0.legs == x.legs && y0.legs == y.legs);
    assert(x0.torso == x.torso && y0.torso == y.torso);
    assert(x0.head == x.head && y0.head == y.head);
    assert(x0.flat_damage_receive == x.flat_damage_receive && y0.flat_damage_receive == y.flat_damage_receive);
    assert(x0.percent_damage_receive == x.percent_damage_receive && y0.percent_damage_receive == y.percent_damage_receive);
    assert(x0.can_perform_action == x.can_perform_action && y0.can_perform_action == y.can_perform_action);
}

/// The rules read a record through its fields and damage contents alone.
proof fn lemma_same_rules(x: Stat, x2: Stat, y: Stat, y2: Stat)
    requires
        same(x, x2),
        same(y, y2),
    ensures
        chance_spec(x, y) == chance_spec(x2, y2),
        residual_spec(x) == residual_spec(x2),
        x.counter == x2.counter,
        components(x) == components(x2),
        forall|p: BodyPart, h: HitType, b: int, c: Seq<(DamageType, u64)>|
            #[trigger] damage_spec(x, y, p, h, b, c) == damage_spec(x2, y2, p, h, b, c),
{
    lemma_same_fields(x, x2);
    lemma_same_fields(y, y2);
    assert forall|p: BodyPart, h: HitType, b: int, c: Seq<(DamageType, u64)>|
        #[trigger] damage_spec(x, y, p, h, b, c) == damage_spec(x2, y2, p, h, b, c) by {
        assert(target_part(y, p) == target_part(y2, p));
        assert(flat_reduction(x, y, p) == flat_reduction(x2, y2, p));
        assert(hit_multiplier(x, h) == hit_multiplier(x2, h));
    }
}

/// Finds the skill with identifier `id` in `book`.
fn find_skill<'a>(book: &'a Vec<Skill>, id: IdSkills) -> (r: Option<&'a Skill>)
    ensures
        match effect_in(book@, id) {
            Some(e) => r matches Some(s) && s.effect == e && s.id == id && s.turn == skill_turn(
                book@,
                id,
            ),
            None => r is None,
        },
{
    let mut i: usize = 0;
    assert(book@.skip(0) =~= book@);
    while i < book.len()
        invariant
            i <= book@.len(),
            effect_in(book@, id) == effect_in(book@.skip(i as int), id),
            skill_turn(book@, id) == skill_turn(book@.skip(i as int), id),
        decreases book@.len() - i,
    {
        assert(book@.skip(i as int).drop_first() =~= book@.skip(i + 1));
        if book[i].id == id {
            return Some(&book[i]);
        }
        i = i + 1;
    }
    None
}

/// A combatant: base attributes and the skills active on it.
#[derive(Debug)]
pub struct Char {
    pub stat: Stat,
    pub skills: Vec<ActiveSkill>,
}

impl Char {
    pub open spec fn wf(&self) -> bool {
        unique_ids(self.skills@)
    }

    /// A combatant with no active skill.
    pub fn new(stat: Stat) -> (r: Char)
        ensures
            r.stat == stat,
            r.skills@ == Seq::<ActiveSkill>::empty(),
            r.wf(),
    {
        Char { stat, skills: Vec::new() }
    }

    /// An independent copy.
    pub fn clone(&self) -> (r: Char)
        ensures
            same(r.stat, self.stat),
            r.skills@ == self.skills@,
    {
        Char { stat: copy_stat(&self.stat), skills: copy_skills(&self.skills) }
    }

    /// The effective attributes: the base record with every active skill's
    /// effect from `book` stacked on it.
    pub fn compute(&self, book: &Vec<Skill>) -> (r: Stat)
        ensures
            same(r, effective_spec(self.stat, self.skills@, book@)),
    {
        let mut raw_stat = copy_stat(&self.stat);
        let mut i: usize = 0;
        while i < self.skills.len()
            invariant
                i <= self.skills@.len(),
                same(raw_stat, effective_spec(self.stat, self.skills@.take(i as int), book@)),
            decreases self.skills@.len() - i,
        {
            let id = self.skills[i].id;
            let ghost prev = effective_spec(self.stat, self.skills@.take(i as int), book@);
            assert(self.skills@.take(i + 1).drop_last() =~= self.skills@.take(i as int));
            match find_skill(book, id) {
                Some(s) => {
                    let e = copy_stat(&s.effect);
                    proof {
                        lemma_same_add(raw_stat, prev, e, s.effect);
                    }
                    raw_stat = raw_stat.add(e);
                },
                None => {},
            }
            i = i + 1;
        }
        assert(self.skills@.take(self.skills@.len() as int) =~= self.skills@);
        raw_stat
    }

    /// Drops the timed skills that have run their course after `turn` cycles.
    pub fn remove_outdated_skills(&mut self, turn: u64)
        requires
            old(self).wf(),
        ensures
            final(self).wf(),
            final(self).stat == old(self).stat,
            final(self).skills@ == old(self).skills@.filter(|e: ActiveSkill| e.kept(turn as int)),
    {
        let ghost pred = |e: ActiveSkill| e.kept(turn as int);
        let mut kept: Vec<ActiveSkill> = Vec::new();
        let mut i: usize = 0;
        while i < self.skills.len()
            invariant
                i <= self.skills@.len(),
                unique_ids(self.skills@),
                pred == (|e: ActiveSkill| e.kept(turn as int)),
                kept@ == self.skills@.take(i as int).filter(pred),
                unique_ids(kept@),
                forall|j: int|
                    0 <= j < kept@.len() ==> exists|m: int|
                        0 <= m < i && #[trigger] kept@[j] == self.skills@[m],
            decreases self.skills@.len() - i,
        {
            let e = self.skills[i];
            proof {
                self.skills@.take(i as int).lemma_filter_push(e, pred);
                assert(self.skills@.take(i + 1) =~= self.skills@.take(i as int).push(e));
            }
            if e.turn == 0 || turn as u128 + 1 < e.applied as u128 + e.turn as u128 {
                proof {
                    assert forall|j: int| 0 <= j < kept@.len() implies kept@[j].id != e.id by {
                        let m = choose|m: int| 0 <= m < i && kept@[j] == self.skills@[m];
                    }
                }
                kept.push(e);
                proof {
                    assert forall|j: int| 0 <= j < kept@.len() implies exists|m: int|
                        0 <= m < i + 1 && #[trigger] kept@[j] == self.skills@[m] by {
                        if j == kept@.len() - 1 {
                            assert(kept@[j] == self.skills@[i as int]);
                        } else {
                            let m = choose|m: int| 0 <= m < i && kept@[j] == self.skills@[m];
                            assert(kept@[j] == self.skills@[m]);
                        }
                    }
                }
            }
            i = i + 1;
        }
        assert(self.skills@.take(self.skills@.len() as int) =~= self.skills@);
        self.skills = kept;
    }

    /// Applies `skill` in cycle `cycle`: an active skill with the same
    /// identifier is overwritten, else the skill is added.
    pub fn add_skill(&mut self, skill: &Skill, cycle: u64)
        requires
            old(self).wf(),
        ensures
            final(self).wf(),
            final(self).stat == old(self).stat,
            final(self).skills@ == with_skill(
                old(self).skills@,
                ActiveSkill { id: skill.id, turn: skill.turn, applied: cycle },
            ),
    {
        let entry = ActiveSkill { id: skill.id, turn: skill.turn, applied: cycle };
        let mut i: usize = 0;
        while i < self.skills.len()
            invariant
                i <= self.skills@.len(),
                self.stat == old(self).stat,
                self.skills@ == old(self).skills@,
                unique_ids(self.skills@),
                entry == (ActiveSkill { id: skill.id, turn: skill.turn, applied: cycle }),
                forall|j: int| 0 <= j < i ==> self.skills@[j].id != skill.id,
            decreases self.skills@.len() - i,
        {
            if self.skills[i].id == skill.id {
                proof {
                    let k = choose|k: int|
                        0 <= k < self.skills@.len() && self.skills@[k].id == entry.id;
                    assert(k == i);
                }
                self.skills.set(i, entry);
                return;
            }
            i = i + 1;
        }
        self.skills.push(entry);
    }

    /// Applies to `self`, in cycle `cycle`, every triggered effect that
    /// `book` defines.
    pub fn apply_triggers(
        &mut self,
        book: &Vec<Skill>,
        triggers: &Vec<(IdSkills, bool)>,
        cycle: u64,
    )
        requires
            old(self).wf(),
        ensures
            final(self).wf(),
            final(self).stat == old(self).stat,
            final(self).skills@ == with_triggered(old(self).skills@, book@, triggers@, cycle as int),
    {
        let mut k: usize = 0;
        while k < triggers.len()
            invariant
                k <= triggers@.len(),
                self.wf(),
                self.stat == old(self).stat,
                self.skills@ == with_triggered(
                    old(self).skills@,
                    book@,
                    triggers@.take(k as int),
                    cycle as int,
                ),
            decreases triggers@.len() - k,
        {
            let (id, hit) = triggers[k];
            assert(triggers@.take(k + 1).drop_last() =~= triggers@.take(k as int));
            if hit {
                match find_skill(book, id) {
                    Some(skill) => {
                        self.add_skill(skill, cycle);
                    },
                    None => {},
                }
            }
            k = k + 1;
        }
        assert(triggers@.take(triggers@.len() as int) =~= triggers@);
    }

    /// Rolls the status effects of a landed attack by `self` on `other` at
    /// `bodypart_hit` (from the two base records) and applies the triggered
    /// ones to `other` in cycle `cycle`.
    pub fn resolve_hit(
        &self,
        other: &mut Char,
        skills_map: &Vec<Skill>,
        bodypart_hit: BodyPart,
        is_crit: bool,
        cycle: u64,
        rng: &mut StdRng,
    )
        requires
            old(other).wf(),
        ensures
            final(other).wf(),
            final(other).stat == old(other).stat,
            exists|cr: Seq<u64>, rr: Seq<u64>|
                cr.len() == 6 && rr.len() == 6 && (forall|j: int|
                    0 <= j < 6 ==> cr[j] < ONE && rr[j] < ONE) && final(other).skills@
                    == #[trigger] with_triggered(
                    old(other).skills@,
                    skills_map@,
                    triggers_spec(self.stat, old(other).stat, bodypart_hit, is_crit, cr, rr),
                    cycle as int,
                ),
    {
        let triggers = self.stat.additional_effect(&other.stat, bodypart_hit, is_crit, rng);
        other.apply_triggers(skills_map, &triggers, cycle);
    }
}

/// `x` saturated at `u64::MAX`.
pub open spec fn sat(x: int) -> int {
    if x > u64::MAX {
        u64::MAX as int
    } else {
        x
    }
}

/// The result of one cycle from the effective records `s1` and `s2` (damage
/// compositions `c1`, `c2`), targets `part1`, `part2`, the four outcomes `o` (first's
/// attack, second's counter, second's attack, first's counter) and the block
/// pools `b1`, `b2`: the damage to the second (with the first's residual
/// damage), the damage to the first (with the second's residual damage), and
/// the block used from the first's and from the second's pool. A counter meets
/// what is left of the pool after the attack before it in the cycle.
pub open spec fn exchange_spec(
    s1: Stat,
    s2: Stat,
    c1: Seq<(DamageType, u64)>,
    c2: Seq<(DamageType, u64)>,
    part1: BodyPart,
    part2: BodyPart,
    o: Seq<HitType>,
    b1: int,
    b2: int,
) -> Seq<int> {
    let a = damage_spec(s1, s2, part1, o[0], b2, c1);
    let b = damage_spec(s2, s1, part2, o[1], b1, c2);
    let c = damage_spec(s2, s1, part2, o[2], b1 - b.1, c2);
    let d = damage_spec(s1, s2, part1, o[3], b2 - a.1, c1);
    seq![sat(a.0 + d.0 + residual_spec(s1)), sat(b.0 + c.0 + residual_spec(s2)), b.1 + c.1, a.1 + d.1]
}

/// Whether `o` can come from draws on the distributions of the two
/// combatants: an attack at full scale, a counter scaled by the counter-attack
/// attribute.
pub open spec fn drawn_outcomes(s1: Stat, s2: Stat, o: Seq<HitType>, rolls: Seq<int>) -> bool {
    &&& o.len() == 4
    &&& rolls.len() == 4
    &&& forall|k: int| 0 <= k < 4 ==> 0 <= #[trigger] rolls[k] < ONE
    &&& o[0] == outcome_spec(chance_spec(s1, s2), rolls[0], ONE as int)
    &&& o[1] == outcome_spec(chance_spec(s2, s1), rolls[1], factor_spec(s2.counter))
    &&& o[2] == outcome_spec(chance_spec(s2, s1), rolls[2], ONE as int)
    &&& o[3] == outcome_spec(chance_spec(s1, s2), rolls[3], factor_spec(s1.counter))
}

fn sat_add(a: u64, b: u64) -> (r: u64)
    ensures
        r == sat(a + b),
{
    if a > u64::MAX - b {
        u64::MAX
    } else {
        a + b
    }
}

/// Whether an outcome lands (and so may trigger status effects), and whether
/// it is critical.
fn landed(h: HitType) -> (r: (bool, bool))
    ensures
        r.0 == h.is_landed(),
        r.1 == (h is CritHit || h is BlockCritHit),
{
    match h {
        HitType::CritHit => (true, true),
        HitType::NormalHit => (true, false),
        HitType::BlockCritHit => (true, true),
        HitType::BlockNormalHit => (true, false),
        _ => (false, false),
    }
}

/// The damage and block figures of one cycle, from the effective records of
/// both sides, the targets, the four outcomes in cycle order and the block
/// pools; see `exchange_spec`. `None` when either record has no damage
/// composition.
pub fn exchange_damage(
    first_stat: &Stat,
    second_stat: &Stat,
    part1: BodyPart,
    part2: BodyPart,
    outcomes: [HitType; 4],
    block_first: u64,
    block_second: u64,
) -> (r: Option<[u64; 4]>)
    ensures
        r is None <==> (components(*first_stat) is None || components(*second_stat) is None),
        r matches Some(a) ==> a[2] <= block_first && a[3] <= block_second && a@.map_values(
            |x: u64| x as int,
        ) == exchange_spec(
            *first_stat,
            *second_stat,
            components(*first_stat)->0,
            components(*second_stat)->0,
            part1,
            part2,
            outcomes@,
            block_first as int,
            block_second as int,
        ),
{
    let ghost c1 = components(*first_stat)->0;
    let ghost c2 = components(*second_stat)->0;
    let (first_dmg, second_dmg_block) = match first_stat.get_damage(
        second_stat,
        part1,
        outcomes[0],
        block_second,
    ) {
        Some(x) => x,
        None => {
            return None;
        },
    };
    let (second_counter_dmg, first_counter_dmg_block) = match second_stat.get_damage(
        first_stat,
        part2,
        outcomes[1],
        block_first,
    ) {
        Some(x) => x,
        None => {
            return None;
        },
    };
    proof {
        lemma_damage_bounds(*first_stat, *second_stat, part1, outcomes[0], block_second as int, c1);
        lemma_damage_bounds(*second_stat, *first_stat, part2, outcomes[1], block_first as int, c2);
    }
    let (second_dmg, first_dmg_block) = match second_stat.get_damage(
        first_stat,
        part2,
        outcomes[2],
        block_first - first_counter_dmg_block,
    ) {
        Some(x) => x,
        None => {
            return None;
        },
    };
    let (first_counter_dmg, second_counter_dmg_block) = match first_stat.get_damage(
        second_stat,
        part1,
        outcomes[3],
        block_second - second_dmg_block,
    ) {
        Some(x) => x,
        None => {
            return None;
        },
    };
    proof {
        lemma_damage_bounds(
            *second_stat,
            *first_stat,
            part2,
            outcomes[2],
            (block_first - first_counter_dmg_block) as int,
            c2,
        );
        lemma_damage_bounds(
            *first_stat,
            *second_stat,
            part1,
            outcomes[3],
            (block_second - second_dmg_block) as int,
            c1,
        );
    }
    let r = [
        sat_add(sat_add(first_dmg, first_counter_dmg), first_stat.residual_damage()),
        sat_add(sat_add(second_counter_dmg, second_dmg), second_stat.residual_damage()),
        first_counter_dmg_block + first_dmg_block,
        second_dmg_block + second_counter_dmg_block,
    ];
    assert(r@.map_values(|x: u64| x as int) =~= exchange_spec(
        *first_stat,
        *second_stat,
        c1,
        c2,
        part1,
        part2,
        outcomes@,
        block_first as int,
        block_second as int,
    ));
    Some(r)
}

/// The active skills of a target after an outcome: a landed hit applies the
/// status effects that the attacker's and target's base records and the draws
/// `cr`, `rr` trigger; any other outcome leaves them alone.
pub open spec fn hit_effects(
    s: Seq<ActiveSkill>,
    book: Seq<Skill>,
    o: HitType,
    attacker: Stat,
    target: Stat,
    part: BodyPart,
    cr: Seq<u64>,
    rr: Seq<u64>,
    cycle: int,
) -> Seq<ActiveSkill> {
    if o.is_landed() {
        with_triggered(
            s,
            book,
            triggers_spec(attacker, target, part, o is CritHit || o is BlockCritHit, cr, rr),
            cycle,
        )
    } else {
        s
    }
}

/// Four groups of six status-effect draws, each below one.
pub open spec fn valid_rolls(r: Seq<Seq<u64>>) -> bool {
    &&& r.len() == 4
    &&& forall|k: int| 0 <= k < 4 ==> (#[trigger] r[k]).len() == 6
    &&& forall|k: int, j: int| 0 <= k < 4 && 0 <= j < 6 ==> #[trigger] r[k][j] < ONE
}

/// A target that an attack of `s` can draw: one of the six locations, or
/// none when `s` cannot act.
pub open spec fn drawn_target(s: Stat, p: BodyPart) -> bool {
    if can_act(s) {
        exists|i: int| 0 <= i < 6 && p == body_part_spec(i)
    } else {
        p == BodyPart::Untargeted
    }
}

/// All the draws of one cycle: the four outcomes, the two targets and the
/// status-effect draws of the four outcomes.
pub open spec fn cycle_draws(
    e1: Stat,
    e2: Stat,
    o: Seq<HitType>,
    rolls: Seq<int>,
    part1: BodyPart,
    part2: BodyPart,
    cr: Seq<Seq<u64>>,
    rr: Seq<Seq<u64>>,
) -> bool {
    &&& drawn_outcomes(e1, e2, o, rolls)
    &&& drawn_target(e1, part1)
    &&& drawn_target(e2, part2)
    &&& valid_rolls(cr)
    &&& valid_rolls(rr)
}

/// The first's active skills after the second's counter and attack.
pub open spec fn first_after(
    s1: Stat,
    k1: Seq<ActiveSkill>,
    s2: Stat,
    book: Seq<Skill>,
    o: Seq<HitType>,
    part2: BodyPart,
    cr: Seq<Seq<u64>>,
    rr: Seq<Seq<u64>>,
    cycle: int,
) -> Seq<ActiveSkill> {
    hit_effects(
        hit_effects(k1, book, o[1], s2, s1, part2, cr[1], rr[1], cycle),
        book,
        o[2],
        s2,
        s1,
        part2,
        cr[2],
        rr[2],
        cycle,
    )
}

/// The second's active skills after the first's attack and counter.
pub open spec fn second_after(
    s1: Stat,
    s2: Stat,
    k2: Seq<ActiveSkill>,
    book: Seq<Skill>,
    o: Seq<HitType>,
    part1: BodyPart,
    cr: Seq<Seq<u64>>,
    rr: Seq<Seq<u64>>,
    cycle: int,
) -> Seq<ActiveSkill> {
    hit_effects(
        hit_effects(k2, book, o[0], s1, s2, part1, cr[0], rr[0], cycle),
        book,
        o[3],
        s1,
        s2,
        part1,
        cr[3],
        rr[3],
        cycle,
    )
}

/// What one cycle, numbered `cycle`, may give from base records `s1`, `s2`
/// with active skills `k1`, `k2` and block pools `b1`, `b2`: both sides have a
/// damage composition, and for some draws the figures are `d` (see
/// `exchange_spec`) and the active skills become `k1a`, `k2a`.
pub open spec fn cycle_allowed(
    s1: Stat,
    k1: Seq<ActiveSkill>,
    s2: Stat,
    k2: Seq<ActiveSkill>,
    book: Seq<Skill>,
    b1: int,
    b2: int,
    cycle: int,
    d: Seq<int>,
    k1a: Seq<ActiveSkill>,
    k2a: Seq<ActiveSkill>,
) -> bool {
    let e1 = effective_spec(s1, k1, book);
    let e2 = effective_spec(s2, k2, book);
    &&& components(e1) is Some
    &&& components(e2) is Some
    &&& exists|
        o: Seq<HitType>,
        rolls: Seq<int>,
        part1: BodyPart,
        part2: BodyPart,
        cr: Seq<Seq<u64>>,
        rr: Seq<Seq<u64>>,
    |
        #[trigger] cycle_draws(e1, e2, o, rolls, part1, part2, cr, rr) && d == exchange_spec(
            e1,
            e2,
            components(e1)->0,
            components(e2)->0,
            part1,
            part2,
            o,
            b1,
            b2,
        ) && k1a == first_after(s1, k1, s2, book, o, part2, cr, rr, cycle) && k2a
            == second_after(s1, s2, k2, book, o, part1, cr, rr, cycle)
}

/// Six draws that no outcome reads (those of an outcome that did not land).
pub open spec fn unused_rolls() -> Seq<u64> {
    Seq::new(6, |j: int| 0u64)
}

/// Rolls and applies the status effects of one outcome of an attack by
/// `attacker` on `target`; gives the draws used (unused ones when the outcome
/// did not land).
fn resolve_outcome(
    attacker: &Char,
    target: &mut Char,
    skills_map: &Vec<Skill>,
    o: HitType,
    part: BodyPart,
    cycle: u64,
    rng: &mut StdRng,
) -> (draws: Ghost<(Seq<u64>, Seq<u64>)>)
    requires
        old(target).wf(),
    ensures
        final(target).wf(),
        final(target).stat == old(target).stat,
        draws@.0.len() == 6,
        draws@.1.len() == 6,
        forall|j: int| 0 <= j < 6 ==> draws@.0[j] < ONE && draws@.1[j] < ONE,
        final(target).skills@ == hit_effects(
            old(target).skills@,
            skills_map@,
            o,
            attacker.stat,
            old(target).stat,
            part,
            draws@.0,
            draws@.1,
            cycle as int,
        ),
{
    let (land, crit) = landed(o);
    if land {
        attacker.resolve_hit(target, skills_map, part, crit, cycle, rng);
        let ghost (cr, rr) = choose|cr: Seq<u64>, rr: Seq<u64>|
            cr.len() == 6 && rr.len() == 6 && (forall|j: int| 0 <= j < 6 ==> cr[j] < ONE && rr[j] < ONE)
                && target.skills@ == #[trigger] with_triggered(
                old(target).skills@,
                skills_map@,
                triggers_spec(attacker.stat, old(target).stat, part, crit, cr, rr),
                cycle as int,
            );
        Ghost((cr, rr))
    } else {
        Ghost((unused_rolls(), unused_rolls()))
    }
}

/// One cycle, numbered `cycle`: the first's attack, the second's counter, the
/// second's attack and the first's counter, each landed hit rolling status
/// effects on its target. Gives the damage to the second, the damage to the
/// first, and the block used from the first's and the second's pool; `None`
/// when either effective record has no damage composition.
#[verifier::rlimit(60)]
pub fn simulate_damage_cycle_attack_via_stat(
    first: &mut Char,
    second: &mut Char,
    block_first: u64,
    block_second: u64,
    skills_map: &Vec<Skill>,
    cycle: u64,
    rng: &mut StdRng,
) -> (r: Option<[u64; 4]>)
    requires
        old(first).wf(),
        old(second).wf(),
    ensures
        final(first).wf(),
        final(second).wf(),
        final(first).stat == old(first).stat,
        final(second).stat == old(second).stat,
        r is None <==> (components(effective_spec(old(first).stat, old(first).skills@, skills_map@))
            is None || components(effective_spec(old(second).stat, old(second).skills@, skills_map@))
            is None),
        r is None ==> final(first).skills@ == old(first).skills@ && final(second).skills@ == old(
            second,
        ).skills@,
        r matches Some(a) ==> a[2] <= block_first && a[3] <= block_second && cycle_allowed(
            old(first).stat,
            old(first).skills@,
            old(second).stat,
            old(second).skills@,
            skills_map@,
            block_first as int,
            block_second as int,
            cycle as int,
            a@.map_values(|x: u64| x as int),
            final(first).skills@,
            final(second).skills@,
        ),
{
    let ghost s1 = first.stat;
    let ghost s2 = second.stat;
    let ghost k1 = first.skills@;
    let ghost k2 = second.skills@;
    let ghost e1 = effective_spec(first.stat, first.skills@, skills_map@);
    let ghost e2 = effective_spec(second.stat, second.skills@, skills_map@);
    let first_stat = first.compute(skills_map);
    let second_stat = second.compute(skills_map);
    proof {
        lemma_same_rules(first_stat, e1, second_stat, e2);
        lemma_same_rules(second_stat, e2, first_stat, e1);
        lemma_same_fields(first_stat, e1);
        lemma_same_fields(second_stat, e2);
    }
    if first_stat.damage.is_none() || second_stat.damage.is_none() {
        return None;
    }
    let hit_first = first_stat.attack(&second_stat, rng);
    let hit_second = second_stat.attack(&first_stat, rng);
    let part1 = hit_first.get_bodypart_hit();
    let part2 = hit_second.get_bodypart_hit();
    let o0 = hit_first.draw(rng, None);
    let o1 = hit_second.draw(rng, second_stat.get_counter());
    let o2 = hit_second.draw(rng, None);
    let o3 = hit_first.draw(rng, first_stat.get_counter());
    let ghost rolls = seq![
        choose|roll: int| 0 <= roll < ONE && o0 == #[trigger] outcome_spec(hit_first.chance@, roll, ONE as int),
        choose|roll: int| 0 <= roll < ONE && o1 == #[trigger] outcome_spec(hit_second.chance@, roll, factor_spec(second_stat.counter)),
        choose|roll: int| 0 <= roll < ONE && o2 == #[trigger] outcome_spec(hit_second.chance@, roll, ONE as int),
        choose|roll: int| 0 <= roll < ONE && o3 == #[trigger] outcome_spec(hit_first.chance@, roll, factor_spec(first_stat.counter)),
    ];
    let outcomes = [o0, o1, o2, o3];
    assert(drawn_outcomes(e1, e2, outcomes@, rolls));
    assert(drawn_target(e1, part1) && drawn_target(e2, part2));

    let d0 = resolve_outcome(first, second, skills_map, o0, part1, cycle, rng);
    let d1 = resolve_outcome(second, first, skills_map, o1, part2, cycle, rng);
    let d2 = resolve_outcome(second, first, skills_map, o2, part2, cycle, rng);
    let d3 = resolve_outcome(first, second, skills_map, o3, part1, cycle, rng);
    let ghost cr = seq![d0@.0, d1@.0, d2@.0, d3@.0];
    let ghost rr = seq![d0@.1, d1@.1, d2@.1, d3@.1];
    assert(valid_rolls(cr) && valid_rolls(rr));
    assert(cycle_draws(e1, e2, outcomes@, rolls, part1, part2, cr, rr));
    assert(first.skills@ == first_after(s1, k1, s2, skills_map@, outcomes@, part2, cr, rr, cycle as int));
    assert(second.skills@ == second_after(s1, s2, k2, skills_map@, outcomes@, part1, cr, rr, cycle as int));

    let r = exchange_damage(
        &first_stat,
        &second_stat,
        part1,
        part2,
        outcomes,
        block_first,
        block_second,
    );
    proof {
        assert(exchange_spec(
            first_stat,
            second_stat,
            components(first_stat)->0,
            components(second_stat)->0,
            part1,
            part2,
            outcomes@,
            block_first as int,
            block_second as int,
        ) == exchange_spec(
            e1,
            e2,
            components(e1)->0,
            components(e2)->0,
            part1,
            part2,
            outcomes@,
            block_first as int,
            block_second as int,
        ));
    }
    r
}

/// Components that stay present through stacking: a base record with a
/// damage composition keeps one whatever skills are stacked on it.
proof fn lemma_effective_keeps_damage(base: Stat, skills: Seq<ActiveSkill>, book: Seq<Skill>)
    requires
        components(base) is Some,
    ensures
        components(effective_spec(base, skills, book)) is Some,
    decreases skills.len(),
{
    if skills.len() > 0 {
        lemma_effective_keeps_damage(base, skills.drop_last(), book);
    }
}

/// The end of one simulated fight: both sides' hit points and the number of
/// cycles run.
#[derive(PartialEq, Eq, Structural, Debug, Clone, Copy)]
pub struct ResultSimulation {
    pub first_hp_at_end: u64,
    pub second_hp_at_end: u64,
    pub turn: u64,
}

impl ResultSimulation {
    /// Field-wise sum of two results.
    pub fn add(self, rhs: ResultSimulation) -> (r: ResultSimulation)
        requires
            self.first_hp_at_end + rhs.first_hp_at_end <= u64::MAX,
            self.second_hp_at_end + rhs.second_hp_at_end <= u64::MAX,
            self.turn + rhs.turn <= u64::MAX,
        ensures
            r.first_hp_at_end == self.first_hp_at_end + rhs.first_hp_at_end,
            r.second_hp_at_end == self.second_hp_at_end + rhs.second_hp_at_end,
            r.turn == self.turn + rhs.turn,
    {
        ResultSimulation {
            first_hp_at_end: self.first_hp_at_end + rhs.first_hp_at_end,
            second_hp_at_end: self.second_hp_at_end + rhs.second_hp_at_end,
            turn: self.turn + rhs.turn,
        }
    }

    pub fn add_assign(&mut self, rhs: ResultSimulation)
        requires
            old(self).first_hp_at_end + rhs.first_hp_at_end <= u64::MAX,
            old(self).second_hp_at_end + rhs.second_hp_at_end <= u64::MAX,
            old(self).turn + rhs.turn <= u64::MAX,
        ensures
            final(self).first_hp_at_end == old(self).first_hp_at_end + rhs.first_hp_at_end,
            final(self).second_hp_at_end == old(self).second_hp_at_end + rhs.second_hp_at_end,
            final(self).turn == old(self).turn + rhs.turn,
    {
        *self = self.add(rhs);
    }
}

/// A block pool after recovering a fraction of itself, capped at `max`.
pub open spec fn regenerate_spec(block: int, recovery: Option<i64>, max: int) -> int {
    let b = block + fmul_spec(block, nonneg_spec(or_i(recovery, 0)));
    if b > max {
        max
    } else {
        b
    }
}

pub fn regenerate(block: u64, recovery: Option<i64>, max: u64) -> (r: u64)
    ensures
        r == regenerate_spec(block as int, recovery, max as int),
{
    let gain = fmul(block, nonneg(recovery.unwrap_or(0)));
    if gain > max || block > max - gain {
        max
    } else {
        block + gain
    }
}

/// What a fight from hit points `hp1`, `hp2` over at most `n` cycles ends in,
/// whatever the draws: no side gains hit points, at most `n` cycles run, and
/// the fight stops before `n` cycles only when a side is down.
pub open spec fn plausible_end(res: ResultSimulation, hp1: int, hp2: int, n: int) -> bool {
    &&& res.first_hp_at_end <= hp1
    &&& res.second_hp_at_end <= hp2
    &&& res.turn <= n
    &&& (res.turn < n ==> res.first_hp_at_end == 0 || res.second_hp_at_end == 0)
    &&& (n > 0 ==> res.turn > 0)
}

/// The running figures of a fight: both sides' hit points and block pools,
/// and the number of cycles run.
#[derive(PartialEq, Eq, Structural, Debug, Clone, Copy)]
pub struct FightState {
    pub hp_first: u64,
    pub hp_second: u64,
    pub block_first: u64,
    pub block_second: u64,
    pub turn: u64,
}

/// `a - b`, floored at zero.
pub open spec fn floor_sub(a: int, b: int) -> int {
    if b > a {
        0
    } else {
        a - b
    }
}

/// Whether a fight in state `st` runs another cycle: fewer than `n` have run,
/// and none has yet or both sides stand.
pub open spec fn continues(st: FightState, n: int) -> bool {
    st.turn < n && (st.turn == 0 || (st.hp_first > 0 && st.hp_second > 0))
}

/// The state after a cycle with figures `d` (see `exchange_spec`): hit points
/// and block pools lose the damage and block used (floored at zero), the
/// pools then recover (capped at `max1`, `max2`), and the count goes up.
pub open spec fn settle_spec(
    st: FightState,
    d: Seq<int>,
    max1: u64,
    max2: u64,
    rec1: Option<i64>,
    rec2: Option<i64>,
) -> FightState {
    FightState {
        hp_first: floor_sub(st.hp_first as int, d[1]) as u64,
        hp_second: floor_sub(st.hp_second as int, d[0]) as u64,
        block_first: regenerate_spec(floor_sub(st.block_first as int, d[2]), rec1, max1 as int) as u64,
        block_second: regenerate_spec(floor_sub(st.block_second as int, d[3]), rec2, max2 as int)
            as u64,
        turn: (st.turn + 1) as u64,
    }
}

fn floor_sub_u64(a: u64, b: u64) -> (r: u64)
    ensures
        r == floor_sub(a as int, b as int),
{
    if b > a {
        0
    } else {
        a - b
    }
}

/// Settles one cycle; see `settle_spec`.
pub fn settle(
    st: FightState,
    d: &[u64; 4],
    max1: u64,
    max2: u64,
    rec1: Option<i64>,
    rec2: Option<i64>,
) -> (r: FightState)
    requires
        st.turn < u64::MAX,
    ensures
        r == settle_spec(st, d@.map_values(|x: u64| x as int), max1, max2, rec1, rec2),
{
    let r = FightState {
        hp_first: floor_sub_u64(st.hp_first, d[1]),
        hp_second: floor_sub_u64(st.hp_second, d[0]),
        block_first: regenerate(floor_sub_u64(st.block_first, d[2]), rec1, max1),
        block_second: regenerate(floor_sub_u64(st.block_second, d[3]), rec2, max2),
        turn: st.turn + 1,
    };
    assert(d@.map_values(|x: u64| x as int)[0] == d[0]);
    assert(d@.map_values(|x: u64| x as int)[1] == d[1]);
    assert(d@.map_values(|x: u64| x as int)[2] == d[2]);
    assert(d@.map_values(|x: u64| x as int)[3] == d[3]);
    r
}

/// The state of a fight before its first cycle.
pub open spec fn start_state(s1: Stat, s2: Stat) -> FightState {
    FightState {
        hp_first: s1.hp->0,
        hp_second: s2.hp->0,
        block_first: s1.block_power->0,
        block_second: s2.block_power->0,
        turn: 0,
    }
}

/// One cycle of a fight between base records `s1`, `s2`: from state `st` and
/// active skills `k1`, `k2`, the cycle gives figures `d` and skills `a1`, `a2`
/// (see `cycle_allowed`); the sweep after it leaves `k1n`, `k2n`, and settling
/// it gives `next`.
pub open spec fn fight_step(
    s1: Stat,
    s2: Stat,
    book: Seq<Skill>,
    d: Seq<int>,
    st: FightState,
    next: FightState,
    k1: Seq<ActiveSkill>,
    k1n: Seq<ActiveSkill>,
    k2: Seq<ActiveSkill>,
    k2n: Seq<ActiveSkill>,
) -> bool {
    &&& exists|a1: Seq<ActiveSkill>, a2: Seq<ActiveSkill>|
        #[trigger] cycle_allowed(
            s1,
            k1,
            s2,
            k2,
            book,
            st.block_first as int,
            st.block_second as int,
            st.turn + 1,
            d,
            a1,
            a2,
        ) && k1n == a1.filter(|e: ActiveSkill| e.kept(st.turn + 1)) && k2n == a2.filter(
            |e: ActiveSkill| e.kept(st.turn + 1),
        )
    &&& next == settle_spec(
        st,
        d,
        s1.block_power->0,
        s2.block_power->0,
        s1.block_recovery,
        s2.block_recovery,
    )
}

/// The cycles run so far: the states, the figures of each cycle and the
/// active skills before each, from the start, each step a `fight_step` taken
/// while the fight `continues`.
pub open spec fn fight_prefix(
    s1: Stat,
    k1: Seq<ActiveSkill>,
    s2: Stat,
    k2: Seq<ActiveSkill>,
    book: Seq<Skill>,
    n: int,
    ds: Seq<Seq<int>>,
    sk1: Seq<Seq<ActiveSkill>>,
    sk2: Seq<Seq<ActiveSkill>>,
    states: Seq<FightState>,
) -> bool
    decreases ds.len(),
{
    if ds.len() == 0 {
        states == seq![start_state(s1, s2)] && sk1 == seq![k1] && sk2 == seq![k2]
    } else {
        let m = ds.len() - 1;
        &&& states.len() == ds.len() + 1
        &&& sk1.len() == states.len()
        &&& sk2.len() == states.len()
        &&& fight_prefix(
            s1,
            k1,
            s2,
            k2,
            book,
            n,
            ds.drop_last(),
            sk1.drop_last(),
            sk2.drop_last(),
            states.drop_last(),
        )
        &&& continues(states[m], n)
        &&& fight_step(
            s1,
            s2,
            book,
            ds[m],
            states[m],
            states[m + 1],
            sk1[m],
            sk1[m + 1],
            sk2[m],
            sk2[m + 1],
        )
    }
}

/// The last state of a fight prefix is the one after its last step.
proof fn lemma_prefix_shape(
    s1: Stat,
    k1: Seq<ActiveSkill>,
    s2: Stat,
    k2: Seq<ActiveSkill>,
    book: Seq<Skill>,
    n: int,
    ds: Seq<Seq<int>>,
    sk1: Seq<Seq<ActiveSkill>>,
    sk2: Seq<Seq<ActiveSkill>>,
    states: Seq<FightState>,
)
    requires
        fight_prefix(s1, k1, s2, k2, book, n, ds, sk1, sk2, states),
    ensures
        states.len() == ds.len() + 1,
        sk1.len() == states.len(),
        sk2.len() == states.len(),
{
}

/// A fight prefix extended by one more step taken while the fight continues.
proof fn lemma_extend_prefix(
    s1: Stat,
    k1: Seq<ActiveSkill>,
    s2: Stat,
    k2: Seq<ActiveSkill>,
    book: Seq<Skill>,
    n: int,
    ds: Seq<Seq<int>>,
    sk1: Seq<Seq<ActiveSkill>>,
    sk2: Seq<Seq<ActiveSkill>>,
    states: Seq<FightState>,
    d: Seq<int>,
    next: FightState,
    k1n: Seq<ActiveSkill>,
    k2n: Seq<ActiveSkill>,
)
    requires
        fight_prefix(s1, k1, s2, k2, book, n, ds, sk1, sk2, states),
        continues(states.last(), n),
        fight_step(s1, s2, book, d, states.last(), next, sk1.last(), k1n, sk2.last(), k2n),
    ensures
        fight_prefix(
            s1,
            k1,
            s2,
            k2,
            book,
            n,
            ds.push(d),
            sk1.push(k1n),
            sk2.push(k2n),
            states.push(next),
        ),
{
    lemma_prefix_shape(s1, k1, s2, k2, book, n, ds, sk1, sk2, states);
    assert(ds.push(d).drop_last() =~= ds);
    assert(sk1.push(k1n).drop_last() =~= sk1);
    assert(sk2.push(k2n).drop_last() =~= sk2);
    assert(states.push(next).drop_last() =~= states);
    let m = ds.len() as int;
    assert(states.push(next)[m] == states.last());
    assert(sk1.push(k1n)[m] == sk1.last());
    assert(sk2.push(k2n)[m] == sk2.last());
}

/// Whether `res` is how a fight of at most `n` cycles between base records
/// `s1`, `s2` with active skills `k1`, `k2` can end: for some draws, the
/// cycles run until the fight no longer `continues`, and `res` holds the last
/// state's hit points and count.
pub open spec fn fight_outcome(
    s1: Stat,
    k1: Seq<ActiveSkill>,
    s2: Stat,
    k2: Seq<ActiveSkill>,
    book: Seq<Skill>,
    n: int,
    res: ResultSimulation,
) -> bool {
    exists|
        ds: Seq<Seq<int>>,
        sk1: Seq<Seq<ActiveSkill>>,
        sk2: Seq<Seq<ActiveSkill>>,
        states: Seq<FightState>,
    |
        #[trigger] fight_prefix(s1, k1, s2, k2, book, n, ds, sk1, sk2, states) && !continues(
            states.last(),
            n,
        ) && res == (ResultSimulation {
            first_hp_at_end: states.last().hp_first,
            second_hp_at_end: states.last().hp_second,
            turn: states.last().turn,
        })
}

/// Runs cycles until a side is down or `n` cycles have run, numbering them
/// from one; hit points and block pools start from the base records, and
/// after each cycle expired skills are swept and the cycle settled (see
/// `settle_spec`). `None` when a base record lacks hit points or block
/// power, or when an effective record lacks a damage composition.
pub fn simulate_damage_n_cycles(
    first: &mut Char,
    second: &mut Char,
    n: u64,
    skills_map: &Vec<Skill>,
    rng: &mut StdRng,
) -> (r: Option<ResultSimulation>)
    requires
        old(first).wf(),
        old(second).wf(),
    ensures
        final(first).wf(),
        final(second).wf(),
        final(first).stat == old(first).stat,
        final(second).stat == old(second).stat,
        (old(first).stat.hp is None || old(second).stat.hp is None || old(first).stat.block_power is None
            || old(second).stat.block_power is None) ==> r is None,
        n > 0 && (components(effective_spec(old(first).stat, old(first).skills@, skills_map@)) is None
            || components(effective_spec(old(second).stat, old(second).skills@, skills_map@))
            is None) ==> r is None,
        (old(first).stat.hp is Some && old(second).stat.hp is Some
            && old(first).stat.block_power is Some && old(second).stat.block_power is Some
            && components(old(first).stat) is Some && components(old(second).stat) is Some)
            ==> r is Some,
        r matches Some(res) ==> plausible_end(
            res,
            old(first).stat.hp->0 as int,
            old(second).stat.hp->0 as int,
            n as int,
        ) && fight_outcome(
            old(first).stat,
            old(first).skills@,
            old(second).stat,
            old(second).skills@,
            skills_map@,
            n as int,
            res,
        ),
{
    let hp_first = match first.stat.get_hp() {
        Some(h) => h,
        None => {
            return None;
        },
    };
    let hp_second = match second.stat.get_hp() {
        Some(h) => h,
        None => {
            return None;
        },
    };
    let max_first = match first.stat.get_block() {
        Some(b) => b,
        None => {
            return None;
        },
    };
    let max_second = match second.stat.get_block() {
        Some(b) => b,
        None => {
            return None;
        },
    };
    let ghost s1 = first.stat;
    let ghost s2 = second.stat;
    let ghost k1 = first.skills@;
    let ghost k2 = second.skills@;
    let ghost keeps = components(first.stat) is Some && components(second.stat) is Some;
    let mut st = FightState {
        hp_first,
        hp_second,
        block_first: max_first,
        block_second: max_second,
        turn: 0,
    };
    let ghost mut ds: Seq<Seq<int>> = Seq::empty();
    let ghost mut sk1: Seq<Seq<ActiveSkill>> = seq![k1];
    let ghost mut sk2: Seq<Seq<ActiveSkill>> = seq![k2];
    let ghost mut states: Seq<FightState> = seq![st];
    while st.turn < n && (st.turn == 0 || (st.hp_first > 0 && st.hp_second > 0))
        invariant
            first.wf(),
            second.wf(),
            first.stat == s1,
            second.stat == s2,
            s1 == old(first).stat,
            s2 == old(second).stat,
            k1 == old(first).skills@,
            k2 == old(second).skills@,
            s1.hp == Some(hp_first),
            s2.hp == Some(hp_second),
            s1.block_power == Some(max_first),
            s2.block_power == Some(max_second),
            keeps == (components(s1) is Some && components(s2) is Some),
            st.turn <= n,
            st.hp_first <= hp_first,
            st.hp_second <= hp_second,
            st.turn > 0 ==> components(effective_spec(s1, k1, skills_map@)) is Some && components(
                effective_spec(s2, k2, skills_map@),
            ) is Some,
            fight_prefix(s1, k1, s2, k2, skills_map@, n as int, ds, sk1, sk2, states),
            st.turn == 0 ==> first.skills@ == k1 && second.skills@ == k2,
            states.last() == st,
            sk1.last() == first.skills@,
            sk2.last() == second.skills@,
        decreases n - st.turn,
    {
        proof {
            if keeps {
                lemma_effective_keeps_damage(first.stat, first.skills@, skills_map@);
                lemma_effective_keeps_damage(second.stat, second.skills@, skills_map@);
            }
        }
        let ghost k1_before = first.skills@;
        let ghost k2_before = second.skills@;
        assert(continues(st, n as int));
        let cycle_result = simulate_damage_cycle_attack_via_stat(
            first,
            second,
            st.block_first,
            st.block_second,
            skills_map,
            st.turn + 1,
            rng,
        );
        let a = match cycle_result {
            Some(a) => a,
            None => {
                return None;
            },
        };
        let ghost a1 = first.skills@;
        let ghost a2 = second.skills@;
        first.remove_outdated_skills(st.turn + 1);
        second.remove_outdated_skills(st.turn + 1);
        let next = settle(
            st,
            &a,
            max_first,
            max_second,
            first.stat.get_block_recovery(),
            second.stat.get_block_recovery(),
        );
        proof {
            let d = a@.map_values(|x: u64| x as int);
            assert(cycle_allowed(
                s1,
                k1_before,
                s2,
                k2_before,
                skills_map@,
                st.block_first as int,
                st.block_second as int,
                st.turn + 1,
                d,
                a1,
                a2,
            ));
            assert(fight_step(
                s1,
                s2,
                skills_map@,
                d,
                st,
                next,
                k1_before,
                first.skills@,
                k2_before,
                second.skills@,
            ));
            lemma_extend_prefix(s1, k1, s2, k2, skills_map@, n as int, ds, sk1, sk2, states, d, next, first.skills@, second.skills@);
            ds = ds.push(d);
            sk1 = sk1.push(first.skills@);
            sk2 = sk2.push(second.skills@);
            states = states.push(next);
        }
        st = next;
    }
    let res = ResultSimulation {
        first_hp_at_end: st.hp_first,
        second_hp_at_end: st.hp_second,
        turn: st.turn,
    };
    assert(fight_prefix(s1, k1, s2, k2, skills_map@, n as int, ds, sk1, sk2, states)
        && !continues(states.last(), n as int));
    Some(res)
}

/// The sum of a sequence of samples.
pub open spec fn sum_of(xs: Seq<u64>) -> int
    decreases xs.len(),
{
    if xs.len() == 0 {
        0
    } else {
        sum_of(xs.drop_last()) + xs.last()
    }
}

/// The sum of the squares of a sequence of samples.
pub open spec fn sum_sq_of(xs: Seq<u64>) -> int
    decreases xs.len(),
{
    if xs.len() == 0 {
        0
    } else {
        sum_sq_of(xs.drop_last()) + xs.last() * xs.last()
    }
}

/// Aggregates of a sequence of samples: count, sum and sum of squares. The
/// mean is `sum / n` and the variance `E[x^2] - E[x]^2`, that is
/// `(n * sum_sq - sum^2) / n^2`.
#[derive(PartialEq, Eq, Structural, Debug, Clone, Copy)]
pub struct StatSimu {
    pub sum: u128,
    pub sum_sq: u128,
    pub n: u64,
}

impl StatSimu {
    /// Whether these are the aggregates of `xs`.
    pub open spec fn of(self, xs: Seq<u64>) -> bool {
        self.n == xs.len() && self.sum == sum_of(xs) && self.sum_sq == sum_sq_of(xs)
    }

    /// `n^2` times the variance.
    pub open spec fn variance_numerator_spec(self) -> int {
        self.n * self.sum_sq - self.sum * self.sum
    }

    /// The aggregates of no sample.
    pub fn new() -> (r: StatSimu)
        ensures
            r.of(Seq::<u64>::empty()),
    {
        StatSimu { sum: 0, sum_sq: 0, n: 0 }
    }

    /// Adds one sample.
    pub fn record(&mut self, x: u64)
        requires
            old(self).n < u64::MAX,
            old(self).sum + x <= u128::MAX,
            old(self).sum_sq + x * x <= u128::MAX,
        ensures
            final(self).n == old(self).n + 1,
            final(self).sum == old(self).sum + x,
            final(self).sum_sq == old(self).sum_sq + x * x,
    {
        assert(x * x <= u128::MAX) by (nonlinear_arith)
            requires
                0 <= x <= u64::MAX,
        ;
        let sq: u128 = (x as u128) * (x as u128);
        self.n = self.n + 1;
        self.sum = self.sum + x as u128;
        self.sum_sq = self.sum_sq + sq;
    }

    /// `n^2` times the variance, when it fits in `u128`: it does whenever
    /// `n * sum_sq` does and the aggregates come from samples.
    pub fn variance_numerator(&self) -> (r: Option<u128>)
        ensures
            r matches Some(v) ==> v == self.variance_numerator_spec(),
            r is None <==> (self.n * self.sum_sq > u128::MAX || self.sum * self.sum > self.n
                * self.sum_sq),
    {
        let ns = match (self.n as u128).checked_mul(self.sum_sq) {
            Some(v) => v,
            None => {
                return None;
            },
        };
        let ss = match self.sum.checked_mul(self.sum) {
            Some(v) => v,
            None => {
                return None;
            },
        };
        if ss > ns {
            None
        } else {
            Some(ns - ss)
        }
    }
}

/// `r` is the integer square root of `x`.
pub open spec fn is_isqrt(x: int, r: int) -> bool {
    0 <= r && r * r <= x < (r + 1) * (r + 1)
}

/// The integer square root, by bisection.
pub fn isqrt(x: u128) -> (r: u128)
    ensures
        is_isqrt(x as int, r as int),
{
    let mut lo: u128 = 0;
    let mut hi: u128 = 0x1_0000_0000_0000_0000;
    assert(x < hi * hi) by (nonlinear_arith)
        requires
            x <= u128::MAX,
            hi == 0x1_0000_0000_0000_0000u128,
    ;
    while hi - lo > 1
        invariant
            lo < hi <= 0x1_0000_0000_0000_0000u128,
            lo * lo <= x,
            x < hi * hi,
        decreases hi - lo,
    {
        let mid = lo + (hi - lo) / 2;
        assert(mid * mid <= u128::MAX) by (nonlinear_arith)
            requires
                mid < 0x1_0000_0000_0000_0000u128,
        ;
        if mid * mid <= x {
            lo = mid;
        } else {
            hi = mid;
        }
    }
    lo
}

/// `1.96^2` in units of `10^-4`, times `ONE^2`: the square of the 95% factor
/// scaled to millionths.
pub const CI_FACTOR_SQ: u128 = 3_841_600_000_000;

impl StatSimu {
    /// The mean in millionths, rounded down.
    pub open spec fn mean_spec(self) -> int {
        self.sum * ONE / self.n as int
    }

    /// The 95% confidence interval of the mean, `[mean - h, mean, mean + h]`
    /// with `h = 1.96 * sqrt(variance / n)`, in millionths and rounded down:
    /// `h` is the integer square root of `1.96^2 * ONE^2 * (n^2 variance) / n^3`.
    /// `None` when there is no sample or an intermediate value does not fit.
    pub fn confident_interval(&self) -> (r: Option<[i128; 3]>)
        ensures
            r is None <==> (self.n == 0 || self.n * self.sum_sq > u128::MAX || self.sum * self.sum
                > self.n * self.sum_sq || CI_FACTOR_SQ * self.variance_numerator_spec()
                > u128::MAX || self.n * self.n * self.n > u128::MAX || self.sum * ONE > u128::MAX
                || self.mean_spec() > i128::MAX - 0x1_0000_0000_0000_0000),
            r matches Some(a) ==> (self.variance_numerator_spec() == 0 ==> a[0] == a[1] && a[2]
                == a[1]),
            r matches Some(a) ==> a[1] == self.mean_spec() && a[1] - a[0] == a[2] - a[1]
                && is_isqrt(
                CI_FACTOR_SQ * self.variance_numerator_spec() / (self.n * self.n * self.n) as int,
                a[2] - a[1],
            ),
    {
        if self.n == 0 {
            return None;
        }
        let d = match self.variance_numerator() {
            Some(v) => v,
            None => {
                return None;
            },
        };
        let num = match CI_FACTOR_SQ.checked_mul(d) {
            Some(v) => v,
            None => {
                return None;
            },
        };
        let n = self.n as u128;
        let n2 = match n.checked_mul(n) {
            Some(v) => v,
            None => {
                proof {
                    assert(self.n * self.n * self.n >= self.n * self.n) by (nonlinear_arith)
                        requires self.n >= 1;
                }
                return None;
            },
        };
        let n3 = match n2.checked_mul(n) {
            Some(v) => v,
            None => {
                return None;
            },
        };
        let scaled = match self.sum.checked_mul(ONE as u128) {
            Some(v) => v,
            None => {
                return None;
            },
        };
        let mean = scaled / n;
        if mean > (i128::MAX - 0x1_0000_0000_0000_0000) as u128 {
            return None;
        }
        assert(n3 > 0) by (nonlinear_arith)
            requires n3 == self.n * self.n * self.n, self.n >= 1;
        let h = isqrt(num / n3);
        assert(h < 0x1_0000_0000_0000_0000u128) by (nonlinear_arith)
            requires h * h <= u128::MAX, h >= 0;
        proof {
            if d == 0 {
                assert(num == 0);
                assert(num / n3 == 0);
                assert(h == 0) by (nonlinear_arith)
                    requires h * h <= 0, h >= 0;
            }
        }
        let m = mean as i128;
        Some([m - h as i128, m, m + h as i128])
    }
}

/// The square of a sum is at most the count times the sum of squares.
pub proof fn lemma_cauchy_schwarz(xs: Seq<u64>)
    ensures
        sum_of(xs) * sum_of(xs) <= xs.len() * sum_sq_of(xs),
        0 <= sum_of(xs),
        0 <= sum_sq_of(xs),
    decreases xs.len(),
{
    if xs.len() > 0 {
        let p = xs.drop_last();
        lemma_cauchy_schwarz(p);
        let s = sum_of(p);
        let q = sum_sq_of(p);
        let n = p.len() as int;
        let x = xs.last() as int;
        assert(x * x >= 0) by (nonlinear_arith);
        assert(q + n * x * x - 2 * s * x >= 0) by (nonlinear_arith)
            requires
                s * s <= n * q,
                n >= 0,
                q >= 0,
                s >= 0,
                x >= 0,
        {
            assert((s - n * x) * (s - n * x) >= 0);
            if n > 0 {
                assert(n * (q + n * x * x - 2 * s * x) >= 0);
            } else {
                assert(s * s <= 0);
                assert(s == 0);
            }
        }
        assert((s + x) * (s + x) <= (n + 1) * (q + x * x)) by (nonlinear_arith)
            requires
                s * s <= n * q,
                q + n * x * x - 2 * s * x >= 0,
        ;
    }
}

/// The win indicator of a fight: the second side (the one attacked first in
/// each cycle) still stands.
pub open spec fn win_of(res: ResultSimulation) -> u64 {
    if res.second_hp_at_end > 0 {
        1
    } else {
        0
    }
}

/// Stacking skills respects `same` on the base record.
proof fn lemma_same_effective(x: Stat, x2: Stat, skills: Seq<ActiveSkill>, book: Seq<Skill>)
    requires
        same(x, x2),
    ensures
        same(effective_spec(x, skills, book), effective_spec(x2, skills, book)),
    decreases skills.len(),
{
    if skills.len() > 0 {
        lemma_same_effective(x, x2, skills.drop_last(), book);
        let a = effective_spec(x, skills.drop_last(), book);
        let a2 = effective_spec(x2, skills.drop_last(), book);
        match effect_in(book, skills.last().id) {
            Some(e) => {
                lemma_same_add(a, a2, e, e);
            },
            None => {},
        }
    }
}

/// A copy of a list of active skills.
fn copy_skills(v: &Vec<ActiveSkill>) -> (r: Vec<ActiveSkill>)
    ensures
        r@ == v@,
{
    let mut r: Vec<ActiveSkill> = Vec::new();
    let mut i: usize = 0;
    while i < v.len()
        invariant
            i <= v@.len(),
            r@ == v@.take(i as int),
        decreases v@.len() - i,
    {
        r.push(v[i]);
        i = i + 1;
        assert(r@ =~= v@.take(i as int));
    }
    assert(v@.take(v@.len() as int) =~= v@);
    r
}

/// Every result in `results` is how a fight between base records `s1`, `s2`
/// with active skills `k1`, `k2` can end (see `fight_outcome`).
pub open spec fn all_fights(
    s1: Stat,
    k1: Seq<ActiveSkill>,
    s2: Stat,
    k2: Seq<ActiveSkill>,
    book: Seq<Skill>,
    n: int,
    results: Seq<ResultSimulation>,
) -> bool {
    forall|i: int|
        0 <= i < results.len() ==> fight_outcome(s1, k1, s2, k2, book, n, #[trigger] results[i])
}

/// Runs `trials` independent fights of at most `n` cycles, each from fresh
/// copies of the two combatants, and aggregates the win indicator, the first
/// side's and the second side's hit points at the end. `None` when a fight
/// cannot be run (see `simulate_damage_n_cycles`).
pub fn monte_carlo_damage(
    first_data: &Char,
    second_data: &Char,
    n: u64,
    skills_map: &Vec<Skill>,
    trials: u64,
    rng: &mut StdRng,
) -> (r: Option<[StatSimu; 3]>)
    requires
        first_data.wf(),
        second_data.wf(),
        first_data.stat.hp matches Some(h) ==> trials * h <= u64::MAX,
        second_data.stat.hp matches Some(h) ==> trials * h <= u64::MAX,
    ensures
        (first_data.stat.hp is None || second_data.stat.hp is None
            || first_data.stat.block_power is None || second_data.stat.block_power is None)
            && trials > 0 ==> r is None,
        trials > 0 && n > 0 && (components(
            effective_spec(first_data.stat, first_data.skills@, skills_map@),
        ) is None || components(effective_spec(second_data.stat, second_data.skills@, skills_map@))
            is None) ==> r is None,
        (first_data.stat.hp is Some && second_data.stat.hp is Some
            && first_data.stat.block_power is Some && second_data.stat.block_power is Some
            && components(first_data.stat) is Some && components(second_data.stat) is Some)
            ==> r is Some,
        r matches Some(a) ==> exists|s1: Stat, s2: Stat, results: Seq<ResultSimulation>|
            same(s1, first_data.stat) && same(s2, second_data.stat) && #[trigger] all_fights(
                s1,
                first_data.skills@,
                s2,
                second_data.skills@,
                skills_map@,
                n as int,
                results,
            ) && results.len() == trials && (forall|i: int|
                0 <= i < trials ==> plausible_end(
                    #[trigger] results[i],
                    first_data.stat.hp->0 as int,
                    second_data.stat.hp->0 as int,
                    n as int,
                )) && a[0].of(results.map_values(|x: ResultSimulation| win_of(x))) && a[1].of(
                results.map_values(|x: ResultSimulation| x.first_hp_at_end),
            ) && a[2].of(results.map_values(|x: ResultSimulation| x.second_hp_at_end)),
        r matches Some(a) ==> forall|k: int|
            0 <= k < 3 ==> #[trigger] a[k].n * a[k].sum_sq <= u128::MAX && a[k].sum * a[k].sum
                <= a[k].n * a[k].sum_sq,
{
    let mut wins = StatSimu::new();
    let mut hp_first = StatSimu::new();
    let mut hp_second = StatSimu::new();
    let ghost mut results: Seq<ResultSimulation> = Seq::empty();
    let ghost h1 = first_data.stat.hp->0 as int;
    let ghost h2 = second_data.stat.hp->0 as int;
    let mut first = first_data.clone();
    let mut second = second_data.clone();
    let ghost s1 = first.stat;
    let ghost s2 = second.stat;
    proof {
        lemma_same_fields(s1, first_data.stat);
        lemma_same_fields(s2, second_data.stat);
        lemma_same_effective(s1, first_data.stat, first_data.skills@, skills_map@);
        lemma_same_effective(s2, second_data.stat, second_data.skills@, skills_map@);
    }
    let mut k: u64 = 0;
    while k < trials
        invariant
            k <= trials,
            first_data.wf(),
            second_data.wf(),
            first_data.stat.hp matches Some(h) ==> trials * h <= u64::MAX,
            second_data.stat.hp matches Some(h) ==> trials * h <= u64::MAX,
            h1 == first_data.stat.hp->0 as int,
            h2 == second_data.stat.hp->0 as int,
            results.len() == k,
            forall|i: int| 0 <= i < k ==> plausible_end(#[trigger] results[i], h1, h2, n as int),
            wins.of(results.map_values(|x: ResultSimulation| win_of(x))),
            hp_first.of(results.map_values(|x: ResultSimulation| x.first_hp_at_end)),
            hp_second.of(results.map_values(|x: ResultSimulation| x.second_hp_at_end)),
            wins.sum <= k,
            hp_first.sum <= k * h1,
            hp_second.sum <= k * h2,
            hp_first.sum_sq <= k * (h1 * h1),
            hp_second.sum_sq <= k * (h2 * h2),
            wins.sum_sq <= k,
            k > 0 ==> first_data.stat.hp is Some && second_data.stat.hp is Some
                && first_data.stat.block_power is Some && second_data.stat.block_power is Some,
            k > 0 && n > 0 ==> components(
                effective_spec(first_data.stat, first_data.skills@, skills_map@),
            ) is Some && components(effective_spec(second_data.stat, second_data.skills@, skills_map@))
                is Some,
            first.stat == s1,
            second.stat == s2,
            same(s1, first_data.stat),
            same(s2, second_data.stat),
            components(effective_spec(s1, first_data.skills@, skills_map@)) == components(
                effective_spec(first_data.stat, first_data.skills@, skills_map@),
            ),
            components(effective_spec(s2, second_data.skills@, skills_map@)) == components(
                effective_spec(second_data.stat, second_data.skills@, skills_map@),
            ),
            s1.hp == first_data.stat.hp && s2.hp == second_data.stat.hp,
            s1.block_power == first_data.stat.block_power && s2.block_power
                == second_data.stat.block_power,
            all_fights(
                s1,
                first_data.skills@,
                s2,
                second_data.skills@,
                skills_map@,
                n as int,
                results,
            ),
        decreases trials - k,
    {
        first.skills = copy_skills(&first_data.skills);
        second.skills = copy_skills(&second_data.skills);
        let result = match simulate_damage_n_cycles(&mut first, &mut second, n, skills_map, rng) {
            Some(res) => res,
            None => {
                return None;
            },
        };
        let ghost old_results = results;
        let w: u64 = if result.second_hp_at_end > 0 {
            1
        } else {
            0
        };
        let x1 = result.first_hp_at_end;
        let x2 = result.second_hp_at_end;
        proof {
            assert(first_data.stat.hp is Some && second_data.stat.hp is Some);
            assert(x1 <= h1 && x2 <= h2);
            assert(w * w <= 1);
            assert((k + 1) * h1 <= trials * h1 <= u64::MAX) by (nonlinear_arith)
                requires k + 1 <= trials, h1 >= 0, trials * h1 <= u64::MAX;
            assert((k + 1) * h2 <= trials * h2 <= u64::MAX) by (nonlinear_arith)
                requires k + 1 <= trials, h2 >= 0, trials * h2 <= u64::MAX;
            assert(x1 * x1 <= h1 * h1) by (nonlinear_arith)
                requires 0 <= x1 <= h1;
            assert(x2 * x2 <= h2 * h2) by (nonlinear_arith)
                requires 0 <= x2 <= h2;
            assert(k * h1 + h1 == (k + 1) * h1) by (nonlinear_arith);
            assert(k * h2 + h2 == (k + 1) * h2) by (nonlinear_arith);
            assert(k * (h1 * h1) + h1 * h1 == (k + 1) * (h1 * h1)) by (nonlinear_arith);
            assert(k * (h2 * h2) + h2 * h2 == (k + 1) * (h2 * h2)) by (nonlinear_arith);
            assert((k + 1) * (h1 * h1) <= ((k + 1) * h1) * ((k + 1) * h1)) by (nonlinear_arith)
                requires k >= 0, h1 >= 0;
            assert((k + 1) * (h2 * h2) <= ((k + 1) * h2) * ((k + 1) * h2)) by (nonlinear_arith)
                requires k >= 0, h2 >= 0;
            assert(((k + 1) * h1) * ((k + 1) * h1) <= u64::MAX * u64::MAX) by (nonlinear_arith)
                requires 0 <= (k + 1) * h1 <= u64::MAX;
            assert(((k + 1) * h2) * ((k + 1) * h2) <= u64::MAX * u64::MAX) by (nonlinear_arith)
                requires 0 <= (k + 1) * h2 <= u64::MAX;
            results = results.push(result);
            assert(all_fights(
                s1,
                first_data.skills@,
                s2,
                second_data.skills@,
                skills_map@,
                n as int,
                results,
            )) by {
                assert forall|i: int| 0 <= i < results.len() implies fight_outcome(
                    s1,
                    first_data.skills@,
                    s2,
                    second_data.skills@,
                    skills_map@,
                    n as int,
                    #[trigger] results[i],
                ) by {
                    if i < old_results.len() {
                        assert(results[i] == old_results[i]);
                    }
                }
            }
            assert(results.map_values(|x: ResultSimulation| win_of(x)).drop_last() =~= old_results.map_values(|x: ResultSimulation| win_of(x)));
            assert(results.map_values(|x: ResultSimulation| x.first_hp_at_end).drop_last() =~= old_results.map_values(|x: ResultSimulation| x.first_hp_at_end));
            assert(results.map_values(|x: ResultSimulation| x.second_hp_at_end).drop_last() =~= old_results.map_values(|x: ResultSimulation| x.second_hp_at_end));
        }
        wins.record(w);
        hp_first.record(x1);
        hp_second.record(x2);
        k = k + 1;
    }
    proof {
        if k > 0 {
            assert(k * h1 <= trials * h1) by (nonlinear_arith)
                requires k <= trials, h1 >= 0;
            assert(k * h2 <= trials * h2) by (nonlinear_arith)
                requires k <= trials, h2 >= 0;
        }
        lemma_cauchy_schwarz(results.map_values(|x: ResultSimulation| win_of(x)));
        lemma_cauchy_schwarz(results.map_values(|x: ResultSimulation| x.first_hp_at_end));
        lemma_cauchy_schwarz(results.map_values(|x: ResultSimulation| x.second_hp_at_end));
        assert(wins.n * wins.sum_sq <= u128::MAX) by (nonlinear_arith)
            requires wins.n == k, wins.sum_sq <= k, k <= u64::MAX;
        assert(hp_first.n * hp_first.sum_sq <= u128::MAX) by (nonlinear_arith)
            requires hp_first.n == k, hp_first.sum_sq <= k * (h1 * h1), k * h1 <= u64::MAX, k >= 0, h1 >= 0;
        assert(hp_second.n * hp_second.sum_sq <= u128::MAX) by (nonlinear_arith)
            requires hp_second.n == k, hp_second.sum_sq <= k * (h2 * h2), k * h2 <= u64::MAX, k >= 0, h2 >= 0;
    }
    let r = [wins, hp_first, hp_second];
    assert(forall|k: int| 0 <= k < 3 ==> #[trigger] r[k].n * r[k].sum_sq <= u128::MAX && r[k].sum * r[k].sum
                <= r[k].n * r[k].sum_sq);
    Some(r)
}

/// Sums over samples that are all equal to `c`.
proof fn lemma_constant_sums(xs: Seq<u64>, c: u64)
    requires
        forall|i: int| 0 <= i < xs.len() ==> xs[i] == c,
    ensures
        sum_of(xs) == xs.len() * c,
        sum_sq_of(xs) == xs.len() * (c * c),
    decreases xs.len(),
{
    if xs.len() > 0 {
        let p = xs.drop_last();
        lemma_constant_sums(p, c);
        assert(p.len() * c + c == xs.len() * c) by (nonlinear_arith)
            requires
                xs.len() == p.len() + 1,
        ;
        assert(p.len() * (c * c) + c * c == xs.len() * (c * c)) by (nonlinear_arith)
            requires
                xs.len() == p.len() + 1,
        ;
    }
}

/// The aggregates of samples that are all equal (as those of fights that
/// involve no chance) have zero variance, and so a zero confidence half-width.
pub proof fn lemma_constant_samples(st: StatSimu, xs: Seq<u64>, c: u64)
    requires
        st.of(xs),
        forall|i: int| 0 <= i < xs.len() ==> xs[i] == c,
    ensures
        st.sum == st.n * c,
        st.variance_numerator_spec() == 0,
        forall|h: int|
            st.n > 0 && #[trigger] is_isqrt(
                CI_FACTOR_SQ * st.variance_numerator_spec() / (st.n * st.n * st.n) as int,
                h,
            ) ==> h == 0,
{
    lemma_constant_sums(xs, c);
    let n = xs.len() as int;
    assert(n * (n * (c * c)) - (n * c) * (n * c) == 0) by (nonlinear_arith);
    assert forall|h: int|
        st.n > 0 && #[trigger] is_isqrt(
            CI_FACTOR_SQ * st.variance_numerator_spec() / (st.n * st.n * st.n) as int,
            h,
        ) implies h == 0 by {
        assert(st.n * st.n * st.n > 0) by (nonlinear_arith)
            requires st.n > 0;
        assert(CI_FACTOR_SQ * st.variance_numerator_spec() == 0);
        assert(0int / (st.n * st.n * st.n) as int == 0);
        assert(h * h <= 0);
        assert(h == 0) by (nonlinear_arith)
            requires h >= 0, h * h <= 0;
    }
}

/// A timed skill applied in cycle `e.applied` with duration `e.turn` outlasts
/// the sweeps after cycles before `e.applied + e.turn - 1`, so that it counts
/// in the effective attributes of cycles `e.applied` through
/// `e.applied + e.turn - 1`, and the sweep after that cycle removes it; a
/// permanent skill outlasts every sweep.
pub proof fn lemma_skill_expiry(skills: Seq<ActiveSkill>, e: ActiveSkill, turn: int)
    requires
        skills.contains(e),
    ensures
        e.turn == 0 ==> skills.filter(|x: ActiveSkill| x.kept(turn)).contains(e),
        e.turn > 0 ==> (skills.filter(|x: ActiveSkill| x.kept(turn)).contains(e) <==> turn + 1
            < e.applied + e.turn),
{
    let pred = |x: ActiveSkill| x.kept(turn);
    let i = choose|i: int| 0 <= i < skills.len() && skills[i] == e;
    if pred(e) {
        skills.lemma_filter_contains(pred, i);
    } else {
        if skills.filter(pred).contains(e) {
            let j = choose|j: int| 0 <= j < skills.filter(pred).len() && skills.filter(pred)[j] == e;
            skills.lemma_filter_pred(pred, j);
        }
    }
}

} // verus!
