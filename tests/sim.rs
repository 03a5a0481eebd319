use combat_sim::fixed::ONE;
use combat_sim::sim::{
    monte_carlo_damage, simulate_damage_cycle_attack_via_stat, simulate_damage_n_cycles,
    isqrt, settle, ActiveSkill, Char, FightState, ResultSimulation, Skill, StatSimu,
};
use combat_sim::stat::{DamageType, IdSkills, Stat};
use rand::rngs::StdRng;
use rand::SeedableRng;

/// A fighter that always lands a normal hit for `damage`, never counters,
/// blocks or dodges.
fn fighter(hp: u64, damage: u64) -> Stat {
    let mut s = Stat::empty();
    s.hp = Some(hp);
    s.damage = Some(vec![(DamageType::Crush, damage)]);
    s.counter = Some(0);
    s.block_power = Some(0);
    s
}

fn skill(id: IdSkills, turn: u64, effect: Stat) -> Skill {
    Skill { id, turn, effect }
}

#[test]
fn fixed_damage_fight_lasts_ten_cycles() {
    let mut rng = StdRng::seed_from_u64(21);
    let mut first = Char::new(fighter(100, 10));
    let mut second = Char::new(fighter(100, 0));
    let book: Vec<Skill> = Vec::new();
    let r = simulate_damage_n_cycles(&mut first, &mut second, 100, &book, &mut rng).unwrap();
    assert_eq!(r, ResultSimulation { first_hp_at_end: 100, second_hp_at_end: 0, turn: 10 });
}

#[test]
fn fight_stops_at_the_cycle_cap() {
    let mut rng = StdRng::seed_from_u64(22);
    let mut first = Char::new(fighter(100, 10));
    let mut second = Char::new(fighter(100, 0));
    let book: Vec<Skill> = Vec::new();
    let r = simulate_damage_n_cycles(&mut first, &mut second, 4, &book, &mut rng).unwrap();
    assert_eq!(r, ResultSimulation { first_hp_at_end: 100, second_hp_at_end: 60, turn: 4 });
    let r = simulate_damage_n_cycles(&mut first, &mut second, 0, &book, &mut rng).unwrap();
    assert_eq!(r.turn, 0);
}

#[test]
fn missing_attributes_abandon_the_fight() {
    let mut rng = StdRng::seed_from_u64(23);
    let book: Vec<Skill> = Vec::new();
    let mut no_hp = fighter(100, 10);
    no_hp.hp = None;
    let mut first = Char::new(no_hp);
    let mut second = Char::new(fighter(100, 0));
    assert_eq!(simulate_damage_n_cycles(&mut first, &mut second, 10, &book, &mut rng), None);
    let mut unarmed = fighter(100, 10);
    unarmed.damage = None;
    let mut first = Char::new(unarmed);
    assert_eq!(simulate_damage_n_cycles(&mut first, &mut second, 10, &book, &mut rng), None);
    assert_eq!(
        simulate_damage_cycle_attack_via_stat(&mut first, &mut second, 0, 0, &book, 1, &mut rng),
        None
    );
}

#[test]
fn one_cycle_reports_damage_both_ways() {
    let mut rng = StdRng::seed_from_u64(24);
    let mut a = fighter(100, 10);
    a.counter = Some(ONE as i64);
    let mut b = fighter(100, 3);
    b.flat_damage_receive = Some(2);
    let mut first = Char::new(a);
    let mut second = Char::new(b);
    let book: Vec<Skill> = Vec::new();
    let r = simulate_damage_cycle_attack_via_stat(&mut first, &mut second, 0, 0, &book, 1, &mut rng)
        .unwrap();
    // The first hits twice (attack and counter); the second hits once and its
    // own residual attribute counts against the first.
    assert_eq!(r, [20, 5, 0, 0]);
}

#[test]
fn deterministic_monte_carlo_has_no_variance() {
    let mut rng = StdRng::seed_from_u64(25);
    let first = Char::new(fighter(100, 10));
    let second = Char::new(fighter(100, 0));
    let book: Vec<Skill> = Vec::new();
    let [wins, hp_first, hp_second] =
        monte_carlo_damage(&first, &second, 100, &book, 50, &mut rng).unwrap();
    assert_eq!(wins, StatSimu { sum: 0, sum_sq: 0, n: 50 });
    assert_eq!(hp_first, StatSimu { sum: 5000, sum_sq: 500000, n: 50 });
    assert_eq!(hp_second, StatSimu { sum: 0, sum_sq: 0, n: 50 });
    assert_eq!(hp_first.variance_numerator(), Some(0));
    assert_eq!(wins.variance_numerator(), Some(0));
    assert_eq!(hp_first.confident_interval(), Some([100 * ONE as i128; 3]));
    assert_eq!(hp_second.confident_interval(), Some([0; 3]));
}

#[test]
fn aggregates_and_variance() {
    let mut s = StatSimu::new();
    for x in [2u64, 4, 4, 4, 5, 5, 7, 9] {
        s.record(x);
    }
    assert_eq!(s, StatSimu { sum: 40, sum_sq: 232, n: 8 });
    // Variance 4, times n^2.
    assert_eq!(s.variance_numerator(), Some(256));
    let odd = StatSimu { sum: 10, sum_sq: 1, n: 1 };
    assert_eq!(odd.variance_numerator(), None);
    // Mean 5, half-width 1.96 * sqrt(4 / 8).
    assert_eq!(s.confident_interval(), Some([5_000_000 - 1_385_929, 5_000_000, 5_000_000 + 1_385_929]));
    assert_eq!(StatSimu::new().confident_interval(), None);
    assert_eq!(odd.confident_interval(), None);
}

#[test]
fn integer_square_root() {
    assert_eq!(isqrt(0), 0);
    assert_eq!(isqrt(15), 3);
    assert_eq!(isqrt(16), 4);
    assert_eq!(isqrt(1_000_000_000_000), 1_000_000);
    assert_eq!(isqrt(u128::MAX), u64::MAX as u128);
}

#[test]
fn results_add_up() {
    let mut a = ResultSimulation { first_hp_at_end: 1, second_hp_at_end: 2, turn: 3 };
    let b = ResultSimulation { first_hp_at_end: 10, second_hp_at_end: 20, turn: 30 };
    assert_eq!(a.add(b), ResultSimulation { first_hp_at_end: 11, second_hp_at_end: 22, turn: 33 });
    a.add_assign(b);
    assert_eq!(a.turn, 33);
}

#[test]
fn timed_skill_expires_after_its_duration() {
    let mut c = Char::new(fighter(100, 10));
    let mut effect = Stat::empty();
    effect.hp = Some(50);
    let warcry = skill(IdSkills::WarcrySelf, 3, effect.clone());
    let stance = skill(IdSkills::FencerStance, 0, effect);
    let book = vec![warcry.clone(), stance.clone()];
    c.add_skill(&warcry, 1);
    c.add_skill(&stance, 1);
    // Cycles 1 to 3 see the skill.
    assert_eq!(c.compute(&book).hp, Some(200));
    c.remove_outdated_skills(1);
    assert_eq!(c.compute(&book).hp, Some(200));
    c.remove_outdated_skills(2);
    assert_eq!(c.compute(&book).hp, Some(200));
    // Gone from cycle 4; the permanent one stays.
    c.remove_outdated_skills(3);
    assert_eq!(c.skills, vec![ActiveSkill { id: IdSkills::FencerStance, turn: 0, applied: 1 }]);
    assert_eq!(c.compute(&book).hp, Some(150));
    for t in 4..50 {
        c.remove_outdated_skills(t);
    }
    assert_eq!(c.skills.len(), 1);
}

#[test]
fn reapplying_a_skill_overwrites_it() {
    let mut c = Char::new(fighter(100, 10));
    let s = skill(IdSkills::Stun, 2, Stat::empty());
    c.add_skill(&s, 1);
    c.add_skill(&s, 4);
    assert_eq!(c.skills, vec![ActiveSkill { id: IdSkills::Stun, turn: 2, applied: 4 }]);
    let copy = c.clone();
    assert_eq!(copy.skills, c.skills);
}

#[test]
fn triggered_effects_attach_defined_skills() {
    let mut rng = StdRng::seed_from_u64(26);
    let mut stun_effect = Stat::empty();
    stun_effect.can_perform_action = Some(false);
    let book = vec![skill(IdSkills::Stun, 2, stun_effect)];
    let mut attacker_stat = fighter(100, 10);
    attacker_stat.stun_chance = Some(2 * ONE as i64);
    let attacker = Char::new(attacker_stat);
    let mut target = Char::new(fighter(100, 10));
    attacker.resolve_hit(&mut target, &book, combat_sim::hit::BodyPart::Head, false, 3, &mut rng);
    assert_eq!(target.skills, vec![ActiveSkill { id: IdSkills::Stun, turn: 2, applied: 3 }]);
    assert_eq!(target.compute(&book).can_perform_action, Some(false));
    // A triggered effect that the book does not define attaches nothing.
    let mut other = Char::new(fighter(100, 10));
    other.apply_triggers(&Vec::new(), &vec![(IdSkills::Daze, true)], 1);
    assert!(other.skills.is_empty());
}

#[test]
fn settling_a_cycle_floors_and_recovers() {
    let st = FightState { hp_first: 50, hp_second: 30, block_first: 5, block_second: 2, turn: 3 };
    let next = settle(st, &[40, 10, 3, 5], 10, 8, Some(500_000), None);
    assert_eq!(
        next,
        FightState { hp_first: 40, hp_second: 0, block_first: 3, block_second: 0, turn: 4 }
    );
    // Recovery is capped at the maximum pool.
    let full = FightState { hp_first: 1, hp_second: 1, block_first: 8, block_second: 8, turn: 0 };
    let next = settle(full, &[0, 0, 0, 0], 10, 8, Some(ONE as i64), Some(ONE as i64));
    assert_eq!(next.block_first, 10);
    assert_eq!(next.block_second, 8);
}
