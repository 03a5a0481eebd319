use combat_sim::fixed::ONE;
use combat_sim::hit::{BodyPart, Chance, HitType};
use combat_sim::stat::{BobyPart, DamageType, IdSkills, Stat, WeaponType};
use rand::rngs::StdRng;
use rand::SeedableRng;

/// A decimal fraction or multiplier, in millionths.
fn m(x: f64) -> i64 {
    (x * ONE as f64).round() as i64
}

fn p(x: f64) -> u64 {
    (x * ONE as f64).round() as u64
}

fn body_part(protection: u64, slash_res: f64) -> BobyPart {
    BobyPart {
        protection: Some(protection),
        phy_res: Some(m(0.0)),
        slash_res: Some(m(slash_res)),
        pierc_res: Some(m(0.0)),
        crush_res: Some(m(0.0)),
        rend_res: Some(m(0.0)),
        bleed_res: Some(m(0.0)),
        poison_res: Some(m(0.0)),
        caustic_res: Some(m(0.0)),
    }
}

/// The record shared by the attack tests: every field present, neutral
/// values but for those given.
fn player(damage: u64, crit_eff: f64, part: BobyPart) -> Stat {
    Stat {
        hp: Some(100),
        damage: Some(vec![(DamageType::Slash, damage)]),
        weapon_type: Some(WeaponType::Sword),
        weapon_dmg: Some(m(1.0)),
        main_hand_eff: Some(m(1.0)),
        armor_pen: Some(m(0.0)),
        accuracy: Some(m(1.0)),
        crit_chance: Some(m(0.0)),
        crit_eff: Some(m(crit_eff)),
        counter: Some(m(0.0)),
        fumble: Some(m(0.0)),
        bleed_chance: Some(m(0.0)),
        daze_chance: Some(m(0.0)),
        stun_chance: Some(m(0.0)),
        knockback_chance: Some(m(0.0)),
        immobilization_chance: Some(m(0.0)),
        stagger_chance: Some(m(0.0)),
        block: Some(m(0.0)),
        block_power: Some(0),
        block_recovery: Some(m(0.0)),
        dodge: Some(m(0.0)),
        fortitude: Some(m(0.0)),
        control_res: Some(m(0.0)),
        move_res: Some(m(0.0)),
        damage_taken: Some(m(1.0)),
        hands: Some(part),
        legs: Some(part),
        torso: Some(part),
        head: Some(part),
        flat_damage_receive: Some(0),
        percent_damage_receive: Some(m(0.0)),
        can_perform_action: Some(true),
    }
}

fn attack_chance(player_stats: &Stat) -> Chance {
    let mut rng = StdRng::seed_from_u64(5);
    let dummy_stat = player_stats.clone();
    let hit_player = player_stats.attack(&dummy_stat, &mut rng);
    hit_player.get_chance()
}

#[test]
fn test_basic_attack() {
    let damage = 10;
    let player_stats = player(damage, 1.0, body_part(0, 0.0));
    assert_eq!(attack_chance(&player_stats), Chance::new(p(0.0), p(1.0), p(0.0), p(0.0), p(0.0), p(0.0)));
}

#[test]
fn test_crit_attack() {
    let damage = 10;
    let crit_eff = 2.0;
    let mut player_stats = player(damage, crit_eff, body_part(0, 0.0));
    player_stats.crit_chance = Some(m(1.0));
    assert_eq!(attack_chance(&player_stats), Chance::new(p(1.0), p(0.0), p(0.0), p(0.0), p(0.0), p(0.0)));
}

#[test]
fn test_fumble_attack() {
    let damage = 10;
    let crit_eff = 2.0;
    let mut player_stats = player(damage, crit_eff, body_part(0, 0.0));
    player_stats.fumble = Some(m(1.0));
    assert_eq!(attack_chance(&player_stats), Chance::new(p(0.0), p(0.0), p(1.0), p(0.0), p(0.0), p(0.0)));
}

#[test]
fn test_dodge_attack() {
    let damage = 10;
    let crit_eff = 2.0;
    let mut player_stats = player(damage, crit_eff, body_part(0, 0.0));
    player_stats.dodge = Some(m(1.0));
    assert_eq!(attack_chance(&player_stats), Chance::new(p(0.0), p(0.0), p(1.0), p(0.0), p(0.0), p(0.0)));
}

#[test]
fn test_fumbledodge_attack() {
    let damage = 10;
    let crit_eff = 2.0;
    let mut player_stats = player(damage, crit_eff, body_part(0, 0.0));
    player_stats.fumble = Some(m(1.0));
    player_stats.dodge = Some(m(1.0));
    assert_eq!(attack_chance(&player_stats), Chance::new(p(0.0), p(0.0), p(0.0), p(0.0), p(0.0), p(0.0)));
}

#[test]
fn test_block_attack() {
    let damage = 10;
    let crit_eff = 2.0;
    let block_power = 5;
    let mut player_stats = player(damage, crit_eff, body_part(0, 0.0));
    player_stats.block = Some(m(1.0));
    player_stats.block_power = Some(block_power);
    assert_eq!(attack_chance(&player_stats), Chance::new(p(0.0), p(0.0), p(0.0), p(0.0), p(1.0), p(0.0)));
}

/// The record of the tests with a stronger weapon.
fn strong_player(base_protection: u64, slash_res: f64, armor_pen: f64) -> Stat {
    let base_damage = 10;
    let crit_eff = 2.0;
    let block_power = 5;
    let weapon_dmg = 1.2;
    let main_hand_eff = 1.1;
    let damage = (base_damage as f64 * weapon_dmg * main_hand_eff) as u64;
    let mut player_stats = player(damage, crit_eff, body_part(base_protection, slash_res));
    player_stats.weapon_dmg = Some(m(weapon_dmg));
    player_stats.main_hand_eff = Some(m(main_hand_eff));
    player_stats.armor_pen = Some(m(armor_pen));
    player_stats.block = Some(m(1.0));
    player_stats.block_power = Some(block_power);
    player_stats
}

#[test]
fn test_more_dmg_attack() {
    let player_stats = strong_player(0, 0.0, 0.0);
    assert_eq!(attack_chance(&player_stats), Chance::new(p(0.0), p(0.0), p(0.0), p(0.0), p(1.0), p(0.0)));
}

#[test]
fn test_prot_attack() {
    let protection = 3;
    let player_stats = strong_player(protection, 0.0, 0.0);
    assert_eq!(attack_chance(&player_stats), Chance::new(p(0.0), p(0.0), p(0.0), p(0.0), p(1.0), p(0.0)));
}

#[test]
fn test_res_attack() {
    let protection = 3;
    let slash_res = 0.3;
    let player_stats = strong_player(protection, 1.0 - slash_res, 0.0);
    assert_eq!(attack_chance(&player_stats), Chance::new(p(0.0), p(0.0), p(0.0), p(0.0), p(1.0), p(0.0)));
}

#[test]
fn test_pen_attack() {
    let base_protection = 3;
    let slash_res = 0.5;
    let armor_pen = 0.2;
    let player_stats = strong_player(base_protection, 1.0 - slash_res, armor_pen);
    assert_eq!(attack_chance(&player_stats), Chance::new(p(0.0), p(0.0), p(0.0), p(0.0), p(1.0), p(0.0)));
}

// Damage pipeline.

#[test]
fn normal_half_and_critical_damage() {
    let attacker = player(10, 1.0, body_part(0, 0.0));
    let target = player(10, 1.0, body_part(0, 0.0));
    assert_eq!(attacker.get_damage(&target, BodyPart::Torso, HitType::NormalHit, 0), Some((10, 0)));
    assert_eq!(attacker.get_damage(&target, BodyPart::Head, HitType::HalfHit, 0), Some((5, 0)));
    let critical = player(10, 2.0, body_part(0, 0.0));
    assert_eq!(critical.get_damage(&target, BodyPart::LeftLeg, HitType::CritHit, 0), Some((20, 0)));
    // Critical efficiency below one counts as one.
    let weak = player(10, 0.5, body_part(0, 0.0));
    assert_eq!(weak.get_damage(&target, BodyPart::LeftLeg, HitType::CritHit, 0), Some((10, 0)));
}

#[test]
fn blocked_normal_hit_absorbs_the_pool() {
    let attacker = player(10, 1.0, body_part(0, 0.0));
    let mut target = player(10, 1.0, body_part(0, 0.0));
    target.block_power = Some(5);
    assert_eq!(attacker.get_damage(&target, BodyPart::Torso, HitType::BlockNormalHit, 5), Some((5, 5)));
    // A pool larger than the hit uses only the hit's amount.
    assert_eq!(attacker.get_damage(&target, BodyPart::Torso, HitType::BlockNormalHit, 25), Some((0, 10)));
    // An unblocked outcome leaves the pool alone.
    assert_eq!(attacker.get_damage(&target, BodyPart::Torso, HitType::NormalHit, 5), Some((10, 0)));
}

#[test]
fn protection_clips_at_zero() {
    let attacker = player(10, 1.0, body_part(0, 0.0));
    let armored = player(10, 1.0, body_part(12, 0.0));
    assert_eq!(attacker.get_damage(&armored, BodyPart::RightHand, HitType::NormalHit, 0), Some((0, 0)));
    let exact = player(10, 1.0, body_part(10, 0.0));
    assert_eq!(attacker.get_damage(&exact, BodyPart::RightHand, HitType::NormalHit, 0), Some((0, 0)));
}

#[test]
fn weapon_multiplier_protection_resistance_and_penetration() {
    let attacker = strong_player(0, 0.0, 0.2);
    // 13 base damage times 1.32 is 17; protection 3 less 20% is 2; then 50%
    // resistance: 7.
    let target = player(10, 1.0, body_part(3, 0.5));
    assert_eq!(attacker.get_damage(&target, BodyPart::Torso, HitType::NormalHit, 0), Some((7, 0)));
}

#[test]
fn magic_components_meet_half_reductions_and_share_the_budget() {
    let mut attacker = player(0, 1.0, body_part(0, 0.0));
    attacker.damage = Some(vec![(DamageType::Slash, 4), (DamageType::Poison, 10)]);
    attacker.weapon_dmg = Some(m(2.0));
    let target = player(10, 1.0, body_part(6, 0.0));
    // Slash: 8 against a reduction of 6 gives 2, and leaves no reduction.
    // Poison: 10, not scaled, against half of nothing gives 10.
    assert_eq!(attacker.get_damage(&target, BodyPart::Torso, HitType::NormalHit, 0), Some((12, 0)));
    let mut poison = player(10, 1.0, body_part(6, 0.0));
    poison.damage = Some(vec![(DamageType::Poison, 10)]);
    // Poison alone meets half the reduction: 10 - 3.
    assert_eq!(poison.get_damage(&target, BodyPart::Torso, HitType::NormalHit, 0), Some((7, 0)));
}

#[test]
fn no_hit_and_missing_damage() {
    let attacker = player(10, 1.0, body_part(0, 0.0));
    let target = player(10, 1.0, body_part(0, 0.0));
    assert_eq!(attacker.get_damage(&target, BodyPart::Torso, HitType::NoHit, 5), Some((0, 0)));
    let mut unarmed = attacker.clone();
    unarmed.damage = None;
    assert_eq!(unarmed.get_damage(&target, BodyPart::Torso, HitType::NormalHit, 5), None);
}

#[test]
fn damage_taken_and_missing_body_record() {
    let attacker = player(10, 1.0, body_part(0, 0.0));
    let mut target = player(10, 1.0, body_part(0, 0.0));
    target.damage_taken = Some(m(1.5));
    target.torso = None;
    assert_eq!(attacker.get_damage(&target, BodyPart::Untargeted, HitType::NormalHit, 0), Some((15, 0)));
}

// Hit distribution.

#[test]
fn block_and_critical_split_the_distribution() {
    let mut attacker = player(10, 1.0, body_part(0, 0.0));
    attacker.crit_chance = Some(m(0.25));
    let mut defender = player(10, 1.0, body_part(0, 0.0));
    defender.block = Some(m(0.5));
    let chance = attacker.chance_against(&defender);
    assert_eq!(chance, Chance::new(p(0.125), p(0.375), 0, p(0.125), p(0.375), 0));
}

#[test]
fn negative_dodge_and_excess_accuracy() {
    let mut attacker = player(10, 1.0, body_part(0, 0.0));
    attacker.accuracy = Some(m(0.6));
    let mut defender = player(10, 1.0, body_part(0, 0.0));
    defender.dodge = Some(m(-0.2));
    // Accuracy 0.8, no dodge.
    assert_eq!(attacker.chance_against(&defender), Chance::new(0, p(0.8), 0, 0, 0, 0));
    attacker.accuracy = Some(m(1.3));
    defender.dodge = Some(m(0.5));
    // Accuracy capped at one, dodge 0.5 - 0.3.
    assert_eq!(attacker.chance_against(&defender), Chance::new(0, p(0.8), p(0.2), 0, 0, 0));
}

#[test]
fn an_attacker_that_cannot_act_never_hits() {
    let mut rng = StdRng::seed_from_u64(3);
    let mut attacker = player(10, 1.0, body_part(0, 0.0));
    attacker.can_perform_action = Some(false);
    let defender = player(10, 1.0, body_part(0, 0.0));
    let hit = attacker.attack(&defender, &mut rng);
    assert_eq!(hit.get_chance(), Chance::new(0, 0, 0, 0, 0, 0));
    assert_eq!(hit.get_bodypart_hit(), BodyPart::Untargeted);
    for _ in 0..20 {
        assert_eq!(hit.draw(&mut rng, None), HitType::NoHit);
    }
}

#[test]
fn attacks_target_one_of_six_locations() {
    let mut rng = StdRng::seed_from_u64(11);
    let attacker = player(10, 1.0, body_part(0, 0.0));
    let mut seen = Vec::new();
    for _ in 0..200 {
        let part = attacker.attack(&attacker, &mut rng).get_bodypart_hit();
        assert_ne!(part, BodyPart::Untargeted);
        if !seen.contains(&part) {
            seen.push(part);
        }
    }
    assert_eq!(seen.len(), 6);
}

// Stacking.

#[test]
fn stacking_adds_present_fields_and_overrides_the_rest() {
    let base = player(10, 1.0, body_part(2, 0.1));
    let mut effect = Stat::empty();
    effect.hp = Some(5);
    effect.dodge = Some(m(-0.1));
    effect.torso = Some(body_part(1, 0.2));
    effect.can_perform_action = Some(false);
    effect.weapon_type = Some(WeaponType::Mace);
    let merged = base.clone().add(effect);
    assert_eq!(merged.hp, Some(105));
    assert_eq!(merged.dodge, Some(m(-0.1)));
    assert_eq!(merged.accuracy, Some(m(1.0)));
    assert_eq!(merged.torso.unwrap().protection, Some(3));
    assert_eq!(merged.torso.unwrap().slash_res, Some(m(0.3)));
    assert_eq!(merged.can_perform_action, Some(false));
    assert_eq!(merged.weapon_type, Some(WeaponType::Mace));
    assert_eq!(merged.damage, Some(vec![(DamageType::Slash, 10)]));
    let mut twice = Stat::empty();
    twice.add_assign(Stat::empty());
    assert_eq!(twice.hp, None);
    let mut capped = Stat::empty();
    capped.hp = Some(u64::MAX);
    let sum = capped.clone().add(capped);
    assert_eq!(sum.hp, Some(u64::MAX));
}

#[test]
fn body_records_stack() {
    let mut a = body_part(1, 0.1);
    a.add_assign(body_part(2, 0.2));
    assert_eq!(a.protection, Some(3));
    assert_eq!(a.slash_res, Some(m(0.3)));
    let b = BobyPart::empty().add(body_part(4, 0.0));
    assert_eq!(b, body_part(4, 0.0));
}

// Status effects and residual damage.

#[test]
fn status_chances_and_resistances() {
    let mut attacker = player(10, 1.0, body_part(0, 0.0));
    attacker.daze_chance = Some(m(0.4));
    let chances = attacker.get_additional_chance();
    assert_eq!(chances.len(), 6);
    assert_eq!(chances[1], (IdSkills::Daze, m(0.4)));
    let mut defender = player(10, 1.0, body_part(0, 0.5));
    defender.fortitude = Some(m(0.5));
    defender.control_res = Some(m(0.5));
    defender.hands = Some(BobyPart { bleed_res: Some(m(0.5)), ..body_part(0, 0.0) });
    let res = defender.get_additional_res(BodyPart::LeftHand);
    assert_eq!(res[0], (IdSkills::Bleeding, p(0.25)));
    assert_eq!(res[1], (IdSkills::Daze, p(0.25)));
    assert_eq!(res[3], (IdSkills::Knockback, p(0.5)));
    let untargeted = defender.get_additional_res(BodyPart::Untargeted);
    assert_eq!(untargeted[0], (IdSkills::Bleeding, p(0.5)));
}

#[test]
fn triggers_need_both_draws_below_their_thresholds() {
    let mut attacker = player(10, 1.0, body_part(0, 0.0));
    attacker.stun_chance = Some(m(0.5));
    let defender = player(10, 1.0, body_part(0, 0.0));
    let low = vec![p(0.1); 6];
    let high = vec![p(0.9); 6];
    let t = attacker.effect_triggers(&defender, BodyPart::Torso, false, &low, &low);
    assert_eq!(t[2], (IdSkills::Stun, true));
    assert_eq!(t[0], (IdSkills::Bleeding, false));
    let t = attacker.effect_triggers(&defender, BodyPart::Torso, false, &high, &low);
    assert_eq!(t[2], (IdSkills::Stun, false));
    // A sword's critical hit adds half a chance of bleeding.
    let t = attacker.effect_triggers(&defender, BodyPart::Torso, true, &low, &low);
    assert_eq!(t[0], (IdSkills::Bleeding, true));
    assert_eq!(WeaponType::Crossbow.additional_effect(), Some((IdSkills::Knockback, m(1.25))));
    assert_eq!(WeaponType::Axe.additional_effect(), None);
    let mut rng = StdRng::seed_from_u64(1);
    let rolled = attacker.additional_effect(&defender, BodyPart::Torso, false, &mut rng);
    assert_eq!(rolled.len(), 6);
    assert_eq!(rolled[0], (IdSkills::Bleeding, false));
}

#[test]
fn residual_damage_is_a_share_of_hit_points_plus_a_flat_amount() {
    let mut s = player(10, 1.0, body_part(0, 0.0));
    s.percent_damage_receive = Some(m(0.1));
    s.flat_damage_receive = Some(3);
    assert_eq!(s.residual_damage(), 13);
    assert!(DamageType::Caustic.is_magic());
    assert!(!DamageType::Crush.is_magic());
}
