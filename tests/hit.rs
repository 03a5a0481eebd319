use combat_sim::fixed::ONE;
use combat_sim::hit::{Chance, HitType};
use rand::rngs::StdRng;
use rand::SeedableRng;

/// A probability written as a decimal, in millionths.
fn p(x: f64) -> u64 {
    (x * ONE as f64).round() as u64
}

#[test]
fn test_chance_crit() {
    let mut rng = StdRng::seed_from_u64(1);
    let chance = Chance::new(p(1.0), p(0.0), p(0.0), p(0.0), p(0.0), p(0.0));
    for _ in 0..100 {
        assert_eq!(chance.draw(&mut rng, None), HitType::CritHit);
    }
}

#[test]
fn test_chance_normal() {
    let mut rng = StdRng::seed_from_u64(2);
    let chance = Chance::new(p(0.0), p(1.0), p(0.0), p(0.0), p(0.0), p(0.0));
    for _ in 0..100 {
        assert_eq!(chance.draw(&mut rng, None), HitType::NormalHit);
    }
}

#[test]
fn test_chance_half() {
    let mut rng = StdRng::seed_from_u64(3);
    let chance = Chance::new(p(0.0), p(0.0), p(1.0), p(0.0), p(0.0), p(0.0));
    for _ in 0..100 {
        assert_eq!(chance.draw(&mut rng, None), HitType::HalfHit);
    }
}

#[test]
fn test_chance_blockcrit() {
    let mut rng = StdRng::seed_from_u64(4);
    let chance = Chance::new(p(0.0), p(0.0), p(0.0), p(1.0), p(0.0), p(0.0));
    for _ in 0..100 {
        assert_eq!(chance.draw(&mut rng, None), HitType::BlockCritHit);
    }
}

#[test]
fn test_chance_blocknormal() {
    let mut rng = StdRng::seed_from_u64(5);
    let chance = Chance::new(p(0.0), p(0.0), p(0.0), p(0.0), p(1.0), p(0.0));
    for _ in 0..100 {
        assert_eq!(chance.draw(&mut rng, None), HitType::BlockNormalHit);
    }
}

#[test]
fn test_chance_blockhalf() {
    let mut rng = StdRng::seed_from_u64(6);
    let chance = Chance::new(p(0.0), p(0.0), p(0.0), p(0.0), p(0.0), p(1.0));
    for _ in 0..100 {
        assert_eq!(chance.draw(&mut rng, None), HitType::BlockHalfHit);
    }
}

#[test]
fn test_chance_nohit() {
    let mut rng = StdRng::seed_from_u64(7);
    let chance = Chance::new(p(0.0), p(0.0), p(0.0), p(0.0), p(0.0), p(0.0));
    for _ in 0..100 {
        assert_eq!(chance.draw(&mut rng, None), HitType::NoHit);
    }
}

#[test]
fn test_chance_no_crit() {
    let mut rng = StdRng::seed_from_u64(8);
    let chance = Chance::new(p(0.0), p(0.1), p(0.1), p(0.1), p(0.1), p(0.1));
    for _ in 0..100 {
        assert_ne!(chance.draw(&mut rng, None), HitType::CritHit);
    }
}

#[test]
fn test_chance_no_normal() {
    let mut rng = StdRng::seed_from_u64(9);
    let chance = Chance::new(p(0.1), p(0.0), p(0.1), p(0.1), p(0.1), p(0.1));
    for _ in 0..100 {
        assert_ne!(chance.draw(&mut rng, None), HitType::NormalHit);
    }
}

#[test]
fn test_chance_no_half() {
    let mut rng = StdRng::seed_from_u64(10);
    let chance = Chance::new(p(0.1), p(0.1), p(0.0), p(0.1), p(0.1), p(0.1));
    for _ in 0..100 {
        assert_ne!(chance.draw(&mut rng, None), HitType::HalfHit);
    }
}

#[test]
fn test_chance_no_blockcrit() {
    let mut rng = StdRng::seed_from_u64(11);
    let chance = Chance::new(p(0.1), p(0.1), p(0.1), p(0.0), p(0.1), p(0.1));
    for _ in 0..100 {
        assert_ne!(chance.draw(&mut rng, None), HitType::BlockCritHit);
    }
}

#[test]
fn test_chance_no_blocknormal() {
    let mut rng = StdRng::seed_from_u64(12);
    let chance = Chance::new(p(0.1), p(0.1), p(0.1), p(0.1), p(0.0), p(0.1));
    for _ in 0..100 {
        assert_ne!(chance.draw(&mut rng, None), HitType::BlockNormalHit);
    }
}

#[test]
fn test_chance_no_blockhalf() {
    let mut rng = StdRng::seed_from_u64(13);
    let chance = Chance::new(p(0.1), p(0.1), p(0.1), p(0.1), p(0.1), p(0.0));
    for _ in 0..100 {
        assert_ne!(chance.draw(&mut rng, None), HitType::BlockHalfHit);
    }
}

#[test]
fn test_chance_no_nohit() {
    let mut rng = StdRng::seed_from_u64(14);
    let chance = Chance::new(p(0.1), p(0.1), p(0.1), p(0.1), p(0.3), p(0.3));
    for _ in 0..100 {
        assert_ne!(chance.draw(&mut rng, None), HitType::NoHit);
    }
}

#[test]
fn draw_with_follows_cumulative_bounds() {
    let chance = Chance::new(p(0.1), p(0.2), p(0.3), p(0.1), p(0.1), p(0.1));
    assert_eq!(chance.draw_with(0, None), HitType::CritHit);
    assert_eq!(chance.draw_with(p(0.1) - 1, None), HitType::CritHit);
    assert_eq!(chance.draw_with(p(0.1), None), HitType::NormalHit);
    assert_eq!(chance.draw_with(p(0.3), None), HitType::HalfHit);
    assert_eq!(chance.draw_with(p(0.6), None), HitType::BlockCritHit);
    assert_eq!(chance.draw_with(p(0.7), None), HitType::BlockNormalHit);
    assert_eq!(chance.draw_with(p(0.8), None), HitType::BlockHalfHit);
    assert_eq!(chance.draw_with(p(0.9), None), HitType::NoHit);
}

#[test]
fn draw_with_scaling_divides_the_threshold() {
    let chance = Chance::new(p(0.5), 0, 0, 0, 0, 0);
    // Halving every probability: a draw of 0.3 now misses.
    assert_eq!(chance.draw_with(p(0.3), Some(p(0.5) as i64)), HitType::NoHit);
    assert_eq!(chance.draw_with(p(0.2), Some(p(0.5) as i64)), HitType::CritHit);
    // A zero or negative scale never hits.
    assert_eq!(chance.draw_with(0, Some(0)), HitType::NoHit);
    assert_eq!(chance.draw_with(0, Some(-(ONE as i64))), HitType::NoHit);
}

#[test]
fn draw_uses_the_whole_range_of_the_generator() {
    let mut rng = StdRng::seed_from_u64(99);
    let chance = Chance::new(p(0.5), p(0.5), 0, 0, 0, 0);
    let mut crits = 0;
    let mut normals = 0;
    for _ in 0..200 {
        match chance.draw(&mut rng, None) {
            HitType::CritHit => crits += 1,
            HitType::NormalHit => normals += 1,
            other => panic!("unexpected outcome {:?}", other),
        }
    }
    assert!(crits > 0 && normals > 0);
}

#[test]
fn chance_into_array_keeps_draw_order() {
    let chance = Chance::new(1, 2, 3, 4, 5, 6);
    assert_eq!(chance.into_array(), [1, 2, 3, 4, 5, 6]);
}
