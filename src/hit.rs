//! Hit outcomes, their probability distribution, and the draw of an outcome.
use crate::fixed::ONE;
use crate::random::roll_below;
use rand::rngs::StdRng;
use vstd::prelude::*;

verus! {

/// The seven outcomes of an attack.
#[derive(PartialEq, Eq, Structural, Debug, Clone, Copy)]
pub enum HitType {
    CritHit,
    NormalHit,
    HalfHit,
    BlockCritHit,
    BlockNormalHit,
    BlockHalfHit,
    NoHit,
}

impl HitType {
    /// Whether the outcome went through the defender's block.
    pub open spec fn is_blocked(self) -> bool {
        self is BlockCritHit || self is BlockNormalHit || self is BlockHalfHit
    }

    /// Whether the outcome lands fully or critically (the outcomes that can
    /// trigger status effects).
    pub open spec fn is_landed(self) -> bool {
        self is CritHit || self is NormalHit || self is BlockCritHit || self is BlockNormalHit
    }
}

/// The location that an attack targets.
#[derive(PartialEq, Eq, Structural, Debug, Clone, Copy)]
pub enum BodyPart {
    RightLeg,
    LeftLeg,
    RightHand,
    LeftHand,
    Torso,
    Head,
    Untargeted,
}

/// The location for a uniform index in `0..6`.
pub open spec fn body_part_spec(i: int) -> BodyPart {
    if i == 0 {
        BodyPart::RightLeg
    } else if i == 1 {
        BodyPart::LeftLeg
    } else if i == 2 {
        BodyPart::RightHand
    } else if i == 3 {
        BodyPart::LeftHand
    } else if i == 4 {
        BodyPart::Torso
    } else if i == 5 {
        BodyPart::Head
    } else {
        BodyPart::Untargeted
    }
}

/// Maps an index to a body location; any index past the six locations is
/// `Untargeted`.
pub fn body_part_of(i: u64) -> (r: BodyPart)
    ensures
        r == body_part_spec(i as int),
{
    match i {
        0 => BodyPart::RightLeg,
        1 => BodyPart::LeftLeg,
        2 => BodyPart::RightHand,
        3 => BodyPart::LeftHand,
        4 => BodyPart::Torso,
        5 => BodyPart::Head,
        _ => BodyPart::Untargeted,
    }
}

/// Draws one of the six targeted locations uniformly.
pub fn random_body_part(rng: &mut StdRng) -> (r: BodyPart)
    ensures
        exists|i: int| 0 <= i < 6 && r == body_part_spec(i),
{
    let i = roll_below(rng, 6);
    body_part_of(i)
}

/// The scaling of a draw, in millionths: one when absent.
pub open spec fn factor_spec(input_proba: Option<i64>) -> int {
    match input_proba {
        Some(c) => c as int,
        None => ONE as int,
    }
}

/// The sum of the first `k` of six probabilities in draw order.
pub open spec fn cumulative(p: Seq<int>, k: int) -> int
    decreases k,
{
    if k <= 0 {
        0
    } else if k > 6 {
        cumulative(p, 6)
    } else {
        cumulative(p, k - 1) + p[k - 1]
    }
}

/// The outcome for a uniform draw `roll / ONE` in `[0, 1)` from the six
/// probabilities `p`, each scaled by `factor / ONE`: the first outcome whose
/// cumulative bound exceeds the draw, else no hit.
pub open spec fn outcome_spec(p: Seq<int>, roll: int, factor: int) -> HitType {
    let t = roll * ONE;
    if cumulative(p, 1) * factor > t {
        HitType::CritHit
    } else if cumulative(p, 2) * factor > t {
        HitType::NormalHit
    } else if cumulative(p, 3) * factor > t {
        HitType::HalfHit
    } else if cumulative(p, 4) * factor > t {
        HitType::BlockCritHit
    } else if cumulative(p, 5) * factor > t {
        HitType::BlockNormalHit
    } else if cumulative(p, 6) * factor > t {
        HitType::BlockHalfHit
    } else {
        HitType::NoHit
    }
}

/// Probabilities of the six landing outcomes, in millionths; what is left of
/// one is the chance of no hit.
#[derive(PartialEq, Eq, Structural, Debug, Clone, Copy)]
pub struct Chance {
    pub(crate) crit_hit: u64,
    pub(crate) normal_hit: u64,
    pub(crate) half_hit: u64,
    pub(crate) block_crit_hit: u64,
    pub(crate) block_normal_hit: u64,
    pub(crate) block_half_hit: u64,
}

impl Chance {
    /// The six probabilities in draw order.
    pub open(crate) spec fn view(&self) -> Seq<int> {
        seq![
            self.crit_hit as int,
            self.normal_hit as int,
            self.half_hit as int,
            self.block_crit_hit as int,
            self.block_normal_hit as int,
            self.block_half_hit as int,
        ]
    }

    /// Non-negative probabilities that sum to at most one.
    #[verifier::type_invariant]
    pub open(crate) spec fn wf(&self) -> bool {
        cumulative(self@, 6) <= ONE
    }

    pub fn new(
        crit_hit: u64,
        normal_hit: u64,
        half_hit: u64,
        block_crit_hit: u64,
        block_normal_hit: u64,
        block_half_hit: u64,
    ) -> (r: Self)
        requires
            crit_hit + normal_hit + half_hit + block_crit_hit + block_normal_hit + block_half_hit
                <= ONE,
        ensures
            r@ == seq![
                crit_hit as int,
                normal_hit as int,
                half_hit as int,
                block_crit_hit as int,
                block_normal_hit as int,
                block_half_hit as int,
            ],
    {
        proof {
            reveal_with_fuel(cumulative, 7);
        }
        Chance { crit_hit, normal_hit, half_hit, block_crit_hit, block_normal_hit, block_half_hit }
    }

    /// The outcome for a given draw `roll` (in millionths); `input_proba`, when
    /// given, scales every probability (in millionths, one when absent).
    pub fn draw_with(&self, roll: u64, input_proba: Option<i64>) -> (r: HitType)
        requires
            roll < ONE,
        ensures
            r == outcome_spec(self@, roll as int, factor_spec(input_proba)),
    {
        proof {
            use_type_invariant(self);
            reveal_with_fuel(cumulative, 7);
        }
        let factor: i128 = match input_proba {
            Some(c) => c as i128,
            None => ONE as i128,
        };
        let t: i128 = roll as i128 * ONE as i128;
        let c1: i128 = self.crit_hit as i128;
        let c2: i128 = c1 + self.normal_hit as i128;
        let c3: i128 = c2 + self.half_hit as i128;
        let c4: i128 = c3 + self.block_crit_hit as i128;
        let c5: i128 = c4 + self.block_normal_hit as i128;
        let c6: i128 = c5 + self.block_half_hit as i128;
        assert(c6 * factor <= ONE * 0x8000_0000_0000_0000) by (nonlinear_arith)
            requires
                0 <= c6 <= ONE,
                -0x8000_0000_0000_0000 <= factor < 0x8000_0000_0000_0000,
        ;
        assert(c6 * factor >= -(ONE * 0x8000_0000_0000_0000)) by (nonlinear_arith)
            requires
                0 <= c6 <= ONE,
                -0x8000_0000_0000_0000 <= factor < 0x8000_0000_0000_0000,
        ;
        assert(forall|c: int|
            0 <= c <= c6 ==> -(ONE * 0x8000_0000_0000_0000) <= #[trigger] (c * factor) <= ONE
                * 0x8000_0000_0000_0000) by {
            assert forall|c: int| 0 <= c <= c6 implies -(ONE * 0x8000_0000_0000_0000) <= #[trigger] (
            c * factor) <= ONE * 0x8000_0000_0000_0000 by {
                assert(-(ONE * 0x8000_0000_0000_0000) <= c * factor <= ONE * 0x8000_0000_0000_0000)
                    by (nonlinear_arith)
                    requires
                        0 <= c <= c6 <= ONE,
                        -0x8000_0000_0000_0000 <= factor < 0x8000_0000_0000_0000,
                ;
            }
        }
        if c1 * factor > t {
            HitType::CritHit
        } else if c2 * factor > t {
            HitType::NormalHit
        } else if c3 * factor > t {
            HitType::HalfHit
        } else if c4 * factor > t {
            HitType::BlockCritHit
        } else if c5 * factor > t {
            HitType::BlockNormalHit
        } else if c6 * factor > t {
            HitType::BlockHalfHit
        } else {
            HitType::NoHit
        }
    }

    /// Draws an outcome with a uniform random value; `input_proba` as in
    /// `draw_with`.
    pub fn draw(&self, rng: &mut StdRng, input_proba: Option<i64>) -> (r: HitType)
        ensures
            exists|roll: int|
                0 <= roll < ONE && r == #[trigger] outcome_spec(self@, roll, factor_spec(input_proba)),
    {
        let roll = roll_below(rng, ONE);
        self.draw_with(roll, input_proba)
    }

    /// The six probabilities in draw order.
    pub fn into_array(&self) -> (r: [u64; 6])
        ensures
            r@.map_values(|x: u64| x as int) == self@,
    {
        let r = [
            self.crit_hit,
            self.normal_hit,
            self.half_hit,
            self.block_crit_hit,
            self.block_normal_hit,
            self.block_half_hit,
        ];
        assert(r@.map_values(|x: u64| x as int) =~= self@);
        r
    }
}

/// A damage amount for each of the six landing outcomes.
#[derive(PartialEq, Eq, Structural, Debug, Clone, Copy)]
pub struct Damage {
    pub(crate) crit_hit: u64,
    pub(crate) normal_hit: u64,
    pub(crate) half_hit: u64,
    pub(crate) block_crit_hit: u64,
    pub(crate) block_normal_hit: u64,
    pub(crate) block_half_hit: u64,
}

impl Damage {
    /// The six amounts in draw order.
    pub open(crate) spec fn view(&self) -> Seq<u64> {
        seq![
            self.crit_hit,
            self.normal_hit,
            self.half_hit,
            self.block_crit_hit,
            self.block_normal_hit,
            self.block_half_hit,
        ]
    }

    /// The amount for an outcome; no hit deals nothing.
    pub open(crate) spec fn get_spec(&self, h: HitType) -> u64 {
        match h {
            HitType::CritHit => self.crit_hit,
            HitType::NormalHit => self.normal_hit,
            HitType::HalfHit => self.half_hit,
            HitType::BlockCritHit => self.block_crit_hit,
            HitType::BlockNormalHit => self.block_normal_hit,
            HitType::BlockHalfHit => self.block_half_hit,
            HitType::NoHit => 0,
        }
    }

    pub fn new(
        crit_hit: u64,
        normal_hit: u64,
        half_hit: u64,
        block_crit_hit: u64,
        block_normal_hit: u64,
        block_half_hit: u64,
    ) -> (r: Self)
        ensures
            r@ == seq![
                crit_hit,
                normal_hit,
                half_hit,
                block_crit_hit,
                block_normal_hit,
                block_half_hit,
            ],
    {
        Damage { crit_hit, normal_hit, half_hit, block_crit_hit, block_normal_hit, block_half_hit }
    }

    /// The six amounts in draw order.
    pub fn into_array(&self) -> (r: [u64; 6])
        ensures
            r@ == self@,
    {
        let r = [
            self.crit_hit,
            self.normal_hit,
            self.half_hit,
            self.block_crit_hit,
            self.block_normal_hit,
            self.block_half_hit,
        ];
        assert(r@ =~= self@);
        r
    }

    /// The amount for an outcome; no hit deals nothing.
    pub fn get(&self, h: HitType) -> (r: u64)
        ensures
            r == self.get_spec(h),
    {
        match h {
            HitType::CritHit => self.crit_hit,
            HitType::NormalHit => self.normal_hit,
            HitType::HalfHit => self.half_hit,
            HitType::BlockCritHit => self.block_crit_hit,
            HitType::BlockNormalHit => self.block_normal_hit,
            HitType::BlockHalfHit => self.block_half_hit,
            HitType::NoHit => 0,
        }
    }
}

/// An attack ready to be resolved: its outcome distribution and its target.
#[derive(PartialEq, Eq, Structural, Debug, Clone, Copy)]
pub struct Hit {
    pub chance: Chance,
    pub body_part: BodyPart,
}

impl Hit {
    pub fn new(chance: Chance, body_part: BodyPart) -> (r: Self)
        ensures
            r.chance == chance,
            r.body_part == body_part,
    {
        Hit { chance, body_part }
    }

    /// Draws the outcome of this attack; `input_proba` as in `Chance::draw_with`.
    pub fn draw(&self, rng: &mut StdRng, input_proba: Option<i64>) -> (r: HitType)
        ensures
            exists|roll: int|
                0 <= roll < ONE && r == #[trigger] outcome_spec(self.chance@, roll, factor_spec(input_proba)),
    {
        self.chance.draw(rng, input_proba)
    }

    pub fn get_chance(&self) -> (r: Chance)
        ensures
            r == self.chance,
    {
        self.chance
    }

    pub fn get_bodypart_hit(&self) -> (r: BodyPart)
        ensures
            r == self.body_part,
    {
        self.body_part
    }
}

} // verus!
