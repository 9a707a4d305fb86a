//! Exact fractions for confidence scores and thresholds.
//!
//! A confidence is a count of known words over a count of words, and a
//! threshold is a fraction to hold it against. Both are kept as the two
//! integers they are, so a comparison never rounds.

use vstd::prelude::*;

verus! {

/// A non-negative fraction. A fraction whose denominator is 0 counts as 0,
/// which is the confidence of a text without words.
#[derive(Clone, Copy, Debug, PartialEq, Eq, Structural)]
pub struct Ratio {
    pub numerator: u64,
    pub denominator: u64,
}

impl Ratio {
    /// The numerator of the value: 0 where the denominator is 0.
    pub open spec fn top(self) -> int {
        if self.denominator == 0 {
            0
        } else {
            self.numerator as int
        }
    }

    /// The denominator of the value, always positive: 1 where the field is 0.
    pub open spec fn bottom(self) -> int {
        if self.denominator == 0 {
            1
        } else {
            self.denominator as int
        }
    }

    /// The value of `self` is greater than or equal to the value of `floor`.
    pub open spec fn at_least(self, floor: Ratio) -> bool {
        self.top() * floor.bottom() >= floor.top() * self.bottom()
    }

    /// The value of `self` lies in `[0, 1]`.
    pub open spec fn in_unit_range(self) -> bool {
        self.top() <= self.bottom()
    }

    /// The fraction `numerator / denominator`.
    pub fn new(numerator: u64, denominator: u64) -> (r: Ratio)
        ensures
            r == (Ratio { numerator, denominator }),
    {
        Ratio { numerator, denominator }
    }

    /// The fraction 0.
    pub fn zero() -> (r: Ratio)
        ensures
            r == (Ratio { numerator: 0, denominator: 1 }),
    {
        Ratio { numerator: 0, denominator: 1 }
    }

    /// Whether the value lies in `[0, 1]`.
    pub fn is_in_unit_range(&self) -> (b: bool)
        ensures
            b == self.in_unit_range(),
    {
        self.denominator == 0 || self.numerator <= self.denominator
    }

    /// Whether the value of `self` is greater than or equal to that of
    /// `floor`, decided exactly by cross-multiplication.
    pub fn reaches(&self, floor: &Ratio) -> (b: bool)
        ensures
            b == self.at_least(*floor),
    {
        let a: u128 = if self.denominator == 0 {
            0
        } else {
            self.numerator as u128
        };
        let b: u128 = if self.denominator == 0 {
            1
        } else {
            self.denominator as u128
        };
        let c: u128 = if floor.denominator == 0 {
            0
        } else {
            floor.numerator as u128
        };
        let d: u128 = if floor.denominator == 0 {
            1
        } else {
            floor.denominator as u128
        };
        proof {
            lemma_product_fits(a as int, d as int);
            lemma_product_fits(c as int, b as int);
        }
        a * d >= c * b
    }
}

/// The value that a confidence ranks as: its own where it is present, 0
/// where it is absent.
pub open spec fn rank(confidence: Option<Ratio>) -> Ratio {
    match confidence {
        Some(c) => c,
        None => Ratio { numerator: 0, denominator: 1 },
    }
}

/// Whether the confidence `a` ranks strictly above the confidence `b`, an
/// absent confidence ranking as 0. This is the order in which candidates
/// are best shown: those that rank higher first.
pub fn outranks(a: Option<Ratio>, b: Option<Ratio>) -> (above: bool)
    ensures
        above == !rank(b).at_least(rank(a)),
{
    let x = match a {
        Some(c) => c,
        None => Ratio::zero(),
    };
    let y = match b {
        Some(c) => c,
        None => Ratio::zero(),
    };
    !y.reaches(&x)
}

/// The product of two 64-bit values fits in 128 bits.
proof fn lemma_product_fits(x: int, y: int)
    requires
        0 <= x <= u64::MAX,
        0 <= y <= u64::MAX,
    ensures
        0 <= x * y <= u128::MAX,
{
    assert(0 <= x * y <= 0xFFFF_FFFF_FFFF_FFFF * 0xFFFF_FFFF_FFFF_FFFF) by (nonlinear_arith)
        requires
            0 <= x <= 0xFFFF_FFFF_FFFF_FFFF,
            0 <= y <= 0xFFFF_FFFF_FFFF_FFFF,
    ;
}

/// The threshold that a search over a word list applies where `threshold`
/// was asked for: a threshold above 1 asks for more than any text can
/// give, so it counts as the threshold 0, which every score reaches. Any
/// other threshold, and the absence of one, stands as it is.
pub open spec fn applied(threshold: Option<Ratio>) -> Option<Ratio> {
    match threshold {
        Some(t) => if t.in_unit_range() {
            Some(t)
        } else {
            Some(Ratio { numerator: 0, denominator: 1 })
        },
        None => None,
    }
}

/// Replaces a threshold above 1 by the threshold 0.
pub fn apply_threshold(threshold: Option<Ratio>) -> (out: Option<Ratio>)
    ensures
        out == applied(threshold),
{
    match threshold {
        Some(t) => if t.is_in_unit_range() {
            Some(t)
        } else {
            Some(Ratio::zero())
        },
        None => None,
    }
}

/// Whether a candidate with this confidence passes this threshold.
///
/// Where both are present, the confidence must reach the threshold. Without
/// a threshold nothing is filtered. A candidate whose confidence is absent
/// could not be scored, so it cannot be filtered either: it passes.
pub open spec fn retained(confidence: Option<Ratio>, threshold: Option<Ratio>) -> bool {
    match (confidence, threshold) {
        (Some(c), Some(t)) => c.at_least(t),
        _ => true,
    }
}

/// Decides whether a candidate with this confidence passes this threshold.
pub fn is_retained(confidence: Option<Ratio>, threshold: Option<Ratio>) -> (keep: bool)
    ensures
        keep == retained(confidence, threshold),
{
    match (confidence, threshold) {
        (Some(c), Some(t)) => c.reaches(&t),
        _ => true,
    }
}

} // verus!
