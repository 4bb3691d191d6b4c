//! Exact rational scores.
//!
//! A merged search result's score is a sum of terms `w / (100 * (i + 1))`,
//! where `w` is an engine's trust weight in hundredths and `i` the 0-indexed
//! position of the result in that engine's list. Scores are kept as exact
//! fractions of machine integers; every operation either returns the exact
//! mathematical value or reports that it does not fit in 64 bits.

use vstd::prelude::*;

verus! {

/// A mathematical (spec-level) fraction. `den` is always positive for the
/// values this crate builds, so ordering is decided by cross-multiplication.
#[verifier::ext_equal]
pub ghost struct Rat {
    pub num: int,
    pub den: int,
}

impl Rat {
    /// Exact sum of two fractions, without reduction.
    pub open spec fn add(self, other: Rat) -> Rat {
        Rat { num: self.num * other.den + other.num * self.den, den: self.den * other.den }
    }

    /// `self <= other`, valid when both denominators are positive.
    pub open spec fn le(self, other: Rat) -> bool {
        self.num * other.den <= other.num * self.den
    }

    /// A well-formed score fraction: positive denominator, non-negative numerator.
    pub open spec fn wf(self) -> bool {
        self.den >= 1 && self.num >= 0
    }
}

/// An exact non-negative rational score held in machine integers.
#[derive(Clone, Copy, Debug)]
pub struct Score {
    pub num: u64,
    pub den: u64,
}

impl View for Score {
    type V = Rat;

    open spec fn view(&self) -> Rat {
        Rat { num: self.num as int, den: self.den as int }
    }
}

/// Ordering by cross-multiplication is transitive over positive denominators.
pub proof fn lemma_rat_le_trans(a: Rat, b: Rat, c: Rat)
    requires
        a.den >= 1,
        b.den >= 1,
        c.den >= 1,
        a.le(b),
        b.le(c),
    ensures
        a.le(c),
{
    assert(a.num * c.den <= c.num * a.den) by (nonlinear_arith)
        requires
            a.den >= 1,
            b.den >= 1,
            c.den >= 1,
            a.num * b.den <= b.num * a.den,
            b.num * c.den <= c.num * b.den,
    ;
}

/// Ordering by cross-multiplication is total over positive denominators.
pub proof fn lemma_rat_le_total(a: Rat, b: Rat)
    requires
        a.den >= 1,
        b.den >= 1,
        !b.le(a),
    ensures
        a.le(b),
{
    assert(a.num * b.den <= b.num * a.den) by (nonlinear_arith)
        requires
            a.den >= 1,
            b.den >= 1,
            !(b.num * a.den <= a.num * b.den),
    ;
}

/// The product of two 64-bit values fits in 128 bits.
proof fn lemma_u64_mul_fits(a: u64, b: u64)
    ensures
        (a as int) * (b as int) <= u64::MAX as int * u64::MAX as int,
        (a as int) * (b as int) >= 0,
{
    assert((a as int) * (b as int) <= u64::MAX as int * u64::MAX as int && (a as int) * (b as int)
        >= 0) by (nonlinear_arith)
        requires
            0 <= a <= u64::MAX,
            0 <= b <= u64::MAX,
    ;
}

impl Score {
    pub open spec fn wf(self) -> bool {
        self.den >= 1
    }

    /// The fraction `num / den`.
    pub fn new(num: u64, den: u64) -> (r: Score)
        requires
            den >= 1,
        ensures
            r@ == (Rat { num: num as int, den: den as int }),
            r.wf(),
    {
        Score { num, den }
    }

    /// Exact sum, or `None` when the unreduced exact sum does not fit in 64 bits.
    pub fn checked_add(self, other: Score) -> (r: Option<Score>)
        requires
            self.wf(),
            other.wf(),
        ensures
            r is Some <==> (self@.add(other@).num <= u64::MAX && self@.add(other@).den
                <= u64::MAX),
            r is Some ==> r.unwrap()@ == self@.add(other@) && r.unwrap().wf(),
    {
        proof {
            lemma_u64_mul_fits(self.den, other.den);
            lemma_u64_mul_fits(self.num, other.den);
            lemma_u64_mul_fits(other.num, self.den);
        }
        let d: u128 = (self.den as u128) * (other.den as u128);
        let p1: u128 = (self.num as u128) * (other.den as u128);
        let p2: u128 = (other.num as u128) * (self.den as u128);
        proof {
            assert(d as int == self@.add(other@).den);
            assert(p1 as int + p2 as int == self@.add(other@).num);
            assert(d >= 1) by (nonlinear_arith)
                requires
                    self.den >= 1,
                    other.den >= 1,
                    d as int == self.den as int * other.den as int,
            ;
        }
        if d <= u64::MAX as u128 && p1 <= u64::MAX as u128 && p2 <= u64::MAX as u128 && p1 + p2
            <= u64::MAX as u128 {
            Some(Score { num: (p1 + p2) as u64, den: d as u64 })
        } else {
            None
        }
    }

    /// `self >= other`, decided exactly by cross-multiplication.
    pub fn ge(&self, other: &Score) -> (r: bool)
        requires
            self.wf(),
            other.wf(),
        ensures
            r <==> other@.le(self@),
    {
        proof {
            lemma_u64_mul_fits(self.num, other.den);
            lemma_u64_mul_fits(other.num, self.den);
        }
        (self.num as u128) * (other.den as u128) >= (other.num as u128) * (self.den as u128)
    }
}

} // verus!
