use vstd::prelude::*;

verus! {

/// A rational share of the unit interval, a numerator over a positive
/// denominator. Configuration expresses the direct share of incoming funds
/// with it, most often as a percentage.
#[derive(Clone, Copy, Debug, PartialEq, Eq, Structural)]
pub struct Fraction {
    pub num: u64,
    pub den: u64,
}

impl Fraction {
    /// Well formed when it lies in the unit interval.
    pub open spec fn wf(self) -> bool {
        0 < self.den && self.num <= self.den
    }

    /// The share `p` percent, for `p <= 100`.
    pub fn percent(p: u64) -> (r: Fraction)
        requires
            p <= 100,
        ensures
            r.wf(),
            r == (Fraction { num: p, den: 100 }),
    {
        Fraction { num: p, den: 100 }
    }

    /// The largest whole amount not above `amount` times this share,
    /// truncating toward zero.
    pub fn mul_floor(self, amount: u128) -> (r: u128)
        requires
            self.wf(),
            amount as int * self.num as int <= u128::MAX,
        ensures
            r == amount as int * self.num as int / (self.den as int),
            r <= amount,
    {
        proof {
            lemma_mul_floor_bound(amount as int, self.num as int, self.den as int);
        }
        (amount * (self.num as u128)) / (self.den as u128)
    }
}

/// A product scaled down by a denominator no smaller than the factor stays
/// at or below the amount.
proof fn lemma_mul_floor_bound(a: int, n: int, d: int)
    requires
        0 <= a,
        0 <= n <= d,
        0 < d,
    ensures
        a * n / d <= a,
{
    assert(a * n <= a * d) by (nonlinear_arith)
        requires
            0 <= a,
            n <= d,
    ;
    assert(a * n / d <= a * d / d) by (nonlinear_arith)
        requires
            a * n <= a * d,
            0 < d,
    ;
    assert(a * d / d == a) by (nonlinear_arith)
        requires
            0 < d,
    ;
}

} // verus!
