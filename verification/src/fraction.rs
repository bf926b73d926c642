use vstd::prelude::*;
use crate::types::saturate;

verus! {

/// The quotient of `p` by `q`, rounded toward zero. `q` is not zero.
pub open spec fn trunc_div(p: int, q: int) -> int {
    let a = if p < 0 { -p } else { p };
    let b = if q < 0 { -q } else { q };
    if (p < 0) != (q < 0) {
        -(a / b)
    } else {
        a / b
    }
}

/// Divides toward zero on wide integers.
pub fn trunc_div_wide(p: i128, q: i128) -> (r: i128)
    requires
        q != 0,
        i128::MIN < p,
        i128::MIN < q,
    ensures
        r == trunc_div(p as int, q as int),
        p >= 0 ==> -p <= r <= p,
        p < 0 ==> p <= r <= -p,
{
    let a: i128 = if p < 0 { -p } else { p };
    let b: i128 = if q < 0 { -q } else { q };
    let m: i128 = a / b;
    assert(0 <= m <= a) by (nonlinear_arith)
        requires
            m == a as int / b as int,
            a >= 0,
            b > 0,
    ;
    if (p < 0) != (q < 0) {
        -m
    } else {
        m
    }
}

/// A product is no further from zero than the product of the bounds of its
/// factors.
pub proof fn lemma_product_bound(a: int, b: int, x: int, y: int)
    by (nonlinear_arith)
    requires
        -x <= a <= x,
        -y <= b <= y,
    ensures
        -(x * y) <= a * b <= x * y,
{
}

/// What `saturate` gives for a wide integer.
pub fn saturate_wide(v: i128) -> (r: i32)
    ensures
        r == saturate(v as int),
{
    if v < i32::MIN as i128 {
        i32::MIN
    } else if v > i32::MAX as i128 {
        i32::MAX
    } else {
        v as i32
    }
}

/// An exact rational number: `numerator / denominator`.
///
/// It stands for a number only where the denominator is positive. Equal
/// numbers may have different representations: nothing is reduced.
#[derive(Clone, Copy, PartialEq, Eq, Structural, Debug)]
pub struct Fraction {
    pub numerator: i64,
    pub denominator: i64,
}

impl Fraction {
    /// Whether this stands for a number.
    pub open spec fn valid(self) -> bool {
        self.denominator > 0
    }

    /// The integer `v` as a fraction.
    pub open spec fn whole(v: int) -> Fraction {
        Fraction { numerator: v as i64, denominator: 1 }
    }

    /// Whether the number is less than `bound`.
    pub open spec fn below(self, bound: int) -> bool {
        self.numerator < bound * self.denominator
    }

    /// Whether the number is greater than `bound`.
    pub open spec fn above(self, bound: int) -> bool {
        self.numerator > bound * self.denominator
    }

    /// The number rounded toward zero and brought into the range of `i32`;
    /// zero where the denominator is zero.
    pub open spec fn truncated(self) -> int {
        if self.denominator == 0 {
            0
        } else {
            saturate(trunc_div(self.numerator as int, self.denominator as int))
        }
    }

    /// The fraction `numerator / denominator`, if the denominator is positive.
    pub fn new(numerator: i64, denominator: i64) -> (r: Option<Fraction>)
        ensures
            r is Some <==> denominator > 0,
            r is Some ==> r->0 == (Fraction { numerator, denominator }),
    {
        if denominator > 0 {
            Some(Fraction { numerator, denominator })
        } else {
            None
        }
    }

    /// The integer `v` as a fraction.
    pub fn from_int(v: i32) -> (f: Fraction)
        ensures
            f == Fraction::whole(v as int),
            f.valid(),
    {
        Fraction { numerator: v as i64, denominator: 1 }
    }

    /// Whether the number is less than `bound`.
    pub fn is_below(&self, bound: i32) -> (r: bool)
        ensures
            r == self.below(bound as int),
    {
        let b: i128 = bound as i128;
        let d: i128 = self.denominator as i128;
        assert(-0x8000_0000 * 0x8000_0000_0000_0000 <= b * d <= 0x8000_0000 * 0x8000_0000_0000_0000)
            by (nonlinear_arith)
            requires
                -0x8000_0000 <= b <= 0x8000_0000,
                -0x8000_0000_0000_0000 <= d <= 0x8000_0000_0000_0000,
        ;
        (self.numerator as i128) < b * d
    }

    /// Whether the number is greater than `bound`.
    pub fn is_above(&self, bound: i32) -> (r: bool)
        ensures
            r == self.above(bound as int),
    {
        let b: i128 = bound as i128;
        let d: i128 = self.denominator as i128;
        assert(-0x8000_0000 * 0x8000_0000_0000_0000 <= b * d <= 0x8000_0000 * 0x8000_0000_0000_0000)
            by (nonlinear_arith)
            requires
                -0x8000_0000 <= b <= 0x8000_0000,
                -0x8000_0000_0000_0000 <= d <= 0x8000_0000_0000_0000,
        ;
        (self.numerator as i128) > b * d
    }

    /// Rounds toward zero, as a cast of a real number to an integer does.
    pub fn truncate(&self) -> (r: i32)
        ensures
            r == self.truncated(),
    {
        if self.denominator == 0 {
            0
        } else {
            saturate_wide(trunc_div_wide(self.numerator as i128, self.denominator as i128))
        }
    }
}

} // verus!
