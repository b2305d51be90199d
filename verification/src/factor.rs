use vstd::prelude::*;

verus! {

/// A non-negative ratio `numerator / denominator`, by which a time of day is
/// scaled. A ratio of at most one is a blend weight.
#[derive(Debug, Clone, Copy)]
pub struct Factor {
    numerator: u32,
    denominator: u32,
}

impl Factor {
    /// The numerator of the ratio.
    pub closed spec fn num(self) -> int {
        self.numerator as int
    }

    /// The denominator of the ratio.
    pub closed spec fn den(self) -> int {
        self.denominator as int
    }

    /// The numerator is not negative, and the denominator is positive.
    pub open spec fn wf(self) -> bool {
        0 <= self.num() && 0 < self.den()
    }

    /// The ratio lies in `[0, 1]`.
    pub open spec fn is_blend(self) -> bool {
        self.wf() && self.num() <= self.den()
    }

    /// `amount` times the ratio, truncated toward zero.
    pub open spec fn scale(self, amount: int) -> int {
        (amount * self.num()) / self.den()
    }

    /// `amount` divided by the ratio, truncated toward zero.
    pub open spec fn unscale(self, amount: int) -> int {
        (amount * self.den()) / self.num()
    }

    /// The ratio `numerator / denominator`.
    pub fn new(numerator: u32, denominator: u32) -> (factor: Self)
        requires
            denominator > 0,
        ensures
            factor.wf(),
            factor.num() == numerator,
            factor.den() == denominator,
    {
        Factor { numerator, denominator }
    }

    /// The weight that takes nothing of the second place.
    pub fn zero() -> (factor: Self)
        ensures
            factor.wf(),
            factor.num() == 0,
            factor.den() == 1,
    {
        Factor { numerator: 0, denominator: 1 }
    }

    /// The weight that takes everything of the second place.
    pub fn one() -> (factor: Self)
        ensures
            factor.wf(),
            factor.num() == 1,
            factor.den() == 1,
    {
        Factor { numerator: 1, denominator: 1 }
    }

    /// The numerator of the ratio.
    pub fn numerator(&self) -> (n: u32)
        ensures
            n == self.num(),
    {
        self.numerator
    }

    /// The denominator of the ratio.
    pub fn denominator(&self) -> (d: u32)
        ensures
            d == self.den(),
    {
        self.denominator
    }

    /// Whether the ratio is zero.
    pub fn is_zero(&self) -> (b: bool)
        ensures
            b == (self.num() == 0),
    {
        self.numerator == 0
    }

    /// Whether the ratio is one.
    pub fn is_one(&self) -> (b: bool)
        ensures
            b == (self.num() == self.den()),
    {
        self.numerator == self.denominator
    }

    /// Whether the ratio is at most one.
    pub fn at_most_one(&self) -> (b: bool)
        ensures
            b == (self.num() <= self.den()),
    {
        self.numerator <= self.denominator
    }

    /// One minus the ratio.
    pub fn complement(&self) -> (factor: Self)
        requires
            self.is_blend(),
        ensures
            factor.is_blend(),
            factor.num() == self.den() - self.num(),
            factor.den() == self.den(),
    {
        Factor { numerator: self.denominator - self.numerator, denominator: self.denominator }
    }
}

} // verus!
