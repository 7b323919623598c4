use vstd::prelude::*;

verus! {

/// An exact rational number, `num / den`.
///
/// Every value this crate returns has a positive denominator (`wf`), and the
/// operations reject inputs whose denominator is not positive. Two `Ratio`
/// values are equal only when their fields are equal: `1/2` and `2/4` stand
/// for the same rational but are distinct values, matching the structural
/// equality of the odds notations themselves.
#[derive(Clone, Copy, Debug, PartialEq, Eq, Structural)]
pub struct Ratio {
    pub num: i64,
    pub den: i64,
}

impl Ratio {
    /// A well-formed ratio keeps its denominator positive.
    pub open spec fn wf(self) -> bool {
        self.den > 0
    }

    /// The value is a probability strictly above zero and at most one.
    pub open spec fn is_probability(self) -> bool {
        0 < self.num <= self.den
    }

    pub fn new(num: i64, den: i64) -> (r: Ratio)
        ensures
            r.num == num,
            r.den == den,
    {
        Ratio { num, den }
    }
}

} // verus!
