use vstd::arithmetic::div_mod::{lemma_div_is_ordered, lemma_fundamental_div_mod_converse};
use vstd::prelude::*;

use crate::calculator::{OddsCalculator, OddsError};
use crate::ratio::Ratio;

verus! {

/// Betting odds in one of the three standard notations. Each variant stands
/// for an implied probability in (0, 1]; the payloads are exact rationals.
///
/// - `Decimal(v)`: total payout multiple per unit stake; valid for `v >= 1`
///   (`v == 1` is a certain outcome).
/// - `Fractional(n, d)`: net profit of `n` for every `d` staked; valid for
///   `n >= 0`, `d > 0`.
/// - `American(a)`: negative `a` marks a favorite (profit `100/|a|` per unit
///   stake), positive an underdog (profit `a/100`); valid for `a != 0`.
///
/// Equality is structural per variant: `Decimal(2/1)` and `Fractional(1/1, 1/1)`
/// imply the same probability but are distinct values.
#[derive(Clone, Copy, Debug, PartialEq, Eq, Structural)]
pub enum Odds {
    Decimal(Ratio),
    Fractional(Ratio, Ratio),
    American(Ratio),
}

impl Odds {
    /// The payloads are well-formed and inside the variant's valid domain,
    /// which makes the implied probability land in (0, 1].
    pub open spec fn valid(self) -> bool {
        match self {
            Odds::Decimal(v) => v.den > 0 && v.num >= v.den,
            Odds::Fractional(n, d) => n.den > 0 && d.den > 0 && n.num >= 0 && d.num > 0,
            Odds::American(a) => a.den > 0 && a.num != 0,
        }
    }

    /// Numerator of the implied probability, before any reduction:
    /// `Decimal(v)` implies `1/v`, `Fractional(n, d)` implies `d/(d + n)`
    /// (stake over stake plus profit), and `American(a)` implies
    /// `|a|/(|a| + 100)` for favorites, `100/(a + 100)` for underdogs.
    pub open spec fn prob_num(self) -> int {
        match self {
            Odds::Decimal(v) => v.den as int,
            Odds::Fractional(n, d) => d.num * n.den,
            Odds::American(a) => if a.num < 0 {
                -(a.num as int)
            } else {
                100 * (a.den as int)
            },
        }
    }

    /// Denominator of the implied probability; see `prob_num`.
    pub open spec fn prob_den(self) -> int {
        match self {
            Odds::Decimal(v) => v.num as int,
            Odds::Fractional(n, d) => d.num * n.den + n.num * d.den,
            Odds::American(a) => if a.num < 0 {
                -(a.num as int) + 100 * (a.den as int)
            } else {
                (a.num as int) + 100 * (a.den as int)
            },
        }
    }

    /// The implied probability's exact numerator and denominator both fit the
    /// fixed-width payload type.
    pub open spec fn prob_fits(self) -> bool {
        self.prob_num() <= i64::MAX && self.prob_den() <= i64::MAX
    }
}

impl Odds {
    /// The same odds in decimal notation: `Decimal(1/p)` for the implied
    /// probability `p`. The implied probability is preserved exactly
    /// (`lemma_to_decimal_preserves_probability`).
    pub fn to_decimal(&self) -> (r: Result<Odds, OddsError>)
        ensures
            r is Ok <==> self.valid() && self.prob_fits(),
            r matches Ok(o) ==> o matches Odds::Decimal(v)
                && v.num as int == self.prob_den()
                && v.den as int == self.prob_num(),
            !self.valid() ==> r == Err::<Odds, OddsError>(OddsError::InvalidOdds),
            self.valid() && !self.prob_fits() ==> r == Err::<Odds, OddsError>(OddsError::Overflow),
    {
        let c = OddsCalculator::new();
        match c.probability_from_odds(*self) {
            Ok(p) => Ok(Odds::Decimal(Ratio { num: p.den, den: p.num })),
            Err(e) => Err(e),
        }
    }

    /// The same odds in fractional notation: net profit over a stake of one,
    /// `Fractional(1/p - 1, 1)` for the implied probability `p`. The implied
    /// probability is preserved exactly
    /// (`lemma_to_fractional_preserves_probability`). The denominator is
    /// always one; reducing the result to a familiar small-integer ratio
    /// (such as 3/2 for 6/4) is a known limitation: this method deliberately
    /// does not reduce.
    pub fn to_fractional(&self) -> (r: Result<Odds, OddsError>)
        ensures
            r is Ok <==> self.valid() && self.prob_fits(),
            r matches Ok(o) ==> o matches Odds::Fractional(n, d)
                && n.num as int == self.prob_den() - self.prob_num()
                && n.den as int == self.prob_num()
                && d == (Ratio { num: 1i64, den: 1i64 }),
            !self.valid() ==> r == Err::<Odds, OddsError>(OddsError::InvalidOdds),
            self.valid() && !self.prob_fits() ==> r == Err::<Odds, OddsError>(OddsError::Overflow),
    {
        let c = OddsCalculator::new();
        match c.probability_from_odds(*self) {
            Ok(p) => Ok(
                Odds::Fractional(Ratio { num: p.den - p.num, den: p.num }, Ratio { num: 1, den: 1 }),
            ),
            Err(e) => Err(e),
        }
    }

    /// The same odds in American notation, the payload rounded to the nearest
    /// integer (halves away from zero): implied probabilities above one half
    /// are favorites, `American(-round(p/(1-p)*100))`; the rest — the
    /// boundary `p == 1/2` included — get `American(round((1-p)/p*100))`.
    /// A probability of exactly one has no American form (the favorite
    /// payload grows without bound) and is reported as `Overflow`.
    pub fn to_american(&self) -> (r: Result<Odds, OddsError>)
        ensures
            r is Ok <==> american_representable(*self),
            r matches Ok(o) ==> o matches Odds::American(a)
                && a.num as int == american_payload(self.prob_num(), self.prob_den())
                && a.den == 1i64,
            !self.valid() ==> r == Err::<Odds, OddsError>(OddsError::InvalidOdds),
            self.valid() && !american_representable(*self)
                ==> r == Err::<Odds, OddsError>(OddsError::Overflow),
    {
        let c = OddsCalculator::new();
        let p = match c.probability_from_odds(*self) {
            Ok(p) => p,
            Err(e) => {
                return Err(e);
            },
        };
        if p.num == p.den {
            return Err(OddsError::Overflow);
        }
        let pn: i128 = p.num as i128;
        let pd: i128 = p.den as i128;
        if 2 * pn > pd {
            let v = round_half_up_exec((100 * pn) as u128, (pd - pn) as u128);
            if v <= i64::MAX as u128 {
                Ok(Odds::American(Ratio { num: -(v as i64), den: 1 }))
            } else {
                Err(OddsError::Overflow)
            }
        } else {
            let v = round_half_up_exec((100 * (pd - pn)) as u128, pn as u128);
            if v <= i64::MAX as u128 {
                Ok(Odds::American(Ratio { num: v as i64, den: 1 }))
            } else {
                Err(OddsError::Overflow)
            }
        }
    }
}

/// For valid odds the implied probability is in (0, 1]: its exact fraction has
/// a positive numerator no larger than its denominator.
pub proof fn lemma_valid_prob_bounds(o: Odds)
    requires
        o.valid(),
    ensures
        0 < o.prob_num() <= o.prob_den(),
{
    match o {
        Odds::Decimal(v) => {},
        Odds::Fractional(n, d) => {
            assert(d.num * n.den >= 1) by (nonlinear_arith)
                requires
                    d.num >= 1,
                    n.den >= 1,
            ;
            assert(n.num * d.den >= 0) by (nonlinear_arith)
                requires
                    n.num >= 0,
                    d.den >= 1,
            ;
        },
        Odds::American(a) => {},
    }
}

/// The integer nearest to `a / b`, halves rounded away from zero; meaningful
/// for `a >= 0`, `b > 0`.
pub open spec fn round_half_up(a: int, b: int) -> int {
    (2 * a + b) / (2 * b)
}

/// The American payload implied by the probability `pn / pd`: probabilities
/// above one half are favorites and get a negative payload, the rest get a
/// positive one; meaningful for `0 < pn < pd`.
pub open spec fn american_payload(pn: int, pd: int) -> int {
    if 2 * pn > pd {
        -round_half_up(100 * pn, pd - pn)
    } else {
        round_half_up(100 * (pd - pn), pn)
    }
}

/// The implied probability is representable, strictly below one (a certain
/// outcome has no American notation), and the rounded payload fits.
pub open spec fn american_representable(o: Odds) -> bool {
    &&& o.valid()
    &&& o.prob_fits()
    &&& o.prob_num() < o.prob_den()
    &&& -(i64::MAX as int) <= american_payload(o.prob_num(), o.prob_den()) <= i64::MAX as int
}

/// Rounding `a / b` to the nearest integer never loses more than the
/// ordering against an exact multiple: if `a >= c * b` for `c >= 0`, the
/// rounded quotient is at least `c`.
pub proof fn lemma_round_half_up_at_least(a: int, b: int, c: int)
    requires
        b > 0,
        c >= 0,
        a >= c * b,
    ensures
        round_half_up(a, b) >= c,
{
    lemma_fundamental_div_mod_converse(c * (2 * b) + b, 2 * b, c, b);
    assert(c * (2 * b) + b <= 2 * a + b) by (nonlinear_arith)
        requires
            a >= c * b,
    ;
    lemma_div_is_ordered(c * (2 * b) + b, 2 * a + b, 2 * b);
}

/// Exact rounding helper: nearest integer to `a / b`, halves rounded up.
fn round_half_up_exec(a: u128, b: u128) -> (r: u128)
    requires
        b > 0,
        a <= 0xffff_ffff_ffff_ffff_ffff,
        b <= 0xffff_ffff_ffff_ffff_ffff,
    ensures
        r == round_half_up(a as int, b as int),
{
    (2 * a + b) / (2 * b)
}

} // verus!
