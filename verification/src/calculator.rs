use vstd::prelude::*;

use crate::odds::{lemma_valid_prob_bounds, Odds};
use crate::ratio::Ratio;

verus! {

/// Why an operation could not produce a value. The odds functions are guarded
/// rather than total: an input outside its mathematical domain, or an exact
/// result that does not fit the fixed-width rational representation, is
/// reported instead of being mapped to an arbitrary in-range value.
#[derive(Clone, Copy, Debug, PartialEq, Eq, Structural)]
pub enum OddsError {
    /// A probability outside (0, 1], or one with a non-positive denominator.
    InvalidProbability,
    /// An odds value outside its variant's valid domain.
    InvalidOdds,
    /// A stake with a non-positive denominator.
    InvalidStake,
    /// The exact result does not fit the fixed-width representation.
    Overflow,
}

/// The decimal odds implied by the probability `p`: the reciprocal `1/p`.
pub open spec fn decimal_for_probability(p: Ratio) -> Odds {
    Odds::Decimal(Ratio { num: p.den, den: p.num })
}

/// Numerator of the exact expected return `stake / p`, where `p` is the
/// probability implied by the odds: total payout, stake plus profit.
pub open spec fn return_num(stake: Ratio, odds: Odds) -> int {
    stake.num * odds.prob_den()
}

/// Denominator of the exact expected return; see `return_num`.
pub open spec fn return_den(stake: Ratio, odds: Odds) -> int {
    stake.den * odds.prob_num()
}

/// The exact expected return fits the fixed-width payload type.
pub open spec fn return_fits(stake: Ratio, odds: Odds) -> bool {
    &&& i64::MIN <= return_num(stake, odds) <= i64::MAX
    &&& return_den(stake, odds) <= i64::MAX
}

/// Stateless odds calculator: the sole home of the conversion formulas. The
/// conversion methods on `Odds` delegate to it.
pub struct OddsCalculator;

impl OddsCalculator {
    pub fn new() -> OddsCalculator {
        OddsCalculator
    }

    /// The odds implied by a probability, in decimal notation: `1/chance`.
    /// Rejects anything outside (0, 1].
    pub fn odds_from_probability(&self, chance: Ratio) -> (r: Result<Odds, OddsError>)
        ensures
            r is Ok <==> chance.is_probability(),
            chance.is_probability() ==> r == Ok::<Odds, OddsError>(decimal_for_probability(chance)),
            !chance.is_probability() ==> r == Err::<Odds, OddsError>(OddsError::InvalidProbability),
    {
        if chance.num > 0 && chance.num <= chance.den {
            Ok(Odds::Decimal(Ratio { num: chance.den, den: chance.num }))
        } else {
            Err(OddsError::InvalidProbability)
        }
    }

    /// The implied probability of an odds value, as the exact fraction
    /// `prob_num / prob_den`. Succeeds exactly on valid odds whose fraction
    /// fits the payload type; the result is a probability in (0, 1].
    pub fn probability_from_odds(&self, odds: Odds) -> (r: Result<Ratio, OddsError>)
        ensures
            r is Ok <==> odds.valid() && odds.prob_fits(),
            r matches Ok(p) ==> {
                &&& p.num as int == odds.prob_num()
                &&& p.den as int == odds.prob_den()
                &&& p.is_probability()
            },
            !odds.valid() ==> r == Err::<Ratio, OddsError>(OddsError::InvalidOdds),
            odds.valid() && !odds.prob_fits() ==> r == Err::<Ratio, OddsError>(OddsError::Overflow),
    {
        proof {
            if odds.valid() {
                lemma_valid_prob_bounds(odds);
            }
        }
        match odds {
            Odds::Decimal(v) => {
                if v.den > 0 && v.num >= v.den {
                    Ok(Ratio { num: v.den, den: v.num })
                } else {
                    Err(OddsError::InvalidOdds)
                }
            },
            Odds::Fractional(n, d) => {
                if n.den > 0 && d.den > 0 && n.num >= 0 && d.num > 0 {
                    proof {
                        assert(1 <= (d.num as int) * (n.den as int)
                            <= 0x7fff_ffff_ffff_ffff * 0x7fff_ffff_ffff_ffff) by (nonlinear_arith)
                            requires
                                1 <= d.num <= 0x7fff_ffff_ffff_ffff,
                                1 <= n.den <= 0x7fff_ffff_ffff_ffff,
                        ;
                        assert(0 <= (n.num as int) * (d.den as int)
                            <= 0x7fff_ffff_ffff_ffff * 0x7fff_ffff_ffff_ffff) by (nonlinear_arith)
                            requires
                                0 <= n.num <= 0x7fff_ffff_ffff_ffff,
                                1 <= d.den <= 0x7fff_ffff_ffff_ffff,
                        ;
                    }
                    let pn: i128 = (d.num as i128) * (n.den as i128);
                    let pd: i128 = pn + (n.num as i128) * (d.den as i128);
                    if pn <= i64::MAX as i128 && pd <= i64::MAX as i128 {
                        Ok(Ratio { num: pn as i64, den: pd as i64 })
                    } else {
                        Err(OddsError::Overflow)
                    }
                } else {
                    Err(OddsError::InvalidOdds)
                }
            },
            Odds::American(a) => {
                if a.den > 0 && a.num != 0 {
                    if a.num < 0 {
                        let pn: i128 = -(a.num as i128);
                        let pd: i128 = pn + 100 * (a.den as i128);
                        if pd <= i64::MAX as i128 {
                            Ok(Ratio { num: pn as i64, den: pd as i64 })
                        } else {
                            Err(OddsError::Overflow)
                        }
                    } else {
                        let pn: i128 = 100 * (a.den as i128);
                        let pd: i128 = (a.num as i128) + pn;
                        if pd <= i64::MAX as i128 {
                            Ok(Ratio { num: pn as i64, den: pd as i64 })
                        } else {
                            Err(OddsError::Overflow)
                        }
                    }
                } else {
                    Err(OddsError::InvalidOdds)
                }
            },
        }
    }

    /// Expected total payout (stake plus profit) of a winning bet: exactly
    /// `stake / p` for the implied probability `p`, which per variant is the
    /// usual formula — `stake * v` for `Decimal(v)`, `stake * (d + n) / d`
    /// for `Fractional(n, d)`, `stake * (|a| + 100) / |a|` for a favorite and
    /// `stake * (a + 100) / 100` for an underdog `American(a)`.
    pub fn expected_return(&self, stake: Ratio, odds: Odds) -> (r: Result<Ratio, OddsError>)
        ensures
            r is Ok <==> stake.wf() && odds.valid() && odds.prob_fits() && return_fits(stake, odds),
            r matches Ok(v) ==> {
                &&& v.num as int == return_num(stake, odds)
                &&& v.den as int == return_den(stake, odds)
                &&& v.wf()
            },
            !stake.wf() ==> r == Err::<Ratio, OddsError>(OddsError::InvalidStake),
            stake.wf() && !odds.valid() ==> r == Err::<Ratio, OddsError>(OddsError::InvalidOdds),
            stake.wf() && odds.valid() && !(odds.prob_fits() && return_fits(stake, odds))
                ==> r == Err::<Ratio, OddsError>(OddsError::Overflow),
    {
        if stake.den <= 0 {
            return Err(OddsError::InvalidStake);
        }
        let p = match self.probability_from_odds(odds) {
            Ok(p) => p,
            Err(e) => {
                return Err(e);
            },
        };
        proof {
            assert(-(0x7fff_ffff_ffff_ffff * 0x8000_0000_0000_0000)
                <= (stake.num as int) * (p.den as int)
                <= 0x7fff_ffff_ffff_ffff * 0x7fff_ffff_ffff_ffff) by (nonlinear_arith)
                requires
                    -0x8000_0000_0000_0000 <= stake.num <= 0x7fff_ffff_ffff_ffff,
                    1 <= p.den <= 0x7fff_ffff_ffff_ffff,
            ;
            assert(1 <= (stake.den as int) * (p.num as int)
                <= 0x7fff_ffff_ffff_ffff * 0x7fff_ffff_ffff_ffff) by (nonlinear_arith)
                requires
                    1 <= stake.den <= 0x7fff_ffff_ffff_ffff,
                    1 <= p.num <= 0x7fff_ffff_ffff_ffff,
            ;
        }
        let rn: i128 = (stake.num as i128) * (p.den as i128);
        let rd: i128 = (stake.den as i128) * (p.num as i128);
        if i64::MIN as i128 <= rn && rn <= i64::MAX as i128 && rd <= i64::MAX as i128 {
            Ok(Ratio { num: rn as i64, den: rd as i64 })
        } else {
            Err(OddsError::Overflow)
        }
    }
}

} // verus!
