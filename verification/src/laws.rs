use vstd::arithmetic::div_mod::{lemma_fundamental_div_mod, lemma_fundamental_div_mod_converse};
use vstd::prelude::*;

use crate::calculator::decimal_for_probability;
use crate::odds::{
    american_payload, american_representable, lemma_round_half_up_at_least,
    lemma_valid_prob_bounds, Odds,
};
use crate::ratio::Ratio;

verus! {

/// Round trip: converting a probability to odds and back gives exactly the
/// same probability. `odds_from_probability` returns
/// `decimal_for_probability(p)`, and `probability_from_odds` on that value
/// returns a ratio with exactly the fields of `p`.
pub proof fn lemma_probability_round_trip(p: Ratio)
    requires
        p.is_probability(),
    ensures
        decimal_for_probability(p).valid(),
        decimal_for_probability(p).prob_fits(),
        decimal_for_probability(p).prob_num() == p.num as int,
        decimal_for_probability(p).prob_den() == p.den as int,
{
}

/// Cross-format consistency, decimal: the decimal form that `to_decimal`
/// returns for valid odds `o` — payload `prob_den(o) / prob_num(o)` — is
/// itself valid and has exactly the same implied probability as `o`.
pub proof fn lemma_to_decimal_preserves_probability(o: Odds, r: Odds)
    requires
        o.valid(),
        o.prob_fits(),
        r matches Odds::Decimal(v)
            && v.num as int == o.prob_den()
            && v.den as int == o.prob_num(),
    ensures
        r.valid(),
        r.prob_fits(),
        r.prob_num() == o.prob_num(),
        r.prob_den() == o.prob_den(),
{
    lemma_valid_prob_bounds(o);
}

/// Cross-format consistency, fractional: the fractional form that
/// `to_fractional` returns for valid odds `o` — net profit
/// `(prob_den(o) - prob_num(o)) / prob_num(o)` over a stake of one — is
/// itself valid and has exactly the same implied probability as `o`.
pub proof fn lemma_to_fractional_preserves_probability(o: Odds, r: Odds)
    requires
        o.valid(),
        o.prob_fits(),
        r matches Odds::Fractional(n, d)
            && n.num as int == o.prob_den() - o.prob_num()
            && n.den as int == o.prob_num()
            && d == (Ratio { num: 1i64, den: 1i64 }),
    ensures
        r.valid(),
        r.prob_fits(),
        r.prob_num() == o.prob_num(),
        r.prob_den() == o.prob_den(),
{
    lemma_valid_prob_bounds(o);
}

/// Even-money boundary: odds whose implied probability is exactly one half
/// sit on the underdog side and convert to an American payload of exactly
/// positive 100, so `to_american` returns `Ok(American(100/1))`.
pub proof fn lemma_even_money_american(o: Odds)
    requires
        o.valid(),
        o.prob_fits(),
        o.prob_den() == 2 * o.prob_num(),
    ensures
        american_representable(o),
        american_payload(o.prob_num(), o.prob_den()) == 100,
{
    let pn = o.prob_num();
    lemma_valid_prob_bounds(o);
    vstd::arithmetic::div_mod::lemma_fundamental_div_mod_converse(
        2 * (100 * pn) + pn,
        2 * pn,
        100,
        pn,
    );
}

/// Cross-format consistency, American: when the payload division in
/// `to_american` leaves no remainder — so rounding discards nothing — the
/// American form is valid and has exactly the same implied probability as
/// `o`, stated by cross multiplication of the two fractions. (When the
/// division does leave a remainder, rounding the payload to an integer moves
/// the implied probability; the conversion is then only approximate.)
pub proof fn lemma_to_american_preserves_probability_when_exact(o: Odds, r: Odds)
    requires
        o.valid(),
        o.prob_fits(),
        o.prob_num() < o.prob_den(),
        2 * o.prob_num() > o.prob_den()
            ==> (100 * o.prob_num()) % (o.prob_den() - o.prob_num()) == 0,
        2 * o.prob_num() <= o.prob_den()
            ==> (100 * (o.prob_den() - o.prob_num())) % o.prob_num() == 0,
        r matches Odds::American(a)
            && a.num as int == american_payload(o.prob_num(), o.prob_den())
            && a.den == 1i64,
    ensures
        r.valid(),
        r.prob_num() * o.prob_den() == o.prob_num() * r.prob_den(),
{
    let pn = o.prob_num();
    let pd = o.prob_den();
    lemma_valid_prob_bounds(o);
    lemma_american_sign(o);
    if 2 * pn > pd {
        let b = pd - pn;
        let q = (100 * pn) / b;
        lemma_fundamental_div_mod(100 * pn, b);
        assert(2 * (q * b) == q * (2 * b)) by (nonlinear_arith);
        lemma_fundamental_div_mod_converse(q * (2 * b) + b, 2 * b, q, b);
        assert(american_payload(pn, pd) == -q);
        assert(q * pd == pn * (q + 100)) by (nonlinear_arith)
            requires
                100 * pn == q * (pd - pn),
        ;
    } else {
        let b = pn;
        let q = (100 * (pd - pn)) / b;
        lemma_fundamental_div_mod(100 * (pd - pn), b);
        assert(2 * (q * b) == q * (2 * b)) by (nonlinear_arith);
        lemma_fundamental_div_mod_converse(q * (2 * b) + b, 2 * b, q, b);
        assert(american_payload(pn, pd) == q);
        assert(100 * pd == pn * (q + 100)) by (nonlinear_arith)
            requires
                100 * (pd - pn) == q * pn,
        ;
    }
}

/// Favorite/underdog sign: for valid odds with implied probability strictly
/// below one, a probability above one half gives a negative American payload
/// (at most -100), and a probability of one half or below gives a positive
/// one (at least +100).
pub proof fn lemma_american_sign(o: Odds)
    requires
        o.valid(),
        o.prob_fits(),
        o.prob_num() < o.prob_den(),
    ensures
        2 * o.prob_num() > o.prob_den()
            ==> american_payload(o.prob_num(), o.prob_den()) <= -100,
        2 * o.prob_num() <= o.prob_den()
            ==> american_payload(o.prob_num(), o.prob_den()) >= 100,
{
    let pn = o.prob_num();
    let pd = o.prob_den();
    lemma_valid_prob_bounds(o);
    if 2 * pn > pd {
        lemma_round_half_up_at_least(100 * pn, pd - pn, 100);
    } else {
        lemma_round_half_up_at_least(100 * (pd - pn), pn, 100);
    }
}

} // verus!
