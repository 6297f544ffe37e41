//! Sums over the position ledger, and the arithmetic facts behind
//! pro-rata payouts.
//!
//! A market's running totals, the amounts already claimed, and the value
//! already paid out are all sums over the one sequence of positions.  The
//! lemmas here say how each sum moves when a position is appended or
//! replaced, and bound the payouts a market can ever issue by its pool.

use vstd::prelude::*;
use crate::prediction_market::{Market, Prediction};
use vstd::arithmetic::div_mod::{
    lemma_div_is_ordered, lemma_div_multiples_vanish, lemma_fundamental_div_mod,
};
use vstd::arithmetic::mul::{
    lemma_mul_inequality, lemma_mul_inequality_converse, lemma_mul_is_commutative,
    lemma_mul_is_distributive_add_other_way,
};

verus! {

/// The whole pool a market escrows: everything staked on either side.
pub open spec fn pool(m: Market) -> int {
    m.total_yes_stake + m.total_no_stake
}

/// The total staked on the side that won.  Meaningful only once the
/// market is settled.
pub open spec fn winning_pool(m: Market) -> int {
    if m.outcome {
        m.total_yes_stake as int
    } else {
        m.total_no_stake as int
    }
}

/// The pro-rata payout a position is owed from a settled market:
/// `floor(amount * pool / winning_pool)`.
pub open spec fn payout_of(p: Prediction, m: Market) -> int {
    if winning_pool(m) > 0 {
        p.amount * pool(m) / winning_pool(m)
    } else {
        0
    }
}

/// What one position adds to a market's running total for one side.
pub open spec fn stake_contrib(p: Prediction, mid: int, yes: bool) -> int {
    if p.market == mid && p.predict_yes == yes {
        p.amount as int
    } else {
        0
    }
}

/// The sum of all stake placed on one side of one market.
pub open spec fn side_total(ps: Seq<Prediction>, mid: int, yes: bool) -> int
    decreases ps.len(),
{
    if ps.len() == 0 {
        0
    } else {
        side_total(ps.drop_last(), mid, yes) + stake_contrib(ps.last(), mid, yes)
    }
}

/// What one position adds to the claimed stake of one side of one market.
pub open spec fn claimed_contrib(p: Prediction, mid: int, yes: bool) -> int {
    if p.market == mid && p.predict_yes == yes && p.claimed {
        p.amount as int
    } else {
        0
    }
}

/// The sum of the amounts of already-claimed positions on one side of one
/// market.
pub open spec fn claimed_total(ps: Seq<Prediction>, mid: int, yes: bool) -> int
    decreases ps.len(),
{
    if ps.len() == 0 {
        0
    } else {
        claimed_total(ps.drop_last(), mid, yes) + claimed_contrib(ps.last(), mid, yes)
    }
}

/// What one position adds to the value already paid out by one market.
pub open spec fn paid_contrib(p: Prediction, mid: int, m: Market) -> int {
    if p.market == mid && p.claimed {
        payout_of(p, m)
    } else {
        0
    }
}

/// The sum of every payout one market has issued so far.
pub open spec fn paid_total(ps: Seq<Prediction>, mid: int, m: Market) -> int
    decreases ps.len(),
{
    if ps.len() == 0 {
        0
    } else {
        paid_total(ps.drop_last(), mid, m) + paid_contrib(ps.last(), mid, m)
    }
}

/// Appending a position moves each sum by exactly that position's
/// contribution.
pub proof fn lemma_sums_push(ps: Seq<Prediction>, p: Prediction, mid: int, yes: bool, m: Market)
    ensures
        side_total(ps.push(p), mid, yes) == side_total(ps, mid, yes) + stake_contrib(p, mid, yes),
        claimed_total(ps.push(p), mid, yes) == claimed_total(ps, mid, yes) + claimed_contrib(
            p,
            mid,
            yes,
        ),
        paid_total(ps.push(p), mid, m) == paid_total(ps, mid, m) + paid_contrib(p, mid, m),
{
    assert(ps.push(p).drop_last() =~= ps);
}

/// Replacing the position at `i` moves each sum by the difference of the
/// two positions' contributions.
pub proof fn lemma_sums_update(
    ps: Seq<Prediction>,
    i: int,
    p2: Prediction,
    mid: int,
    yes: bool,
    m: Market,
)
    requires
        0 <= i < ps.len(),
    ensures
        side_total(ps.update(i, p2), mid, yes) == side_total(ps, mid, yes) - stake_contrib(
            ps[i],
            mid,
            yes,
        ) + stake_contrib(p2, mid, yes),
        claimed_total(ps.update(i, p2), mid, yes) == claimed_total(ps, mid, yes) - claimed_contrib(
            ps[i],
            mid,
            yes,
        ) + claimed_contrib(p2, mid, yes),
        paid_total(ps.update(i, p2), mid, m) == paid_total(ps, mid, m) - paid_contrib(ps[i], mid, m)
            + paid_contrib(p2, mid, m),
    decreases ps.len(),
{
    if i == ps.len() - 1 {
        assert(ps.update(i, p2).drop_last() =~= ps.drop_last());
        assert(ps.update(i, p2).last() == p2);
    } else {
        assert(ps.update(i, p2).drop_last() =~= ps.drop_last().update(i, p2));
        assert(ps.update(i, p2).last() == ps.last());
        lemma_sums_update(ps.drop_last(), i, p2, mid, yes, m);
    }
}

/// Every sum over the ledger is nonnegative.
pub proof fn lemma_sums_nonneg(ps: Seq<Prediction>, mid: int, yes: bool, m: Market)
    ensures
        side_total(ps, mid, yes) >= 0,
        claimed_total(ps, mid, yes) >= 0,
        paid_total(ps, mid, m) >= 0,
    decreases ps.len(),
{
    if ps.len() > 0 {
        lemma_sums_nonneg(ps.drop_last(), mid, yes, m);
        if paid_contrib(ps.last(), mid, m) != 0 {
            lemma_payout_nonneg(ps.last(), m);
        }
    }
}

proof fn lemma_payout_nonneg(p: Prediction, m: Market)
    ensures
        payout_of(p, m) >= 0,
{
    if winning_pool(m) > 0 {
        vstd::arithmetic::div_mod::lemma_div_pos_is_pos(p.amount * pool(m), winning_pool(m));
        vstd::arithmetic::mul::lemma_mul_nonnegative(p.amount as int, pool(m));
    }
}

/// A market that no claimed position references has claimed and paid
/// nothing, whatever the market record itself says.
pub proof fn lemma_sums_unclaimed_zero(ps: Seq<Prediction>, mid: int, yes: bool, m: Market)
    requires
        forall|k: int| 0 <= k < ps.len() && #[trigger] ps[k].market == mid ==> !ps[k].claimed,
    ensures
        claimed_total(ps, mid, yes) == 0,
        paid_total(ps, mid, m) == 0,
    decreases ps.len(),
{
    if ps.len() > 0 {
        assert(ps.last() == ps[ps.len() - 1]);
        assert(forall|k: int|
            0 <= k < ps.drop_last().len() && #[trigger] ps.drop_last()[k].market == mid
                ==> !ps.drop_last()[k].claimed);
        lemma_sums_unclaimed_zero(ps.drop_last(), mid, yes, m);
    }
}

/// A market that no position references at all has zero stake on either
/// side.
pub proof fn lemma_side_total_absent_zero(ps: Seq<Prediction>, mid: int, yes: bool)
    requires
        forall|k: int| 0 <= k < ps.len() ==> #[trigger] ps[k].market != mid,
    ensures
        side_total(ps, mid, yes) == 0,
    decreases ps.len(),
{
    if ps.len() > 0 {
        assert(ps.last() == ps[ps.len() - 1]);
        lemma_side_total_absent_zero(ps.drop_last(), mid, yes);
    }
}

/// The claimed stake of a side never exceeds the stake of that side.
pub proof fn lemma_claimed_le_side(ps: Seq<Prediction>, mid: int, yes: bool)
    ensures
        claimed_total(ps, mid, yes) <= side_total(ps, mid, yes),
    decreases ps.len(),
{
    if ps.len() > 0 {
        lemma_claimed_le_side(ps.drop_last(), mid, yes);
    }
}

/// The claimed stake of a side, plus the stake of any one still-unclaimed
/// position on that side, still fits inside the side's total.
pub proof fn lemma_claimed_plus_unclaimed_le_side(ps: Seq<Prediction>, i: int, mid: int, yes: bool)
    requires
        0 <= i < ps.len(),
        ps[i].market == mid,
        ps[i].predict_yes == yes,
        !ps[i].claimed,
    ensures
        claimed_total(ps, mid, yes) + ps[i].amount <= side_total(ps, mid, yes),
    decreases ps.len(),
{
    if i == ps.len() - 1 {
        lemma_claimed_le_side(ps.drop_last(), mid, yes);
        assert(ps.last() == ps[i]);
    } else {
        assert(ps.drop_last()[i] == ps[i]);
        lemma_claimed_plus_unclaimed_le_side(ps.drop_last(), i, mid, yes);
    }
}

/// The payout of one position is bounded by the whole pool whenever the
/// position's stake fits inside the winning side.
pub proof fn lemma_payout_le_pool(p: Prediction, m: Market)
    requires
        winning_pool(m) > 0,
        p.amount <= winning_pool(m),
    ensures
        0 <= payout_of(p, m) <= pool(m),
{
    let t = pool(m);
    let w = winning_pool(m);
    lemma_payout_nonneg(p, m);
    lemma_mul_inequality(p.amount as int, w, t);
    lemma_mul_is_commutative(p.amount as int, t);
    lemma_mul_is_commutative(w, t);
    lemma_div_is_ordered(p.amount * t, w * t, w);
    lemma_div_multiples_vanish(t, w);
}

/// The payout owed to one more winner still fits beside everything the
/// market has paid so far: together they stay within the pool.
///
/// The paid-out sum is tracked through the scaled inequality
/// `winning_pool * paid_total <= claimed_total * pool`, which this lemma
/// both consumes and re-establishes for the claim about to happen.
pub proof fn lemma_next_payout_fits(ps: Seq<Prediction>, i: int, m: Market)
    requires
        0 <= i < ps.len(),
        m.is_settled,
        !ps[i].claimed,
        ps[i].predict_yes == m.outcome,
        ps[i].amount > 0,
        side_total(ps, ps[i].market as int, m.outcome) == winning_pool(m),
        winning_pool(m) * paid_total(ps, ps[i].market as int, m) <= claimed_total(
            ps,
            ps[i].market as int,
            m.outcome,
        ) * pool(m),
    ensures
        winning_pool(m) > 0,
        paid_total(ps, ps[i].market as int, m) + payout_of(ps[i], m) <= pool(m),
        winning_pool(m) * (paid_total(ps, ps[i].market as int, m) + payout_of(ps[i], m)) <= (
        claimed_total(ps, ps[i].market as int, m.outcome) + ps[i].amount) * pool(m),
{
    let mid = ps[i].market as int;
    let t = pool(m);
    let w = winning_pool(m);
    let a = ps[i].amount as int;
    let paid = paid_total(ps, mid, m);
    let claimed = claimed_total(ps, mid, m.outcome);

    lemma_sums_nonneg(ps, mid, m.outcome, m);
    lemma_claimed_plus_unclaimed_le_side(ps, i, mid, m.outcome);
    // claimed + a <= side_total == w, so w > 0.
    assert(w > 0);

    let q = payout_of(ps[i], m);
    // w * q <= a * t, since q == (a * t) / w.
    lemma_fundamental_div_mod(a * t, w);
    vstd::arithmetic::div_mod::lemma_mod_bound(a * t, w);
    vstd::arithmetic::mul::lemma_mul_nonnegative(a, t);
    assert(w * q <= a * t);

    // Scale the running inequality up by one more payout.
    assert(w * (paid + q) == w * paid + w * q) by {
        vstd::arithmetic::mul::lemma_mul_is_distributive_add(w, paid, q);
    }
    assert((claimed + a) * t == claimed * t + a * t) by {
        lemma_mul_is_distributive_add_other_way(t, claimed, a);
        lemma_mul_is_commutative(t, claimed + a);
        lemma_mul_is_commutative(t, claimed);
        lemma_mul_is_commutative(t, a);
    }
    assert(w * (paid + q) <= (claimed + a) * t);

    // claimed + a <= w, so (claimed + a) * t <= w * t, and dividing the
    // scaled inequality by w bounds paid + q by t.
    lemma_mul_inequality(claimed + a, w, t);
    lemma_mul_is_commutative(claimed + a, t);
    lemma_mul_is_commutative(w, t);
    assert(w * (paid + q) <= w * t);
    lemma_mul_inequality_converse(paid + q, t, w);
}

} // verus!
