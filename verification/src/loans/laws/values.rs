//! What rates, debts and deposits come to, in terms of what is stored and of the
//! oracle's prices.

use vstd::prelude::*;
use crate::arithmetic::{capped, fixed_div, fixed_mul, is_floor, law_fixed_product};
use crate::arithmetic::{law_fixed_quotient, law_part, lemma_floor_is_unique, lemma_part_fits};
use crate::arithmetic::{part_floor, DIV, PERMILL};
use crate::loans::laws::lemma_active_once;
use crate::loans::supply::signed_market_refusal;
use crate::loans::totals::{holds_total, lemma_total_change, lemma_total_same};
use crate::loans::totals::{lemma_values_are_totals, total, Values};
use crate::loans::valuation::{overflow, price_of, underlying_of, vouchers_of};
use crate::loans::{BorrowSnapshot, Deposits, Error, Market, PriceDetail, State};
use crate::primitives::{AccountId, Balance, CurrencyId, Origin, Rate, Refusal};

verus! {

/// What is read of a currency or an account is what is stored for it, or nought.
pub proof fn law_reads_what_is_stored<M>(s: State<M>, c: CurrencyId, who: AccountId)
    ensures
        s.total_supply.contains_key(c) ==> s.supply(c) == s.total_supply[c],
        !s.total_supply.contains_key(c) ==> s.supply(c) == 0,
        s.total_borrows.contains_key(c) ==> s.borrows(c) == s.total_borrows[c],
        !s.total_borrows.contains_key(c) ==> s.borrows(c) == 0,
        s.total_reserves.contains_key(c) ==> s.reserves(c) == s.total_reserves[c],
        !s.total_reserves.contains_key(c) ==> s.reserves(c) == 0,
        s.exchange_rate.contains_key(c) ==> s.rate(c) == s.exchange_rate[c],
        !s.exchange_rate.contains_key(c) ==> s.rate(c).inner == 0,
        s.borrow_index.contains_key(c) ==> s.index(c) == s.borrow_index[c],
        !s.borrow_index.contains_key(c) ==> s.index(c).inner == 0,
        s.account_borrows.contains_key((c, who)) ==> s.snapshot(c, who) == s.account_borrows[(
            c,
            who,
        )],
        !s.account_borrows.contains_key((c, who)) ==> s.snapshot(c, who).principal == 0,
        s.account_deposits.contains_key((c, who)) ==> s.deposits(c, who) == s.account_deposits[(
            c,
            who,
        )],
        !s.account_deposits.contains_key((c, who)) ==> s.deposits(c, who) == (Deposits {
            voucher_balance: 0,
            is_collateral: false,
        }),
        s.account_earned.contains_key((c, who)) ==> s.earned(c, who) == s.account_earned[(c, who)],
        !s.account_earned.contains_key((c, who)) ==> s.earned(c, who).total_earned_prior == 0
            && s.earned(c, who).exchange_rate_prior.inner == 0,
{
}

/// A price is the one that the oracle has for the very currency, and nought is none.
pub proof fn law_price_is_the_oracles(feed: Map<CurrencyId, PriceDetail>, c: CurrencyId)
    ensures
        price_of(feed, c) is None <==> !feed.contains_key(c) || feed[c].price.inner == 0,
        price_of(feed, c) matches Some(price) ==> price == feed[c].price.inner,
{
}

/// The list of active markets names each market once that is active, and no other.
pub proof fn law_active_markets_are_listed_once<M>(s: State<M>, c: CurrencyId)
    requires
        s.walks_markets_once(),
    ensures
        s.active_currencies().no_duplicates(),
        s.active_currencies().contains(c) <==> s.markets.contains_key(c)
            && s.markets[c].state is Active,
{
    lemma_active_once(s, c);
}

/// Dispatches on a market are for signers, and for markets that are active.
pub proof fn law_only_active_markets_are_used<M>(s: State<M>, origin: Origin, c: CurrencyId)
    ensures
        signed_market_refusal(s, origin, c) == (match origin {
            Origin::Signed(_) => if s.markets.contains_key(c) && s.markets[c].state is Active {
                None
            } else {
                Some(Refusal::Loans(Error::MarketNotActivated))
            },
            _ => Some(Refusal::BadOrigin),
        }),
{
}

/// Internal supplies are worth as much of the underlying asset as the exchange
/// rate says, and the other way round, rounded down each.
pub proof fn law_exchange_follows_the_rate(amount: Balance, rate: Rate)
    ensures
        underlying_of(amount, rate) matches Some(u) ==> is_floor(
            u as int,
            rate.inner * amount,
            DIV as int,
        ),
        underlying_of(amount, rate) is None <==> rate.inner * amount >= (u128::MAX + 1) * DIV,
        vouchers_of(amount, rate) matches Some(v) ==> is_floor(
            v as int,
            amount * DIV,
            rate.inner as int,
        ),
        vouchers_of(amount, rate) is None <==> rate.inner == 0 || amount * DIV >= (u128::MAX + 1)
            * rate.inner,
{
    law_fixed_product(rate.inner, amount);
    law_fixed_quotient(amount, rate.inner);
}

/// A debt is its principal times the growth of the accumulated interest rate,
/// where growth and debt are rounded down each. So it is at most the exact one,
/// and falls short of it by less than one unit and what rounding the growth takes
/// of the principal.
pub proof fn law_debt_grows_as_the_index_does<M>(
    s: State<M>,
    c: CurrencyId,
    snapshot: BorrowSnapshot,
    growth: int,
)
    requires
        snapshot.principal > 0,
        snapshot.borrow_index.inner > 0,
        is_floor(growth, s.index(c).inner * DIV, snapshot.borrow_index.inner as int),
    ensures
        s.debt_since(c, snapshot) matches Some(debt) ==> {
            let (p, b) = (snapshot.principal, snapshot.borrow_index.inner);
            &&& is_floor(debt as int, growth * p, DIV as int)
            &&& debt * b <= s.index(c).inner * p
            &&& s.index(c).inner * p * DIV <= b * (DIV * (debt + 1) + p)
        },
        s.debt_since(c, snapshot) is None <==> growth > u128::MAX || growth * snapshot.principal
            >= (u128::MAX + 1) * DIV,
{
    let (p, b) = (snapshot.principal, snapshot.borrow_index.inner);
    let index = s.index(c).inner;
    law_fixed_quotient(index, b);
    let (n, d, m) = (index * DIV, b as int, u128::MAX + 1);
    assert(growth > u128::MAX <==> n >= m * d) by (nonlinear_arith)
        requires
            0 < d,
            m == u128::MAX + 1,
            growth * d <= n < (growth + 1) * d,
    ;
    if growth <= u128::MAX {
        let g = fixed_div(index, b).unwrap();
        lemma_floor_is_unique(growth, g as int, n, d);
        law_fixed_product(g, p);
        if let Some(debt) = s.debt_since(c, snapshot) {
            lemma_two_floors(p as int, n, d, growth, debt as int);
            let (debt, i, p, b, dv) = (debt as int, index as int, p as int, b as int, DIV as int);
            assert(debt * b <= i * p) by (nonlinear_arith)
                requires
                    debt * (dv * b) <= p * (i * dv),
                    0 < dv,
            {
                assert(debt * (dv * b) == (debt * b) * dv);
                assert(p * (i * dv) == (i * p) * dv);
            }
            assert(i * p * dv <= b * (dv * (debt + 1) + p)) by (nonlinear_arith)
                requires
                    p * (i * dv) <= dv * b * (debt + 1) + p * b,
            {
                assert(p * (i * dv) == i * p * dv);
                assert(b * (dv * (debt + 1) + p) == dv * b * (debt + 1) + p * b);
            }
        }
    }
}

/// A debt of nothing is nothing.
pub proof fn law_no_principal_no_debt<M>(s: State<M>, c: CurrencyId, snapshot: BorrowSnapshot)
    requires
        snapshot.principal == 0 || snapshot.borrow_index.inner == 0,
    ensures
        s.debt_since(c, snapshot) == Some(0u128),
{
}

/// `n / d`, rounded down, times `x` over the unit, rounded down, against the exact.
proof fn lemma_two_floors(x: int, n: int, d: int, q: int, r: int)
    requires
        0 <= x,
        is_floor(q, n, d),
        is_floor(r, q * x, DIV as int),
    ensures
        r * (DIV * d) <= x * n,
        x * n <= DIV * d * (r + 1) + x * d,
{
    let u = DIV as int;
    assert(x * (q * d) <= x * n <= x * (q * d) + x * d) by (nonlinear_arith)
        requires
            0 <= x,
            q * d <= n < (q + 1) * d,
    ;
    assert(x * (q * d) == (q * x) * d) by (nonlinear_arith);
    let y = q * x;
    assert(r * (u * d) <= y * d <= u * d * (r + 1)) by (nonlinear_arith)
        requires
            r * u <= y < (r + 1) * u,
            0 < d,
    {
        assert(r * u * d <= y * d);
        assert(y * d <= (r + 1) * u * d);
    }
}

/// A debt is worth its amount times the price of its own currency, rounded down,
/// and nothing where nothing is owed.
pub proof fn law_debt_is_valued_at_its_price<M>(
    s: State<M>,
    feed: Map<CurrencyId, PriceDetail>,
    c: CurrencyId,
    who: AccountId,
)
    ensures
        match s.debt(c, who) {
            None => s.debt_value(feed, c, who) == Err::<Balance, Refusal>(overflow()),
            Some(debt) => if debt == 0 {
                s.debt_value(feed, c, who) == Ok::<Balance, Refusal>(0)
            } else if !feed.contains_key(c) || feed[c].price.inner == 0 {
                s.debt_value(feed, c, who) == Err::<Balance, Refusal>(
                    Refusal::Loans(Error::PriceOracleNotReady),
                )
            } else if feed[c].price.inner * debt >= (u128::MAX + 1) * DIV {
                s.debt_value(feed, c, who) == Err::<Balance, Refusal>(overflow())
            } else {
                &&& s.debt_value(feed, c, who) is Ok
                &&& is_floor(
                    s.debt_value(feed, c, who).unwrap() as int,
                    feed[c].price.inner * debt,
                    DIV as int,
                )
            },
        },
{
    if let Some(debt) = s.debt(c, who) {
        law_fixed_product(feed[c].price.inner, debt);
    }
}

/// A deposit counts as collateral for its internal supplies times the exchange
/// rate, the price and the market's collateral factor. It never counts for more,
/// and rounding takes less than one unit of value, one of the underlying asset and
/// one internal supply. What is no collateral counts for nothing.
pub proof fn law_collateral_counts_by_the_collateral_factor<M>(
    s: State<M>,
    feed: Map<CurrencyId, PriceDetail>,
    c: CurrencyId,
    who: AccountId,
    market: Market<M>,
)
    ensures
        ({
            let value = s.collateral_value(feed, c, who, market);
            let deposits = s.deposits(c, who);
            let exact = feed[c].price.inner * (s.rate(c).inner * (deposits.voucher_balance * capped(
                market.collateral_factor.parts,
                PERMILL,
            )));
            if !deposits.is_collateral || deposits.voucher_balance == 0 {
                value == Ok::<Balance, Refusal>(0)
            } else if !feed.contains_key(c) || feed[c].price.inner == 0 {
                value == Err::<Balance, Refusal>(Refusal::Loans(Error::PriceOracleNotReady))
            } else {
                match value {
                    Ok(v) => {
                        &&& v * (DIV * DIV * PERMILL) <= exact
                        &&& exact <= PERMILL * (DIV * DIV * (v + 1) + DIV * feed[c].price.inner
                            + feed[c].price.inner * s.rate(c).inner)
                    },
                    Err(e) => {
                        &&& e == overflow()
                        &&& exact >= (u128::MAX + 1) * (DIV * PERMILL)
                    },
                }
            }
        }),
{
    let deposits = s.deposits(c, who);
    if deposits.is_collateral && deposits.voucher_balance > 0 && price_of(feed, c) is Some {
        let (price, rate) = (feed[c].price.inner, s.rate(c).inner);
        let factor = market.collateral_factor.parts;
        let held = deposits.voucher_balance;
        let n = held * capped(factor, PERMILL);
        law_part(factor, PERMILL, held);
        lemma_part_fits(factor, PERMILL, held);
        let counted = part_floor(factor, PERMILL, held) as u128;
        law_fixed_product(rate, counted);
        let (p, r, w, d) = (price as int, rate as int, PERMILL as int, DIV as int);
        let (a, limit) = (counted as int, u128::MAX + 1);
        match fixed_mul(rate, counted) {
            None => {
                assert(p * (r * n) >= limit * (d * w)) by (nonlinear_arith)
                    requires
                        1 <= p,
                        0 <= r,
                        r * a >= limit * d,
                        a * w <= n,
                        0 < w,
                        0 < d,
                        0 < limit,
                {
                    assert(r * n >= r * (a * w));
                    assert(r * (a * w) == (r * a) * w);
                    assert((r * a) * w >= limit * d * w);
                    assert(limit * d * w == limit * (d * w));
                    assert(p * (r * n) >= r * n);
                }
            },
            Some(amount) => {
                law_fixed_product(price, amount);
                let b = amount as int;
                match fixed_mul(price, amount) {
                    None => {
                        assert(p * (r * n) >= limit * (d * w)) by (nonlinear_arith)
                            requires
                                0 <= p,
                                0 <= r,
                                p * b >= limit * d,
                                b * d <= r * a,
                                a * w <= n,
                                1 <= w,
                                1 <= d,
                                0 < limit,
                        {
                            assert(r * n >= r * (a * w));
                            assert(r * (a * w) == (r * a) * w);
                            assert((r * a) * w >= b * d * w);
                            assert(p * (r * n) >= p * (b * d * w));
                            assert(p * (b * d * w) == (p * b) * (d * w));
                            assert((p * b) * (d * w) >= limit * d * (d * w));
                            assert(limit * d * (d * w) >= limit * (d * w)) by (nonlinear_arith)
                                requires
                                    1 <= d,
                                    1 <= w,
                                    0 < limit,
                            ;
                        }
                    },
                    Some(v) => {
                        lemma_three_floors(p, r, n, a, b, v as int);
                    },
                }
            },
        }
    }
}

/// Each step of that is rounded down: the part of the internal supplies that
/// counts, what that is worth in the underlying asset, and its value.
pub proof fn law_collateral_is_rounded_down<M>(
    s: State<M>,
    feed: Map<CurrencyId, PriceDetail>,
    c: CurrencyId,
    who: AccountId,
    market: Market<M>,
    counted: int,
    amount: int,
)
    requires
        s.deposits(c, who).is_collateral,
        s.deposits(c, who).voucher_balance > 0,
        is_floor(
            counted,
            s.deposits(c, who).voucher_balance * capped(market.collateral_factor.parts, PERMILL),
            PERMILL as int,
        ),
        is_floor(amount, s.rate(c).inner * counted, DIV as int),
        s.collateral_value(feed, c, who, market) is Ok,
    ensures
        is_floor(
            s.collateral_value(feed, c, who, market).unwrap() as int,
            feed[c].price.inner * amount,
            DIV as int,
        ),
{
    let held = s.deposits(c, who).voucher_balance;
    let factor = market.collateral_factor.parts;
    law_part(factor, PERMILL, held);
    lemma_part_fits(factor, PERMILL, held);
    let part = part_floor(factor, PERMILL, held);
    lemma_floor_is_unique(counted, part, held * capped(factor, PERMILL), PERMILL as int);
    law_fixed_product(s.rate(c).inner, part as u128);
    let worth = fixed_mul(s.rate(c).inner, part as u128).unwrap();
    lemma_floor_is_unique(amount, worth as int, s.rate(c).inner * counted, DIV as int);
    law_fixed_product(feed[c].price.inner, worth);
}

/// `n` over a million, times a rate and a price, rounded down each, against the
/// exact product.
proof fn lemma_three_floors(p: int, r: int, n: int, a: int, b: int, v: int)
    requires
        0 <= p,
        0 <= r,
        is_floor(a, n, PERMILL as int),
        is_floor(b, r * a, DIV as int),
        is_floor(v, p * b, DIV as int),
    ensures
        v * (DIV * DIV * PERMILL) <= p * (r * n),
        p * (r * n) <= PERMILL * (DIV * DIV * (v + 1) + DIV * p + p * r),
{
    let (d, w) = (DIV as int, PERMILL as int);
    let ra = r * a;
    assert(ra * w <= r * n <= ra * w + r * w) by (nonlinear_arith)
        requires
            0 <= r,
            a * w <= n < (a + 1) * w,
            ra == r * a,
    {
        assert(r * (a * w) <= r * n);
        assert(r * n <= r * ((a + 1) * w));
    }
    assert(b * d * w <= ra * w <= b * d * w + d * w) by (nonlinear_arith)
        requires
            0 < w,
            b * d <= ra < (b + 1) * d,
    ;
    let pb = p * b;
    let rn = r * n;
    assert(pb * (d * w) <= p * rn <= pb * (d * w) + p * (d * w) + p * (r * w)) by (nonlinear_arith)
        requires
            0 <= p,
            pb == p * b,
            b * d * w <= rn <= b * d * w + d * w + r * w,
    {
        assert(p * (b * d * w) <= p * rn);
        assert(p * rn <= p * (b * d * w + d * w + r * w));
        assert(p * (b * d * w) == (p * b) * (d * w));
    }
    assert(v * d * (d * w) <= pb * (d * w) <= v * d * (d * w) + d * (d * w)) by (nonlinear_arith)
        requires
            v * d <= pb < (v + 1) * d,
            0 < d,
            0 < w,
    {
        assert(0 < d * w);
    }
    assert(v * d * (d * w) == v * (d * d * w)) by (nonlinear_arith);
    let (dd, x) = (d * d, d * d * (v + 1));
    assert(v * (dd * w) + dd * w == w * x) by (nonlinear_arith)
        requires
            x == dd * (v + 1),
    ;
    assert(d * (d * w) == dd * w) by (nonlinear_arith)
        requires
            dd == d * d,
    ;
    assert(p * (d * w) == w * (d * p)) by (nonlinear_arith);
    assert(p * (r * w) == w * (p * r)) by (nonlinear_arith);
    let (y, z) = (d * p, p * r);
    assert(w * x + w * y + w * z == w * (x + y + z)) by (nonlinear_arith);
}

/// What a deposit counts for depends on no other parameter of its market than the
/// collateral factor.
pub proof fn law_collateral_depends_on_no_other_parameter<M>(
    s: State<M>,
    feed: Map<CurrencyId, PriceDetail>,
    c: CurrencyId,
    who: AccountId,
    market: Market<M>,
    other: Market<M>,
)
    requires
        market.collateral_factor == other.collateral_factor,
    ensures
        s.collateral_value(feed, c, who, market) == s.collateral_value(feed, c, who, other),
{
}

/// What all the collateral of an account counts for does not change where the
/// close factor, the reserve factor, the incentive or the rate model of a market
/// changes.
pub proof fn law_collateral_ignores_other_parameters_of_markets<M>(
    s: State<M>,
    after: State<M>,
    feed: Map<CurrencyId, PriceDetail>,
    who: AccountId,
)
    requires
        after == (State { markets: after.markets, ..s }),
        s.markets.dom() == after.markets.dom(),
        forall|c: CurrencyId| #[trigger]
            s.markets.contains_key(c) ==> {
                &&& s.markets[c].state == after.markets[c].state
                &&& s.markets[c].collateral_factor == after.markets[c].collateral_factor
            },
    ensures
        s.total_collateral(feed, who) == after.total_collateral(feed, who),
        s.borrowed_value(feed, who) == after.borrowed_value(feed, who),
        s.account_liquidity(feed, who) == after.account_liquidity(feed, who),
{
    assert forall|c: CurrencyId| s.is_active(c) == after.is_active(c) by {
        assert(s.markets.contains_key(c) == s.markets.dom().contains(c));
        assert(after.markets.contains_key(c) == after.markets.dom().contains(c));
    }
    let (f, g) = (|x: CurrencyId| s.is_active(x), |x: CurrencyId| after.is_active(x));
    assert(f =~= g);
    let all = s.active_currencies();
    assert(all == after.active_currencies());
    assert forall|i: int| 0 <= i < all.len() implies s.is_active(#[trigger] all[i]) by {
        s.market_order.lemma_filter_pred(f, i);
    }
    lemma_other_parameters(s, after, feed, who, all);
}

proof fn lemma_other_parameters<M>(
    s: State<M>,
    after: State<M>,
    feed: Map<CurrencyId, PriceDetail>,
    who: AccountId,
    all: Seq<CurrencyId>,
)
    requires
        after == (State { markets: after.markets, ..s }),
        forall|i: int|
            0 <= i < all.len() ==> s.markets[#[trigger] all[i]].collateral_factor
                == after.markets[all[i]].collateral_factor,
    ensures
        s.collaterals_value(feed, who, all) == after.collaterals_value(feed, who, all),
        s.debts_value(feed, who, all) == after.debts_value(feed, who, all),
    decreases all.len(),
{
    if all.len() > 0 {
        let before = all.drop_last();
        assert forall|i: int|
            0 <= i < before.len() implies s.markets[#[trigger] before[i]].collateral_factor
            == after.markets[before[i]].collateral_factor by {
            assert(before[i] == all[i]);
        }
        lemma_other_parameters(s, after, feed, who, before);
        assert(all[all.len() - 1] == all.last());
    }
}

/// What all debts of an account are worth, and what all its collateral is, is the
/// sum over the active markets, where all are known and the sum fits.
pub proof fn law_values_add_up<M>(
    s: State<M>,
    feed: Map<CurrencyId, PriceDetail>,
    who: AccountId,
    debts: Values,
    collaterals: Values,
)
    requires
        forall|i: int|
            0 <= i < s.active_currencies().len() ==> debts(#[trigger] s.active_currencies()[i])
                == s.debt_value(feed, s.active_currencies()[i], who),
        forall|i: int|
            0 <= i < s.active_currencies().len() ==> collaterals(
                #[trigger] s.active_currencies()[i],
            ) == s.collateral_value(
                feed,
                s.active_currencies()[i],
                who,
                s.markets[s.active_currencies()[i]],
            ),
    ensures
        holds_total(s.borrowed_value(feed, who), total(debts, s.active_currencies())),
        holds_total(s.total_collateral(feed, who), total(collaterals, s.active_currencies())),
{
    let all = s.active_currencies();
    lemma_values_are_totals(s, feed, who, all);
    lemma_total_same(debts, s.debt_values(feed, who), all);
    lemma_total_same(collaterals, s.collateral_values(feed, who), all);
}

/// Who has one debt and one collateral, in two active markets, owes the value of
/// the one and is covered by the value of the other.
pub proof fn law_single_positions<M>(
    s: State<M>,
    feed: Map<CurrencyId, PriceDetail>,
    who: AccountId,
    debt_currency: CurrencyId,
    collateral_currency: CurrencyId,
)
    requires
        s.walks_markets_once(),
        s.is_active(debt_currency),
        s.is_active(collateral_currency),
        forall|x: CurrencyId|
            x != debt_currency ==> #[trigger] s.debt(x, who) == Some(0u128),
        forall|x: CurrencyId|
            x != collateral_currency ==> !(#[trigger] s.deposits(x, who)).is_collateral,
        s.debt_value(feed, debt_currency, who) is Ok,
        s.collateral_value(
            feed,
            collateral_currency,
            who,
            s.markets[collateral_currency],
        ) is Ok,
    ensures
        s.borrowed_value(feed, who) == s.debt_value(feed, debt_currency, who),
        s.total_collateral(feed, who) == s.collateral_value(
            feed,
            collateral_currency,
            who,
            s.markets[collateral_currency],
        ),
{
    let all = s.active_currencies();
    let nothing = |x: CurrencyId| Ok::<Balance, Refusal>(0);
    let (f, g) = (s.debt_values(feed, who), s.collateral_values(feed, who));
    lemma_active_once(s, debt_currency);
    lemma_active_once(s, collateral_currency);
    lemma_values_are_totals(s, feed, who, all);
    lemma_total_of_nothing(all);
    lemma_total_change(nothing, f, all, debt_currency);
    lemma_total_change(nothing, g, all, collateral_currency);
}

proof fn lemma_total_of_nothing(all: Seq<CurrencyId>)
    ensures
        total(|x: CurrencyId| Ok::<Balance, Refusal>(0), all) == Some(0int),
    decreases all.len(),
{
    if all.len() > 0 {
        lemma_total_of_nothing(all.drop_last());
    }
}

} // verus!
