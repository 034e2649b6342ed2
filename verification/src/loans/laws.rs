//! What holds of the lending protocol as a whole.

pub mod dispatches;
pub mod liquidations;
pub mod refusals;
pub mod values;

use vstd::prelude::*;
use vstd::arithmetic::div_mod::{lemma_div_multiples_vanish, lemma_fundamental_div_mod};
use crate::arithmetic::{capped, fixed_div, fixed_mul, lemma_part_fits, part_ceil, part_floor};
use crate::arithmetic::{DIV, PERMILL};
use crate::loans::debt::{borrow_refusal, repay_all_refusal, repay_refusal};
use crate::loans::markets::{active_market_refusal, add_market_refusal, listed_markets};
use crate::loans::markets::{listed_order, update_market_refusal, GenesisConfig};
use crate::loans::reserves::{add_reserves_refusal, reduce_reserves_refusal};
use crate::loans::supply::collateral_asset_refusal;
use crate::loans::totals::{lemma_total_bounds, lemma_total_change, lemma_total_permuted};
use crate::loans::totals::lemma_values_are_totals;
use crate::loans::valuation::price_of;
use crate::loans::{Config, Market, PriceDetail, State};
use crate::primitives::{AccountId, Balance, CurrencyId, Origin};

verus! {

/// Buying internal supplies and selling them at the same rate gains nothing.
pub proof fn lemma_there_and_back(amount: Balance, rate: Balance)
    requires
        fixed_div(amount, rate) is Some,
    ensures
        fixed_mul(rate, fixed_div(amount, rate).unwrap()) is Some,
        fixed_mul(rate, fixed_div(amount, rate).unwrap()).unwrap() <= amount,
{
    let (a, r, d) = (amount as int, rate as int, DIV as int);
    let v = fixed_div(amount, rate).unwrap() as int;
    assert(v * r <= a * d) by {
        lemma_fundamental_div_mod(a * d, r);
        assert(v * r == r * v) by (nonlinear_arith);
    }
    assert(0 <= r * v / d <= a) by (nonlinear_arith)
        requires
            v * r <= a * d,
            0 <= v,
            0 <= r,
            d == 1_000_000_000_000_000_000,
    ;
}

/// Selling internal supplies and buying for what they bring, or less, at the
/// same rate gains nothing either.
proof fn lemma_back_and_there(vouchers: Balance, rate: Balance, amount: Balance)
    requires
        rate > 0,
        fixed_mul(rate, vouchers) is Some,
        amount <= fixed_mul(rate, vouchers).unwrap(),
    ensures
        fixed_div(amount, rate) is Some,
        fixed_div(amount, rate).unwrap() <= vouchers,
{
    let (a, r, v, d) = (amount as int, rate as int, vouchers as int, DIV as int);
    assert(a * d <= r * v) by (nonlinear_arith)
        requires
            a <= r * v / d,
            d == 1_000_000_000_000_000_000,
    ;
    assert(0 <= a * d / r <= v) by (nonlinear_arith)
        requires
            0 <= a,
            a * d <= r * v,
            0 < r,
            d == 1_000_000_000_000_000_000,
    ;
}

/// Whoever redeems is paid at most what they asked for.
pub proof fn law_redeem_pays_at_most_what_was_asked<M>(
    s: State<M>,
    c: CurrencyId,
    redeem_amount: Balance,
)
    requires
        fixed_div(redeem_amount, s.rate(c).inner) is Some,
    ensures
        ({
            let vouchers = fixed_div(redeem_amount, s.rate(c).inner).unwrap();
            &&& fixed_mul(s.rate(c).inner, vouchers) is Some
            &&& fixed_mul(s.rate(c).inner, vouchers).unwrap() <= redeem_amount
        }),
{
    lemma_there_and_back(redeem_amount, s.rate(c).inner);
}

/// Redeeming what a deposit brought undoes the deposit: the depositor holds, and
/// there are in circulation, as many internal supplies as before. No other
/// deposit changes.
pub proof fn law_redeem_undoes_mint<M>(
    s: State<M>,
    c: CurrencyId,
    who: AccountId,
    mint_amount: Balance,
)
    requires
        s.mint_refusal(c, who, mint_amount) is None,
    ensures
        ({
            let vouchers = fixed_div(mint_amount, s.rate(c).inner).unwrap();
            let after = s.minted(c, who, mint_amount).redeemed(c, who, vouchers);
            let (before_held, after_held) = (s.deposits(c, who), after.deposits(c, who));
            &&& after_held.voucher_balance == before_held.voucher_balance
            &&& before_held.voucher_balance > 0 ==> after_held == before_held
            &&& forall|x: CurrencyId| #[trigger] after.supply(x) == s.supply(x)
            &&& forall|x: CurrencyId, y: AccountId|
                (x, y) != (c, who) ==> #[trigger] after.deposits(x, y) == s.deposits(x, y)
        }),
{
}

/// What an account has earned never becomes less, and writing it down again at
/// the same rate changes nothing.
pub proof fn law_earnings_never_shrink<M>(s: State<M>, c: CurrencyId, who: AccountId)
    requires
        s.earned_now(c, who) is Some,
    ensures
        s.with_earned(c, who).earned(c, who).total_earned_prior >= s.earned(
            c,
            who,
        ).total_earned_prior,
        s.with_earned(c, who).earned(c, who).exchange_rate_prior == s.rate(c),
        s.with_earned(c, who).earned_now(c, who) == Some(s.with_earned(c, who).earned(c, who)),
        s.with_earned(c, who).with_earned(c, who) =~= s.with_earned(c, who),
{
    let written = s.with_earned(c, who);
    let held = s.deposits(c, who).voucher_balance as int;
    assert(0 * held / (DIV as int) == 0);
    assert(written.account_earned.insert((c, who), written.earned(c, who))
        =~= written.account_earned);
}

/// A debt that was written down at the current index is what was written down.
pub proof fn lemma_fresh_debt<M>(s: State<M>, c: CurrencyId, who: AccountId)
    requires
        s.snapshot(c, who).borrow_index == s.index(c),
        s.index(c).inner != 0,
    ensures
        s.debt(c, who) == Some(s.snapshot(c, who).principal),
{
    let (i, p, d) = (s.index(c).inner as int, s.snapshot(c, who).principal as int, DIV as int);
    assert(i * d / i == d) by {
        lemma_div_multiples_vanish(d, i);
    }
    assert(d * p / d == p) by {
        lemma_div_multiples_vanish(p, d);
    }
}

/// A debt grows with the accumulated interest rate: as long as nothing is
/// borrowed or repaid, a higher rate never makes it smaller.
pub proof fn law_debt_grows_with_the_index<M>(
    s: State<M>,
    later: State<M>,
    c: CurrencyId,
    who: AccountId,
)
    requires
        s.snapshot(c, who) == later.snapshot(c, who),
        s.index(c).inner <= later.index(c).inner,
        later.debt(c, who) is Some,
    ensures
        s.debt(c, who) is Some,
        s.debt(c, who).unwrap() <= later.debt(c, who).unwrap(),
{
    let snapshot = s.snapshot(c, who);
    if snapshot.principal != 0 && snapshot.borrow_index.inner != 0 {
        let (i, j) = (s.index(c).inner as int, later.index(c).inner as int);
        let (b, p, d) = (snapshot.borrow_index.inner as int, snapshot.principal as int, DIV as int);
        assert(0 <= i * d / b <= j * d / b) by (nonlinear_arith)
            requires
                0 <= i <= j,
                0 < b,
                0 < d,
        ;
        let (g, h) = (i * d / b, j * d / b);
        assert(0 <= g * p / d <= h * p / d) by (nonlinear_arith)
            requires
                0 <= g <= h,
                0 <= p,
                0 < d,
        ;
    }
}

/// Whoever borrows then owes as much more, as long as the accumulated interest
/// rate is not nought, and so do all borrowers together. No other debt changes,
/// and no deposit.
pub proof fn law_borrow_adds_to_the_debt<M>(
    s: State<M>,
    feed: Map<CurrencyId, PriceDetail>,
    origin: Origin,
    c: CurrencyId,
    amount: Balance,
)
    requires
        borrow_refusal(s, feed, origin, c, amount) is None,
        s.index(c).inner != 0,
    ensures
        ({
            let who = origin->Signed_0;
            let after = s.borrowed(c, who, amount);
            &&& after.debt(c, who) is Some
            &&& after.debt(c, who).unwrap() == s.debt(c, who).unwrap() + amount
            &&& after.borrows(c) == s.borrows(c) + amount
            &&& forall|x: CurrencyId, y: AccountId|
                (x, y) != (c, who) ==> #[trigger] after.debt(x, y) == s.debt(x, y)
            &&& after.account_deposits == s.account_deposits
        }),
{
    let who = origin->Signed_0;
    lemma_fresh_debt(s.borrowed(c, who, amount), c, who);
}

/// Whoever repays then owes as much less, as long as the accumulated interest
/// rate is not nought. No other debt changes, and no deposit.
pub proof fn law_repay_takes_from_the_debt<M>(
    s: State<M>,
    origin: Origin,
    c: CurrencyId,
    amount: Balance,
)
    requires
        repay_refusal(s, origin, c, amount) is None,
        s.index(c).inner != 0,
    ensures
        ({
            let who = origin->Signed_0;
            let after = s.repaid(c, who, amount);
            &&& after.debt(c, who) is Some
            &&& after.debt(c, who).unwrap() == s.debt(c, who).unwrap() - amount
            &&& after.borrows(c) == (if s.borrows(c) >= amount {
                s.borrows(c) - amount
            } else {
                0
            })
            &&& forall|x: CurrencyId, y: AccountId|
                (x, y) != (c, who) ==> #[trigger] after.debt(x, y) == s.debt(x, y)
            &&& after.account_deposits == s.account_deposits
        }),
{
    let who = origin->Signed_0;
    lemma_fresh_debt(s.repaid(c, who, amount), c, who);
}

/// Whoever repays all owes nothing.
pub proof fn law_repay_all_clears_the_debt<M>(s: State<M>, origin: Origin, c: CurrencyId)
    requires
        repay_all_refusal(s, origin, c) is None,
    ensures
        ({
            let who = origin->Signed_0;
            s.repaid(c, who, s.debt(c, who).unwrap()).debt(c, who) == Some(0u128)
        }),
{
}

/// What was borrowed can be repaid at once, and the debt is then what it was,
/// as are all debts together.
pub proof fn law_repay_undoes_borrow<M>(
    s: State<M>,
    feed: Map<CurrencyId, PriceDetail>,
    origin: Origin,
    c: CurrencyId,
    amount: Balance,
)
    requires
        borrow_refusal(s, feed, origin, c, amount) is None,
        s.index(c).inner != 0,
    ensures
        ({
            let who = origin->Signed_0;
            let between = s.borrowed(c, who, amount);
            let after = between.repaid(c, who, amount);
            &&& repay_refusal(between, origin, c, amount) is None
            &&& after.debt(c, who) == s.debt(c, who)
            &&& forall|x: CurrencyId| #[trigger] after.borrows(x) == s.borrows(x)
        }),
{
    let who = origin->Signed_0;
    let between = s.borrowed(c, who, amount);
    law_borrow_adds_to_the_debt(s, feed, origin, c, amount);
    law_repay_takes_from_the_debt(between, origin, c, amount);
}

/// Liquidity and shortfall are the two sides of the difference between
/// collateral and debts: one of them is nought.
pub proof fn law_liquidity_is_the_difference<M>(
    s: State<M>,
    feed: Map<CurrencyId, PriceDetail>,
    who: AccountId,
)
    ensures
        s.account_liquidity(feed, who) is Ok <==> s.borrowed_value(feed, who) is Ok
            && s.total_collateral(feed, who) is Ok,
        s.account_liquidity(feed, who) matches Ok((liquidity, shortfall)) ==> {
            &&& liquidity == 0 || shortfall == 0
            &&& liquidity - shortfall == s.total_collateral(feed, who).unwrap()
                - s.borrowed_value(feed, who).unwrap()
        },
{
}

/// What debts and collateral are worth together does not depend on the order in
/// which the markets are walked.
pub proof fn law_market_order_is_irrelevant<M>(
    s: State<M>,
    feed: Map<CurrencyId, PriceDetail>,
    who: AccountId,
    a: Seq<CurrencyId>,
    b: Seq<CurrencyId>,
)
    requires
        a.to_multiset() == b.to_multiset(),
    ensures
        s.debts_value(feed, who, a) is Ok <==> s.debts_value(feed, who, b) is Ok,
        s.debts_value(feed, who, a) is Ok ==> s.debts_value(feed, who, a) == s.debts_value(
            feed,
            who,
            b,
        ),
        s.collaterals_value(feed, who, a) is Ok <==> s.collaterals_value(feed, who, b) is Ok,
        s.collaterals_value(feed, who, a) is Ok ==> s.collaterals_value(feed, who, a)
            == s.collaterals_value(feed, who, b),
{
    lemma_values_are_totals(s, feed, who, a);
    lemma_values_are_totals(s, feed, who, b);
    lemma_total_permuted(s.debt_values(feed, who), a, b);
    lemma_total_permuted(s.collateral_values(feed, who), a, b);
    lemma_total_bounds(s.debt_values(feed, who), a);
    lemma_total_bounds(s.collateral_values(feed, who), a);
}

/// Picking from a list without duplicates makes none, and picks what is asked for.
proof fn lemma_picked_once(list: Seq<CurrencyId>, pick: spec_fn(CurrencyId) -> bool)
    requires
        list.no_duplicates(),
    ensures
        list.filter(pick).no_duplicates(),
        forall|x: CurrencyId| #[trigger]
            list.filter(pick).contains(x) <==> list.contains(x) && pick(x),
    decreases list.len(),
{
    reveal(Seq::filter);
    if list.len() > 0 {
        let before = list.drop_last();
        let picked = before.filter(pick);
        lemma_picked_once(before, pick);
        assert(list =~= before.push(list.last()));
        assert(!before.contains(list.last()));
        assert forall|x: CurrencyId| #[trigger]
            list.filter(pick).contains(x) <==> list.contains(x) && pick(x) by {
            assert(picked.contains(x) <==> before.contains(x) && pick(x));
            assert(list.contains(x) <==> before.contains(x) || x == list.last()) by {
                if list.contains(x) && x != list.last() {
                    let i = list.index_of(x);
                    assert(before[i] == x);
                }
                if before.contains(x) {
                    let i = before.index_of(x);
                    assert(list[i] == x);
                }
                assert(list[list.len() - 1] == list.last());
            }
            let all = list.filter(pick);
            if pick(list.last()) {
                assert(all =~= picked.push(list.last()));
                if picked.contains(x) {
                    let i = picked.index_of(x);
                    assert(all[i] == x);
                }
                assert(all[picked.len() as int] == list.last());
            }
        }
        assert(picked.contains(list.last()) <==> before.contains(list.last()) && pick(list.last()));
    }
}

/// The list of active markets has each of them once.
pub proof fn lemma_active_once<M>(s: State<M>, c: CurrencyId)
    requires
        s.walks_markets_once(),
    ensures
        s.active_currencies().no_duplicates(),
        s.active_currencies().contains(c) <==> s.is_active(c),
{
    let active = |x: CurrencyId| s.is_active(x);
    lemma_picked_once(s.market_order, active);
    assert(s.active_currencies() == s.market_order.filter(active));
    assert(s.markets.contains_key(c) <==> s.market_order.contains(c));
}

/// The same markets are active, in the same order.
pub proof fn lemma_same_markets<M>(s: State<M>, after: State<M>)
    requires
        s.markets == after.markets,
        s.market_order == after.market_order,
    ensures
        s.active_currencies() == after.active_currencies(),
{
    assert((|x: CurrencyId| s.is_active(x)) =~= (|x: CurrencyId| after.is_active(x)));
}

/// Whoever borrows has the collateral for it: what was owed before and what is
/// borrowed are together worth no more than the collateral. Only an amount that
/// is worth nothing may be borrowed by an account that falls short already.
pub proof fn law_borrow_needs_collateral<M>(
    s: State<M>,
    feed: Map<CurrencyId, PriceDetail>,
    origin: Origin,
    c: CurrencyId,
    amount: Balance,
)
    requires
        borrow_refusal(s, feed, origin, c, amount) is None,
    ensures
        ({
            let who = origin->Signed_0;
            let borrowed = s.borrowed_value(feed, who);
            let collateral = s.total_collateral(feed, who);
            let value = fixed_mul(price_of(feed, c).unwrap(), amount);
            &&& borrowed is Ok && collateral is Ok && value is Some
            &&& value.unwrap() > 0 || borrowed.unwrap() <= collateral.unwrap()
                ==> borrowed.unwrap() + value.unwrap() <= collateral.unwrap()
        }),
{
}

/// The parts of a product, rounded down each, make up the whole but for one unit.
proof fn lemma_product_of_sum(price: int, a: int, b: int)
    requires
        0 <= price,
        0 <= a,
        0 <= b,
    ensures
        0 <= price * a / (DIV as int),
        0 <= price * b / (DIV as int),
        price * a / (DIV as int) + price * b / (DIV as int) <= price * (a + b) / (DIV as int),
        price * (a + b) / (DIV as int) <= price * a / (DIV as int) + price * b / (DIV as int) + 1,
{
    let (p, q) = (price * a, price * b);
    assert(price * (a + b) == p + q) by (nonlinear_arith)
        requires
            p == price * a,
            q == price * b,
    ;
    assert(0 <= p && 0 <= q) by (nonlinear_arith)
        requires
            0 <= price,
            0 <= a,
            0 <= b,
            p == price * a,
            q == price * b,
    ;
}

/// Whoever could cover their debts can still do so after borrowing, up to one
/// unit of value that rounding takes, as long as the accumulated interest rate
/// is not nought. The collateral does not change.
pub proof fn law_borrow_leaves_account_covered<M>(
    s: State<M>,
    feed: Map<CurrencyId, PriceDetail>,
    origin: Origin,
    c: CurrencyId,
    amount: Balance,
)
    requires
        s.walks_markets_once(),
        borrow_refusal(s, feed, origin, c, amount) is None,
        s.index(c).inner != 0,
        s.borrowed_value(feed, origin->Signed_0).unwrap() <= s.total_collateral(
            feed,
            origin->Signed_0,
        ).unwrap() < u128::MAX,
    ensures
        ({
            let who = origin->Signed_0;
            let after = s.borrowed(c, who, amount);
            &&& after.total_collateral(feed, who) == s.total_collateral(feed, who)
            &&& after.borrowed_value(feed, who) is Ok
            &&& after.borrowed_value(feed, who).unwrap() <= after.total_collateral(
                feed,
                who,
            ).unwrap() + 1
        }),
{
    let who = origin->Signed_0;
    let after = s.borrowed(c, who, amount);
    let all = s.active_currencies();
    let (f, g) = (s.debt_values(feed, who), after.debt_values(feed, who));
    let price = price_of(feed, c).unwrap();
    let debt = s.debt(c, who).unwrap();
    lemma_same_markets(s, after);
    lemma_active_once(s, c);
    lemma_values_are_totals(s, feed, who, all);
    lemma_values_are_totals(after, feed, who, all);
    lemma_same_collateral(s, after, feed, who, all);
    lemma_total_bounds(f, all);
    assert(f(all[all.index_of(c)]) is Ok);
    law_borrow_needs_collateral(s, feed, origin, c, amount);
    law_borrow_adds_to_the_debt(s, feed, origin, c, amount);
    lemma_product_of_sum(price as int, debt as int, amount as int);
    assert(price * 0 / (DIV as int) == 0) by (nonlinear_arith);
    assert(f(c).unwrap() == price * debt / (DIV as int));
    assert(g(c) is Ok);
    lemma_total_change(f, g, all, c);
}

/// Whoever repays owes no more in value than before, as long as the accumulated
/// interest rate is not nought. The collateral does not change.
pub proof fn law_repay_leaves_account_covered<M>(
    s: State<M>,
    feed: Map<CurrencyId, PriceDetail>,
    origin: Origin,
    c: CurrencyId,
    amount: Balance,
)
    requires
        s.walks_markets_once(),
        repay_refusal(s, origin, c, amount) is None,
        s.index(c).inner != 0,
        s.borrowed_value(feed, origin->Signed_0) is Ok,
    ensures
        ({
            let who = origin->Signed_0;
            let after = s.repaid(c, who, amount);
            &&& after.total_collateral(feed, who) == s.total_collateral(feed, who)
            &&& after.borrowed_value(feed, who) is Ok
            &&& after.borrowed_value(feed, who).unwrap() <= s.borrowed_value(feed, who).unwrap()
        }),
{
    let who = origin->Signed_0;
    let after = s.repaid(c, who, amount);
    let all = s.active_currencies();
    let (f, g) = (s.debt_values(feed, who), after.debt_values(feed, who));
    let debt = s.debt(c, who).unwrap();
    lemma_same_markets(s, after);
    lemma_active_once(s, c);
    lemma_values_are_totals(s, feed, who, all);
    lemma_values_are_totals(after, feed, who, all);
    lemma_same_collateral(s, after, feed, who, all);
    lemma_total_bounds(f, all);
    assert(f(all[all.index_of(c)]) is Ok);
    law_repay_takes_from_the_debt(s, origin, c, amount);
    if debt > 0 {
        let price = price_of(feed, c).unwrap();
        lemma_product_of_sum(price as int, debt - amount, amount as int);
    }
    assert(g(c) is Ok);
    lemma_total_change(f, g, all, c);
    lemma_total_bounds(g, all);
}

/// Where neither deposits, rates nor markets change, collateral is worth the same.
pub proof fn lemma_same_collateral<M>(
    s: State<M>,
    after: State<M>,
    feed: Map<CurrencyId, PriceDetail>,
    who: AccountId,
    currencies: Seq<CurrencyId>,
)
    requires
        s.account_deposits == after.account_deposits,
        s.exchange_rate == after.exchange_rate,
        s.markets == after.markets,
    ensures
        s.collaterals_value(feed, who, currencies) == after.collaterals_value(
            feed,
            who,
            currencies,
        ),
    decreases currencies.len(),
{
    if currencies.len() > 0 {
        lemma_same_collateral(s, after, feed, who, currencies.drop_last());
    }
}

/// Where neither debts nor indices change, debts are worth the same.
pub proof fn lemma_same_debts<M>(
    s: State<M>,
    after: State<M>,
    feed: Map<CurrencyId, PriceDetail>,
    who: AccountId,
    currencies: Seq<CurrencyId>,
)
    requires
        s.account_borrows == after.account_borrows,
        s.borrow_index == after.borrow_index,
    ensures
        s.debts_value(feed, who, currencies) == after.debts_value(feed, who, currencies),
    decreases currencies.len(),
{
    if currencies.len() > 0 {
        lemma_same_debts(s, after, feed, who, currencies.drop_last());
    }
}

/// A deposit stops serving as collateral only if the rest of the collateral
/// covers the debts.
pub proof fn law_disabling_collateral_leaves_account_covered<M>(
    s: State<M>,
    feed: Map<CurrencyId, PriceDetail>,
    origin: Origin,
    c: CurrencyId,
)
    requires
        s.walks_markets_once(),
        collateral_asset_refusal(s, feed, origin, c, false) is None,
    ensures
        ({
            let who = origin->Signed_0;
            let after = s.with_collateral(c, who, false);
            let value = s.collateral_value(feed, c, who, s.markets[c]).unwrap();
            &&& after.borrowed_value(feed, who) == s.borrowed_value(feed, who)
            &&& after.total_collateral(feed, who) is Ok
            &&& after.total_collateral(feed, who).unwrap() == s.total_collateral(
                feed,
                who,
            ).unwrap() - value
            &&& after.borrowed_value(feed, who).unwrap() <= after.total_collateral(
                feed,
                who,
            ).unwrap()
            &&& after.account_liquidity(feed, who) matches Ok((_, shortfall)) && shortfall == 0
        }),
{
    let who = origin->Signed_0;
    let after = s.with_collateral(c, who, false);
    let all = s.active_currencies();
    let (f, g) = (s.collateral_values(feed, who), after.collateral_values(feed, who));
    lemma_same_markets(s, after);
    lemma_active_once(s, c);
    lemma_values_are_totals(s, feed, who, all);
    lemma_values_are_totals(after, feed, who, all);
    lemma_same_debts(s, after, feed, who, all);
    lemma_total_change(f, g, all, c);
    lemma_total_bounds(g, all);
}

/// What rounding down leaves out is less than the divisor.
proof fn lemma_floor(x: int, divisor: int)
    requires
        0 < divisor,
    ensures
        divisor * (x / divisor) <= x < divisor * (x / divisor) + divisor,
{
    lemma_fundamental_div_mod(x, divisor);
}

/// How much less of the underlying asset counts as collateral when `gone` of
/// `held` internal supplies go, against `checked`, the counted part of what they
/// are worth: rounding makes up two units, and one internal supply.
proof fn lemma_counted_drop(rate: int, parts: int, held: int, gone: int)
    requires
        0 <= rate,
        0 <= parts <= PERMILL,
        0 <= gone <= held,
    ensures
        ({
            let (d, w) = (DIV as int, PERMILL as int);
            let before = rate * (held * parts / w) / d;
            let after = rate * ((held - gone) * parts / w) / d;
            let checked = ((rate * gone / d) * parts + w - 1) / w;
            &&& 0 <= (held - gone) * parts / w <= held * parts / w
            &&& 0 <= after <= before
            &&& before - after <= checked + rate / d + 2
        }),
{
    let (d, w) = (DIV as int, PERMILL as int);
    let (x, y) = (held * parts, (held - gone) * parts);
    let (a1, a2) = (x / w, y / w);
    let (m, n) = (rate * a1, rate * a2);
    let (b1, b2) = (m / d, n / d);
    let g = rate * gone;
    let r = g / d;
    let rp = r * parts;
    let checked = (rp + w - 1) / w;
    let gp = gone * parts;
    assert(x - y == gp && 0 <= y && 0 <= gp) by (nonlinear_arith)
        requires
            0 <= parts,
            0 <= gone <= held,
            x == held * parts,
            y == (held - gone) * parts,
            gp == gone * parts,
    ;
    lemma_floor(x, w);
    lemma_floor(y, w);
    let drop = a1 - a2;
    assert(0 <= a2 <= a1 && w * drop <= gp + w) by (nonlinear_arith)
        requires
            a1 == x / w,
            a2 == y / w,
            0 <= y <= x,
            x - y == gp,
            w * a1 <= x,
            y < w * a2 + w,
            drop == a1 - a2,
            0 < w,
    ;
    assert(0 <= n <= m && m - n == rate * drop) by (nonlinear_arith)
        requires
            0 <= rate,
            0 <= a2 <= a1,
            m == rate * a1,
            n == rate * a2,
            drop == a1 - a2,
    ;
    lemma_floor(m, d);
    lemma_floor(n, d);
    let lost = b1 - b2 - 1;
    assert(0 <= b2 <= b1 && d * lost < rate * drop) by (nonlinear_arith)
        requires
            b1 == m / d,
            b2 == n / d,
            0 <= n <= m,
            m - n == rate * drop,
            d * b1 <= m,
            n < d * b2 + d,
            lost == b1 - b2 - 1,
            0 < d,
    ;
    assert(w * (rate * drop) <= rate * gp + rate * w) by (nonlinear_arith)
        requires
            0 <= rate,
            w * drop <= gp + w,
    ;
    assert(0 <= g) by (nonlinear_arith)
        requires
            0 <= rate,
            0 <= gone,
            g == rate * gone,
    ;
    lemma_floor(g, d);
    assert(rate * gp <= d * rp + d * parts) by (nonlinear_arith)
        requires
            gp == gone * parts,
            g == rate * gone,
            g <= d * r + d,
            rp == r * parts,
            0 <= parts,
    {
        assert(rate * gp == g * parts);
        assert(g * parts <= (d * r + d) * parts);
        assert((d * r + d) * parts == d * (r * parts) + d * parts);
    }
    lemma_floor(rp + w - 1, w);
    assert(d * lost < d * checked + d + rate) by (nonlinear_arith)
        requires
            d * lost < rate * drop,
            w * (rate * drop) <= rate * gp + rate * w,
            rate * gp <= d * rp + d * parts,
            rp <= w * checked,
            parts <= w,
            0 < w,
            0 < d,
    {
        assert(w * (d * lost) < w * (rate * drop));
        assert(d * rp <= d * (w * checked));
        assert(d * parts <= d * w);
        assert(w * (d * lost) < d * (w * checked) + d * w + rate * w);
        assert(d * (w * checked) + d * w + rate * w == w * (d * checked + d + rate))
            by (nonlinear_arith);
    }
    let over = lost - checked - 1;
    lemma_floor(rate, d);
    assert(over <= rate / d) by (nonlinear_arith)
        requires
            over == lost - checked - 1,
            d * lost < d * checked + d + rate,
            rate < d * (rate / d) + d,
            0 < d,
    {
        assert(d * over == d * lost - d * checked - d);
        assert(d * over < d * (rate / d + 1));
    }
}

/// What a redeemer gives up as collateral is worth no more than what was checked
/// against their liquidity, but for rounding.
proof fn lemma_value_drop(price: int, rate: int, parts: int, held: int, gone: int)
    requires
        0 <= price,
        0 <= rate,
        0 <= parts <= PERMILL,
        0 <= gone <= held,
    ensures
        ({
            let (d, w) = (DIV as int, PERMILL as int);
            let before = price * (rate * (held * parts / w) / d) / d;
            let after = price * (rate * ((held - gone) * parts / w) / d) / d;
            let checked = price * (((rate * gone / d) * parts + w - 1) / w) / d;
            &&& 0 <= after <= before
            &&& before - after <= checked + price * (rate / d + 2) / d + 2
        }),
{
    let (d, w) = (DIV as int, PERMILL as int);
    let b1 = rate * (held * parts / w) / d;
    let b2 = rate * ((held - gone) * parts / w) / d;
    let checked = ((rate * gone / d) * parts + w - 1) / w;
    let slack = rate / d + 2;
    lemma_counted_drop(rate, parts, held, gone);
    lemma_product_of_sum(price, b2, b1 - b2);
    assert(0 <= checked) by {
        assert(0 <= rate * gone) by (nonlinear_arith)
            requires
                0 <= rate,
                0 <= gone,
        ;
        let r = rate * gone / d;
        assert(0 <= r * parts) by (nonlinear_arith)
            requires
                0 <= r,
                0 <= parts,
        ;
    }
    lemma_product_of_sum(price, checked, slack);
    let (p, q) = (price * (b1 - b2), price * (checked + slack));
    assert(p <= q) by (nonlinear_arith)
        requires
            0 <= price,
            b1 - b2 <= checked + slack,
            p == price * (b1 - b2),
            q == price * (checked + slack),
    ;
}

/// Whoever could cover their debts can still do so after redeeming, but for what
/// rounding takes: the value of one internal supply and two units of the
/// underlying asset, and two units of value. Deposits that are no collateral may
/// go without any loss of it.
pub proof fn law_redeem_leaves_account_covered<M>(
    s: State<M>,
    feed: Map<CurrencyId, PriceDetail>,
    c: CurrencyId,
    who: AccountId,
    voucher_amount: Balance,
)
    requires
        s.walks_markets_once(),
        s.is_active(c),
        s.redeem_refusal(feed, c, who, voucher_amount) is None,
        s.borrowed_value(feed, who) is Ok,
        s.total_collateral(feed, who) is Ok,
        s.borrowed_value(feed, who).unwrap() <= s.total_collateral(feed, who).unwrap(),
    ensures
        ({
            let after = s.redeemed(c, who, voucher_amount);
            let price = price_of(feed, c).unwrap() as int;
            let rounding = price * (s.rate(c).inner as int / (DIV as int) + 2) / (DIV as int) + 2;
            let collateral = after.total_collateral(feed, who);
            &&& after.borrowed_value(feed, who) == s.borrowed_value(feed, who)
            &&& collateral is Ok
            &&& s.deposits(c, who).is_collateral ==> s.borrowed_value(feed, who).unwrap()
                <= collateral.unwrap() + rounding
            &&& !s.deposits(c, who).is_collateral ==> collateral == s.total_collateral(feed, who)
        }),
{
    let after = s.redeemed(c, who, voucher_amount);
    let all = s.active_currencies();
    let (f, g) = (s.collateral_values(feed, who), after.collateral_values(feed, who));
    lemma_same_markets(s, after);
    lemma_active_once(s, c);
    lemma_values_are_totals(s, feed, who, all);
    lemma_values_are_totals(after, feed, who, all);
    lemma_same_debts(s, after, feed, who, all);
    lemma_total_bounds(f, all);
    assert(f(all[all.index_of(c)]) is Ok);
    let deposits = s.deposits(c, who);
    if deposits.is_collateral {
        let (d, w) = (DIV as int, PERMILL as int);
        let price = price_of(feed, c).unwrap();
        let rate = s.rate(c).inner;
        let factor = s.markets[c].collateral_factor.parts;
        let parts = capped(factor, PERMILL);
        let held = deposits.voucher_balance;
        let kept = (held - voucher_amount) as u128;
        lemma_part_fits(factor, PERMILL, held);
        lemma_part_fits(factor, PERMILL, kept);
        lemma_part_fits(factor, PERMILL, fixed_mul(rate, voucher_amount).unwrap());
        lemma_counted_drop(rate as int, parts, held as int, voucher_amount as int);
        lemma_value_drop(price as int, rate as int, parts, held as int, voucher_amount as int);
        assert(part_floor(factor, PERMILL, held) == held * parts / w);
        assert(part_floor(factor, PERMILL, kept) == (held - voucher_amount) * parts / w);
        if held == 0 {
            assert(f(c).unwrap() == 0);
            assert(g(c).unwrap() == 0);
        } else {
            assert(f(c).unwrap() == price * (rate * (held * parts / w) / d) / d);
            assert(g(c) is Ok);
            if kept == 0 {
                assert(g(c).unwrap() == 0);
                assert(0 * parts / w == 0);
                assert(rate * 0 / d == 0) by (nonlinear_arith)
                    requires
                        d == 1_000_000_000_000_000_000,
                ;
                assert(price * 0 / d == 0) by (nonlinear_arith)
                    requires
                        d == 1_000_000_000_000_000_000,
                ;
            }
            assert(g(c).unwrap() == price * (rate * ((held - voucher_amount) * parts / w) / d) / d);
        }
    }
    lemma_total_change(f, g, all, c);
    lemma_total_bounds(g, all);
}

/// Only the debts of an account that falls short are liquidated, never by the
/// account itself, never more at once than the close factor of the debt and so
/// never more than the debt, and only for deposits that serve as collateral.
pub proof fn law_liquidation_needs_shortfall<M>(
    s: State<M>,
    feed: Map<CurrencyId, PriceDetail>,
    liquidator: AccountId,
    borrower: AccountId,
    debt_currency: CurrencyId,
    repay_amount: Balance,
    collateral_currency: CurrencyId,
)
    requires
        s.liquidation(
            feed,
            liquidator,
            borrower,
            debt_currency,
            repay_amount,
            collateral_currency,
        ) is Ok,
    ensures
        ({
            let debt = s.debt(debt_currency, borrower);
            let market = s.markets[debt_currency];
            &&& s.account_liquidity(feed, borrower) matches Ok((_, shortfall)) && shortfall > 0
            &&& liquidator != borrower
            &&& debt is Some
            &&& repay_amount <= part_ceil(market.close_factor.parts, PERMILL, debt.unwrap())
            &&& repay_amount <= debt.unwrap()
            &&& s.deposits(collateral_currency, borrower).is_collateral
        }),
{
    let market = s.markets[debt_currency];
    lemma_part_fits(
        market.close_factor.parts,
        PERMILL,
        s.debt(debt_currency, borrower).unwrap(),
    );
}

/// A liquidation never takes more than the borrower has: what it takes of the
/// underlying asset is at most what the deposit is worth, and what it takes of
/// the internal supplies at most what the deposit holds.
pub proof fn law_seizure_is_at_most_the_deposit<M>(
    s: State<M>,
    feed: Map<CurrencyId, PriceDetail>,
    liquidator: AccountId,
    borrower: AccountId,
    debt_currency: CurrencyId,
    repay_amount: Balance,
    collateral_currency: CurrencyId,
)
    requires
        s.liquidation(
            feed,
            liquidator,
            borrower,
            debt_currency,
            repay_amount,
            collateral_currency,
        ) is Ok,
    ensures
        ({
            let underlying = s.liquidation(
                feed,
                liquidator,
                borrower,
                debt_currency,
                repay_amount,
                collateral_currency,
            ).unwrap();
            let rate = s.rate(collateral_currency).inner;
            let held = s.deposits(collateral_currency, borrower).voucher_balance;
            &&& fixed_mul(rate, held) is Some
            &&& underlying <= fixed_mul(rate, held).unwrap()
            &&& rate > 0 ==> fixed_div(underlying, rate) is Some
            &&& rate > 0 ==> fixed_div(underlying, rate).unwrap() <= held
        }),
{
    let price = price_of(feed, collateral_currency).unwrap();
    let rate = s.rate(collateral_currency).inner;
    let held = s.deposits(collateral_currency, borrower).voucher_balance;
    let amount = fixed_mul(rate, held).unwrap();
    let value = s.liquidate_value(
        feed,
        debt_currency,
        repay_amount,
        s.markets[debt_currency],
    ).unwrap();
    let (p, a, v, d) = (price as int, amount as int, value as int, DIV as int);
    assert(v <= p * a / d);
    assert(v * d / p <= a) by (nonlinear_arith)
        requires
            v <= p * a / d,
            0 <= v,
            0 < p,
            d == 1_000_000_000_000_000_000,
    {
        assert(v * d <= p * a);
    }
    if rate > 0 {
        lemma_back_and_there(held, rate, fixed_div(value, price).unwrap());
    }
}

/// A liquidation that was allowed and paid for can be booked, unless less is
/// borrowed altogether than is repaid, the collateral has no exchange rate, or
/// the liquidator's internal supplies would not fit in a balance.
pub proof fn law_paid_liquidation_is_booked<M>(
    s: State<M>,
    feed: Map<CurrencyId, PriceDetail>,
    liquidator: AccountId,
    borrower: AccountId,
    debt_currency: CurrencyId,
    repay_amount: Balance,
    collateral_currency: CurrencyId,
)
    requires
        s.liquidation(
            feed,
            liquidator,
            borrower,
            debt_currency,
            repay_amount,
            collateral_currency,
        ) is Ok,
    ensures
        ({
            let underlying = s.liquidation(
                feed,
                liquidator,
                borrower,
                debt_currency,
                repay_amount,
                collateral_currency,
            ).unwrap();
            let rate = s.rate(collateral_currency).inner;
            s.settlement_refusal(
                liquidator,
                borrower,
                debt_currency,
                collateral_currency,
                repay_amount,
                underlying,
            ) is None <==> {
                &&& repay_amount <= s.borrows(debt_currency)
                &&& rate > 0
                &&& s.deposits(collateral_currency, liquidator).voucher_balance + fixed_div(
                    underlying,
                    rate,
                ).unwrap() <= u128::MAX
            }
        }),
{
    law_liquidation_needs_shortfall(
        s,
        feed,
        liquidator,
        borrower,
        debt_currency,
        repay_amount,
        collateral_currency,
    );
    law_seizure_is_at_most_the_deposit(
        s,
        feed,
        liquidator,
        borrower,
        debt_currency,
        repay_amount,
        collateral_currency,
    );
}

/// A liquidation makes the borrower owe as much less as was repaid, as long as
/// the accumulated interest rate is not nought, and gives the liquidator the
/// internal supplies that it takes from the borrower. What is collateral stays
/// so, and no other debt or deposit changes.
pub proof fn law_liquidation_moves_what_it_takes<M>(
    s: State<M>,
    liquidator: AccountId,
    borrower: AccountId,
    debt_currency: CurrencyId,
    collateral_currency: CurrencyId,
    repay_amount: Balance,
    underlying: Balance,
)
    requires
        liquidator != borrower,
        s.settlement_refusal(
            liquidator,
            borrower,
            debt_currency,
            collateral_currency,
            repay_amount,
            underlying,
        ) is None,
        s.index(debt_currency).inner != 0,
    ensures
        ({
            let after = s.liquidated(
                liquidator,
                borrower,
                debt_currency,
                collateral_currency,
                repay_amount,
                underlying,
            );
            let vouchers = fixed_div(underlying, s.rate(collateral_currency).inner).unwrap();
            let (giver, taker) = (
                s.deposits(collateral_currency, borrower),
                s.deposits(collateral_currency, liquidator),
            );
            let (giver_after, taker_after) = (
                after.deposits(collateral_currency, borrower),
                after.deposits(collateral_currency, liquidator),
            );
            &&& after.debt(debt_currency, borrower) is Some
            &&& after.debt(debt_currency, borrower).unwrap() == s.debt(
                debt_currency,
                borrower,
            ).unwrap() - repay_amount
            &&& after.borrows(debt_currency) == s.borrows(debt_currency) - repay_amount
            &&& giver_after.voucher_balance == giver.voucher_balance - vouchers
            &&& taker_after.voucher_balance == taker.voucher_balance + vouchers
            &&& giver_after.is_collateral == giver.is_collateral
            &&& taker_after.is_collateral == taker.is_collateral
            &&& forall|x: CurrencyId, y: AccountId|
                (x, y) != (debt_currency, borrower) ==> #[trigger] after.debt(x, y) == s.debt(x, y)
            &&& forall|x: CurrencyId, y: AccountId|
                x != collateral_currency || (y != borrower && y != liquidator)
                    ==> #[trigger] after.deposits(x, y) == s.deposits(x, y)
        }),
{
    let after = s.liquidated(
        liquidator,
        borrower,
        debt_currency,
        collateral_currency,
        repay_amount,
        underlying,
    );
    lemma_fresh_debt(after, debt_currency, borrower);
}

/// The list of markets at genesis names each of them once.
proof fn lemma_listed_once<M>(markets: Seq<(CurrencyId, Market<M>)>)
    ensures
        listed_order(markets).no_duplicates(),
        forall|c: CurrencyId|
            listed_markets(markets).contains_key(c) <==> #[trigger] listed_order(markets).contains(
                c,
            ),
    decreases markets.len(),
{
    if markets.len() > 0 {
        let before = markets.drop_last();
        let (order, key) = (listed_order(before), markets.last().0);
        lemma_listed_once(before);
        if !listed_markets(before).contains_key(key) {
            lemma_pushed_once(order, key);
        }
    }
}

/// What a list with another item contains.
proof fn lemma_pushed_once(list: Seq<CurrencyId>, key: CurrencyId)
    requires
        list.no_duplicates(),
        !list.contains(key),
    ensures
        list.push(key).no_duplicates(),
        forall|c: CurrencyId| #[trigger]
            list.push(key).contains(c) <==> list.contains(c) || c == key,
{
    assert forall|c: CurrencyId| #[trigger]
        list.push(key).contains(c) <==> list.contains(c) || c == key by {
        if list.contains(c) {
            assert(list.push(key)[list.index_of(c)] == c);
        }
        assert(list.push(key)[list.len() as int] == key);
    }
}

/// From genesis on, the table has each market once, whatever the changes to
/// markets.
pub proof fn law_markets_are_walked_once<M>(
    s: State<M>,
    genesis: GenesisConfig<M>,
    config: Config,
    c: CurrencyId,
    market: Market<M>,
)
    requires
        s.walks_markets_once(),
    ensures
        genesis.state(config).walks_markets_once(),
        s.with_stored_market(c, market).walks_markets_once(),
        s.markets.contains_key(c) ==> s.with_market(c, market).walks_markets_once(),
{
    lemma_listed_once(genesis.markets@);
    let after = s.with_stored_market(c, market);
    assert(s.markets.contains_key(c) <==> s.market_order.contains(c));
    if !s.markets.contains_key(c) {
        lemma_pushed_once(s.market_order, c);
    } else {
        assert(s.with_market(c, market) == after);
    }
    assert forall|x: CurrencyId|
        after.markets.contains_key(x) <==> #[trigger] after.market_order.contains(x) by {
        assert(s.markets.contains_key(x) <==> s.market_order.contains(x));
    }
}

/// A market cannot be used until it is activated: one that was added is not
/// active, whether or not it replaced another, an update does not change what is
/// active, and activation makes one market active, where doing it again changes
/// nothing.
pub proof fn law_only_activation_activates<M>(
    s: State<M>,
    c: CurrencyId,
    market: Market<M>,
    model_is_valid: bool,
)
    ensures
        add_market_refusal(true, market, model_is_valid) is None ==> {
            let after = s.with_stored_market(c, market);
            &&& !after.is_active(c)
            &&& after.markets.contains_key(c) && after.markets[c] == market
            &&& forall|x: CurrencyId|
                x != c ==> #[trigger] after.is_active(x) == s.is_active(x)
        },
        update_market_refusal(s, true, c, model_is_valid) is None ==> {
            let after = s.updated(c, market);
            forall|x: CurrencyId| #[trigger] after.is_active(x) == s.is_active(x)
        },
        active_market_refusal(s, true, c) is None ==> {
            let after = s.activated(c);
            &&& after.is_active(c)
            &&& forall|x: CurrencyId|
                x != c ==> #[trigger] after.is_active(x) == s.is_active(x)
            &&& after.activated(c) =~= after
        },
{
    if s.markets.contains_key(c) {
        let after = s.activated(c);
        assert(after.activated(c).markets =~= after.markets);
    }
}

/// Reserves that were added can be taken out again, and are then what they were.
pub proof fn law_reserves_can_be_taken_out<M>(
    s: State<M>,
    payer: Option<AccountId>,
    receiver: Option<AccountId>,
    c: CurrencyId,
    amount: Balance,
)
    requires
        add_reserves_refusal(s, true, payer, c, amount, Ok(())) is None,
        receiver is Some,
    ensures
        ({
            let after = s.reserves_added(c, amount);
            &&& reduce_reserves_refusal(after, true, receiver, c, amount) is None
            &&& after.reserves_reduced(c, amount).reserves(c) == s.reserves(c)
            &&& forall|x: CurrencyId|
                x != c ==> #[trigger] after.reserves(x) == s.reserves(x)
        }),
{
}

} // verus!
