//! What a liquidation takes, what it gives, and when it is allowed, in terms of
//! prices, factors and what is stored.

use vstd::prelude::*;
use crate::arithmetic::{capped, fixed_mul, is_floor, law_fixed_product};
use crate::arithmetic::{law_fixed_quotient, law_part, lemma_floor_is_unique, DIV, PERMILL};
use crate::loans::liquidation::liquidate_refusal;
use crate::loans::valuation::overflow;
use crate::loans::{Error, Event, Market, PriceDetail, State};
use crate::primitives::{AccountId, Balance, CurrencyCall, CurrencyId, Refusal};

verus! {

/// A liquidator gets collateral for exactly what was repaid: what is taken, at the
/// price of the collateral, is worth what was repaid, at the price of the debt,
/// times the incentive of the debt's market. It is never worth more, and rounding
/// takes less than one unit of the collateral, one of value and one of what was
/// repaid.
pub proof fn law_liquidator_is_paid_for_what_was_repaid<M>(
    s: State<M>,
    feed: Map<CurrencyId, PriceDetail>,
    liquidator: AccountId,
    borrower: AccountId,
    debt_currency: CurrencyId,
    repay_amount: Balance,
    collateral_currency: CurrencyId,
)
    requires
        s.liquidation(
            feed,
            liquidator,
            borrower,
            debt_currency,
            repay_amount,
            collateral_currency,
        ) is Ok,
    ensures
        ({
            let taken = s.liquidation(
                feed,
                liquidator,
                borrower,
                debt_currency,
                repay_amount,
                collateral_currency,
            ).unwrap();
            let debt_price = feed[debt_currency].price.inner;
            let price = feed[collateral_currency].price.inner;
            let incentive = s.markets[debt_currency].liquidate_incentive.inner;
            let due = debt_price * repay_amount * incentive;
            &&& taken * price * DIV <= due
            &&& due <= DIV * ((taken + 1) * price + DIV + incentive)
        }),
{
    let taken = s.liquidation(
        feed,
        liquidator,
        borrower,
        debt_currency,
        repay_amount,
        collateral_currency,
    ).unwrap();
    let debt_price = feed[debt_currency].price.inner;
    let price = feed[collateral_currency].price.inner;
    let incentive = s.markets[debt_currency].liquidate_incentive.inner;
    law_fixed_product(debt_price, repay_amount);
    let value = fixed_mul(debt_price, repay_amount).unwrap();
    law_fixed_product(value, incentive);
    let rewarded = fixed_mul(value, incentive).unwrap();
    law_fixed_quotient(rewarded, price);
    let (n, i, d, p) = (debt_price * repay_amount, incentive as int, DIV as int, price as int);
    let (x, l, u) = (value as int, rewarded as int, taken as int);
    let xi = x * i;
    assert(xi * d <= n * i <= xi * d + d * i) by (nonlinear_arith)
        requires
            0 <= i,
            x * d <= n < (x + 1) * d,
            xi == x * i,
    {
        assert((x * d) * i <= n * i);
        assert(n * i <= ((x + 1) * d) * i);
    }
    let up = u * p;
    assert((u + 1) * p == up + p) by (nonlinear_arith)
        requires
            up == u * p,
    ;
    assert(up * d <= xi * d) by (nonlinear_arith)
        requires
            up <= l * d,
            l * d <= xi,
            0 < d,
    ;
    assert(xi * d + d * i <= d * (up + p + d + i)) by (nonlinear_arith)
        requires
            xi < (l + 1) * d,
            l * d < up + p,
            0 < d,
    {
        assert(xi <= up + p + d);
        assert(xi * d <= d * (up + p + d));
    }
}

/// Each step of that is rounded down: the value of what was repaid, the value with
/// the incentive, and the amount of collateral.
pub proof fn law_seizure_is_rounded_down<M>(
    s: State<M>,
    feed: Map<CurrencyId, PriceDetail>,
    liquidator: AccountId,
    borrower: AccountId,
    debt_currency: CurrencyId,
    repay_amount: Balance,
    collateral_currency: CurrencyId,
    value: int,
    rewarded: int,
)
    requires
        s.liquidation(
            feed,
            liquidator,
            borrower,
            debt_currency,
            repay_amount,
            collateral_currency,
        ) is Ok,
        is_floor(value, feed[debt_currency].price.inner * repay_amount, DIV as int),
        is_floor(
            rewarded,
            value * s.markets[debt_currency].liquidate_incentive.inner,
            DIV as int,
        ),
    ensures
        is_floor(
            s.liquidation(
                feed,
                liquidator,
                borrower,
                debt_currency,
                repay_amount,
                collateral_currency,
            ).unwrap() as int,
            rewarded * DIV,
            feed[collateral_currency].price.inner as int,
        ),
{
    let debt_price = feed[debt_currency].price.inner;
    let incentive = s.markets[debt_currency].liquidate_incentive.inner;
    law_fixed_product(debt_price, repay_amount);
    let x = fixed_mul(debt_price, repay_amount).unwrap();
    lemma_floor_is_unique(value, x as int, debt_price * repay_amount, DIV as int);
    law_fixed_product(x, incentive);
    let l = fixed_mul(x, incentive).unwrap();
    lemma_floor_is_unique(rewarded, l as int, x * incentive, DIV as int);
    law_fixed_quotient(l, feed[collateral_currency].price.inner);
}

/// A liquidation is allowed exactly where the borrower falls short and no more is
/// repaid than the close factor of the debt, rounded up.
pub proof fn law_liquidation_is_allowed_up_to_the_close_factor<M>(
    s: State<M>,
    feed: Map<CurrencyId, PriceDetail>,
    borrower: AccountId,
    debt_currency: CurrencyId,
    repay_amount: Balance,
    market: Market<M>,
)
    ensures
        s.liquidate_allowed_refusal(feed, borrower, debt_currency, repay_amount, market) == (
        match s.account_liquidity(feed, borrower) {
            Err(e) => Some(e),
            Ok((_, shortfall)) => if shortfall == 0 {
                Some(Refusal::Loans(Error::InsufficientShortfall))
            } else if s.debt(debt_currency, borrower) is None {
                Some(overflow())
            } else if s.debt(debt_currency, borrower).unwrap() * capped(
                market.close_factor.parts,
                PERMILL,
            ) > (repay_amount - 1) * PERMILL {
                None
            } else {
                Some(Refusal::Loans(Error::TooMuchRepay))
            },
        }),
{
    if let Some(debt) = s.debt(debt_currency, borrower) {
        let factor = market.close_factor.parts;
        law_part(factor, PERMILL, debt);
        let (n, w) = (debt * capped(factor, PERMILL), PERMILL as int);
        let (q, r) = (crate::arithmetic::part_ceil(factor, PERMILL, debt), repay_amount as int);
        assert(q < r <==> n <= (r - 1) * w) by (nonlinear_arith)
            requires
                0 < w,
                (q - 1) * w < n <= q * w,
        ;
    }
}

/// A liquidation is granted exactly where both markets are active, the borrower is
/// another account, it is allowed at the terms of the debt's market, the deposit is
/// collateral, both prices are known, everything fits, and the deposit is worth
/// what the liquidator is to get.
pub proof fn law_liquidation_is_granted<M>(
    s: State<M>,
    feed: Map<CurrencyId, PriceDetail>,
    liquidator: AccountId,
    borrower: AccountId,
    debt_currency: CurrencyId,
    repay_amount: Balance,
    collateral_currency: CurrencyId,
    amount: int,
    worth: int,
    value: int,
    rewarded: int,
)
    requires
        is_floor(
            amount,
            s.rate(collateral_currency).inner * s.deposits(
                collateral_currency,
                borrower,
            ).voucher_balance,
            DIV as int,
        ),
        is_floor(worth, feed[collateral_currency].price.inner * amount, DIV as int),
        is_floor(value, feed[debt_currency].price.inner * repay_amount, DIV as int),
        is_floor(
            rewarded,
            value * s.markets[debt_currency].liquidate_incentive.inner,
            DIV as int,
        ),
    ensures
        s.liquidation(
            feed,
            liquidator,
            borrower,
            debt_currency,
            repay_amount,
            collateral_currency,
        ) is Ok <==> {
            &&& s.markets.contains_key(debt_currency) && s.markets[debt_currency].state is Active
            &&& s.markets.contains_key(collateral_currency)
                && s.markets[collateral_currency].state is Active
            &&& borrower != liquidator
            &&& s.liquidate_allowed_refusal(
                feed,
                borrower,
                debt_currency,
                repay_amount,
                s.markets[debt_currency],
            ) is None
            &&& s.deposits(collateral_currency, borrower).is_collateral
            &&& feed.contains_key(collateral_currency)
                && feed[collateral_currency].price.inner != 0
            &&& feed.contains_key(debt_currency) && feed[debt_currency].price.inner != 0
            &&& amount <= u128::MAX
            &&& worth <= u128::MAX
            &&& value <= u128::MAX
            &&& rewarded <= worth
        },
{
    let (rate, held) = (
        s.rate(collateral_currency).inner,
        s.deposits(collateral_currency, borrower).voucher_balance,
    );
    let price = feed[collateral_currency].price.inner;
    let debt_price = feed[debt_currency].price.inner;
    let incentive = s.markets[debt_currency].liquidate_incentive.inner;
    lemma_fits(rate, held, amount);
    lemma_fits(debt_price, repay_amount, value);
    if 0 <= amount <= u128::MAX {
        lemma_fits(price, amount as u128, worth);
    }
    if 0 <= value <= u128::MAX {
        lemma_fits(value as u128, incentive, rewarded);
    }
    if price > 0 && 0 <= rewarded <= worth && worth <= u128::MAX && amount <= u128::MAX {
        law_fixed_quotient(rewarded as u128, price);
        let (l, w, p, a, d) = (rewarded, worth, price as int, amount, DIV as int);
        assert(l * d < (u128::MAX + 1) * p) by (nonlinear_arith)
            requires
                l <= w,
                w * d <= p * a,
                a <= u128::MAX,
                0 < p,
                0 < d,
        {
            assert(l * d <= w * d);
            assert(p * a <= p * u128::MAX);
        }
    }
}

/// A product fits exactly where its rounded value does.
proof fn lemma_fits(a: u128, b: u128, q: int)
    requires
        is_floor(q, a * b, DIV as int),
    ensures
        0 <= q,
        fixed_mul(a, b) is Some <==> q <= u128::MAX,
        q <= u128::MAX ==> fixed_mul(a, b) == Some(q as u128),
{
    law_fixed_product(a, b);
    let (n, d) = (a * b, DIV as int);
    assert(0 <= q) by (nonlinear_arith)
        requires
            0 <= n,
            n < (q + 1) * d,
            0 < d,
            n == a * b,
    ;
    if let Some(r) = fixed_mul(a, b) {
        lemma_floor_is_unique(q, r as int, n, d);
    } else {
        assert(q > u128::MAX) by (nonlinear_arith)
            requires
                n >= (u128::MAX + 1) * d,
                n < (q + 1) * d,
                0 < d,
        ;
    }
}

/// What a granted and paid liquidation does: the liquidator pays what is repaid to
/// the protocol, in the currency of the debt. The borrower owes that much less. The
/// internal supplies that what is taken is worth, at the collateral's exchange rate,
/// go from the borrower to the liquidator. What is reported is who, what was repaid
/// and what was taken. Nothing else changes.
pub proof fn law_liquidation_does_what_it_reports<M>(
    s: State<M>,
    feed: Map<CurrencyId, PriceDetail>,
    liquidator: AccountId,
    borrower: AccountId,
    debt_currency: CurrencyId,
    repay_amount: Balance,
    collateral_currency: CurrencyId,
)
    requires
        liquidate_refusal(
            s,
            feed,
            liquidator,
            borrower,
            debt_currency,
            repay_amount,
            collateral_currency,
            Ok(()),
        ) is None,
    ensures
        ({
            let taken = s.liquidation(
                feed,
                liquidator,
                borrower,
                debt_currency,
                repay_amount,
                collateral_currency,
            ).unwrap();
            let after = s.liquidated(
                liquidator,
                borrower,
                debt_currency,
                collateral_currency,
                repay_amount,
                taken,
            );
            let (x, y) = ((collateral_currency, borrower), (collateral_currency, liquidator));
            let moved = s.deposits(collateral_currency, borrower).voucher_balance
                - after.deposits(collateral_currency, borrower).voucher_balance;
            let snapshot = after.account_borrows[(debt_currency, borrower)];
            &&& s.liquidate_call(liquidator, debt_currency, repay_amount)
                == (CurrencyCall::Transfer {
                currency_id: debt_currency,
                from: liquidator,
                to: s.account_id(),
                amount: repay_amount,
            })
            &&& s.liquidate_event(
                liquidator,
                borrower,
                debt_currency,
                collateral_currency,
                repay_amount,
                taken,
            ) == Event::<M>::LiquidatedBorrow(
                liquidator,
                borrower,
                debt_currency,
                collateral_currency,
                repay_amount,
                taken,
            )
            &&& is_floor(moved, taken * DIV, s.rate(collateral_currency).inner as int)
            &&& after.deposits(collateral_currency, liquidator).voucher_balance == s.deposits(
                collateral_currency,
                liquidator,
            ).voucher_balance + moved
            &&& after.deposits(collateral_currency, borrower).is_collateral == s.deposits(
                collateral_currency,
                borrower,
            ).is_collateral
            &&& after.deposits(collateral_currency, liquidator).is_collateral == s.deposits(
                collateral_currency,
                liquidator,
            ).is_collateral
            &&& snapshot.principal == s.debt(debt_currency, borrower).unwrap() - repay_amount
            &&& snapshot.borrow_index == s.index(debt_currency)
            &&& after.borrows(debt_currency) == s.borrows(debt_currency) - repay_amount
            &&& same_but(s.account_borrows, after.account_borrows, (debt_currency, borrower))
            &&& same_but(s.total_borrows, after.total_borrows, debt_currency)
            &&& forall|k: (CurrencyId, AccountId)|
                k != x && k != y ==> s.account_deposits.contains_key(k)
                    == #[trigger] after.account_deposits.contains_key(k)
                    && s.account_deposits[k] == after.account_deposits[k]
            &&& after == (State {
                account_borrows: after.account_borrows,
                total_borrows: after.total_borrows,
                account_deposits: after.account_deposits,
                ..s
            })
        }),
{
    let taken = s.liquidation(
        feed,
        liquidator,
        borrower,
        debt_currency,
        repay_amount,
        collateral_currency,
    ).unwrap();
    law_fixed_quotient(taken, s.rate(collateral_currency).inner);
}

/// Whether two maps agree on all keys but one.
pub open spec fn same_but<K, V>(a: Map<K, V>, b: Map<K, V>, key: K) -> bool {
    forall|k: K|
        k != key ==> a.contains_key(k) == #[trigger] b.contains_key(k) && a[k] == b[k]
}

/// A liquidation that the ledger refuses is refused for it, and one that is not
/// granted for what stands in its way, whatever the ledger says.
pub proof fn law_liquidation_passes_refusals_on<M>(
    s: State<M>,
    feed: Map<CurrencyId, PriceDetail>,
    liquidator: AccountId,
    borrower: AccountId,
    debt_currency: CurrencyId,
    repay_amount: Balance,
    collateral_currency: CurrencyId,
    paid: Result<(), sp_runtime::DispatchError>,
)
    ensures
        s.liquidation(
            feed,
            liquidator,
            borrower,
            debt_currency,
            repay_amount,
            collateral_currency,
        ) matches Err(e) ==> liquidate_refusal(
            s,
            feed,
            liquidator,
            borrower,
            debt_currency,
            repay_amount,
            collateral_currency,
            paid,
        ) == Some(e),
        s.liquidation(
            feed,
            liquidator,
            borrower,
            debt_currency,
            repay_amount,
            collateral_currency,
        ) is Ok && paid is Err ==> liquidate_refusal(
            s,
            feed,
            liquidator,
            borrower,
            debt_currency,
            repay_amount,
            collateral_currency,
            paid,
        ) == Some(Refusal::Currency(paid.unwrap_err())),
{
}

} // verus!
