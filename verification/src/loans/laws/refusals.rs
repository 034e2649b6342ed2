//! When each dispatch is granted and when it is refused, in terms of prices, rates
//! and what is stored.

use vstd::prelude::*;
use crate::arithmetic::{capped, fixed_mul, is_ceil, is_floor, law_fixed_product};
use crate::arithmetic::{law_fixed_quotient, law_part, lemma_floor_is_unique, lemma_part_fits};
use crate::arithmetic::{part_ceil, DIV, PERMILL};
use crate::loans::debt::{borrow_refusal, repay_all_refusal, repay_refusal};
use crate::loans::laws::dispatches::law_earnings_are_the_growth_of_the_deposit;
use crate::loans::markets::{active_market_refusal, add_market_refusal, update_market_refusal};
use crate::loans::reserves::{add_reserves_refusal, reduce_reserves_refusal};
use crate::loans::supply::{collateral_asset_refusal, mint_dispatch_refusal};
use crate::loans::supply::{redeem_all_dispatch_refusal, redeem_dispatch_refusal};
use crate::loans::{Error, Market, PriceDetail, State};
use crate::primitives::{AccountId, Balance, CurrencyId, Origin, Refusal};

verus! {

/// Whether a currency has an active market, in terms of what is stored.
pub open spec fn active<M>(s: State<M>, c: CurrencyId) -> bool {
    s.markets.contains_key(c) && s.markets[c].state is Active
}

/// A deposit that was paid for is taken exactly where the market is active, there
/// is an exchange rate, it did not fall below the one at which earnings were last
/// counted, and earnings, deposit and supply fit.
pub proof fn law_deposits_are_taken<M>(
    s: State<M>,
    who: AccountId,
    c: CurrencyId,
    mint_amount: Balance,
)
    ensures
        ({
            let (rate, held) = (s.rate(c).inner, s.deposits(c, who).voucher_balance);
            let earned = s.earned(c, who);
            let limit = u128::MAX + 1;
            mint_dispatch_refusal(s, Origin::Signed(who), c, mint_amount, Ok(())) is None <==> {
                &&& active(s, c)
                &&& rate > 0
                &&& rate >= earned.exchange_rate_prior.inner
                &&& (rate - earned.exchange_rate_prior.inner) * held + earned.total_earned_prior
                    * DIV < limit * DIV
                &&& mint_amount * DIV + held * rate < limit * rate
                &&& mint_amount * DIV + s.supply(c) * rate < limit * rate
            }
        }),
{
    let (rate, held) = (s.rate(c).inner, s.deposits(c, who).voucher_balance);
    law_earnings_are_the_growth_of_the_deposit(s, c, who);
    law_fixed_quotient(mint_amount, rate);
    if rate > 0 {
        let (n, r, h, t) = (mint_amount * DIV, rate as int, held as int, s.supply(c) as int);
        match s.vouchers_for(c, mint_amount) {
            Some(vouchers) => {
                lemma_sum_fits(vouchers as int, n, r, h);
                lemma_sum_fits(vouchers as int, n, r, t);
            },
            None => {
                assert(n + h * r >= (u128::MAX + 1) * r) by (nonlinear_arith)
                    requires
                        n >= (u128::MAX + 1) * r,
                        0 <= h,
                        0 < r,
                ;
            },
        }
    }
}

/// A rounded quotient and another number fit exactly where the exact ones do.
proof fn lemma_sum_fits(q: int, n: int, d: int, x: int)
    requires
        is_floor(q, n, d),
    ensures
        q + x > u128::MAX <==> n + x * d >= (u128::MAX + 1) * d,
{
    let m = u128::MAX + 1 - x;
    assert(q >= m <==> n >= m * d) by (nonlinear_arith)
        requires
            0 < d,
            q * d <= n < (q + 1) * d,
    ;
    assert(m * d == (u128::MAX + 1) * d - x * d) by (nonlinear_arith)
        requires
            m == u128::MAX + 1 - x,
    ;
}

/// Internal supplies are redeemed exactly where there is a market, the deposit
/// holds them, what they are worth fits, and so many are in circulation. Where the
/// deposit is collateral, the price must be known and the liquidity of the account
/// suffice for the part of them that the collateral factor counts: what they are
/// worth, that part of it, rounded up, and its value.
pub proof fn law_deposits_are_given_back<M>(
    s: State<M>,
    feed: Map<CurrencyId, PriceDetail>,
    c: CurrencyId,
    who: AccountId,
    voucher_amount: Balance,
    amount: int,
    counted: int,
    value: int,
)
    requires
        is_floor(amount, s.rate(c).inner * voucher_amount, DIV as int),
        is_ceil(
            counted,
            amount * capped(s.markets[c].collateral_factor.parts, PERMILL),
            PERMILL as int,
        ),
        is_floor(value, feed[c].price.inner * counted, DIV as int),
    ensures
        s.redeem_refusal(feed, c, who, voucher_amount) is None <==> {
            &&& s.markets.contains_key(c)
            &&& voucher_amount <= s.deposits(c, who).voucher_balance
            &&& voucher_amount <= s.supply(c)
            &&& amount <= u128::MAX
            &&& s.deposits(c, who).is_collateral ==> {
                &&& feed.contains_key(c) && feed[c].price.inner != 0
                &&& s.account_liquidity(feed, who) matches Ok((liquidity, _)) && value <= liquidity
            }
        },
        s.redeem_refusal(feed, c, who, voucher_amount) == Some(
            Refusal::Loans(Error::InsufficientDeposit),
        ) <== s.markets.contains_key(c) && voucher_amount > s.deposits(c, who).voucher_balance,
{
    let (rate, price) = (s.rate(c).inner, feed[c].price.inner);
    let factor = s.markets[c].collateral_factor.parts;
    law_fixed_product(rate, voucher_amount);
    let d = DIV as int;
    let n = rate * voucher_amount;
    assert(amount > u128::MAX <==> n >= (u128::MAX + 1) * d) by (nonlinear_arith)
        requires
            amount * d <= n < (amount + 1) * d,
            0 < d,
    ;
    if let Some(worth) = fixed_mul(rate, voucher_amount) {
        lemma_floor_is_unique(amount, worth as int, n, d);
        law_part(factor, PERMILL, worth);
        lemma_part_fits(factor, PERMILL, worth);
        let part = part_ceil(factor, PERMILL, worth);
        let (x, w) = (worth * capped(factor, PERMILL), PERMILL as int);
        assert(counted == part) by (nonlinear_arith)
            requires
                0 < w,
                (counted - 1) * w < x <= counted * w,
                (part - 1) * w < x <= part * w,
        ;
        law_fixed_product(price, part as u128);
        let m = price * part;
        assert(value > u128::MAX <==> m >= (u128::MAX + 1) * d) by (nonlinear_arith)
            requires
                value * d <= m < (value + 1) * d,
                0 < d,
        ;
        if let Some(checked) = fixed_mul(price, part as u128) {
            lemma_floor_is_unique(value, checked as int, m, d);
        }
    }
}

/// A dispatch to redeem is granted exactly where the market is active, there is an
/// exchange rate, earnings can be written down, and as many internal supplies as
/// the amount is worth can be redeemed. One to redeem all is granted where all can.
pub proof fn law_redeeming_is_granted<M>(
    s: State<M>,
    feed: Map<CurrencyId, PriceDetail>,
    who: AccountId,
    c: CurrencyId,
    redeem_amount: Balance,
    vouchers: Balance,
)
    requires
        s.rate(c).inner > 0 ==> is_floor(
            vouchers as int,
            redeem_amount * DIV,
            s.rate(c).inner as int,
        ),
    ensures
        redeem_dispatch_refusal(s, feed, Origin::Signed(who), c, redeem_amount) is None <==> {
            &&& active(s, c)
            &&& s.rate(c).inner > 0
            &&& s.earned_now(c, who) is Some
            &&& s.redeem_refusal(feed, c, who, vouchers) is None
        },
        redeem_all_dispatch_refusal(s, feed, Origin::Signed(who), c) is None <==> {
            &&& active(s, c)
            &&& s.earned_now(c, who) is Some
            &&& s.redeem_refusal(feed, c, who, s.deposits(c, who).voucher_balance) is None
        },
{
    let rate = s.rate(c).inner;
    law_fixed_quotient(redeem_amount, rate);
    if rate > 0 {
        let (n, r, v) = (redeem_amount * DIV, rate as int, vouchers as int);
        assert(n < (u128::MAX + 1) * r) by (nonlinear_arith)
            requires
                n < (v + 1) * r,
                v <= u128::MAX,
                0 < r,
        ;
        lemma_floor_is_unique(v, s.vouchers_for(c, redeem_amount).unwrap() as int, n, r);
    }
}

/// A loan is granted exactly where the market is active, the price is known, the
/// liquidity of the account is worth what is borrowed, rounded down, and the debt
/// and the sum of all borrows fit.
pub proof fn law_loans_are_granted<M>(
    s: State<M>,
    feed: Map<CurrencyId, PriceDetail>,
    who: AccountId,
    c: CurrencyId,
    borrow_amount: Balance,
)
    ensures
        borrow_refusal(s, feed, Origin::Signed(who), c, borrow_amount) is None <==> {
            &&& active(s, c)
            &&& feed.contains_key(c) && feed[c].price.inner != 0
            &&& s.account_liquidity(feed, who) matches Ok((liquidity, _)) && feed[c].price.inner
                * borrow_amount < (liquidity + 1) * DIV
            &&& s.debt(c, who) matches Some(debt) && debt + borrow_amount <= u128::MAX
            &&& s.borrows(c) + borrow_amount <= u128::MAX
        },
        active(s, c) && feed.contains_key(c) && feed[c].price.inner != 0 && feed[c].price.inner
            * borrow_amount < (u128::MAX + 1) * DIV && (s.account_liquidity(feed, who) matches Ok(
            (liquidity, _),
        ) && feed[c].price.inner * borrow_amount >= (liquidity + 1) * DIV) ==> borrow_refusal(
            s,
            feed,
            Origin::Signed(who),
            c,
            borrow_amount,
        ) == Some(Refusal::Loans(Error::InsufficientLiquidity)),
{
    let price = feed[c].price.inner;
    law_fixed_product(price, borrow_amount);
    if let Ok((liquidity, _)) = s.account_liquidity(feed, who) {
        let (n, d, l) = (price * borrow_amount, DIV as int, liquidity as int);
        match fixed_mul(price, borrow_amount) {
            Some(value) => {
                let v = value as int;
                assert(v <= l <==> n < (l + 1) * d) by (nonlinear_arith)
                    requires
                        v * d <= n < (v + 1) * d,
                        0 < d,
                ;
            },
            None => {
                assert(n >= (l + 1) * d) by (nonlinear_arith)
                    requires
                        n >= (u128::MAX + 1) * d,
                        l <= u128::MAX,
                        0 < d,
                ;
            },
        }
    }
}

/// A debt can be repaid up to what is owed, and no more.
pub proof fn law_debts_can_be_repaid<M>(
    s: State<M>,
    who: AccountId,
    c: CurrencyId,
    repay_amount: Balance,
)
    ensures
        repay_refusal(s, Origin::Signed(who), c, repay_amount) is None <==> active(s, c) && (
        s.debt(c, who) matches Some(debt) && repay_amount <= debt),
        active(s, c) && (s.debt(c, who) matches Some(debt) && repay_amount > debt)
            ==> repay_refusal(s, Origin::Signed(who), c, repay_amount) == Some(
            Refusal::Loans(Error::TooMuchRepay),
        ),
        repay_all_refusal(s, Origin::Signed(who), c) is None <==> active(s, c) && s.debt(
            c,
            who,
        ) is Some,
{
}

/// A deposit becomes collateral where it is none yet. It ceases to be where the
/// rest of the collateral covers all debts, and all of these are known.
pub proof fn law_collateral_is_turned_on_and_off<M>(
    s: State<M>,
    feed: Map<CurrencyId, PriceDetail>,
    who: AccountId,
    c: CurrencyId,
)
    ensures
        ({
            let deposits = s.account_deposits[(c, who)];
            let is_held = s.account_deposits.contains_key((c, who));
            &&& collateral_asset_refusal(s, feed, Origin::Signed(who), c, true) is None <==> {
                active(s, c) && is_held && !deposits.is_collateral
            }
            &&& collateral_asset_refusal(s, feed, Origin::Signed(who), c, false) is None <==> {
                &&& active(s, c)
                &&& is_held && deposits.is_collateral
                &&& s.total_collateral(feed, who) is Ok
                &&& s.borrowed_value(feed, who) is Ok
                &&& s.collateral_value(feed, c, who, s.markets[c]) is Ok
                &&& s.borrowed_value(feed, who).unwrap() <= s.total_collateral(feed, who).unwrap()
                    - s.collateral_value(feed, c, who, s.markets[c]).unwrap()
            }
        }),
{
}

/// Reserves are for those who may touch them, for known accounts and active
/// markets. What is added must fit, and no more is taken than there is.
pub proof fn law_reserves_are_guarded<M>(
    s: State<M>,
    may_reserve: bool,
    account: Option<AccountId>,
    c: CurrencyId,
    amount: Balance,
)
    ensures
        add_reserves_refusal(s, may_reserve, account, c, amount, Ok(())) is None <==> may_reserve
            && account is Some && active(s, c) && s.reserves(c) + amount <= u128::MAX,
        reduce_reserves_refusal(s, may_reserve, account, c, amount) is None <==> may_reserve
            && account is Some && active(s, c) && amount <= s.reserves(c),
{
}

/// What the ledger refuses is refused for it, once the dispatch itself is in order.
/// Whoever may not make the call, or names a market that cannot be used, is refused
/// for that, whatever the ledger says.
pub proof fn law_refusals_of_the_ledger_are_passed_on<M>(
    s: State<M>,
    origin: Origin,
    may_reserve: bool,
    account: Option<AccountId>,
    c: CurrencyId,
    amount: Balance,
    e: sp_runtime::DispatchError,
    paid: Result<(), sp_runtime::DispatchError>,
)
    ensures
        origin is Signed && active(s, c) ==> mint_dispatch_refusal(s, origin, c, amount, Err(e))
            == Some(Refusal::Currency(e)),
        origin !is Signed ==> mint_dispatch_refusal(s, origin, c, amount, paid) == Some(
            Refusal::BadOrigin,
        ),
        origin is Signed && !active(s, c) ==> mint_dispatch_refusal(s, origin, c, amount, paid)
            == Some(Refusal::Loans(Error::MarketNotActivated)),
        may_reserve && account is Some && active(s, c) ==> add_reserves_refusal(
            s,
            may_reserve,
            account,
            c,
            amount,
            Err(e),
        ) == Some(Refusal::Currency(e)),
        !may_reserve ==> add_reserves_refusal(s, may_reserve, account, c, amount, paid) == Some(
            Refusal::BadOrigin,
        ),
{
}

/// Markets are changed by those who may, with models that are valid. New ones are
/// pending, and only those that exist are updated or activated.
pub proof fn law_markets_are_guarded<M>(
    s: State<M>,
    may_update: bool,
    c: CurrencyId,
    market: Market<M>,
    model_is_valid: bool,
)
    ensures
        add_market_refusal(may_update, market, model_is_valid) is None <==> may_update
            && market.state is Pending && model_is_valid,
        update_market_refusal(s, may_update, c, model_is_valid) is None <==> may_update
            && model_is_valid && s.markets.contains_key(c),
        active_market_refusal(s, may_update, c) is None <==> may_update && s.markets.contains_key(
            c,
        ),
{
}

} // verus!
