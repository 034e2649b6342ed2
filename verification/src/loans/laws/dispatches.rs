//! What each granted dispatch does: what the ledger is asked to move, what is
//! reported, and what changes in the state, set against each other.

use vstd::prelude::*;
use crate::arithmetic::{fixed_mul, is_floor, law_fixed_product, law_fixed_quotient, DIV};
use crate::loans::debt::{borrow_refusal, repay_all_refusal, repay_refusal};
use crate::loans::laws::liquidations::same_but;
use crate::loans::markets::{active_market_refusal, empty_state, for_each_market};
use crate::loans::markets::listed_markets;
use crate::loans::markets::{update_market_refusal, GenesisConfig};
use crate::loans::reserves::{add_reserves_refusal, reduce_reserves_refusal};
use crate::loans::supply::{collateral_asset_refusal, mint_dispatch_refusal};
use crate::loans::supply::{redeem_all_dispatch_refusal, redeem_dispatch_refusal};
use crate::loans::{Config, Event, Market, MarketState, PriceDetail, State};
use crate::primitives::{AccountId, Balance, CurrencyCall, CurrencyId, Origin, Refusal};
use crate::primitives::Timestamp;

verus! {

/// What the deposit of `who` held in `s` over what it holds in `after`.
pub open spec fn vouchers_given<M>(
    s: State<M>,
    after: State<M>,
    c: CurrencyId,
    who: AccountId,
) -> int {
    s.deposits(c, who).voucher_balance - after.deposits(c, who).voucher_balance
}

/// What an account earns while the exchange rate grows is its deposit times that
/// growth, rounded down. The rate up to which it was counted is written down with
/// it. Nothing else changes.
pub proof fn law_earnings_are_the_growth_of_the_deposit<M>(
    s: State<M>,
    c: CurrencyId,
    who: AccountId,
)
    ensures
        ({
            let (before, rate) = (s.earned(c, who), s.rate(c).inner);
            let growth = rate - before.exchange_rate_prior.inner;
            let exact = growth * s.deposits(c, who).voucher_balance;
            let after = s.with_earned(c, who);
            &&& s.earned_now(c, who) is None <==> growth < 0 || exact + before.total_earned_prior
                * DIV >= (u128::MAX + 1) * DIV
            &&& s.earned_now(c, who) is Some ==> {
                let earned = after.earned(c, who);
                &&& is_floor(
                    earned.total_earned_prior - before.total_earned_prior,
                    exact,
                    DIV as int,
                )
                &&& earned.exchange_rate_prior.inner == rate
                &&& same_but(s.account_earned, after.account_earned, (c, who))
                &&& after == (State { account_earned: after.account_earned, ..s })
            }
        }),
{
    let (before, rate) = (s.earned(c, who), s.rate(c).inner);
    let growth = rate - before.exchange_rate_prior.inner;
    if growth >= 0 {
        law_fixed_product(growth as u128, s.deposits(c, who).voucher_balance);
        let exact = growth * s.deposits(c, who).voucher_balance;
        let (e, d) = (before.total_earned_prior as int, DIV as int);
        match fixed_mul(growth as u128, s.deposits(c, who).voucher_balance) {
            Some(interest) => {
                let i = interest as int;
                assert(i + e > u128::MAX <==> exact + e * d >= (u128::MAX + 1) * d)
                    by (nonlinear_arith)
                    requires
                        i * d <= exact < (i + 1) * d,
                        d == 1_000_000_000_000_000_000,
                ;
            },
            None => {},
        }
    }
}

/// A deposit moves what was deposited from the sender to the protocol, and is
/// reported as that. It brings as many internal supplies as the amount is worth at
/// the exchange rate, rounded down, and puts as many into circulation. What was
/// earned so far is written down, and nothing else changes.
pub proof fn law_mint_brings_what_was_paid_for<M>(
    s: State<M>,
    who: AccountId,
    c: CurrencyId,
    mint_amount: Balance,
)
    requires
        mint_dispatch_refusal(s, Origin::Signed(who), c, mint_amount, Ok(())) is None,
    ensures
        ({
            let after = s.minted(c, who, mint_amount);
            let got = -vouchers_given(s, after, c, who);
            &&& s.mint_call(c, who, mint_amount) == (CurrencyCall::Transfer {
                currency_id: c,
                from: who,
                to: s.account_id(),
                amount: mint_amount,
            })
            &&& s.mint_event(c, who, mint_amount) == Event::<M>::Deposited(who, c, mint_amount)
            &&& is_floor(got, mint_amount * DIV, s.rate(c).inner as int)
            &&& after.supply(c) == s.supply(c) + got
            &&& after.deposits(c, who).is_collateral == s.deposits(c, who).is_collateral
            &&& after.account_deposits.contains_key((c, who))
            &&& after.account_earned == s.with_earned(c, who).account_earned
            &&& same_but(s.account_deposits, after.account_deposits, (c, who))
            &&& same_but(s.total_supply, after.total_supply, c)
            &&& after == (State {
                account_deposits: after.account_deposits,
                total_supply: after.total_supply,
                account_earned: after.account_earned,
                ..s
            })
        }),
{
    law_fixed_quotient(mint_amount, s.rate(c).inner);
}

/// Redeeming internal supplies pays the redeemer, from the protocol's account, the
/// whole of what they are worth at the exchange rate, rounded down, whether or not
/// they are collateral, and that is what is reported. As many internal supplies as
/// are redeemed leave the deposit and circulation. An emptied deposit is forgotten,
/// and nothing else changes.
pub proof fn law_redeem_pays_the_whole_worth<M>(
    s: State<M>,
    feed: Map<CurrencyId, PriceDetail>,
    c: CurrencyId,
    who: AccountId,
    voucher_amount: Balance,
)
    requires
        s.redeem_refusal(feed, c, who, voucher_amount) is None,
    ensures
        ({
            let after = s.redeemed(c, who, voucher_amount);
            let receipt = s.redeem_receipt(c, who, voucher_amount);
            &&& vouchers_given(s, after, c, who) == voucher_amount
            &&& s.supply(c) - after.supply(c) == voucher_amount
            &&& receipt.call == s.redeem_call(c, who, voucher_amount)
            &&& receipt.call matches CurrencyCall::Transfer { currency_id, from, to, amount }
            &&& currency_id == c && from == s.account_id() && to == who
            &&& is_floor(
                amount as int,
                s.rate(c).inner * vouchers_given(s, after, c, who),
                DIV as int,
            )
            &&& receipt.event == Event::<M>::Redeemed(who, c, amount)
            &&& after.account_deposits.contains_key((c, who)) <==> after.deposits(
                c,
                who,
            ).voucher_balance > 0
            &&& after.account_deposits.contains_key((c, who)) ==> after.deposits(
                c,
                who,
            ).is_collateral == s.deposits(c, who).is_collateral
            &&& same_but(s.account_deposits, after.account_deposits, (c, who))
            &&& same_but(s.total_supply, after.total_supply, c)
            &&& after == (State {
                account_deposits: after.account_deposits,
                total_supply: after.total_supply,
                ..s
            })
        }),
{
    law_fixed_product(s.rate(c).inner, voucher_amount);
}

/// What redeeming pays depends on the exchange rate and on how many internal
/// supplies are redeemed, not on debts, markets, prices or what is collateral.
pub proof fn law_redeem_pays_regardless_of_collateral<M>(
    s: State<M>,
    other: State<M>,
    c: CurrencyId,
    who: AccountId,
    voucher_amount: Balance,
)
    requires
        s.config == other.config,
        s.rate(c) == other.rate(c),
    ensures
        s.redeem_receipt(c, who, voucher_amount) == other.redeem_receipt(c, who, voucher_amount),
        s.redeem_call(c, who, voucher_amount) == other.redeem_call(c, who, voucher_amount),
{
}

/// Who asks for an amount gives as many internal supplies as that is worth at the
/// exchange rate, rounded down, and is paid what those are worth. What was earned
/// so far is written down.
pub proof fn law_redeem_takes_what_was_asked_for<M>(
    s: State<M>,
    feed: Map<CurrencyId, PriceDetail>,
    who: AccountId,
    c: CurrencyId,
    redeem_amount: Balance,
)
    requires
        redeem_dispatch_refusal(s, feed, Origin::Signed(who), c, redeem_amount) is None,
    ensures
        ({
            let vouchers = s.vouchers_for(c, redeem_amount).unwrap();
            let after = s.with_earned(c, who).redeemed(c, who, vouchers);
            let given = vouchers_given(s, after, c, who);
            &&& s.vouchers_for(c, redeem_amount) is Some
            &&& is_floor(given, redeem_amount * DIV, s.rate(c).inner as int)
            &&& s.supply(c) - after.supply(c) == given
            &&& s.redeem_receipt(c, who, vouchers).call matches CurrencyCall::Transfer {
                currency_id,
                from,
                to,
                amount,
            }
            &&& currency_id == c && from == s.account_id() && to == who
            &&& is_floor(amount as int, s.rate(c).inner * given, DIV as int)
            &&& s.redeem_receipt(c, who, vouchers).event == Event::<M>::Redeemed(who, c, amount)
            &&& after.account_earned == s.with_earned(c, who).account_earned
            &&& after == (State {
                account_deposits: after.account_deposits,
                total_supply: after.total_supply,
                account_earned: after.account_earned,
                ..s
            })
        }),
{
    law_fixed_quotient(redeem_amount, s.rate(c).inner);
    let vouchers = s.vouchers_for(c, redeem_amount).unwrap();
    law_redeem_pays_the_whole_worth(s, feed, c, who, vouchers);
}

/// Who redeems all gives all their internal supplies, is paid the whole of what
/// they are worth, and has no deposit left.
pub proof fn law_redeem_all_empties_the_deposit<M>(
    s: State<M>,
    feed: Map<CurrencyId, PriceDetail>,
    who: AccountId,
    c: CurrencyId,
)
    requires
        redeem_all_dispatch_refusal(s, feed, Origin::Signed(who), c) is None,
    ensures
        ({
            let vouchers = s.deposits(c, who).voucher_balance;
            let after = s.with_earned(c, who).redeemed(c, who, vouchers);
            &&& !after.account_deposits.contains_key((c, who))
            &&& s.supply(c) - after.supply(c) == vouchers
            &&& s.redeem_receipt(c, who, vouchers).call matches CurrencyCall::Transfer {
                currency_id,
                from,
                to,
                amount,
            }
            &&& currency_id == c && from == s.account_id() && to == who
            &&& is_floor(amount as int, s.rate(c).inner * vouchers, DIV as int)
            &&& s.redeem_receipt(c, who, vouchers).event == Event::<M>::Redeemed(who, c, amount)
        }),
{
    let vouchers = s.deposits(c, who).voucher_balance;
    law_redeem_pays_the_whole_worth(s, feed, c, who, vouchers);
}

/// Borrowing pays the borrower, from the protocol's account, what was asked for,
/// and that is what is reported. What was owed by then and what is borrowed become
/// the principal, from the current index on. The sum of all borrows grows by as
/// much, and nothing else changes.
pub proof fn law_borrow_pays_what_is_owed_for<M>(
    s: State<M>,
    feed: Map<CurrencyId, PriceDetail>,
    who: AccountId,
    c: CurrencyId,
    borrow_amount: Balance,
)
    requires
        borrow_refusal(s, feed, Origin::Signed(who), c, borrow_amount) is None,
    ensures
        ({
            let after = s.borrowed(c, who, borrow_amount);
            let receipt = s.borrow_receipt(c, who, borrow_amount);
            let snapshot = after.account_borrows[(c, who)];
            &&& receipt.call matches CurrencyCall::Transfer { currency_id, from, to, amount }
            &&& currency_id == c && from == s.account_id() && to == who
            &&& amount == borrow_amount
            &&& receipt.event == Event::<M>::Borrowed(who, c, amount)
            &&& snapshot.principal == s.debt(c, who).unwrap() + amount
            &&& snapshot.borrow_index == s.index(c)
            &&& after.account_borrows.contains_key((c, who))
            &&& after.borrows(c) == s.borrows(c) + amount
            &&& same_but(s.account_borrows, after.account_borrows, (c, who))
            &&& same_but(s.total_borrows, after.total_borrows, c)
            &&& after == (State {
                account_borrows: after.account_borrows,
                total_borrows: after.total_borrows,
                ..s
            })
        }),
{
}

/// Repaying moves what is repaid from the borrower to the protocol, and that is
/// what is reported. What was owed by then, less what is repaid, becomes the
/// principal, from the current index on. The sum of all borrows shrinks by as much,
/// down to nought, and nothing else changes.
pub proof fn law_repay_takes_what_is_repaid<M>(
    s: State<M>,
    who: AccountId,
    c: CurrencyId,
    repay_amount: Balance,
)
    requires
        repay_refusal(s, Origin::Signed(who), c, repay_amount) is None,
    ensures
        ({
            let after = s.repaid(c, who, repay_amount);
            let receipt = s.repay_receipt(c, who, repay_amount);
            let snapshot = after.account_borrows[(c, who)];
            &&& receipt.call matches CurrencyCall::Transfer { currency_id, from, to, amount }
            &&& currency_id == c && from == who && to == s.account_id()
            &&& amount == repay_amount
            &&& receipt.event == Event::<M>::RepaidBorrow(who, c, amount)
            &&& snapshot.principal == s.debt(c, who).unwrap() - amount
            &&& snapshot.borrow_index == s.index(c)
            &&& after.account_borrows.contains_key((c, who))
            &&& after.borrows(c) == 0 || after.borrows(c) == s.borrows(c) - amount
            &&& after.borrows(c) >= s.borrows(c) - amount
            &&& same_but(s.account_borrows, after.account_borrows, (c, who))
            &&& same_but(s.total_borrows, after.total_borrows, c)
            &&& after == (State {
                account_borrows: after.account_borrows,
                total_borrows: after.total_borrows,
                ..s
            })
        }),
{
}

/// Repaying all is repaying the whole debt, and is never refused as too much.
pub proof fn law_repay_all_is_repaying_the_debt<M>(s: State<M>, who: AccountId, c: CurrencyId)
    ensures
        repay_all_refusal(s, Origin::Signed(who), c) is None ==> repay_refusal(
            s,
            Origin::Signed(who),
            c,
            s.debt(c, who).unwrap(),
        ) is None,
{
}

/// Turning collateral on or off changes the mark of that deposit, and nothing else.
pub proof fn law_collateral_is_a_mark<M>(
    s: State<M>,
    feed: Map<CurrencyId, PriceDetail>,
    who: AccountId,
    c: CurrencyId,
    enable: bool,
)
    requires
        collateral_asset_refusal(s, feed, Origin::Signed(who), c, enable) is None,
    ensures
        ({
            let after = s.with_collateral(c, who, enable);
            let (before_held, after_held) = (
                s.account_deposits[(c, who)],
                after.account_deposits[(c, who)],
            );
            &&& s.account_deposits.contains_key((c, who))
            &&& after.account_deposits.contains_key((c, who))
            &&& before_held.is_collateral == !enable
            &&& after_held.is_collateral == enable
            &&& after_held.voucher_balance == before_held.voucher_balance
            &&& same_but(s.account_deposits, after.account_deposits, (c, who))
            &&& after == (State { account_deposits: after.account_deposits, ..s })
        }),
{
}

/// Adding reserves moves what is added from the payer to the protocol. What is
/// reported is what was added and what the reserves are then, which is as much more
/// as was added. Nothing else changes.
pub proof fn law_reserves_grow_by_what_is_paid<M>(
    s: State<M>,
    payer: AccountId,
    c: CurrencyId,
    add_amount: Balance,
)
    requires
        add_reserves_refusal(s, true, Some(payer), c, add_amount, Ok(())) is None,
    ensures
        ({
            let after = s.reserves_added(c, add_amount);
            &&& s.add_reserves_call(payer, c, add_amount) matches CurrencyCall::Transfer {
                currency_id,
                from,
                to,
                amount,
            }
            &&& currency_id == c && from == payer && to == s.account_id()
            &&& amount == add_amount
            &&& after.reserves(c) - s.reserves(c) == amount
            &&& s.add_reserves_event(c, add_amount) == Event::<M>::ReservesAdded(
                s.account_id(),
                c,
                amount,
                after.reserves(c),
            )
            &&& same_but(s.total_reserves, after.total_reserves, c)
            &&& after == (State { total_reserves: after.total_reserves, ..s })
        }),
{
}

/// Reducing reserves moves what is taken from the protocol to the receiver. What is
/// reported is what was taken and what the reserves are then, which is as much less
/// as was taken. Nothing else changes.
pub proof fn law_reserves_shrink_by_what_is_taken<M>(
    s: State<M>,
    receiver: AccountId,
    c: CurrencyId,
    reduce_amount: Balance,
)
    requires
        reduce_reserves_refusal(s, true, Some(receiver), c, reduce_amount) is None,
    ensures
        ({
            let after = s.reserves_reduced(c, reduce_amount);
            let receipt = s.reduce_reserves_receipt(receiver, c, reduce_amount);
            &&& receipt.call matches CurrencyCall::Transfer { currency_id, from, to, amount }
            &&& currency_id == c && from == s.account_id() && to == receiver
            &&& amount == reduce_amount
            &&& s.reserves(c) - after.reserves(c) == amount
            &&& receipt.event == Event::<M>::ReservesReduced(
                receiver,
                c,
                amount,
                after.reserves(c),
            )
            &&& same_but(s.total_reserves, after.total_reserves, c)
            &&& after == (State { total_reserves: after.total_reserves, ..s })
        }),
{
}

/// Storing a market stores it as it is, for that currency alone.
pub proof fn law_a_stored_market_is_read_back<M>(s: State<M>, c: CurrencyId, market: Market<M>)
    ensures
        ({
            let after = s.with_stored_market(c, market);
            &&& after.markets.contains_key(c) && after.markets[c] == market
            &&& same_but(s.markets, after.markets, c)
            &&& after == (State {
                markets: after.markets,
                market_order: after.market_order,
                ..s
            })
        }),
{
}

/// An update gives a market all the new parameters, and leaves its state, the other
/// markets and all else as they are.
pub proof fn law_update_sets_all_but_the_state<M>(s: State<M>, c: CurrencyId, market: Market<M>)
    requires
        update_market_refusal(s, true, c, true) is None,
    ensures
        ({
            let after = s.updated(c, market);
            let updated = after.markets[c];
            &&& updated.state == s.markets[c].state
            &&& updated.collateral_factor == market.collateral_factor
            &&& updated.reserve_factor == market.reserve_factor
            &&& updated.close_factor == market.close_factor
            &&& updated.liquidate_incentive == market.liquidate_incentive
            &&& updated.rate_model == market.rate_model
            &&& same_but(s.markets, after.markets, c)
            &&& after == (State { markets: after.markets, ..s })
        }),
{
}

/// Activation changes the state of a market, and no other parameter of it.
pub proof fn law_activation_sets_the_state_alone<M>(s: State<M>, c: CurrencyId)
    requires
        active_market_refusal(s, true, c) is None,
    ensures
        ({
            let after = s.activated(c);
            let (was, is) = (s.markets[c], after.markets[c]);
            &&& is.state is Active
            &&& is == (Market { state: MarketState::Active, ..was })
            &&& same_but(s.markets, after.markets, c)
            &&& after == (State { markets: after.markets, ..s })
        }),
{
}

/// A block ends with what accrued in it, at its own time. Where nothing could
/// accrue, all is as it was, and the time of the last block that did is kept: only
/// a chain that has none takes the time of this one.
pub proof fn law_a_block_ends_with_what_accrued<M>(
    s: State<M>,
    now: Timestamp,
    accrued: Result<State<M>, Refusal>,
)
    ensures
        ({
            let after = s.finalized(now, accrued);
            match accrued {
                Ok(state) => {
                    &&& after.last_block_timestamp == now
                    &&& after == (State {
                        last_block_timestamp: after.last_block_timestamp,
                        ..state
                    })
                },
                Err(_) => {
                    &&& s.last_block_timestamp > 0 ==> after == s
                    &&& s.last_block_timestamp == 0 ==> after.last_block_timestamp == now
                    &&& after == (State { last_block_timestamp: after.last_block_timestamp, ..s })
                },
            }
        }),
        s.prepared(now).last_block_timestamp == 0 ==> now == 0,
        s.prepared(now) == (State {
            last_block_timestamp: s.prepared(now).last_block_timestamp,
            ..s
        }),
        s.last_block_timestamp > 0 ==> s.prepared(now) == s,
{
}

/// A new protocol has its settings, and stores nothing.
pub proof fn law_a_new_protocol_stores_nothing<M>(config: Config, c: CurrencyId, who: AccountId)
    ensures
        ({
            let s = empty_state::<M>(config);
            &&& s.config == config
            &&& s.last_block_timestamp == 0
            &&& s.market_order.len() == 0
            &&& !s.markets.contains_key(c)
            &&& !s.total_supply.contains_key(c)
            &&& !s.total_borrows.contains_key(c)
            &&& !s.total_reserves.contains_key(c)
            &&& !s.borrow_index.contains_key(c)
            &&& !s.exchange_rate.contains_key(c)
            &&& !s.borrow_rate.contains_key(c)
            &&& !s.supply_rate.contains_key(c)
            &&& !s.utilization_ratio.contains_key(c)
            &&& !s.account_deposits.contains_key((c, who))
            &&& !s.account_borrows.contains_key((c, who))
            &&& !s.account_earned.contains_key((c, who))
        }),
{
}

/// At genesis, every listed currency has the market of its last entry and the given
/// index and exchange rate. No other currency has any, and nothing is supplied,
/// borrowed or reserved.
pub proof fn law_genesis_lists_what_is_given<M>(
    genesis: GenesisConfig<M>,
    config: Config,
    i: int,
    c: CurrencyId,
)
    requires
        0 <= i < genesis.markets@.len(),
    ensures
        ({
            let s = genesis.state(config);
            let listed = genesis.markets@[i].0;
            &&& s.index(listed) == genesis.borrow_index
            &&& s.rate(listed) == genesis.exchange_rate
            &&& s.markets.contains_key(listed)
            &&& (forall|j: int| i < j < genesis.markets@.len() ==> genesis.markets@[j].0 != listed)
                ==> s.markets[listed] == genesis.markets@[i].1
            &&& s.last_block_timestamp == genesis.last_block_timestamp
            &&& s.config == config
            &&& (forall|j: int| 0 <= j < genesis.markets@.len() ==> genesis.markets@[j].0 != c)
                ==> {
                &&& !s.markets.contains_key(c)
                &&& s.index(c).inner == 0
                &&& s.rate(c).inner == 0
            }
            &&& s.supply(c) == 0 && s.borrows(c) == 0 && s.reserves(c) == 0
            &&& s.account_deposits.dom().is_empty()
            &&& s.account_borrows.dom().is_empty()
            &&& s.account_earned.dom().is_empty()
        }),
{
    lemma_listed(genesis.markets@, genesis.borrow_index, i, c);
    lemma_listed(genesis.markets@, genesis.exchange_rate, i, c);
}

proof fn lemma_listed<M, V>(
    markets: Seq<(CurrencyId, Market<M>)>,
    value: V,
    i: int,
    c: CurrencyId,
)
    ensures
        0 <= i < markets.len() ==> {
            let listed = markets[i].0;
            &&& for_each_market(markets, value).contains_key(listed)
            &&& for_each_market(markets, value)[listed] == value
            &&& listed_markets(markets).contains_key(listed)
            &&& (forall|j: int| i < j < markets.len() ==> markets[j].0 != listed)
                ==> listed_markets(markets)[listed] == markets[i].1
        },
        (forall|j: int| 0 <= j < markets.len() ==> markets[j].0 != c) ==> {
            &&& !for_each_market(markets, value).contains_key(c)
            &&& !listed_markets(markets).contains_key(c)
        },
    decreases markets.len(),
{
    if markets.len() > 0 {
        let before = markets.drop_last();
        lemma_listed(before, value, i, c);
        if 0 <= i < before.len() {
            assert(before[i] == markets[i]);
            if forall|j: int| i < j < markets.len() ==> markets[j].0 != markets[i].0 {
                assert(markets[markets.len() - 1].0 != markets[i].0);
                assert forall|j: int| i < j < before.len() implies before[j].0 != before[i].0 by {
                    assert(before[j] == markets[j]);
                }
            }
        }
        if forall|j: int| 0 <= j < markets.len() ==> markets[j].0 != c {
            assert(markets[markets.len() - 1].0 != c);
            assert forall|j: int| 0 <= j < before.len() implies before[j].0 != c by {
                assert(before[j] == markets[j]);
            }
        }
    }
}

} // verus!
