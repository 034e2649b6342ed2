//! What holds of the market maker as a whole.

pub mod amounts;

use vstd::prelude::*;
use vstd::arithmetic::div_mod::{lemma_div_multiples_vanish, lemma_fundamental_div_mod};
use crate::amm::{amount_after_fees, amount_out, can_increase, funding_calls, ideal_amounts};
use crate::amm::{increased, least_amount, lp_fees, ownership_of, payout, pool_after_trade};
use crate::amm::{pool_decreased, pool_increased, pool_opened, pool_traded, protocol_fees};
use crate::amm::{ratio, removal_calls, remove_liquidity_refusal, supplies, trade_calls};
use crate::amm::{trade_in_pool_refusal, trade_refusal, traded, upper_currency, Config, Error};
use crate::amm::{PoolLiquidityAmount, State};
use crate::arithmetic::{capped, lemma_part_fits, part_floor, root, saturated};
use crate::arithmetic::{Perbill, PERBILL};
use crate::primitives::{AccountId, Balance, CurrencyCall, CurrencyId, Origin, Refusal};

verus! {

/// Both orders of a pair of tokens lead to the same pool. Unless the two are
/// the same token, exactly one of the orders is inverted.
pub proof fn law_pair_order_is_irrelevant(a: CurrencyId, b: CurrencyId)
    ensures
        upper_currency(a, b) is Some <==> a is Token && b is Token,
        upper_currency(a, b) is Some <==> upper_currency(b, a) is Some,
        upper_currency(a, b) is Some ==> {
            let (inverted, base, quote) = upper_currency(a, b).unwrap();
            let (inverted_back, base_back, quote_back) = upper_currency(b, a).unwrap();
            &&& base == base_back && quote == quote_back
            &&& base->Token_0.index >= quote->Token_0.index
            &&& inverted <==> (base, quote) == (b, a)
            &&& a != b ==> inverted != inverted_back
        },
{
}

/// `ratio` never exceeds the exact quotient.
proof fn lemma_ratio(a: Balance, b: Balance, c: Balance)
    requires
        c > 0,
    ensures
        ratio(a, b, c) * c <= a * b,
{
    let p = saturated(a * b) as int;
    assert(0 <= a * b) by (nonlinear_arith);
    assert(p <= a * b);
    lemma_fundamental_div_mod(p, c as int);
    assert((p / (c as int)) * (c as int) == (c as int) * (p / (c as int))) by (nonlinear_arith);
}

/// A trade never makes the product of the two reserves smaller.
pub proof fn law_trade_keeps_product(
    config: Config,
    is_inverted: bool,
    pool: PoolLiquidityAmount,
    amount_in: Balance,
    minimum_amount_out: Balance,
)
    requires
        ({
            let (supply_in, supply_out) = supplies(is_inverted, pool);
            trade_in_pool_refusal(
                config,
                supply_in,
                supply_out,
                amount_in,
                minimum_amount_out,
            ) is None
        }),
    ensures
        ({
            let (supply_in, supply_out) = supplies(is_inverted, pool);
            let amount_out = traded(amount_after_fees(config, amount_in), supply_in, supply_out);
            let after = pool_after_trade(
                is_inverted,
                pool,
                amount_in - protocol_fees(config, amount_in),
                amount_out,
            );
            after.base_amount * after.quote_amount >= pool.base_amount * pool.quote_amount
        }),
{
    let (supply_in, supply_out) = supplies(is_inverted, pool);
    let amount = amount_after_fees(config, amount_in);
    let paid_in = amount_in - protocol_fees(config, amount_in);
    let amount_out = traded(amount, supply_in, supply_out);
    lemma_fees(config, amount_in);
    law_trade_yields_at_most_the_reserve(amount, supply_in, supply_out);
    let s = supply_in as int;
    let t = supply_out as int;
    assert((s + paid_in) * (t - amount_out) >= s * t) by (nonlinear_arith)
        requires
            s >= 0,
            t - amount_out >= 0,
            paid_in >= amount >= 0,
            amount_out * (s + amount) <= amount * t,
    {
        assert((s + amount) * (t - amount_out) == (s + amount) * t - amount_out * (s + amount));
        assert((s + amount) * t == s * t + amount * t);
        assert((s + paid_in) * (t - amount_out) >= (s + amount) * (t - amount_out));
    }
    assert((t - amount_out) * (s + paid_in) == (s + paid_in) * (t - amount_out))
        by (nonlinear_arith);
    assert(t * s == s * t) by (nonlinear_arith);
}

/// Fees are not negative.
proof fn lemma_fees(config: Config, amount_in: Balance)
    ensures
        0 <= protocol_fees(config, amount_in) <= amount_in,
        0 <= lp_fees(config, amount_in) <= amount_in,
{
    lemma_part_fits(config.protocol_fee.parts, PERBILL, amount_in);
    lemma_part_fits(config.lp_fee.parts, PERBILL, amount_in);
}

/// A trade that is not refused incurs at least one unit of the fee that goes back
/// to the pool.
pub proof fn law_trade_incurs_lp_fee(
    s: State,
    pair: (CurrencyId, CurrencyId),
    amount_in: Balance,
    minimum_amount_out: Balance,
)
    requires
        trade_refusal(s, pair, amount_in, minimum_amount_out) is None,
    ensures
        lp_fees(s.config, amount_in) >= 1,
{
}

/// A trade of more than the least amount incurs at least one unit of the
/// protocol's fee. At the least amount, rounding may leave none.
pub proof fn law_trade_incurs_protocol_fee(
    s: State,
    pair: (CurrencyId, CurrencyId),
    amount_in: Balance,
    minimum_amount_out: Balance,
)
    requires
        s.config.protocol_fee.parts > 0,
        trade_refusal(s, pair, amount_in, minimum_amount_out) is None,
        amount_in != least_amount(s.config.protocol_fee),
    ensures
        protocol_fees(s.config, amount_in) >= 1,
{
    lemma_fee_is_incurred(s.config.protocol_fee, amount_in);
}

/// More than the least amount costs at least one unit.
proof fn lemma_fee_is_incurred(fee: Perbill, amount: Balance)
    requires
        fee.parts > 0,
        amount > least_amount(fee),
    ensures
        part_floor(fee.parts, PERBILL, amount) >= 1,
{
    let (w, c, a) = (PERBILL as int, capped(fee.parts, PERBILL), amount as int);
    let least = (2 * w + c) / (2 * c);
    lemma_fundamental_div_mod(2 * w + c, 2 * c);
    assert(least <= 2 * w + c) by (nonlinear_arith)
        requires
            least == (2 * w + c) / (2 * c),
            0 < c,
            0 < w,
    ;
    assert(a * c >= w) by (nonlinear_arith)
        requires
            a >= least + 1,
            2 * w + c < (2 * c) * least + 2 * c,
            0 < c,
    ;
    assert(a * c / w >= 1) by (nonlinear_arith)
        requires
            a * c >= w,
            0 < w,
    ;
}

/// A trade yields at most what the exact price gives, and so never more than the
/// reserve that it is paid from.
pub proof fn law_trade_yields_at_most_the_reserve(
    amount: int,
    supply_in: Balance,
    supply_out: Balance,
)
    requires
        0 <= amount,
        0 < supply_in + amount,
    ensures
        0 <= traded(amount, supply_in, supply_out) <= supply_out,
        traded(amount, supply_in, supply_out) * (supply_in + amount) <= amount * supply_out,
{
    let p = saturated(amount * supply_out) as int;
    let c = supply_in + amount;
    let q = p / c;
    assert(0 <= amount * supply_out) by (nonlinear_arith)
        requires
            0 <= amount,
    ;
    assert(p <= amount * supply_out);
    lemma_fundamental_div_mod(p, c);
    assert(q * c == c * q) by (nonlinear_arith);
    assert(q * c <= p);
    assert(0 <= q <= supply_out) by (nonlinear_arith)
        requires
            0 <= p <= amount * supply_out,
            q == p / c,
            q * c <= p,
            0 < c,
            amount <= c,
    ;
}

/// A trade takes exactly `amount_in` from the trader, and what does not go to
/// the receiver of the protocol's fees goes to the pool.
pub proof fn law_trade_takes_amount_in(
    s: State,
    who: AccountId,
    pair: (CurrencyId, CurrencyId),
    amount_in: Balance,
    amount_out: Balance,
)
    ensures
        ({
            let calls = trade_calls(s, who, pair, amount_in, amount_out);
            &&& calls.len() == 3
            &&& calls[0] matches CurrencyCall::Transfer {
                currency_id: in_pool,
                from: payer,
                to: pool,
                amount: to_pool,
            }
            &&& calls[2] matches CurrencyCall::Transfer {
                currency_id: in_fees,
                from: fee_payer,
                to: receiver,
                amount: to_receiver,
            }
            &&& in_pool == pair.0 && in_fees == pair.0
            &&& payer == who && fee_payer == who
            &&& pool == s.account_id() && receiver == s.config.protocol_fee_receiver
            &&& to_pool + to_receiver == amount_in
        }),
{
    lemma_fees(s.config, amount_in);
}

/// Providers never put in more than they offer.
pub proof fn law_ideal_amounts_keep_to_the_offer(
    pool: PoolLiquidityAmount,
    offered: (Balance, Balance),
)
    requires
        pool.base_amount > 0,
    ensures
        ideal_amounts(pool, offered).0 <= offered.0,
        ideal_amounts(pool, offered).1 <= offered.1,
{
    let b = pool.base_amount as int;
    let q = pool.quote_amount as int;
    let optimal = ratio(offered.0, pool.quote_amount, pool.base_amount);
    lemma_ratio(offered.0, pool.quote_amount, pool.base_amount);
    if optimal > offered.1 {
        assert(q > 0) by (nonlinear_arith)
            requires
                optimal * b <= offered.0 * q,
                optimal > 0,
                b > 0,
                q >= 0,
        ;
        let used = ratio(offered.1, pool.base_amount, pool.quote_amount);
        lemma_ratio(offered.1, pool.base_amount, pool.quote_amount);
        assert(used <= offered.0) by (nonlinear_arith)
            requires
                used * q <= offered.1 * b,
                offered.1 <= optimal,
                optimal * b <= offered.0 * q,
                b > 0,
                q > 0,
        {
            assert(offered.1 * b <= optimal * b);
            assert(used * q <= offered.0 * q);
        }
    }
}

/// Ownership is handed out at no better a price than the pool has: for neither
/// asset is a provider's part of the ownership larger than what was put in.
pub proof fn law_ownership_is_paid_for(
    pool: PoolLiquidityAmount,
    amounts: (Balance, Balance),
    total: Balance,
)
    requires
        pool.base_amount > 0,
        pool.quote_amount > 0,
    ensures
        ownership_of(pool, amounts, total) * pool.base_amount <= amounts.0 * total,
        ownership_of(pool, amounts, total) * pool.quote_amount <= amounts.1 * total,
{
    let o = ownership_of(pool, amounts, total);
    let x = ratio(amounts.0, total, pool.base_amount);
    let y = ratio(amounts.1, total, pool.quote_amount);
    lemma_ratio(amounts.0, total, pool.base_amount);
    lemma_ratio(amounts.1, total, pool.quote_amount);
    assert(o * pool.base_amount <= x * pool.base_amount) by (nonlinear_arith)
        requires
            o <= x,
    ;
    assert(o * pool.quote_amount <= y * pool.quote_amount) by (nonlinear_arith)
        requires
            o <= y,
    ;
}

/// Whoever removes ownership is paid at most their part of the pool.
pub proof fn law_payout_is_a_part_of_the_pool(
    pool: PoolLiquidityAmount,
    ownership: Balance,
    total: Balance,
)
    requires
        ownership <= total,
        total > 0,
    ensures
        payout(pool, ownership, total).0 * total <= ownership * pool.base_amount,
        payout(pool, ownership, total).1 * total <= ownership * pool.quote_amount,
        payout(pool, ownership, total).0 <= pool.base_amount,
        payout(pool, ownership, total).1 <= pool.quote_amount,
{
    lemma_ratio(ownership, pool.base_amount, total);
    lemma_ratio(ownership, pool.quote_amount, total);
    let (base_paid, quote_paid) = payout(pool, ownership, total);
    let (o, t) = (ownership as int, total as int);
    lemma_part(base_paid as int, pool.base_amount as int, o, t);
    lemma_part(quote_paid as int, pool.quote_amount as int, o, t);
}

proof fn lemma_part(paid: int, amount: int, share: int, whole: int)
    requires
        0 <= share <= whole,
        0 < whole,
        0 <= amount,
        paid * whole <= share * amount,
    ensures
        paid <= amount,
{
    assert(paid <= amount) by (nonlinear_arith)
        requires
            0 <= share <= whole,
            0 < whole,
            0 <= amount,
            paid * whole <= share * amount,
    {
        assert(share * amount <= whole * amount);
        assert(paid * whole <= amount * whole);
    }
}

/// Whoever removes all the ownership there is takes the whole pool, as long as
/// the products fit in a balance.
pub proof fn law_whole_ownership_takes_the_pool(pool: PoolLiquidityAmount, total: Balance)
    requires
        total > 0,
        total * pool.base_amount <= u128::MAX,
        total * pool.quote_amount <= u128::MAX,
    ensures
        payout(pool, total, total) == (pool.base_amount, pool.quote_amount),
{
    assert(0 <= total * pool.base_amount) by (nonlinear_arith);
    assert(0 <= total * pool.quote_amount) by (nonlinear_arith);
    lemma_div_multiples_vanish(pool.base_amount as int, total as int);
    lemma_div_multiples_vanish(pool.quote_amount as int, total as int);
}

/// Whoever adds liquidity to a pool and removes the ownership got for it, with
/// nothing in between, is paid no more than was put in.
pub proof fn law_add_then_remove_gains_nothing(
    pool: PoolLiquidityAmount,
    amounts: (Balance, Balance),
    total: Balance,
    lp_token: CurrencyId,
)
    requires
        pool.base_amount > 0,
        pool.quote_amount > 0,
        pool.base_amount + amounts.0 <= u128::MAX,
        pool.quote_amount + amounts.1 <= u128::MAX,
        total > 0,
        total + ownership_of(pool, amounts, total) <= u128::MAX,
    ensures
        ({
            let ownership = ownership_of(pool, amounts, total);
            let paid = payout(
                increased(pool, amounts, lp_token),
                ownership,
                (total + ownership) as u128,
            );
            paid.0 <= amounts.0 && paid.1 <= amounts.1
        }),
{
    let o = ownership_of(pool, amounts, total);
    let after = increased(pool, amounts, lp_token);
    let new_total = (total + o) as u128;
    law_ownership_is_paid_for(pool, amounts, total);
    lemma_ratio(o, after.base_amount, new_total);
    lemma_ratio(o, after.quote_amount, new_total);
    lemma_round_trip(
        payout(after, o, new_total).0 as int,
        pool.base_amount as int,
        amounts.0 as int,
        total as int,
        o as int,
    );
    lemma_round_trip(
        payout(after, o, new_total).1 as int,
        pool.quote_amount as int,
        amounts.1 as int,
        total as int,
        o as int,
    );
}

proof fn lemma_round_trip(paid: int, reserve: int, amount: int, total: int, o: int)
    requires
        0 < total,
        0 <= o,
        0 <= amount,
        o * reserve <= amount * total,
        paid * (total + o) <= o * (reserve + amount),
    ensures
        paid <= amount,
{
    assert(paid <= amount) by (nonlinear_arith)
        requires
            0 < total,
            0 <= o,
            0 <= amount,
            o * reserve <= amount * total,
            paid * (total + o) <= o * (reserve + amount),
    {
        assert(o * (reserve + amount) == o * reserve + o * amount);
        assert(amount * (total + o) == amount * total + o * amount);
        assert(paid * (total + o) <= amount * (total + o));
    }
}

/// What a pool books is what the ledger moves between the provider and the
/// account of the pools: all of it when a pool is opened, and the difference when
/// liquidity is added. No other pool changes.
pub proof fn law_pool_books_what_is_provided(
    s: State,
    who: AccountId,
    base: CurrencyId,
    quote: CurrencyId,
    amounts: (Balance, Balance),
    ownership: Balance,
)
    ensures
        ({
            let calls = funding_calls(s, who, base, quote, amounts, ownership);
            let opened = pool_opened(s, who, base, quote, amounts);
            let added = pool_increased(s, who, base, quote, amounts);
            let pool = s.pools[(base, quote)];
            &&& calls.len() == 3
            &&& calls[1] == (CurrencyCall::Transfer {
                currency_id: base,
                from: who,
                to: s.account_id(),
                amount: amounts.0,
            })
            &&& calls[2] == (CurrencyCall::Transfer {
                currency_id: quote,
                from: who,
                to: s.account_id(),
                amount: amounts.1,
            })
            &&& opened.pools[(base, quote)].base_amount == amounts.0
            &&& opened.pools[(base, quote)].quote_amount == amounts.1
            &&& can_increase(pool, amounts) ==> {
                &&& added.pools[(base, quote)].base_amount == pool.base_amount + amounts.0
                &&& added.pools[(base, quote)].quote_amount == pool.quote_amount + amounts.1
            }
            &&& forall|other: (CurrencyId, CurrencyId)|
                other != (base, quote) && #[trigger] s.pools.contains_key(other) ==> {
                    &&& opened.pools.contains_key(other) && opened.pools[other] == s.pools[other]
                    &&& added.pools.contains_key(other) && added.pools[other] == s.pools[other]
                }
        }),
{
}

/// What a pool books of a removal is what the ledger moves: what the provider is
/// paid goes out. A pool that nobody owns any more had only that left, as long as
/// the products fit in a balance. No other pool changes.
pub proof fn law_pool_books_what_is_removed(
    s: State,
    origin: Origin,
    pair: (CurrencyId, CurrencyId),
    ownership: Balance,
    held: Balance,
    total: Balance,
)
    requires
        remove_liquidity_refusal(s, origin, pair, ownership, held, total) is None,
    ensures
        ({
            let who = origin->Signed_0;
            let (_, base, quote) = upper_currency(pair.0, pair.1).unwrap();
            let pool = s.pools[(base, quote)];
            let paid = payout(pool, ownership, total);
            let calls = removal_calls(s, who, base, quote, ownership, paid);
            let after = pool_decreased(s, who, base, quote, paid, ownership == total);
            &&& calls.len() == 3
            &&& calls[1] == (CurrencyCall::Transfer {
                currency_id: base,
                from: s.account_id(),
                to: who,
                amount: paid.0,
            })
            &&& calls[2] == (CurrencyCall::Transfer {
                currency_id: quote,
                from: s.account_id(),
                to: who,
                amount: paid.1,
            })
            &&& ownership < total ==> {
                &&& after.pools.contains_key((base, quote))
                &&& after.pools[(base, quote)].base_amount == pool.base_amount - paid.0
                &&& after.pools[(base, quote)].quote_amount == pool.quote_amount - paid.1
                &&& after.pools[(base, quote)].lp_token == pool.lp_token
            }
            &&& ownership == total ==> !after.pools.contains_key((base, quote))
            &&& ownership == total && total * pool.base_amount <= u128::MAX && total
                * pool.quote_amount <= u128::MAX ==> paid == (pool.base_amount, pool.quote_amount)
            &&& forall|other: (CurrencyId, CurrencyId)|
                other != (base, quote) && #[trigger] s.pools.contains_key(other)
                    ==> after.pools.contains_key(other) && after.pools[other] == s.pools[other]
        }),
{
    let (_, base, quote) = upper_currency(pair.0, pair.1).unwrap();
    let pool = s.pools[(base, quote)];
    law_payout_is_a_part_of_the_pool(pool, ownership, total);
    if ownership == total && total * pool.base_amount <= u128::MAX && total * pool.quote_amount
        <= u128::MAX {
        law_whole_ownership_takes_the_pool(pool, total);
    }
}

/// Whoever removes more of the ownership than they have is refused for it.
pub proof fn law_nobody_removes_more_than_they_have(
    s: State,
    who: AccountId,
    pair: (CurrencyId, CurrencyId),
    ownership: Balance,
    held: Balance,
    total: Balance,
)
    requires
        held < ownership,
        upper_currency(pair.0, pair.1) matches Some((_, base, quote)) && s.pools.contains_key(
            (base, quote),
        ),
    ensures
        remove_liquidity_refusal(s, Origin::Signed(who), pair, ownership, held, total) == Some(
            Refusal::Amm(Error::MoreLiquidity),
        ),
{
}

/// What a pool books of a trade is what the ledger moves: what the trader pays in
/// without the protocol's fees comes in, and what the trader gets goes out.
pub proof fn law_pool_books_what_is_traded(
    s: State,
    who: AccountId,
    pair: (CurrencyId, CurrencyId),
    amount_in: Balance,
    minimum_amount_out: Balance,
)
    requires
        trade_refusal(s, pair, amount_in, minimum_amount_out) is None,
    ensures
        ({
            let (is_inverted, base, quote) = upper_currency(pair.0, pair.1).unwrap();
            let yielded = amount_out(s, pair, amount_in);
            let calls = trade_calls(s, who, pair, amount_in, yielded as u128);
            let before = supplies(is_inverted, s.pools[(base, quote)]);
            let after = supplies(is_inverted, pool_traded(s, pair, amount_in).pools[(base, quote)]);
            &&& calls[0] matches CurrencyCall::Transfer { amount, .. } && amount == after.0
                - before.0
            &&& calls[1] matches CurrencyCall::Transfer { amount, .. } && amount == before.1
                - after.1
            &&& minimum_amount_out <= yielded
        }),
{
    let (is_inverted, base, quote) = upper_currency(pair.0, pair.1).unwrap();
    let (supply_in, supply_out) = supplies(is_inverted, s.pools[(base, quote)]);
    lemma_fees(s.config, amount_in);
    law_trade_yields_at_most_the_reserve(
        amount_after_fees(s.config, amount_in),
        supply_in,
        supply_out,
    );
}

/// Whoever trades one token for another and at once trades what that yielded back
/// gains nothing.
pub proof fn law_trade_there_and_back_gains_nothing(
    s: State,
    pair: (CurrencyId, CurrencyId),
    amount_in: Balance,
    minimum_amount_out: Balance,
    minimum_amount_back: Balance,
)
    requires
        pair.0 != pair.1,
        trade_refusal(s, pair, amount_in, minimum_amount_out) is None,
        trade_refusal(
            pool_traded(s, pair, amount_in),
            (pair.1, pair.0),
            amount_out(s, pair, amount_in) as u128,
            minimum_amount_back,
        ) is None,
    ensures
        amount_out(
            pool_traded(s, pair, amount_in),
            (pair.1, pair.0),
            amount_out(s, pair, amount_in) as u128,
        ) <= amount_in,
{
    let after = pool_traded(s, pair, amount_in);
    let back = (pair.1, pair.0);
    law_pair_order_is_irrelevant(pair.0, pair.1);
    let (is_inverted, base, quote) = upper_currency(pair.0, pair.1).unwrap();
    let (supply_in, supply_out) = supplies(is_inverted, s.pools[(base, quote)]);
    let amount = amount_after_fees(s.config, amount_in);
    lemma_fees(s.config, amount_in);
    law_trade_yields_at_most_the_reserve(amount, supply_in, supply_out);
    let yielded = amount_out(s, pair, amount_in);
    let (supply_back, supply_home) = supplies(!is_inverted, after.pools[(base, quote)]);
    let paid_in = amount_in - protocol_fees(s.config, amount_in);
    assert(supply_back == supply_out - yielded);
    assert(supply_home == supply_in + paid_in);
    let amount_back = amount_after_fees(after.config, yielded as u128);
    lemma_fees(after.config, yielded as u128);
    law_trade_yields_at_most_the_reserve(amount_back, supply_back, supply_home);
    let returned = amount_out(after, back, yielded as u128);
    assert(returned == traded(amount_back, supply_back, supply_home));
    lemma_there_and_back(
        supply_in as int,
        supply_out as int,
        amount,
        paid_in,
        yielded,
        amount_back,
        returned,
    );
}

proof fn lemma_there_and_back(
    s: int,
    t: int,
    amount: int,
    paid_in: int,
    yielded: int,
    amount_back: int,
    returned: int,
)
    requires
        0 <= s,
        0 <= amount <= paid_in,
        0 < yielded <= t,
        yielded * (s + amount) <= amount * t,
        0 <= amount_back <= yielded,
        0 < t - yielded + amount_back,
        0 <= returned,
        returned * (t - yielded + amount_back) <= amount_back * (s + paid_in),
    ensures
        returned <= paid_in,
{
    let left = t - yielded;
    let home = s + paid_in;
    // What comes back is at most what trading all that was yielded would bring.
    assert(returned * t <= yielded * home) by (nonlinear_arith)
        requires
            t == left + yielded,
            0 <= left,
            0 <= amount_back <= yielded,
            0 < yielded,
            0 < left + amount_back,
            0 <= home,
            0 <= returned,
            returned * (left + amount_back) <= amount_back * home,
    {
        assert(yielded * (returned * (left + amount_back)) <= yielded * (amount_back * home));
        assert(yielded * (left + amount_back) >= amount_back * (left + yielded))
            by (nonlinear_arith)
            requires
                0 <= left,
                0 <= amount_back <= yielded,
        ;
        assert(returned * (yielded * (left + amount_back)) >= returned * (amount_back * t))
            by (nonlinear_arith)
            requires
                0 <= returned,
                t == left + yielded,
                yielded * (left + amount_back) >= amount_back * (left + yielded),
        ;
        assert(amount_back * (returned * t) <= amount_back * (yielded * home)) by (nonlinear_arith)
            requires
                yielded * (returned * (left + amount_back)) <= yielded * (amount_back * home),
                returned * (yielded * (left + amount_back)) >= returned * (amount_back * t),
        ;
        if amount_back == 0 {
            assert(returned * left <= 0);
            assert(returned == 0);
            assert(0 <= yielded * home);
        }
    }
    assert(yielded * home <= paid_in * t) by (nonlinear_arith)
        requires
            home == s + paid_in,
            yielded * (s + amount) <= amount * t,
            amount <= paid_in,
            yielded <= t,
    {
        assert(yielded * s <= amount * (t - yielded));
        assert(amount * (t - yielded) <= paid_in * (t - yielded));
    }
    assert(returned <= paid_in) by (nonlinear_arith)
        requires
            returned * t <= paid_in * t,
            0 < t,
    ;
}

/// Whoever opens a pool and removes the ownership got for it, with nothing in
/// between, is paid no more than was put in.
pub proof fn law_open_then_remove_gains_nothing(
    amounts: (Balance, Balance),
    total: Balance,
    lp_token: CurrencyId,
)
    requires
        ({
            let ownership = root(saturated(amounts.0 * amounts.1) as int) as u128;
            0 < total + ownership <= u128::MAX
        }),
    ensures
        ({
            let ownership = root(saturated(amounts.0 * amounts.1) as int) as u128;
            let pool = PoolLiquidityAmount {
                base_amount: amounts.0,
                quote_amount: amounts.1,
                lp_token,
            };
            let paid = payout(pool, ownership, (total + ownership) as u128);
            paid.0 <= amounts.0 && paid.1 <= amounts.1
        }),
{
    let ownership = root(saturated(amounts.0 * amounts.1) as int) as u128;
    let pool = PoolLiquidityAmount { base_amount: amounts.0, quote_amount: amounts.1, lp_token };
    law_payout_is_a_part_of_the_pool(pool, ownership, (total + ownership) as u128);
}

} // verus!
