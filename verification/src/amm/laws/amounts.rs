//! What adding, removing and trading come to, in terms of the offers, the reserves
//! and the fees.

use vstd::prelude::*;
use crate::amm::laws::{law_ideal_amounts_keep_to_the_offer, law_ownership_is_paid_for};
use crate::amm::laws::{law_payout_is_a_part_of_the_pool, law_trade_yields_at_most_the_reserve};
use crate::amm::{add_liquidity_refusal, amount_out, force_create_pool_refusal, funding_calls};
use crate::amm::{ideal_amounts, least_amount, liquidity_added, liquidity_added_calls};
use crate::amm::{liquidity_removed, liquidity_removed_calls, lp_fees, opening_ownership};
use crate::amm::{ordered, ownership_of, payout, pool_decreased, pool_increased, pool_opened};
use crate::amm::{pool_traded, protocol_fees, ratio, removal_calls, remove_liquidity_refusal};
use crate::amm::{supplies, trade_calls, trade_event, trade_refusal, upper_currency, Config};
use crate::amm::{Error, Event, PoolLiquidityAmount, State};
use crate::arithmetic::{capped, is_floor, is_root, law_part, lemma_floor, lemma_floor_is_unique};
use crate::arithmetic::{lemma_part_fits, lemma_root, root, Perbill, DIV, PERBILL};
use crate::primitives::{account_digest, AccountId, Balance, CurrencyCall, CurrencyId, Origin};
use crate::primitives::Refusal;

verus! {

/// `x`, but no more than the largest balance.
pub open spec fn cut(x: int) -> int {
    if x <= u128::MAX {
        x
    } else {
        u128::MAX as int
    }
}

/// What an amount is worth at the price of a pool is the amount times one reserve
/// over the other, rounded down.
pub proof fn law_quote_follows_the_price(amount: Balance, base_pool: Balance, quote_pool: Balance)
    requires
        base_pool > 0,
    ensures
        is_floor(
            ratio(amount, quote_pool, base_pool) as int,
            cut(amount * quote_pool),
            base_pool as int,
        ),
{
    assert(0 <= amount * quote_pool) by (nonlinear_arith);
    lemma_floor(cut(amount * quote_pool), base_pool as int);
}

/// The two sides of an offer stay with their tokens, in whichever order these are
/// named.
pub proof fn law_amounts_go_with_their_tokens(
    a: CurrencyId,
    b: CurrencyId,
    amounts: (Balance, Balance),
)
    requires
        a is Token,
        b is Token,
        a != b,
    ensures
        ({
            let (is_inverted, base, quote) = upper_currency(a, b).unwrap();
            let (is_inverted_back, _, _) = upper_currency(b, a).unwrap();
            let (for_base, for_quote) = ordered(is_inverted, amounts);
            &&& base == a ==> quote == b && for_base == amounts.0 && for_quote == amounts.1
            &&& base == b ==> quote == a && for_base == amounts.1 && for_quote == amounts.0
            &&& base == a || base == b
            &&& ordered(is_inverted_back, (amounts.1, amounts.0)) == ordered(is_inverted, amounts)
        }),
{
}

/// It does not matter in which order the tokens of a pool are named, as long as the
/// amounts are named in the same one.
pub proof fn law_order_of_an_offer_is_irrelevant(
    s: State,
    origin: Origin,
    a: CurrencyId,
    b: CurrencyId,
    offered: (Balance, Balance),
    minimum: (Balance, Balance),
    ownership: Balance,
    held: Balance,
    total: Balance,
)
    requires
        a != b,
    ensures
        add_liquidity_refusal(s, origin, (a, b), offered, minimum) == add_liquidity_refusal(
            s,
            origin,
            (b, a),
            (offered.1, offered.0),
            (minimum.1, minimum.0),
        ),
        force_create_pool_refusal(s, origin, (a, b)) == force_create_pool_refusal(
            s,
            origin,
            (b, a),
        ),
        remove_liquidity_refusal(s, origin, (a, b), ownership, held, total)
            == remove_liquidity_refusal(s, origin, (b, a), ownership, held, total),
{
}

/// What of an offer is put into an existing pool: all of the base asset, with as
/// much of the quote asset as it is worth, where that was offered, and else all of
/// the quote asset, with as much of the base asset as it is worth.
pub proof fn law_offers_are_used_at_the_price(
    pool: PoolLiquidityAmount,
    offered: (Balance, Balance),
    worth: int,
)
    requires
        pool.base_amount > 0,
        is_floor(worth, cut(offered.0 * pool.quote_amount), pool.base_amount as int),
    ensures
        ({
            let used = ideal_amounts(pool, offered);
            &&& worth <= offered.1 ==> used.0 == offered.0 && used.1 == worth
            &&& worth > offered.1 && pool.quote_amount > 0 ==> {
                &&& used.1 == offered.1
                &&& is_floor(
                    used.0 as int,
                    cut(offered.1 * pool.base_amount),
                    pool.quote_amount as int,
                )
            }
        }),
{
    law_quote_follows_the_price(offered.0, pool.base_amount, pool.quote_amount);
    lemma_floor_is_unique(
        worth,
        ratio(offered.0, pool.quote_amount, pool.base_amount) as int,
        cut(offered.0 * pool.quote_amount),
        pool.base_amount as int,
    );
    if pool.quote_amount > 0 {
        law_quote_follows_the_price(offered.1, pool.quote_amount, pool.base_amount);
    }
}

/// The ownership that is handed out is the smaller of the shares of the two
/// reserves that were put in, of all the ownership there is, rounded down.
pub proof fn law_ownership_is_the_smaller_share(
    pool: PoolLiquidityAmount,
    amounts: (Balance, Balance),
    total: Balance,
    base_share: int,
    quote_share: int,
)
    requires
        is_floor(base_share, cut(amounts.0 * total), pool.base_amount as int),
        is_floor(quote_share, cut(amounts.1 * total), pool.quote_amount as int),
    ensures
        ownership_of(pool, amounts, total) <= base_share,
        ownership_of(pool, amounts, total) <= quote_share,
        ownership_of(pool, amounts, total) == base_share || ownership_of(pool, amounts, total)
            == quote_share,
{
    law_quote_follows_the_price(amounts.0, pool.base_amount, total);
    law_quote_follows_the_price(amounts.1, pool.quote_amount, total);
    lemma_floor_is_unique(
        base_share,
        ratio(amounts.0, total, pool.base_amount) as int,
        cut(amounts.0 * total),
        pool.base_amount as int,
    );
    lemma_floor_is_unique(
        quote_share,
        ratio(amounts.1, total, pool.quote_amount) as int,
        cut(amounts.1 * total),
        pool.quote_amount as int,
    );
}

/// The ownership of a new pool is the square root of the product of what was put
/// in, rounded down.
pub proof fn law_opening_ownership_is_the_geometric_mean(amounts: (Balance, Balance))
    ensures
        ({
            let ownership = opening_ownership(amounts);
            let product = cut(amounts.0 * amounts.1);
            ownership * ownership <= product < (ownership + 1) * (ownership + 1)
        }),
{
    let product = cut(amounts.0 * amounts.1);
    assert(0 <= amounts.0 * amounts.1) by (nonlinear_arith);
    lemma_root_exists(product);
    let r = root(product);
    assert(r <= product) by (nonlinear_arith)
        requires
            0 <= r,
            r * r <= product,
    ;
}

proof fn lemma_root_exists(n: int)
    requires
        0 <= n,
    ensures
        is_root(root(n), n),
    decreases n,
{
    if n == 0 {
        assert(is_root(0, 0));
        lemma_root(0, 0);
    } else {
        lemma_root_exists(n - 1);
        let r = root(n - 1);
        if (r + 1) * (r + 1) <= n {
            assert(n < (r + 2) * (r + 2)) by (nonlinear_arith)
                requires
                    0 <= r,
                    n - 1 < (r + 1) * (r + 1),
            ;
            assert(is_root(r + 1, n));
            lemma_root(r + 1, n);
        } else {
            assert(is_root(r, n));
            lemma_root(r, n);
        }
    }
}

/// A removal pays, of each reserve, the share that the ownership is of all the
/// ownership there is, rounded down.
pub proof fn law_removal_pays_the_share(
    pool: PoolLiquidityAmount,
    ownership: Balance,
    total: Balance,
)
    requires
        total > 0,
    ensures
        is_floor(
            payout(pool, ownership, total).0 as int,
            cut(ownership * pool.base_amount),
            total as int,
        ),
        is_floor(
            payout(pool, ownership, total).1 as int,
            cut(ownership * pool.quote_amount),
            total as int,
        ),
{
    law_quote_follows_the_price(ownership, total, pool.base_amount);
    law_quote_follows_the_price(ownership, total, pool.quote_amount);
}

/// The tokens that stand for shares of a pool are named after the account that holds
/// the pools, and its two tokens.
pub proof fn law_shares_are_named_after_the_pool(s: State, base: CurrencyId, quote: CurrencyId)
    requires
        base is Token,
        quote is Token,
    ensures
        s.lp_token(base, quote) == CurrencyId::LPToken(
            account_digest(s.account_id()),
            base->Token_0,
            quote->Token_0,
        ),
{
}

/// Whoever funds a pool gets the ownership in shares of that pool, and is recorded
/// as having provided what they put in: that alone where they opened it, and on top
/// of what they had where they added to it. The pool is marked with the same shares.
/// No other record changes.
pub proof fn law_providers_are_credited(
    s: State,
    who: AccountId,
    base: CurrencyId,
    quote: CurrencyId,
    amounts: (Balance, Balance),
    ownership: Balance,
)
    ensures
        ({
            let key = (who, base, quote);
            let opened = pool_opened(s, who, base, quote, amounts);
            let added = pool_increased(s, who, base, quote, amounts);
            let before = s.provided(who, base, quote);
            &&& funding_calls(s, who, base, quote, amounts, ownership)[0]
                == (CurrencyCall::Deposit {
                currency_id: s.lp_token(base, quote),
                who,
                amount: ownership,
            })
            &&& opened.pools[(base, quote)].lp_token == s.lp_token(base, quote)
            &&& added.pools[(base, quote)].lp_token == s.lp_token(base, quote)
            &&& opened.pools.contains_key((base, quote))
            &&& added.pools.contains_key((base, quote))
            &&& opened.provided(who, base, quote).base_amount == amounts.0
            &&& opened.provided(who, base, quote).quote_amount == amounts.1
            &&& before.base_amount + amounts.0 <= u128::MAX && before.quote_amount + amounts.1
                <= u128::MAX ==> {
                &&& added.provided(who, base, quote).base_amount == before.base_amount + amounts.0
                &&& added.provided(who, base, quote).quote_amount == before.quote_amount
                    + amounts.1
            }
            &&& forall|k: (AccountId, CurrencyId, CurrencyId)|
                k != key && #[trigger] s.liquidity_providers.contains_key(k) ==> {
                    &&& opened.liquidity_providers.contains_key(k)
                    &&& opened.liquidity_providers[k] == s.liquidity_providers[k]
                    &&& added.liquidity_providers.contains_key(k)
                    &&& added.liquidity_providers[k] == s.liquidity_providers[k]
                }
            &&& opened.config == s.config && added.config == s.config
        }),
{
}

/// Whoever removes liquidity gives up the ownership, in shares of the pool, and is
/// recorded as having provided as much less as they are paid. No other record
/// changes.
pub proof fn law_providers_are_debited(
    s: State,
    who: AccountId,
    pair: (CurrencyId, CurrencyId),
    ownership: Balance,
    held: Balance,
    total: Balance,
)
    requires
        remove_liquidity_refusal(s, Origin::Signed(who), pair, ownership, held, total) is None,
    ensures
        ({
            let (_, base, quote) = upper_currency(pair.0, pair.1).unwrap();
            let pool = s.pools[(base, quote)];
            let paid = payout(pool, ownership, total);
            let after = pool_decreased(s, who, base, quote, paid, ownership == total);
            let (was, is) = (s.provided(who, base, quote), after.provided(who, base, quote));
            &&& removal_calls(s, who, base, quote, ownership, paid)[0]
                == (CurrencyCall::Withdraw {
                currency_id: pool.lp_token,
                who,
                amount: ownership,
            })
            &&& is.base_amount == was.base_amount - paid.0
            &&& is.quote_amount == was.quote_amount - paid.1
            &&& forall|k: (AccountId, CurrencyId, CurrencyId)|
                k != (who, base, quote) && #[trigger] s.liquidity_providers.contains_key(k)
                    ==> after.liquidity_providers.contains_key(k)
                    && after.liquidity_providers[k] == s.liquidity_providers[k]
            &&& after.config == s.config
        }),
{
}

/// Liquidity is added to an existing pool exactly where what is used of each asset
/// is at least what was asked for, the pool has some of the quote asset, and the
/// pool and the provider's record can hold it. A new pool is opened exactly where
/// users may. Root opens pools where there are none.
pub proof fn law_liquidity_is_accepted(
    s: State,
    who: AccountId,
    pair: (CurrencyId, CurrencyId),
    offered: (Balance, Balance),
    minimum: (Balance, Balance),
)
    requires
        pair.0 is Token,
        pair.1 is Token,
    ensures
        ({
            let (is_inverted, base, quote) = upper_currency(pair.0, pair.1).unwrap();
            let least = ordered(is_inverted, minimum);
            let pool = s.pools[(base, quote)];
            let used = ideal_amounts(pool, ordered(is_inverted, offered));
            let record = s.provided(who, base, quote);
            let refusal = add_liquidity_refusal(s, Origin::Signed(who), pair, offered, minimum);
            &&& s.pools.contains_key((base, quote)) ==> (refusal is None <==> {
                &&& least.0 <= used.0 && least.1 <= used.1
                &&& pool.quote_amount > 0
                &&& pool.base_amount + used.0 <= u128::MAX
                &&& pool.quote_amount + used.1 <= u128::MAX
                &&& record.base_amount + used.0 <= u128::MAX
                &&& record.quote_amount + used.1 <= u128::MAX
            })
            &&& s.pools.contains_key((base, quote)) && !(least.0 <= used.0 && least.1 <= used.1)
                ==> refusal == Some(Refusal::Amm(Error::NotAIdealPriceRatio))
            &&& !s.pools.contains_key((base, quote)) ==> (refusal is None
                <==> s.config.allow_permissionless_pool_creation)
            &&& force_create_pool_refusal(s, Origin::Root, pair) is None
                <==> !s.pools.contains_key((base, quote))
            &&& force_create_pool_refusal(s, Origin::Signed(who), pair) == Some(
                Refusal::BadOrigin,
            )
        }),
{
}

/// Ownership is removed exactly where there is a pool, the user has the ownership,
/// there is as much, and the user provided what is paid for it.
pub proof fn law_liquidity_is_given_back(
    s: State,
    who: AccountId,
    pair: (CurrencyId, CurrencyId),
    ownership: Balance,
    held: Balance,
    total: Balance,
)
    requires
        pair.0 is Token,
        pair.1 is Token,
    ensures
        ({
            let (_, base, quote) = upper_currency(pair.0, pair.1).unwrap();
            let paid = payout(s.pools[(base, quote)], ownership, total);
            remove_liquidity_refusal(s, Origin::Signed(who), pair, ownership, held, total) is None
                <==> {
                &&& s.pools.contains_key((base, quote))
                &&& ownership <= held
                &&& ownership <= total
                &&& total > 0
                &&& paid.0 <= s.provided(who, base, quote).base_amount
                &&& paid.1 <= s.provided(who, base, quote).quote_amount
            }
        }),
{
}

/// The fees of a trade are the parts that are set for the pool and for the protocol,
/// of what comes in, rounded down.
pub proof fn law_fees_are_parts_of_what_comes_in(config: Config, amount_in: Balance)
    ensures
        is_floor(
            protocol_fees(config, amount_in),
            amount_in * capped(config.protocol_fee.parts, PERBILL),
            PERBILL as int,
        ),
        is_floor(
            lp_fees(config, amount_in),
            amount_in * capped(config.lp_fee.parts, PERBILL),
            PERBILL as int,
        ),
{
    law_part(config.protocol_fee.parts, PERBILL, amount_in);
    law_part(config.lp_fee.parts, PERBILL, amount_in);
}

/// The least amount at a fee is the one that costs nearest to one unit of it.
pub proof fn law_least_amount_costs_about_one_unit(fee: Perbill)
    requires
        fee.parts > 0,
    ensures
        ({
            let cost = 2 * capped(fee.parts, PERBILL) * least_amount(fee);
            2 * PERBILL - capped(fee.parts, PERBILL) < cost <= 2 * PERBILL + capped(
                fee.parts,
                PERBILL,
            )
        }),
{
    let (w, c) = (PERBILL as int, capped(fee.parts, PERBILL));
    lemma_floor(2 * w + c, 2 * c);
    let q = (2 * w + c) / (2 * c);
    assert(q <= 2 * w + c) by (nonlinear_arith)
        requires
            q * (2 * c) <= 2 * w + c,
            0 < c,
            0 <= q,
    ;
    assert(least_amount(fee) == q);
    assert(2 * c * q == q * (2 * c) && (q + 1) * (2 * c) == q * (2 * c) + 2 * c)
        by (nonlinear_arith);
}

/// What a pool has of the asset that is traded in, and of the other one.
pub open spec fn reserves_of(pair: (CurrencyId, CurrencyId), pool: PoolLiquidityAmount) -> (
    Balance,
    Balance,
) {
    if pair.0->Token_0.index > pair.1->Token_0.index {
        (pool.base_amount, pool.quote_amount)
    } else {
        (pool.quote_amount, pool.base_amount)
    }
}

/// What a trade does. The fees are taken off what comes in. What is left is traded
/// against the reserves so that their product stays: it yields its part of the
/// reserve that is traded in, once it is there, of the other reserve, rounded down.
/// The trader pays what comes in without the protocol's fee to the pool, and that
/// fee to its receiver, and is paid what was yielded. The reserves change by just
/// that, and what is reported is the whole part of what one unit yielded. Nothing
/// else changes.
pub proof fn law_trade_follows_the_constant_product(
    s: State,
    who: AccountId,
    pair: (CurrencyId, CurrencyId),
    amount_in: Balance,
    minimum_amount_out: Balance,
    protocol_fee: int,
    lp_fee: int,
)
    requires
        trade_refusal(s, pair, amount_in, minimum_amount_out) is None,
        is_floor(
            protocol_fee,
            amount_in * capped(s.config.protocol_fee.parts, PERBILL),
            PERBILL as int,
        ),
        is_floor(lp_fee, amount_in * capped(s.config.lp_fee.parts, PERBILL), PERBILL as int),
    ensures
        ({
            let (_, base, quote) = upper_currency(pair.0, pair.1).unwrap();
            let (reserve_in, reserve_out) = reserves_of(pair, s.pools[(base, quote)]);
            let after = pool_traded(s, pair, amount_in);
            let (after_in, after_out) = reserves_of(pair, after.pools[(base, quote)]);
            let yielded = amount_out(s, pair, amount_in);
            let calls = trade_calls(s, who, pair, amount_in, yielded as u128);
            let amount = amount_in - protocol_fee - lp_fee;
            &&& is_floor(yielded, cut(amount * reserve_out), reserve_in + amount)
            &&& 0 <= yielded <= reserve_out
            &&& after_in == reserve_in + amount_in - protocol_fee
            &&& after_out == reserve_out - yielded
            &&& after.pools[(base, quote)].lp_token == s.pools[(base, quote)].lp_token
            &&& calls == seq![
                CurrencyCall::Transfer {
                    currency_id: pair.0,
                    from: who,
                    to: s.account_id(),
                    amount: (amount_in - protocol_fee) as u128,
                },
                CurrencyCall::Transfer {
                    currency_id: pair.1,
                    from: s.account_id(),
                    to: who,
                    amount: yielded as u128,
                },
                CurrencyCall::Transfer {
                    currency_id: pair.0,
                    from: who,
                    to: s.config.protocol_fee_receiver,
                    amount: protocol_fee as u128,
                },
            ]
            &&& forall|k: (CurrencyId, CurrencyId)|
                k != (base, quote) && #[trigger] s.pools.contains_key(k)
                    ==> after.pools.contains_key(k) && after.pools[k] == s.pools[k]
            &&& after == (State { pools: after.pools, ..s })
        }),
{
    let (is_inverted, base, quote) = upper_currency(pair.0, pair.1).unwrap();
    let (reserve_in, reserve_out) = supplies(is_inverted, s.pools[(base, quote)]);
    let config = s.config;
    law_fees_are_parts_of_what_comes_in(config, amount_in);
    lemma_floor_is_unique(
        protocol_fee,
        protocol_fees(config, amount_in),
        amount_in * capped(config.protocol_fee.parts, PERBILL),
        PERBILL as int,
    );
    lemma_floor_is_unique(
        lp_fee,
        lp_fees(config, amount_in),
        amount_in * capped(config.lp_fee.parts, PERBILL),
        PERBILL as int,
    );
    lemma_part_fits(config.protocol_fee.parts, PERBILL, amount_in);
    lemma_part_fits(config.lp_fee.parts, PERBILL, amount_in);
    let amount = amount_in - protocol_fee - lp_fee;
    law_trade_yields_at_most_the_reserve(amount, reserve_in, reserve_out);
    assert(0 <= amount * reserve_out) by (nonlinear_arith)
        requires
            0 <= amount,
    ;
    lemma_floor(cut(amount * reserve_out), reserve_in + amount);
}

/// A trade reports the trader, what came in, what went out, and the whole part of
/// what one unit yielded.
pub proof fn law_trade_reports_the_rate(
    who: AccountId,
    pair: (CurrencyId, CurrencyId),
    amount_in: Balance,
    yielded: Balance,
    rate: int,
)
    requires
        is_floor(rate, yielded as int, amount_in as int),
    ensures
        trade_event(who, pair, amount_in, yielded) matches Event::Trade(trader, a, b, reported)
            && trader == who && a == pair.0 && b == pair.1 && reported.inner == cut(rate * DIV),
{
    lemma_floor(yielded as int, amount_in as int);
    lemma_floor_is_unique(
        rate,
        yielded as int / (amount_in as int),
        yielded as int,
        amount_in as int,
    );
}

/// A trade is granted exactly where there is a pool, it is no less than the least
/// amounts, it incurs a fee for the pool, there is something to trade once the fees
/// are taken off or something to trade it with, it yields what was asked for, and
/// the reserves can hold it.
pub proof fn law_trades_are_granted(
    s: State,
    pair: (CurrencyId, CurrencyId),
    amount_in: Balance,
    minimum_amount_out: Balance,
)
    requires
        pair.0 is Token,
        pair.1 is Token,
    ensures
        ({
            let (_, base, quote) = upper_currency(pair.0, pair.1).unwrap();
            let (reserve_in, _) = reserves_of(pair, s.pools[(base, quote)]);
            let fee = protocol_fees(s.config, amount_in);
            let amount = amount_in - fee - lp_fees(s.config, amount_in);
            trade_refusal(s, pair, amount_in, minimum_amount_out) is None <==> {
                &&& s.pools.contains_key((base, quote))
                &&& amount_in >= least_amount(s.config.lp_fee)
                &&& amount_in >= least_amount(s.config.protocol_fee)
                &&& lp_fees(s.config, amount_in) >= 1
                &&& amount >= 0
                &&& reserve_in + amount > 0
                &&& amount_out(s, pair, amount_in) >= minimum_amount_out
                &&& reserve_in + amount_in - fee <= u128::MAX
            }
        }),
{
    lemma_part_fits(s.config.protocol_fee.parts, PERBILL, amount_in);
    lemma_part_fits(s.config.lp_fee.parts, PERBILL, amount_in);
}

/// What is read of a provider is what is recorded, or nothing.
pub proof fn law_reads_what_is_recorded(
    s: State,
    who: AccountId,
    base: CurrencyId,
    quote: CurrencyId,
)
    ensures
        s.liquidity_providers.contains_key((who, base, quote)) ==> s.provided(who, base, quote)
            == s.liquidity_providers[(who, base, quote)],
        !s.liquidity_providers.contains_key((who, base, quote)) ==> s.provided(
            who,
            base,
            quote,
        ).base_amount == 0 && s.provided(who, base, quote).quote_amount == 0,
{
}

/// Adding liquidity, from the offer to the ledger: the provider pays into each side
/// of the pool what it grows by, which is no more than was offered for that token
/// and, in a pool that exists, no less than was asked for. For that the provider
/// gets shares of the pool: the geometric mean in a new one, and else no larger a
/// part of all shares than was put in of either reserve.
pub proof fn law_adding_liquidity_pays_for_shares(
    s: State,
    who: AccountId,
    pair: (CurrencyId, CurrencyId),
    offered: (Balance, Balance),
    minimum: (Balance, Balance),
    total: Balance,
)
    requires
        add_liquidity_refusal(s, Origin::Signed(who), pair, offered, minimum) is None,
        ({
            let (_, base, quote) = upper_currency(pair.0, pair.1).unwrap();
            s.pools.contains_key((base, quote)) ==> s.pools[(base, quote)].base_amount > 0
        }),
    ensures
        ({
            let (_, base, quote) = upper_currency(pair.0, pair.1).unwrap();
            let is_new = !s.pools.contains_key((base, quote));
            let pool = s.pools[(base, quote)];
            let after = liquidity_added(s, who, pair, offered);
            let calls = liquidity_added_calls(s, who, pair, offered, total);
            let put_in = if is_new {
                (
                    after.pools[(base, quote)].base_amount as int,
                    after.pools[(base, quote)].quote_amount as int,
                )
            } else {
                (
                    after.pools[(base, quote)].base_amount - pool.base_amount,
                    after.pools[(base, quote)].quote_amount - pool.quote_amount,
                )
            };
            let of_pair = |amounts: (Balance, Balance)|
                if pair.0->Token_0.index > pair.1->Token_0.index {
                    amounts
                } else {
                    (amounts.1, amounts.0)
                };
            &&& after.pools.contains_key((base, quote))
            &&& calls.len() == 3
            &&& calls[0] matches CurrencyCall::Deposit { currency_id, who: owner, amount: shares }
            &&& owner == who && currency_id == after.pools[(base, quote)].lp_token
            &&& calls[1] == (CurrencyCall::Transfer {
                currency_id: base,
                from: who,
                to: s.account_id(),
                amount: put_in.0 as u128,
            })
            &&& calls[2] == (CurrencyCall::Transfer {
                currency_id: quote,
                from: who,
                to: s.account_id(),
                amount: put_in.1 as u128,
            })
            &&& 0 <= put_in.0 <= of_pair(offered).0 && 0 <= put_in.1 <= of_pair(offered).1
            &&& is_new ==> {
                &&& put_in.0 == of_pair(offered).0 && put_in.1 == of_pair(offered).1
                &&& shares * shares <= cut(put_in.0 * put_in.1) < (shares + 1) * (shares + 1)
            }
            &&& !is_new ==> {
                &&& put_in.0 >= of_pair(minimum).0 && put_in.1 >= of_pair(minimum).1
                &&& put_in.0 == of_pair(offered).0 || put_in.1 == of_pair(offered).1
                &&& shares * pool.base_amount <= put_in.0 * total
                &&& shares * pool.quote_amount <= put_in.1 * total
            }
        }),
{
    let (is_inverted, base, quote) = upper_currency(pair.0, pair.1).unwrap();
    let sides = ordered(is_inverted, offered);
    if s.pools.contains_key((base, quote)) {
        let pool = s.pools[(base, quote)];
        law_ideal_amounts_keep_to_the_offer(pool, sides);
        law_ownership_is_paid_for(pool, ideal_amounts(pool, sides), total);
    } else {
        law_opening_ownership_is_the_geometric_mean(sides);
    }
}

/// Removing liquidity, from the shares to the ledger: the provider gives up the
/// shares and is paid, of each side of the pool, the share that they are of all
/// shares, rounded down. The pool shrinks by what is paid, and is closed once there
/// are no shares left.
pub proof fn law_removing_liquidity_pays_for_shares(
    s: State,
    who: AccountId,
    pair: (CurrencyId, CurrencyId),
    ownership: Balance,
    held: Balance,
    total: Balance,
)
    requires
        remove_liquidity_refusal(s, Origin::Signed(who), pair, ownership, held, total) is None,
    ensures
        ({
            let (_, base, quote) = upper_currency(pair.0, pair.1).unwrap();
            let pool = s.pools[(base, quote)];
            let after = liquidity_removed(s, who, pair, ownership, total);
            let left = after.pools[(base, quote)];
            let calls = liquidity_removed_calls(s, who, pair, ownership, total);
            &&& calls.len() == 3
            &&& calls[0] == (CurrencyCall::Withdraw {
                currency_id: pool.lp_token,
                who,
                amount: ownership,
            })
            &&& calls[1] matches CurrencyCall::Transfer {
                currency_id: first,
                from: payer,
                to: payee,
                amount: base_paid,
            }
            &&& calls[2] matches CurrencyCall::Transfer {
                currency_id: second,
                from: other_payer,
                to: other_payee,
                amount: quote_paid,
            }
            &&& first == base && second == quote
            &&& payer == s.account_id() && other_payer == s.account_id()
            &&& payee == who && other_payee == who
            &&& is_floor(base_paid as int, cut(ownership * pool.base_amount), total as int)
            &&& is_floor(quote_paid as int, cut(ownership * pool.quote_amount), total as int)
            &&& after.pools.contains_key((base, quote)) <==> ownership < total
            &&& ownership < total ==> {
                &&& left.base_amount == pool.base_amount - base_paid
                &&& left.quote_amount == pool.quote_amount - quote_paid
                &&& left.lp_token == pool.lp_token
            }
        }),
{
    let (_, base, quote) = upper_currency(pair.0, pair.1).unwrap();
    let pool = s.pools[(base, quote)];
    law_removal_pays_the_share(pool, ownership, total);
    law_payout_is_a_part_of_the_pool(pool, ownership, total);
}

} // verus!
