//! Automatic market maker.
//!
//! Given any pair of assets `(X, Y)`, "base" is the `X` asset while "quote" is
//! the `Y` asset.

pub mod laws;

use vstd::prelude::*;
use crate::arithmetic::{lemma_part_fits, lemma_root, root, saturated, saturating_mul};
use crate::arithmetic::{part_floor, part_reciprocal, FixedU128, Perbill, DIV, PERBILL};
use crate::primitives::{account_digest, account_of, ensure_root, ensure_signed};
use crate::primitives::{AccountId, ArithmeticError, Balance, CurrencyCall, CurrencyId};
use crate::primitives::{Origin, PalletId, Rate, Refusal, TokenSymbol};
use crate::storage::Table;
use crate::substrate;

verus! {

/// Why the market maker refuses a dispatch.
#[derive(Debug, Clone, Copy, PartialEq, Eq, Structural)]
pub enum Error {
    /// Pool does not exist
    PoolDoesNotExist,
    /// More liquidity than user's liquidity
    MoreLiquidity,
    /// Not a ideal price ratio
    NotAIdealPriceRatio,
    /// Pool creation has been disabled
    PoolCreationDisabled,
    /// Pool already exists
    PoolAlreadyExists,
    /// Amount out is too small
    InsufficientAmountOut,
    /// Amount in is too small
    InsufficientAmountIn,
    /// Invalid currency
    InvalidCurrencyId,
    /// Invalid LP token
    InvalidLPToken,
}

/// What the market maker reports.
#[derive(Debug, Clone, Copy, PartialEq, Eq)]
pub enum Event {
    /// Add liquidity into pool
    /// [sender, currency_id, currency_id]
    LiquidityAdded(AccountId, CurrencyId, CurrencyId),
    /// Remove liquidity from pool
    /// [sender, currency_id, currency_id]
    LiquidityRemoved(AccountId, CurrencyId, CurrencyId),
    /// Trade using liquidity
    /// [trader, currency_id_in, currency_id_out, rate_out_for_in]
    Trade(AccountId, CurrencyId, CurrencyId, Rate),
}

/// How the market maker is set up.
#[derive(Debug, Clone, Copy, PartialEq, Eq)]
pub struct Config {
    /// The identifier from which the account that holds the pools is derived.
    pub pallet_id: PalletId,
    /// Whether "normal" users may create new pools.
    pub allow_permissionless_pool_creation: bool,
    /// The fees taken out of each trade and sent back to the pool, typically 0.3%.
    pub lp_fee: Perbill,
    /// How much the protocol is taking out of each trade.
    pub protocol_fee: Perbill,
    /// Who/where to send the protocol fees.
    pub protocol_fee_receiver: AccountId,
}

/// The liquidity of a pool, or of one provider in it.
#[derive(Debug, Clone, Copy, PartialEq, Eq)]
pub struct PoolLiquidityAmount {
    /// The amount of the base asset.
    pub base_amount: Balance,
    /// The amount of the quote asset.
    pub quote_amount: Balance,
    /// The token that stands for shares of the pool.
    pub lp_token: CurrencyId,
}

/// The weight to charge once a dispatch is done.
#[derive(Debug, Clone, Copy, PartialEq, Eq, Structural)]
pub enum PostWeight {
    /// The one that was declared for the dispatch.
    Declared,
    /// `add_liquidity_non_existing_pool`.
    AddLiquidityNonExistingPool,
    /// `add_liquidity_existing_pool`.
    AddLiquidityExistingPool,
}

/// What is left to do for a dispatch that was granted: the calls to make on the
/// currency ledger, in order, and the event to emit once they went through. If
/// the ledger refuses one of them, the whole dispatch is undone.
#[derive(Debug, Clone, PartialEq, Eq)]
pub struct Receipt {
    /// The calls on the currency ledger.
    pub calls: Vec<CurrencyCall>,
    /// The event.
    pub event: Event,
    /// The weight to charge.
    pub weight: PostWeight,
}

/// The market maker: its settings and its stored state.
#[derive(Debug, PartialEq, Eq)]
pub struct Pallet {
    /// The settings.
    pub config: Config,
    /// A bag of liquidity composed by two different assets, under the base and
    /// the quote asset.
    pub pools: Table<(CurrencyId, CurrencyId), PoolLiquidityAmount>,
    /// Accounts that deposit and withdraw assets in one or more pools, with the
    /// pool's base and quote asset.
    pub liquidity_providers: Table<(AccountId, CurrencyId, CurrencyId), PoolLiquidityAmount>,
}

/// What a [`Pallet`] holds.
#[verifier::ext_equal]
pub struct State {
    pub config: Config,
    pub pools: Map<(CurrencyId, CurrencyId), PoolLiquidityAmount>,
    pub liquidity_providers: Map<(AccountId, CurrencyId, CurrencyId), PoolLiquidityAmount>,
}

impl View for Pallet {
    type V = State;

    open spec fn view(&self) -> State {
        State {
            config: self.config,
            pools: self.pools@,
            liquidity_providers: self.liquidity_providers@,
        }
    }
}

/// The liquidity of an account that never provided any.
pub open spec fn no_liquidity() -> PoolLiquidityAmount {
    PoolLiquidityAmount {
        base_amount: 0,
        quote_amount: 0,
        lp_token: CurrencyId::Token(TokenSymbol { index: 0 }),
    }
}

impl State {
    /// The account that holds the pools.
    pub open spec fn account_id(self) -> AccountId {
        account_of(self.config.pallet_id)
    }

    /// What `who` provided to the pool of two assets.
    pub open spec fn provided(
        self,
        who: AccountId,
        base: CurrencyId,
        quote: CurrencyId,
    ) -> PoolLiquidityAmount {
        if self.liquidity_providers.contains_key((who, base, quote)) {
            self.liquidity_providers[(who, base, quote)]
        } else {
            no_liquidity()
        }
    }

    /// The token that stands for shares of the pool of two tokens.
    pub open spec fn lp_token(self, base: CurrencyId, quote: CurrencyId) -> CurrencyId {
        CurrencyId::LPToken(account_digest(self.account_id()), base->Token_0, quote->Token_0)
    }
}

/// A pair of tokens with the higher one first, and whether that changed their order.
pub open spec fn upper_currency(a: CurrencyId, b: CurrencyId) -> Option<
    (bool, CurrencyId, CurrencyId),
> {
    match (a, b) {
        (CurrencyId::Token(x), CurrencyId::Token(y)) => if x.index > y.index {
            Some((false, a, b))
        } else {
            Some((true, b, a))
        },
        _ => None,
    }
}

/// A pair of amounts, the other way round if `is_inverted`.
pub open spec fn ordered(is_inverted: bool, amounts: (Balance, Balance)) -> (Balance, Balance) {
    if is_inverted {
        (amounts.1, amounts.0)
    } else {
        amounts
    }
}

/// `a * b / c`, where the product is cut off at the largest balance.
pub open spec fn ratio(a: Balance, b: Balance, c: Balance) -> Balance {
    (saturated(a * b) / c)
}

/// The amounts nearest to `offered` that keep the price of the pool.
pub open spec fn ideal_amounts(pool: PoolLiquidityAmount, offered: (Balance, Balance)) -> (
    Balance,
    Balance,
) {
    let optimal_quote = ratio(offered.0, pool.quote_amount, pool.base_amount);
    if optimal_quote <= offered.1 {
        (offered.0, optimal_quote)
    } else {
        (ratio(offered.1, pool.base_amount, pool.quote_amount), offered.1)
    }
}

/// The smaller of two balances.
pub open spec fn smaller(a: Balance, b: Balance) -> Balance {
    if a <= b {
        a
    } else {
        b
    }
}

/// The ownership that `amounts` are worth, with `total` spread over `pool`.
pub open spec fn ownership_of(
    pool: PoolLiquidityAmount,
    amounts: (Balance, Balance),
    total: Balance,
) -> Balance {
    smaller(
        ratio(amounts.0, total, pool.base_amount),
        ratio(amounts.1, total, pool.quote_amount),
    )
}

/// The ownership of a pool that is opened with `amounts`.
pub open spec fn opening_ownership(amounts: (Balance, Balance)) -> Balance {
    root(saturated(amounts.0 * amounts.1) as int) as u128
}

/// `amount` with `amounts` added and the share token set.
pub open spec fn increased(
    amount: PoolLiquidityAmount,
    amounts: (Balance, Balance),
    lp_token: CurrencyId,
) -> PoolLiquidityAmount {
    PoolLiquidityAmount {
        base_amount: (amount.base_amount + amounts.0) as u128,
        quote_amount: (amount.quote_amount + amounts.1) as u128,
        lp_token,
    }
}

/// Whether `amounts` can be added to `amount`.
pub open spec fn can_increase(amount: PoolLiquidityAmount, amounts: (Balance, Balance)) -> bool {
    amount.base_amount + amounts.0 <= u128::MAX && amount.quote_amount + amounts.1 <= u128::MAX
}

/// The calls that put `amounts` of two assets into the pools' account and hand
/// out the ownership for it.
pub open spec fn funding_calls(
    s: State,
    who: AccountId,
    base: CurrencyId,
    quote: CurrencyId,
    amounts: (Balance, Balance),
    ownership: Balance,
) -> Seq<CurrencyCall> {
    seq![
        CurrencyCall::Deposit { currency_id: s.lp_token(base, quote), who, amount: ownership },
        CurrencyCall::Transfer {
            currency_id: base,
            from: who,
            to: s.account_id(),
            amount: amounts.0,
        },
        CurrencyCall::Transfer {
            currency_id: quote,
            from: who,
            to: s.account_id(),
            amount: amounts.1,
        },
    ]
}

/// The state once `who` opened the pool of two assets with `amounts`.
pub open spec fn pool_opened(
    s: State,
    who: AccountId,
    base: CurrencyId,
    quote: CurrencyId,
    amounts: (Balance, Balance),
) -> State {
    let amm_pool = PoolLiquidityAmount {
        base_amount: amounts.0,
        quote_amount: amounts.1,
        lp_token: s.lp_token(base, quote),
    };
    State {
        pools: s.pools.insert((base, quote), amm_pool),
        liquidity_providers: s.liquidity_providers.insert((who, base, quote), amm_pool),
        ..s
    }
}

/// The state once `who` added `amounts` to the existing pool of two assets.
pub open spec fn pool_increased(
    s: State,
    who: AccountId,
    base: CurrencyId,
    quote: CurrencyId,
    amounts: (Balance, Balance),
) -> State {
    let lp_token = s.lp_token(base, quote);
    State {
        pools: s.pools.insert(
            (base, quote),
            increased(s.pools[(base, quote)], amounts, lp_token),
        ),
        liquidity_providers: s.liquidity_providers.insert(
            (who, base, quote),
            increased(s.provided(who, base, quote), amounts, lp_token),
        ),
        ..s
    }
}

/// Why liquidity cannot be added to the existing pool of two assets, if so.
pub open spec fn increase_refusal(
    s: State,
    who: AccountId,
    base: CurrencyId,
    quote: CurrencyId,
    offered: (Balance, Balance),
    minimum: (Balance, Balance),
) -> Option<Refusal> {
    let pool = s.pools[(base, quote)];
    let ideal = ideal_amounts(pool, offered);
    if ideal.0 < minimum.0 || ideal.1 < minimum.1 {
        Some(Refusal::Amm(Error::NotAIdealPriceRatio))
    } else if pool.quote_amount == 0 || !can_increase(pool, ideal) || !can_increase(
        s.provided(who, base, quote),
        ideal,
    ) {
        Some(Refusal::Arithmetic(ArithmeticError::Overflow))
    } else {
        None
    }
}

/// Why `add_liquidity` refuses, if it does.
pub open spec fn add_liquidity_refusal(
    s: State,
    origin: Origin,
    pool: (CurrencyId, CurrencyId),
    liquidity_amounts: (Balance, Balance),
    minimum_amounts: (Balance, Balance),
) -> Option<Refusal> {
    match (origin, upper_currency(pool.0, pool.1)) {
        (Origin::Signed(who), Some((is_inverted, base, quote))) => {
            if s.pools.contains_key((base, quote)) {
                increase_refusal(
                    s,
                    who,
                    base,
                    quote,
                    ordered(is_inverted, liquidity_amounts),
                    ordered(is_inverted, minimum_amounts),
                )
            } else if !s.config.allow_permissionless_pool_creation {
                Some(Refusal::Amm(Error::PoolCreationDisabled))
            } else {
                None
            }
        },
        (Origin::Signed(_), None) => Some(Refusal::Amm(Error::InvalidCurrencyId)),
        _ => Some(Refusal::BadOrigin),
    }
}

/// Why `force_create_pool` refuses, if it does.
pub open spec fn force_create_pool_refusal(
    s: State,
    origin: Origin,
    pool: (CurrencyId, CurrencyId),
) -> Option<Refusal> {
    match (origin, upper_currency(pool.0, pool.1)) {
        (Origin::Root, Some((_, base, quote))) => if s.pools.contains_key((base, quote)) {
            Some(Refusal::Amm(Error::PoolAlreadyExists))
        } else {
            None
        },
        (Origin::Root, None) => Some(Refusal::Amm(Error::InvalidCurrencyId)),
        _ => Some(Refusal::BadOrigin),
    }
}

/// What `ownership` of `total` is worth in `pool`.
pub open spec fn payout(pool: PoolLiquidityAmount, ownership: Balance, total: Balance) -> (
    Balance,
    Balance,
) {
    (ratio(ownership, pool.base_amount, total), ratio(ownership, pool.quote_amount, total))
}

/// Why `remove_liquidity` refuses, if it does.
pub open spec fn remove_liquidity_refusal(
    s: State,
    origin: Origin,
    pool: (CurrencyId, CurrencyId),
    ownership_to_remove: Balance,
    held_ownership: Balance,
    total_ownership: Balance,
) -> Option<Refusal> {
    match (origin, upper_currency(pool.0, pool.1)) {
        (Origin::Signed(who), Some((_, base, quote))) => {
            let paid = payout(s.pools[(base, quote)], ownership_to_remove, total_ownership);
            let provided = s.provided(who, base, quote);
            if !s.pools.contains_key((base, quote)) {
                Some(Refusal::Amm(Error::PoolDoesNotExist))
            } else if held_ownership < ownership_to_remove || total_ownership
                < ownership_to_remove {
                Some(Refusal::Amm(Error::MoreLiquidity))
            } else if total_ownership == 0 || provided.base_amount < paid.0
                || provided.quote_amount < paid.1 {
                Some(Refusal::Arithmetic(ArithmeticError::Underflow))
            } else {
                None
            }
        },
        (Origin::Signed(_), None) => Some(Refusal::Amm(Error::InvalidCurrencyId)),
        _ => Some(Refusal::BadOrigin),
    }
}

/// The pool once `paid` left it.
pub open spec fn decreased(
    pool: PoolLiquidityAmount,
    paid: (Balance, Balance),
) -> PoolLiquidityAmount {
    PoolLiquidityAmount {
        base_amount: (pool.base_amount - paid.0) as u128,
        quote_amount: (pool.quote_amount - paid.1) as u128,
        ..pool
    }
}

/// The state once `who` removed ownership of the pool of two assets and was paid
/// `paid`: the payment is taken off the pool and off what `who` provided. A pool
/// that nobody owns any more is closed.
pub open spec fn pool_decreased(
    s: State,
    who: AccountId,
    base: CurrencyId,
    quote: CurrencyId,
    paid: (Balance, Balance),
    is_closed: bool,
) -> State {
    State {
        pools: if is_closed {
            s.pools.remove((base, quote))
        } else {
            s.pools.insert((base, quote), decreased(s.pools[(base, quote)], paid))
        },
        liquidity_providers: s.liquidity_providers.insert(
            (who, base, quote),
            decreased(s.provided(who, base, quote), paid),
        ),
        ..s
    }
}

/// The calls that take `ownership` back and pay `paid` for it.
pub open spec fn removal_calls(
    s: State,
    who: AccountId,
    base: CurrencyId,
    quote: CurrencyId,
    ownership: Balance,
    paid: (Balance, Balance),
) -> Seq<CurrencyCall> {
    seq![
        CurrencyCall::Withdraw {
            currency_id: s.pools[(base, quote)].lp_token,
            who,
            amount: ownership,
        },
        CurrencyCall::Transfer {
            currency_id: base,
            from: s.account_id(),
            to: who,
            amount: paid.0,
        },
        CurrencyCall::Transfer {
            currency_id: quote,
            from: s.account_id(),
            to: who,
            amount: paid.1,
        },
    ]
}

/// The state once `who` added liquidity: to the pool of two tokens, at its price, or
/// to a new one.
pub open spec fn liquidity_added(
    s: State,
    who: AccountId,
    pair: (CurrencyId, CurrencyId),
    amounts: (Balance, Balance),
) -> State {
    let (is_inverted, base, quote) = upper_currency(pair.0, pair.1).unwrap();
    let offered = ordered(is_inverted, amounts);
    if s.pools.contains_key((base, quote)) {
        pool_increased(s, who, base, quote, ideal_amounts(s.pools[(base, quote)], offered))
    } else {
        pool_opened(s, who, base, quote, offered)
    }
}

/// The calls by which `who` adds liquidity, where there is `total` ownership.
pub open spec fn liquidity_added_calls(
    s: State,
    who: AccountId,
    pair: (CurrencyId, CurrencyId),
    amounts: (Balance, Balance),
    total: Balance,
) -> Seq<CurrencyCall> {
    let (is_inverted, base, quote) = upper_currency(pair.0, pair.1).unwrap();
    let offered = ordered(is_inverted, amounts);
    if s.pools.contains_key((base, quote)) {
        let pool = s.pools[(base, quote)];
        let ideal = ideal_amounts(pool, offered);
        funding_calls(s, who, base, quote, ideal, ownership_of(pool, ideal, total))
    } else {
        funding_calls(s, who, base, quote, offered, opening_ownership(offered))
    }
}

/// The state once `who` removed ownership, of `total`, of the pool of two tokens.
pub open spec fn liquidity_removed(
    s: State,
    who: AccountId,
    pair: (CurrencyId, CurrencyId),
    ownership: Balance,
    total: Balance,
) -> State {
    let (_, base, quote) = upper_currency(pair.0, pair.1).unwrap();
    let paid = payout(s.pools[(base, quote)], ownership, total);
    pool_decreased(s, who, base, quote, paid, ownership == total)
}

/// The calls by which `who` removes ownership, of `total`, of the pool of two tokens.
pub open spec fn liquidity_removed_calls(
    s: State,
    who: AccountId,
    pair: (CurrencyId, CurrencyId),
    ownership: Balance,
    total: Balance,
) -> Seq<CurrencyCall> {
    let (_, base, quote) = upper_currency(pair.0, pair.1).unwrap();
    let paid = payout(s.pools[(base, quote)], ownership, total);
    removal_calls(s, who, base, quote, ownership, paid)
}

/// One unit divided by a fee, to the nearest integer. No less can be traded.
pub open spec fn least_amount(fee: Perbill) -> Balance {
    part_reciprocal(fee.parts, PERBILL, 1)
}

/// What the protocol takes out of a trade of `amount_in`.
pub open spec fn protocol_fees(config: Config, amount_in: Balance) -> int {
    part_floor(config.protocol_fee.parts, PERBILL, amount_in)
}

/// What goes back to the pool out of a trade of `amount_in`.
pub open spec fn lp_fees(config: Config, amount_in: Balance) -> int {
    part_floor(config.lp_fee.parts, PERBILL, amount_in)
}

/// What is left of `amount_in` to be traded.
pub open spec fn amount_after_fees(config: Config, amount_in: Balance) -> int {
    amount_in - protocol_fees(config, amount_in) - lp_fees(config, amount_in)
}

/// The reserves of a pool, with the one that is paid into first.
pub open spec fn supplies(is_inverted: bool, pool: PoolLiquidityAmount) -> (Balance, Balance) {
    ordered(is_inverted, (pool.base_amount, pool.quote_amount))
}

/// What a trade of `amount` after fees yields.
pub open spec fn traded(amount: int, supply_in: Balance, supply_out: Balance) -> int {
    saturated(amount * supply_out) as int / (supply_in + amount)
}

/// The pool once `paid_in` came in on one side and `paid_out` left on the other.
pub open spec fn pool_after_trade(
    is_inverted: bool,
    pool: PoolLiquidityAmount,
    paid_in: int,
    paid_out: int,
) -> PoolLiquidityAmount {
    if is_inverted {
        PoolLiquidityAmount {
            base_amount: (pool.base_amount - paid_out) as u128,
            quote_amount: (pool.quote_amount + paid_in) as u128,
            ..pool
        }
    } else {
        PoolLiquidityAmount {
            base_amount: (pool.base_amount + paid_in) as u128,
            quote_amount: (pool.quote_amount - paid_out) as u128,
            ..pool
        }
    }
}

/// What a trade of `amount_in` yields with the existing pool of two tokens.
pub open spec fn amount_out(s: State, pair: (CurrencyId, CurrencyId), amount_in: Balance) -> int {
    let (is_inverted, base, quote) = upper_currency(pair.0, pair.1).unwrap();
    let (supply_in, supply_out) = supplies(is_inverted, s.pools[(base, quote)]);
    traded(amount_after_fees(s.config, amount_in), supply_in, supply_out)
}

/// The state once `amount_in` was traded with the existing pool of two tokens.
pub open spec fn pool_traded(
    s: State,
    pair: (CurrencyId, CurrencyId),
    amount_in: Balance,
) -> State {
    let (is_inverted, base, quote) = upper_currency(pair.0, pair.1).unwrap();
    State {
        pools: s.pools.insert(
            (base, quote),
            pool_after_trade(
                is_inverted,
                s.pools[(base, quote)],
                amount_in - protocol_fees(s.config, amount_in),
                amount_out(s, pair, amount_in),
            ),
        ),
        ..s
    }
}

/// What is reported of a trade: the whole part of what one unit yields.
pub open spec fn trade_event(
    who: AccountId,
    pair: (CurrencyId, CurrencyId),
    amount_in: Balance,
    yielded: Balance,
) -> Event {
    Event::Trade(
        who,
        pair.0,
        pair.1,
        FixedU128 { inner: saturated(yielded / amount_in * DIV) },
    )
}

/// Why a trade with an existing pool is refused, if it is.
pub open spec fn trade_in_pool_refusal(
    config: Config,
    supply_in: Balance,
    supply_out: Balance,
    amount_in: Balance,
    minimum_amount_out: Balance,
) -> Option<Refusal> {
    let amount = amount_after_fees(config, amount_in);
    if amount_in < least_amount(config.lp_fee) || amount_in < least_amount(config.protocol_fee)
        || lp_fees(config, amount_in) < 1 {
        Some(Refusal::Amm(Error::InsufficientAmountIn))
    } else if amount < 0 {
        Some(Refusal::Arithmetic(ArithmeticError::Underflow))
    } else if supply_in + amount > u128::MAX {
        Some(Refusal::Arithmetic(ArithmeticError::Overflow))
    } else if supply_in + amount == 0 {
        Some(Refusal::Arithmetic(ArithmeticError::Underflow))
    } else if traded(amount, supply_in, supply_out) < minimum_amount_out {
        Some(Refusal::Amm(Error::InsufficientAmountOut))
    } else if supply_in + amount_in - protocol_fees(config, amount_in) > u128::MAX {
        Some(Refusal::Arithmetic(ArithmeticError::Overflow))
    } else {
        None
    }
}

/// Why `trade` refuses, if it does.
pub open spec fn trade_refusal(
    s: State,
    pair: (CurrencyId, CurrencyId),
    amount_in: Balance,
    minimum_amount_out: Balance,
) -> Option<Refusal> {
    match upper_currency(pair.0, pair.1) {
        Some((is_inverted, base, quote)) => {
            let (supply_in, supply_out) = supplies(is_inverted, s.pools[(base, quote)]);
            if !s.pools.contains_key((base, quote)) {
                Some(Refusal::Amm(Error::PoolDoesNotExist))
            } else {
                trade_in_pool_refusal(
                    s.config,
                    supply_in,
                    supply_out,
                    amount_in,
                    minimum_amount_out,
                )
            }
        },
        None => Some(Refusal::Amm(Error::InvalidCurrencyId)),
    }
}

/// The calls that a trade asks for.
pub open spec fn trade_calls(
    s: State,
    who: AccountId,
    pair: (CurrencyId, CurrencyId),
    amount_in: Balance,
    amount_out: Balance,
) -> Seq<CurrencyCall> {
    let fees = protocol_fees(s.config, amount_in);
    seq![
        CurrencyCall::Transfer {
            currency_id: pair.0,
            from: who,
            to: s.account_id(),
            amount: (amount_in - fees) as u128,
        },
        CurrencyCall::Transfer {
            currency_id: pair.1,
            from: s.account_id(),
            to: who,
            amount: amount_out,
        },
        CurrencyCall::Transfer {
            currency_id: pair.0,
            from: who,
            to: s.config.protocol_fee_receiver,
            amount: fees as u128,
        },
    ]
}

impl Pallet {
    /// The account that holds the pools.
    pub fn account_id(&self) -> (account: AccountId)
        ensures
            account == self@.account_id(),
    {
        self.config.pallet_id.into_account()
    }

    /// A pair of tokens with the higher one first, and whether that changed their order.
    pub fn get_upper_currency(curr_a: CurrencyId, curr_b: CurrencyId) -> (r: Option<
        (bool, CurrencyId, CurrencyId),
    >)
        ensures
            r == upper_currency(curr_a, curr_b),
    {
        match (curr_a.token_symbol(), curr_b.token_symbol()) {
            (Some(a), Some(b)) => if a.index > b.index {
                Some((false, curr_a, curr_b))
            } else {
                Some((true, curr_b, curr_a))
            },
            _ => None,
        }
    }

    /// What `amount` of one asset is worth in the other, at the price of a pool.
    pub fn quote(amount: Balance, base_pool: Balance, quote_pool: Balance) -> (r: Balance)
        requires
            base_pool > 0,
        ensures
            r == ratio(amount, quote_pool, base_pool),
    {
        saturating_mul(amount, quote_pool) / base_pool
    }

    /// The token that stands for shares of the pool of two tokens. Refuses other
    /// currencies.
    pub fn lp_token(&self, base_asset: &CurrencyId, quote_asset: &CurrencyId) -> (r: Result<
        CurrencyId,
        Refusal,
    >)
        ensures
            r == (if base_asset is Token && quote_asset is Token {
                Ok(self@.lp_token(*base_asset, *quote_asset))
            } else {
                Err(Refusal::Amm(Error::InvalidCurrencyId))
            }),
    {
        match (base_asset.token_symbol(), quote_asset.token_symbol()) {
            (Some(base), Some(quote)) => Ok(
                CurrencyId::LPToken(self.account_id().digest(), base, quote),
            ),
            _ => Err(Refusal::Amm(Error::InvalidCurrencyId)),
        }
    }

    /// What `who` provided to the pool of two assets.
    pub fn liquidity_providers(
        &self,
        who: &AccountId,
        base_asset: &CurrencyId,
        quote_asset: &CurrencyId,
    ) -> (r: PoolLiquidityAmount)
        ensures
            r == self@.provided(*who, *base_asset, *quote_asset),
    {
        match self.liquidity_providers.get(&(*who, *base_asset, *quote_asset)) {
            Some(amount) => amount,
            None => PoolLiquidityAmount {
                base_amount: 0,
                quote_amount: 0,
                lp_token: CurrencyId::Token(TokenSymbol { index: 0 }),
            },
        }
    }

    /// The pool of two assets, if there is one.
    pub fn pools(&self, base_asset: &CurrencyId, quote_asset: &CurrencyId) -> (r: Option<
        PoolLiquidityAmount,
    >)
        ensures
            r == (if self@.pools.contains_key((*base_asset, *quote_asset)) {
                Some(self@.pools[(*base_asset, *quote_asset)])
            } else {
                None
            }),
    {
        self.pools.get(&(*base_asset, *quote_asset))
    }

    /// The calls that put `amounts` into the pools' account and hand out the
    /// ownership for it.
    fn funding(
        &self,
        who: AccountId,
        base_asset: CurrencyId,
        quote_asset: CurrencyId,
        lp_token: CurrencyId,
        amounts: (Balance, Balance),
        ownership: Balance,
    ) -> (calls: Vec<CurrencyCall>)
        requires
            lp_token == self@.lp_token(base_asset, quote_asset),
        ensures
            calls@ == funding_calls(
                self@,
                who,
                base_asset,
                quote_asset,
                amounts,
                ownership,
            ),
    {
        let account = self.account_id();
        let calls = vec![
            CurrencyCall::Deposit { currency_id: lp_token, who, amount: ownership },
            CurrencyCall::Transfer {
                currency_id: base_asset,
                from: who,
                to: account,
                amount: amounts.0,
            },
            CurrencyCall::Transfer {
                currency_id: quote_asset,
                from: who,
                to: account,
                amount: amounts.1,
            },
        ];
        assert(calls@ =~= funding_calls(
            self@,
            who,
            base_asset,
            quote_asset,
            amounts,
            ownership,
        ));
        calls
    }

    /// Opens the pool of two assets.
    fn open_pool(
        &mut self,
        who: AccountId,
        base_asset: CurrencyId,
        quote_asset: CurrencyId,
        lp_token: CurrencyId,
        amounts: (Balance, Balance),
    ) -> (calls: Vec<CurrencyCall>)
        requires
            lp_token == old(self)@.lp_token(base_asset, quote_asset),
        ensures
            final(self)@ == pool_opened(old(self)@, who, base_asset, quote_asset, amounts),
            calls@ == funding_calls(
                old(self)@,
                who,
                base_asset,
                quote_asset,
                amounts,
                opening_ownership(amounts),
            ),
    {
        let product = saturating_mul(amounts.0, amounts.1);
        let ownership = substrate::integer_sqrt(product);
        proof { lemma_root(ownership as int, product as int); }
        let amm_pool = PoolLiquidityAmount {
            base_amount: amounts.0,
            quote_amount: amounts.1,
            lp_token,
        };
        let calls = self.funding(who, base_asset, quote_asset, lp_token, amounts, ownership);
        self.pools.insert((base_asset, quote_asset), amm_pool);
        self.liquidity_providers.insert((who, base_asset, quote_asset), amm_pool);
        calls
    }

    /// Adds liquidity to the existing pool of two assets.
    fn increase_pool(
        &mut self,
        who: AccountId,
        base_asset: CurrencyId,
        quote_asset: CurrencyId,
        lp_token: CurrencyId,
        offered: (Balance, Balance),
        minimum: (Balance, Balance),
        total_ownership: Balance,
        liquidity_amount: PoolLiquidityAmount,
    ) -> (r: Result<Vec<CurrencyCall>, Refusal>)
        requires
            lp_token == old(self)@.lp_token(base_asset, quote_asset),
            old(self)@.pools.contains_key((base_asset, quote_asset)),
            old(self)@.pools[(base_asset, quote_asset)] == liquidity_amount,
            liquidity_amount.base_amount > 0,
        ensures
            ({
                let ideal = ideal_amounts(liquidity_amount, offered);
                let refusal = increase_refusal(
                    old(self)@,
                    who,
                    base_asset,
                    quote_asset,
                    offered,
                    minimum,
                );
                match r {
                    Ok(calls) => {
                        &&& refusal is None
                        &&& final(self)@ == pool_increased(
                            old(self)@,
                            who,
                            base_asset,
                            quote_asset,
                            ideal,
                        )
                        &&& calls@ == funding_calls(
                            old(self)@,
                            who,
                            base_asset,
                            quote_asset,
                            ideal,
                            ownership_of(liquidity_amount, ideal, total_ownership),
                        )
                    },
                    Err(e) => refusal == Some(e) && final(self)@ == old(self)@,
                }
            }),
    {
        let optimal_quote_amount = Self::quote(
            offered.0,
            liquidity_amount.base_amount,
            liquidity_amount.quote_amount,
        );
        let (base_amount, quote_amount): (Balance, Balance) = if optimal_quote_amount
            <= offered.1 {
            (offered.0, optimal_quote_amount)
        } else {
            proof { lemma_quote_of_empty(offered.0, liquidity_amount); }
            let optimal_base_amount = Self::quote(
                offered.1,
                liquidity_amount.quote_amount,
                liquidity_amount.base_amount,
            );
            (optimal_base_amount, offered.1)
        };
        proof { laws::law_ideal_amounts_keep_to_the_offer(liquidity_amount, offered); }
        if !(base_amount >= minimum.0 && quote_amount >= minimum.1 && base_amount <= offered.0
            && quote_amount <= offered.1) {
            return Err(Refusal::Amm(Error::NotAIdealPriceRatio));
        }
        let overflow = Refusal::Arithmetic(ArithmeticError::Overflow);
        let base_share = match saturating_mul(base_amount, total_ownership).checked_div(
            liquidity_amount.base_amount,
        ) {
            Some(share) => share,
            None => {
                return Err(overflow);
            },
        };
        let quote_share = match saturating_mul(quote_amount, total_ownership).checked_div(
            liquidity_amount.quote_amount,
        ) {
            Some(share) => share,
            None => {
                return Err(overflow);
            },
        };
        let ownership = if base_share <= quote_share {
            base_share
        } else {
            quote_share
        };
        let pool = match Self::increase(liquidity_amount, (base_amount, quote_amount), lp_token) {
            Some(pool) => pool,
            None => {
                return Err(overflow);
            },
        };
        let provided = self.liquidity_providers(&who, &base_asset, &quote_asset);
        let provider = match Self::increase(provided, (base_amount, quote_amount), lp_token) {
            Some(provider) => provider,
            None => {
                return Err(overflow);
            },
        };
        let calls = self.funding(
            who,
            base_asset,
            quote_asset,
            lp_token,
            (base_amount, quote_amount),
            ownership,
        );
        self.pools.insert((base_asset, quote_asset), pool);
        self.liquidity_providers.insert((who, base_asset, quote_asset), provider);
        Ok(calls)
    }

    /// `amount` with `amounts` added and the share token set, where that fits.
    fn increase(
        amount: PoolLiquidityAmount,
        amounts: (Balance, Balance),
        lp_token: CurrencyId,
    ) -> (r: Option<PoolLiquidityAmount>)
        ensures
            r == (if can_increase(amount, amounts) {
                Some(increased(amount, amounts, lp_token))
            } else {
                None
            }),
    {
        match (
            amount.base_amount.checked_add(amounts.0),
            amount.quote_amount.checked_add(amounts.1),
        ) {
            (Some(base_amount), Some(quote_amount)) => Some(
                PoolLiquidityAmount { base_amount, quote_amount, lp_token },
            ),
            _ => None,
        }
    }

    /// Allow users to add liquidity to a given pool
    ///
    /// - `pool`: Currency pool, in which liquidity will be added
    /// - `liquidity_amounts`: Liquidity amounts to be added in pool
    /// - `minimum_amounts`: specifying its "worst case" ratio when pool already exists
    /// - `total_ownership`: how much of the pool's share token there is
    pub fn add_liquidity(
        &mut self,
        origin: Origin,
        pool: (CurrencyId, CurrencyId),
        liquidity_amounts: (Balance, Balance),
        minimum_amounts: (Balance, Balance),
        total_ownership: Balance,
    ) -> (r: Result<Receipt, Refusal>)
        requires
            origin is Signed && upper_currency(pool.0, pool.1) is Some ==> {
                let (_, base, quote) = upper_currency(pool.0, pool.1).unwrap();
                old(self)@.pools.contains_key((base, quote)) ==> old(self)@.pools[(
                    base,
                    quote,
                )].base_amount > 0
            },
        ensures
            ({
                let refusal = add_liquidity_refusal(
                    old(self)@,
                    origin,
                    pool,
                    liquidity_amounts,
                    minimum_amounts,
                );
                match r {
                    Ok(receipt) => {
                        let who = origin->Signed_0;
                        let (_, base, quote) = upper_currency(pool.0, pool.1).unwrap();
                        &&& refusal is None
                        &&& final(self)@ == liquidity_added(
                            old(self)@,
                            who,
                            pool,
                            liquidity_amounts,
                        )
                        &&& receipt.calls@ == liquidity_added_calls(
                            old(self)@,
                            who,
                            pool,
                            liquidity_amounts,
                            total_ownership,
                        )
                        &&& receipt.event == Event::LiquidityAdded(who, base, quote)
                        &&& receipt.weight == (if old(self)@.pools.contains_key((base, quote)) {
                            PostWeight::AddLiquidityNonExistingPool
                        } else {
                            PostWeight::AddLiquidityExistingPool
                        })
                    },
                    Err(e) => refusal == Some(e) && final(self)@ == old(self)@,
                }
            }),
    {
        let who = match ensure_signed(origin) {
            Ok(who) => who,
            Err(e) => {
                return Err(e);
            },
        };
        let (is_inverted, base_asset, quote_asset) = match Self::get_upper_currency(
            pool.0,
            pool.1,
        ) {
            Some(pair) => pair,
            None => {
                return Err(Refusal::Amm(Error::InvalidCurrencyId));
            },
        };
        let offered = if is_inverted {
            (liquidity_amounts.1, liquidity_amounts.0)
        } else {
            (liquidity_amounts.0, liquidity_amounts.1)
        };
        let lp_token = match self.lp_token(&base_asset, &quote_asset) {
            Ok(lp_token) => lp_token,
            Err(e) => {
                return Err(e);
            },
        };
        let event = Event::LiquidityAdded(who, base_asset, quote_asset);
        match self.pools(&base_asset, &quote_asset) {
            Some(liquidity_amount) => {
                let minimum = if is_inverted {
                    (minimum_amounts.1, minimum_amounts.0)
                } else {
                    (minimum_amounts.0, minimum_amounts.1)
                };
                match self.increase_pool(
                    who,
                    base_asset,
                    quote_asset,
                    lp_token,
                    offered,
                    minimum,
                    total_ownership,
                    liquidity_amount,
                ) {
                    Ok(calls) => Ok(
                        Receipt { calls, event, weight: PostWeight::AddLiquidityNonExistingPool },
                    ),
                    Err(e) => Err(e),
                }
            },
            None => {
                if !self.config.allow_permissionless_pool_creation {
                    return Err(Refusal::Amm(Error::PoolCreationDisabled));
                }
                let calls = self.open_pool(who, base_asset, quote_asset, lp_token, offered);
                Ok(Receipt { calls, event, weight: PostWeight::AddLiquidityExistingPool })
            },
        }
    }

    /// "force" the creation of a new pool by root
    ///
    /// - `pool`: Currency pool, in which liquidity will be added
    /// - `liquidity_amounts`: Liquidity amounts to be added in pool
    /// - `lptoken_receiver`: Allocate any liquidity tokens to lptoken_receiver
    pub fn force_create_pool(
        &mut self,
        origin: Origin,
        pool: (CurrencyId, CurrencyId),
        liquidity_amounts: (Balance, Balance),
        lptoken_receiver: AccountId,
    ) -> (r: Result<Receipt, Refusal>)
        ensures
            ({
                let refusal = force_create_pool_refusal(old(self)@, origin, pool);
                match r {
                    Ok(receipt) => {
                        let (is_inverted, base, quote) = upper_currency(pool.0, pool.1).unwrap();
                        let offered = ordered(is_inverted, liquidity_amounts);
                        &&& refusal is None
                        &&& final(self)@ == pool_opened(
                            old(self)@,
                            lptoken_receiver,
                            base,
                            quote,
                            offered,
                        )
                        &&& receipt.calls@ == funding_calls(
                            old(self)@,
                            lptoken_receiver,
                            base,
                            quote,
                            offered,
                            opening_ownership(offered),
                        )
                        &&& receipt.event == Event::LiquidityAdded(lptoken_receiver, base, quote)
                        &&& receipt.weight == PostWeight::Declared
                    },
                    Err(e) => refusal == Some(e) && final(self)@ == old(self)@,
                }
            }),
    {
        match ensure_root(origin) {
            Ok(()) => {},
            Err(e) => {
                return Err(e);
            },
        }
        let (is_inverted, base_asset, quote_asset) = match Self::get_upper_currency(
            pool.0,
            pool.1,
        ) {
            Some(pair) => pair,
            None => {
                return Err(Refusal::Amm(Error::InvalidCurrencyId));
            },
        };
        if self.pools.contains_key(&(base_asset, quote_asset)) {
            return Err(Refusal::Amm(Error::PoolAlreadyExists));
        }
        let offered = if is_inverted {
            (liquidity_amounts.1, liquidity_amounts.0)
        } else {
            (liquidity_amounts.0, liquidity_amounts.1)
        };
        let lp_token = match self.lp_token(&base_asset, &quote_asset) {
            Ok(lp_token) => lp_token,
            Err(e) => {
                return Err(e);
            },
        };
        let calls = self.open_pool(lptoken_receiver, base_asset, quote_asset, lp_token, offered);
        Ok(
            Receipt {
                calls,
                event: Event::LiquidityAdded(lptoken_receiver, base_asset, quote_asset),
                weight: PostWeight::Declared,
            },
        )
    }

    /// Allow users to remove liquidity from a given pool. Once all of its
    /// ownership is removed, the pool is closed.
    ///
    /// - `pool`: Currency pool, in which liquidity will be removed
    /// - `ownership_to_remove`: Ownership to be removed from user's ownership
    /// - `held_ownership`: how much of the pool's share token the user has
    /// - `total_ownership`: how much of the pool's share token there is
    pub fn remove_liquidity(
        &mut self,
        origin: Origin,
        pool: (CurrencyId, CurrencyId),
        ownership_to_remove: Balance,
        held_ownership: Balance,
        total_ownership: Balance,
    ) -> (r: Result<Receipt, Refusal>)
        ensures
            ({
                let refusal = remove_liquidity_refusal(
                    old(self)@,
                    origin,
                    pool,
                    ownership_to_remove,
                    held_ownership,
                    total_ownership,
                );
                match r {
                    Ok(receipt) => {
                        let who = origin->Signed_0;
                        let (_, base, quote) = upper_currency(pool.0, pool.1).unwrap();
                        &&& refusal is None
                        &&& final(self)@ == liquidity_removed(
                            old(self)@,
                            who,
                            pool,
                            ownership_to_remove,
                            total_ownership,
                        )
                        &&& receipt.calls@ == liquidity_removed_calls(
                            old(self)@,
                            who,
                            pool,
                            ownership_to_remove,
                            total_ownership,
                        )
                        &&& receipt.event == Event::LiquidityRemoved(who, base, quote)
                        &&& receipt.weight == PostWeight::Declared
                    },
                    Err(e) => refusal == Some(e) && final(self)@ == old(self)@,
                }
            }),
    {
        let who = match ensure_signed(origin) {
            Ok(who) => who,
            Err(e) => {
                return Err(e);
            },
        };
        let (_, base_asset, quote_asset) = match Self::get_upper_currency(pool.0, pool.1) {
            Some(pair) => pair,
            None => {
                return Err(Refusal::Amm(Error::InvalidCurrencyId));
            },
        };
        let mut liquidity_amount = match self.pools(&base_asset, &quote_asset) {
            Some(liquidity_amount) => liquidity_amount,
            None => {
                return Err(Refusal::Amm(Error::PoolDoesNotExist));
            },
        };
        if held_ownership < ownership_to_remove || total_ownership < ownership_to_remove {
            return Err(Refusal::Amm(Error::MoreLiquidity));
        }
        let underflow = Refusal::Arithmetic(ArithmeticError::Underflow);
        let base_amount = match saturating_mul(
            ownership_to_remove,
            liquidity_amount.base_amount,
        ).checked_div(total_ownership) {
            Some(amount) => amount,
            None => {
                return Err(underflow);
            },
        };
        let quote_amount = match saturating_mul(
            ownership_to_remove,
            liquidity_amount.quote_amount,
        ).checked_div(total_ownership) {
            Some(amount) => amount,
            None => {
                return Err(underflow);
            },
        };
        proof {
            lemma_share_fits(ownership_to_remove, liquidity_amount.base_amount, total_ownership);
            lemma_share_fits(ownership_to_remove, liquidity_amount.quote_amount, total_ownership);
        }
        match (
            liquidity_amount.base_amount.checked_sub(base_amount),
            liquidity_amount.quote_amount.checked_sub(quote_amount),
        ) {
            (Some(base), Some(quote)) => {
                liquidity_amount.base_amount = base;
                liquidity_amount.quote_amount = quote;
            },
            _ => {
                return Err(underflow);
            },
        }
        let mut provider = self.liquidity_providers(&who, &base_asset, &quote_asset);
        match (
            provider.base_amount.checked_sub(base_amount),
            provider.quote_amount.checked_sub(quote_amount),
        ) {
            (Some(base), Some(quote)) => {
                provider.base_amount = base;
                provider.quote_amount = quote;
            },
            _ => {
                return Err(underflow);
            },
        }
        let account = self.account_id();
        let calls = vec![
            CurrencyCall::Withdraw {
                currency_id: liquidity_amount.lp_token,
                who,
                amount: ownership_to_remove,
            },
            CurrencyCall::Transfer {
                currency_id: base_asset,
                from: account,
                to: who,
                amount: base_amount,
            },
            CurrencyCall::Transfer {
                currency_id: quote_asset,
                from: account,
                to: who,
                amount: quote_amount,
            },
        ];
        assert(calls@ =~= removal_calls(
            self@,
            who,
            base_asset,
            quote_asset,
            ownership_to_remove,
            (base_amount, quote_amount),
        ));
        if ownership_to_remove == total_ownership {
            self.pools.remove(&(base_asset, quote_asset));
        } else {
            self.pools.insert((base_asset, quote_asset), liquidity_amount);
        }
        self.liquidity_providers.insert((who, base_asset, quote_asset), provider);
        Ok(
            Receipt {
                calls,
                event: Event::LiquidityRemoved(who, base_asset, quote_asset),
                weight: PostWeight::Declared,
            },
        )
    }

    /// Trades `amount_in` of the first asset of `pair` for the second one, as
    /// long as that yields `minimum_amount_out`. Returns what it yields.
    pub fn trade(
        &mut self,
        who: &AccountId,
        pair: (CurrencyId, CurrencyId),
        amount_in: Balance,
        minimum_amount_out: Balance,
    ) -> (r: Result<(Balance, Receipt), Refusal>)
        requires
            upper_currency(pair.0, pair.1) is Some ==> {
                let (_, base, quote) = upper_currency(pair.0, pair.1).unwrap();
                let config = old(self)@.config;
                old(self)@.pools.contains_key((base, quote)) ==> {
                    &&& config.lp_fee.parts > 0
                    &&& amount_in >= least_amount(config.lp_fee) ==> config.protocol_fee.parts > 0
                }
            },
        ensures
            ({
                let refusal = trade_refusal(old(self)@, pair, amount_in, minimum_amount_out);
                match r {
                    Ok((yielded, receipt)) => {
                        &&& refusal is None
                        &&& yielded == amount_out(old(self)@, pair, amount_in)
                        &&& final(self)@ == pool_traded(old(self)@, pair, amount_in)
                        &&& receipt.calls@ == trade_calls(
                            old(self)@,
                            *who,
                            pair,
                            amount_in,
                            yielded,
                        )
                        &&& receipt.event == trade_event(*who, pair, amount_in, yielded)
                        &&& receipt.weight == PostWeight::Declared
                    },
                    Err(e) => refusal == Some(e) && final(self)@ == old(self)@,
                }
            }),
    {
        // expand variables
        let (input_token, output_token) = pair;

        // Sort pair to interact with the correct pool.
        let (is_inverted, base_asset, quote_asset) = match Self::get_upper_currency(
            input_token,
            output_token,
        ) {
            Some(pair) => pair,
            None => {
                return Err(Refusal::Amm(Error::InvalidCurrencyId));
            },
        };

        // 1. If the pool we want to trade does not exist in the current instance, error
        let mut liquidity_amount = match self.pools(&base_asset, &quote_asset) {
            Some(liquidity_amount) => liquidity_amount,
            None => {
                return Err(Refusal::Amm(Error::PoolDoesNotExist));
            },
        };
        let ghost pool = liquidity_amount;

        // supply_in == liquidity_amount.base_amount unless inverted
        let (supply_in, supply_out) = if is_inverted {
            (liquidity_amount.quote_amount, liquidity_amount.base_amount)
        } else {
            (liquidity_amount.base_amount, liquidity_amount.quote_amount)
        };

        if !(amount_in >= self.config.lp_fee.saturating_reciprocal_mul(1) && amount_in
            >= self.config.protocol_fee.saturating_reciprocal_mul(1)) {
            return Err(Refusal::Amm(Error::InsufficientAmountIn));
        }

        // 2. Compute all fees to be taken out, rounded down for trader convenience
        let lp_fees = self.config.lp_fee.mul_floor(amount_in);
        let protocol_fees = self.config.protocol_fee.mul_floor(amount_in);
        proof {
            lemma_part_fits(self.config.protocol_fee.parts, PERBILL, amount_in);
            lemma_part_fits(self.config.lp_fee.parts, PERBILL, amount_in);
        }

        // amount must incur at least 1 in lp fees
        if lp_fees < 1 {
            return Err(Refusal::Amm(Error::InsufficientAmountIn));
        }
        let underflow = Refusal::Arithmetic(ArithmeticError::Underflow);
        let overflow = Refusal::Arithmetic(ArithmeticError::Overflow);

        // subtract protocol fees from amount_in
        let amount_without_protocol_fees = match amount_in.checked_sub(protocol_fees) {
            Some(amount) => amount,
            None => {
                return Err(underflow);
            },
        };

        // subtract lp fees from amount_in minus protocol fees
        let amount_in_after_all_fees = match amount_without_protocol_fees.checked_sub(lp_fees) {
            Some(amount) => amount,
            None => {
                return Err(underflow);
            },
        };

        // 3. Given the input amount left after fees, compute amount_out
        let supply_after = match supply_in.checked_add(amount_in_after_all_fees) {
            Some(amount) => amount,
            None => {
                return Err(overflow);
            },
        };
        let amount_out = match saturating_mul(amount_in_after_all_fees, supply_out).checked_div(
            supply_after,
        ) {
            Some(amount) => amount,
            None => {
                return Err(underflow);
            },
        };

        // 4. If `amount_out` is lower than `minimum_amount_out`, error
        if !(amount_out >= minimum_amount_out && amount_in > 0) {
            return Err(Refusal::Amm(Error::InsufficientAmountOut));
        }
        proof { lemma_share_fits(amount_in_after_all_fees, supply_out, supply_after); }

        // 5. Increase one side of the pool by what comes in and decrease the other
        // by `amount_out`
        let new_supply_in = match supply_in.checked_add(amount_without_protocol_fees) {
            Some(amount) => amount,
            None => {
                return Err(overflow);
            },
        };
        let new_supply_out = match supply_out.checked_sub(amount_out) {
            Some(amount) => amount,
            None => {
                return Err(underflow);
            },
        };
        if is_inverted {
            liquidity_amount.quote_amount = new_supply_in;
            liquidity_amount.base_amount = new_supply_out;
        } else {
            liquidity_amount.base_amount = new_supply_in;
            liquidity_amount.quote_amount = new_supply_out;
        }
        let account = self.account_id();
        let calls = vec![
            // 6. Wire what comes in of the input token from who to the pools' account
            CurrencyCall::Transfer {
                currency_id: input_token,
                from: *who,
                to: account,
                amount: amount_without_protocol_fees,
            },
            // 7. Wire amount_out of the output token to who
            CurrencyCall::Transfer {
                currency_id: output_token,
                from: account,
                to: *who,
                amount: amount_out,
            },
            // 8. Wire protocol fees as needed (input token)
            CurrencyCall::Transfer {
                currency_id: input_token,
                from: *who,
                to: self.config.protocol_fee_receiver,
                amount: protocol_fees,
            },
        ];
        assert(calls@ =~= trade_calls(self@, *who, pair, amount_in, amount_out));
        self.pools.insert((base_asset, quote_asset), liquidity_amount);

        // Emit event of trade with rate calculated
        let event = Event::Trade(
            *who,
            input_token,
            output_token,
            FixedU128::saturating_from_integer(amount_out / amount_in),
        );
        Ok((amount_out, Receipt { calls, event, weight: PostWeight::Declared }))
    }
}

/// A share of at most the whole is worth at most the whole.
proof fn lemma_share_fits(share: Balance, amount: Balance, whole: Balance)
    requires
        share <= whole,
        whole > 0,
    ensures
        ratio(share, amount, whole) <= amount,
{
    assert(saturated(share * amount) <= amount * whole) by (nonlinear_arith)
        requires
            share <= whole,
            saturated(share * amount) <= share * amount,
    ;
    vstd::arithmetic::div_mod::lemma_div_is_ordered(
        saturated(share * amount) as int,
        amount * whole,
        whole as int,
    );
    vstd::arithmetic::div_mod::lemma_div_multiples_vanish(amount as int, whole as int);
    assert(amount * whole == whole * amount) by (nonlinear_arith);
}

/// An empty quote side asks for none of the quote asset.
proof fn lemma_quote_of_empty(amount: Balance, pool: PoolLiquidityAmount)
    requires
        pool.base_amount > 0,
    ensures
        pool.quote_amount == 0 ==> ratio(amount, pool.quote_amount, pool.base_amount) == 0,
{
    if pool.quote_amount == 0 {
        assert(amount * 0 == 0);
        assert(0int / (pool.base_amount as int) == 0) by (nonlinear_arith)
            requires
                pool.base_amount > 0,
        ;
    }
}

} // verus!
