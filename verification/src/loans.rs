//! Loans pallet
//!
//! The lending protocol uses a pool-based strategy that aggregates each user's
//! supplied assets. The interest rate is dynamically determined by the supply
//! and demand.
//!
//! Some of a dispatch's work is done by the currency ledger. Where its answer
//! comes last, a dispatch returns the call to make; where more is decided after
//! it, one function says which call to make and another takes the answer.

pub mod circulation;
pub mod debt;
pub mod laws;
pub mod liquidation;
pub mod markets;
pub mod reserves;
pub mod supply;
pub mod totals;
pub mod valuation;

use vstd::prelude::*;
use crate::arithmetic::{FixedU128, Permill};
use crate::primitives::{account_of, AccountId, Balance, CurrencyCall, CurrencyId, PalletId};
use crate::primitives::{Price, Rate, Ratio, Timestamp};
use crate::storage::Table;

verus! {

/// Why the lending protocol refuses a dispatch.
#[derive(Debug, Clone, Copy, PartialEq, Eq, Structural)]
pub enum Error {
    /// Insufficient liquidity to borrow more or disable collateral
    InsufficientLiquidity,
    /// Insufficient deposit to redeem
    InsufficientDeposit,
    /// Repay amount greater than allowed
    TooMuchRepay,
    /// Asset already enabled/disabled collateral
    DuplicateOperation,
    /// No deposit asset
    NoDeposit,
    /// Repay amount more than collateral amount
    InsufficientCollateral,
    /// Liquidator is same as borrower
    LiquidatorIsBorrower,
    /// Deposits are not used as a collateral
    DepositsAreNotCollateral,
    /// Insufficient shortfall to repay
    InsufficientShortfall,
    /// Liquidate value overflow
    LiquidateValueOverflow,
    /// Insufficient reserves
    InsufficientReserves,
    /// Invalid rate model params
    InvalidRateModelParam,
    /// Market not activated
    MarketNotActivated,
    /// Currency's oracle price not ready
    PriceOracleNotReady,
    /// Market does not exist
    MarketDoesNotExist,
    /// Market already exists
    MarketAlredyExists,
    /// New markets must have a pending state
    NewMarketMustHavePendingState,
}

/// Whether a market can be used.
#[derive(Debug, Clone, Copy, PartialEq, Eq, Structural)]
pub enum MarketState {
    /// It can.
    Active,
    /// Not yet.
    Pending,
}

/// A market. `M` is the model that interest rates follow; it is kept as it is.
#[derive(Debug, Clone, Copy, PartialEq, Eq)]
pub struct Market<M> {
    /// The part of a deposit that counts as collateral.
    pub collateral_factor: Ratio,
    /// The part of the interest that is kept as a reserve.
    pub reserve_factor: Ratio,
    /// The part of a debt that one liquidation may repay.
    pub close_factor: Ratio,
    /// The rate at which a liquidator is rewarded.
    pub liquidate_incentive: Rate,
    /// The model that interest rates follow.
    pub rate_model: M,
    /// Whether the market can be used.
    pub state: MarketState,
}

/// What an account owed when it last borrowed or repaid.
#[derive(Debug, Clone, Copy, PartialEq, Eq, Structural)]
pub struct BorrowSnapshot {
    /// The debt.
    pub principal: Balance,
    /// The accumulated interest rate at that time.
    pub borrow_index: Rate,
}

/// What an account supplied.
#[derive(Debug, Clone, Copy, PartialEq, Eq, Structural)]
pub struct Deposits {
    /// The internal supplies held.
    pub voucher_balance: Balance,
    /// Whether they serve as collateral.
    pub is_collateral: bool,
}

/// The interest that an account earned when its deposit last changed.
#[derive(Debug, Clone, Copy, PartialEq, Eq, Structural)]
pub struct EarnedSnapshot {
    /// The exchange rate at that time.
    pub exchange_rate_prior: Rate,
    /// The interest earned up to then.
    pub total_earned_prior: Balance,
}

/// What the lending protocol reports.
#[derive(Debug, Clone, Copy, PartialEq, Eq)]
pub enum Event<M> {
    /// Enable collateral for certain asset
    /// [sender, currency_id]
    CollateralAssetAdded(AccountId, CurrencyId),
    /// Disable collateral for certain asset
    /// [sender, currency_id]
    CollateralAssetRemoved(AccountId, CurrencyId),
    /// Event emitted when assets are deposited
    /// [sender, currency_id, amount]
    Deposited(AccountId, CurrencyId, Balance),
    /// Event emitted when assets are redeemed
    /// [sender, currency_id, amount]
    Redeemed(AccountId, CurrencyId, Balance),
    /// Event emitted when cash is borrowed
    /// [sender, currency_id, amount]
    Borrowed(AccountId, CurrencyId, Balance),
    /// Event emitted when a borrow is repaid
    /// [sender, currency_id, amount]
    RepaidBorrow(AccountId, CurrencyId, Balance),
    /// Event emitted when a borrow is liquidated
    /// [liquidator, borrower, liquidate_token, collateral_token, repay_amount, collateral_amount]
    LiquidatedBorrow(AccountId, AccountId, CurrencyId, CurrencyId, Balance, Balance),
    /// New interest rate model is set
    /// [new_interest_rate_model]
    NewMarket(Market<M>),
    /// Event emitted when the reserves are reduced
    /// [admin, currency_id, reduced_amount, total_reserves]
    ReservesReduced(AccountId, CurrencyId, Balance, Balance),
    /// Event emitted when the reserves are added
    /// [admin, currency_id, added_amount, total_reserves]
    ReservesAdded(AccountId, CurrencyId, Balance, Balance),
    /// Event emitted when a market is activated
    /// [admin, currency_id]
    ActivatedMarket(CurrencyId),
}

/// What is left to do for a dispatch that was granted: the call to make on the
/// currency ledger, and the event to emit once it went through. If the ledger
/// refuses, the whole dispatch is undone.
#[derive(Debug, Clone, Copy, PartialEq, Eq)]
pub struct Receipt<M> {
    /// The call on the currency ledger.
    pub call: CurrencyCall,
    /// The event.
    pub event: Event<M>,
}

/// How the lending protocol is set up.
#[derive(Debug, Clone, Copy, PartialEq, Eq)]
pub struct Config {
    /// The loan's module id, keep all collaterals of CDPs.
    pub pallet_id: PalletId,
}

/// What the oracle says of a currency.
#[derive(Debug, Clone, Copy, PartialEq, Eq, Structural)]
pub struct PriceDetail {
    /// The price of one unit.
    pub price: Price,
    /// When the price was fed.
    pub timestamp: Timestamp,
}

/// The prices that the oracle has.
pub type PriceFeed = Table<CurrencyId, PriceDetail>;

/// The lending protocol: its settings and its stored state.
#[derive(Debug, PartialEq, Eq)]
pub struct Pallet<M: Copy> {
    /// The settings.
    pub config: Config,
    /// The timestamp of the previous block or defaults to timestamp at genesis.
    pub last_block_timestamp: Timestamp,
    /// Total number of collateral tokens in circulation
    pub total_supply: Table<CurrencyId, Balance>,
    /// Total amount of outstanding borrows of the underlying in this market
    pub total_borrows: Table<CurrencyId, Balance>,
    /// Total amount of reserves of the underlying held in this market
    pub total_reserves: Table<CurrencyId, Balance>,
    /// Mapping of account addresses to outstanding borrow balances
    pub account_borrows: Table<(CurrencyId, AccountId), BorrowSnapshot>,
    /// Mapping of account addresses to deposit details
    pub account_deposits: Table<(CurrencyId, AccountId), Deposits>,
    /// Mapping of account addresses to total deposit interest accrual
    pub account_earned: Table<(CurrencyId, AccountId), EarnedSnapshot>,
    /// Accumulator of the total earned interest rate since the opening of the market
    pub borrow_index: Table<CurrencyId, Rate>,
    /// The exchange rate from the underlying to the internal collateral
    pub exchange_rate: Table<CurrencyId, Rate>,
    /// Mapping of borrow rate to currency type
    pub borrow_rate: Table<CurrencyId, Rate>,
    /// Mapping of supply rate to currency type
    pub supply_rate: Table<CurrencyId, Rate>,
    /// Borrow utilization ratio
    pub utilization_ratio: Table<CurrencyId, Ratio>,
    /// Mapping of currency id to its market, walked in the order of the table
    pub markets: Table<CurrencyId, Market<M>>,
}

/// What a [`Pallet`] holds.
#[verifier::ext_equal]
pub struct State<M> {
    pub config: Config,
    pub last_block_timestamp: Timestamp,
    pub total_supply: Map<CurrencyId, Balance>,
    pub total_borrows: Map<CurrencyId, Balance>,
    pub total_reserves: Map<CurrencyId, Balance>,
    pub account_borrows: Map<(CurrencyId, AccountId), BorrowSnapshot>,
    pub account_deposits: Map<(CurrencyId, AccountId), Deposits>,
    pub account_earned: Map<(CurrencyId, AccountId), EarnedSnapshot>,
    pub borrow_index: Map<CurrencyId, Rate>,
    pub exchange_rate: Map<CurrencyId, Rate>,
    pub borrow_rate: Map<CurrencyId, Rate>,
    pub supply_rate: Map<CurrencyId, Rate>,
    pub utilization_ratio: Map<CurrencyId, Ratio>,
    pub markets: Map<CurrencyId, Market<M>>,
    /// The currencies of the markets, in the order of the table.
    pub market_order: Seq<CurrencyId>,
}

impl<M: Copy> View for Pallet<M> {
    type V = State<M>;

    open spec fn view(&self) -> State<M> {
        State {
            config: self.config,
            last_block_timestamp: self.last_block_timestamp,
            total_supply: self.total_supply@,
            total_borrows: self.total_borrows@,
            total_reserves: self.total_reserves@,
            account_borrows: self.account_borrows@,
            account_deposits: self.account_deposits@,
            account_earned: self.account_earned@,
            borrow_index: self.borrow_index@,
            exchange_rate: self.exchange_rate@,
            borrow_rate: self.borrow_rate@,
            supply_rate: self.supply_rate@,
            utilization_ratio: self.utilization_ratio@,
            markets: self.markets@,
            market_order: self.markets.keys(),
        }
    }
}

/// The value under `key`, or `default` where there is none.
pub open spec fn value_or<K, V>(map: Map<K, V>, key: K, default: V) -> V {
    if map.contains_key(key) {
        map[key]
    } else {
        default
    }
}

impl<M> State<M> {
    /// The account that holds the funds.
    pub open spec fn account_id(self) -> AccountId {
        account_of(self.config.pallet_id)
    }

    /// The internal supplies of a currency in circulation.
    pub open spec fn supply(self, c: CurrencyId) -> Balance {
        value_or(self.total_supply, c, 0)
    }

    /// The outstanding borrows of a currency.
    pub open spec fn borrows(self, c: CurrencyId) -> Balance {
        value_or(self.total_borrows, c, 0)
    }

    /// The reserves of a currency.
    pub open spec fn reserves(self, c: CurrencyId) -> Balance {
        value_or(self.total_reserves, c, 0)
    }

    /// What `who` owed when the debt last changed.
    pub open spec fn snapshot(self, c: CurrencyId, who: AccountId) -> BorrowSnapshot {
        value_or(
            self.account_borrows,
            (c, who),
            BorrowSnapshot { principal: 0, borrow_index: FixedU128 { inner: 0 } },
        )
    }

    /// What `who` supplied.
    pub open spec fn deposits(self, c: CurrencyId, who: AccountId) -> Deposits {
        value_or(
            self.account_deposits,
            (c, who),
            Deposits { voucher_balance: 0, is_collateral: false },
        )
    }

    /// What `who` had earned when the deposit last changed.
    pub open spec fn earned(self, c: CurrencyId, who: AccountId) -> EarnedSnapshot {
        value_or(
            self.account_earned,
            (c, who),
            EarnedSnapshot { exchange_rate_prior: FixedU128 { inner: 0 }, total_earned_prior: 0 },
        )
    }

    /// The accumulated interest rate of a currency.
    pub open spec fn index(self, c: CurrencyId) -> Rate {
        value_or(self.borrow_index, c, FixedU128 { inner: 0 })
    }

    /// The exchange rate of a currency.
    pub open spec fn rate(self, c: CurrencyId) -> Rate {
        value_or(self.exchange_rate, c, FixedU128 { inner: 0 })
    }

    /// Whether a currency has a market that can be used.
    pub open spec fn is_active(self, c: CurrencyId) -> bool {
        self.markets.contains_key(c) && self.markets[c].state is Active
    }

    /// The currencies with a market that can be used, in the order of the table.
    pub open spec fn active_currencies(self) -> Seq<CurrencyId> {
        self.market_order.filter(|c: CurrencyId| self.is_active(c))
    }

    /// Whether the table has each market once. This holds of what a [`Pallet`] holds.
    pub open spec fn walks_markets_once(self) -> bool {
        &&& self.market_order.no_duplicates()
        &&& forall|c: CurrencyId|
            self.markets.contains_key(c) <==> #[trigger] self.market_order.contains(c)
    }
}

impl<M: Copy> Pallet<M> {
    /// The account that holds the funds.
    pub fn account_id(&self) -> (account: AccountId)
        ensures
            account == self@.account_id(),
    {
        self.config.pallet_id.into_account()
    }

    /// The timestamp of the previous block.
    pub fn last_block_timestamp(&self) -> (r: Timestamp)
        ensures
            r == self@.last_block_timestamp,
    {
        self.last_block_timestamp
    }

    /// The internal supplies of a currency in circulation.
    pub fn total_supply(&self, currency_id: &CurrencyId) -> (r: Balance)
        ensures
            r == self@.supply(*currency_id),
    {
        self.total_supply.get(currency_id).unwrap_or(0)
    }

    /// The outstanding borrows of a currency.
    pub fn total_borrows(&self, currency_id: &CurrencyId) -> (r: Balance)
        ensures
            r == self@.borrows(*currency_id),
    {
        self.total_borrows.get(currency_id).unwrap_or(0)
    }

    /// The reserves of a currency.
    pub fn total_reserves(&self, currency_id: &CurrencyId) -> (r: Balance)
        ensures
            r == self@.reserves(*currency_id),
    {
        self.total_reserves.get(currency_id).unwrap_or(0)
    }

    /// What `who` owed when the debt last changed.
    pub fn account_borrows(&self, currency_id: &CurrencyId, who: &AccountId) -> (r: BorrowSnapshot)
        ensures
            r == self@.snapshot(*currency_id, *who),
    {
        self.account_borrows.get(&(*currency_id, *who)).unwrap_or(
            BorrowSnapshot { principal: 0, borrow_index: FixedU128::zero() },
        )
    }

    /// What `who` supplied.
    pub fn account_deposits(&self, currency_id: &CurrencyId, who: &AccountId) -> (r: Deposits)
        ensures
            r == self@.deposits(*currency_id, *who),
    {
        self.account_deposits.get(&(*currency_id, *who)).unwrap_or(
            Deposits { voucher_balance: 0, is_collateral: false },
        )
    }

    /// What `who` had earned when the deposit last changed.
    pub fn account_earned(&self, currency_id: &CurrencyId, who: &AccountId) -> (r: EarnedSnapshot)
        ensures
            r == self@.earned(*currency_id, *who),
    {
        self.account_earned.get(&(*currency_id, *who)).unwrap_or(
            EarnedSnapshot { exchange_rate_prior: FixedU128::zero(), total_earned_prior: 0 },
        )
    }

    /// The accumulated interest rate of a currency.
    pub fn borrow_index(&self, currency_id: &CurrencyId) -> (r: Rate)
        ensures
            r == self@.index(*currency_id),
    {
        self.borrow_index.get(currency_id).unwrap_or(FixedU128::zero())
    }

    /// The exchange rate of a currency.
    pub fn exchange_rate(&self, currency_id: &CurrencyId) -> (r: Rate)
        ensures
            r == self@.rate(*currency_id),
    {
        self.exchange_rate.get(currency_id).unwrap_or(FixedU128::zero())
    }

    /// The borrow rate of a currency.
    pub fn borrow_rate(&self, currency_id: &CurrencyId) -> (r: Rate)
        ensures
            r == value_or(self@.borrow_rate, *currency_id, FixedU128 { inner: 0 }),
    {
        self.borrow_rate.get(currency_id).unwrap_or(FixedU128::zero())
    }

    /// The supply rate of a currency.
    pub fn supply_rate(&self, currency_id: &CurrencyId) -> (r: Rate)
        ensures
            r == value_or(self@.supply_rate, *currency_id, FixedU128 { inner: 0 }),
    {
        self.supply_rate.get(currency_id).unwrap_or(FixedU128::zero())
    }

    /// The borrow utilization ratio of a currency.
    pub fn utilization_ratio(&self, currency_id: &CurrencyId) -> (r: Ratio)
        ensures
            r == value_or(self@.utilization_ratio, *currency_id, Permill { parts: 0 }),
    {
        self.utilization_ratio.get(currency_id).unwrap_or(Permill::from_parts(0))
    }
}

} // verus!
