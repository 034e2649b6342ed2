//! Markets: which there are, who may change them, and how the protocol starts.

use vstd::prelude::*;
use crate::arithmetic::FixedU128;
use crate::loans::{Config, Error, Event, Market, MarketState, Pallet, State};
use crate::primitives::{CurrencyId, Rate, Refusal, Timestamp};
use crate::storage::{lemma_table, Table};

verus! {

impl<M> State<M> {
    /// The state with another market in place of the one of a currency.
    pub open spec fn with_market(self, c: CurrencyId, market: Market<M>) -> State<M> {
        State { markets: self.markets.insert(c, market), ..self }
    }

    /// The state with a market stored for a currency, in place of the one that it
    /// had. A currency that had none goes to the end of the table.
    pub open spec fn with_stored_market(self, c: CurrencyId, market: Market<M>) -> State<M> {
        State {
            market_order: if self.markets.contains_key(c) {
                self.market_order
            } else {
                self.market_order.push(c)
            },
            ..self.with_market(c, market)
        }
    }

    /// The state in which a market has other parameters, and is in the state that it
    /// was in.
    pub open spec fn updated(self, c: CurrencyId, market: Market<M>) -> State<M> {
        self.with_market(c, Market { state: self.markets[c].state, ..market })
    }

    /// The state before interest is accrued at the end of a block.
    pub open spec fn prepared(self, now: Timestamp) -> State<M> {
        State {
            last_block_timestamp: if self.last_block_timestamp == 0 {
                now
            } else {
                self.last_block_timestamp
            },
            ..self
        }
    }

    /// The state at the end of a block, given what accruing interest led to.
    pub open spec fn finalized(self, now: Timestamp, accrued: Result<State<M>, Refusal>) -> State<
        M,
    > {
        match accrued {
            Ok(state) => State { last_block_timestamp: now, ..state },
            Err(_) => self.prepared(now),
        }
    }

    /// The state in which the market of a currency can be used.
    pub open spec fn activated(self, c: CurrencyId) -> State<M> {
        self.with_market(c, Market { state: MarketState::Active, ..self.markets[c] })
    }
}

/// The lending protocol's state at genesis.
#[derive(Debug, Clone, PartialEq, Eq)]
pub struct GenesisConfig<M> {
    /// The accumulated interest rate that every market starts with.
    pub borrow_index: Rate,
    /// The exchange rate that every market starts with.
    pub exchange_rate: Rate,
    /// The timestamp of genesis.
    pub last_block_timestamp: Timestamp,
    /// The markets.
    pub markets: Vec<(CurrencyId, Market<M>)>,
}

/// `value` under each currency of `markets`.
pub open spec fn for_each_market<M, V>(markets: Seq<(CurrencyId, Market<M>)>, value: V) -> Map<
    CurrencyId,
    V,
>
    decreases markets.len(),
{
    if markets.len() == 0 {
        Map::empty()
    } else {
        for_each_market(markets.drop_last(), value).insert(markets.last().0, value)
    }
}

/// The markets of a list, where later entries replace earlier ones.
pub open spec fn listed_markets<M>(markets: Seq<(CurrencyId, Market<M>)>) -> Map<
    CurrencyId,
    Market<M>,
>
    decreases markets.len(),
{
    if markets.len() == 0 {
        Map::empty()
    } else {
        listed_markets(markets.drop_last()).insert(markets.last().0, markets.last().1)
    }
}

/// The currencies of a list, in the order of their first entries.
pub open spec fn listed_order<M>(markets: Seq<(CurrencyId, Market<M>)>) -> Seq<CurrencyId>
    decreases markets.len(),
{
    if markets.len() == 0 {
        Seq::empty()
    } else {
        let before = listed_order(markets.drop_last());
        if listed_markets(markets.drop_last()).contains_key(markets.last().0) {
            before
        } else {
            before.push(markets.last().0)
        }
    }
}

/// A protocol that stores nothing.
pub open spec fn empty_state<M>(config: Config) -> State<M> {
    State {
        config,
        last_block_timestamp: 0,
        total_supply: Map::empty(),
        total_borrows: Map::empty(),
        total_reserves: Map::empty(),
        account_borrows: Map::empty(),
        account_deposits: Map::empty(),
        account_earned: Map::empty(),
        borrow_index: Map::empty(),
        exchange_rate: Map::empty(),
        borrow_rate: Map::empty(),
        supply_rate: Map::empty(),
        utilization_ratio: Map::empty(),
        markets: Map::empty(),
        market_order: Seq::empty(),
    }
}

impl<M: Copy> Default for GenesisConfig<M> {
    /// No markets, and nothing accumulated.
    fn default() -> (genesis: Self)
        ensures
            genesis.borrow_index.inner == 0,
            genesis.exchange_rate.inner == 0,
            genesis.last_block_timestamp == 0,
            genesis.markets@ == Seq::<(CurrencyId, Market<M>)>::empty(),
    {
        GenesisConfig {
            borrow_index: FixedU128::zero(),
            exchange_rate: FixedU128::zero(),
            last_block_timestamp: 0,
            markets: Vec::new(),
        }
    }
}

impl<M> GenesisConfig<M> {
    /// The protocol's state at genesis: every market listed, at the given rates.
    pub open spec fn state(self, config: Config) -> State<M> {
        State {
            last_block_timestamp: self.last_block_timestamp,
            borrow_index: for_each_market(self.markets@, self.borrow_index),
            exchange_rate: for_each_market(self.markets@, self.exchange_rate),
            markets: listed_markets(self.markets@),
            market_order: listed_order(self.markets@),
            ..empty_state::<M>(config)
        }
    }
}

impl<M: Copy> GenesisConfig<M> {
    /// The protocol's state at genesis.
    ///
    /// - `models_are_valid`: for each market, whether its rate model passes its
    ///   check. Genesis takes no others.
    pub fn build(&self, config: Config, models_are_valid: &Vec<bool>) -> (pallet: Pallet<M>)
        requires
            models_are_valid@.len() == self.markets@.len(),
            forall|i: int| 0 <= i < models_are_valid@.len() ==> #[trigger] models_are_valid@[i],
        ensures
            pallet@ == self.state(config),
    {
        let mut pallet = Pallet::<M>::new(config);
        let mut i: usize = 0;
        let ghost all = self.markets@;
        proof { assert(all.take(0) =~= Seq::<(CurrencyId, Market<M>)>::empty()); }
        while i < self.markets.len()
            invariant
                i <= all.len(),
                all == self.markets@,
                pallet@ == (State {
                    borrow_index: for_each_market(all.take(i as int), self.borrow_index),
                    exchange_rate: for_each_market(all.take(i as int), self.exchange_rate),
                    markets: listed_markets(all.take(i as int)),
                    market_order: listed_order(all.take(i as int)),
                    ..empty_state::<M>(config)
                }),
            decreases all.len() - i,
        {
            proof {
                assert(all.take(i + 1).drop_last() =~= all.take(i as int));
                assert(all.take(i + 1).last() == all[i as int]);
            }
            let currency_id = self.markets[i].0;
            pallet.borrow_index.insert(currency_id, self.borrow_index);
            pallet.exchange_rate.insert(currency_id, self.exchange_rate);
            pallet.markets.insert(currency_id, self.markets[i].1);
            i += 1;
        }
        proof { assert(all.take(all.len() as int) =~= all); }
        pallet.last_block_timestamp = self.last_block_timestamp;
        pallet
    }
}

/// Why a new market is refused, if it is.
pub open spec fn add_market_refusal<M>(
    may_update: bool,
    market: Market<M>,
    model_is_valid: bool,
) -> Option<Refusal> {
    if !may_update {
        Some(Refusal::BadOrigin)
    } else if market.state !is Pending {
        Some(Refusal::Loans(Error::NewMarketMustHavePendingState))
    } else if !model_is_valid {
        Some(Refusal::Loans(Error::InvalidRateModelParam))
    } else {
        None
    }
}

/// Why an update of a market is refused, if it is.
pub open spec fn update_market_refusal<M>(
    s: State<M>,
    may_update: bool,
    c: CurrencyId,
    model_is_valid: bool,
) -> Option<Refusal> {
    if !may_update {
        Some(Refusal::BadOrigin)
    } else if !model_is_valid {
        Some(Refusal::Loans(Error::InvalidRateModelParam))
    } else if !s.markets.contains_key(c) {
        Some(Refusal::Loans(Error::MarketDoesNotExist))
    } else {
        None
    }
}

/// Why the activation of a market is refused, if it is.
pub open spec fn active_market_refusal<M>(
    s: State<M>,
    may_update: bool,
    c: CurrencyId,
) -> Option<Refusal> {
    if !may_update {
        Some(Refusal::BadOrigin)
    } else if !s.markets.contains_key(c) {
        Some(Refusal::Loans(Error::MarketDoesNotExist))
    } else {
        None
    }
}

impl<M: Copy> Pallet<M> {
    /// The currencies of all markets that are active, in the order of the table.
    pub fn active_markets(&self) -> (r: Vec<CurrencyId>)
        ensures
            r@ == self@.active_currencies(),
            forall|i: int| 0 <= i < r@.len() ==> self@.is_active(#[trigger] r@[i]),
            self@.walks_markets_once(),
    {
        let ghost order = self@.market_order;
        let ghost pred = |c: CurrencyId| self@.is_active(c);
        let mut active: Vec<CurrencyId> = Vec::new();
        let mut i: usize = 0;
        proof {
            use_type_invariant(&self.markets);
            lemma_table(self.markets);
            reveal(Seq::filter);
            assert(order.take(0) =~= Seq::<CurrencyId>::empty());
        }
        while i < self.markets.len()
            invariant
                i <= order.len(),
                order == self.markets.keys(),
                pred == (|c: CurrencyId| self@.is_active(c)),
                active@ == order.take(i as int).filter(pred),
                forall|j: int| 0 <= j < active@.len() ==> self@.is_active(#[trigger] active@[j]),
            decreases order.len() - i,
        {
            let currency_id = self.markets.key_at(i);
            proof {
                reveal(Seq::filter);
                assert(order.take(i + 1).drop_last() =~= order.take(i as int));
                assert(order.take(i + 1).last() == order[i as int]);
            }
            match self.markets.get(&currency_id) {
                Some(market) => {
                    match market.state {
                        MarketState::Active => {
                            active.push(currency_id);
                        },
                        MarketState::Pending => {},
                    }
                },
                None => {},
            }
            i += 1;
        }
        proof { assert(order.take(order.len() as int) =~= order); }
        active
    }

    /// A protocol that stores nothing.
    pub fn new(config: Config) -> (pallet: Self)
        ensures
            pallet@ == empty_state::<M>(config),
    {
        Pallet {
            config,
            last_block_timestamp: 0,
            total_supply: Table::new(),
            total_borrows: Table::new(),
            total_reserves: Table::new(),
            account_borrows: Table::new(),
            account_deposits: Table::new(),
            account_earned: Table::new(),
            borrow_index: Table::new(),
            exchange_rate: Table::new(),
            borrow_rate: Table::new(),
            supply_rate: Table::new(),
            utilization_ratio: Table::new(),
            markets: Table::new(),
        }
    }

    /// Refuses a currency without an active market.
    pub fn ensure_currency(&self, currency_id: &CurrencyId) -> (r: Result<(), Refusal>)
        ensures
            r == (if self@.is_active(*currency_id) {
                Ok(())
            } else {
                Err(Refusal::Loans(Error::MarketNotActivated))
            }),
    {
        match self.markets.get(currency_id) {
            Some(market) => match market.state {
                MarketState::Active => Ok(()),
                MarketState::Pending => Err(Refusal::Loans(Error::MarketNotActivated)),
            },
            None => Err(Refusal::Loans(Error::MarketNotActivated)),
        }
    }

    /// Returns a stored market.
    ///
    /// Returns `Err` if market does not exist.
    pub fn market(&self, currency_id: &CurrencyId) -> (r: Result<Market<M>, Refusal>)
        ensures
            r == (if self@.markets.contains_key(*currency_id) {
                Ok(self@.markets[*currency_id])
            } else {
                Err(Refusal::Loans(Error::MarketDoesNotExist))
            }),
    {
        match self.markets.get(currency_id) {
            Some(market) => Ok(market),
            None => Err(Refusal::Loans(Error::MarketDoesNotExist)),
        }
    }

    /// Puts what `change` makes of a stored market in its place.
    ///
    /// Returns `Err` if market does not exist.
    pub(crate) fn mutate_market<F: FnOnce(Market<M>) -> Market<M>>(
        &mut self,
        currency_id: &CurrencyId,
        change: F,
    ) -> (r: Result<(), Refusal>)
        requires
            old(self)@.markets.contains_key(*currency_id) ==> call_requires(
                change,
                (old(self)@.markets[*currency_id],),
            ),
        ensures
            match r {
                Ok(()) => {
                    let market = final(self)@.markets[*currency_id];
                    &&& old(self)@.markets.contains_key(*currency_id)
                    &&& call_ensures(change, (old(self)@.markets[*currency_id],), market)
                    &&& final(self)@ == old(self)@.with_market(*currency_id, market)
                },
                Err(e) => {
                    &&& !old(self)@.markets.contains_key(*currency_id)
                    &&& e == Refusal::Loans(Error::MarketDoesNotExist)
                    &&& final(self)@ == old(self)@
                },
            },
    {
        match self.markets.get(currency_id) {
            Some(market) => {
                let changed = change(market);
                self.markets.insert(*currency_id, changed);
                Ok(())
            },
            None => Err(Refusal::Loans(Error::MarketDoesNotExist)),
        }
    }

    /// Activates a market. Returns `Err` if the market currency does not exist.
    ///
    /// If the market is already activated, does nothing.
    ///
    /// - `may_update`: whether the origin may update markets
    /// - `currency_id`: Market related currency
    pub fn active_market(&mut self, may_update: bool, currency_id: CurrencyId) -> (r: Result<
        Option<Event<M>>,
        Refusal,
    >)
        ensures
            match r {
                Ok(event) => {
                    &&& active_market_refusal(old(self)@, may_update, currency_id) is None
                    &&& event == (if old(self)@.is_active(currency_id) {
                        None
                    } else {
                        Some(Event::<M>::ActivatedMarket(currency_id))
                    })
                    &&& final(self)@ == old(self)@.activated(currency_id)
                },
                Err(e) => {
                    &&& active_market_refusal(old(self)@, may_update, currency_id) == Some(e)
                    &&& final(self)@ == old(self)@
                },
            },
    {
        if !may_update {
            return Err(Refusal::BadOrigin);
        }
        let was_active = match self.markets.get(&currency_id) {
            Some(market) => match market.state {
                MarketState::Active => true,
                MarketState::Pending => false,
            },
            None => false,
        };
        let activate = |market: Market<M>| -> (r: Market<M>)
            ensures
                r == (Market { state: MarketState::Active, ..market }),
            { Market { state: MarketState::Active, ..market } };
        match self.mutate_market(&currency_id, activate) {
            Ok(()) => {},
            Err(e) => {
                return Err(e);
            },
        }
        if was_active {
            Ok(None)
        } else {
            Ok(Some(Event::ActivatedMarket(currency_id)))
        }
    }

    /// Stores a new market and its related currency.
    ///
    /// All provided market states must be `Pending`, otherwise an error will be returned.
    ///
    /// If a currency is already attached to a market, then the market will be replaced
    /// by the new provided value.
    ///
    /// - `may_update`: whether the origin may update markets
    /// - `currency_id`: Market related currency
    /// - `market`: The market that is going to be stored
    /// - `model_is_valid`: whether the market's rate model passes its check
    pub fn add_market(
        &mut self,
        may_update: bool,
        currency_id: CurrencyId,
        market: Market<M>,
        model_is_valid: bool,
    ) -> (r: Result<Event<M>, Refusal>)
        ensures
            ({
                let refusal = add_market_refusal(may_update, market, model_is_valid);
                match r {
                    Ok(event) => {
                        &&& refusal is None
                        &&& event == Event::NewMarket(market)
                        &&& final(self)@ == old(self)@.with_stored_market(currency_id, market)
                    },
                    Err(e) => refusal == Some(e) && final(self)@ == old(self)@,
                }
            }),
    {
        if !may_update {
            return Err(Refusal::BadOrigin);
        }
        match market.state {
            MarketState::Pending => {},
            MarketState::Active => {
                return Err(Refusal::Loans(Error::NewMarketMustHavePendingState));
            },
        }
        if !model_is_valid {
            return Err(Refusal::Loans(Error::InvalidRateModelParam));
        }
        self.markets.insert(currency_id, market);
        Ok(Event::NewMarket(market))
    }

    /// Updates a stored market. Returns `Err` if the market currency does not exist.
    ///
    /// Market state won't be modified, regardless of the provided value.
    ///
    /// - `may_update`: whether the origin may update markets
    /// - `currency_id`: Market related currency
    /// - `market`: The new market parameters
    /// - `model_is_valid`: whether the new rate model passes its check
    pub fn update_market(
        &mut self,
        may_update: bool,
        currency_id: CurrencyId,
        market: Market<M>,
        model_is_valid: bool,
    ) -> (r: Result<(), Refusal>)
        ensures
            ({
                let refusal = update_market_refusal(
                    old(self)@,
                    may_update,
                    currency_id,
                    model_is_valid,
                );
                match r {
                    Ok(()) => {
                        &&& refusal is None
                        &&& final(self)@ == old(self)@.updated(currency_id, market)
                    },
                    Err(e) => refusal == Some(e) && final(self)@ == old(self)@,
                }
            }),
    {
        if !may_update {
            return Err(Refusal::BadOrigin);
        }
        if !model_is_valid {
            return Err(Refusal::Loans(Error::InvalidRateModelParam));
        }
        let update = |stored_market: Market<M>| -> (r: Market<M>)
            ensures
                r == (Market { state: stored_market.state, ..market }),
            { Market { state: stored_market.state, ..market } };
        self.mutate_market(&currency_id, update)
    }

    /// What comes before interest is accrued at the end of a block: the first
    /// block has no predecessor, so it is its own.
    ///
    /// - `now`: seconds since the epoch
    pub fn prepare_finalize(&mut self, now: Timestamp)
        ensures
            final(self)@ == old(self)@.prepared(now),
    {
        if self.last_block_timestamp == 0 {
            self.last_block_timestamp = now;
        }
    }

    /// Ends a block. Returns the currencies whose prices are then to be asked
    /// for, so that the oracle aggregates them.
    ///
    /// - `now`: seconds since the epoch
    /// - `accrued`: what accruing interest made of the prepared state. If it
    ///   failed, what it did is undone.
    pub fn on_finalize(&mut self, now: Timestamp, accrued: Result<Pallet<M>, Refusal>) -> (r: Vec<
        CurrencyId,
    >)
        ensures
            final(self)@ == old(self)@.finalized(
                now,
                (match accrued {
                    Ok(pallet) => Ok(pallet@),
                    Err(e) => Err(e),
                }),
            ),
            r@ == final(self)@.active_currencies(),
    {
        self.prepare_finalize(now);
        match accrued {
            Ok(pallet) => {
                *self = pallet;
                self.last_block_timestamp = now;
            },
            Err(_) => {},
        }
        self.active_markets()
    }
}

} // verus!
