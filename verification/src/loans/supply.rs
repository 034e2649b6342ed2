//! Supplying assets, taking them back, and using them as collateral.

use vstd::prelude::*;
use crate::arithmetic::{bounded, fixed_div, fixed_mul};
use crate::loans::valuation::{overflow, underflow};
use crate::loans::{Deposits, EarnedSnapshot, Error, Event, Pallet, PriceDetail, PriceFeed};
use crate::loans::{Receipt, State};
use crate::primitives::{ensure_signed, AccountId, ArithmeticError, Balance, CurrencyCall};
use crate::primitives::{CurrencyId, Origin, Refusal};

verus! {

/// Why a dispatch on one market is refused before it looks at anything else, if
/// it is: it must be signed, and the market must be active.
pub open spec fn signed_market_refusal<M>(s: State<M>, origin: Origin, c: CurrencyId) -> Option<
    Refusal,
> {
    if origin !is Signed {
        Some(Refusal::BadOrigin)
    } else if !s.is_active(c) {
        Some(Refusal::Loans(Error::MarketNotActivated))
    } else {
        None
    }
}

impl<M> State<M> {
    /// What `who` has earned by now, where it fits: the interest on the deposit
    /// since it last changed, and what was earned before.
    pub open spec fn earned_now(self, c: CurrencyId, who: AccountId) -> Option<EarnedSnapshot> {
        let prior = self.earned(c, who);
        match bounded(self.rate(c).inner - prior.exchange_rate_prior.inner) {
            None => None,
            Some(growth) => match fixed_mul(growth, self.deposits(c, who).voucher_balance) {
                None => None,
                Some(interest) => match bounded(interest + prior.total_earned_prior) {
                    None => None,
                    Some(total) => Some(
                        EarnedSnapshot {
                            exchange_rate_prior: self.rate(c),
                            total_earned_prior: total,
                        },
                    ),
                },
            },
        }
    }

    /// The state with what `who` has earned by now written down.
    pub open spec fn with_earned(self, c: CurrencyId, who: AccountId) -> State<M> {
        State {
            account_earned: self.account_earned.insert((c, who), self.earned_now(c, who).unwrap()),
            ..self
        }
    }

    /// The internal supplies that an amount of the underlying asset is worth, where
    /// they fit.
    pub open spec fn vouchers_for(self, c: CurrencyId, amount: Balance) -> Option<Balance> {
        fixed_div(amount, self.rate(c).inner)
    }

    /// The call that pays for a deposit.
    pub open spec fn mint_call(
        self,
        c: CurrencyId,
        who: AccountId,
        mint_amount: Balance,
    ) -> CurrencyCall {
        CurrencyCall::Transfer {
            currency_id: c,
            from: who,
            to: self.account_id(),
            amount: mint_amount,
        }
    }

    /// What is reported of a deposit.
    pub open spec fn mint_event(
        self,
        c: CurrencyId,
        who: AccountId,
        mint_amount: Balance,
    ) -> Event<M> {
        Event::Deposited(who, c, mint_amount)
    }

    /// Why a deposit of `mint_amount` cannot be booked, if so.
    pub open spec fn mint_refusal(
        self,
        c: CurrencyId,
        who: AccountId,
        mint_amount: Balance,
    ) -> Option<Refusal> {
        if self.earned_now(c, who) is None {
            Some(overflow())
        } else {
            match fixed_div(mint_amount, self.rate(c).inner) {
                None => Some(underflow()),
                Some(vouchers) => if self.deposits(c, who).voucher_balance + vouchers > u128::MAX
                    || self.supply(c) + vouchers > u128::MAX {
                    Some(overflow())
                } else {
                    None
                },
            }
        }
    }

    /// The state once `who` deposited `mint_amount`.
    pub open spec fn minted(self, c: CurrencyId, who: AccountId, mint_amount: Balance) -> State<M> {
        let vouchers = fixed_div(mint_amount, self.rate(c).inner).unwrap();
        let deposits = self.deposits(c, who);
        State {
            account_deposits: self.account_deposits.insert(
                (c, who),
                Deposits {
                    voucher_balance: (deposits.voucher_balance + vouchers) as u128,
                    ..deposits
                },
            ),
            total_supply: self.total_supply.insert(c, (self.supply(c) + vouchers) as u128),
            ..self.with_earned(c, who)
        }
    }

    /// Why `who` cannot redeem internal supplies, if so.
    pub open spec fn redeem_refusal(
        self,
        feed: Map<CurrencyId, PriceDetail>,
        c: CurrencyId,
        who: AccountId,
        voucher_amount: Balance,
    ) -> Option<Refusal> {
        if !self.markets.contains_key(c) {
            Some(Refusal::Loans(Error::MarketDoesNotExist))
        } else {
            match self.redeem_allowed_refusal(feed, c, who, voucher_amount, self.markets[c]) {
                Some(e) => Some(e),
                None => if fixed_mul(self.rate(c).inner, voucher_amount) is None {
                    Some(overflow())
                } else if self.supply(c) < voucher_amount {
                    Some(underflow())
                } else {
                    None
                },
            }
        }
    }

    /// The state once `who` redeemed internal supplies. An empty deposit is
    /// taken out of storage.
    pub open spec fn redeemed(
        self,
        c: CurrencyId,
        who: AccountId,
        voucher_amount: Balance,
    ) -> State<M> {
        let deposits = self.deposits(c, who);
        State {
            account_deposits: if deposits.voucher_balance == voucher_amount {
                self.account_deposits.remove((c, who))
            } else {
                self.account_deposits.insert(
                    (c, who),
                    Deposits {
                        voucher_balance: (deposits.voucher_balance - voucher_amount) as u128,
                        ..deposits
                    },
                )
            },
            total_supply: self.total_supply.insert(c, (self.supply(c) - voucher_amount) as u128),
            ..self
        }
    }

    /// The call that pays for redeemed internal supplies.
    pub open spec fn redeem_call(
        self,
        c: CurrencyId,
        who: AccountId,
        voucher_amount: Balance,
    ) -> CurrencyCall {
        CurrencyCall::Transfer {
            currency_id: c,
            from: self.account_id(),
            to: who,
            amount: fixed_mul(self.rate(c).inner, voucher_amount).unwrap(),
        }
    }

    /// What redeeming internal supplies asks of the ledger, and what is reported
    /// of it.
    pub open spec fn redeem_receipt(
        self,
        c: CurrencyId,
        who: AccountId,
        voucher_amount: Balance,
    ) -> Receipt<M> {
        Receipt {
            call: self.redeem_call(c, who, voucher_amount),
            event: Event::Redeemed(
                who,
                c,
                fixed_mul(self.rate(c).inner, voucher_amount).unwrap(),
            ),
        }
    }

    /// The state with the deposit of `who` serving as collateral, or not.
    pub open spec fn with_collateral(self, c: CurrencyId, who: AccountId, enable: bool) -> State<
        M,
    > {
        State {
            account_deposits: self.account_deposits.insert(
                (c, who),
                Deposits { is_collateral: enable, ..self.deposits(c, who) },
            ),
            ..self
        }
    }

    /// Why the deposit of `who` must go on serving as collateral, if so.
    pub open spec fn disable_refusal(
        self,
        feed: Map<CurrencyId, PriceDetail>,
        c: CurrencyId,
        who: AccountId,
    ) -> Option<Refusal> {
        match self.total_collateral(feed, who) {
            Err(e) => Some(e),
            Ok(collateral) => match self.collateral_value(feed, c, who, self.markets[c]) {
                Err(e) => Some(e),
                Ok(value) => match self.borrowed_value(feed, who) {
                    Err(e) => Some(e),
                    Ok(borrowed) => if borrowed + value > u128::MAX {
                        Some(overflow())
                    } else if collateral < borrowed + value {
                        Some(Refusal::Loans(Error::InsufficientLiquidity))
                    } else {
                        None
                    },
                },
            },
        }
    }
}

/// Why `mint` refuses, if it does.
pub open spec fn mint_dispatch_refusal<M>(
    s: State<M>,
    origin: Origin,
    c: CurrencyId,
    mint_amount: Balance,
    paid: Result<(), sp_runtime::DispatchError>,
) -> Option<Refusal> {
    match (signed_market_refusal(s, origin, c), paid) {
        (Some(e), _) => Some(e),
        (None, Err(e)) => Some(Refusal::Currency(e)),
        (None, Ok(())) => s.mint_refusal(c, origin->Signed_0, mint_amount),
    }
}

/// Why `redeem` refuses, if it does.
pub open spec fn redeem_dispatch_refusal<M>(
    s: State<M>,
    feed: Map<CurrencyId, PriceDetail>,
    origin: Origin,
    c: CurrencyId,
    redeem_amount: Balance,
) -> Option<Refusal> {
    let who = origin->Signed_0;
    match signed_market_refusal(s, origin, c) {
        Some(e) => Some(e),
        None => match fixed_div(redeem_amount, s.rate(c).inner) {
            None => Some(underflow()),
            Some(vouchers) => if s.earned_now(c, who) is None {
                Some(overflow())
            } else {
                s.redeem_refusal(feed, c, who, vouchers)
            },
        },
    }
}

/// Why `redeem_all` refuses, if it does.
pub open spec fn redeem_all_dispatch_refusal<M>(
    s: State<M>,
    feed: Map<CurrencyId, PriceDetail>,
    origin: Origin,
    c: CurrencyId,
) -> Option<Refusal> {
    let who = origin->Signed_0;
    match signed_market_refusal(s, origin, c) {
        Some(e) => Some(e),
        None => if s.earned_now(c, who) is None {
            Some(overflow())
        } else {
            s.redeem_refusal(feed, c, who, s.deposits(c, who).voucher_balance)
        },
    }
}

/// Why `collateral_asset` refuses, if it does.
pub open spec fn collateral_asset_refusal<M>(
    s: State<M>,
    feed: Map<CurrencyId, PriceDetail>,
    origin: Origin,
    c: CurrencyId,
    enable: bool,
) -> Option<Refusal> {
    let who = origin->Signed_0;
    match signed_market_refusal(s, origin, c) {
        Some(e) => Some(e),
        None => if !s.account_deposits.contains_key((c, who)) {
            Some(Refusal::Loans(Error::NoDeposit))
        } else if s.deposits(c, who).is_collateral == enable {
            Some(Refusal::Loans(Error::DuplicateOperation))
        } else if enable {
            None
        } else {
            s.disable_refusal(feed, c, who)
        },
    }
}

impl<M: Copy> Pallet<M> {
    /// The signer of a dispatch on an active market.
    pub(crate) fn ensure_signed_market(&self, origin: Origin, currency_id: &CurrencyId) -> (r:
        Result<AccountId, Refusal>)
        ensures
            r == (match signed_market_refusal(self@, origin, *currency_id) {
                Some(e) => Err(e),
                None => Ok(origin->Signed_0),
            }),
    {
        let who = match ensure_signed(origin) {
            Ok(who) => who,
            Err(e) => {
                return Err(e);
            },
        };
        match self.ensure_currency(currency_id) {
            Ok(()) => Ok(who),
            Err(e) => Err(e),
        }
    }

    /// What `who` has earned by now.
    fn earned_now(&self, who: &AccountId, currency_id: &CurrencyId) -> (r: Result<
        EarnedSnapshot,
        Refusal,
    >)
        ensures
            r == (match self@.earned_now(*currency_id, *who) {
                Some(earned) => Ok(earned),
                None => Err(overflow()),
            }),
    {
        let deposits = self.account_deposits(currency_id, who);
        let exchange_rate = self.exchange_rate(currency_id);
        let account_earned = self.account_earned(currency_id, who);
        let interest = match exchange_rate.checked_sub(&account_earned.exchange_rate_prior) {
            Some(growth) => growth.checked_mul_int(deposits.voucher_balance),
            None => None,
        };
        let total = match interest {
            Some(interest) => interest.checked_add(account_earned.total_earned_prior),
            None => None,
        };
        match total {
            Some(total) => Ok(
                EarnedSnapshot { exchange_rate_prior: exchange_rate, total_earned_prior: total },
            ),
            None => Err(Refusal::Arithmetic(ArithmeticError::Overflow)),
        }
    }

    /// Writes down what `who` has earned by now.
    pub fn update_earned_stored(&mut self, who: &AccountId, currency_id: &CurrencyId) -> (r: Result<
        (),
        Refusal,
    >)
        ensures
            match r {
                Ok(()) => {
                    &&& old(self)@.earned_now(*currency_id, *who) is Some
                    &&& final(self)@ == old(self)@.with_earned(*currency_id, *who)
                },
                Err(e) => {
                    &&& old(self)@.earned_now(*currency_id, *who) is None
                    &&& e == overflow()
                    &&& final(self)@ == old(self)@
                },
            },
    {
        match self.earned_now(who, currency_id) {
            Ok(earned) => {
                self.account_earned.insert((*currency_id, *who), earned);
                Ok(())
            },
            Err(e) => Err(e),
        }
    }

    /// The call that `mint` needs the answer to: the sender pays for the deposit.
    pub fn mint_call(&self, origin: Origin, currency_id: CurrencyId, mint_amount: Balance) -> (r:
        Result<CurrencyCall, Refusal>)
        ensures
            r == (match signed_market_refusal(self@, origin, currency_id) {
                Some(e) => Err(e),
                None => Ok(self@.mint_call(currency_id, origin->Signed_0, mint_amount)),
            }),
    {
        match self.ensure_signed_market(origin, &currency_id) {
            Ok(who) => Ok(
                CurrencyCall::Transfer {
                    currency_id,
                    from: who,
                    to: self.account_id(),
                    amount: mint_amount,
                },
            ),
            Err(e) => Err(e),
        }
    }

    /// Sender supplies assets into the market and receives internal supplies in exchange.
    ///
    /// - `currency_id`: the asset to be deposited.
    /// - `mint_amount`: the amount to be deposited.
    /// - `paid`: what the currency ledger answered to [`Pallet::mint_call`].
    pub fn mint(
        &mut self,
        origin: Origin,
        currency_id: CurrencyId,
        mint_amount: Balance,
        paid: Result<(), sp_runtime::DispatchError>,
    ) -> (r: Result<Event<M>, Refusal>)
        ensures
            ({
                let refusal = mint_dispatch_refusal(
                    old(self)@,
                    origin,
                    currency_id,
                    mint_amount,
                    paid,
                );
                match r {
                    Ok(event) => {
                        let who = origin->Signed_0;
                        &&& refusal is None
                        &&& event == old(self)@.mint_event(currency_id, who, mint_amount)
                        &&& final(self)@ == old(self)@.minted(currency_id, who, mint_amount)
                    },
                    Err(e) => refusal == Some(e) && final(self)@ == old(self)@,
                }
            }),
    {
        let who = match self.ensure_signed_market(origin, &currency_id) {
            Ok(who) => who,
            Err(e) => {
                return Err(e);
            },
        };
        match paid {
            Ok(()) => {},
            Err(e) => {
                return Err(Refusal::Currency(e));
            },
        }
        let earned = match self.earned_now(&who, &currency_id) {
            Ok(earned) => earned,
            Err(e) => {
                return Err(e);
            },
        };
        let exchange_rate = self.exchange_rate(&currency_id);
        let voucher_amount = match Self::calc_collateral_amount(mint_amount, exchange_rate) {
            Ok(amount) => amount,
            Err(e) => {
                return Err(e);
            },
        };
        let mut deposits = self.account_deposits(&currency_id, &who);
        match deposits.voucher_balance.checked_add(voucher_amount) {
            Some(balance) => {
                deposits.voucher_balance = balance;
            },
            None => {
                return Err(Refusal::Arithmetic(ArithmeticError::Overflow));
            },
        }
        let new_supply = match self.total_supply(&currency_id).checked_add(voucher_amount) {
            Some(supply) => supply,
            None => {
                return Err(Refusal::Arithmetic(ArithmeticError::Overflow));
            },
        };
        self.account_earned.insert((currency_id, who), earned);
        self.account_deposits.insert((currency_id, who), deposits);
        self.total_supply.insert(currency_id, new_supply);
        Ok(Event::Deposited(who, currency_id, mint_amount))
    }

    /// Takes internal supplies from `who`. Returns what they are worth, and the
    /// call that pays for them.
    pub fn redeem_internal(
        &mut self,
        feed: &PriceFeed,
        who: &AccountId,
        currency_id: &CurrencyId,
        voucher_amount: Balance,
    ) -> (r: Result<(Balance, CurrencyCall), Refusal>)
        ensures
            ({
                let refusal = old(self)@.redeem_refusal(feed@, *currency_id, *who, voucher_amount);
                match r {
                    Ok((redeem_amount, call)) => {
                        &&& refusal is None
                        &&& Some(redeem_amount) == fixed_mul(
                            old(self)@.rate(*currency_id).inner,
                            voucher_amount,
                        )
                        &&& call == old(self)@.redeem_call(*currency_id, *who, voucher_amount)
                        &&& final(self)@ == old(self)@.redeemed(*currency_id, *who, voucher_amount)
                    },
                    Err(e) => refusal == Some(e) && final(self)@ == old(self)@,
                }
            }),
    {
        let market = match self.market(currency_id) {
            Ok(market) => market,
            Err(e) => {
                return Err(e);
            },
        };
        match self.redeem_allowed(feed, currency_id, who, voucher_amount, &market) {
            Ok(()) => {},
            Err(e) => {
                return Err(e);
            },
        }
        let exchange_rate = self.exchange_rate(currency_id);
        let redeem_amount = match Self::calc_underlying_amount(voucher_amount, exchange_rate) {
            Ok(amount) => amount,
            Err(e) => {
                return Err(e);
            },
        };
        let mut d = self.account_deposits(currency_id, who);
        match d.voucher_balance.checked_sub(voucher_amount) {
            Some(balance) => {
                d.voucher_balance = balance;
            },
            None => {
                return Err(Refusal::Arithmetic(ArithmeticError::Underflow));
            },
        }
        let new_supply = match self.total_supply(currency_id).checked_sub(voucher_amount) {
            Some(supply) => supply,
            None => {
                return Err(Refusal::Arithmetic(ArithmeticError::Underflow));
            },
        };
        let call = CurrencyCall::Transfer {
            currency_id: *currency_id,
            from: self.account_id(),
            to: *who,
            amount: redeem_amount,
        };
        if d.voucher_balance == 0 {
            // remove deposits storage if zero balance
            self.account_deposits.remove(&(*currency_id, *who));
        } else {
            self.account_deposits.insert((*currency_id, *who), d);
        }
        self.total_supply.insert(*currency_id, new_supply);
        Ok((redeem_amount, call))
    }

    /// Sender redeems some of internal supplies in exchange for the underlying asset.
    ///
    /// - `currency_id`: the asset to be redeemed.
    /// - `redeem_amount`: the amount to be redeemed.
    pub fn redeem(
        &mut self,
        feed: &PriceFeed,
        origin: Origin,
        currency_id: CurrencyId,
        redeem_amount: Balance,
    ) -> (r: Result<Receipt<M>, Refusal>)
        ensures
            ({
                let refusal = redeem_dispatch_refusal(
                    old(self)@,
                    feed@,
                    origin,
                    currency_id,
                    redeem_amount,
                );
                match r {
                    Ok(receipt) => {
                        let who = origin->Signed_0;
                        let vouchers = old(self)@.vouchers_for(currency_id, redeem_amount).unwrap();
                        &&& refusal is None
                        &&& receipt == old(self)@.redeem_receipt(currency_id, who, vouchers)
                        &&& final(self)@ == old(self)@.with_earned(currency_id, who).redeemed(
                            currency_id,
                            who,
                            vouchers,
                        )
                    },
                    Err(e) => refusal == Some(e) && final(self)@ == old(self)@,
                }
            }),
    {
        let who = match self.ensure_signed_market(origin, &currency_id) {
            Ok(who) => who,
            Err(e) => {
                return Err(e);
            },
        };
        let exchange_rate = self.exchange_rate(&currency_id);
        let voucher_amount = match Self::calc_collateral_amount(redeem_amount, exchange_rate) {
            Ok(amount) => amount,
            Err(e) => {
                return Err(e);
            },
        };
        let earned = match self.earned_now(&who, &currency_id) {
            Ok(earned) => earned,
            Err(e) => {
                return Err(e);
            },
        };
        match self.redeem_internal(feed, &who, &currency_id, voucher_amount) {
            Ok((redeem_amount, call)) => {
                self.account_earned.insert((currency_id, who), earned);
                Ok(Receipt { call, event: Event::Redeemed(who, currency_id, redeem_amount) })
            },
            Err(e) => Err(e),
        }
    }

    /// Sender redeems all of internal supplies in exchange for the underlying asset.
    ///
    /// - `currency_id`: the asset to be redeemed.
    pub fn redeem_all(&mut self, feed: &PriceFeed, origin: Origin, currency_id: CurrencyId) -> (r:
        Result<Receipt<M>, Refusal>)
        ensures
            ({
                let refusal = redeem_all_dispatch_refusal(
                    old(self)@,
                    feed@,
                    origin,
                    currency_id,
                );
                match r {
                    Ok(receipt) => {
                        let who = origin->Signed_0;
                        let vouchers = old(self)@.deposits(currency_id, who).voucher_balance;
                        &&& refusal is None
                        &&& receipt == old(self)@.redeem_receipt(currency_id, who, vouchers)
                        &&& final(self)@ == old(self)@.with_earned(currency_id, who).redeemed(
                            currency_id,
                            who,
                            vouchers,
                        )
                    },
                    Err(e) => refusal == Some(e) && final(self)@ == old(self)@,
                }
            }),
    {
        let who = match self.ensure_signed_market(origin, &currency_id) {
            Ok(who) => who,
            Err(e) => {
                return Err(e);
            },
        };
        let earned = match self.earned_now(&who, &currency_id) {
            Ok(earned) => earned,
            Err(e) => {
                return Err(e);
            },
        };
        let deposits = self.account_deposits(&currency_id, &who);
        match self.redeem_internal(feed, &who, &currency_id, deposits.voucher_balance) {
            Ok((redeem_amount, call)) => {
                self.account_earned.insert((currency_id, who), earned);
                Ok(Receipt { call, event: Event::Redeemed(who, currency_id, redeem_amount) })
            },
            Err(e) => Err(e),
        }
    }

    /// Set the collateral asset.
    ///
    /// - `currency_id`: the asset to be set.
    /// - `enable`: turn on/off the collateral option.
    pub fn collateral_asset(
        &mut self,
        feed: &PriceFeed,
        origin: Origin,
        currency_id: CurrencyId,
        enable: bool,
    ) -> (r: Result<Event<M>, Refusal>)
        ensures
            ({
                let refusal = collateral_asset_refusal(
                    old(self)@,
                    feed@,
                    origin,
                    currency_id,
                    enable,
                );
                match r {
                    Ok(event) => {
                        let who = origin->Signed_0;
                        &&& refusal is None
                        &&& event == (if enable {
                            Event::<M>::CollateralAssetAdded(who, currency_id)
                        } else {
                            Event::<M>::CollateralAssetRemoved(who, currency_id)
                        })
                        &&& final(self)@ == old(self)@.with_collateral(currency_id, who, enable)
                    },
                    Err(e) => refusal == Some(e) && final(self)@ == old(self)@,
                }
            }),
    {
        let who = match self.ensure_signed_market(origin, &currency_id) {
            Ok(who) => who,
            Err(e) => {
                return Err(e);
            },
        };
        if !self.account_deposits.contains_key(&(currency_id, who)) {
            return Err(Refusal::Loans(Error::NoDeposit));
        }
        let mut deposits = self.account_deposits(&currency_id, &who);
        if deposits.is_collateral == enable {
            return Err(Refusal::Loans(Error::DuplicateOperation));
        }
        // turn on the collateral button
        if enable {
            deposits.is_collateral = true;
            self.account_deposits.insert((currency_id, who), deposits);
            return Ok(Event::CollateralAssetAdded(who, currency_id));
        }
        // turn off the collateral button after checking the liquidity
        let total_collateral_value = match self.total_collateral_value(feed, &who) {
            Ok(value) => value,
            Err(e) => {
                return Err(e);
            },
        };
        let market = match self.market(&currency_id) {
            Ok(market) => market,
            Err(e) => {
                return Err(e);
            },
        };
        let collateral_asset_value = match self.collateral_asset_value(
            feed,
            &who,
            &currency_id,
            &market,
        ) {
            Ok(value) => value,
            Err(e) => {
                return Err(e);
            },
        };
        let total_borrowed_value = match self.total_borrowed_value(feed, &who) {
            Ok(value) => value,
            Err(e) => {
                return Err(e);
            },
        };
        let needed = match total_borrowed_value.checked_add(&collateral_asset_value) {
            Some(needed) => needed,
            None => {
                return Err(Refusal::Arithmetic(ArithmeticError::Overflow));
            },
        };
        if total_collateral_value.inner < needed.inner {
            return Err(Refusal::Loans(Error::InsufficientLiquidity));
        }
        deposits.is_collateral = false;
        self.account_deposits.insert((currency_id, who), deposits);
        Ok(Event::CollateralAssetRemoved(who, currency_id))
    }
}

} // verus!
