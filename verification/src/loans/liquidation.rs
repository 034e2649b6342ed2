//! Liquidation: repaying the debt of an account that falls short, in exchange
//! for its collateral.

use vstd::prelude::*;
use crate::arithmetic::{fixed_div, fixed_mul, part_ceil, FixedU128, PERMILL};
use crate::loans::valuation::{as_result, overflow, price_of, underflow};
use crate::loans::{BorrowSnapshot, Deposits, Error, Event, Market, Pallet, PriceDetail};
use crate::loans::{PriceFeed, State};
use crate::primitives::{ensure_signed, AccountId, ArithmeticError, Balance, CurrencyCall};
use crate::primitives::{CurrencyId, Origin, Refusal};
use crate::storage::Key;

verus! {

impl<M> State<M> {
    /// Why `repay_amount` of a debt of `borrower` may not be liquidated, if so:
    /// the borrower must fall short, and one liquidation repays at most the
    /// close factor of the debt.
    pub open spec fn liquidate_allowed_refusal(
        self,
        feed: Map<CurrencyId, PriceDetail>,
        borrower: AccountId,
        debt_currency: CurrencyId,
        repay_amount: Balance,
        market: Market<M>,
    ) -> Option<Refusal> {
        match self.account_liquidity(feed, borrower) {
            Err(e) => Some(e),
            Ok((_, shortfall)) => if shortfall == 0 {
                Some(Refusal::Loans(Error::InsufficientShortfall))
            } else {
                match self.debt(debt_currency, borrower) {
                    None => Some(overflow()),
                    Some(debt) => if part_ceil(market.close_factor.parts, PERMILL, debt)
                        < repay_amount {
                        Some(Refusal::Loans(Error::TooMuchRepay))
                    } else {
                        None
                    },
                }
            },
        }
    }

    /// What the deposit of `who` in one currency is worth, collateral or not.
    pub open spec fn deposit_value(
        self,
        feed: Map<CurrencyId, PriceDetail>,
        c: CurrencyId,
        who: AccountId,
    ) -> Result<Balance, Refusal> {
        match fixed_mul(self.rate(c).inner, self.deposits(c, who).voucher_balance) {
            None => Err(overflow()),
            Some(amount) => match price_of(feed, c) {
                None => Err(Refusal::Loans(Error::PriceOracleNotReady)),
                Some(price) => match fixed_mul(price, amount) {
                    None => Err(overflow()),
                    Some(value) => Ok(value),
                },
            },
        }
    }

    /// What a liquidator gets for `repay_amount`: its value, and the incentive.
    pub open spec fn liquidate_value(
        self,
        feed: Map<CurrencyId, PriceDetail>,
        c: CurrencyId,
        repay_amount: Balance,
        market: Market<M>,
    ) -> Result<Balance, Refusal> {
        match price_of(feed, c) {
            None => Err(Refusal::Loans(Error::PriceOracleNotReady)),
            Some(price) => match fixed_mul(price, repay_amount) {
                None => Err(Refusal::Loans(Error::LiquidateValueOverflow)),
                Some(value) => match fixed_mul(value, market.liquidate_incentive.inner) {
                    None => Err(Refusal::Loans(Error::LiquidateValueOverflow)),
                    Some(rewarded) => Ok(rewarded),
                },
            },
        }
    }

    /// How much of the collateral's underlying asset a liquidator gets, or why
    /// the liquidation is refused.
    pub open spec fn liquidation(
        self,
        feed: Map<CurrencyId, PriceDetail>,
        liquidator: AccountId,
        borrower: AccountId,
        debt_currency: CurrencyId,
        repay_amount: Balance,
        collateral_currency: CurrencyId,
    ) -> Result<Balance, Refusal> {
        let market = self.markets[debt_currency];
        if !self.is_active(debt_currency) || !self.is_active(collateral_currency) {
            Err(Refusal::Loans(Error::MarketNotActivated))
        } else if borrower == liquidator {
            Err(Refusal::Loans(Error::LiquidatorIsBorrower))
        } else {
            match self.liquidate_allowed_refusal(
                feed,
                borrower,
                debt_currency,
                repay_amount,
                market,
            ) {
                Some(e) => Err(e),
                None => if !self.deposits(collateral_currency, borrower).is_collateral {
                    Err(Refusal::Loans(Error::DepositsAreNotCollateral))
                } else {
                    match self.deposit_value(feed, collateral_currency, borrower) {
                        Err(e) => Err(e),
                        Ok(collateral) => match self.liquidate_value(
                            feed,
                            debt_currency,
                            repay_amount,
                            market,
                        ) {
                            Err(e) => Err(e),
                            Ok(value) => if collateral < value {
                                Err(Refusal::Loans(Error::InsufficientCollateral))
                            } else {
                                match fixed_div(
                                    value,
                                    price_of(feed, collateral_currency).unwrap(),
                                ) {
                                    None => Err(underflow()),
                                    Some(underlying) => Ok(underlying),
                                }
                            },
                        },
                    }
                },
            }
        }
    }

    /// The call by which a liquidator repays.
    pub open spec fn liquidate_call(
        self,
        liquidator: AccountId,
        debt_currency: CurrencyId,
        repay_amount: Balance,
    ) -> CurrencyCall {
        CurrencyCall::Transfer {
            currency_id: debt_currency,
            from: liquidator,
            to: self.account_id(),
            amount: repay_amount,
        }
    }

    /// What is reported of a liquidation.
    pub open spec fn liquidate_event(
        self,
        liquidator: AccountId,
        borrower: AccountId,
        debt_currency: CurrencyId,
        collateral_currency: CurrencyId,
        repay_amount: Balance,
        underlying: Balance,
    ) -> Event<M> {
        Event::LiquidatedBorrow(
            liquidator,
            borrower,
            debt_currency,
            collateral_currency,
            repay_amount,
            underlying,
        )
    }

    /// Why a liquidation that was paid for cannot be booked, if so.
    pub open spec fn settlement_refusal(
        self,
        liquidator: AccountId,
        borrower: AccountId,
        debt_currency: CurrencyId,
        collateral_currency: CurrencyId,
        repay_amount: Balance,
        underlying: Balance,
    ) -> Option<Refusal> {
        match self.debt(debt_currency, borrower) {
            None => Some(overflow()),
            Some(debt) => if debt < repay_amount || self.borrows(debt_currency) < repay_amount {
                Some(underflow())
            } else {
                match fixed_div(underlying, self.rate(collateral_currency).inner) {
                    None => Some(underflow()),
                    Some(vouchers) => if self.deposits(
                        collateral_currency,
                        borrower,
                    ).voucher_balance < vouchers {
                        Some(underflow())
                    } else if self.deposits(collateral_currency, liquidator).voucher_balance
                        + vouchers > u128::MAX {
                        Some(overflow())
                    } else {
                        None
                    },
                }
            },
        }
    }

    /// The state once `vouchers` went from one account to another.
    pub open spec fn vouchers_moved(
        self,
        c: CurrencyId,
        from: AccountId,
        to: AccountId,
        vouchers: Balance,
    ) -> State<M> {
        let giver = self.deposits(c, from);
        let taker = self.deposits(c, to);
        State {
            account_deposits: self.account_deposits.insert(
                (c, from),
                Deposits { voucher_balance: (giver.voucher_balance - vouchers) as u128, ..giver },
            ).insert(
                (c, to),
                Deposits { voucher_balance: (taker.voucher_balance + vouchers) as u128, ..taker },
            ),
            ..self
        }
    }

    /// The state once a liquidation was booked: the borrower owes less, and
    /// internal supplies worth `underlying` went to the liquidator.
    pub open spec fn liquidated(
        self,
        liquidator: AccountId,
        borrower: AccountId,
        debt_currency: CurrencyId,
        collateral_currency: CurrencyId,
        repay_amount: Balance,
        underlying: Balance,
    ) -> State<M> {
        self.with_debt(
            debt_currency,
            borrower,
            self.debt(debt_currency, borrower).unwrap() - repay_amount,
            self.borrows(debt_currency) - repay_amount,
        ).vouchers_moved(
            collateral_currency,
            borrower,
            liquidator,
            fixed_div(underlying, self.rate(collateral_currency).inner).unwrap(),
        )
    }
}

/// Why `liquidate_borrow_internal` refuses, if it does.
pub open spec fn liquidate_refusal<M>(
    s: State<M>,
    feed: Map<CurrencyId, PriceDetail>,
    liquidator: AccountId,
    borrower: AccountId,
    debt_currency: CurrencyId,
    repay_amount: Balance,
    collateral_currency: CurrencyId,
    paid: Result<(), sp_runtime::DispatchError>,
) -> Option<Refusal> {
    match s.liquidation(
        feed,
        liquidator,
        borrower,
        debt_currency,
        repay_amount,
        collateral_currency,
    ) {
        Err(e) => Some(e),
        Ok(underlying) => match paid {
            Err(e) => Some(Refusal::Currency(e)),
            Ok(()) => s.settlement_refusal(
                liquidator,
                borrower,
                debt_currency,
                collateral_currency,
                repay_amount,
                underlying,
            ),
        },
    }
}

impl<M: Copy> Pallet<M> {
    /// Checks if the liquidation should be allowed to occur
    pub fn liquidate_borrow_allowed(
        &self,
        feed: &PriceFeed,
        borrower: &AccountId,
        liquidate_currency_id: CurrencyId,
        repay_amount: Balance,
        market: &Market<M>,
    ) -> (r: Result<(), Refusal>)
        ensures
            r == as_result(
                self@.liquidate_allowed_refusal(
                    feed@,
                    *borrower,
                    liquidate_currency_id,
                    repay_amount,
                    *market,
                ),
            ),
    {
        let (_, shortfall) = match self.get_account_liquidity(feed, borrower) {
            Ok(pair) => pair,
            Err(e) => {
                return Err(e);
            },
        };
        if shortfall.is_zero() {
            return Err(Refusal::Loans(Error::InsufficientShortfall));
        }
        // The liquidator may not repay more than the close factor of the borrower's balance.
        let account_borrows = match self.current_borrow_balance(borrower, &liquidate_currency_id) {
            Ok(balance) => balance,
            Err(e) => {
                return Err(e);
            },
        };
        if market.close_factor.mul_ceil(account_borrows) < repay_amount {
            return Err(Refusal::Loans(Error::TooMuchRepay));
        }
        Ok(())
    }

    /// How much of the collateral's underlying asset a liquidator gets.
    fn liquidation(
        &self,
        feed: &PriceFeed,
        liquidator: &AccountId,
        borrower: &AccountId,
        liquidate_currency_id: CurrencyId,
        repay_amount: Balance,
        collateral_currency_id: CurrencyId,
    ) -> (r: Result<Balance, Refusal>)
        ensures
            r == self@.liquidation(
                feed@,
                *liquidator,
                *borrower,
                liquidate_currency_id,
                repay_amount,
                collateral_currency_id,
            ),
    {
        match self.ensure_currency(&liquidate_currency_id) {
            Ok(()) => {},
            Err(e) => {
                return Err(e);
            },
        }
        match self.ensure_currency(&collateral_currency_id) {
            Ok(()) => {},
            Err(e) => {
                return Err(e);
            },
        }
        let market = match self.market(&liquidate_currency_id) {
            Ok(market) => market,
            Err(e) => {
                return Err(e);
            },
        };
        if borrower.same(liquidator) {
            return Err(Refusal::Loans(Error::LiquidatorIsBorrower));
        }
        match self.liquidate_borrow_allowed(
            feed,
            borrower,
            liquidate_currency_id,
            repay_amount,
            &market,
        ) {
            Ok(()) => {},
            Err(e) => {
                return Err(e);
            },
        }
        let deposits = self.account_deposits(&collateral_currency_id, borrower);
        if !deposits.is_collateral {
            return Err(Refusal::Loans(Error::DepositsAreNotCollateral));
        }
        let exchange_rate = self.exchange_rate(&collateral_currency_id);
        let borrower_deposit_amount = match exchange_rate.checked_mul_int(
            deposits.voucher_balance,
        ) {
            Some(amount) => amount,
            None => {
                return Err(Refusal::Arithmetic(ArithmeticError::Overflow));
            },
        };

        // Calculate the collateral value
        let collateral_token_price = match Self::get_price(feed, &collateral_currency_id) {
            Ok(price) => price,
            Err(e) => {
                return Err(Refusal::Loans(e));
            },
        };
        let collateral_value = match collateral_token_price.checked_mul(
            &FixedU128::from_inner(borrower_deposit_amount),
        ) {
            Some(value) => value,
            None => {
                return Err(Refusal::Arithmetic(ArithmeticError::Overflow));
            },
        };

        // The incentive for liquidator and punishment for the borrower
        let liquidate_token_price = match Self::get_price(feed, &liquidate_currency_id) {
            Ok(price) => price,
            Err(e) => {
                return Err(Refusal::Loans(e));
            },
        };
        let rewarded = match liquidate_token_price.checked_mul(
            &FixedU128::from_inner(repay_amount),
        ) {
            Some(value) => value.checked_mul(&market.liquidate_incentive),
            None => None,
        };
        let liquidate_value = match rewarded {
            Some(value) => value,
            None => {
                return Err(Refusal::Loans(Error::LiquidateValueOverflow));
            },
        };
        if collateral_value.inner < liquidate_value.inner {
            return Err(Refusal::Loans(Error::InsufficientCollateral));
        }

        // Calculate the collateral will get
        //
        // amount: 1 Unit = 10^12 pico
        // price is for 1 pico: 1$ = 1 / 10^12
        // if price is N($) and amount is M(Unit):
        // liquidate_value = price * amount = (N / 10^12) * (M * 10^12) = N * M
        match liquidate_value.checked_div(&collateral_token_price) {
            Some(amount) => Ok(amount.into_inner()),
            None => Err(Refusal::Arithmetic(ArithmeticError::Underflow)),
        }
    }

    /// Books a liquidation that was paid for.
    fn liquidate_repay_borrow_internal(
        &mut self,
        liquidator: &AccountId,
        borrower: &AccountId,
        liquidate_currency_id: &CurrencyId,
        collateral_currency_id: &CurrencyId,
        repay_amount: Balance,
        collateral_underlying_amount: Balance,
    ) -> (r: Result<Event<M>, Refusal>)
        requires
            liquidator != borrower,
        ensures
            ({
                let refusal = old(self)@.settlement_refusal(
                    *liquidator,
                    *borrower,
                    *liquidate_currency_id,
                    *collateral_currency_id,
                    repay_amount,
                    collateral_underlying_amount,
                );
                match r {
                    Ok(event) => {
                        &&& refusal is None
                        &&& event == old(self)@.liquidate_event(
                            *liquidator,
                            *borrower,
                            *liquidate_currency_id,
                            *collateral_currency_id,
                            repay_amount,
                            collateral_underlying_amount,
                        )
                        &&& final(self)@ == old(self)@.liquidated(
                            *liquidator,
                            *borrower,
                            *liquidate_currency_id,
                            *collateral_currency_id,
                            repay_amount,
                            collateral_underlying_amount,
                        )
                    },
                    Err(e) => refusal == Some(e) && final(self)@ == old(self)@,
                }
            }),
    {
        // the system reduce borrower's debt
        let account_borrows = match self.current_borrow_balance(borrower, liquidate_currency_id) {
            Ok(balance) => balance,
            Err(e) => {
                return Err(e);
            },
        };
        let account_borrows_new = match account_borrows.checked_sub(repay_amount) {
            Some(balance) => balance,
            None => {
                return Err(Refusal::Arithmetic(ArithmeticError::Underflow));
            },
        };
        let total_borrows_new = match self.total_borrows(liquidate_currency_id).checked_sub(
            repay_amount,
        ) {
            Some(total) => total,
            None => {
                return Err(Refusal::Arithmetic(ArithmeticError::Underflow));
            },
        };

        // the liquidator will receive voucher token from borrower
        let exchange_rate = self.exchange_rate(collateral_currency_id);
        let collateral_amount = match Self::calc_collateral_amount(
            collateral_underlying_amount,
            exchange_rate,
        ) {
            Ok(amount) => amount,
            Err(e) => {
                return Err(e);
            },
        };
        let mut giver = self.account_deposits(collateral_currency_id, borrower);
        match giver.voucher_balance.checked_sub(collateral_amount) {
            Some(balance) => {
                giver.voucher_balance = balance;
            },
            None => {
                return Err(Refusal::Arithmetic(ArithmeticError::Underflow));
            },
        }
        // increase liquidator's voucher_balance
        let mut taker = self.account_deposits(collateral_currency_id, liquidator);
        match taker.voucher_balance.checked_add(collateral_amount) {
            Some(balance) => {
                taker.voucher_balance = balance;
            },
            None => {
                return Err(Refusal::Arithmetic(ArithmeticError::Overflow));
            },
        }
        let borrow_index = self.borrow_index(liquidate_currency_id);
        self.account_borrows.insert(
            (*liquidate_currency_id, *borrower),
            BorrowSnapshot { principal: account_borrows_new, borrow_index },
        );
        self.total_borrows.insert(*liquidate_currency_id, total_borrows_new);
        self.account_deposits.insert((*collateral_currency_id, *borrower), giver);
        self.account_deposits.insert((*collateral_currency_id, *liquidator), taker);
        Ok(
            Event::LiquidatedBorrow(
                *liquidator,
                *borrower,
                *liquidate_currency_id,
                *collateral_currency_id,
                repay_amount,
                collateral_underlying_amount,
            ),
        )
    }

    /// The call that a liquidation needs the answer to: the liquidator repays
    /// the debt.
    pub fn liquidate_borrow_call(
        &self,
        feed: &PriceFeed,
        origin: Origin,
        borrower: AccountId,
        liquidate_token: CurrencyId,
        repay_amount: Balance,
        collateral_token: CurrencyId,
    ) -> (r: Result<CurrencyCall, Refusal>)
        ensures
            r == (match origin {
                Origin::Signed(who) => match self@.liquidation(
                    feed@,
                    who,
                    borrower,
                    liquidate_token,
                    repay_amount,
                    collateral_token,
                ) {
                    Err(e) => Err(e),
                    Ok(_) => Ok(self@.liquidate_call(who, liquidate_token, repay_amount)),
                },
                _ => Err(Refusal::BadOrigin),
            }),
    {
        let who = match ensure_signed(origin) {
            Ok(who) => who,
            Err(e) => {
                return Err(e);
            },
        };
        match self.liquidation(
            feed,
            &who,
            &borrower,
            liquidate_token,
            repay_amount,
            collateral_token,
        ) {
            Ok(_) => Ok(
                CurrencyCall::Transfer {
                    currency_id: liquidate_token,
                    from: who,
                    to: self.account_id(),
                    amount: repay_amount,
                },
            ),
            Err(e) => Err(e),
        }
    }

    /// Note:
    /// - liquidate_token is borrower's debt asset.
    /// - collateral_token is borrower's collateral asset.
    /// - repay_amount is amount of liquidate_token
    ///
    /// The liquidator will repay a certain amount of liquidate_token from own
    /// account for borrower. Then the protocol will reduce borrower's debt
    /// and liquidator will receive collateral_token(as voucher amount) from
    /// borrower.
    ///
    /// - `paid`: what the currency ledger answered to [`Pallet::liquidate_borrow_call`].
    pub fn liquidate_borrow_internal(
        &mut self,
        feed: &PriceFeed,
        liquidator: AccountId,
        borrower: AccountId,
        liquidate_currency_id: CurrencyId,
        repay_amount: Balance,
        collateral_currency_id: CurrencyId,
        paid: Result<(), sp_runtime::DispatchError>,
    ) -> (r: Result<Event<M>, Refusal>)
        ensures
            ({
                let refusal = liquidate_refusal(
                    old(self)@,
                    feed@,
                    liquidator,
                    borrower,
                    liquidate_currency_id,
                    repay_amount,
                    collateral_currency_id,
                    paid,
                );
                match r {
                    Ok(event) => {
                        let underlying = old(self)@.liquidation(
                            feed@,
                            liquidator,
                            borrower,
                            liquidate_currency_id,
                            repay_amount,
                            collateral_currency_id,
                        ).unwrap();
                        &&& refusal is None
                        &&& event == old(self)@.liquidate_event(
                            liquidator,
                            borrower,
                            liquidate_currency_id,
                            collateral_currency_id,
                            repay_amount,
                            underlying,
                        )
                        &&& final(self)@ == old(self)@.liquidated(
                            liquidator,
                            borrower,
                            liquidate_currency_id,
                            collateral_currency_id,
                            repay_amount,
                            underlying,
                        )
                    },
                    Err(e) => refusal == Some(e) && final(self)@ == old(self)@,
                }
            }),
    {
        let collateral_underlying_amount = match self.liquidation(
            feed,
            &liquidator,
            &borrower,
            liquidate_currency_id,
            repay_amount,
            collateral_currency_id,
        ) {
            Ok(amount) => amount,
            Err(e) => {
                return Err(e);
            },
        };
        match paid {
            Ok(()) => {},
            Err(e) => {
                return Err(Refusal::Currency(e));
            },
        }
        self.liquidate_repay_borrow_internal(
            &liquidator,
            &borrower,
            &liquidate_currency_id,
            &collateral_currency_id,
            repay_amount,
            collateral_underlying_amount,
        )
    }

    /// The sender liquidates the borrower's collateral.
    ///
    /// - `borrower`: the borrower to be liquidated.
    /// - `liquidate_token`: the assert to be liquidated.
    /// - `repay_amount`: the amount to be repaid borrow.
    /// - `collateral_token`: The collateral to seize from the borrower.
    /// - `paid`: what the currency ledger answered to [`Pallet::liquidate_borrow_call`].
    pub fn liquidate_borrow(
        &mut self,
        feed: &PriceFeed,
        origin: Origin,
        borrower: AccountId,
        liquidate_token: CurrencyId,
        repay_amount: Balance,
        collateral_token: CurrencyId,
        paid: Result<(), sp_runtime::DispatchError>,
    ) -> (r: Result<Event<M>, Refusal>)
        ensures
            ({
                let liquidator = origin->Signed_0;
                let refusal = if origin !is Signed {
                    Some(Refusal::BadOrigin)
                } else {
                    liquidate_refusal(
                        old(self)@,
                        feed@,
                        liquidator,
                        borrower,
                        liquidate_token,
                        repay_amount,
                        collateral_token,
                        paid,
                    )
                };
                match r {
                    Ok(event) => {
                        let underlying = old(self)@.liquidation(
                            feed@,
                            liquidator,
                            borrower,
                            liquidate_token,
                            repay_amount,
                            collateral_token,
                        ).unwrap();
                        &&& refusal is None
                        &&& event == old(self)@.liquidate_event(
                            liquidator,
                            borrower,
                            liquidate_token,
                            collateral_token,
                            repay_amount,
                            underlying,
                        )
                        &&& final(self)@ == old(self)@.liquidated(
                            liquidator,
                            borrower,
                            liquidate_token,
                            collateral_token,
                            repay_amount,
                            underlying,
                        )
                    },
                    Err(e) => refusal == Some(e) && final(self)@ == old(self)@,
                }
            }),
    {
        let who = match ensure_signed(origin) {
            Ok(who) => who,
            Err(e) => {
                return Err(e);
            },
        };
        self.liquidate_borrow_internal(
            feed,
            who,
            borrower,
            liquidate_token,
            repay_amount,
            collateral_token,
            paid,
        )
    }
}

} // verus!
