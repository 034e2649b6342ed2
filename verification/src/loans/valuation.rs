//! What debts and deposits are worth, and what an account may do with them.

use vstd::prelude::*;
use crate::arithmetic::{bounded, fixed_div, fixed_mul, part_ceil, part_floor, FixedU128, PERMILL};
use crate::loans::{BorrowSnapshot, Error, Market, Pallet, PriceDetail, PriceFeed, State};
use crate::primitives::{AccountId, ArithmeticError, Balance, CurrencyId, Liquidity, Price};
use crate::primitives::{Rate, Refusal, Shortfall};

verus! {

/// The refusal of a result that is too large.
pub open spec fn overflow() -> Refusal {
    Refusal::Arithmetic(ArithmeticError::Overflow)
}

/// The refusal of a result that is too small.
pub open spec fn underflow() -> Refusal {
    Refusal::Arithmetic(ArithmeticError::Underflow)
}

/// The price of a currency, where the oracle has one that is not nought.
pub open spec fn price_of(feed: Map<CurrencyId, PriceDetail>, c: CurrencyId) -> Option<Balance> {
    if feed.contains_key(c) && feed[c].price.inner != 0 {
        Some(feed[c].price.inner)
    } else {
        None
    }
}

/// What internal supplies are worth in the underlying asset, where it fits.
pub open spec fn underlying_of(voucher_amount: Balance, exchange_rate: Rate) -> Option<Balance> {
    fixed_mul(exchange_rate.inner, voucher_amount)
}

/// What an amount of the underlying asset is worth in internal supplies, where it
/// fits.
pub open spec fn vouchers_of(underlying_amount: Balance, exchange_rate: Rate) -> Option<Balance> {
    fixed_div(underlying_amount, exchange_rate.inner)
}

impl<M> State<M> {
    /// What a debt has become since `snapshot` was taken, where it fits:
    /// the principal times the growth of the accumulated interest rate.
    pub open spec fn debt_since(self, c: CurrencyId, snapshot: BorrowSnapshot) -> Option<Balance> {
        if snapshot.principal == 0 || snapshot.borrow_index.inner == 0 {
            Some(0)
        } else {
            match fixed_div(self.index(c).inner, snapshot.borrow_index.inner) {
                Some(growth) => fixed_mul(growth, snapshot.principal),
                None => None,
            }
        }
    }

    /// What `who` owes.
    pub open spec fn debt(self, c: CurrencyId, who: AccountId) -> Option<Balance> {
        self.debt_since(c, self.snapshot(c, who))
    }

    /// What the debt of `who` in one currency is worth.
    pub open spec fn debt_value(
        self,
        feed: Map<CurrencyId, PriceDetail>,
        c: CurrencyId,
        who: AccountId,
    ) -> Result<Balance, Refusal> {
        match self.debt(c, who) {
            None => Err(overflow()),
            Some(amount) => if amount == 0 {
                Ok(0)
            } else {
                match price_of(feed, c) {
                    None => Err(Refusal::Loans(Error::PriceOracleNotReady)),
                    Some(price) => match fixed_mul(price, amount) {
                        None => Err(overflow()),
                        Some(value) => Ok(value),
                    },
                }
            },
        }
    }

    /// What the deposit of `who` in one currency is worth as collateral, at the
    /// collateral factor of `market`.
    pub open spec fn collateral_value(
        self,
        feed: Map<CurrencyId, PriceDetail>,
        c: CurrencyId,
        who: AccountId,
        market: Market<M>,
    ) -> Result<Balance, Refusal> {
        let deposits = self.deposits(c, who);
        if !deposits.is_collateral || deposits.voucher_balance == 0 {
            Ok(0)
        } else {
            let counted = part_floor(
                market.collateral_factor.parts,
                PERMILL,
                deposits.voucher_balance,
            );
            match price_of(feed, c) {
                None => Err(Refusal::Loans(Error::PriceOracleNotReady)),
                Some(price) => match fixed_mul(self.rate(c).inner, counted as u128) {
                    None => Err(overflow()),
                    Some(amount) => match fixed_mul(price, amount) {
                        None => Err(overflow()),
                        Some(value) => Ok(value),
                    },
                },
            }
        }
    }

    /// What the debts of `who` in some currencies are worth together.
    pub open spec fn debts_value(
        self,
        feed: Map<CurrencyId, PriceDetail>,
        who: AccountId,
        currencies: Seq<CurrencyId>,
    ) -> Result<Balance, Refusal>
        decreases currencies.len(),
    {
        if currencies.len() == 0 {
            Ok(0)
        } else {
            match self.debts_value(feed, who, currencies.drop_last()) {
                Err(e) => Err(e),
                Ok(total) => match self.debt_value(feed, currencies.last(), who) {
                    Err(e) => Err(e),
                    Ok(value) => match bounded(total + value) {
                        None => Err(overflow()),
                        Some(sum) => Ok(sum),
                    },
                },
            }
        }
    }

    /// What the deposits of `who` in some currencies are worth together as collateral.
    pub open spec fn collaterals_value(
        self,
        feed: Map<CurrencyId, PriceDetail>,
        who: AccountId,
        currencies: Seq<CurrencyId>,
    ) -> Result<Balance, Refusal>
        decreases currencies.len(),
    {
        if currencies.len() == 0 {
            Ok(0)
        } else {
            let c = currencies.last();
            match self.collaterals_value(feed, who, currencies.drop_last()) {
                Err(e) => Err(e),
                Ok(total) => match self.collateral_value(feed, c, who, self.markets[c]) {
                    Err(e) => Err(e),
                    Ok(value) => match bounded(total + value) {
                        None => Err(overflow()),
                        Some(sum) => Ok(sum),
                    },
                },
            }
        }
    }

    /// What all the debts of `who` are worth.
    pub open spec fn borrowed_value(
        self,
        feed: Map<CurrencyId, PriceDetail>,
        who: AccountId,
    ) -> Result<Balance, Refusal> {
        self.debts_value(feed, who, self.active_currencies())
    }

    /// What all the collateral of `who` is worth.
    pub open spec fn total_collateral(
        self,
        feed: Map<CurrencyId, PriceDetail>,
        who: AccountId,
    ) -> Result<Balance, Refusal> {
        self.collaterals_value(feed, who, self.active_currencies())
    }

    /// By how much the collateral of `who` exceeds the debts, and the debts the collateral.
    pub open spec fn account_liquidity(
        self,
        feed: Map<CurrencyId, PriceDetail>,
        who: AccountId,
    ) -> Result<(Balance, Balance), Refusal> {
        match self.borrowed_value(feed, who) {
            Err(e) => Err(e),
            Ok(borrowed) => match self.total_collateral(feed, who) {
                Err(e) => Err(e),
                Ok(collateral) => if collateral > borrowed {
                    Ok(((collateral - borrowed) as u128, 0))
                } else {
                    Ok((0, (borrowed - collateral) as u128))
                },
            },
        }
    }

    /// Why `who` may not take on a debt or give up collateral that is worth
    /// `value`, if so.
    pub open spec fn liquidity_refusal(
        self,
        feed: Map<CurrencyId, PriceDetail>,
        who: AccountId,
        value: Balance,
    ) -> Option<Refusal> {
        match self.account_liquidity(feed, who) {
            Err(e) => Some(e),
            Ok((liquidity, _)) => if liquidity < value {
                Some(Refusal::Loans(Error::InsufficientLiquidity))
            } else {
                None
            },
        }
    }

    /// Why `who` may not borrow, if so.
    pub open spec fn borrow_allowed_refusal(
        self,
        feed: Map<CurrencyId, PriceDetail>,
        c: CurrencyId,
        who: AccountId,
        borrow_amount: Balance,
    ) -> Option<Refusal> {
        match price_of(feed, c) {
            None => Some(Refusal::Loans(Error::PriceOracleNotReady)),
            Some(price) => match fixed_mul(price, borrow_amount) {
                None => Some(overflow()),
                Some(value) => self.liquidity_refusal(feed, who, value),
            },
        }
    }

    /// Why `who` may not redeem, if so.
    pub open spec fn redeem_allowed_refusal(
        self,
        feed: Map<CurrencyId, PriceDetail>,
        c: CurrencyId,
        who: AccountId,
        voucher_amount: Balance,
        market: Market<M>,
    ) -> Option<Refusal> {
        let deposits = self.deposits(c, who);
        if deposits.voucher_balance < voucher_amount {
            Some(Refusal::Loans(Error::InsufficientDeposit))
        } else if !deposits.is_collateral {
            None
        } else {
            match price_of(feed, c) {
                None => Some(Refusal::Loans(Error::PriceOracleNotReady)),
                Some(price) => match fixed_mul(self.rate(c).inner, voucher_amount) {
                    None => Some(overflow()),
                    Some(amount) => match fixed_mul(
                        price,
                        part_ceil(market.collateral_factor.parts, PERMILL, amount) as u128,
                    ) {
                        None => Some(overflow()),
                        Some(value) => self.liquidity_refusal(feed, who, value),
                    },
                },
            }
        }
    }
}

/// `r` as a fixed point number.
pub open spec fn as_fixed(r: Result<Balance, Refusal>) -> Result<FixedU128, Refusal> {
    match r {
        Ok(inner) => Ok(FixedU128 { inner }),
        Err(e) => Err(e),
    }
}

/// A check as it is returned.
pub open spec fn as_result(refusal: Option<Refusal>) -> Result<(), Refusal> {
    match refusal {
        Some(e) => Err(e),
        None => Ok(()),
    }
}

/// A list without its last part, one longer.
proof fn lemma_take_next<A>(s: Seq<A>, i: int)
    requires
        0 <= i < s.len(),
    ensures
        s.take(i + 1).drop_last() == s.take(i),
        s.take(i + 1).last() == s[i],
{
    assert(s.take(i + 1).drop_last() =~= s.take(i));
}

impl<M: Copy> Pallet<M> {
    /// The price of a currency. Refuses where the oracle has none, or nought.
    pub fn get_price(feed: &PriceFeed, currency_id: &CurrencyId) -> (r: Result<Price, Error>)
        ensures
            r == (match price_of(feed@, *currency_id) {
                Some(inner) => Ok(FixedU128 { inner }),
                None => Err(Error::PriceOracleNotReady),
            }),
    {
        match feed.get(currency_id) {
            None => Err(Error::PriceOracleNotReady),
            Some(detail) => {
                if detail.price.is_zero() {
                    return Err(Error::PriceOracleNotReady);
                }
                Ok(detail.price)
            },
        }
    }

    /// What internal supplies are worth in the underlying asset.
    pub fn calc_underlying_amount(voucher_amount: Balance, exchange_rate: Rate) -> (r: Result<
        Balance,
        Refusal,
    >)
        ensures
            r == (match underlying_of(voucher_amount, exchange_rate) {
                Some(amount) => Ok(amount),
                None => Err(overflow()),
            }),
    {
        match exchange_rate.checked_mul_int(voucher_amount) {
            Some(amount) => Ok(amount),
            None => Err(Refusal::Arithmetic(ArithmeticError::Overflow)),
        }
    }

    /// What an amount of the underlying asset is worth in internal supplies.
    pub fn calc_collateral_amount(underlying_amount: Balance, exchange_rate: Rate) -> (r: Result<
        Balance,
        Refusal,
    >)
        ensures
            r == (match vouchers_of(underlying_amount, exchange_rate) {
                Some(amount) => Ok(amount),
                None => Err(underflow()),
            }),
    {
        match FixedU128::from_inner(underlying_amount).checked_div(&exchange_rate) {
            Some(amount) => Ok(amount.into_inner()),
            None => Err(Refusal::Arithmetic(ArithmeticError::Underflow)),
        }
    }

    /// Calculates and returns the most recent amount of borrowed balance of
    /// `currency_id` for `who`.
    pub fn current_borrow_balance(&self, who: &AccountId, currency_id: &CurrencyId) -> (r: Result<
        Balance,
        Refusal,
    >)
        ensures
            r == (match self@.debt(*currency_id, *who) {
                Some(amount) => Ok(amount),
                None => Err(overflow()),
            }),
    {
        let snapshot = self.account_borrows(currency_id, who);
        self.current_balance_from_snapshot(currency_id, snapshot)
    }

    /// Same as `current_borrow_balance` but takes a given `snapshot` instead of
    /// fetching the storage
    pub fn current_balance_from_snapshot(
        &self,
        currency_id: &CurrencyId,
        snapshot: BorrowSnapshot,
    ) -> (r: Result<Balance, Refusal>)
        ensures
            r == (match self@.debt_since(*currency_id, snapshot) {
                Some(amount) => Ok(amount),
                None => Err(overflow()),
            }),
    {
        if snapshot.principal == 0 || snapshot.borrow_index.is_zero() {
            return Ok(0);
        }
        // recent_borrow_balance = snapshot.principal * borrow_index / snapshot.borrow_index
        let growth = self.borrow_index(currency_id).checked_div(&snapshot.borrow_index);
        let balance = match growth {
            Some(growth) => growth.checked_mul_int(snapshot.principal),
            None => None,
        };
        match balance {
            Some(balance) => Ok(balance),
            None => Err(Refusal::Arithmetic(ArithmeticError::Overflow)),
        }
    }

    /// What all the debts of `borrower` are worth.
    pub fn total_borrowed_value(&self, feed: &PriceFeed, borrower: &AccountId) -> (r: Result<
        FixedU128,
        Refusal,
    >)
        ensures
            r == as_fixed(self@.borrowed_value(feed@, *borrower)),
    {
        let currencies = self.active_markets();
        let ghost all = currencies@;
        let mut total_borrow_value = FixedU128::zero();
        let mut i: usize = 0;
        proof { assert(all.take(0) =~= Seq::<CurrencyId>::empty()); }
        while i < currencies.len()
            invariant
                i <= all.len(),
                currencies@ == all,
                all == self@.active_currencies(),
                self@.debts_value(feed@, *borrower, all.take(i as int)) == Ok::<Balance, Refusal>(
                    total_borrow_value.inner,
                ),
            decreases all.len() - i,
        {
            proof {
                lemma_take_next(all, i as int);
                lemma_first_error(self@, feed@, *borrower, all, i + 1);
            }
            let currency_id = currencies[i];
            let currency_borrow_amount = match self.current_borrow_balance(borrower, &currency_id) {
                Ok(amount) => amount,
                Err(e) => {
                    return Err(e);
                },
            };
            if currency_borrow_amount == 0 {
                i += 1;
                continue;
            }
            let borrow_currency_price = match Self::get_price(feed, &currency_id) {
                Ok(price) => price,
                Err(e) => {
                    return Err(Refusal::Loans(e));
                },
            };
            let sum = match borrow_currency_price.checked_mul(
                &FixedU128::from_inner(currency_borrow_amount),
            ) {
                Some(value) => value.checked_add(&total_borrow_value),
                None => None,
            };
            match sum {
                Some(sum) => {
                    total_borrow_value = sum;
                },
                None => {
                    return Err(Refusal::Arithmetic(ArithmeticError::Overflow));
                },
            }
            i += 1;
        }
        proof { assert(all.take(all.len() as int) =~= all); }
        Ok(total_borrow_value)
    }

    /// What the deposit of `borrower` in one currency is worth as collateral.
    pub fn collateral_asset_value(
        &self,
        feed: &PriceFeed,
        borrower: &AccountId,
        currency_id: &CurrencyId,
        market: &Market<M>,
    ) -> (r: Result<FixedU128, Refusal>)
        ensures
            r == as_fixed(self@.collateral_value(feed@, *currency_id, *borrower, *market)),
    {
        if !self.account_deposits.contains_key(&(*currency_id, *borrower)) {
            return Ok(FixedU128::zero());
        }
        let deposits = self.account_deposits(currency_id, borrower);
        if !deposits.is_collateral {
            return Ok(FixedU128::zero());
        }
        if deposits.voucher_balance == 0 {
            return Ok(FixedU128::zero());
        }
        let exchange_rate = self.exchange_rate(currency_id);
        let currency_price = match Self::get_price(feed, currency_id) {
            Ok(price) => price,
            Err(e) => {
                return Err(Refusal::Loans(e));
            },
        };
        let collateral_amount = match exchange_rate.checked_mul_int(
            market.collateral_factor.mul_floor(deposits.voucher_balance),
        ) {
            Some(amount) => amount,
            None => {
                return Err(Refusal::Arithmetic(ArithmeticError::Overflow));
            },
        };
        match currency_price.checked_mul(&FixedU128::from_inner(collateral_amount)) {
            Some(value) => Ok(value),
            None => Err(Refusal::Arithmetic(ArithmeticError::Overflow)),
        }
    }

    /// What all the collateral of `borrower` is worth.
    pub fn total_collateral_value(&self, feed: &PriceFeed, borrower: &AccountId) -> (r: Result<
        FixedU128,
        Refusal,
    >)
        ensures
            r == as_fixed(self@.total_collateral(feed@, *borrower)),
    {
        let currencies = self.active_markets();
        let ghost all = currencies@;
        let mut total_asset_value = FixedU128::zero();
        let mut i: usize = 0;
        proof { assert(all.take(0) =~= Seq::<CurrencyId>::empty()); }
        while i < currencies.len()
            invariant
                i <= all.len(),
                currencies@ == all,
                all == self@.active_currencies(),
                forall|j: int| 0 <= j < all.len() ==> self@.is_active(#[trigger] all[j]),
                self@.collaterals_value(feed@, *borrower, all.take(i as int)) == Ok::<
                    Balance,
                    Refusal,
                >(total_asset_value.inner),
            decreases all.len() - i,
        {
            proof {
                lemma_take_next(all, i as int);
                lemma_first_error(self@, feed@, *borrower, all, i + 1);
            }
            let currency_id = currencies[i];
            let market = match self.markets.get(&currency_id) {
                Some(market) => market,
                None => {
                    return Err(Refusal::Loans(Error::MarketDoesNotExist));
                },
            };
            let value = match self.collateral_asset_value(feed, borrower, &currency_id, &market) {
                Ok(value) => value,
                Err(e) => {
                    return Err(e);
                },
            };
            match total_asset_value.checked_add(&value) {
                Some(sum) => {
                    total_asset_value = sum;
                },
                None => {
                    return Err(Refusal::Arithmetic(ArithmeticError::Overflow));
                },
            }
            i += 1;
        }
        proof { assert(all.take(all.len() as int) =~= all); }
        Ok(total_asset_value)
    }

    /// By how much the collateral of an account exceeds its debts, and by how
    /// much the debts exceed the collateral.
    pub fn get_account_liquidity(&self, feed: &PriceFeed, account: &AccountId) -> (r: Result<
        (Liquidity, Shortfall),
        Refusal,
    >)
        ensures
            r == (match self@.account_liquidity(feed@, *account) {
                Ok((liquidity, shortfall)) => Ok(
                    (FixedU128 { inner: liquidity }, FixedU128 { inner: shortfall }),
                ),
                Err(e) => Err(e),
            }),
    {
        let total_borrow_value = match self.total_borrowed_value(feed, account) {
            Ok(value) => value,
            Err(e) => {
                return Err(e);
            },
        };
        let total_collateral_value = match self.total_collateral_value(feed, account) {
            Ok(value) => value,
            Err(e) => {
                return Err(e);
            },
        };
        let borrowed = total_borrow_value.inner;
        let collateral = total_collateral_value.inner;
        if collateral > borrowed {
            Ok((FixedU128::from_inner(collateral - borrowed), FixedU128::zero()))
        } else {
            Ok((FixedU128::zero(), FixedU128::from_inner(borrowed - collateral)))
        }
    }

    /// Borrower shouldn't borrow more than his total collateral value
    pub fn borrow_allowed(
        &self,
        feed: &PriceFeed,
        currency_id: &CurrencyId,
        borrower: &AccountId,
        borrow_amount: Balance,
    ) -> (r: Result<(), Refusal>)
        ensures
            r == as_result(
                self@.borrow_allowed_refusal(feed@, *currency_id, *borrower, borrow_amount),
            ),
    {
        let price = match Self::get_price(feed, currency_id) {
            Ok(price) => price,
            Err(e) => {
                return Err(Refusal::Loans(e));
            },
        };
        let borrow_value = match price.checked_mul(&FixedU128::from_inner(borrow_amount)) {
            Some(value) => value,
            None => {
                return Err(Refusal::Arithmetic(ArithmeticError::Overflow));
            },
        };
        let (liquidity, _) = match self.get_account_liquidity(feed, borrower) {
            Ok(pair) => pair,
            Err(e) => {
                return Err(e);
            },
        };
        if liquidity.inner < borrow_value.inner {
            return Err(Refusal::Loans(Error::InsufficientLiquidity));
        }
        Ok(())
    }

    /// Checks if the redeemer should be allowed to redeem tokens in given market
    pub fn redeem_allowed(
        &self,
        feed: &PriceFeed,
        currency_id: &CurrencyId,
        redeemer: &AccountId,
        voucher_amount: Balance,
        market: &Market<M>,
    ) -> (r: Result<(), Refusal>)
        ensures
            r == as_result(
                self@.redeem_allowed_refusal(
                    feed@,
                    *currency_id,
                    *redeemer,
                    voucher_amount,
                    *market,
                ),
            ),
    {
        let deposit = self.account_deposits(currency_id, redeemer);
        if deposit.voucher_balance < voucher_amount {
            return Err(Refusal::Loans(Error::InsufficientDeposit));
        }
        if !deposit.is_collateral {
            return Ok(());
        }
        let price = match Self::get_price(feed, currency_id) {
            Ok(price) => price,
            Err(e) => {
                return Err(Refusal::Loans(e));
            },
        };
        let exchange_rate = self.exchange_rate(currency_id);
        let redeem_amount = match Self::calc_underlying_amount(voucher_amount, exchange_rate) {
            Ok(amount) => amount,
            Err(e) => {
                return Err(e);
            },
        };
        let redeem_effects_value = match price.checked_mul(
            &FixedU128::from_inner(market.collateral_factor.mul_ceil(redeem_amount)),
        ) {
            Some(value) => value,
            None => {
                return Err(Refusal::Arithmetic(ArithmeticError::Overflow));
            },
        };
        let (liquidity, _) = match self.get_account_liquidity(feed, redeemer) {
            Ok(pair) => pair,
            Err(e) => {
                return Err(e);
            },
        };
        if liquidity.inner < redeem_effects_value.inner {
            return Err(Refusal::Loans(Error::InsufficientLiquidity));
        }
        Ok(())
    }
}

/// The first error among the currencies is the one of the whole list.
proof fn lemma_first_error<M>(
    s: State<M>,
    feed: Map<CurrencyId, PriceDetail>,
    who: AccountId,
    all: Seq<CurrencyId>,
    n: int,
)
    requires
        0 <= n <= all.len(),
    ensures
        s.debts_value(feed, who, all.take(n)) is Err ==> s.debts_value(feed, who, all)
            == s.debts_value(feed, who, all.take(n)),
        s.collaterals_value(feed, who, all.take(n)) is Err ==> s.collaterals_value(feed, who, all)
            == s.collaterals_value(feed, who, all.take(n)),
    decreases all.len() - n,
{
    if n == all.len() {
        assert(all.take(n) =~= all);
    } else {
        lemma_take_next(all, n);
        lemma_first_error(s, feed, who, all, n + 1);
    }
}

} // verus!
