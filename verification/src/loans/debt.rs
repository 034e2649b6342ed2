//! Borrowing and repaying.

use vstd::prelude::*;
use crate::loans::supply::signed_market_refusal;
use crate::loans::valuation::overflow;
use crate::loans::{BorrowSnapshot, Error, Event, Pallet, PriceDetail, PriceFeed, Receipt, State};
use crate::primitives::{AccountId, ArithmeticError, Balance, CurrencyCall, CurrencyId, Origin};
use crate::primitives::Refusal;

verus! {

impl<M> State<M> {
    /// The state in which `who` owes `principal` from now on, and all borrowers
    /// together `total`.
    pub open spec fn with_debt(
        self,
        c: CurrencyId,
        who: AccountId,
        principal: int,
        total: int,
    ) -> State<M> {
        State {
            account_borrows: self.account_borrows.insert(
                (c, who),
                BorrowSnapshot { principal: principal as u128, borrow_index: self.index(c) },
            ),
            total_borrows: self.total_borrows.insert(c, total as u128),
            ..self
        }
    }

    /// The state once `who` borrowed `amount`.
    pub open spec fn borrowed(self, c: CurrencyId, who: AccountId, amount: Balance) -> State<M> {
        self.with_debt(c, who, self.debt(c, who).unwrap() + amount, self.borrows(c) + amount)
    }

    /// What borrowing asks of the ledger, and what is reported of it.
    pub open spec fn borrow_receipt(
        self,
        c: CurrencyId,
        who: AccountId,
        amount: Balance,
    ) -> Receipt<M> {
        Receipt {
            call: CurrencyCall::Transfer {
                currency_id: c,
                from: self.account_id(),
                to: who,
                amount,
            },
            event: Event::Borrowed(who, c, amount),
        }
    }

    /// What repaying asks of the ledger, and what is reported of it.
    pub open spec fn repay_receipt(
        self,
        c: CurrencyId,
        who: AccountId,
        amount: Balance,
    ) -> Receipt<M> {
        Receipt {
            call: CurrencyCall::Transfer {
                currency_id: c,
                from: who,
                to: self.account_id(),
                amount,
            },
            event: Event::RepaidBorrow(who, c, amount),
        }
    }

    /// The state once `who` repaid `amount`. What all owe together is accrued in
    /// another way than what each owes, so it may be less; it then becomes nought.
    pub open spec fn repaid(self, c: CurrencyId, who: AccountId, amount: Balance) -> State<M> {
        self.with_debt(
            c,
            who,
            self.debt(c, who).unwrap() - amount,
            if self.borrows(c) >= amount {
                self.borrows(c) - amount
            } else {
                0
            },
        )
    }
}

/// Why `borrow` refuses, if it does.
pub open spec fn borrow_refusal<M>(
    s: State<M>,
    feed: Map<CurrencyId, PriceDetail>,
    origin: Origin,
    c: CurrencyId,
    borrow_amount: Balance,
) -> Option<Refusal> {
    let who = origin->Signed_0;
    match signed_market_refusal(s, origin, c) {
        Some(e) => Some(e),
        None => match s.borrow_allowed_refusal(feed, c, who, borrow_amount) {
            Some(e) => Some(e),
            None => match s.debt(c, who) {
                None => Some(overflow()),
                Some(debt) => if debt + borrow_amount > u128::MAX || s.borrows(c) + borrow_amount
                    > u128::MAX {
                    Some(overflow())
                } else {
                    None
                },
            },
        },
    }
}

/// Why `repay_borrow` refuses, if it does.
pub open spec fn repay_refusal<M>(
    s: State<M>,
    origin: Origin,
    c: CurrencyId,
    repay_amount: Balance,
) -> Option<Refusal> {
    match signed_market_refusal(s, origin, c) {
        Some(e) => Some(e),
        None => match s.debt(c, origin->Signed_0) {
            None => Some(overflow()),
            Some(debt) => if debt < repay_amount {
                Some(Refusal::Loans(Error::TooMuchRepay))
            } else {
                None
            },
        },
    }
}

/// Why `repay_borrow_all` refuses, if it does.
pub open spec fn repay_all_refusal<M>(s: State<M>, origin: Origin, c: CurrencyId) -> Option<
    Refusal,
> {
    match signed_market_refusal(s, origin, c) {
        Some(e) => Some(e),
        None => if s.debt(c, origin->Signed_0) is None {
            Some(overflow())
        } else {
            None
        },
    }
}

impl<M: Copy> Pallet<M> {
    /// Sender borrows assets from the protocol to their own address.
    ///
    /// - `currency_id`: the asset to be borrowed.
    /// - `borrow_amount`: the amount to be borrowed.
    pub fn borrow(
        &mut self,
        feed: &PriceFeed,
        origin: Origin,
        currency_id: CurrencyId,
        borrow_amount: Balance,
    ) -> (r: Result<Receipt<M>, Refusal>)
        ensures
            ({
                let refusal = borrow_refusal(
                    old(self)@,
                    feed@,
                    origin,
                    currency_id,
                    borrow_amount,
                );
                match r {
                    Ok(receipt) => {
                        let who = origin->Signed_0;
                        &&& refusal is None
                        &&& receipt == old(self)@.borrow_receipt(currency_id, who, borrow_amount)
                        &&& final(self)@ == old(self)@.borrowed(currency_id, who, borrow_amount)
                    },
                    Err(e) => refusal == Some(e) && final(self)@ == old(self)@,
                }
            }),
    {
        let who = match self.ensure_signed_market(origin, &currency_id) {
            Ok(who) => who,
            Err(e) => {
                return Err(e);
            },
        };
        match self.borrow_allowed(feed, &currency_id, &who, borrow_amount) {
            Ok(()) => {},
            Err(e) => {
                return Err(e);
            },
        }
        let account_borrows = match self.current_borrow_balance(&who, &currency_id) {
            Ok(balance) => balance,
            Err(e) => {
                return Err(e);
            },
        };
        let account_borrows_new = match account_borrows.checked_add(borrow_amount) {
            Some(balance) => balance,
            None => {
                return Err(Refusal::Arithmetic(ArithmeticError::Overflow));
            },
        };
        let total_borrows_new = match self.total_borrows(&currency_id).checked_add(borrow_amount) {
            Some(total) => total,
            None => {
                return Err(Refusal::Arithmetic(ArithmeticError::Overflow));
            },
        };
        let call = CurrencyCall::Transfer {
            currency_id,
            from: self.account_id(),
            to: who,
            amount: borrow_amount,
        };
        let borrow_index = self.borrow_index(&currency_id);
        self.account_borrows.insert(
            (currency_id, who),
            BorrowSnapshot { principal: account_borrows_new, borrow_index },
        );
        self.total_borrows.insert(currency_id, total_borrows_new);
        Ok(Receipt { call, event: Event::Borrowed(who, currency_id, borrow_amount) })
    }

    /// Reduces the debt of `borrower`, who owes `account_borrows`. Returns the
    /// call by which it is paid.
    fn repay_borrow_internal(
        &mut self,
        borrower: &AccountId,
        currency_id: &CurrencyId,
        account_borrows: Balance,
        repay_amount: Balance,
    ) -> (r: Result<CurrencyCall, Refusal>)
        requires
            old(self)@.debt(*currency_id, *borrower) == Some(account_borrows),
        ensures
            match r {
                Ok(call) => {
                    &&& repay_amount <= account_borrows
                    &&& call == old(self)@.repay_receipt(
                        *currency_id,
                        *borrower,
                        repay_amount,
                    ).call
                    &&& final(self)@ == old(self)@.repaid(*currency_id, *borrower, repay_amount)
                },
                Err(e) => {
                    &&& repay_amount > account_borrows
                    &&& e == Refusal::Loans(Error::TooMuchRepay)
                    &&& final(self)@ == old(self)@
                },
            },
    {
        if account_borrows < repay_amount {
            return Err(Refusal::Loans(Error::TooMuchRepay));
        }
        let call = CurrencyCall::Transfer {
            currency_id: *currency_id,
            from: *borrower,
            to: self.account_id(),
            amount: repay_amount,
        };
        let account_borrows_new = account_borrows - repay_amount;
        // NOTE : total_borrows use a different way to calculate interest
        // so when user repays all borrows, total_borrows can be smaller than account_borrows
        let total_borrows_new = self.total_borrows(currency_id).saturating_sub(repay_amount);
        let borrow_index = self.borrow_index(currency_id);
        self.account_borrows.insert(
            (*currency_id, *borrower),
            BorrowSnapshot { principal: account_borrows_new, borrow_index },
        );
        self.total_borrows.insert(*currency_id, total_borrows_new);
        Ok(call)
    }

    /// Sender repays some of their debts.
    ///
    /// - `currency_id`: the asset to be repaid.
    /// - `repay_amount`: the amount to be repaid.
    pub fn repay_borrow(
        &mut self,
        origin: Origin,
        currency_id: CurrencyId,
        repay_amount: Balance,
    ) -> (r: Result<Receipt<M>, Refusal>)
        ensures
            ({
                let refusal = repay_refusal(old(self)@, origin, currency_id, repay_amount);
                match r {
                    Ok(receipt) => {
                        let who = origin->Signed_0;
                        &&& refusal is None
                        &&& receipt == old(self)@.repay_receipt(currency_id, who, repay_amount)
                        &&& final(self)@ == old(self)@.repaid(currency_id, who, repay_amount)
                    },
                    Err(e) => refusal == Some(e) && final(self)@ == old(self)@,
                }
            }),
    {
        let who = match self.ensure_signed_market(origin, &currency_id) {
            Ok(who) => who,
            Err(e) => {
                return Err(e);
            },
        };
        let account_borrows = match self.current_borrow_balance(&who, &currency_id) {
            Ok(balance) => balance,
            Err(e) => {
                return Err(e);
            },
        };
        match self.repay_borrow_internal(&who, &currency_id, account_borrows, repay_amount) {
            Ok(call) => Ok(
                Receipt { call, event: Event::RepaidBorrow(who, currency_id, repay_amount) },
            ),
            Err(e) => Err(e),
        }
    }

    /// Sender repays all of their debts.
    ///
    /// - `currency_id`: the asset to be repaid.
    pub fn repay_borrow_all(&mut self, origin: Origin, currency_id: CurrencyId) -> (r: Result<
        Receipt<M>,
        Refusal,
    >)
        ensures
            ({
                let refusal = repay_all_refusal(old(self)@, origin, currency_id);
                match r {
                    Ok(receipt) => {
                        let who = origin->Signed_0;
                        let debt = old(self)@.debt(currency_id, who).unwrap();
                        &&& refusal is None
                        &&& receipt == old(self)@.repay_receipt(currency_id, who, debt)
                        &&& final(self)@ == old(self)@.repaid(currency_id, who, debt)
                    },
                    Err(e) => refusal == Some(e) && final(self)@ == old(self)@,
                }
            }),
    {
        let who = match self.ensure_signed_market(origin, &currency_id) {
            Ok(who) => who,
            Err(e) => {
                return Err(e);
            },
        };
        let account_borrows = match self.current_borrow_balance(&who, &currency_id) {
            Ok(balance) => balance,
            Err(e) => {
                return Err(e);
            },
        };
        match self.repay_borrow_internal(&who, &currency_id, account_borrows, account_borrows) {
            Ok(call) => Ok(
                Receipt { call, event: Event::RepaidBorrow(who, currency_id, account_borrows) },
            ),
            Err(e) => Err(e),
        }
    }

    /// Using for development. Returns the call that moves the funds.
    pub fn transfer_token(
        &self,
        origin: Origin,
        to: AccountId,
        currency_id: CurrencyId,
        amount: Balance,
    ) -> (r: Result<CurrencyCall, Refusal>)
        ensures
            r == (match signed_market_refusal(self@, origin, currency_id) {
                Some(e) => Err(e),
                None => Ok(
                    CurrencyCall::Transfer { currency_id, from: origin->Signed_0, to, amount },
                ),
            }),
    {
        match self.ensure_signed_market(origin, &currency_id) {
            Ok(who) => Ok(CurrencyCall::Transfer { currency_id, from: who, to, amount }),
            Err(e) => Err(e),
        }
    }
}

} // verus!
