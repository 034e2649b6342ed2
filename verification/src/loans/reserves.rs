//! Reserves.

use vstd::prelude::*;
use crate::loans::valuation::overflow;
use crate::loans::{Error, Event, Pallet, Receipt, State};
use crate::primitives::{AccountId, ArithmeticError, Balance, CurrencyCall, CurrencyId, Refusal};

verus! {

impl<M> State<M> {
    /// The state with other reserves of a currency.
    pub open spec fn with_reserves(self, c: CurrencyId, total: int) -> State<M> {
        State { total_reserves: self.total_reserves.insert(c, total as u128), ..self }
    }

    /// The state once reserves were added.
    pub open spec fn reserves_added(self, c: CurrencyId, add_amount: Balance) -> State<M> {
        self.with_reserves(c, self.reserves(c) + add_amount)
    }

    /// The state once reserves were reduced.
    pub open spec fn reserves_reduced(self, c: CurrencyId, reduce_amount: Balance) -> State<M> {
        self.with_reserves(c, self.reserves(c) - reduce_amount)
    }

    /// The call that pays for added reserves.
    pub open spec fn add_reserves_call(
        self,
        payer: AccountId,
        c: CurrencyId,
        add_amount: Balance,
    ) -> CurrencyCall {
        CurrencyCall::Transfer {
            currency_id: c,
            from: payer,
            to: self.account_id(),
            amount: add_amount,
        }
    }

    /// What is reported of added reserves.
    pub open spec fn add_reserves_event(self, c: CurrencyId, add_amount: Balance) -> Event<M> {
        Event::ReservesAdded(
            self.account_id(),
            c,
            add_amount,
            (self.reserves(c) + add_amount) as u128,
        )
    }

    /// What reducing reserves asks of the ledger, and what is reported of it.
    pub open spec fn reduce_reserves_receipt(
        self,
        receiver: AccountId,
        c: CurrencyId,
        reduce_amount: Balance,
    ) -> Receipt<M> {
        Receipt {
            call: CurrencyCall::Transfer {
                currency_id: c,
                from: self.account_id(),
                to: receiver,
                amount: reduce_amount,
            },
            event: Event::ReservesReduced(
                receiver,
                c,
                reduce_amount,
                (self.reserves(c) - reduce_amount) as u128,
            ),
        }
    }
}

/// Why a dispatch on reserves is refused before it looks at amounts, if it is:
/// the origin must be allowed to, the account must be known, and the market
/// must be active.
pub open spec fn reserve_refusal<M>(
    s: State<M>,
    may_reserve: bool,
    account: Option<AccountId>,
    c: CurrencyId,
) -> Option<Refusal> {
    if !may_reserve {
        Some(Refusal::BadOrigin)
    } else if account is None {
        Some(Refusal::CannotLookup)
    } else if !s.is_active(c) {
        Some(Refusal::Loans(Error::MarketNotActivated))
    } else {
        None
    }
}

/// Why `add_reserves` refuses, if it does.
pub open spec fn add_reserves_refusal<M>(
    s: State<M>,
    may_reserve: bool,
    payer: Option<AccountId>,
    c: CurrencyId,
    add_amount: Balance,
    paid: Result<(), sp_runtime::DispatchError>,
) -> Option<Refusal> {
    match (reserve_refusal(s, may_reserve, payer, c), paid) {
        (Some(e), _) => Some(e),
        (None, Err(e)) => Some(Refusal::Currency(e)),
        (None, Ok(())) => if s.reserves(c) + add_amount > u128::MAX {
            Some(overflow())
        } else {
            None
        },
    }
}

/// Why `reduce_reserves` refuses, if it does.
pub open spec fn reduce_reserves_refusal<M>(
    s: State<M>,
    may_reserve: bool,
    receiver: Option<AccountId>,
    c: CurrencyId,
    reduce_amount: Balance,
) -> Option<Refusal> {
    match reserve_refusal(s, may_reserve, receiver, c) {
        Some(e) => Some(e),
        None => if reduce_amount > s.reserves(c) {
            Some(Refusal::Loans(Error::InsufficientReserves))
        } else {
            None
        },
    }
}

impl<M: Copy> Pallet<M> {
    /// The account of a dispatch on the reserves of an active market.
    fn ensure_reserve_market(
        &self,
        may_reserve: bool,
        account: Option<AccountId>,
        currency_id: &CurrencyId,
    ) -> (r: Result<AccountId, Refusal>)
        ensures
            r == (match reserve_refusal(self@, may_reserve, account, *currency_id) {
                Some(e) => Err(e),
                None => Ok(account.unwrap()),
            }),
    {
        if !may_reserve {
            return Err(Refusal::BadOrigin);
        }
        let account = match account {
            Some(account) => account,
            None => {
                return Err(Refusal::CannotLookup);
            },
        };
        match self.ensure_currency(currency_id) {
            Ok(()) => Ok(account),
            Err(e) => Err(e),
        }
    }

    /// The call that `add_reserves` needs the answer to: the payer pays.
    pub fn add_reserves_call(
        &self,
        may_reserve: bool,
        payer: Option<AccountId>,
        currency_id: CurrencyId,
        add_amount: Balance,
    ) -> (r: Result<CurrencyCall, Refusal>)
        ensures
            r == (match reserve_refusal(self@, may_reserve, payer, currency_id) {
                Some(e) => Err(e),
                None => Ok(self@.add_reserves_call(payer.unwrap(), currency_id, add_amount)),
            }),
    {
        match self.ensure_reserve_market(may_reserve, payer, &currency_id) {
            Ok(from) => Ok(
                CurrencyCall::Transfer {
                    currency_id,
                    from,
                    to: self.account_id(),
                    amount: add_amount,
                },
            ),
            Err(e) => Err(e),
        }
    }

    /// Add reserves by transferring from payer.
    ///
    /// - `may_reserve`: whether the origin may add and reduce reserves.
    /// - `payer`: the payer account, where the given address leads to one.
    /// - `currency_id`: the assets to be added.
    /// - `add_amount`: the amount to be added.
    /// - `paid`: what the currency ledger answered to [`Pallet::add_reserves_call`].
    pub fn add_reserves(
        &mut self,
        may_reserve: bool,
        payer: Option<AccountId>,
        currency_id: CurrencyId,
        add_amount: Balance,
        paid: Result<(), sp_runtime::DispatchError>,
    ) -> (r: Result<Event<M>, Refusal>)
        ensures
            ({
                let refusal = add_reserves_refusal(
                    old(self)@,
                    may_reserve,
                    payer,
                    currency_id,
                    add_amount,
                    paid,
                );
                match r {
                    Ok(event) => {
                        &&& refusal is None
                        &&& event == old(self)@.add_reserves_event(currency_id, add_amount)
                        &&& final(self)@ == old(self)@.reserves_added(currency_id, add_amount)
                    },
                    Err(e) => refusal == Some(e) && final(self)@ == old(self)@,
                }
            }),
    {
        match self.ensure_reserve_market(may_reserve, payer, &currency_id) {
            Ok(_) => {},
            Err(e) => {
                return Err(e);
            },
        }
        match paid {
            Ok(()) => {},
            Err(e) => {
                return Err(Refusal::Currency(e));
            },
        }
        let total_reserves_new = match self.total_reserves(&currency_id).checked_add(add_amount) {
            Some(total) => total,
            None => {
                return Err(Refusal::Arithmetic(ArithmeticError::Overflow));
            },
        };
        let account = self.account_id();
        self.total_reserves.insert(currency_id, total_reserves_new);
        Ok(Event::ReservesAdded(account, currency_id, add_amount, total_reserves_new))
    }

    /// Reduces reserves by transferring to receiver.
    ///
    /// - `may_reserve`: whether the origin may add and reduce reserves.
    /// - `receiver`: the receiver account, where the given address leads to one.
    /// - `currency_id`: the assets to be reduced.
    /// - `reduce_amount`: the amount to be reduced.
    pub fn reduce_reserves(
        &mut self,
        may_reserve: bool,
        receiver: Option<AccountId>,
        currency_id: CurrencyId,
        reduce_amount: Balance,
    ) -> (r: Result<Receipt<M>, Refusal>)
        ensures
            ({
                let refusal = reduce_reserves_refusal(
                    old(self)@,
                    may_reserve,
                    receiver,
                    currency_id,
                    reduce_amount,
                );
                match r {
                    Ok(receipt) => {
                        &&& refusal is None
                        &&& receipt == old(self)@.reduce_reserves_receipt(
                            receiver.unwrap(),
                            currency_id,
                            reduce_amount,
                        )
                        &&& final(self)@ == old(self)@.reserves_reduced(currency_id, reduce_amount)
                    },
                    Err(e) => refusal == Some(e) && final(self)@ == old(self)@,
                }
            }),
    {
        let to = match self.ensure_reserve_market(may_reserve, receiver, &currency_id) {
            Ok(to) => to,
            Err(e) => {
                return Err(e);
            },
        };
        let total_reserves = self.total_reserves(&currency_id);
        if reduce_amount > total_reserves {
            return Err(Refusal::Loans(Error::InsufficientReserves));
        }
        let total_reserves_new = total_reserves - reduce_amount;
        let call = CurrencyCall::Transfer {
            currency_id,
            from: self.account_id(),
            to,
            amount: reduce_amount,
        };
        self.total_reserves.insert(currency_id, total_reserves_new);
        let event = Event::ReservesReduced(to, currency_id, reduce_amount, total_reserves_new);
        Ok(Receipt { call, event })
    }
}

} // verus!
