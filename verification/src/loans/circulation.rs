//! The internal supplies in circulation are those that accounts hold.

use vstd::prelude::*;
use crate::arithmetic::{fixed_div, fixed_mul};
use crate::loans::markets::{empty_state, GenesisConfig};
use crate::loans::laws::lemma_there_and_back;
use crate::loans::{Config, Deposits, Market, PriceDetail, State};
use crate::primitives::{AccountId, Balance, CurrencyId};

verus! {

/// What one deposit adds to the internal supplies of `c`.
pub open spec fn held_by(key: (CurrencyId, AccountId), deposits: Deposits, c: CurrencyId) -> int {
    if key.0 == c {
        deposits.voucher_balance as int
    } else {
        0
    }
}

/// The internal supplies of `c` in some deposits together.
pub open spec fn held(deposits: Map<(CurrencyId, AccountId), Deposits>, c: CurrencyId) -> int
    decreases deposits.dom().len(),
{
    if deposits.dom().finite() && deposits.dom().len() > 0 {
        let key = deposits.dom().choose();
        held(deposits.remove(key), c) + held_by(key, deposits[key], c)
    } else {
        0
    }
}

impl<M> State<M> {
    /// Whether, for every currency, the internal supplies in circulation are
    /// those that accounts hold. There are finitely many deposits.
    pub open spec fn supply_is_held(self) -> bool {
        &&& self.account_deposits.dom().finite()
        &&& forall|c: CurrencyId| #[trigger] self.supply(c) == held(self.account_deposits, c)
    }
}

/// What all deposits hold is what one holds, and what the others hold.
proof fn lemma_held_without(
    deposits: Map<(CurrencyId, AccountId), Deposits>,
    key: (CurrencyId, AccountId),
    c: CurrencyId,
)
    requires
        deposits.dom().finite(),
        deposits.contains_key(key),
    ensures
        held(deposits, c) == held(deposits.remove(key), c) + held_by(key, deposits[key], c),
    decreases deposits.dom().len(),
{
    let first = deposits.dom().choose();
    if first != key {
        let a = deposits.remove(first);
        let b = deposits.remove(key);
        lemma_held_without(a, key, c);
        lemma_held_without(b, first, c);
        assert(a.remove(key) =~= b.remove(first));
    }
}

/// Replacing a deposit changes what is held by the difference.
proof fn lemma_held_insert(
    deposits: Map<(CurrencyId, AccountId), Deposits>,
    key: (CurrencyId, AccountId),
    new: Deposits,
    c: CurrencyId,
)
    requires
        deposits.dom().finite(),
    ensures
        held(deposits.insert(key, new), c) == held(deposits, c) + held_by(key, new, c) - (
        if deposits.contains_key(key) {
            held_by(key, deposits[key], c)
        } else {
            0
        }),
{
    let after = deposits.insert(key, new);
    lemma_held_without(after, key, c);
    if deposits.contains_key(key) {
        lemma_held_without(deposits, key, c);
        assert(after.remove(key) =~= deposits.remove(key));
    } else {
        assert(after.remove(key) =~= deposits);
    }
}

/// No account holds more than all together, and holdings are not negative.
proof fn lemma_held_bounds(
    deposits: Map<(CurrencyId, AccountId), Deposits>,
    key: (CurrencyId, AccountId),
    c: CurrencyId,
)
    requires
        deposits.dom().finite(),
    ensures
        0 <= held(deposits, c),
        deposits.contains_key(key) ==> held_by(key, deposits[key], c) <= held(deposits, c),
    decreases deposits.dom().len(),
{
    if deposits.contains_key(key) {
        lemma_held_without(deposits, key, c);
        lemma_held_bounds(deposits.remove(key), key, c);
    } else if deposits.dom().len() > 0 {
        let first = deposits.dom().choose();
        lemma_held_bounds(deposits.remove(first), key, c);
    }
}

/// Neither a protocol that stores nothing nor one at genesis has anything in
/// circulation.
pub proof fn law_nothing_is_held_at_first<M>(genesis: GenesisConfig<M>, config: Config)
    ensures
        empty_state::<M>(config).supply_is_held(),
        genesis.state(config).supply_is_held(),
{
}

/// A deposit puts as much into circulation as the depositor gets.
pub proof fn law_mint_keeps_supply_held<M>(
    s: State<M>,
    c: CurrencyId,
    who: AccountId,
    mint_amount: Balance,
)
    requires
        s.supply_is_held(),
        s.mint_refusal(c, who, mint_amount) is None,
    ensures
        s.minted(c, who, mint_amount).supply_is_held(),
{
    let after = s.minted(c, who, mint_amount);
    let key = (c, who);
    assert forall|x: CurrencyId| #[trigger] after.supply(x) == held(
        after.account_deposits,
        x,
    ) by {
        assert(s.supply(x) == held(s.account_deposits, x));
        lemma_held_insert(s.account_deposits, key, after.account_deposits[key], x);
    }
}

/// Redeeming takes as much out of circulation as the redeemer gives.
pub proof fn law_redeem_keeps_supply_held<M>(
    s: State<M>,
    feed: Map<CurrencyId, PriceDetail>,
    c: CurrencyId,
    who: AccountId,
    voucher_amount: Balance,
)
    requires
        s.supply_is_held(),
        s.redeem_refusal(feed, c, who, voucher_amount) is None,
    ensures
        s.redeemed(c, who, voucher_amount).supply_is_held(),
        s.with_earned(c, who).redeemed(c, who, voucher_amount).supply_is_held(),
{
    let after = s.redeemed(c, who, voucher_amount);
    let key = (c, who);
    let deposits = s.account_deposits;
    assert forall|x: CurrencyId| #[trigger] after.supply(x) == held(
        after.account_deposits,
        x,
    ) by {
        assert(s.supply(x) == held(deposits, x));
        if s.deposits(c, who).voucher_balance == voucher_amount {
            if deposits.contains_key(key) {
                lemma_held_without(deposits, key, x);
            } else {
                assert(deposits.remove(key) =~= deposits);
            }
        } else {
            lemma_held_insert(deposits, key, after.account_deposits[key], x);
        }
    }
    lemma_same_deposits(after, s.with_earned(c, who).redeemed(c, who, voucher_amount));
}

/// Where the supply is what accounts hold, it is never too small for what an
/// account redeems.
pub proof fn law_supply_suffices_for_redeeming<M>(s: State<M>, c: CurrencyId, who: AccountId)
    requires
        s.supply_is_held(),
    ensures
        s.deposits(c, who).voucher_balance <= s.supply(c),
{
    assert(s.supply(c) == held(s.account_deposits, c));
    lemma_held_bounds(s.account_deposits, (c, who), c);
}

/// Whether a deposit serves as collateral does not change what is in circulation.
pub proof fn law_collateral_keeps_supply_held<M>(
    s: State<M>,
    c: CurrencyId,
    who: AccountId,
    enable: bool,
)
    requires
        s.supply_is_held(),
    ensures
        s.with_collateral(c, who, enable).supply_is_held(),
{
    let after = s.with_collateral(c, who, enable);
    let key = (c, who);
    assert forall|x: CurrencyId| #[trigger] after.supply(x) == held(
        after.account_deposits,
        x,
    ) by {
        assert(s.supply(x) == held(s.account_deposits, x));
        lemma_held_insert(s.account_deposits, key, after.account_deposits[key], x);
    }
}

/// A liquidation moves internal supplies, and neither makes nor destroys any.
pub proof fn law_liquidation_keeps_supply_held<M>(
    s: State<M>,
    liquidator: AccountId,
    borrower: AccountId,
    debt_currency: CurrencyId,
    collateral_currency: CurrencyId,
    repay_amount: Balance,
    underlying: Balance,
)
    requires
        s.supply_is_held(),
        liquidator != borrower,
        s.settlement_refusal(
            liquidator,
            borrower,
            debt_currency,
            collateral_currency,
            repay_amount,
            underlying,
        ) is None,
    ensures
        s.liquidated(
            liquidator,
            borrower,
            debt_currency,
            collateral_currency,
            repay_amount,
            underlying,
        ).supply_is_held(),
{
    let after = s.liquidated(
        liquidator,
        borrower,
        debt_currency,
        collateral_currency,
        repay_amount,
        underlying,
    );
    let from = (collateral_currency, borrower);
    let to = (collateral_currency, liquidator);
    let middle = s.account_deposits.insert(from, after.account_deposits[from]);
    assert forall|x: CurrencyId| #[trigger] after.supply(x) == held(
        after.account_deposits,
        x,
    ) by {
        assert(s.supply(x) == held(s.account_deposits, x));
        lemma_held_insert(s.account_deposits, from, after.account_deposits[from], x);
        lemma_held_insert(middle, to, after.account_deposits[to], x);
        assert(after.account_deposits =~= middle.insert(to, after.account_deposits[to]));
    }
}

/// What touches neither deposits nor the supply keeps the supply held.
proof fn lemma_same_deposits<M>(s: State<M>, after: State<M>)
    requires
        s.supply_is_held(),
        after.account_deposits == s.account_deposits,
        after.total_supply == s.total_supply,
    ensures
        after.supply_is_held(),
{
    assert forall|x: CurrencyId| #[trigger] after.supply(x) == held(
        after.account_deposits,
        x,
    ) by {
        assert(s.supply(x) == held(s.account_deposits, x));
    }
}

/// Borrowing, repaying, reserves, writing down earnings and changes to markets
/// do not change what is in circulation.
pub proof fn law_other_changes_keep_supply_held<M>(
    s: State<M>,
    c: CurrencyId,
    who: AccountId,
    amount: Balance,
    market: Market<M>,
)
    requires
        s.supply_is_held(),
    ensures
        s.borrowed(c, who, amount).supply_is_held(),
        s.repaid(c, who, amount).supply_is_held(),
        s.with_reserves(c, amount as int).supply_is_held(),
        s.with_earned(c, who).supply_is_held(),
        s.with_market(c, market).supply_is_held(),
        s.with_stored_market(c, market).supply_is_held(),
{
    lemma_same_deposits(s, s.borrowed(c, who, amount));
    lemma_same_deposits(s, s.repaid(c, who, amount));
    lemma_same_deposits(s, s.with_reserves(c, amount as int));
    lemma_same_deposits(s, s.with_earned(c, who));
    lemma_same_deposits(s, s.with_market(c, market));
    lemma_same_deposits(s, s.with_stored_market(c, market));
}

/// A deposit that is no collateral can be taken back at once, as long as the
/// supply is what accounts hold, and pays at most what was put in.
pub proof fn law_deposit_can_be_taken_back<M>(
    s: State<M>,
    feed: Map<CurrencyId, PriceDetail>,
    c: CurrencyId,
    who: AccountId,
    mint_amount: Balance,
)
    requires
        s.supply_is_held(),
        s.markets.contains_key(c),
        s.mint_refusal(c, who, mint_amount) is None,
        !s.deposits(c, who).is_collateral,
    ensures
        ({
            let vouchers = fixed_div(mint_amount, s.rate(c).inner).unwrap();
            let after = s.minted(c, who, mint_amount);
            &&& after.redeem_refusal(feed, c, who, vouchers) is None
            &&& fixed_mul(after.rate(c).inner, vouchers).unwrap() <= mint_amount
        }),
{
    let after = s.minted(c, who, mint_amount);
    lemma_there_and_back(mint_amount, s.rate(c).inner);
    law_mint_keeps_supply_held(s, c, who, mint_amount);
    law_supply_suffices_for_redeeming(after, c, who);
}

} // verus!
