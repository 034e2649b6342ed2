//! What the values of several currencies come to together.

use vstd::prelude::*;
use crate::loans::{PriceDetail, State};
use crate::primitives::{AccountId, Balance, CurrencyId, Refusal};

verus! {

/// What is known of the value of each currency.
pub type Values = spec_fn(CurrencyId) -> Result<Balance, Refusal>;

/// The sum of the values of some currencies, where all are known.
pub open spec fn total(values: Values, currencies: Seq<CurrencyId>) -> Option<int>
    decreases currencies.len(),
{
    if currencies.len() == 0 {
        Some(0)
    } else {
        match (total(values, currencies.drop_last()), values(currencies.last())) {
            (Some(sum), Ok(value)) => Some(sum + value),
            _ => None,
        }
    }
}

/// Whether `r` is `sum`, or an error where there is no sum that fits in a balance.
pub open spec fn holds_total(r: Result<Balance, Refusal>, sum: Option<int>) -> bool {
    match r {
        Ok(value) => sum == Some(value as int),
        Err(_) => sum is None || sum.unwrap() > u128::MAX,
    }
}

impl<M> State<M> {
    /// What the debts of `who` are worth, by currency.
    pub open spec fn debt_values(
        self,
        feed: Map<CurrencyId, PriceDetail>,
        who: AccountId,
    ) -> Values {
        |c: CurrencyId| self.debt_value(feed, c, who)
    }

    /// What the deposits of `who` are worth as collateral, by currency.
    pub open spec fn collateral_values(
        self,
        feed: Map<CurrencyId, PriceDetail>,
        who: AccountId,
    ) -> Values {
        |c: CurrencyId| self.collateral_value(feed, c, who, self.markets[c])
    }
}

/// What debts are worth together is their total, and so is what collateral is worth.
pub proof fn lemma_values_are_totals<M>(
    s: State<M>,
    feed: Map<CurrencyId, PriceDetail>,
    who: AccountId,
    currencies: Seq<CurrencyId>,
)
    ensures
        holds_total(
            s.debts_value(feed, who, currencies),
            total(s.debt_values(feed, who), currencies),
        ),
        holds_total(
            s.collaterals_value(feed, who, currencies),
            total(s.collateral_values(feed, who), currencies),
        ),
    decreases currencies.len(),
{
    if currencies.len() > 0 {
        lemma_values_are_totals(s, feed, who, currencies.drop_last());
    }
}

/// A total is not negative, and all the values in it are known and at most the total.
pub proof fn lemma_total_bounds(values: Values, currencies: Seq<CurrencyId>)
    ensures
        total(values, currencies) matches Some(sum) ==> {
            &&& 0 <= sum
            &&& forall|i: int|
                0 <= i < currencies.len() ==> {
                    &&& (#[trigger] values(currencies[i])) is Ok
                    &&& values(currencies[i]).unwrap() <= sum
                }
        },
    decreases currencies.len(),
{
    if currencies.len() > 0 && total(values, currencies) is Some {
        let before = currencies.drop_last();
        lemma_total_bounds(values, before);
        assert forall|i: int| 0 <= i < currencies.len() implies {
            &&& (#[trigger] values(currencies[i])) is Ok
            &&& values(currencies[i]).unwrap() <= total(values, currencies).unwrap()
        } by {
            if i < before.len() {
                assert(before[i] == currencies[i]);
            }
        }
    }
}

/// Equal values have equal totals.
pub proof fn lemma_total_same(f: Values, g: Values, currencies: Seq<CurrencyId>)
    requires
        forall|i: int|
            0 <= i < currencies.len() ==> f(#[trigger] currencies[i]) == g(currencies[i]),
    ensures
        total(f, currencies) == total(g, currencies),
    decreases currencies.len(),
{
    if currencies.len() > 0 {
        let before = currencies.drop_last();
        assert forall|i: int| 0 <= i < before.len() implies f(#[trigger] before[i]) == g(
            before[i],
        ) by {
            assert(before[i] == currencies[i]);
        }
        lemma_total_same(f, g, before);
        assert(f(currencies[currencies.len() - 1]) == g(currencies[currencies.len() - 1]));
    }
}

/// Where one value changes, the total changes by as much.
pub proof fn lemma_total_change(f: Values, g: Values, currencies: Seq<CurrencyId>, c: CurrencyId)
    requires
        currencies.no_duplicates(),
        currencies.contains(c),
        total(f, currencies) is Some,
        g(c) is Ok,
        forall|x: CurrencyId| x != c ==> f(x) == #[trigger] g(x),
    ensures
        f(c) is Ok,
        total(g, currencies) == Some(
            total(f, currencies).unwrap() - f(c).unwrap() + g(c).unwrap(),
        ),
    decreases currencies.len(),
{
    let before = currencies.drop_last();
    let last = currencies.last();
    if last == c {
        assert forall|i: int| 0 <= i < before.len() implies f(#[trigger] before[i]) == g(
            before[i],
        ) by {
            assert(before[i] == currencies[i]);
        }
        lemma_total_same(f, g, before);
    } else {
        let i = currencies.index_of(c);
        assert(before[i] == c);
        lemma_total_change(f, g, before, c);
    }
}

/// A total is the total of the rest, and the value of any one currency.
pub proof fn lemma_total_without(values: Values, currencies: Seq<CurrencyId>, i: int)
    requires
        0 <= i < currencies.len(),
    ensures
        total(values, currencies) == (match (
            total(values, currencies.remove(i)),
            values(currencies[i]),
        ) {
            (Some(sum), Ok(value)) => Some(sum + value),
            _ => None,
        }),
    decreases currencies.len(),
{
    let before = currencies.drop_last();
    let rest = currencies.remove(i);
    if i == currencies.len() - 1 {
        assert(rest =~= before);
    } else {
        lemma_total_without(values, before, i);
        assert(rest.drop_last() =~= before.remove(i));
        assert(rest.last() == currencies.last());
        assert(before[i] == currencies[i]);
    }
}

/// A total does not depend on the order of the currencies.
pub proof fn lemma_total_permuted(values: Values, a: Seq<CurrencyId>, b: Seq<CurrencyId>)
    requires
        a.to_multiset() == b.to_multiset(),
    ensures
        total(values, a) == total(values, b),
    decreases a.len(),
{
    broadcast use vstd::seq_lib::group_to_multiset_ensures;

    assert(a.to_multiset().len() == a.len());
    assert(b.to_multiset().len() == b.len());
    if a.len() > 0 {
        let c = a.last();
        assert(a[a.len() - 1] == c);
        assert(a.to_multiset().contains(c));
        assert(b.contains(c));
        let i = b.index_of(c);
        let n = a.len() - 1;
        assert(a.remove(n) =~= a.drop_last());
        assert(a.remove(n).to_multiset() =~= a.to_multiset().remove(c));
        assert(b.remove(i).to_multiset() =~= b.to_multiset().remove(c));
        lemma_total_permuted(values, a.drop_last(), b.remove(i));
        lemma_total_without(values, b, i);
    }
}

} // verus!
