//! Types that the pallets share: currencies, accounts, origins, errors, and the
//! calls that a dispatch asks of the currency ledger.

use vstd::prelude::*;
use crate::arithmetic::{FixedU128, Permill};
use crate::storage::Key;
use crate::substrate;
use crate::substrate::{blake2_256_digest, pallet_account_bytes};

verus! {

/// An amount of some currency.
pub type Balance = u128;

/// A rate, such as an interest or an exchange rate.
pub type Rate = FixedU128;

/// A part of a whole.
pub type Ratio = Permill;

/// The price of one unit of a currency.
pub type Price = FixedU128;

/// By how much an account's collateral exceeds its debt.
pub type Liquidity = FixedU128;

/// By how much an account's debt exceeds its collateral.
pub type Shortfall = FixedU128;

/// Seconds since the epoch.
pub type Timestamp = u64;

/// A token, by its place in the list of tokens. Tokens are ordered by it.
#[derive(Debug, Clone, Copy, PartialEq, Eq, Structural)]
pub struct TokenSymbol {
    /// The place in the list of tokens.
    pub index: u8,
}

/// A currency: a token, or the token that stands for a share of a pool.
#[derive(Debug, Clone, Copy, PartialEq, Eq)]
pub enum CurrencyId {
    /// A plain token.
    Token(TokenSymbol),
    /// A share of the pool of two tokens: the digest of the account that holds
    /// the pool, the base token and the quote token.
    LPToken([u8; 32], TokenSymbol, TokenSymbol),
}

/// An account, by its thirty-two bytes.
#[derive(Debug, Clone, Copy, PartialEq, Eq)]
pub struct AccountId {
    /// The public key, or what stands in its place.
    pub bytes: [u8; 32],
}

/// The identifier of a pallet, from which its account is derived.
#[derive(Debug, Clone, Copy, PartialEq, Eq)]
pub struct PalletId {
    /// The identifier's letters.
    pub id: [u8; 8],
}

/// Who dispatches a call.
#[derive(Debug, Clone, Copy, PartialEq, Eq)]
pub enum Origin {
    /// The chain itself.
    Root,
    /// An account that signed the call.
    Signed(AccountId),
    /// Nobody in particular.
    Unsigned,
}

/// How an arithmetic operation failed.
#[derive(Debug, Clone, Copy, PartialEq, Eq, Structural)]
pub enum ArithmeticError {
    /// The result is too small.
    Underflow,
    /// The result is too large.
    Overflow,
}

/// Why a dispatch was refused. A refused dispatch changes nothing.
#[derive(Debug, Clone, Copy, PartialEq, Eq)]
pub enum Refusal {
    /// The origin may not make this call.
    BadOrigin,
    /// An address does not lead to an account.
    CannotLookup,
    /// A computation failed.
    Arithmetic(ArithmeticError),
    /// The market maker refused.
    Amm(crate::amm::Error),
    /// The lending protocol refused.
    Loans(crate::loans::Error),
    /// The currency ledger refused.
    Currency(sp_runtime::DispatchError),
}

/// A call that a dispatch asks of the currency ledger.
#[derive(Debug, Clone, Copy, PartialEq, Eq)]
pub enum CurrencyCall {
    /// Move `amount` from one account to another.
    Transfer {
        /// The currency to move.
        currency_id: CurrencyId,
        /// Who pays.
        from: AccountId,
        /// Who is paid.
        to: AccountId,
        /// How much.
        amount: Balance,
    },
    /// Create `amount` in an account.
    Deposit {
        /// The currency to create.
        currency_id: CurrencyId,
        /// Whose account.
        who: AccountId,
        /// How much.
        amount: Balance,
    },
    /// Destroy `amount` in an account.
    Withdraw {
        /// The currency to destroy.
        currency_id: CurrencyId,
        /// Whose account.
        who: AccountId,
        /// How much.
        amount: Balance,
    },
}

/// The array with the given thirty-two bytes.
pub open spec fn array_of(bytes: Seq<u8>) -> [u8; 32] {
    choose|a: [u8; 32]| a@ == bytes
}

/// An array is the only one with its bytes.
pub proof fn lemma_array_of(a: [u8; 32])
    ensures
        array_of(a@) == a,
{
    let b = array_of(a@);
    assert(b@ == a@);
    assert(b =~= a);
}

/// The account that a pallet identifier stands for.
pub open spec fn account_of(pallet_id: PalletId) -> AccountId {
    AccountId { bytes: array_of(pallet_account_bytes(pallet_id.id@)) }
}

impl PalletId {
    /// The account that this identifier stands for.
    pub fn into_account(&self) -> (account: AccountId)
        ensures
            account == account_of(*self),
            account.bytes@ == pallet_account_bytes(self.id@),
    {
        let bytes = substrate::pallet_account(self.id);
        proof { lemma_array_of(bytes); }
        AccountId { bytes }
    }
}

/// The digest of an account's bytes.
pub open spec fn account_digest(account: AccountId) -> [u8; 32] {
    array_of(blake2_256_digest(account.bytes@))
}

impl AccountId {
    /// The digest of this account's bytes.
    pub fn digest(&self) -> (digest: [u8; 32])
        ensures
            digest == account_digest(*self),
            digest@ == blake2_256_digest(self.bytes@),
    {
        let digest = substrate::blake2_256(&self.bytes);
        proof { lemma_array_of(digest); }
        digest
    }
}

impl CurrencyId {
    /// The token that this is, where it is one.
    pub fn token_symbol(&self) -> (symbol: Option<TokenSymbol>)
        ensures
            symbol == (match *self {
                CurrencyId::Token(symbol) => Some(symbol),
                CurrencyId::LPToken(_, _, _) => None,
            }),
    {
        match self {
            CurrencyId::Token(symbol) => Some(*symbol),
            CurrencyId::LPToken(_, _, _) => None,
        }
    }
}

/// Whether two arrays hold the same bytes.
fn same_bytes(a: &[u8; 32], b: &[u8; 32]) -> (r: bool)
    ensures
        r == (*a == *b),
{
    let mut i: usize = 0;
    while i < 32
        invariant
            i <= 32,
            forall|j: int| 0 <= j < i ==> a@[j] == b@[j],
        decreases 32 - i,
    {
        if a[i] != b[i] {
            return false;
        }
        i += 1;
    }
    assert(a@ =~= b@);
    assert(*a =~= *b);
    true
}

impl Key for CurrencyId {
    fn same(&self, other: &Self) -> (b: bool) {
        match (self, other) {
            (CurrencyId::Token(a), CurrencyId::Token(b)) => a.index == b.index,
            (CurrencyId::LPToken(h, a, b), CurrencyId::LPToken(g, c, d)) => {
                a.index == c.index && b.index == d.index && same_bytes(h, g)
            },
            _ => false,
        }
    }

    fn copied(&self) -> (key: Self) {
        *self
    }
}

impl Key for AccountId {
    fn same(&self, other: &Self) -> (b: bool) {
        same_bytes(&self.bytes, &other.bytes)
    }

    fn copied(&self) -> (key: Self) {
        *self
    }
}

impl<A: Key, B: Key> Key for (A, B) {
    fn same(&self, other: &Self) -> (b: bool) {
        self.0.same(&other.0) && self.1.same(&other.1)
    }

    fn copied(&self) -> (key: Self) {
        (self.0.copied(), self.1.copied())
    }
}

impl<A: Key, B: Key, C: Key> Key for (A, B, C) {
    fn same(&self, other: &Self) -> (b: bool) {
        self.0.same(&other.0) && self.1.same(&other.1) && self.2.same(&other.2)
    }

    fn copied(&self) -> (key: Self) {
        (self.0.copied(), self.1.copied(), self.2.copied())
    }
}

/// The account that signed a call.
pub fn ensure_signed(origin: Origin) -> (r: Result<AccountId, Refusal>)
    ensures
        r == (match origin {
            Origin::Signed(who) => Ok(who),
            _ => Err(Refusal::BadOrigin),
        }),
{
    match origin {
        Origin::Signed(who) => Ok(who),
        _ => Err(Refusal::BadOrigin),
    }
}

/// Refuses every origin but the chain itself.
pub fn ensure_root(origin: Origin) -> (r: Result<(), Refusal>)
    ensures
        r == (match origin {
            Origin::Root => Ok(()),
            _ => Err(Refusal::BadOrigin),
        }),
{
    match origin {
        Origin::Root => Ok(()),
        _ => Err(Refusal::BadOrigin),
    }
}

} // verus!
