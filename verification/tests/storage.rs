use parallel_pallets::primitives::{AccountId, CurrencyId, TokenSymbol};
use parallel_pallets::storage::{Key, Table};

fn token(index: u8) -> CurrencyId {
    CurrencyId::Token(TokenSymbol { index })
}

fn account(n: u8) -> AccountId {
    AccountId { bytes: [n; 32] }
}

#[test]
fn tables_keep_the_order_of_first_insertion() {
    let mut table: Table<CurrencyId, u128> = Table::new();
    table.insert(token(2), 20);
    table.insert(token(1), 10);
    table.insert(token(3), 30);
    table.insert(token(2), 21);
    assert_eq!(table.len(), 3);
    assert_eq!(table.key_at(0), token(2));
    assert_eq!(table.key_at(1), token(1));
    assert_eq!(table.key_at(2), token(3));
    assert_eq!(table.get(&token(2)), Some(21));
    assert_eq!(table.get(&token(4)), None);
}

#[test]
fn removal_keeps_the_others() {
    let mut table: Table<(CurrencyId, AccountId), u128> = Table::new();
    table.insert((token(1), account(1)), 11);
    table.insert((token(1), account(2)), 12);
    table.insert((token(2), account(1)), 21);
    let copy = table.clone();
    table.remove(&(token(1), account(1)));
    assert!(!table.contains_key(&(token(1), account(1))));
    assert_eq!(table.get(&(token(1), account(2))), Some(12));
    assert_eq!(table.len(), 2);
    assert_eq!(table.key_at(0), (token(1), account(2)));
    assert_eq!(copy.get(&(token(1), account(1))), Some(11));
    table.remove(&(token(1), account(1)));
    assert_eq!(table.len(), 2);
}

#[test]
fn keys_are_told_apart() {
    let share = CurrencyId::LPToken([1; 32], TokenSymbol { index: 1 }, TokenSymbol { index: 0 });
    let mut digest = [1; 32];
    digest[31] = 2;
    let other = CurrencyId::LPToken(digest, TokenSymbol { index: 1 }, TokenSymbol { index: 0 });
    assert!(share.same(&share));
    assert!(!share.same(&other));
    assert!(!share.same(&token(1)));
    assert!(!token(0).same(&token(1)));
    assert!((account(1), token(1), token(2)).same(&(account(1), token(1), token(2))));
    assert!(!(account(1), token(1), token(2)).same(&(account(1), token(2), token(2))));
    assert!(!(account(1), token(1), token(2)).same(&(account(3), token(1), token(2))));
}
