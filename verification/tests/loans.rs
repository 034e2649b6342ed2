use parallel_pallets::arithmetic::{FixedU128, Permill, DIV};
use parallel_pallets::loans::markets::GenesisConfig;
use parallel_pallets::loans::{
    BorrowSnapshot, Config, Deposits, EarnedSnapshot, Error, Event, Market, MarketState, Pallet,
    PriceDetail, PriceFeed, Receipt,
};
use parallel_pallets::primitives::{
    AccountId, ArithmeticError, CurrencyCall, CurrencyId, Origin, PalletId, Refusal, TokenSymbol,
};
use parallel_pallets::storage::Table;

const KSM: CurrencyId = CurrencyId::Token(TokenSymbol { index: 0 });
const DOT: CurrencyId = CurrencyId::Token(TokenSymbol { index: 1 });
const USDT: CurrencyId = CurrencyId::Token(TokenSymbol { index: 2 });
const BTC: CurrencyId = CurrencyId::Token(TokenSymbol { index: 3 });

const ALICE: AccountId = AccountId { bytes: [1; 32] };
const BOB: AccountId = AccountId { bytes: [2; 32] };

fn by(who: AccountId) -> Origin {
    Origin::Signed(who)
}

fn market(state: MarketState) -> Market<u8> {
    Market {
        collateral_factor: Permill::from_parts(500_000),
        reserve_factor: Permill::from_parts(150_000),
        close_factor: Permill::from_parts(500_000),
        liquidate_incentive: FixedU128::from_inner(DIV / 10 * 11),
        rate_model: 7,
        state,
    }
}

fn config() -> Config {
    Config { pallet_id: PalletId { id: *b"par/loan" } }
}

fn funds() -> AccountId {
    let mut bytes = [0; 32];
    bytes[..12].copy_from_slice(b"modlpar/loan");
    AccountId { bytes }
}

/// Three active markets at an exchange rate of 0.02, and a pending one.
fn pallet() -> Pallet<u8> {
    let genesis = GenesisConfig {
        borrow_index: FixedU128::from_inner(DIV),
        exchange_rate: FixedU128::from_inner(DIV / 50),
        last_block_timestamp: 0,
        markets: vec![
            (KSM, market(MarketState::Active)),
            (DOT, market(MarketState::Active)),
            (BTC, market(MarketState::Pending)),
            (USDT, market(MarketState::Active)),
        ],
    };
    genesis.build(config(), &vec![true; 4])
}

fn feed() -> PriceFeed {
    let mut prices: PriceFeed = Table::new();
    set_price(&mut prices, KSM, DIV);
    set_price(&mut prices, DOT, DIV);
    set_price(&mut prices, USDT, DIV);
    prices
}

fn set_price(prices: &mut PriceFeed, currency: CurrencyId, inner: u128) {
    prices.insert(currency, PriceDetail { price: FixedU128::from_inner(inner), timestamp: 5 });
}

fn supply(loans: &mut Pallet<u8>, who: AccountId, currency: CurrencyId, amount: u128) {
    assert!(loans.mint(by(who), currency, amount, Ok(())).is_ok());
    assert!(loans.collateral_asset(&feed(), by(who), currency, true).is_ok());
}

/// BOB has 1000 of DOT as collateral, and owes 500 of KSM.
fn with_loan() -> Pallet<u8> {
    let mut loans = pallet();
    supply(&mut loans, BOB, DOT, 1_000);
    assert!(loans.mint(by(ALICE), KSM, 2_000, Ok(())).is_ok());
    assert!(loans.borrow(&feed(), by(BOB), KSM, 500).is_ok());
    loans
}

fn transfer(currency_id: CurrencyId, from: AccountId, to: AccountId, amount: u128) -> CurrencyCall {
    CurrencyCall::Transfer { currency_id, from, to, amount }
}

fn refused<T>(e: Error) -> Result<T, Refusal> {
    Err(Refusal::Loans(e))
}

fn overflow<T>() -> Result<T, Refusal> {
    Err(Refusal::Arithmetic(ArithmeticError::Overflow))
}

fn underflow<T>() -> Result<T, Refusal> {
    Err(Refusal::Arithmetic(ArithmeticError::Underflow))
}

fn ledger<T>() -> Result<T, Refusal> {
    Err(Refusal::Currency(sp_runtime::DispatchError::Other("no funds")))
}

fn no_funds() -> Result<(), sp_runtime::DispatchError> {
    Err(sp_runtime::DispatchError::Other("no funds"))
}

#[test]
fn genesis_lists_the_markets() {
    let loans = pallet();
    assert_eq!(loans.account_id(), funds());
    assert_eq!(loans.active_markets(), vec![KSM, DOT, USDT]);
    assert_eq!(loans.exchange_rate(&BTC).into_inner(), DIV / 50);
    assert_eq!(loans.borrow_index(&KSM).into_inner(), DIV);
    assert_eq!(loans.market(&BTC), Ok(market(MarketState::Pending)));
    assert_eq!(loans.total_supply(&KSM), 0);
    assert_eq!(loans.last_block_timestamp(), 0);
    assert!(loans.borrow_rate(&KSM).is_zero());
    assert!(loans.supply_rate(&KSM).is_zero());
    assert_eq!(loans.utilization_ratio(&KSM).parts, 0);
}

#[test]
fn a_default_genesis_is_empty() {
    let genesis = GenesisConfig::<u8>::default();
    assert!(genesis.borrow_index.is_zero());
    assert!(genesis.exchange_rate.is_zero());
    assert!(genesis.markets.is_empty());
    assert_eq!(genesis.build(config(), &Vec::new()), Pallet::new(config()));
}

#[test]
fn a_market_listed_twice_keeps_its_place() {
    let mut second = market(MarketState::Active);
    second.rate_model = 8;
    let genesis = GenesisConfig {
        borrow_index: FixedU128::from_inner(1),
        exchange_rate: FixedU128::from_inner(1),
        last_block_timestamp: 3,
        markets: vec![
            (DOT, market(MarketState::Pending)),
            (KSM, market(MarketState::Active)),
            (DOT, second),
        ],
    };
    let loans = genesis.build(config(), &vec![true; 3]);
    assert_eq!(loans.active_markets(), vec![DOT, KSM]);
    assert_eq!(loans.market(&DOT), Ok(second));
    assert_eq!(loans.last_block_timestamp(), 3);
}

#[test]
fn markets_are_added_pending_and_then_activated() {
    let mut loans = Pallet::<u8>::new(config());
    let pending = market(MarketState::Pending);
    assert_eq!(loans.add_market(true, KSM, pending, true), Ok(Event::NewMarket(pending)));
    assert_eq!(loans.ensure_currency(&KSM), refused(Error::MarketNotActivated));
    assert_eq!(loans.active_market(true, KSM), Ok(Some(Event::ActivatedMarket(KSM))));
    assert_eq!(loans.ensure_currency(&KSM), Ok(()));
    assert_eq!(loans.active_market(true, KSM), Ok(None));
    assert_eq!(loans.market(&KSM), Ok(market(MarketState::Active)));
}

#[test]
fn new_markets_are_checked() {
    let mut loans = pallet();
    let pending = market(MarketState::Pending);
    assert_eq!(loans.add_market(false, KSM, pending, true), Err(Refusal::BadOrigin));
    let fresh = CurrencyId::Token(TokenSymbol { index: 9 });
    assert_eq!(
        loans.add_market(true, fresh, market(MarketState::Active), true),
        refused(Error::NewMarketMustHavePendingState)
    );
    assert_eq!(
        loans.add_market(true, fresh, pending, false),
        refused(Error::InvalidRateModelParam)
    );
    assert_eq!(loans.active_market(true, fresh), refused(Error::MarketDoesNotExist));
    assert_eq!(loans.active_market(false, BTC), Err(Refusal::BadOrigin));
    assert_eq!(loans.market(&fresh), refused(Error::MarketDoesNotExist));
    assert_eq!(loans, pallet());
}

#[test]
fn adding_replaces_a_market() {
    let mut loans = pallet();
    let mut other = market(MarketState::Pending);
    other.rate_model = 8;
    assert_eq!(loans.add_market(true, KSM, other, true), Ok(Event::NewMarket(other)));
    assert_eq!(loans.market(&KSM), Ok(other));
    assert_eq!(loans.active_markets(), vec![DOT, USDT]);
    assert_eq!(loans.active_market(true, KSM), Ok(Some(Event::ActivatedMarket(KSM))));
    assert_eq!(loans.active_markets(), vec![KSM, DOT, USDT]);
}

#[test]
fn updates_keep_the_state_of_a_market() {
    let mut loans = pallet();
    let mut update = market(MarketState::Pending);
    update.close_factor = Permill::from_parts(123);
    update.rate_model = 9;
    assert_eq!(loans.update_market(true, KSM, update, true), Ok(()));
    let mut stored = update;
    stored.state = MarketState::Active;
    assert_eq!(loans.market(&KSM), Ok(stored));
    assert_eq!(loans.active_markets(), vec![KSM, DOT, USDT]);
    assert_eq!(loans.update_market(false, KSM, update, true), Err(Refusal::BadOrigin));
    assert_eq!(
        loans.update_market(true, KSM, update, false),
        refused(Error::InvalidRateModelParam)
    );
    let fresh = CurrencyId::Token(TokenSymbol { index: 9 });
    assert_eq!(loans.update_market(true, fresh, update, true), refused(Error::MarketDoesNotExist));
}

#[test]
fn deposits_bring_internal_supplies() {
    let mut loans = pallet();
    assert_eq!(loans.mint_call(by(ALICE), KSM, 1_000), Ok(transfer(KSM, ALICE, funds(), 1_000)));
    assert_eq!(loans.mint(by(ALICE), KSM, 1_000, Ok(())), Ok(Event::Deposited(ALICE, KSM, 1_000)));
    assert_eq!(
        loans.account_deposits(&KSM, &ALICE),
        Deposits { voucher_balance: 50_000, is_collateral: false }
    );
    assert_eq!(loans.total_supply(&KSM), 50_000);
    assert_eq!(
        loans.account_earned(&KSM, &ALICE),
        EarnedSnapshot {
            exchange_rate_prior: FixedU128::from_inner(DIV / 50),
            total_earned_prior: 0
        }
    );
    assert_eq!(loans.account_deposits(&DOT, &ALICE).voucher_balance, 0);
}

#[test]
fn deposits_are_refused() {
    let mut loans = pallet();
    assert_eq!(loans.mint_call(Origin::Root, KSM, 1), Err(Refusal::BadOrigin));
    assert_eq!(loans.mint_call(by(ALICE), BTC, 1), refused(Error::MarketNotActivated));
    assert_eq!(loans.mint(Origin::Unsigned, KSM, 1, Ok(())), Err(Refusal::BadOrigin));
    assert_eq!(loans.mint(by(ALICE), BTC, 1, Ok(())), refused(Error::MarketNotActivated));
    assert_eq!(loans.mint(by(ALICE), KSM, 1, no_funds()), ledger());
    assert_eq!(loans.mint(by(ALICE), KSM, u128::MAX, Ok(())), underflow());
    assert_eq!(loans, pallet());
    // no exchange rate
    loans.exchange_rate.remove(&KSM);
    assert_eq!(loans.mint(by(ALICE), KSM, 1, Ok(())), underflow());
    // the supply is full
    let mut loans = pallet();
    loans.total_supply.insert(KSM, u128::MAX);
    assert_eq!(loans.mint(by(ALICE), KSM, 1, Ok(())), overflow());
    // the exchange rate fell
    let mut loans = pallet();
    loans.account_earned.insert(
        (KSM, ALICE),
        EarnedSnapshot {
            exchange_rate_prior: FixedU128::from_inner(DIV),
            total_earned_prior: 0,
        },
    );
    assert_eq!(loans.mint(by(ALICE), KSM, 1, Ok(())), overflow());
}

#[test]
fn earnings_grow_with_the_exchange_rate() {
    let mut loans = pallet();
    assert!(loans.mint(by(ALICE), KSM, 1_000, Ok(())).is_ok());
    loans.exchange_rate.insert(KSM, FixedU128::from_inner(DIV / 25));
    assert_eq!(loans.update_earned_stored(&ALICE, &KSM), Ok(()));
    let earned = loans.account_earned(&KSM, &ALICE);
    assert_eq!(earned.total_earned_prior, 1_000);
    assert_eq!(earned.exchange_rate_prior.into_inner(), DIV / 25);
    assert_eq!(loans.update_earned_stored(&ALICE, &KSM), Ok(()));
    assert_eq!(loans.account_earned(&KSM, &ALICE), earned);
    loans.exchange_rate.insert(KSM, FixedU128::from_inner(DIV / 50));
    assert_eq!(loans.update_earned_stored(&ALICE, &KSM), overflow());
    assert_eq!(loans.account_earned(&KSM, &ALICE), earned);
}

#[test]
fn redeeming_gives_back_the_underlying_asset() {
    let mut loans = pallet();
    assert!(loans.mint(by(ALICE), KSM, 1_000, Ok(())).is_ok());
    assert_eq!(
        loans.redeem(&feed(), by(ALICE), KSM, 300),
        Ok(Receipt {
            call: transfer(KSM, funds(), ALICE, 300),
            event: Event::Redeemed(ALICE, KSM, 300),
        })
    );
    assert_eq!(loans.account_deposits(&KSM, &ALICE).voucher_balance, 35_000);
    assert_eq!(loans.total_supply(&KSM), 35_000);
    assert_eq!(
        loans.redeem_all(&feed(), by(ALICE), KSM),
        Ok(Receipt {
            call: transfer(KSM, funds(), ALICE, 700),
            event: Event::Redeemed(ALICE, KSM, 700),
        })
    );
    assert_eq!(loans.total_supply(&KSM), 0);
    assert!(!loans.account_deposits.contains_key(&(KSM, ALICE)));
}

#[test]
fn redeeming_rounds_against_the_redeemer() {
    let mut loans = pallet();
    loans.exchange_rate.insert(KSM, FixedU128::from_inner(3 * DIV));
    assert!(loans.mint(by(ALICE), KSM, 100, Ok(())).is_ok());
    assert_eq!(loans.account_deposits(&KSM, &ALICE).voucher_balance, 33);
    assert_eq!(
        loans.redeem(&feed(), by(ALICE), KSM, 100),
        Ok(Receipt {
            call: transfer(KSM, funds(), ALICE, 99),
            event: Event::Redeemed(ALICE, KSM, 99),
        })
    );
    assert_eq!(loans.total_supply(&KSM), 0);
}

#[test]
fn redeeming_is_refused() {
    let mut loans = with_loan();
    assert_eq!(loans.redeem(&feed(), Origin::Root, KSM, 1), Err(Refusal::BadOrigin));
    assert_eq!(loans.redeem(&feed(), by(ALICE), BTC, 1), refused(Error::MarketNotActivated));
    assert_eq!(loans.redeem(&feed(), by(ALICE), KSM, 2_001), refused(Error::InsufficientDeposit));
    assert_eq!(loans.redeem(&feed(), by(BOB), DOT, 1), refused(Error::InsufficientLiquidity));
    assert_eq!(loans.redeem_all(&feed(), by(BOB), DOT), refused(Error::InsufficientLiquidity));
    assert_eq!(loans.redeem_all(&feed(), Origin::Unsigned, DOT), Err(Refusal::BadOrigin));
    let nothing: PriceFeed = Table::new();
    assert_eq!(loans.redeem(&nothing, by(BOB), DOT, 1), refused(Error::PriceOracleNotReady));
    assert_eq!(loans, with_loan());
    assert_eq!(
        loans.redeem_internal(&feed(), &BOB, &CurrencyId::Token(TokenSymbol { index: 9 }), 0),
        refused(Error::MarketDoesNotExist)
    );
    loans.total_supply.insert(KSM, 10);
    assert_eq!(loans.redeem(&feed(), by(ALICE), KSM, 1), underflow());
    let deposits = Deposits { voucher_balance: u128::MAX, is_collateral: false };
    loans.account_deposits.insert((KSM, ALICE), deposits);
    loans.exchange_rate.insert(KSM, FixedU128::from_inner(2 * DIV));
    let refusal = loans.redeem_internal(&feed(), &ALICE, &KSM, u128::MAX);
    assert_eq!(refusal, overflow());
}

#[test]
fn spare_collateral_can_be_redeemed() {
    let mut loans = with_loan();
    assert!(loans.repay_borrow(by(BOB), KSM, 100).is_ok());
    assert_eq!(loans.redeem(&feed(), by(BOB), DOT, 202), refused(Error::InsufficientLiquidity));
    assert!(loans.redeem(&feed(), by(BOB), DOT, 200).is_ok());
    let (liquidity, shortfall) = loans.get_account_liquidity(&feed(), &BOB).unwrap();
    assert!(liquidity.is_zero());
    assert!(shortfall.is_zero());
}

#[test]
fn a_deposit_counts_by_the_collateral_factor() {
    let mut loans = pallet();
    supply(&mut loans, BOB, DOT, 1_000);
    let mut prices = feed();
    set_price(&mut prices, DOT, 3 * DIV);
    let value = loans.total_collateral_value(&prices, &BOB).unwrap();
    assert_eq!(value.into_inner(), 1_500);
    let asset = loans.collateral_asset_value(&prices, &BOB, &DOT, &market(MarketState::Active));
    assert_eq!(asset.unwrap().into_inner(), 1_500);
    let none = loans.collateral_asset_value(&prices, &ALICE, &DOT, &market(MarketState::Active));
    assert!(none.unwrap().is_zero());
}

#[test]
fn borrowing_is_bounded_by_collateral() {
    let mut loans = pallet();
    supply(&mut loans, BOB, DOT, 1_000);
    assert_eq!(loans.borrow(&feed(), by(BOB), KSM, 501), refused(Error::InsufficientLiquidity));
    assert_eq!(loans.borrow_allowed(&feed(), &KSM, &BOB, 500), Ok(()));
    assert_eq!(
        loans.borrow(&feed(), by(BOB), KSM, 500),
        Ok(Receipt {
            call: transfer(KSM, funds(), BOB, 500),
            event: Event::Borrowed(BOB, KSM, 500),
        })
    );
    assert_eq!(
        loans.account_borrows(&KSM, &BOB),
        BorrowSnapshot { principal: 500, borrow_index: FixedU128::from_inner(DIV) }
    );
    assert_eq!(loans.total_borrows(&KSM), 500);
    assert_eq!(loans.current_borrow_balance(&BOB, &KSM), Ok(500));
    assert_eq!(loans.total_borrowed_value(&feed(), &BOB).unwrap().into_inner(), 500);
    assert_eq!(loans.borrow(&feed(), by(BOB), KSM, 1), refused(Error::InsufficientLiquidity));
    // what is worth nothing can always be borrowed
    let mut prices = feed();
    set_price(&mut prices, USDT, 1);
    assert!(loans.borrow(&prices, by(BOB), USDT, 1).is_ok());
}

#[test]
fn borrowing_is_refused() {
    let mut loans = with_loan();
    assert_eq!(loans.borrow(&feed(), Origin::Root, KSM, 1), Err(Refusal::BadOrigin));
    assert_eq!(loans.borrow(&feed(), by(BOB), BTC, 1), refused(Error::MarketNotActivated));
    let nothing: PriceFeed = Table::new();
    assert_eq!(loans.borrow(&nothing, by(BOB), KSM, 1), refused(Error::PriceOracleNotReady));
    let mut prices = feed();
    set_price(&mut prices, KSM, 0);
    assert_eq!(loans.borrow(&prices, by(BOB), USDT, 1), refused(Error::PriceOracleNotReady));
    set_price(&mut prices, KSM, 2 * DIV);
    assert_eq!(loans.borrow(&prices, by(BOB), KSM, u128::MAX), overflow());
    assert_eq!(loans, with_loan());
    // all borrows together do not fit
    let mut prices = feed();
    set_price(&mut prices, USDT, 1);
    loans.total_borrows.insert(USDT, u128::MAX);
    assert_eq!(loans.borrow(&prices, by(BOB), USDT, 1), overflow());
}

#[test]
fn debts_grow_with_the_index() {
    let mut loans = with_loan();
    loans.borrow_index.insert(KSM, FixedU128::from_inner(DIV / 10 * 13));
    assert_eq!(loans.current_borrow_balance(&BOB, &KSM), Ok(650));
    let snapshot = BorrowSnapshot { principal: 7, borrow_index: FixedU128::from_inner(2 * DIV) };
    assert_eq!(loans.current_balance_from_snapshot(&KSM, snapshot), Ok(4));
    let none = BorrowSnapshot { principal: 7, borrow_index: FixedU128::zero() };
    assert_eq!(loans.current_balance_from_snapshot(&KSM, none), Ok(0));
    let tiny = BorrowSnapshot { principal: u128::MAX, borrow_index: FixedU128::from_inner(1) };
    assert_eq!(loans.current_balance_from_snapshot(&KSM, tiny), overflow());
    let (_, shortfall) = loans.get_account_liquidity(&feed(), &BOB).unwrap();
    assert_eq!(shortfall.into_inner(), 150);
}

#[test]
fn repaying_reduces_the_debt() {
    let mut loans = with_loan();
    assert_eq!(
        loans.repay_borrow(by(BOB), KSM, 200),
        Ok(Receipt {
            call: transfer(KSM, BOB, funds(), 200),
            event: Event::RepaidBorrow(BOB, KSM, 200),
        })
    );
    assert_eq!(loans.current_borrow_balance(&BOB, &KSM), Ok(300));
    assert_eq!(loans.total_borrows(&KSM), 300);
    assert_eq!(loans.repay_borrow(by(BOB), KSM, 301), refused(Error::TooMuchRepay));
    loans.borrow_index.insert(KSM, FixedU128::from_inner(2 * DIV));
    assert_eq!(
        loans.repay_borrow_all(by(BOB), KSM),
        Ok(Receipt {
            call: transfer(KSM, BOB, funds(), 600),
            event: Event::RepaidBorrow(BOB, KSM, 600),
        })
    );
    assert_eq!(loans.current_borrow_balance(&BOB, &KSM), Ok(0));
    // the total was accrued in another way, and stops at nought
    assert_eq!(loans.total_borrows(&KSM), 0);
}

#[test]
fn repaying_is_refused() {
    let mut loans = with_loan();
    assert_eq!(loans.repay_borrow(Origin::Root, KSM, 1), Err(Refusal::BadOrigin));
    assert_eq!(loans.repay_borrow(by(BOB), BTC, 1), refused(Error::MarketNotActivated));
    assert_eq!(loans.repay_borrow_all(Origin::Root, KSM), Err(Refusal::BadOrigin));
    assert_eq!(loans.repay_borrow(by(ALICE), KSM, 1), refused(Error::TooMuchRepay));
    assert_eq!(loans, with_loan());
    loans.borrow_index.insert(KSM, FixedU128::from_inner(u128::MAX));
    loans.account_borrows.insert(
        (KSM, BOB),
        BorrowSnapshot { principal: 500, borrow_index: FixedU128::from_inner(1) },
    );
    assert_eq!(loans.repay_borrow(by(BOB), KSM, 1), overflow());
    assert_eq!(loans.repay_borrow_all(by(BOB), KSM), overflow());
}

#[test]
fn repaying_undoes_borrowing() {
    let mut loans = with_loan();
    assert!(loans.repay_borrow(by(BOB), KSM, 500).is_ok());
    assert!(loans.borrow(&feed(), by(BOB), KSM, 123).is_ok());
    assert!(loans.repay_borrow(by(BOB), KSM, 123).is_ok());
    assert_eq!(loans.current_borrow_balance(&BOB, &KSM), Ok(0));
    assert_eq!(loans.total_borrows(&KSM), 0);
}

#[test]
fn a_market_without_an_index_forgets_debts() {
    let mut loans = with_loan();
    assert!(loans.repay_borrow_all(by(BOB), KSM).is_ok());
    loans.borrow_index.remove(&USDT);
    assert!(loans.borrow(&feed(), by(BOB), USDT, 100).is_ok());
    assert_eq!(loans.current_borrow_balance(&BOB, &USDT), Ok(0));
}

#[test]
fn transfers_are_for_active_markets() {
    let loans = pallet();
    assert_eq!(
        loans.transfer_token(by(ALICE), BOB, KSM, 5),
        Ok(transfer(KSM, ALICE, BOB, 5))
    );
    assert_eq!(loans.transfer_token(Origin::Root, BOB, KSM, 5), Err(Refusal::BadOrigin));
    assert_eq!(
        loans.transfer_token(by(ALICE), BOB, BTC, 5),
        refused(Error::MarketNotActivated)
    );
}

#[test]
fn collateral_is_turned_on_and_off() {
    let mut loans = pallet();
    assert_eq!(
        loans.collateral_asset(&feed(), by(ALICE), KSM, true),
        refused(Error::NoDeposit)
    );
    assert!(loans.mint(by(ALICE), KSM, 1_000, Ok(())).is_ok());
    assert_eq!(
        loans.collateral_asset(&feed(), by(ALICE), KSM, false),
        refused(Error::DuplicateOperation)
    );
    assert_eq!(
        loans.collateral_asset(&feed(), by(ALICE), KSM, true),
        Ok(Event::CollateralAssetAdded(ALICE, KSM))
    );
    assert!(loans.account_deposits(&KSM, &ALICE).is_collateral);
    assert_eq!(
        loans.collateral_asset(&feed(), by(ALICE), KSM, true),
        refused(Error::DuplicateOperation)
    );
    assert_eq!(
        loans.collateral_asset(&feed(), by(ALICE), KSM, false),
        Ok(Event::CollateralAssetRemoved(ALICE, KSM))
    );
    assert_eq!(
        loans.account_deposits(&KSM, &ALICE),
        Deposits { voucher_balance: 50_000, is_collateral: false }
    );
    assert_eq!(
        loans.collateral_asset(&feed(), Origin::Root, KSM, true),
        Err(Refusal::BadOrigin)
    );
}

#[test]
fn needed_collateral_stays_on() {
    let mut loans = with_loan();
    assert_eq!(
        loans.collateral_asset(&feed(), by(BOB), DOT, false),
        refused(Error::InsufficientLiquidity)
    );
    supply(&mut loans, BOB, USDT, 1_000);
    assert_eq!(
        loans.collateral_asset(&feed(), by(BOB), DOT, false),
        Ok(Event::CollateralAssetRemoved(BOB, DOT))
    );
    let (liquidity, shortfall) = loans.get_account_liquidity(&feed(), &BOB).unwrap();
    assert!(liquidity.is_zero());
    assert!(shortfall.is_zero());
}

#[test]
fn prices_are_needed_where_they_count() {
    let loans = with_loan();
    let mut prices = feed();
    prices.remove(&USDT);
    assert_eq!(Pallet::<u8>::get_price(&prices, &USDT), Err(Error::PriceOracleNotReady));
    assert_eq!(Pallet::<u8>::get_price(&prices, &KSM), Ok(FixedU128::from_inner(DIV)));
    assert!(loans.get_account_liquidity(&prices, &BOB).is_ok());
    prices.remove(&KSM);
    assert_eq!(
        loans.get_account_liquidity(&prices, &BOB),
        refused(Error::PriceOracleNotReady)
    );
}

#[test]
fn the_order_of_markets_does_not_matter() {
    let mut loans = with_loan();
    supply(&mut loans, BOB, USDT, 300);
    let genesis = GenesisConfig {
        borrow_index: FixedU128::from_inner(DIV),
        exchange_rate: FixedU128::from_inner(DIV / 50),
        last_block_timestamp: 0,
        markets: vec![
            (USDT, market(MarketState::Active)),
            (DOT, market(MarketState::Active)),
            (KSM, market(MarketState::Active)),
        ],
    };
    let mut other = genesis.build(config(), &vec![true; 3]);
    supply(&mut other, BOB, USDT, 300);
    supply(&mut other, BOB, DOT, 1_000);
    assert!(other.borrow(&feed(), by(BOB), KSM, 500).is_ok());
    assert_eq!(
        loans.get_account_liquidity(&feed(), &BOB),
        other.get_account_liquidity(&feed(), &BOB)
    );
    assert_eq!(
        loans.get_account_liquidity(&feed(), &BOB).unwrap().0.into_inner(),
        150
    );
}

#[test]
fn amounts_convert_at_the_exchange_rate() {
    let rate = FixedU128::from_inner(DIV / 50);
    assert_eq!(Pallet::<u8>::calc_underlying_amount(10_099, rate), Ok(201));
    assert_eq!(Pallet::<u8>::calc_collateral_amount(201, rate), Ok(10_050));
    assert_eq!(Pallet::<u8>::calc_collateral_amount(1, FixedU128::zero()), underflow());
    let high = FixedU128::from_inner(2 * DIV);
    assert_eq!(Pallet::<u8>::calc_underlying_amount(u128::MAX, high), overflow());
}

fn cheap_dot() -> PriceFeed {
    let mut prices = feed();
    set_price(&mut prices, DOT, DIV / 10 * 9);
    prices
}

#[test]
fn a_liquidator_gets_the_collateral_and_a_reward() {
    let mut loans = with_loan();
    let prices = cheap_dot();
    let (_, shortfall) = loans.get_account_liquidity(&prices, &BOB).unwrap();
    assert_eq!(shortfall.into_inner(), 50);
    assert_eq!(
        loans.liquidate_borrow_call(&prices, by(ALICE), BOB, KSM, 250, DOT),
        Ok(transfer(KSM, ALICE, funds(), 250))
    );
    // 250 and a tenth, at nine tenths each
    assert_eq!(
        loans.liquidate_borrow(&prices, by(ALICE), BOB, KSM, 250, DOT, Ok(())),
        Ok(Event::LiquidatedBorrow(ALICE, BOB, KSM, DOT, 250, 305))
    );
    assert_eq!(loans.current_borrow_balance(&BOB, &KSM), Ok(250));
    assert_eq!(loans.total_borrows(&KSM), 250);
    assert_eq!(
        loans.account_deposits(&DOT, &BOB),
        Deposits { voucher_balance: 34_750, is_collateral: true }
    );
    assert_eq!(
        loans.account_deposits(&DOT, &ALICE),
        Deposits { voucher_balance: 15_250, is_collateral: false }
    );
    assert_eq!(loans.total_supply(&DOT), 50_000);
}

#[test]
fn liquidations_are_refused() {
    let mut loans = with_loan();
    let prices = cheap_dot();
    let paid = Ok(());
    assert_eq!(
        loans.liquidate_borrow(&prices, Origin::Root, BOB, KSM, 250, DOT, paid),
        Err(Refusal::BadOrigin)
    );
    assert_eq!(
        loans.liquidate_borrow_call(&prices, Origin::Root, BOB, KSM, 250, DOT),
        Err(Refusal::BadOrigin)
    );
    assert_eq!(
        loans.liquidate_borrow(&prices, by(ALICE), BOB, BTC, 250, DOT, paid),
        refused(Error::MarketNotActivated)
    );
    assert_eq!(
        loans.liquidate_borrow(&prices, by(ALICE), BOB, KSM, 250, BTC, paid),
        refused(Error::MarketNotActivated)
    );
    assert_eq!(
        loans.liquidate_borrow(&prices, by(BOB), BOB, KSM, 250, DOT, paid),
        refused(Error::LiquidatorIsBorrower)
    );
    assert_eq!(
        loans.liquidate_borrow(&feed(), by(ALICE), BOB, KSM, 250, DOT, paid),
        refused(Error::InsufficientShortfall)
    );
    assert_eq!(
        loans.liquidate_borrow(&prices, by(ALICE), BOB, KSM, 251, DOT, paid),
        refused(Error::TooMuchRepay)
    );
    assert_eq!(
        loans.liquidate_borrow(&prices, by(ALICE), BOB, KSM, 250, USDT, paid),
        refused(Error::DepositsAreNotCollateral)
    );
    assert_eq!(
        loans.liquidate_borrow(&prices, by(ALICE), BOB, KSM, 250, DOT, no_funds()),
        ledger()
    );
    assert_eq!(
        loans.liquidate_borrow_allowed(&prices, &BOB, KSM, 251, &market(MarketState::Active)),
        refused(Error::TooMuchRepay)
    );
    assert_eq!(loans, with_loan());
}

#[test]
fn liquidations_need_enough_of_the_collateral() {
    let mut loans = with_loan();
    supply(&mut loans, BOB, USDT, 20);
    let mut prices = cheap_dot();
    let refusal = loans.liquidate_borrow(&prices, by(ALICE), BOB, KSM, 250, USDT, Ok(()));
    assert_eq!(refusal, refused(Error::InsufficientCollateral));
    // the collateral has no price
    prices.remove(&DOT);
    let refusal = loans.liquidate_borrow(&prices, by(ALICE), BOB, KSM, 250, DOT, Ok(()));
    assert_eq!(refusal, refused(Error::PriceOracleNotReady));
    // the reward does not fit
    let mut update = market(MarketState::Active);
    update.liquidate_incentive = FixedU128::from_inner(u128::MAX);
    update.close_factor = Permill::from_parts(1_000_000);
    assert_eq!(loans.update_market(true, KSM, update, true), Ok(()));
    let mut prices = feed();
    set_price(&mut prices, KSM, 1_000_000_000_000_000_000 * DIV);
    let refusal = loans.liquidate_borrow(&prices, by(ALICE), BOB, KSM, 250, DOT, Ok(()));
    assert_eq!(refusal, refused(Error::LiquidateValueOverflow));
}

#[test]
fn paid_liquidations_that_cannot_be_booked_are_undone() {
    let prices = cheap_dot();
    let mut loans = with_loan();
    loans.total_borrows.insert(KSM, 249);
    let refusal = loans.liquidate_borrow_internal(&prices, ALICE, BOB, KSM, 250, DOT, Ok(()));
    assert_eq!(refusal, underflow());
    assert_eq!(loans.current_borrow_balance(&BOB, &KSM), Ok(500));
    let mut loans = with_loan();
    loans.account_deposits.insert(
        (DOT, ALICE),
        Deposits { voucher_balance: u128::MAX, is_collateral: false },
    );
    let refusal = loans.liquidate_borrow_internal(&prices, ALICE, BOB, KSM, 250, DOT, Ok(()));
    assert_eq!(refusal, overflow());
    assert_eq!(loans.account_deposits(&DOT, &BOB).voucher_balance, 50_000);
    let mut loans = with_loan();
    loans.exchange_rate.remove(&DOT);
    let refusal = loans.liquidate_borrow_internal(&prices, ALICE, BOB, KSM, 0, DOT, Ok(()));
    assert_eq!(refusal, underflow());
}

#[test]
fn the_supply_is_what_accounts_hold() {
    let mut loans = with_loan();
    assert!(loans.mint(by(ALICE), DOT, 77, Ok(())).is_ok());
    assert!(loans.redeem(&feed(), by(ALICE), DOT, 13).is_ok());
    assert!(loans.liquidate_borrow(&cheap_dot(), by(ALICE), BOB, KSM, 100, DOT, Ok(())).is_ok());
    let held = loans.account_deposits(&DOT, &ALICE).voucher_balance
        + loans.account_deposits(&DOT, &BOB).voucher_balance;
    assert_eq!(loans.total_supply(&DOT), held);
    assert_eq!(held, 53_200);
}

#[test]
fn reserves_are_added_and_reduced() {
    let mut loans = pallet();
    assert_eq!(
        loans.add_reserves_call(true, Some(ALICE), KSM, 90),
        Ok(transfer(KSM, ALICE, funds(), 90))
    );
    assert_eq!(
        loans.add_reserves(true, Some(ALICE), KSM, 90, Ok(())),
        Ok(Event::ReservesAdded(funds(), KSM, 90, 90))
    );
    assert_eq!(
        loans.reduce_reserves(true, Some(BOB), KSM, 20),
        Ok(Receipt {
            call: transfer(KSM, funds(), BOB, 20),
            event: Event::ReservesReduced(BOB, KSM, 20, 70),
        })
    );
    assert_eq!(loans.total_reserves(&KSM), 70);
    assert_eq!(
        loans.reduce_reserves(true, Some(BOB), KSM, 71),
        refused(Error::InsufficientReserves)
    );
    assert!(loans.reduce_reserves(true, Some(BOB), KSM, 70).is_ok());
    assert_eq!(loans.total_reserves(&KSM), 0);
}

#[test]
fn reserves_are_guarded() {
    let mut loans = pallet();
    let call = loans.add_reserves_call(false, Some(ALICE), KSM, 90);
    assert_eq!(call, Err(Refusal::BadOrigin));
    assert_eq!(loans.add_reserves_call(true, None, KSM, 90), Err(Refusal::CannotLookup));
    let r = loans.add_reserves(false, Some(ALICE), KSM, 90, Ok(()));
    assert_eq!(r, Err(Refusal::BadOrigin));
    let r = loans.add_reserves(true, None, KSM, 90, Ok(()));
    assert_eq!(r, Err(Refusal::CannotLookup));
    let r = loans.add_reserves(true, Some(ALICE), BTC, 90, Ok(()));
    assert_eq!(r, refused(Error::MarketNotActivated));
    let r = loans.add_reserves(true, Some(ALICE), KSM, 90, no_funds());
    assert_eq!(r, ledger());
    let r = loans.reduce_reserves(false, Some(ALICE), KSM, 1);
    assert_eq!(r, Err(Refusal::BadOrigin));
    let r = loans.reduce_reserves(true, None, KSM, 1);
    assert_eq!(r, Err(Refusal::CannotLookup));
    assert_eq!(loans, pallet());
    loans.total_reserves.insert(KSM, u128::MAX);
    let r = loans.add_reserves(true, Some(ALICE), KSM, 1, Ok(()));
    assert_eq!(r, overflow());
}

#[test]
fn the_first_block_has_no_predecessor() {
    let mut loans = pallet();
    let active = loans.on_finalize(6, Err(Refusal::Arithmetic(ArithmeticError::Overflow)));
    assert_eq!(active, vec![KSM, DOT, USDT]);
    assert_eq!(loans.last_block_timestamp(), 6);
    loans.prepare_finalize(9);
    assert_eq!(loans.last_block_timestamp(), 6);
}

#[test]
fn a_block_ends_with_what_was_accrued() {
    let mut loans = with_loan();
    let mut accrued = with_loan();
    accrued.borrow_index.insert(KSM, FixedU128::from_inner(2 * DIV));
    loans.on_finalize(12, Ok(accrued));
    assert_eq!(loans.last_block_timestamp(), 12);
    assert_eq!(loans.current_borrow_balance(&BOB, &KSM), Ok(1_000));
    let failed = loans.on_finalize(18, Err(Refusal::Arithmetic(ArithmeticError::Overflow)));
    assert_eq!(failed, vec![KSM, DOT, USDT]);
    assert_eq!(loans.last_block_timestamp(), 12);
    assert_eq!(loans.current_borrow_balance(&BOB, &KSM), Ok(1_000));
}
