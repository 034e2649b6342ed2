use parallel_pallets::amm::{
    Config, Error, Event, Pallet, PoolLiquidityAmount, PostWeight, Receipt,
};
use parallel_pallets::arithmetic::{FixedU128, Perbill, DIV};
use parallel_pallets::primitives::{
    AccountId, ArithmeticError, CurrencyCall, CurrencyId, Origin, PalletId, Refusal, TokenSymbol,
};
use parallel_pallets::storage::Table;

const KSM: CurrencyId = CurrencyId::Token(TokenSymbol { index: 0 });
const DOT: CurrencyId = CurrencyId::Token(TokenSymbol { index: 1 });
const USDT: CurrencyId = CurrencyId::Token(TokenSymbol { index: 2 });

const ALICE: AccountId = AccountId { bytes: [1; 32] };
const BOB: AccountId = AccountId { bytes: [2; 32] };
const TREASURY: AccountId = AccountId { bytes: [9; 32] };

fn pallet() -> Pallet {
    Pallet {
        config: Config {
            pallet_id: PalletId { id: *b"par/ammp" },
            allow_permissionless_pool_creation: true,
            lp_fee: Perbill::from_parts(3_000_000),
            protocol_fee: Perbill::from_parts(500_000),
            protocol_fee_receiver: TREASURY,
        },
        pools: Table::new(),
        liquidity_providers: Table::new(),
    }
}

fn pool_account() -> AccountId {
    let mut bytes = [0; 32];
    bytes[..12].copy_from_slice(b"modlpar/ammp");
    AccountId { bytes }
}

fn shares() -> CurrencyId {
    let digest = [
        0xe3, 0x79, 0xcf, 0xc0, 0x75, 0x96, 0x76, 0x9e, 0xa0, 0xe5, 0xf7, 0xa9, 0xd1, 0xd2, 0xb6,
        0xe9, 0x4e, 0x1b, 0xe0, 0x8f, 0x77, 0x7c, 0x36, 0x4b, 0xff, 0xb1, 0x79, 0x5e, 0xb6, 0xe9,
        0x8f, 0x3b,
    ];
    CurrencyId::LPToken(digest, TokenSymbol { index: 1 }, TokenSymbol { index: 0 })
}

fn transfer(currency_id: CurrencyId, from: AccountId, to: AccountId, amount: u128) -> CurrencyCall {
    CurrencyCall::Transfer { currency_id, from, to, amount }
}

fn liquidity(base_amount: u128, quote_amount: u128) -> PoolLiquidityAmount {
    PoolLiquidityAmount { base_amount, quote_amount, lp_token: shares() }
}

fn with_pool(base: u128, quote: u128) -> Pallet {
    let mut amm = pallet();
    let opened = amm.add_liquidity(Origin::Signed(ALICE), (DOT, KSM), (base, quote), (0, 0), 0);
    assert!(opened.is_ok());
    amm
}

fn amm_error(e: Error) -> Refusal {
    Refusal::Amm(e)
}

#[test]
fn the_account_is_derived_from_the_pallet_id() {
    assert_eq!(pallet().account_id(), pool_account());
}

#[test]
fn shares_are_named_after_the_account() {
    assert_eq!(pallet().lp_token(&DOT, &KSM), Ok(shares()));
    assert_eq!(pallet().lp_token(&shares(), &KSM), Err(amm_error(Error::InvalidCurrencyId)));
}

#[test]
fn both_orders_lead_to_the_same_pool() {
    assert_eq!(Pallet::get_upper_currency(DOT, KSM), Some((false, DOT, KSM)));
    assert_eq!(Pallet::get_upper_currency(KSM, DOT), Some((true, DOT, KSM)));
    assert_eq!(Pallet::get_upper_currency(KSM, KSM), Some((true, KSM, KSM)));
    assert_eq!(Pallet::get_upper_currency(KSM, shares()), None);
}

#[test]
fn quote_follows_the_price() {
    assert_eq!(Pallet::quote(34, 1_000, 2_000), 68);
    assert_eq!(Pallet::quote(10, 3, 10), 33);
    assert_eq!(Pallet::quote(u128::MAX, 2, 5), u128::MAX / 2);
}

#[test]
fn opening_a_pool_hands_out_the_root_of_the_product() {
    let mut amm = pallet();
    let receipt =
        amm.add_liquidity(Origin::Signed(ALICE), (KSM, DOT), (2_000, 1_000), (1, 1), 77).unwrap();
    let expected = Receipt {
        calls: vec![
            CurrencyCall::Deposit { currency_id: shares(), who: ALICE, amount: 1_414 },
            transfer(DOT, ALICE, pool_account(), 1_000),
            transfer(KSM, ALICE, pool_account(), 2_000),
        ],
        event: Event::LiquidityAdded(ALICE, DOT, KSM),
        weight: PostWeight::AddLiquidityExistingPool,
    };
    assert_eq!(receipt, expected);
    assert_eq!(amm.pools(&DOT, &KSM), Some(liquidity(1_000, 2_000)));
    assert_eq!(amm.liquidity_providers(&ALICE, &DOT, &KSM), liquidity(1_000, 2_000));
    assert_eq!(amm.liquidity_providers(&BOB, &DOT, &KSM).base_amount, 0);
    assert_eq!(amm.pools(&KSM, &DOT), None);
}

#[test]
fn adding_keeps_the_price() {
    let mut amm = with_pool(1_000, 2_000);
    let receipt = amm
        .add_liquidity(Origin::Signed(BOB), (DOT, KSM), (500, 3_000), (500, 900), 1_414)
        .unwrap();
    assert_eq!(
        receipt.calls,
        vec![
            CurrencyCall::Deposit { currency_id: shares(), who: BOB, amount: 707 },
            transfer(DOT, BOB, pool_account(), 500),
            transfer(KSM, BOB, pool_account(), 1_000),
        ]
    );
    assert_eq!(receipt.weight, PostWeight::AddLiquidityNonExistingPool);
    assert_eq!(amm.pools(&DOT, &KSM), Some(liquidity(1_500, 3_000)));
    assert_eq!(amm.liquidity_providers(&BOB, &DOT, &KSM), liquidity(500, 1_000));
    assert_eq!(amm.liquidity_providers(&ALICE, &DOT, &KSM), liquidity(1_000, 2_000));
}

#[test]
fn adding_too_much_of_the_base_uses_less_of_it() {
    let mut amm = with_pool(1_000, 2_000);
    let receipt =
        amm.add_liquidity(Origin::Signed(BOB), (KSM, DOT), (100, 900), (0, 0), 1_000).unwrap();
    assert_eq!(
        receipt.calls,
        vec![
            CurrencyCall::Deposit { currency_id: shares(), who: BOB, amount: 50 },
            transfer(DOT, BOB, pool_account(), 50),
            transfer(KSM, BOB, pool_account(), 100),
        ]
    );
}

#[test]
fn a_worse_price_than_asked_for_is_refused() {
    let mut amm = with_pool(1_000, 2_000);
    let before = with_pool(1_000, 2_000);
    let r = amm.add_liquidity(Origin::Signed(BOB), (DOT, KSM), (500, 3_000), (500, 1_001), 1_414);
    assert_eq!(r, Err(amm_error(Error::NotAIdealPriceRatio)));
    assert_eq!(amm, before);
}

#[test]
fn adding_to_an_empty_side_or_past_the_limit_overflows() {
    let mut amm = with_pool(5, 0);
    let r = amm.add_liquidity(Origin::Signed(BOB), (DOT, KSM), (5, 5), (0, 0), 0);
    assert_eq!(r, Err(Refusal::Arithmetic(ArithmeticError::Overflow)));
    let mut amm = with_pool(u128::MAX, 1);
    let r = amm.add_liquidity(Origin::Signed(BOB), (DOT, KSM), (1, 1), (0, 0), 0);
    assert_eq!(r, Err(Refusal::Arithmetic(ArithmeticError::Overflow)));
}

#[test]
fn liquidity_needs_a_signer_and_tokens() {
    let mut amm = pallet();
    let r = amm.add_liquidity(Origin::Root, (DOT, KSM), (1, 1), (0, 0), 0);
    assert_eq!(r, Err(Refusal::BadOrigin));
    let r = amm.add_liquidity(Origin::Signed(BOB), (DOT, shares()), (1, 1), (0, 0), 0);
    assert_eq!(r, Err(amm_error(Error::InvalidCurrencyId)));
    let r = amm.remove_liquidity(Origin::Unsigned, (DOT, KSM), 1, 1, 1);
    assert_eq!(r, Err(Refusal::BadOrigin));
    let r = amm.remove_liquidity(Origin::Signed(BOB), (shares(), KSM), 1, 1, 1);
    assert_eq!(r, Err(amm_error(Error::InvalidCurrencyId)));
}

#[test]
fn users_open_pools_only_where_allowed() {
    let mut amm = pallet();
    amm.config.allow_permissionless_pool_creation = false;
    let r = amm.add_liquidity(Origin::Signed(ALICE), (DOT, KSM), (1, 1), (0, 0), 0);
    assert_eq!(r, Err(amm_error(Error::PoolCreationDisabled)));
    let receipt =
        amm.force_create_pool(Origin::Root, (KSM, DOT), (40, 10), BOB).unwrap();
    assert_eq!(
        receipt.calls,
        vec![
            CurrencyCall::Deposit { currency_id: shares(), who: BOB, amount: 20 },
            transfer(DOT, BOB, pool_account(), 10),
            transfer(KSM, BOB, pool_account(), 40),
        ]
    );
    assert_eq!(receipt.event, Event::LiquidityAdded(BOB, DOT, KSM));
    assert_eq!(receipt.weight, PostWeight::Declared);
    assert_eq!(amm.pools(&DOT, &KSM), Some(liquidity(10, 40)));
}

#[test]
fn force_creation_is_for_root_and_for_new_pools() {
    let mut amm = with_pool(1, 1);
    let r = amm.force_create_pool(Origin::Signed(ALICE), (DOT, USDT), (1, 1), BOB);
    assert_eq!(r, Err(Refusal::BadOrigin));
    let r = amm.force_create_pool(Origin::Root, (KSM, DOT), (1, 1), BOB);
    assert_eq!(r, Err(amm_error(Error::PoolAlreadyExists)));
    let r = amm.force_create_pool(Origin::Root, (KSM, shares()), (1, 1), BOB);
    assert_eq!(r, Err(amm_error(Error::InvalidCurrencyId)));
}

#[test]
fn removing_a_part_leaves_the_rest_in_the_pool() {
    let mut amm = with_pool(1_000, 2_000);
    let receipt =
        amm.remove_liquidity(Origin::Signed(ALICE), (KSM, DOT), 707, 1_414, 1_414).unwrap();
    assert_eq!(
        receipt.calls,
        vec![
            CurrencyCall::Withdraw { currency_id: shares(), who: ALICE, amount: 707 },
            transfer(DOT, pool_account(), ALICE, 500),
            transfer(KSM, pool_account(), ALICE, 1_000),
        ]
    );
    assert_eq!(receipt.event, Event::LiquidityRemoved(ALICE, DOT, KSM));
    assert_eq!(amm.pools(&DOT, &KSM), Some(liquidity(500, 1_000)));
    assert_eq!(amm.liquidity_providers(&ALICE, &DOT, &KSM), liquidity(500, 1_000));
}

#[test]
fn removing_rounds_in_favour_of_the_pool() {
    let mut amm = with_pool(1_000, 2_000);
    let receipt =
        amm.remove_liquidity(Origin::Signed(ALICE), (DOT, KSM), 100, 100, 1_414).unwrap();
    assert_eq!(receipt.calls[1], transfer(DOT, pool_account(), ALICE, 70));
    assert_eq!(receipt.calls[2], transfer(KSM, pool_account(), ALICE, 141));
    assert_eq!(amm.pools(&DOT, &KSM), Some(liquidity(930, 1_859)));
    assert!(amm.trade(&BOB, (KSM, DOT), 2_000, 0).is_ok());
}

#[test]
fn removing_is_refused_without_a_pool_or_the_ownership() {
    let mut amm = with_pool(1_000, 2_000);
    let r = amm.remove_liquidity(Origin::Signed(ALICE), (USDT, DOT), 1, 1, 1);
    assert_eq!(r, Err(amm_error(Error::PoolDoesNotExist)));
    let r = amm.remove_liquidity(Origin::Signed(ALICE), (DOT, KSM), 1_415, 1_414, 1_414);
    assert_eq!(r, Err(amm_error(Error::MoreLiquidity)));
    let r = amm.remove_liquidity(Origin::Signed(ALICE), (DOT, KSM), 707, 706, 1_414);
    assert_eq!(r, Err(amm_error(Error::MoreLiquidity)));
    let r = amm.remove_liquidity(Origin::Signed(BOB), (DOT, KSM), 1, 0, 1_414);
    assert_eq!(r, Err(amm_error(Error::MoreLiquidity)));
    let r = amm.remove_liquidity(Origin::Signed(ALICE), (DOT, KSM), 0, 0, 0);
    assert_eq!(r, Err(Refusal::Arithmetic(ArithmeticError::Underflow)));
    // shares that came from another provider
    let r = amm.remove_liquidity(Origin::Signed(BOB), (DOT, KSM), 707, 707, 1_414);
    assert_eq!(r, Err(Refusal::Arithmetic(ArithmeticError::Underflow)));
    assert_eq!(amm, with_pool(1_000, 2_000));
}

#[test]
fn trading_takes_fees_and_moves_the_price() {
    let mut amm = with_pool(1_000_000, 2_000_000);
    let (amount_out, receipt) = amm.trade(&BOB, (KSM, DOT), 10_000, 4_957).unwrap();
    assert_eq!(amount_out, 4_957);
    assert_eq!(
        receipt.calls,
        vec![
            transfer(KSM, BOB, pool_account(), 9_995),
            transfer(DOT, pool_account(), BOB, 4_957),
            transfer(KSM, BOB, TREASURY, 5),
        ]
    );
    assert_eq!(receipt.event, Event::Trade(BOB, KSM, DOT, FixedU128::from_inner(0)));
    assert_eq!(amm.pools(&DOT, &KSM), Some(liquidity(995_043, 2_009_995)));
    assert_eq!(
        amm.liquidity_providers(&ALICE, &DOT, &KSM),
        liquidity(1_000_000, 2_000_000)
    );
}

#[test]
fn trading_the_other_way_reports_the_whole_rate() {
    let mut amm = with_pool(1_000_000, 3_000_000);
    let (amount_out, receipt) = amm.trade(&BOB, (DOT, KSM), 10_000, 0).unwrap();
    // 9965 * 3000000 / 1009965
    assert_eq!(amount_out, 29_600);
    assert_eq!(receipt.event, Event::Trade(BOB, DOT, KSM, FixedU128::from_inner(2 * DIV)));
    assert_eq!(amm.pools(&DOT, &KSM), Some(liquidity(1_009_995, 2_970_400)));
}

#[test]
fn the_product_of_the_reserves_never_shrinks() {
    let mut amm = with_pool(1_000_003, 2_000_017);
    let mut product: u128 = 1_000_003 * 2_000_017;
    let mut amount: u128 = 2_000;
    while amount < 900_000 {
        amm.trade(&BOB, (KSM, DOT), amount, 0).unwrap();
        amm.trade(&BOB, (DOT, KSM), amount / 2 + 2_000, 0).unwrap();
        let pool = amm.pools(&DOT, &KSM).unwrap();
        let after = pool.base_amount * pool.quote_amount;
        assert!(after >= product);
        product = after;
        amount += 7_919;
    }
}

#[test]
fn trades_are_refused() {
    let mut amm = with_pool(1_000_000, 2_000_000);
    let r = amm.trade(&BOB, (KSM, shares()), 10_000, 0);
    assert_eq!(r, Err(amm_error(Error::InvalidCurrencyId)));
    let r = amm.trade(&BOB, (KSM, USDT), 10_000, 0);
    assert_eq!(r, Err(amm_error(Error::PoolDoesNotExist)));
    let r = amm.trade(&BOB, (KSM, DOT), 332, 0);
    assert_eq!(r, Err(amm_error(Error::InsufficientAmountIn)));
    let r = amm.trade(&BOB, (KSM, DOT), 1_999, 0);
    assert_eq!(r, Err(amm_error(Error::InsufficientAmountIn)));
    let r = amm.trade(&BOB, (KSM, DOT), 10_000, 4_958);
    assert_eq!(r, Err(amm_error(Error::InsufficientAmountOut)));
    assert_eq!(amm, with_pool(1_000_000, 2_000_000));
    assert!(amm.trade(&BOB, (KSM, DOT), 2_000, 0).is_ok());
}

#[test]
fn trades_past_the_limit_overflow() {
    let mut amm = with_pool(1_000_000, u128::MAX);
    let r = amm.trade(&BOB, (KSM, DOT), 10_000, 0);
    assert_eq!(r, Err(Refusal::Arithmetic(ArithmeticError::Overflow)));
    // what is traded fits, what the pool keeps does not
    let mut amm = with_pool(1_000_000, u128::MAX - 9_970);
    let r = amm.trade(&BOB, (KSM, DOT), 10_000, 0);
    assert_eq!(r, Err(Refusal::Arithmetic(ArithmeticError::Overflow)));
    let mut amm = with_pool(1_000_000, u128::MAX - 9_995);
    assert!(amm.trade(&BOB, (KSM, DOT), 10_000, 0).is_ok());
}

#[test]
fn a_trade_costs_at_least_one_unit_of_the_lp_fee() {
    let mut amm = with_pool(10_000, 10_000);
    amm.config.protocol_fee = Perbill::from_parts(10_000_000);
    let r = amm.trade(&BOB, (DOT, KSM), 333, 0);
    assert_eq!(r, Err(amm_error(Error::InsufficientAmountIn)));
    assert_eq!(amm.pools(&DOT, &KSM), Some(liquidity(10_000, 10_000)));
    let (amount_out, receipt) = amm.trade(&BOB, (DOT, KSM), 334, 0).unwrap();
    // 334 without 1 for the pool and 3 for the protocol
    assert_eq!(amount_out, 319);
    assert_eq!(receipt.calls[0], transfer(DOT, BOB, pool_account(), 331));
    assert_eq!(receipt.calls[2], transfer(DOT, BOB, TREASURY, 3));
}

#[test]
fn the_protocol_fee_may_round_to_nothing() {
    let mut amm = with_pool(1_000_000, 2_000_000);
    amm.config.lp_fee = Perbill::from_parts(10_000_000);
    amm.config.protocol_fee = Perbill::from_parts(3_000_000);
    let r = amm.trade(&BOB, (KSM, DOT), 332, 0);
    assert_eq!(r, Err(amm_error(Error::InsufficientAmountIn)));
    let (_, receipt) = amm.trade(&BOB, (KSM, DOT), 333, 0).unwrap();
    assert_eq!(receipt.calls[2], transfer(KSM, BOB, TREASURY, 0));
    let (_, receipt) = amm.trade(&BOB, (KSM, DOT), 334, 0).unwrap();
    assert_eq!(receipt.calls[2], transfer(KSM, BOB, TREASURY, 1));
}

#[test]
fn trading_there_and_back_gains_nothing() {
    let mut amm = with_pool(1_000_000, 2_000_000);
    let (there, _) = amm.trade(&BOB, (KSM, DOT), 10_000, 0).unwrap();
    assert_eq!(there, 4_957);
    let (back, _) = amm.trade(&BOB, (DOT, KSM), there, 0).unwrap();
    assert_eq!(back, 9_931);
}

#[test]
fn fees_over_the_whole_underflow() {
    let mut amm = with_pool(1_000, 2_000);
    amm.config.lp_fee = Perbill::from_parts(600_000_000);
    amm.config.protocol_fee = Perbill::from_parts(600_000_000);
    let r = amm.trade(&BOB, (KSM, DOT), 100, 0);
    assert_eq!(r, Err(Refusal::Arithmetic(ArithmeticError::Underflow)));
}

#[test]
fn an_empty_pool_without_an_amount_underflows() {
    let mut amm = with_pool(0, 0);
    amm.config.lp_fee = Perbill::from_parts(500_000_000);
    amm.config.protocol_fee = Perbill::from_parts(500_000_000);
    let r = amm.trade(&BOB, (KSM, DOT), 100, 0);
    assert_eq!(r, Err(Refusal::Arithmetic(ArithmeticError::Underflow)));
}

#[test]
fn adding_and_removing_gains_nothing() {
    let mut amm = with_pool(1_009, 2_003);
    let receipt =
        amm.add_liquidity(Origin::Signed(BOB), (DOT, KSM), (100, 1_000), (0, 0), 1_421).unwrap();
    // 198 of the quote asset, and the smaller of 140 and 140 shares
    assert_eq!(
        receipt.calls[0],
        CurrencyCall::Deposit { currency_id: shares(), who: BOB, amount: 140 }
    );
    assert_eq!(receipt.calls[2], transfer(KSM, BOB, pool_account(), 198));
    let receipt = amm.remove_liquidity(Origin::Signed(BOB), (DOT, KSM), 140, 140, 1_561).unwrap();
    assert_eq!(receipt.calls[1], transfer(DOT, pool_account(), BOB, 99));
    assert_eq!(receipt.calls[2], transfer(KSM, pool_account(), BOB, 197));
}

#[test]
fn removing_everything_takes_the_pool() {
    let mut amm = with_pool(1_000, 2_000);
    let receipt =
        amm.remove_liquidity(Origin::Signed(ALICE), (DOT, KSM), 1_414, 1_414, 1_414).unwrap();
    assert_eq!(receipt.calls[1], transfer(DOT, pool_account(), ALICE, 1_000));
    assert_eq!(receipt.calls[2], transfer(KSM, pool_account(), ALICE, 2_000));
    assert_eq!(amm.pools(&DOT, &KSM), None);
    assert_eq!(amm.liquidity_providers(&ALICE, &DOT, &KSM), liquidity(0, 0));
    // the pool can be opened again
    let opened = amm.add_liquidity(Origin::Signed(BOB), (DOT, KSM), (5, 5), (0, 0), 0);
    assert!(opened.is_ok());
}
