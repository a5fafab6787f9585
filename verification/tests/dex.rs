use pallet_dex::dex::{DispatchError, Error, Pallet as Dex};
use pallet_dex::erc20::Pallet as Erc20;
use pallet_dex::ratio::Ratio;
use pallet_dex::traits::{LedgerError, MultiErc20};

const TOKEN_1_ID: u32 = 1;
const TOKEN_2_ID: u32 = 2;
const DECIMALS: u32 = 6;
const MIL: u128 = (10 as u128).pow(DECIMALS);

const POOL: u64 = 101;
const ALICE: u64 = 1;
const BOB: u64 = 2;
const CHARLIE: u64 = 3;
const MARRY: u64 = 5;
const JOHN: u64 = 6;

struct Runtime {
    erc20: Erc20,
    dex: Dex,
}

fn new_test_ext() -> Runtime {
    Runtime { erc20: Erc20::new(), dex: Dex::new() }
}

fn init_tokens(rt: &mut Runtime, total_supply: u128) {
    assert!(rt.erc20.init(ALICE, TOKEN_1_ID, total_supply, DECIMALS).is_ok());
    assert!(rt.erc20.init(ALICE, TOKEN_2_ID, total_supply, DECIMALS).is_ok());
}

fn approve(rt: &mut Runtime, address: u64, amount: u128) {
    assert!(rt.erc20.approve(address, TOKEN_1_ID, POOL, amount * MIL).is_ok());
    assert!(rt.erc20.approve(address, TOKEN_2_ID, POOL, amount * MIL).is_ok());
}

fn transfer(rt: &mut Runtime, from: u64, to: u64, amount: u128) {
    assert!(rt.erc20.transfer(from, TOKEN_1_ID, to, amount * MIL).is_ok());
    assert!(rt.erc20.transfer(from, TOKEN_2_ID, to, amount * MIL).is_ok());
}

fn init_dex(rt: &mut Runtime, amount_0: u128, amount_1: u128) {
    assert!(rt
        .dex
        .init(&mut rt.erc20, ALICE, POOL, TOKEN_1_ID, amount_0 * MIL, TOKEN_2_ID, amount_1 * MIL)
        .is_ok());
}

/// All that the ledger and the pool hold of the accounts and assets in use.
#[derive(Debug, PartialEq)]
struct Snapshot {
    supplies: Vec<(u128, u32)>,
    balances: Vec<u128>,
    grants: Vec<u128>,
    pool_address: Option<u64>,
    token_ids: Option<(u32, u32)>,
    total_liquidity: Option<u128>,
    liquidity: Vec<u128>,
}

fn snapshot(rt: &Runtime) -> Snapshot {
    let accounts = [0, ALICE, BOB, CHARLIE, MARRY, JOHN, POOL];
    let assets = [TOKEN_1_ID, TOKEN_2_ID, 3, 4];
    let mut supplies = Vec::new();
    let mut balances = Vec::new();
    let mut grants = Vec::new();
    for asset in assets {
        supplies.push((rt.erc20.get_total_supply(asset), rt.erc20.get_decimals(asset)));
        for account in accounts {
            balances.push(rt.erc20.get_balance(account, asset));
            for spender in accounts {
                grants.push(rt.erc20.get_allowance((account, spender, asset)));
            }
        }
    }
    Snapshot {
        supplies,
        balances,
        grants,
        pool_address: rt.dex.get_pool_address(),
        token_ids: rt.dex.get_token_ids(),
        total_liquidity: rt.dex.get_total_liquidity(),
        liquidity: accounts.iter().map(|account| rt.dex.get_liquidity(*account)).collect(),
    }
}

fn tokens(error: LedgerError) -> DispatchError {
    DispatchError::Tokens(error)
}

fn dex(error: Error) -> DispatchError {
    DispatchError::Dex(error)
}

#[test]
fn init_should_work() {
    let mut rt = new_test_ext();
    let total_supply = 1000;
    init_tokens(&mut rt, total_supply);
    approve(&mut rt, ALICE, total_supply);
    init_dex(&mut rt, 100, 1000);
    assert_eq!(rt.dex.get_pool_address(), Some(POOL));
    assert_eq!(rt.dex.get_token_ids(), Some((TOKEN_1_ID, TOKEN_2_ID)));
    assert_eq!(rt.dex.get_liquidity(ALICE), 1100 * MIL);
    assert_eq!(rt.dex.get_liquidity(BOB), 0);
}

#[test]
fn init_should_fail_0() {
    let mut rt = new_test_ext();
    init_tokens(&mut rt, 1000);
    let before = snapshot(&rt);
    assert_eq!(
        rt.dex.init(&mut rt.erc20, ALICE, POOL, TOKEN_1_ID, 100 * MIL, TOKEN_2_ID, 1000 * MIL),
        Err(tokens(LedgerError::InsufficientAllowance))
    );
    assert_eq!(snapshot(&rt), before);
    assert_eq!(rt.erc20.balance_of(TOKEN_1_ID, &ALICE), Ok(1000 * MIL));
    assert_eq!(rt.erc20.balance_of(TOKEN_1_ID, &POOL), Ok(0));
    assert_eq!(rt.dex.get_pool_address(), None);
}

#[test]
fn init_should_fail_1() {
    let mut rt = new_test_ext();
    init_tokens(&mut rt, 1000);
    assert!(rt.erc20.transfer(ALICE, TOKEN_1_ID, BOB, 1000 * MIL).is_ok());
    approve(&mut rt, ALICE, 1000);
    let before = snapshot(&rt);
    assert_eq!(
        rt.dex.init(&mut rt.erc20, ALICE, POOL, TOKEN_1_ID, 100 * MIL, TOKEN_2_ID, 1000 * MIL),
        Err(tokens(LedgerError::InsufficientFunds))
    );
    assert_eq!(snapshot(&rt), before);
    assert_eq!(rt.dex.get_pool_address(), None);
}

#[test]
fn init_should_fail_2() {
    let mut rt = new_test_ext();
    let before = snapshot(&rt);
    assert_eq!(
        rt.dex.init(&mut rt.erc20, ALICE, POOL, TOKEN_1_ID, 0, TOKEN_2_ID, 0),
        Err(dex(Error::WrongInitialization))
    );
    assert_eq!(snapshot(&rt), before);
}

#[test]
fn init_should_fail_3() {
    let mut rt = new_test_ext();
    let before = snapshot(&rt);
    assert_eq!(
        rt.dex.init(&mut rt.erc20, ALICE, 0, TOKEN_1_ID, 100, TOKEN_2_ID, 1000),
        Err(dex(Error::WrongInitialization))
    );
    assert_eq!(snapshot(&rt), before);
}

#[test]
fn init_should_fail_4() {
    let mut rt = new_test_ext();
    init_tokens(&mut rt, 1000);
    approve(&mut rt, ALICE, 1000);
    let before = snapshot(&rt);
    assert_eq!(
        rt.dex.init(&mut rt.erc20, ALICE, POOL, 3, 100 * MIL, 4, 1000 * MIL),
        Err(tokens(LedgerError::Uninitialized))
    );
    assert_eq!(snapshot(&rt), before);
}

#[test]
fn buy_token_should_work_1() {
    let mut rt = new_test_ext();
    init_tokens(&mut rt, 1000);
    approve(&mut rt, ALICE, 1000);
    init_dex(&mut rt, 100, 1000);
    assert!(rt.dex.buy_token(&mut rt.erc20, ALICE, TOKEN_1_ID, 100 * MIL).is_ok());
    assert_eq!(rt.erc20.balance_of(TOKEN_1_ID, &ALICE), Ok(800000000));
    assert_eq!(rt.erc20.balance_of(TOKEN_2_ID, &ALICE), Ok(497487437)); // 0.99 * 100 * 1000 / (100 + 99) = 497.487437
    assert!(rt.erc20.approve(ALICE, TOKEN_2_ID, POOL, 1000 * MIL).is_ok());
    assert!(rt.dex.buy_token(&mut rt.erc20, ALICE, TOKEN_2_ID, 235 * MIL).is_ok());
    assert_eq!(rt.erc20.balance_of(TOKEN_1_ID, &ALICE), Ok(863292123)); // 0.99 * 235 * 200 / (502.512563 + 232.65) = 63.292123
    assert_eq!(rt.erc20.balance_of(TOKEN_2_ID, &ALICE), Ok(262487437));
}

#[test]
fn buy_token_should_fail() {
    let mut rt = new_test_ext();
    init_tokens(&mut rt, 1000);
    approve(&mut rt, ALICE, 1000);
    init_dex(&mut rt, 100, 1000);
    assert!(rt.dex.withdraw(&mut rt.erc20, ALICE, 100).is_ok()); // 100%
    let before = snapshot(&rt);
    assert_eq!(
        rt.dex.buy_token(&mut rt.erc20, ALICE, TOKEN_1_ID, 1 * MIL),
        Err(dex(Error::NoLiquidity))
    );
    assert_eq!(snapshot(&rt), before);
}

#[test]
fn deposit_should_work_1() {
    let mut rt = new_test_ext();
    init_tokens(&mut rt, 1000);
    approve(&mut rt, ALICE, 1000);
    transfer(&mut rt, ALICE, BOB, 300);
    approve(&mut rt, BOB, 1000);
    init_dex(&mut rt, 100, 200); // 100x200
    assert!(rt.dex.deposit(&mut rt.erc20, BOB, TOKEN_1_ID, 100 * MIL).is_ok());
    assert_eq!(rt.dex.get_liquidity(BOB), 300_000_000);
    assert_eq!(rt.erc20.balance_of(TOKEN_1_ID, &POOL), Ok(200_000_000));
    assert_eq!(rt.erc20.balance_of(TOKEN_2_ID, &POOL), Ok(400_000_000));
    assert!(rt.dex.deposit(&mut rt.erc20, BOB, TOKEN_2_ID, 50 * MIL).is_ok());
    assert_eq!(rt.dex.get_liquidity(BOB), 375_000_000);
    assert_eq!(rt.erc20.balance_of(TOKEN_1_ID, &POOL), Ok(225_000_000));
    assert_eq!(rt.erc20.balance_of(TOKEN_2_ID, &POOL), Ok(450_000_000));
}

#[test]
fn withdraw_should_work_1() {
    let mut rt = new_test_ext();
    init_tokens(&mut rt, 1100);
    approve(&mut rt, ALICE, 1000);
    transfer(&mut rt, ALICE, BOB, 100);
    approve(&mut rt, BOB, 1000);
    init_dex(&mut rt, 100, 1000);
    assert!(rt.dex.buy_token(&mut rt.erc20, BOB, TOKEN_1_ID, 100 * MIL).is_ok()); // 0.99 * 100 * 1000 / (100 + 99) = 497.487437
    assert!(rt.dex.withdraw(&mut rt.erc20, ALICE, 15).is_ok()); // 15%
    assert_eq!(rt.erc20.balance_of(TOKEN_1_ID, &ALICE), Ok(930_000_000)); // 800 + 200 * 0.15 = 830
    assert_eq!(rt.erc20.balance_of(TOKEN_2_ID, &ALICE), Ok(753_768_84)); // 0 + 502.512563 * 0.15 = 575.376884
    assert_eq!(rt.dex.get_liquidity(ALICE), 935_000_000); // ~ 1100 * 0.85 = 935
}

#[test]
fn withdraw_should_work_2() {
    let mut rt = new_test_ext();
    init_tokens(&mut rt, 1100);
    approve(&mut rt, ALICE, 1000);
    transfer(&mut rt, ALICE, BOB, 100);
    approve(&mut rt, BOB, 1000);
    init_dex(&mut rt, 100, 1000);
    assert!(rt.dex.buy_token(&mut rt.erc20, BOB, TOKEN_1_ID, 100 * MIL).is_ok());
    assert_eq!(rt.erc20.balance_of(TOKEN_1_ID, &POOL), Ok(200_000_000));
    assert_eq!(rt.erc20.balance_of(TOKEN_2_ID, &POOL), Ok(502_512_563));
    assert_eq!(rt.dex.get_liquidity(ALICE), 1100 * MIL);
    assert!(rt.dex.withdraw(&mut rt.erc20, ALICE, 90).is_ok());
    assert_eq!(rt.erc20.balance_of(TOKEN_1_ID, &ALICE), Ok(1080_000_000));
    assert_eq!(rt.erc20.balance_of(TOKEN_2_ID, &ALICE), Ok(452_261_306)); // 502.512563 * 0.9 = 452.2613067, rounded down
    assert_eq!(rt.dex.get_liquidity(ALICE), 110_000_000);
}

#[test]
fn withdraw_single_token_should_work_1() {
    let mut rt = new_test_ext();
    init_tokens(&mut rt, 1000);
    approve(&mut rt, ALICE, 1000);
    init_dex(&mut rt, 100, 100);
    assert_eq!(rt.dex.get_liquidity(ALICE), 200 * MIL);
    // withdraw 50% of token_1 and buy token_1 for 50% of token_2 share
    assert!(rt.dex.withdraw_single_token(&mut rt.erc20, ALICE, TOKEN_1_ID, 50).is_ok()); // 50 + 0.99 * 50 * 50 / (100 + 0.99 * 50) = 50 + 16.555183
    assert_eq!(rt.erc20.balance_of(TOKEN_1_ID, &POOL), Ok(334_448_17));
    assert_eq!(rt.erc20.balance_of(TOKEN_2_ID, &POOL), Ok(100_000_000));
    assert_eq!(rt.erc20.balance_of(TOKEN_1_ID, &ALICE), Ok(966_555_183));
    assert_eq!(rt.erc20.balance_of(TOKEN_2_ID, &ALICE), Ok(900_000_000));
    assert_eq!(rt.dex.get_liquidity(ALICE), 100_000_000);
    assert!(rt.dex.withdraw(&mut rt.erc20, ALICE, 100).is_ok());
    assert_eq!(rt.erc20.balance_of(TOKEN_1_ID, &POOL), Ok(0)); // 33.444817
    assert_eq!(rt.erc20.balance_of(TOKEN_2_ID, &POOL), Ok(0));
    assert_eq!(rt.erc20.balance_of(TOKEN_1_ID, &ALICE), Ok(1000_000_000));
    assert_eq!(rt.erc20.balance_of(TOKEN_2_ID, &ALICE), Ok(1000_000_000));
}

#[test]
fn withdraw_single_token_should_work_2() {
    let mut rt = new_test_ext();
    init_tokens(&mut rt, 200);
    approve(&mut rt, ALICE, 200);
    transfer(&mut rt, ALICE, BOB, 100);
    approve(&mut rt, BOB, 200);
    init_dex(&mut rt, 100, 100);
    assert!(rt.dex.deposit(&mut rt.erc20, BOB, TOKEN_1_ID, 100 * MIL).is_ok());
    assert_eq!(rt.erc20.balance_of(TOKEN_1_ID, &POOL), Ok(200_000_000));
    assert_eq!(rt.erc20.balance_of(TOKEN_2_ID, &POOL), Ok(200_000_000));
    assert_eq!(rt.dex.get_pool_share(&ALICE), Ratio::from_percent(50));
    assert_eq!(rt.dex.get_pool_share(&BOB), Ratio::from_percent(50));
    // withdraw 50% of token_1 and buy token_1 for 50% of token_2 share
    assert!(rt.dex.withdraw_single_token(&mut rt.erc20, ALICE, TOKEN_1_ID, 75).is_ok()); // 75 + 0.99 * 75 * 125 / (200 + 0.99 * 75) = 75 + 33.842297
    assert_eq!(rt.erc20.balance_of(TOKEN_1_ID, &POOL), Ok(91_157_703)); // 91.157703
    assert_eq!(rt.erc20.balance_of(TOKEN_2_ID, &POOL), Ok(200_000_000));
    assert_eq!(rt.erc20.balance_of(TOKEN_1_ID, &ALICE), Ok(108_842_297));
    assert_eq!(rt.erc20.balance_of(TOKEN_2_ID, &ALICE), Ok(0));
    assert_eq!(rt.dex.get_pool_share(&ALICE), Ratio::from_percent(20));
    assert_eq!(rt.dex.get_pool_share(&BOB), Ratio::from_percent(80));
    assert!(rt.dex.withdraw(&mut rt.erc20, BOB, 100).is_ok());
    assert!(rt.dex.buy_token(&mut rt.erc20, BOB, TOKEN_2_ID, 50 * MIL).is_ok());
    assert_eq!(rt.dex.get_pool_share(&ALICE), Ratio::from_percent(100));
}

#[test]
fn withdraw_should_fail() {
    let mut rt = new_test_ext();
    init_tokens(&mut rt, 1000);
    approve(&mut rt, ALICE, 1000);
    init_dex(&mut rt, 100, 1000);
    assert!(rt.dex.buy_token(&mut rt.erc20, ALICE, TOKEN_1_ID, 100 * MIL).is_ok()); // 100x1000 => 200x500
    assert_eq!(rt.dex.get_liquidity(ALICE), 1100 * MIL);
    let before = snapshot(&rt);
    assert_eq!(rt.dex.withdraw(&mut rt.erc20, ALICE, 0), Err(dex(Error::WrongShareValue)));
    assert_eq!(snapshot(&rt), before);
    assert_eq!(rt.dex.withdraw(&mut rt.erc20, ALICE, 101), Err(dex(Error::WrongShareValue)));
    assert_eq!(snapshot(&rt), before);
    assert_eq!(rt.dex.get_liquidity(ALICE), 1100 * MIL);
    assert_eq!(rt.erc20.balance_of(TOKEN_1_ID, &POOL), Ok(200_000_000));
}

#[test]
fn deposit_withdraw_should_work_1() {
    let mut rt = new_test_ext();
    init_tokens(&mut rt, 1000);
    approve(&mut rt, ALICE, 1000);
    transfer(&mut rt, ALICE, BOB, 200);
    approve(&mut rt, BOB, 1000);
    init_dex(&mut rt, 100, 200); // 100x200
    assert!(rt.dex.deposit(&mut rt.erc20, BOB, TOKEN_1_ID, 100 * MIL).is_ok());
    assert_eq!(rt.erc20.balance_of(TOKEN_1_ID, &POOL), Ok(200_000_000));
    assert_eq!(rt.erc20.balance_of(TOKEN_2_ID, &POOL), Ok(400_000_000));
    assert!(rt.dex.buy_token(&mut rt.erc20, ALICE, TOKEN_1_ID, 100 * MIL).is_ok());
    assert_eq!(rt.erc20.balance_of(TOKEN_1_ID, &POOL), Ok(300_000_000));
    assert_eq!(rt.erc20.balance_of(TOKEN_2_ID, &POOL), Ok(267_558_529));
    assert_eq!(rt.erc20.balance_of(TOKEN_1_ID, &ALICE), Ok(600_000_000));
    assert_eq!(rt.erc20.balance_of(TOKEN_2_ID, &ALICE), Ok(732_441_471));
    assert_eq!(rt.dex.get_liquidity(ALICE), 300_000_000);
    assert!(rt.dex.withdraw(&mut rt.erc20, ALICE, 50).is_ok()); // 50%
    assert_eq!(rt.erc20.balance_of(TOKEN_1_ID, &ALICE), Ok(675_000_000)); // 600 + 300 * 0.5 * 0.5 = 775
    assert_eq!(rt.erc20.balance_of(TOKEN_2_ID, &ALICE), Ok(799_331_103)); // 733.(3) + 266.(6) * 0.5 * 0.5 = 800
    assert_eq!(rt.dex.get_liquidity(ALICE), 150_000_000); // ~ 300 * 0.5 = 550
}

#[test]
fn deposit_withdraw_should_work_2() {
    let mut rt = new_test_ext();
    init_tokens(&mut rt, 1000);
    approve(&mut rt, ALICE, 1000);
    transfer(&mut rt, ALICE, BOB, 300);
    approve(&mut rt, BOB, 1000);
    init_dex(&mut rt, 100, 200); // 100x200
    assert!(rt.dex.deposit(&mut rt.erc20, BOB, TOKEN_1_ID, 100 * MIL).is_ok());
    assert!(rt.dex.deposit(&mut rt.erc20, BOB, TOKEN_2_ID, 50 * MIL).is_ok());
    assert!(rt.dex.deposit(&mut rt.erc20, ALICE, TOKEN_2_ID, 100 * MIL).is_ok());
    assert_eq!(rt.dex.get_liquidity(BOB), 375_000_000);
    assert_eq!(rt.dex.get_liquidity(ALICE), 450_000_000);
    // 450 of 825 shares are 0.545454545 of the pool, rounded down: one unit of
    // each asset and one share stay behind
    assert!(rt.dex.withdraw(&mut rt.erc20, ALICE, 100).is_ok()); // 100%
    assert_eq!(rt.dex.get_liquidity(ALICE), 1);
    assert_eq!(rt.erc20.balance_of(TOKEN_1_ID, &POOL), Ok(125_000_001));
    assert_eq!(rt.erc20.balance_of(TOKEN_2_ID, &POOL), Ok(250_000_001));
    assert_eq!(rt.erc20.balance_of(TOKEN_1_ID, &ALICE), Ok(699_999_999));
    assert_eq!(rt.erc20.balance_of(TOKEN_2_ID, &ALICE), Ok(699_999_999));
    assert!(rt.dex.withdraw(&mut rt.erc20, BOB, 100).is_ok()); // 100%
    assert_eq!(rt.dex.get_liquidity(BOB), 1);
    assert_eq!(rt.erc20.balance_of(TOKEN_1_ID, &POOL), Ok(1));
    assert_eq!(rt.erc20.balance_of(TOKEN_2_ID, &POOL), Ok(1));
    assert_eq!(rt.erc20.balance_of(TOKEN_1_ID, &BOB), Ok(300_000_000));
    assert_eq!(rt.erc20.balance_of(TOKEN_2_ID, &BOB), Ok(300_000_000));
}

#[test]
fn general_test_1() {
    let mut rt = new_test_ext();
    init_tokens(&mut rt, 3000);
    transfer(&mut rt, ALICE, BOB, 500);
    transfer(&mut rt, ALICE, CHARLIE, 500);
    approve(&mut rt, ALICE, 1000);
    approve(&mut rt, BOB, 500);
    approve(&mut rt, CHARLIE, 500);
    init_dex(&mut rt, 500, 1000); // 500x1000
    assert_eq!(rt.dex.get_total_liquidity().unwrap(), 1500_000_000);

    assert!(rt.dex.buy_token(&mut rt.erc20, BOB, TOKEN_1_ID, 100 * MIL).is_ok()); //600x834.724541
    assert_eq!(rt.dex.get_total_liquidity().unwrap(), 1500_0000_00);
    assert_eq!(rt.erc20.balance_of(TOKEN_1_ID, &POOL), Ok(600_000_000));
    assert_eq!(rt.erc20.balance_of(TOKEN_2_ID, &POOL), Ok(834_724_541));

    assert!(rt.dex.deposit(&mut rt.erc20, BOB, TOKEN_2_ID, 50 * MIL).is_ok());
    assert_eq!(rt.dex.get_total_liquidity().unwrap(), 1585_939_999);
    assert_eq!(rt.erc20.balance_of(TOKEN_1_ID, &POOL), Ok(635_939_999));
    assert_eq!(rt.erc20.balance_of(TOKEN_2_ID, &POOL), Ok(884_724_541));

    assert!(rt.dex.deposit(&mut rt.erc20, CHARLIE, TOKEN_2_ID, 250 * MIL).is_ok());
    assert_eq!(rt.dex.get_total_liquidity().unwrap(), 2015_639_998);
    assert_eq!(rt.erc20.balance_of(TOKEN_1_ID, &POOL), Ok(815_639_998));
    assert_eq!(rt.erc20.balance_of(TOKEN_2_ID, &POOL), Ok(1134_724_541));

    assert!(rt.dex.withdraw(&mut rt.erc20, ALICE, 50).is_ok());
    assert_eq!(rt.dex.get_total_liquidity().unwrap(), 1265_640_000);
    assert_eq!(rt.erc20.balance_of(TOKEN_1_ID, &POOL), Ok(512_148_304));
    assert_eq!(rt.erc20.balance_of(TOKEN_2_ID, &POOL), Ok(712_504_599));

    assert!(rt.dex.buy_token(&mut rt.erc20, ALICE, TOKEN_1_ID, 500 * MIL).is_ok());
    assert_eq!(rt.dex.get_total_liquidity().unwrap(), 1265_640_000);
    assert_eq!(rt.erc20.balance_of(TOKEN_1_ID, &POOL), Ok(1012_148_304));
    assert_eq!(rt.erc20.balance_of(TOKEN_2_ID, &POOL), Ok(362_318_063));

    assert!(rt.dex.withdraw(&mut rt.erc20, CHARLIE, 100).is_ok());
    assert!(rt.dex.withdraw(&mut rt.erc20, BOB, 100).is_ok());
    assert_eq!(rt.dex.get_total_liquidity().unwrap(), 750_000_006);
    assert_eq!(rt.erc20.balance_of(TOKEN_1_ID, &POOL), Ok(599_784_484));
    assert_eq!(rt.erc20.balance_of(TOKEN_2_ID, &POOL), Ok(214_704_458));

    assert!(rt.dex.withdraw(&mut rt.erc20, ALICE, 100).is_ok());
    assert_eq!(rt.dex.get_total_liquidity().unwrap(), 5); // 0.000005
    assert_eq!(rt.erc20.balance_of(TOKEN_1_ID, &POOL), Ok(4));
    assert_eq!(rt.erc20.balance_of(TOKEN_2_ID, &POOL), Ok(2));
    assert_eq!(rt.erc20.balance_of(TOKEN_1_ID, &ALICE), Ok(1903_276_174));
    assert_eq!(rt.erc20.balance_of(TOKEN_2_ID, &ALICE), Ok(1987_110_934));
}

#[test]
fn incentivize_model_test() {
    let mut rt = new_test_ext();
    init_tokens(&mut rt, 5000);
    transfer(&mut rt, ALICE, BOB, 500);
    transfer(&mut rt, ALICE, CHARLIE, 1000);
    transfer(&mut rt, ALICE, MARRY, 1000);
    transfer(&mut rt, ALICE, JOHN, 1000);
    approve(&mut rt, ALICE, 1000);
    approve(&mut rt, BOB, 1000);
    approve(&mut rt, CHARLIE, 1000);
    approve(&mut rt, MARRY, 1000);
    approve(&mut rt, JOHN, 1000);
    init_dex(&mut rt, 1000, 1000);
    assert!(rt.dex.deposit(&mut rt.erc20, BOB, TOKEN_1_ID, 500 * MIL).is_ok());

    assert!(rt.dex.buy_token(&mut rt.erc20, CHARLIE, TOKEN_1_ID, 250 * MIL).is_ok());
    assert!(rt.dex.buy_token(&mut rt.erc20, MARRY, TOKEN_2_ID, 400 * MIL).is_ok());
    assert!(rt.dex.buy_token(&mut rt.erc20, JOHN, TOKEN_1_ID, 100 * MIL).is_ok());
    assert!(rt.dex.buy_token(&mut rt.erc20, CHARLIE, TOKEN_2_ID, 100 * MIL).is_ok());
    assert!(rt.dex.buy_token(&mut rt.erc20, JOHN, TOKEN_2_ID, 500 * MIL).is_ok());
    assert!(rt.dex.buy_token(&mut rt.erc20, MARRY, TOKEN_1_ID, 500 * MIL).is_ok());

    assert_eq!(rt.erc20.balance_of(TOKEN_1_ID, &POOL), Ok(1543_933_772));
    assert_eq!(rt.erc20.balance_of(TOKEN_2_ID, &POOL), Ok(1472_913_599));

    assert_eq!(rt.dex.get_total_reward(&rt.erc20), Ok(16_847_371)); // 16.847371
    assert_eq!(rt.dex.get_liquidity(ALICE), 2000_000_000);
    assert!(rt.dex.withdraw(&mut rt.erc20, ALICE, 100).is_ok());
    // ALICE gained 11.231578 tokens as reward
    assert_eq!(rt.erc20.balance_of(TOKEN_1_ID, &ALICE), Ok(1529_289_180));
    assert_eq!(rt.erc20.balance_of(TOKEN_2_ID, &ALICE), Ok(1481_942_398));
    assert_eq!(rt.dex.get_liquidity(BOB), 1000_000_000);
    assert!(rt.dex.withdraw(&mut rt.erc20, BOB, 100).is_ok());
    // BOB gained 5.615793 tokens as reward
    assert_eq!(rt.erc20.balance_of(TOKEN_1_ID, &BOB), Ok(514_644_590));
    assert_eq!(rt.erc20.balance_of(TOKEN_2_ID, &BOB), Ok(490_971_200));
}
