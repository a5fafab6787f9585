use pallet_dex::erc20::{Error, Event, Pallet as Erc20};

const TOKEN_0_ID: u32 = 1;
const TOKEN_1_ID: u32 = 2;
const DECIMALS: u32 = 0;

fn new_test_ext() -> Erc20 {
    Erc20::new()
}

/// All that the ledger holds of the accounts and assets in use.
fn snapshot(erc20: &Erc20) -> Vec<u128> {
    let accounts = [0u64, 1, 2, 3];
    let mut held = Vec::new();
    for asset in [TOKEN_0_ID, TOKEN_1_ID] {
        held.push(erc20.get_total_supply(asset));
        held.push(erc20.get_decimals(asset) as u128);
        for account in accounts {
            held.push(erc20.get_balance(account, asset));
            for spender in accounts {
                held.push(erc20.get_allowance((account, spender, asset)));
            }
        }
    }
    held
}

#[test]
fn init_should_work_1() {
    let mut erc20 = new_test_ext();
    assert_eq!(erc20.init(1, TOKEN_0_ID, 1000, DECIMALS), Ok(()));
    assert_eq!(erc20.init(2, TOKEN_1_ID, 999, DECIMALS), Ok(()));
    assert_eq!(erc20.get_balance(1, TOKEN_0_ID), 1000);
    assert_eq!(erc20.get_total_supply(TOKEN_0_ID), 1000);
    assert_eq!(erc20.get_decimals(TOKEN_0_ID), 0);
    assert_eq!(erc20.get_balance(2, TOKEN_1_ID), 999);
    assert_eq!(erc20.get_total_supply(TOKEN_1_ID), 999);
    assert_eq!(erc20.get_decimals(TOKEN_1_ID), 0);
}

#[test]
fn init_should_work_2() {
    let mut erc20 = new_test_ext();
    const DECIMALS_6: u32 = 6;
    const MILLION: u128 = (10 as u128).pow(DECIMALS_6);
    assert_eq!(erc20.init(1, TOKEN_0_ID, 1000, DECIMALS_6), Ok(()));
    assert_eq!(erc20.init(2, TOKEN_1_ID, 999, DECIMALS_6), Ok(()));
    assert_eq!(erc20.get_balance(1, TOKEN_0_ID), 1000 * MILLION);
    assert_eq!(erc20.get_total_supply(TOKEN_0_ID), 1000 * MILLION);
    assert_eq!(erc20.get_decimals(TOKEN_0_ID), DECIMALS_6);
    assert_eq!(erc20.get_balance(2, TOKEN_1_ID), 999 * MILLION);
    assert_eq!(erc20.get_total_supply(TOKEN_1_ID), 999 * MILLION);
    assert_eq!(erc20.get_decimals(TOKEN_1_ID), DECIMALS_6);
}

#[test]
fn init_should_fail() {
    let mut erc20 = new_test_ext();
    assert_eq!(erc20.init(1, TOKEN_0_ID, 1000, DECIMALS), Ok(()));
    assert_eq!(erc20.init(1, TOKEN_1_ID, 1000, DECIMALS), Ok(()));
    let before = snapshot(&erc20);
    assert_eq!(erc20.init(1, TOKEN_0_ID, 1000, DECIMALS), Err(Error::AlreadyInitialized));
    assert_eq!(snapshot(&erc20), before);
    assert_eq!(erc20.get_balance(1, TOKEN_0_ID), 1000);
    assert_eq!(erc20.get_total_supply(TOKEN_0_ID), 1000);
}

#[test]
fn transfer_should_work() {
    let mut erc20 = new_test_ext();
    assert_eq!(erc20.init(1, TOKEN_0_ID, 1000, DECIMALS), Ok(()));
    assert_eq!(erc20.transfer(1, TOKEN_0_ID, 2, 100), Ok(Event::Transfer(1, 2, TOKEN_0_ID, 100)));
    assert_eq!(erc20.get_balance(1, TOKEN_0_ID), 900);
    assert_eq!(erc20.get_balance(2, TOKEN_0_ID), 100);
}

#[test]
fn transfer_should_fail_1() {
    let mut erc20 = new_test_ext();
    assert_eq!(erc20.init(1, TOKEN_0_ID, 1000, DECIMALS), Ok(()));
    let before = snapshot(&erc20);
    assert_eq!(erc20.transfer(1, TOKEN_0_ID, 1, 100), Err(Error::SelfTransfer));
    assert_eq!(snapshot(&erc20), before);
    assert_eq!(erc20.get_balance(1, TOKEN_0_ID), 1000);
}

#[test]
fn transfer_should_fail_2() {
    let mut erc20 = new_test_ext();
    assert_eq!(erc20.init(1, TOKEN_0_ID, 1000, DECIMALS), Ok(()));
    let before = snapshot(&erc20);
    assert_eq!(erc20.transfer(1, TOKEN_0_ID, 2, 1001), Err(Error::InsufficientFunds));
    assert_eq!(snapshot(&erc20), before);
    assert_eq!(erc20.get_balance(1, TOKEN_0_ID), 1000);
    assert_eq!(erc20.get_balance(2, TOKEN_0_ID), 0);
}

#[test]
fn transfer_should_fail_3() {
    let mut erc20 = new_test_ext();
    assert_eq!(erc20.init(1, TOKEN_0_ID, 1000, DECIMALS), Ok(()));
    let before = snapshot(&erc20);
    assert_eq!(erc20.transfer(1, TOKEN_0_ID, 2, 0), Err(Error::ZeroTransfer));
    assert_eq!(snapshot(&erc20), before);
}

#[test]
fn approve_should_work() {
    let mut erc20 = new_test_ext();
    assert_eq!(erc20.init(1, TOKEN_0_ID, 1000, DECIMALS), Ok(()));
    assert_eq!(erc20.approve(1, TOKEN_0_ID, 2, 400), Ok(Event::Approval(1, 2, TOKEN_0_ID, 400)));
    assert_eq!(erc20.get_allowance((1, 2, TOKEN_0_ID)), 400);
}

#[test]
fn transfer_from_should_work() {
    let mut erc20 = new_test_ext();
    assert_eq!(erc20.init(1, TOKEN_0_ID, 1000, DECIMALS), Ok(()));
    assert!(erc20.approve(1, TOKEN_0_ID, 2, 400).is_ok());
    assert_eq!(erc20.get_allowance((1, 2, TOKEN_0_ID)), 400);
    assert_eq!(
        erc20.transfer_from(3, TOKEN_0_ID, 1, 2, 200),
        Ok(Event::Transfer(1, 2, TOKEN_0_ID, 200))
    );
    assert_eq!(erc20.get_balance(1, TOKEN_0_ID), 800);
    assert_eq!(erc20.get_allowance((1, 2, TOKEN_0_ID)), 200);
    assert_eq!(erc20.get_balance(2, TOKEN_0_ID), 200);
}

#[test]
fn transfer_from_should_fail_1() {
    let mut erc20 = new_test_ext();
    assert_eq!(erc20.init(1, TOKEN_0_ID, 1000, DECIMALS), Ok(()));
    assert!(erc20.approve(1, TOKEN_0_ID, 2, 400).is_ok());
    let before = snapshot(&erc20);
    assert_eq!(erc20.transfer_from(3, TOKEN_0_ID, 1, 2, 500), Err(Error::InsufficientAllowance));
    assert_eq!(snapshot(&erc20), before);
    assert_eq!(erc20.get_balance(1, TOKEN_0_ID), 1000);
    assert_eq!(erc20.get_balance(2, TOKEN_0_ID), 0);
    assert_eq!(erc20.get_allowance((1, 2, TOKEN_0_ID)), 400);
}

#[test]
fn transfer_from_should_fail_2() {
    let mut erc20 = new_test_ext();
    assert_eq!(erc20.init(1, TOKEN_0_ID, 1000, DECIMALS), Ok(()));
    assert!(erc20.approve(1, TOKEN_0_ID, 2, 400).is_ok());
    assert!(erc20.transfer(1, TOKEN_0_ID, 3, 1000).is_ok());
    let before = snapshot(&erc20);
    assert_eq!(erc20.transfer_from(3, TOKEN_0_ID, 1, 2, 100), Err(Error::InsufficientFunds));
    assert_eq!(snapshot(&erc20), before);
    assert_eq!(erc20.get_allowance((1, 2, TOKEN_0_ID)), 400);
}

#[test]
fn transfer_from_should_fail_3() {
    let mut erc20 = new_test_ext();
    assert_eq!(erc20.init(1, TOKEN_0_ID, 1000, DECIMALS), Ok(()));
    assert!(erc20.approve(1, TOKEN_0_ID, 2, 400).is_ok());
    let before = snapshot(&erc20);
    assert_eq!(erc20.transfer_from(3, TOKEN_0_ID, 1, 2, 0), Err(Error::ZeroTransfer));
    assert_eq!(snapshot(&erc20), before);
}
