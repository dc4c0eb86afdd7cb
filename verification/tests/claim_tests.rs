use incentives_vester::account::{Bucket, DummyAccount};
use incentives_vester::errors::VestError;
use incentives_vester::vester::IncentivesVester;

const ONE: u64 = 1_000_000_000_000;
const TOKEN: u64 = 1;
const LP: u64 = 2;

/// A vester funded with 10000 tokens and finalized at time 0.
fn claim_funded_vester() -> IncentivesVester {
    let mut v = IncentivesVester::instantiate(365, ONE / 10, 604800, TOKEN, LP).unwrap();
    v.create_pool_units(Bucket { resource: TOKEN, amount: 10000 * ONE }).unwrap();
    v.finish_setup(0).unwrap();
    v
}

#[test]
fn test_claim_delivers_lp_tokens() {
    let mut v = claim_funded_vester();
    let mut account = DummyAccount::instantiate_account(200);

    v.claim(5000 * ONE, &mut account).unwrap();

    assert_eq!(account.balance(LP), 5000 * ONE);
    assert_eq!(v.get_lp_token_amount(), 5000 * ONE);
}

#[test]
fn test_claim_before_setup_fails() {
    let mut v = IncentivesVester::instantiate(365, ONE / 10, 604800, TOKEN, LP).unwrap();
    v.create_pool_units(Bucket { resource: TOKEN, amount: 10000 * ONE }).unwrap();
    let mut account = DummyAccount::instantiate_account(201);

    let result = v.claim(5000 * ONE, &mut account);
    assert_eq!(result, Err(VestError::SchedulePending));
    assert_eq!(account.balance(LP), 0);
}

#[test]
fn test_claim_zero_amount_fails() {
    let mut v = claim_funded_vester();
    let mut account = DummyAccount::instantiate_account(202);

    let result = v.claim(0, &mut account);
    assert_eq!(result, Err(VestError::InvalidAmount));
}

#[test]
fn test_claim_twice_same_identity_fails() {
    let mut v = claim_funded_vester();
    let mut account = DummyAccount::instantiate_account(203);

    v.claim(1000 * ONE, &mut account).unwrap();

    // A second distribution to the same identity is rejected, whatever the
    // amount, and delivers nothing.
    let again = v.claim(1000 * ONE, &mut account);
    assert_eq!(again, Err(VestError::AlreadyClaimed));
    let other_amount = v.claim(1, &mut account);
    assert_eq!(other_amount, Err(VestError::AlreadyClaimed));

    assert_eq!(account.balance(LP), 1000 * ONE);
    assert_eq!(v.get_lp_token_amount(), 9000 * ONE);
}

#[test]
fn test_claim_distinct_identities_accepted() {
    let mut v = claim_funded_vester();
    let mut first = DummyAccount::instantiate_account(204);
    let mut second = DummyAccount::instantiate_account(205);

    v.claim(1000 * ONE, &mut first).unwrap();
    v.claim(2000 * ONE, &mut second).unwrap();

    assert_eq!(first.balance(LP), 1000 * ONE);
    assert_eq!(second.balance(LP), 2000 * ONE);
    assert_eq!(v.get_lp_token_amount(), 7000 * ONE);
}

#[test]
fn test_claim_more_than_held_fails() {
    let mut v = claim_funded_vester();
    let mut account = DummyAccount::instantiate_account(206);

    let result = v.claim(10001 * ONE, &mut account);
    assert_eq!(result, Err(VestError::InsufficientShares));

    // The failed claim did not mark the identity: a corrected claim succeeds
    v.claim(10000 * ONE, &mut account).unwrap();
    assert_eq!(account.balance(LP), 10000 * ONE);
}

#[test]
fn test_account_balances_by_resource() {
    let account = DummyAccount::instantiate_account(207);
    assert_eq!(account.balance(LP), 0);
    assert_eq!(account.balance(TOKEN), 0);

    let mut v = claim_funded_vester();
    let mut account = DummyAccount::instantiate_account(208);
    v.claim(4000 * ONE, &mut account).unwrap();

    // Only the share resource was credited
    assert_eq!(account.balance(LP), 4000 * ONE);
    assert_eq!(account.balance(TOKEN), 0);
}

#[test]
fn test_account_withdraw_partial() {
    let mut v = claim_funded_vester();
    let mut account = DummyAccount::instantiate_account(209);
    v.claim(4000 * ONE, &mut account).unwrap();

    let bucket = account.withdraw(LP, 1500 * ONE);
    assert_eq!(bucket, Bucket { resource: LP, amount: 1500 * ONE });
    assert_eq!(account.balance(LP), 2500 * ONE);
}
