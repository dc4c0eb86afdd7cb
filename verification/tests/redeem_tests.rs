use incentives_vester::account::{Bucket, DummyAccount};
use incentives_vester::errors::VestError;
use incentives_vester::vester::IncentivesVester;

const ONE: u64 = 1_000_000_000_000;
const TOKEN: u64 = 1;
const LP: u64 = 2;
const DAY: u64 = 86400;
const START: u64 = 604800;

/// A vester configured like the reference scenario (365 days, 10% initial
/// vest, 7-day pre-claim), funded with 10000 tokens and finalized at time 0.
fn redeem_funded_vester() -> IncentivesVester {
    let mut v = IncentivesVester::instantiate(365, ONE / 10, 604800, TOKEN, LP).unwrap();
    v.create_pool_units(Bucket { resource: TOKEN, amount: 10000 * ONE }).unwrap();
    v.finish_setup(0).unwrap();
    v
}

/// Claims `lp_amount` for a fresh account and redeems it at `now`, returning
/// the payout bucket.
fn redeem_claim_and_redeem(
    v: &mut IncentivesVester,
    address: u64,
    lp_amount: u64,
    now: u64,
) -> Bucket {
    let mut account = DummyAccount::instantiate_account(address);
    v.claim(lp_amount, &mut account).unwrap();
    let lp_bucket = account.withdraw(LP, lp_amount);
    v.redeem(lp_bucket, now).unwrap()
}

#[test]
fn test_maturity_value_with_no_redemptions() {
    let mut v = redeem_funded_vester();

    // With no redemptions, maturity value is exactly 1:
    // (total / pool_unlocked) * (pool_unlocked / lp_supply) = total / lp_supply = 1
    v.refill(START).unwrap();
    assert_eq!(v.get_maturity_value(START).unwrap(), ONE, "initial maturity value");

    // Still 1 at 50% vesting
    let now_50 = START + 182 * DAY + 43200;
    v.refill(now_50).unwrap();
    assert_eq!(v.get_maturity_value(now_50).unwrap(), ONE, "maturity at 50% vesting");

    // Still 1 at 100% vesting
    let now_100 = START + 365 * DAY;
    v.refill(now_100).unwrap();
    assert_eq!(v.get_maturity_value(now_100).unwrap(), ONE, "maturity at 100% vesting");
}

#[test]
fn test_redeem_half_doubles_maturity() {
    let mut v = redeem_funded_vester();

    // At vest_start: 10% initial vest in the pool
    v.refill(START).unwrap();

    let pool_initial = v.get_pool_vault_amount();
    let locked_initial = v.get_locked_vault_amount();
    assert_eq!(pool_initial + locked_initial, 10000 * ONE);

    // Initial maturity = 1
    let maturity_before = v.get_maturity_value(START).unwrap();
    assert_eq!(maturity_before, ONE, "maturity before redemption");

    // Claim and redeem 50% of LP tokens
    let redeemed_tokens = redeem_claim_and_redeem(&mut v, 100, 5000 * ONE, START);

    // The redeemer gets exactly 50% of the pool
    assert_eq!(redeemed_tokens.resource, TOKEN);
    assert_eq!(redeemed_tokens.amount, pool_initial / 2, "redeemed amount");

    // Pool now ~500, locked ~9000, 5000 LP remaining:
    // maturity = (500 + 9000) / 5000 = 1.9
    let maturity_after = v.get_maturity_value(START).unwrap();
    let pool_after = v.get_pool_vault_amount();
    let locked_after = v.get_locked_vault_amount();

    assert_eq!(maturity_after, ONE / 10 * 19, "maturity after 50% redemption");
    assert_eq!(maturity_after, (pool_after + locked_after) / 5000, "maturity after 50% redemption");
}

#[test]
fn test_redemption_amounts_at_vesting_stages() {
    let mut v = redeem_funded_vester();

    // Stage 1: redeem at vest_start (0% linear progress, 10% initial vest)
    v.refill(START).unwrap();

    let pool_at_0 = v.get_pool_vault_amount();
    assert_eq!(pool_at_0, 1000 * ONE, "pool at 0% progress");

    // 2000 of 10000 LP = 20% of the pool: 1000 * 0.2 = 200
    let redeemed_at_0 = redeem_claim_and_redeem(&mut v, 101, 2000 * ONE, START);
    assert_eq!(redeemed_at_0.amount, pool_at_0 / 5, "redeemed at 0% progress");

    // Stage 2: redeem at 50% linear progress (55% total vesting)
    // Pool: 1000 - 200 redeemed + 45% of 10000 newly vested = 5300
    let now_50 = START + 182 * DAY + 43200;
    v.refill(now_50).unwrap();

    let pool_at_50 = v.get_pool_vault_amount();
    assert_eq!(pool_at_50, 5300 * ONE, "pool at 50% progress");

    // 2000 of the remaining 8000 LP = 25% of the pool: 5300 * 0.25 = 1325
    let redeemed_at_50 = redeem_claim_and_redeem(&mut v, 102, 2000 * ONE, now_50);
    assert_eq!(redeemed_at_50.amount, pool_at_50 / 4, "redeemed at 50% progress");

    // Stage 3: redeem at 100% linear progress (100% total vesting)
    // Pool: 5300 - 1325 redeemed + 4500 newly vested = 8475
    let now_100 = START + 365 * DAY;
    v.refill(now_100).unwrap();

    let pool_at_100 = v.get_pool_vault_amount();
    let locked_at_100 = v.get_locked_vault_amount();
    assert_eq!(pool_at_100, 8475 * ONE, "pool at 100% progress");
    assert_eq!(locked_at_100, 0, "locked at 100% progress");

    // 2000 of the remaining 6000 LP = a third of the pool
    let redeemed_at_100 = redeem_claim_and_redeem(&mut v, 103, 2000 * ONE, now_100);
    assert_eq!(redeemed_at_100.amount, pool_at_100 * 2000 / 6000, "redeemed at 100% progress");
}

#[test]
fn test_redeem_75_percent_quadruples_maturity() {
    let mut v = redeem_funded_vester();

    v.refill(START).unwrap();

    // Claim and redeem 75% of LP tokens (7500)
    let _ = redeem_claim_and_redeem(&mut v, 104, 7500 * ONE, START);

    // Pool ~250, locked ~9000, 2500 LP remaining:
    // maturity = (250 + 9000) / 2500 = 3.7
    let maturity_after = v.get_maturity_value(START).unwrap();
    let pool_after = v.get_pool_vault_amount();
    let locked_after = v.get_locked_vault_amount();

    assert_eq!(maturity_after, (pool_after + locked_after) / 2500, "maturity after 75% redemption");
    assert_eq!(maturity_after, ONE / 10 * 37);
}

#[test]
fn test_redeem_empty_bucket_rejected() {
    let mut v = redeem_funded_vester();
    v.refill(START).unwrap();

    let result = v.redeem(Bucket { resource: LP, amount: 0 }, START);
    assert_eq!(result, Err(VestError::InvalidAmount));
}

#[test]
fn test_redeem_before_setup_fails() {
    let mut v = IncentivesVester::instantiate(365, ONE / 10, 604800, TOKEN, LP).unwrap();
    v.create_pool_units(Bucket { resource: TOKEN, amount: 10000 * ONE }).unwrap();

    let result = v.redeem(Bucket { resource: LP, amount: 1000 * ONE }, 0);
    assert_eq!(result, Err(VestError::NotConfigured));
}

#[test]
fn test_redeem_during_pre_claim_period_fails() {
    let mut v = redeem_funded_vester();

    let result = v.redeem(Bucket { resource: LP, amount: 1000 * ONE }, 604799);
    assert_eq!(result, Err(VestError::PreClaimActive));
}

#[test]
fn test_redeem_refreshes_schedule_first() {
    let mut v = redeem_funded_vester();

    // No refill has run yet; redeem at 50% progress must pay against the
    // refreshed pool (5500), not the stale empty one.
    let now_50 = START + 182 * DAY + 43200;
    let redeemed = redeem_claim_and_redeem(&mut v, 105, 5000 * ONE, now_50);
    assert_eq!(redeemed.amount, 2750 * ONE);
    assert_eq!(v.get_pool_vault_amount(), 2750 * ONE);
}

#[test]
fn test_conservation_across_operations() {
    let mut v = redeem_funded_vester();

    v.refill(START).unwrap();
    let redeemed_1 = redeem_claim_and_redeem(&mut v, 106, 2000 * ONE, START);

    let now_50 = START + 182 * DAY + 43200;
    v.refill(now_50).unwrap();
    let redeemed_2 = redeem_claim_and_redeem(&mut v, 107, 3000 * ONE, now_50);

    // Locked vault + pool vault + everything paid out == the whole pot
    let held = v.get_locked_vault_amount() + v.get_pool_vault_amount();
    assert_eq!(held + redeemed_1.amount + redeemed_2.amount, 10000 * ONE);
}

#[test]
fn test_maturity_value_before_setup_fails() {
    let mut v = IncentivesVester::instantiate(365, ONE / 10, 604800, TOKEN, LP).unwrap();
    v.create_pool_units(Bucket { resource: TOKEN, amount: 10000 * ONE }).unwrap();

    let result = v.get_maturity_value(0);
    assert_eq!(result, Err(VestError::NotConfigured));
}

#[test]
fn test_maturity_value_during_pre_claim_fails() {
    let mut v = redeem_funded_vester();

    let result = v.get_maturity_value(604799);
    assert_eq!(result, Err(VestError::PreClaimActive));
}

#[test]
fn test_maturity_value_empty_pool_fails() {
    // With no instantly-vested fraction, nothing is in the pool at
    // vest_start, so the ratio is undefined.
    let mut v = IncentivesVester::instantiate(365, 0, 604800, TOKEN, LP).unwrap();
    v.create_pool_units(Bucket { resource: TOKEN, amount: 10000 * ONE }).unwrap();
    v.finish_setup(0).unwrap();

    let result = v.get_maturity_value(START);
    assert_eq!(result, Err(VestError::EmptyPool));

    // The failed valuation moved nothing
    assert_eq!(v.get_pool_vault_amount(), 0);
    assert_eq!(v.get_locked_vault_amount(), 10000 * ONE);
}

#[test]
fn test_pool_redemption_value_is_stale_until_refill() {
    let mut v = redeem_funded_vester();

    // Before any refill the pool is empty, so the quoted value is zero
    assert_eq!(v.get_pool_redemption_value(ONE), 0);

    // After the first refill one share quotes at the 10% initial vest ratio
    v.refill(START).unwrap();
    assert_eq!(v.get_pool_redemption_value(ONE), ONE / 10);
    assert_eq!(v.get_pool_redemption_value(10000 * ONE), 1000 * ONE);
}
