use incentives_vester::account::Bucket;
use incentives_vester::errors::VestError;
use incentives_vester::vester::IncentivesVester;

const ONE: u64 = 1_000_000_000_000;
const TOKEN: u64 = 1;
const LP: u64 = 2;
const PRE_CLAIM: i64 = 604800;

fn setup_new_vester() -> IncentivesVester {
    IncentivesVester::instantiate(365, ONE / 10, PRE_CLAIM, TOKEN, LP).unwrap()
}

fn setup_contribute(v: &mut IncentivesVester, tokens: u64) {
    v.create_pool_units(Bucket { resource: TOKEN, amount: tokens * ONE }).unwrap();
}

#[test]
fn test_instantiate() {
    let result = IncentivesVester::instantiate(365, ONE / 10, PRE_CLAIM, TOKEN, LP);
    assert!(result.is_ok());
}

#[test]
fn test_create_pool_units_once() {
    let mut v = setup_new_vester();
    setup_contribute(&mut v, 10000);

    let lp_amount = v.get_lp_token_amount();
    assert_eq!(lp_amount, 10000 * ONE);
}

#[test]
fn test_create_pool_units_multiple_times() {
    let mut v = setup_new_vester();

    setup_contribute(&mut v, 5000);
    setup_contribute(&mut v, 3000);
    setup_contribute(&mut v, 2000);

    let lp_amount = v.get_lp_token_amount();
    assert_eq!(lp_amount, 10000 * ONE);
}

#[test]
fn test_finish_setup() {
    let mut v = setup_new_vester();

    setup_contribute(&mut v, 10000);
    v.finish_setup(0).unwrap();

    // After finish_setup, LP tokens should still be in the vault
    let lp_amount = v.get_lp_token_amount();
    assert_eq!(lp_amount, 10000 * ONE);

    // All tokens should be locked
    let pool_amount = v.get_pool_vault_amount();
    let locked_amount = v.get_locked_vault_amount();
    assert_eq!(pool_amount, 0);
    assert_eq!(locked_amount, 10000 * ONE);
}

#[test]
fn test_create_pool_units_after_finish_setup_fails() {
    let mut v = setup_new_vester();

    setup_contribute(&mut v, 10000);
    v.finish_setup(0).unwrap();

    let result = v.create_pool_units(Bucket { resource: TOKEN, amount: 5000 * ONE });
    assert_eq!(result, Err(VestError::SetupClosed));
}

#[test]
fn test_finish_setup_twice_fails() {
    let mut v = setup_new_vester();

    setup_contribute(&mut v, 10000);
    v.finish_setup(0).unwrap();

    let result = v.finish_setup(0);
    assert_eq!(result, Err(VestError::SetupClosed));
}

#[test]
fn test_instantiate_zero_duration_rejected() {
    let result = IncentivesVester::instantiate(0, ONE / 10, PRE_CLAIM, TOKEN, LP);
    assert_eq!(result.err(), Some(VestError::InvalidConfig));
}

#[test]
fn test_instantiate_negative_duration_rejected() {
    let result = IncentivesVester::instantiate(-1, ONE / 10, PRE_CLAIM, TOKEN, LP);
    assert_eq!(result.err(), Some(VestError::InvalidConfig));
}

#[test]
fn test_instantiate_fraction_above_one_rejected() {
    let result = IncentivesVester::instantiate(365, ONE + 1, PRE_CLAIM, TOKEN, LP);
    assert_eq!(result.err(), Some(VestError::InvalidConfig));
}

#[test]
fn test_instantiate_negative_pre_claim_rejected() {
    let result = IncentivesVester::instantiate(365, ONE / 10, -1, TOKEN, LP);
    assert_eq!(result.err(), Some(VestError::InvalidConfig));
}

#[test]
fn test_instantiate_full_initial_fraction_accepted() {
    let v = IncentivesVester::instantiate(365, ONE, 0, TOKEN, LP).unwrap();
    assert_eq!(v.get_total_tokens_to_vest(), 0);
}

#[test]
fn test_getters_after_setup() {
    let mut v = setup_new_vester();
    setup_contribute(&mut v, 10000);

    assert_eq!(v.get_total_tokens_to_vest(), 10000 * ONE);
    assert_eq!(v.get_vested_tokens(), 0);
    assert_eq!(v.get_pool_unit_resource_address(), LP);
    assert_eq!(v.get_pool_vault_amount(), 10000 * ONE);
    assert_eq!(v.get_locked_vault_amount(), 0);
}
