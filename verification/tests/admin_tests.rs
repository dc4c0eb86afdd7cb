use incentives_vester::account::Bucket;
use incentives_vester::vester::IncentivesVester;

const ONE: u64 = 1_000_000_000_000;
const TOKEN: u64 = 1;
const LP: u64 = 2;
const START: u64 = 604800;

/// A vester funded with 10000 tokens and finalized at time 0.
fn admin_funded_vester() -> IncentivesVester {
    let mut v = IncentivesVester::instantiate(365, ONE / 10, 604800, TOKEN, LP).unwrap();
    v.create_pool_units(Bucket { resource: TOKEN, amount: 10000 * ONE }).unwrap();
    v.finish_setup(0).unwrap();
    v
}

#[test]
fn test_remove_and_put_lp() {
    let mut v = admin_funded_vester();

    let removed = v.remove_lp();
    assert_eq!(removed, Bucket { resource: LP, amount: 10000 * ONE });
    assert_eq!(v.get_lp_token_amount(), 0);

    v.put_lp(removed);
    assert_eq!(v.get_lp_token_amount(), 10000 * ONE);
}

#[test]
fn test_remove_and_put_locked_tokens() {
    let mut v = admin_funded_vester();

    let removed = v.remove_locked_tokens();
    assert_eq!(removed, Bucket { resource: TOKEN, amount: 10000 * ONE });
    assert_eq!(v.get_locked_vault_amount(), 0);

    // Returning the tokens restores the schedule's funding: the next refill
    // still unlocks exactly the initial fraction.
    v.put_locked_tokens(removed);
    assert_eq!(v.get_locked_vault_amount(), 10000 * ONE);

    v.refill(START).unwrap();
    assert_eq!(v.get_pool_vault_amount(), 1000 * ONE);
    assert_eq!(v.get_locked_vault_amount(), 9000 * ONE);
}

#[test]
fn test_remove_lp_leaves_vaults_alone() {
    let mut v = admin_funded_vester();

    let _ = v.remove_lp();
    assert_eq!(v.get_locked_vault_amount(), 10000 * ONE);
    assert_eq!(v.get_pool_vault_amount(), 0);
    assert_eq!(v.get_total_tokens_to_vest(), 10000 * ONE);
}
