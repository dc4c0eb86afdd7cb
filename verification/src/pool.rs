use vstd::prelude::*;
use vstd::arithmetic::div_mod::{lemma_div_is_ordered, lemma_div_multiples_vanish, lemma_div_pos_is_pos};
use vstd::arithmetic::mul::{lemma_mul_inequality, lemma_mul_is_commutative, lemma_mul_nonnegative, lemma_mul_upper_bound};

verus! {

/// Proportional-ownership accounting over one asset: the pool owns the
/// conversion ratio between outstanding share units and the value it holds.
/// Shares are minted against the current ratio on contribution and burned for
/// a proportional payout on redemption; the privileged deposit and withdraw
/// operations move value without touching the share supply, which is how the
/// vesting engine changes the ratio itself.
pub struct SharePool {
    /// Total share units outstanding.
    pub share_supply: u64,
    /// Value backing all outstanding shares.
    pub vault_amount: u64,
}

impl SharePool {
    /// Value paid out for `shares` at the current ratio (meaningful only
    /// while `share_supply > 0`).
    pub open spec fn redemption_value(self, shares: int) -> int {
        (shares * self.vault_amount) / self.share_supply as int
    }

    /// Share units minted for a contribution of `amount` at the current
    /// ratio.
    pub open spec fn shares_for(self, amount: int) -> int {
        if self.share_supply == 0 {
            amount
        } else {
            (amount * self.share_supply) / self.vault_amount as int
        }
    }

    /// A pool holding nothing, with no shares outstanding.
    pub fn new() -> (p: SharePool)
        ensures
            p.share_supply == 0,
            p.vault_amount == 0,
    {
        SharePool { share_supply: 0, vault_amount: 0 }
    }

    /// Deposits `amount` and mints shares against the current ratio.
    pub fn contribute(&mut self, amount: u64) -> (shares: u64)
        requires
            old(self).share_supply > 0 ==> old(self).vault_amount > 0,
            old(self).vault_amount + amount <= u64::MAX,
            old(self).share_supply + old(self).shares_for(amount as int) <= u64::MAX,
        ensures
            shares == old(self).shares_for(amount as int),
            final(self).vault_amount == old(self).vault_amount + amount,
            final(self).share_supply == old(self).share_supply + shares,
    {
        let shares: u64 = if self.share_supply == 0 {
            amount
        } else {
            proof {
                lemma_mul_upper_bound(amount as int, u64::MAX as int, self.share_supply as int, u64::MAX as int);
                lemma_mul_nonnegative(amount as int, self.share_supply as int);
                lemma_div_pos_is_pos(amount as int * self.share_supply as int, self.vault_amount as int);
            }
            (((amount as u128) * (self.share_supply as u128)) / (self.vault_amount as u128)) as u64
        };
        self.vault_amount = self.vault_amount + amount;
        self.share_supply = self.share_supply + shares;
        shares
    }

    /// Burns `shares` and pays out the proportional slice of the vault.
    pub fn redeem(&mut self, shares: u64) -> (payout: u64)
        requires
            0 < old(self).share_supply,
            shares <= old(self).share_supply,
        ensures
            payout == old(self).redemption_value(shares as int),
            payout <= old(self).vault_amount,
            final(self).vault_amount == old(self).vault_amount - payout,
            final(self).share_supply == old(self).share_supply - shares,
    {
        proof {
            lemma_mul_nonnegative(shares as int, self.vault_amount as int);
            lemma_div_pos_is_pos(shares as int * self.vault_amount as int, self.share_supply as int);
            lemma_mul_inequality(shares as int, self.share_supply as int, self.vault_amount as int);
            lemma_div_is_ordered(
                shares as int * self.vault_amount as int,
                self.share_supply as int * self.vault_amount as int,
                self.share_supply as int,
            );
            lemma_mul_is_commutative(self.share_supply as int, self.vault_amount as int);
            lemma_div_multiples_vanish(self.vault_amount as int, self.share_supply as int);
            lemma_mul_upper_bound(shares as int, u64::MAX as int, self.vault_amount as int, u64::MAX as int);
        }
        let payout: u64 = (((shares as u128) * (self.vault_amount as u128)) / (self.share_supply as u128)) as u64;
        self.vault_amount = self.vault_amount - payout;
        self.share_supply = self.share_supply - shares;
        payout
    }

    /// Value that `shares` would redeem for right now, without redeeming.
    pub fn get_redemption_value(&self, shares: u64) -> (value: u64)
        requires
            0 < self.share_supply,
            self.redemption_value(shares as int) <= u64::MAX,
        ensures
            value == self.redemption_value(shares as int),
    {
        proof {
            lemma_mul_nonnegative(shares as int, self.vault_amount as int);
            lemma_div_pos_is_pos(shares as int * self.vault_amount as int, self.share_supply as int);
            lemma_mul_upper_bound(shares as int, u64::MAX as int, self.vault_amount as int, u64::MAX as int);
        }
        (((shares as u128) * (self.vault_amount as u128)) / (self.share_supply as u128)) as u64
    }

    /// Withdraws `amount` from the vault without burning shares.
    pub fn protected_withdraw(&mut self, amount: u64)
        requires
            amount <= old(self).vault_amount,
        ensures
            final(self).vault_amount == old(self).vault_amount - amount,
            final(self).share_supply == old(self).share_supply,
    {
        self.vault_amount = self.vault_amount - amount;
    }

    /// Deposits `amount` into the vault without minting shares.
    pub fn protected_deposit(&mut self, amount: u64)
        requires
            old(self).vault_amount + amount <= u64::MAX,
        ensures
            final(self).vault_amount == old(self).vault_amount + amount,
            final(self).share_supply == old(self).share_supply,
    {
        self.vault_amount = self.vault_amount + amount;
    }

    /// Value currently held by the pool.
    pub fn get_vault_amount(&self) -> (amount: u64)
        ensures
            amount == self.vault_amount,
    {
        self.vault_amount
    }
}

} // verus!
