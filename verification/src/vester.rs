use vstd::prelude::*;
use vstd::arithmetic::div_mod::{
    lemma_div_multiples_vanish, lemma_div_pos_is_pos, lemma_fundamental_div_mod,
    lemma_hoist_over_denominator, lemma_mod_division_less_than_divisor,
    lemma_mul_hoist_inequality,
};
use vstd::arithmetic::mul::{
    lemma_mul_inequality, lemma_mul_is_associative, lemma_mul_is_commutative,
    lemma_mul_is_distributive_add, lemma_mul_nonnegative, lemma_mul_upper_bound,
};
use crate::account::{Bucket, DummyAccount};
use crate::errors::VestError;
use crate::pool::SharePool;
use crate::schedule::{compute_target, vest_target, ONE, SECONDS_PER_DAY};

verus! {

/// The vesting window.  It is unset during setup and fixed exactly once, by
/// `finish_setup`; carrying the two instants in the variant makes "setup not
/// finished yet" a type-level fact rather than a pair of nullable fields.
#[derive(Clone, Copy)]
pub enum Schedule {
    /// Setup phase: contributions are open, no window exists yet.
    Pending,
    /// Setup is finished: vesting runs from `start` to `end` (seconds).
    Fixed { start: u64, end: u64 },
}

/// The vesting engine: a fixed pot of one asset is released linearly over a
/// window into a proportional-ownership pool, against which share units are
/// redeemed.
///
/// Lifecycle: created in setup, where `create_pool_units` grows the pot and
/// mints shares 1:1; `finish_setup` locks the pot away from the pool and
/// fixes the window; from `start` onward, `refill` moves exactly the overdue
/// part of the pot into the pool, and shares redeem against whatever the pool
/// holds.  Value a redeemer leaves locked keeps flowing to the pool for the
/// shares that remain.
pub struct IncentivesVester {
    /// Resource address of the asset being vested.
    pub token_address: u64,
    /// Resource address of the share units minted by the pool.
    pub pool_unit_address: u64,
    /// The proportional-ownership pool shares redeem against.
    pub pool: SharePool,
    /// Share units held back for distribution to recipients.
    pub lp_tokens_vault: u64,
    /// Asset not yet released into the pool.
    pub locked_tokens_vault: u64,
    /// Total asset contributed during setup; fixed once setup finishes.
    pub total_tokens_to_vest: u64,
    /// Cumulative asset moved from the locked vault into the pool.
    pub vested_tokens: u64,
    /// Cumulative asset paid out by redemptions.
    pub redeemed_tokens: u64,
    /// The vesting window, once fixed.
    pub schedule: Schedule,
    /// Length of the vesting window, in days; positive.
    pub vest_duration_days: u64,
    /// Seconds between finishing setup and the start of vesting.
    pub pre_claim_duration_seconds: u64,
    /// Fraction of the total (scaled by [`ONE`]) unlocked the instant vesting
    /// starts.
    pub initial_vested_fraction: u64,
    /// Recipient identities that have already received a distribution.
    pub claimed: Vec<u64>,
}

impl IncentivesVester {
    /// The immutable configuration is in range.
    pub open spec fn config_wf(self) -> bool {
        &&& 1 <= self.vest_duration_days
        &&& self.vest_duration_days * SECONDS_PER_DAY <= u64::MAX
        &&& self.initial_vested_fraction <= ONE
    }

    /// Length of the vesting window in seconds.
    pub open spec fn duration_seconds(self) -> int {
        self.vest_duration_days * SECONDS_PER_DAY
    }

    /// Whether setup has been finished and the window fixed.
    pub open spec fn scheduled(self) -> bool {
        match self.schedule {
            Schedule::Pending => false,
            Schedule::Fixed { .. } => true,
        }
    }

    /// The instant vesting starts (meaningful once scheduled).
    pub open spec fn start_time(self) -> int {
        match self.schedule {
            Schedule::Pending => 0,
            Schedule::Fixed { start, .. } => start as int,
        }
    }

    /// The instant vesting completes (meaningful once scheduled).
    pub open spec fn end_time(self) -> int {
        match self.schedule {
            Schedule::Pending => 0,
            Schedule::Fixed { end, .. } => end as int,
        }
    }

    /// Well-formedness: the accounting identities every operation preserves.
    ///
    /// During setup the pool holds the whole pot and the shares minted for it
    /// 1:1; once scheduled, the locked vault holds exactly what has not yet
    /// vested and the pool holds exactly what has vested and not yet been
    /// redeemed.
    pub open spec fn wf(self) -> bool {
        &&& self.config_wf()
        &&& match self.schedule {
            Schedule::Pending => {
                &&& self.vested_tokens == 0
                &&& self.redeemed_tokens == 0
                &&& self.locked_tokens_vault == 0
                &&& self.pool.vault_amount == self.total_tokens_to_vest
                &&& self.pool.share_supply == self.total_tokens_to_vest
                &&& self.lp_tokens_vault == self.total_tokens_to_vest
                &&& self.claimed@.len() == 0
            },
            Schedule::Fixed { start, end } => {
                &&& end == start + self.duration_seconds()
                &&& self.vested_tokens <= self.total_tokens_to_vest
                &&& self.locked_tokens_vault == self.total_tokens_to_vest - self.vested_tokens
                &&& self.redeemed_tokens <= self.vested_tokens
                &&& self.pool.vault_amount == self.vested_tokens - self.redeemed_tokens
            },
        }
    }

    /// Configuration and identity fields that no public operation but
    /// `finish_setup` (for the window) and `create_pool_units` (for the
    /// total) ever changes.
    pub open spec fn same_config(pre: Self, post: Self) -> bool {
        &&& pre.token_address == post.token_address
        &&& pre.pool_unit_address == post.pool_unit_address
        &&& pre.total_tokens_to_vest == post.total_tokens_to_vest
        &&& pre.schedule == post.schedule
        &&& pre.vest_duration_days == post.vest_duration_days
        &&& pre.pre_claim_duration_seconds == post.pre_claim_duration_seconds
        &&& pre.initial_vested_fraction == post.initial_vested_fraction
    }

    /// The asset-accounting fields: pool, locked vault and the two progress
    /// counters.
    pub open spec fn same_assets(pre: Self, post: Self) -> bool {
        &&& pre.pool == post.pool
        &&& pre.locked_tokens_vault == post.locked_tokens_vault
        &&& pre.vested_tokens == post.vested_tokens
        &&& pre.redeemed_tokens == post.redeemed_tokens
    }

    /// The share-distribution fields: the held vault and the claimed set.
    pub open spec fn same_distribution(pre: Self, post: Self) -> bool {
        &&& pre.lp_tokens_vault == post.lp_tokens_vault
        &&& pre.claimed@ == post.claimed@
    }

    /// The amount due to have vested by `now` (meaningful once scheduled and
    /// `now` is at or past the start).
    pub open spec fn refill_target(self, now: u64) -> int {
        match self.schedule {
            Schedule::Pending => 0,
            Schedule::Fixed { start, end } => vest_target(
                self.total_tokens_to_vest as int,
                self.initial_vested_fraction as int,
                now - start,
                end - start,
            ),
        }
    }

    /// The state `refill` leaves behind when called at `now`: the cumulative
    /// vested amount is brought up to the due target (never down), and the
    /// difference moves from the locked vault into the pool.
    pub open spec fn refill_post(self, now: u64) -> IncentivesVester {
        let target = self.refill_target(now);
        let t = if target > self.vested_tokens as int {
            target
        } else {
            self.vested_tokens as int
        };
        IncentivesVester {
            token_address: self.token_address,
            pool_unit_address: self.pool_unit_address,
            pool: SharePool {
                share_supply: self.pool.share_supply,
                vault_amount: (self.pool.vault_amount + (t - self.vested_tokens)) as u64,
            },
            lp_tokens_vault: self.lp_tokens_vault,
            locked_tokens_vault: (self.locked_tokens_vault - (t - self.vested_tokens)) as u64,
            total_tokens_to_vest: self.total_tokens_to_vest,
            vested_tokens: t as u64,
            redeemed_tokens: self.redeemed_tokens,
            schedule: self.schedule,
            vest_duration_days: self.vest_duration_days,
            pre_claim_duration_seconds: self.pre_claim_duration_seconds,
            initial_vested_fraction: self.initial_vested_fraction,
            claimed: self.claimed,
        }
    }

    /// Value one whole share unit redeems for at the current ratio.
    pub open spec fn unit_redemption_value(self) -> int {
        (ONE * self.pool.vault_amount) / self.pool.share_supply as int
    }

    /// Projected value of one share unit if every outstanding share waited
    /// for full vesting: the pool's eventual holdings (current plus still
    /// locked) over its current holdings, times the current unit redemption
    /// value.
    pub open spec fn maturity_value_spec(self) -> int {
        ((self.pool.vault_amount + self.locked_tokens_vault) * self.unit_redemption_value())
            / self.pool.vault_amount as int
    }

    /// Whether the maturity valuation at `now` fits the result type; a
    /// machine limit the caller must respect.
    pub open spec fn maturity_fits(self, now: u64) -> bool {
        match self.schedule {
            Schedule::Pending => true,
            Schedule::Fixed { start, .. } => now >= start ==> self.refill_post(
                now,
            ).maturity_value_spec() <= u64::MAX,
        }
    }

    /// Creates a vesting engine in the setup phase, with all counters at
    /// zero.
    ///
    /// Rejects with `InvalidConfig` a non-positive vesting duration, an
    /// initial vested fraction above [`ONE`], or a negative pre-claim
    /// duration.
    pub fn instantiate(
        vest_duration_days: i64,
        initial_vested_fraction: u64,
        pre_claim_duration_seconds: i64,
        token_to_vest: u64,
        pool_unit_address: u64,
    ) -> (r: Result<IncentivesVester, VestError>)
        requires
            vest_duration_days * SECONDS_PER_DAY <= u64::MAX,
        ensures
            (if 0 < vest_duration_days && initial_vested_fraction <= ONE && 0
                <= pre_claim_duration_seconds {
                {
                    &&& r matches Ok(v)
                    &&& v.wf()
                    &&& v.schedule == Schedule::Pending
                    &&& v.total_tokens_to_vest == 0
                    &&& v.vested_tokens == 0
                    &&& v.redeemed_tokens == 0
                    &&& v.locked_tokens_vault == 0
                    &&& v.lp_tokens_vault == 0
                    &&& v.pool.share_supply == 0
                    &&& v.pool.vault_amount == 0
                    &&& v.claimed@.len() == 0
                    &&& v.token_address == token_to_vest
                    &&& v.pool_unit_address == pool_unit_address
                    &&& v.vest_duration_days == vest_duration_days
                    &&& v.pre_claim_duration_seconds == pre_claim_duration_seconds
                    &&& v.initial_vested_fraction == initial_vested_fraction
                }
            } else {
                r == Err::<IncentivesVester, VestError>(VestError::InvalidConfig)
            }),
    {
        if vest_duration_days <= 0 || initial_vested_fraction > ONE || pre_claim_duration_seconds
            < 0 {
            return Err(VestError::InvalidConfig);
        }
        Ok(
            IncentivesVester {
                token_address: token_to_vest,
                pool_unit_address,
                pool: SharePool::new(),
                lp_tokens_vault: 0,
                locked_tokens_vault: 0,
                total_tokens_to_vest: 0,
                vested_tokens: 0,
                redeemed_tokens: 0,
                schedule: Schedule::Pending,
                vest_duration_days: vest_duration_days as u64,
                pre_claim_duration_seconds: pre_claim_duration_seconds as u64,
                initial_vested_fraction,
                claimed: Vec::new(),
            },
        )
    }

    /// Contributes a bucket of the vested asset during setup: the pot grows
    /// by the bucket's amount, the pool mints shares for it 1:1, and the
    /// shares land in the held vault.  Repeated calls accumulate.
    ///
    /// Fails with `SetupClosed` once setup has been finished.
    pub fn create_pool_units(&mut self, tokens_to_vest: Bucket) -> (r: Result<(), VestError>)
        requires
            old(self).wf(),
            tokens_to_vest.resource == old(self).token_address,
            old(self).total_tokens_to_vest + tokens_to_vest.amount <= u64::MAX,
        ensures
            final(self).wf(),
            (match old(self).schedule {
                Schedule::Fixed { .. } => r == Err::<(), VestError>(VestError::SetupClosed)
                    && *final(self) == *old(self),
                Schedule::Pending => {
                    &&& r == Ok::<(), VestError>(())
                    &&& final(self).total_tokens_to_vest == old(self).total_tokens_to_vest
                        + tokens_to_vest.amount
                    &&& final(self).pool.vault_amount == old(self).pool.vault_amount
                        + tokens_to_vest.amount
                    &&& final(self).pool.share_supply == old(self).pool.share_supply
                        + tokens_to_vest.amount
                    &&& final(self).lp_tokens_vault == old(self).lp_tokens_vault
                        + tokens_to_vest.amount
                    &&& final(self).schedule == old(self).schedule
                    &&& final(self).vested_tokens == 0
                    &&& final(self).redeemed_tokens == 0
                    &&& final(self).locked_tokens_vault == 0
                    &&& final(self).claimed@ == old(self).claimed@
                    &&& final(self).token_address == old(self).token_address
                    &&& final(self).pool_unit_address == old(self).pool_unit_address
                    &&& final(self).vest_duration_days == old(self).vest_duration_days
                    &&& final(self).pre_claim_duration_seconds == old(self).pre_claim_duration_seconds
                    &&& final(self).initial_vested_fraction == old(self).initial_vested_fraction
                },
            }),
    {
        match self.schedule {
            Schedule::Fixed { .. } => {
                return Err(VestError::SetupClosed);
            },
            Schedule::Pending => {},
        }
        let amount: u64 = tokens_to_vest.amount;
        proof {
            if self.pool.share_supply > 0 {
                lemma_mul_is_commutative(amount as int, self.pool.share_supply as int);
                lemma_div_multiples_vanish(amount as int, self.pool.share_supply as int);
            }
            assert(self.pool.shares_for(amount as int) == amount);
        }
        self.total_tokens_to_vest = self.total_tokens_to_vest + amount;
        let shares: u64 = self.pool.contribute(amount);
        self.lp_tokens_vault = self.lp_tokens_vault + shares;
        Ok(())
    }

    /// Finishes setup: moves the pool's whole holdings (the pot) into the
    /// locked vault and fixes the vesting window, `start` one pre-claim
    /// duration from `now` and `end` one vesting duration after `start`.
    /// This is the single irreversible transition out of setup.
    ///
    /// Fails with `SetupClosed` when called again.
    pub fn finish_setup(&mut self, now: u64) -> (r: Result<(), VestError>)
        requires
            old(self).wf(),
            now + old(self).pre_claim_duration_seconds + old(self).vest_duration_days
                * SECONDS_PER_DAY <= u64::MAX,
        ensures
            final(self).wf(),
            (match old(self).schedule {
                Schedule::Fixed { .. } => r == Err::<(), VestError>(VestError::SetupClosed)
                    && *final(self) == *old(self),
                Schedule::Pending => {
                    &&& r == Ok::<(), VestError>(())
                    &&& final(self).schedule == (Schedule::Fixed {
                        start: (now + old(self).pre_claim_duration_seconds) as u64,
                        end: (now + old(self).pre_claim_duration_seconds + old(self).vest_duration_days * SECONDS_PER_DAY) as u64,
                    })
                    &&& final(self).locked_tokens_vault == old(self).total_tokens_to_vest
                    &&& final(self).pool.vault_amount == 0
                    &&& final(self).pool.share_supply == old(self).pool.share_supply
                    &&& final(self).vested_tokens == 0
                    &&& final(self).redeemed_tokens == 0
                    &&& final(self).total_tokens_to_vest == old(self).total_tokens_to_vest
                    &&& Self::same_distribution(*old(self), *final(self))
                    &&& final(self).token_address == old(self).token_address
                    &&& final(self).pool_unit_address == old(self).pool_unit_address
                    &&& final(self).vest_duration_days == old(self).vest_duration_days
                    &&& final(self).pre_claim_duration_seconds == old(self).pre_claim_duration_seconds
                    &&& final(self).initial_vested_fraction == old(self).initial_vested_fraction
                },
            }),
    {
        match self.schedule {
            Schedule::Fixed { .. } => {
                return Err(VestError::SetupClosed);
            },
            Schedule::Pending => {},
        }
        let start: u64 = now + self.pre_claim_duration_seconds;
        let duration: u64 = self.vest_duration_days * SECONDS_PER_DAY;
        let end: u64 = start + duration;
        self.schedule = Schedule::Fixed { start, end };
        let amount: u64 = self.pool.get_vault_amount();
        self.pool.protected_withdraw(amount);
        self.locked_tokens_vault = self.locked_tokens_vault + amount;
        Ok(())
    }

    /// Brings the pool up to date with the schedule: computes the amount due
    /// at `now` and moves exactly what is still missing from the locked vault
    /// into the pool.  Safe to call any number of times at any cadence: the
    /// cumulative vested amount converges to the due target and never
    /// decreases, and a call that finds nothing due moves nothing.
    ///
    /// Fails with `NotConfigured` before setup is finished, and with
    /// `PreClaimActive` while `now` is before the start of the window.
    pub fn refill(&mut self, now: u64) -> (r: Result<(), VestError>)
        requires
            old(self).wf(),
        ensures
            final(self).wf(),
            final(self).vested_tokens >= old(self).vested_tokens,
            (match old(self).schedule {
                Schedule::Pending => r == Err::<(), VestError>(VestError::NotConfigured) && *final(self) == *old(self),
                Schedule::Fixed { start, .. } => if now < start {
                    r == Err::<(), VestError>(VestError::PreClaimActive) && *final(self) == *old(self)
                } else {
                    r == Ok::<(), VestError>(()) && *final(self) == old(self).refill_post(now)
                },
            }),
    {
        let (start, end): (u64, u64) = match self.schedule {
            Schedule::Pending => {
                return Err(VestError::NotConfigured);
            },
            Schedule::Fixed { start, end } => (start, end),
        };
        if now < start {
            return Err(VestError::PreClaimActive);
        }
        proof {
            lemma_mul_inequality(1, self.vest_duration_days as int, SECONDS_PER_DAY as int);
        }
        let duration: u64 = end - start;
        let target: u64 = compute_target(
            self.total_tokens_to_vest,
            self.initial_vested_fraction,
            now - start,
            duration,
        );
        if target > self.vested_tokens {
            let delta: u64 = target - self.vested_tokens;
            self.locked_tokens_vault = self.locked_tokens_vault - delta;
            self.pool.protected_deposit(delta);
            self.vested_tokens = target;
        }
        Ok(())
    }

    /// Assigns `lp_token_amount` share units from the held vault to
    /// `account`, at most once per account address.  Delivery cannot be
    /// refused: the bucket is credited to the account directly.
    ///
    /// Fails with `SchedulePending` before setup is finished, `InvalidAmount`
    /// for a zero amount, `AlreadyClaimed` for an address that was already
    /// served, and `InsufficientShares` when the held vault holds less than
    /// requested.  A failed call changes nothing, the claimed set included.
    #[verifier::loop_isolation(false)]
    pub fn claim(&mut self, lp_token_amount: u64, account: &mut DummyAccount) -> (r: Result<
        (),
        VestError,
    >)
        requires
            old(self).wf(),
            old(account).wf(),
            old(account).balance_of(old(self).pool_unit_address) + lp_token_amount <= u64::MAX,
        ensures
            final(self).wf(),
            final(account).wf(),
            final(account).address == old(account).address,
            Self::same_config(*old(self), *final(self)),
            Self::same_assets(*old(self), *final(self)),
            (match old(self).schedule {
                Schedule::Pending => r == Err::<(), VestError>(VestError::SchedulePending)
                    && *final(self) == *old(self) && *final(account) == *old(account),
                Schedule::Fixed { .. } => if lp_token_amount == 0 {
                    r == Err::<(), VestError>(VestError::InvalidAmount) && *final(self) == *old(self) && *final(account) == *old(account)
                } else if old(self).claimed@.contains(old(account).address) {
                    r == Err::<(), VestError>(VestError::AlreadyClaimed) && *final(self) == *old(self) && *final(account) == *old(account)
                } else if old(self).lp_tokens_vault < lp_token_amount {
                    r == Err::<(), VestError>(VestError::InsufficientShares) && *final(self)
                        == *old(self) && *final(account) == *old(account)
                } else {
                    &&& r == Ok::<(), VestError>(())
                    &&& final(self).lp_tokens_vault == old(self).lp_tokens_vault - lp_token_amount
                    &&& final(self).claimed@ == old(self).claimed@.push(old(account).address)
                    &&& final(account).balance_of(old(self).pool_unit_address) == old(
                        account,
                    ).balance_of(old(self).pool_unit_address) + lp_token_amount
                    &&& forall|res: u64|
                        res != old(self).pool_unit_address ==> final(account).balance_of(res)
                            == old(account).balance_of(res)
                },
            }),
    {
        match self.schedule {
            Schedule::Pending => {
                return Err(VestError::SchedulePending);
            },
            Schedule::Fixed { .. } => {},
        }
        if lp_token_amount == 0 {
            return Err(VestError::InvalidAmount);
        }
        let addr: u64 = account.address;
        let n: usize = self.claimed.len();
        let mut i: usize = 0;
        while i < n
            invariant
                n == self.claimed@.len(),
                i <= n,
                forall|k: int| 0 <= k < i ==> self.claimed@[k] != addr,
            decreases n - i,
        {
            if self.claimed[i] == addr {
                return Err(VestError::AlreadyClaimed);
            }
            i = i + 1;
        }
        assert(!self.claimed@.contains(addr));
        if self.lp_tokens_vault < lp_token_amount {
            return Err(VestError::InsufficientShares);
        }
        self.lp_tokens_vault = self.lp_tokens_vault - lp_token_amount;
        self.claimed.push(addr);
        let resource: u64 = self.pool_unit_address;
        account.deposit(Bucket { resource, amount: lp_token_amount });
        Ok(())
    }

    /// Redeems a bucket of share units for their proportional slice of the
    /// pool, refreshing the schedule first so the payout reflects the current
    /// unlock progress.  The unvested remainder of the redeemed shares'
    /// claim stays behind, for the benefit of the shares that remain.
    ///
    /// Fails with `InvalidAmount` for an empty bucket, and propagates
    /// `NotConfigured` and `PreClaimActive` from the schedule refresh: a
    /// redemption before the window starts is rejected rather than paid out
    /// at zero value.  A failed call changes nothing.
    pub fn redeem(&mut self, lp_token_bucket: Bucket, now: u64) -> (r: Result<Bucket, VestError>)
        requires
            old(self).wf(),
            lp_token_bucket.resource == old(self).pool_unit_address,
            lp_token_bucket.amount <= old(self).pool.share_supply,
        ensures
            final(self).wf(),
            (if lp_token_bucket.amount == 0 {
                r == Err::<Bucket, VestError>(VestError::InvalidAmount) && *final(self) == *old(self)
            } else {
                match old(self).schedule {
                    Schedule::Pending => r == Err::<Bucket, VestError>(VestError::NotConfigured)
                        && *final(self) == *old(self),
                    Schedule::Fixed { start, .. } => if now < start {
                        r == Err::<Bucket, VestError>(VestError::PreClaimActive) && *final(self)
                            == *old(self)
                    } else {
                        {
                            let after_refill = old(self).refill_post(now);
                            let payout = after_refill.pool.redemption_value(
                                lp_token_bucket.amount as int,
                            );
                            &&& (r matches Ok(out) && out.resource == old(self).token_address
                                && out.amount == payout)
                            &&& final(self).pool.vault_amount == after_refill.pool.vault_amount
                                - payout
                            &&& final(self).pool.share_supply == after_refill.pool.share_supply
                                - lp_token_bucket.amount
                            &&& final(self).redeemed_tokens == after_refill.redeemed_tokens
                                + payout
                            &&& final(self).vested_tokens == after_refill.vested_tokens
                            &&& final(self).locked_tokens_vault
                                == after_refill.locked_tokens_vault
                            &&& Self::same_distribution(*old(self), *final(self))
                            &&& final(self).schedule == old(self).schedule
                            &&& final(self).total_tokens_to_vest == old(self).total_tokens_to_vest
                            &&& final(self).token_address == old(self).token_address
                            &&& final(self).pool_unit_address == old(self).pool_unit_address
                            &&& final(self).vest_duration_days == old(self).vest_duration_days
                            &&& final(self).pre_claim_duration_seconds == old(self).pre_claim_duration_seconds
                            &&& final(self).initial_vested_fraction == old(self).initial_vested_fraction
                        }
                    },
                }
            }),
    {
        if lp_token_bucket.amount == 0 {
            return Err(VestError::InvalidAmount);
        }
        match self.refill(now) {
            Err(e) => {
                return Err(e);
            },
            Ok(()) => {},
        }
        let payout: u64 = self.pool.redeem(lp_token_bucket.amount);
        self.redeemed_tokens = self.redeemed_tokens + payout;
        Ok(Bucket { resource: self.token_address, amount: payout })
    }

    /// Projected value of one whole share unit ([`ONE`]) at full maturity,
    /// after refreshing the schedule.  The valuation rises whenever shares
    /// redeem early, since their forfeited remainder keeps feeding the pool
    /// for fewer outstanding shares.
    ///
    /// Propagates `NotConfigured` and `PreClaimActive` from the schedule
    /// refresh, and fails with `EmptyPool` (leaving the state untouched) when
    /// the pool would still hold nothing: the ratio is undefined then.
    pub fn get_maturity_value(&mut self, now: u64) -> (r: Result<u64, VestError>)
        requires
            old(self).wf(),
            0 < old(self).pool.share_supply,
            old(self).maturity_fits(now),
        ensures
            final(self).wf(),
            (match old(self).schedule {
                Schedule::Pending => r == Err::<u64, VestError>(VestError::NotConfigured) && *final(self) == *old(self),
                Schedule::Fixed { start, .. } => if now < start {
                    r == Err::<u64, VestError>(VestError::PreClaimActive) && *final(self) == *old(self)
                } else {
                    {
                        let after_refill = old(self).refill_post(now);
                        if after_refill.pool.vault_amount == 0 {
                            r == Err::<u64, VestError>(VestError::EmptyPool) && *final(self)
                                == *old(self)
                        } else {
                            r == Ok::<u64, VestError>(after_refill.maturity_value_spec() as u64)
                                && *final(self) == after_refill
                        }
                    }
                },
            }),
    {
        let (start, end): (u64, u64) = match self.schedule {
            Schedule::Pending => {
                return Err(VestError::NotConfigured);
            },
            Schedule::Fixed { start, end } => (start, end),
        };
        if now < start {
            return Err(VestError::PreClaimActive);
        }
        proof {
            lemma_mul_inequality(1, self.vest_duration_days as int, SECONDS_PER_DAY as int);
        }
        let duration: u64 = end - start;
        let target: u64 = compute_target(
            self.total_tokens_to_vest,
            self.initial_vested_fraction,
            now - start,
            duration,
        );
        let new_vested: u64 = if target > self.vested_tokens {
            target
        } else {
            self.vested_tokens
        };
        let post_vault: u64 = self.pool.vault_amount + (new_vested - self.vested_tokens);
        if post_vault == 0 {
            return Err(VestError::EmptyPool);
        }
        let refill_result: Result<(), VestError> = self.refill(now);
        proof {
            assert(refill_result == Ok::<(), VestError>(()));
            assert(self.pool.vault_amount == post_vault);
        }
        let vault: u64 = self.pool.vault_amount;
        let supply: u64 = self.pool.share_supply;
        let locked: u64 = self.locked_tokens_vault;
        let pl: u64 = vault + locked;
        proof {
            lemma_mul_upper_bound(ONE as int, u64::MAX as int, vault as int, u64::MAX as int);
            lemma_mul_nonnegative(ONE as int, vault as int);
            lemma_div_pos_is_pos(ONE as int * vault as int, supply as int);
        }
        let rv1: u128 = ((ONE as u128) * (vault as u128)) / (supply as u128);
        proof {
            lemma_mul_hoist_inequality(pl as int, rv1 as int, vault as int);
            lemma_mul_nonnegative(pl as int, rv1 as int / vault as int);
            lemma_mul_nonnegative(pl as int, rv1 as int);
            lemma_div_pos_is_pos(pl as int * rv1 as int, vault as int);
            lemma_mul_upper_bound(pl as int, u64::MAX as int, rv1 as int % vault as int, u64::MAX as int);
            lemma_mod_division_less_than_divisor(rv1 as int, vault as int);
            lemma_mul_nonnegative(pl as int, rv1 as int % vault as int);
        }
        let q: u128 = rv1 / (vault as u128);
        let rm: u128 = rv1 % (vault as u128);
        proof {
            lemma_fundamental_div_mod(rv1 as int, vault as int);
            lemma_mul_is_distributive_add(pl as int, vault as int * q as int, rm as int);
            lemma_mul_is_associative(pl as int, vault as int, q as int);
            lemma_mul_is_commutative(pl as int, vault as int);
            lemma_mul_is_associative(pl as int, q as int, vault as int);
            lemma_mul_is_commutative(pl as int * q as int, vault as int);
            lemma_hoist_over_denominator(pl as int * rm as int, pl as int * q as int, vault as nat);
            lemma_div_pos_is_pos(pl as int * rm as int, vault as int);
        }
        let m: u128 = (pl as u128) * q + ((pl as u128) * rm) / (vault as u128);
        Ok(m as u64)
    }

    /// Amount of share units still in the held vault, not yet assigned to
    /// any recipient.
    pub fn get_lp_token_amount(&mut self) -> (amount: u64)
        ensures
            amount == old(self).lp_tokens_vault,
            *final(self) == *old(self),
    {
        self.lp_tokens_vault
    }

    /// Amount the pool currently holds, available to redemptions.
    pub fn get_pool_vault_amount(&mut self) -> (amount: u64)
        ensures
            amount == old(self).pool.vault_amount,
            *final(self) == *old(self),
    {
        self.pool.get_vault_amount()
    }

    /// Amount still locked, not yet released into the pool.
    pub fn get_locked_vault_amount(&mut self) -> (amount: u64)
        ensures
            amount == old(self).locked_tokens_vault,
            *final(self) == *old(self),
    {
        self.locked_tokens_vault
    }

    /// Resource address of the share units.
    pub fn get_pool_unit_resource_address(&self) -> (address: u64)
        ensures
            address == self.pool_unit_address,
    {
        self.pool_unit_address
    }

    /// Value `lp_amount` share units would redeem for at the pool's current
    /// ratio.  A pure query: the ratio may be stale until the next `refill`.
    pub fn get_pool_redemption_value(&self, lp_amount: u64) -> (value: u64)
        requires
            0 < self.pool.share_supply,
            self.pool.redemption_value(lp_amount as int) <= u64::MAX,
        ensures
            value == self.pool.redemption_value(lp_amount as int),
    {
        self.pool.get_redemption_value(lp_amount)
    }

    /// Cumulative amount moved from the locked vault into the pool so far.
    pub fn get_vested_tokens(&self) -> (amount: u64)
        ensures
            amount == self.vested_tokens,
    {
        self.vested_tokens
    }

    /// Total amount contributed during setup.
    pub fn get_total_tokens_to_vest(&self) -> (amount: u64)
        ensures
            amount == self.total_tokens_to_vest,
    {
        self.total_tokens_to_vest
    }

    /// Empties the held share vault into a bucket.  An operational escape
    /// hatch with no schedule precondition; it suspends the setup-phase
    /// accounting identities until the shares are put back.
    pub fn remove_lp(&mut self) -> (tokens: Bucket)
        ensures
            tokens == (Bucket {
                resource: old(self).pool_unit_address,
                amount: old(self).lp_tokens_vault,
            }),
            final(self).lp_tokens_vault == 0,
            final(self).claimed@ == old(self).claimed@,
            Self::same_config(*old(self), *final(self)),
            Self::same_assets(*old(self), *final(self)),
    {
        let amount: u64 = self.lp_tokens_vault;
        self.lp_tokens_vault = 0;
        Bucket { resource: self.pool_unit_address, amount }
    }

    /// Returns previously removed share units to the held vault.
    pub fn put_lp(&mut self, tokens: Bucket)
        requires
            tokens.resource == old(self).pool_unit_address,
            old(self).lp_tokens_vault + tokens.amount <= u64::MAX,
        ensures
            final(self).lp_tokens_vault == old(self).lp_tokens_vault + tokens.amount,
            final(self).claimed@ == old(self).claimed@,
            Self::same_config(*old(self), *final(self)),
            Self::same_assets(*old(self), *final(self)),
    {
        self.lp_tokens_vault = self.lp_tokens_vault + tokens.amount;
    }

    /// Empties the locked vault into a bucket.  An operational escape hatch
    /// with no schedule precondition; it suspends the vesting accounting
    /// identities until the tokens are put back.
    pub fn remove_locked_tokens(&mut self) -> (tokens: Bucket)
        ensures
            tokens == (Bucket {
                resource: old(self).token_address,
                amount: old(self).locked_tokens_vault,
            }),
            final(self).locked_tokens_vault == 0,
            final(self).pool == old(self).pool,
            final(self).vested_tokens == old(self).vested_tokens,
            final(self).redeemed_tokens == old(self).redeemed_tokens,
            Self::same_distribution(*old(self), *final(self)),
            Self::same_config(*old(self), *final(self)),
    {
        let amount: u64 = self.locked_tokens_vault;
        self.locked_tokens_vault = 0;
        Bucket { resource: self.token_address, amount }
    }

    /// Returns previously removed locked tokens to the locked vault.
    pub fn put_locked_tokens(&mut self, tokens: Bucket)
        requires
            tokens.resource == old(self).token_address,
            old(self).locked_tokens_vault + tokens.amount <= u64::MAX,
        ensures
            final(self).locked_tokens_vault == old(self).locked_tokens_vault + tokens.amount,
            final(self).pool == old(self).pool,
            final(self).vested_tokens == old(self).vested_tokens,
            final(self).redeemed_tokens == old(self).redeemed_tokens,
            Self::same_distribution(*old(self), *final(self)),
            Self::same_config(*old(self), *final(self)),
    {
        self.locked_tokens_vault = self.locked_tokens_vault + tokens.amount;
    }
}

} // verus!
