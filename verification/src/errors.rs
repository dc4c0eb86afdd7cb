use vstd::prelude::*;

verus! {

/// Errors surfaced by the vesting engine.
///
/// Every precondition is checked eagerly at the start of the operation that
/// owns it, and every failure is reported synchronously with no partial state
/// change left behind.  Each error is recoverable: the caller can correct its
/// input or simply wait for the schedule to advance.
#[derive(Clone, Copy, Debug, PartialEq, Eq)]
pub enum VestError {
    /// Constructor parameters rejected: non-positive vesting duration, an
    /// initial vested fraction outside `[0, 1]`, or a negative pre-claim
    /// duration.
    InvalidConfig,
    /// A setup-only operation was invoked after setup was finalized.
    SetupClosed,
    /// `refill` (or an operation that refreshes the schedule) was invoked
    /// before setup was finalized.
    NotConfigured,
    /// `claim` was invoked before setup was finalized.
    SchedulePending,
    /// `refill` was invoked during the pre-claim window, before vesting
    /// begins.
    PreClaimActive,
    /// A zero amount was supplied where a positive amount is required.
    InvalidAmount,
    /// A distribution was already made to this recipient identity.
    AlreadyClaimed,
    /// The distributor's held vault holds fewer shares than requested.
    InsufficientShares,
    /// A maturity valuation was requested while the pool's vault is empty.
    EmptyPool,
}

} // verus!
