//! The record kept for one account, and the decay of its balance.

use vstd::prelude::*;
use crate::common::{Duration, TokensAmount, UnixTimestamp};

verus! {

/// The state of one account in the current encoding.
#[derive(Clone, Copy, Debug, PartialEq, Eq, Structural)]
pub struct AccountRecord {
    /// Tokens credited and neither burned nor claimed yet.
    pub balance: TokensAmount,
    /// When the account last claimed, or was created.
    pub claim_period_refreshed_at: UnixTimestamp,
    /// When the account was last credited.
    pub last_top_up_at: UnixTimestamp,
    /// The time up to which burn has been taken from `balance`.
    pub last_burn_at: UnixTimestamp,
    /// Tokens that decay per second, as of the last credit.
    pub burn_rate: TokensAmount,
    /// True while a claim of this account awaits its transfer.
    pub is_locked: bool,
}

/// The record of an account first seen at `now`.
pub open spec fn spec_new_record(now: UnixTimestamp) -> AccountRecord {
    AccountRecord {
        balance: 0,
        claim_period_refreshed_at: now,
        last_top_up_at: 0,
        last_burn_at: 0,
        burn_rate: 0,
        is_locked: false,
    }
}

/// The share of the balance, in percent and rounded up, that has decayed
/// when `elapsed` seconds of an accrual arc of `span` seconds have left the
/// holding window.
pub open spec fn spec_percent_to_burn(elapsed: int, span: int) -> int {
    (elapsed * 100 + span - 1) / span
}

/// The part of the balance of `record` that can still be claimed at `now`.
pub open spec fn spec_effective_balance(record: AccountRecord, now: UnixTimestamp, burn_period: Duration) -> int {
    let first = record.claim_period_refreshed_at;
    let window_start = now - burn_period;
    if now - first < burn_period {
        record.balance as int
    } else if record.last_top_up_at <= window_start {
        0
    } else {
        (record.balance / 100) * (100 - spec_percent_to_burn(
            window_start - first,
            record.last_top_up_at - first,
        ))
    }
}

/// `spec_percent_to_burn` is the ceiling of `elapsed / span * 100`: the least
/// whole number of percent that covers the elapsed share of the span.
pub proof fn lemma_percent_is_ceiling(elapsed: int, span: int)
    requires
        0 <= elapsed,
        0 < span,
    ensures
        spec_percent_to_burn(elapsed, span) * span >= elapsed * 100,
        (spec_percent_to_burn(elapsed, span) - 1) * span < elapsed * 100,
        0 <= spec_percent_to_burn(elapsed, span),
        elapsed <= span ==> spec_percent_to_burn(elapsed, span) <= 100,
{
    let n = elapsed * 100 + span - 1;
    let p = n / span;
    assert(n == span * p + n % span && 0 <= n % span < span) by (nonlinear_arith)
        requires
            p == n / span,
            0 < span,
    ;
    assert(p * span == span * p) by (nonlinear_arith);
    assert((p - 1) * span == span * p - span) by (nonlinear_arith);
    assert(p >= 0) by (nonlinear_arith)
        requires
            p == n / span,
            0 < span,
            0 <= n,
    ;
    if elapsed <= span {
        assert(p <= 100) by (nonlinear_arith)
            requires
                (p - 1) * span < elapsed * 100,
                elapsed <= span,
                0 < span,
        ;
    }
}

/// The percentage does not fall when more of the span has elapsed.
pub proof fn lemma_percent_monotonic(e1: int, e2: int, span: int)
    requires
        0 <= e1 <= e2,
        0 < span,
    ensures
        spec_percent_to_burn(e1, span) <= spec_percent_to_burn(e2, span),
{
    let n1 = e1 * 100 + span - 1;
    let n2 = e2 * 100 + span - 1;
    assert(n1 / span <= n2 / span) by (nonlinear_arith)
        requires
            n1 <= n2,
            0 < span,
    ;
}

impl AccountRecord {
    /// The burn has not been taken further than the last credit.
    pub open spec fn in_order(self) -> bool {
        self.last_burn_at <= self.last_top_up_at
    }

    /// The record of an account first seen at `now`: nothing credited, nothing
    /// burned, the claim period starting now.
    pub fn new(now: UnixTimestamp) -> (record: AccountRecord)
        ensures
            record == spec_new_record(now),
            record.in_order(),
    {
        AccountRecord {
            balance: 0,
            claim_period_refreshed_at: now,
            last_top_up_at: 0,
            last_burn_at: 0,
            burn_rate: 0,
            is_locked: false,
        }
    }

    /// The part of the balance that can still be claimed at `now`.
    ///
    /// Inside the holding window this is the whole balance. Once the last
    /// credit is older than the window it is nothing. In between, the balance
    /// loses whole percents, rounded against the claimant.
    pub fn get_effective_balance(&self, now: UnixTimestamp, burn_period: Duration) -> (amount: TokensAmount)
        requires
            self.claim_period_refreshed_at <= now,
        ensures
            amount == spec_effective_balance(*self, now, burn_period),
            amount <= self.balance,
    {
        let first: u32 = self.claim_period_refreshed_at;
        if now - first < burn_period {
            return self.balance;
        }
        let window_start: u32 = now - burn_period;
        if self.last_top_up_at <= window_start {
            return 0;
        }
        let span: u64 = (self.last_top_up_at - first) as u64;
        let elapsed: u64 = (window_start - first) as u64;
        proof {
            lemma_percent_is_ceiling(elapsed as int, span as int);
        }
        let percent: u64 = (elapsed * 100 + span - 1) / span;
        let hundredth: u128 = self.balance / 100;
        let kept: u128 = (100 - percent) as u128;
        assert(hundredth * kept <= self.balance) by (nonlinear_arith)
            requires
                hundredth == self.balance / 100,
                0 <= kept <= 100,
        ;
        hundredth * kept
    }
}

/// Inside the holding window nothing has decayed.
pub proof fn lemma_fresh_window_keeps_balance(record: AccountRecord, now: UnixTimestamp, burn_period: Duration)
    requires
        record.claim_period_refreshed_at <= now,
        now - record.claim_period_refreshed_at < burn_period,
    ensures
        spec_effective_balance(record, now, burn_period) == record.balance,
{
}

/// Once the last credit is at least a burn period old, and the holding
/// window that began with the last claim has run out as well, nothing can be
/// claimed. (Inside the holding window the whole balance stays claimable.)
pub proof fn lemma_stale_balance_is_zero(record: AccountRecord, now: UnixTimestamp, burn_period: Duration)
    requires
        now - record.last_top_up_at >= burn_period,
        now - record.claim_period_refreshed_at >= burn_period,
    ensures
        spec_effective_balance(record, now, burn_period) == 0,
{
}

/// For a fixed record the claimable amount never grows as time goes on.
pub proof fn lemma_effective_balance_monotonic(
    record: AccountRecord,
    earlier: UnixTimestamp,
    later: UnixTimestamp,
    burn_period: Duration,
)
    requires
        record.claim_period_refreshed_at <= earlier <= later,
    ensures
        spec_effective_balance(record, later, burn_period) <= spec_effective_balance(
            record,
            earlier,
            burn_period,
        ),
        0 <= spec_effective_balance(record, later, burn_period),
        spec_effective_balance(record, earlier, burn_period) <= record.balance,
{
    let first = record.claim_period_refreshed_at as int;
    let top = record.last_top_up_at as int;
    let h = (record.balance / 100) as int;
    assert(h * 100 <= record.balance);
    lemma_kept_bounds(record, earlier, burn_period);
    lemma_kept_bounds(record, later, burn_period);
    if later - first >= burn_period && top > later - burn_period && earlier - first >= burn_period {
        let span = top - first;
        let e1 = earlier - burn_period - first;
        let e2 = later - burn_period - first;
        lemma_percent_monotonic(e1, e2, span);
        let p1 = spec_percent_to_burn(e1, span);
        let p2 = spec_percent_to_burn(e2, span);
        assert(h * (100 - p2) <= h * (100 - p1)) by (nonlinear_arith)
            requires
                0 <= h,
                p1 <= p2,
        ;
    }
}

/// The claimable amount lies between nothing and the balance.
pub proof fn lemma_kept_bounds(record: AccountRecord, now: UnixTimestamp, burn_period: Duration)
    requires
        record.claim_period_refreshed_at <= now,
    ensures
        0 <= spec_effective_balance(record, now, burn_period) <= record.balance,
{
    let first = record.claim_period_refreshed_at as int;
    let top = record.last_top_up_at as int;
    let h = (record.balance / 100) as int;
    if now - first >= burn_period && top > now - burn_period {
        let span = top - first;
        let e = now - burn_period - first;
        lemma_percent_is_ceiling(e, span);
        let p = spec_percent_to_burn(e, span);
        assert(0 <= h * (100 - p) <= h * 100) by (nonlinear_arith)
            requires
                0 <= h,
                0 <= p <= 100,
        ;
    }
}

} // verus!
