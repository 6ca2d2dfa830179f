//! Shared types and the helpers on timestamps and periods.

use vstd::prelude::*;

verus! {

/// Seconds since the Unix epoch.
pub type UnixTimestamp = u32;

/// A span of time in seconds.
pub type Duration = u32;

/// An amount of tokens.
pub type TokensAmount = u128;

/// The identifier of an account.
pub type AccountId = String;

/// Whether `now` lies less than `period` after `start`.
pub open spec fn spec_is_within_period(start: UnixTimestamp, now: UnixTimestamp, period: Duration) -> bool {
    now - start < period
}

/// Tells whether `now` is still inside the period that began at `start`.
/// The clock never runs backwards, so `start` is not after `now`.
pub fn is_within_period(start: UnixTimestamp, now: UnixTimestamp, period: Duration) -> (within: bool)
    requires
        start <= now,
    ensures
        within == spec_is_within_period(start, now, period),
{
    now - start < period
}

/// Whether a millisecond timestamp, cut down to whole seconds, fits a `UnixTimestamp`.
pub open spec fn spec_fits_seconds(ms: u64) -> bool {
    ms / 1000 <= u32::MAX
}

/// Tells whether `ms_timestamp_to_seconds` may be called on `ms`.
pub fn fits_seconds(ms: u64) -> (fits: bool)
    ensures
        fits == spec_fits_seconds(ms),
{
    ms / 1000 <= 0xffff_ffff
}

/// Cuts a millisecond timestamp down to whole seconds.
pub fn ms_timestamp_to_seconds(ms: u64) -> (seconds: UnixTimestamp)
    requires
        spec_fits_seconds(ms),
    ensures
        seconds == ms / 1000,
{
    (ms / 1000) as u32
}

} // verus!
