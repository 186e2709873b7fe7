//! Settings of the service and their defaults.
use vstd::prelude::*;

verus! {

pub const DEFAULT_TRANSFER_DEADLINE_HOURS: i64 = 24;

pub const DEFAULT_RESERVATION_WINDOW_MINUTES: i64 = 7;

pub const DEFAULT_MAX_RESERVATIONS_PER_USER: i64 = 3;

pub const DEFAULT_VERIFYING_TIMEOUT_MINUTES: i64 = 10;

pub const DEFAULT_VERIFYING_CLEANUP_INTERVAL_SECONDS: i64 = 60;

pub const DEFAULT_RESERVATION_CLEANUP_INTERVAL_SECONDS: i64 = 60;

pub const DEFAULT_TRANSFER_DEADLINE_CLEANUP_INTERVAL_HOURS: i64 = 1;

pub const DEFAULT_BOT_CONCURRENCY_LIMIT: i64 = 5;

pub const DEFAULT_RATE_LIMIT_REQUESTS: i64 = 10;

pub const DEFAULT_RATE_LIMIT_WINDOW_SECONDS: i64 = 60;

/// A setting that must be positive: the configured value where it is, else the default.
pub fn positive_or(value: Option<i64>, default: i64) -> (r: i64)
    ensures
        r == match value {
            Some(v) => if v > 0 {
                v
            } else {
                default
            },
            None => default,
        },
{
    match value {
        Some(v) => if v > 0 {
            v
        } else {
            default
        },
        None => default,
    }
}

} // verus!
