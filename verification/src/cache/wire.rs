//! The plain numbers by which a host names strategies, times and
//! durations, and what they stand for.

use vstd::prelude::*;
use crate::cache::model::{CacheStrategy, PolicyModel};
use crate::cache::types::{CachePolicy, default_policy};

verus! {

/// The strategy that an identifier names: 1 is `LFU`, 2 is `FIFO`, and 0
/// and every other number are `LRU`.
pub open spec fn strategy_of(id: i32) -> CacheStrategy {
    if id == 1 {
        CacheStrategy::LFU
    } else if id == 2 {
        CacheStrategy::FIFO
    } else {
        CacheStrategy::LRU
    }
}

/// The strategy that an identifier names.
pub fn strategy_from_id(id: i32) -> (s: CacheStrategy)
    ensures
        s == strategy_of(id),
{
    if id == 1 {
        CacheStrategy::LFU
    } else if id == 2 {
        CacheStrategy::FIFO
    } else {
        CacheStrategy::LRU
    }
}

/// A number of seconds where zero stands for "not given".
pub open spec fn optional_secs(secs: u64) -> Option<u64> {
    if secs == 0 {
        None
    } else {
        Some(secs)
    }
}

/// The time, in seconds since the Unix epoch, that a host's number
/// stands for; zero stands for no time.
pub fn time_from_wire(secs: u64) -> (t: Option<u64>)
    ensures
        t == optional_secs(secs),
{
    if secs == 0 {
        None
    } else {
        Some(secs)
    }
}

/// The number that a host is given for a time; no time is zero.
pub fn time_to_wire(t: Option<u64>) -> (secs: u64)
    ensures
        secs == match t {
            Some(s) => s,
            None => 0,
        },
{
    match t {
        Some(s) => s,
        None => 0,
    }
}

/// Seconds in milliseconds, saturating at the machine limit.
pub open spec fn millis_of_secs(secs: u64) -> u64 {
    if secs * 1000 <= u64::MAX {
        (secs * 1000) as u64
    } else {
        u64::MAX
    }
}

/// Seconds in milliseconds, saturating at the machine limit.
pub fn secs_to_millis(secs: u64) -> (ms: u64)
    ensures
        ms == millis_of_secs(secs),
{
    if secs <= u64::MAX / 1000 {
        secs * 1000
    } else {
        u64::MAX
    }
}

/// The time to live, in milliseconds, that a host's number of seconds
/// stands for; zero stands for the default of the policy.
pub fn ttl_from_wire(secs: u64) -> (ttl: Option<u64>)
    ensures
        ttl == match optional_secs(secs) {
            Some(s) => Some(millis_of_secs(s)),
            None => None,
        },
{
    if secs == 0 {
        None
    } else {
        Some(secs_to_millis(secs))
    }
}

/// The default policy with the four settings that a host gives.
pub open spec fn policy_of_parts(
    max_size: usize,
    max_entries: usize,
    default_ttl_secs: u64,
    strategy_id: i32,
) -> PolicyModel {
    PolicyModel {
        max_size,
        max_entries,
        default_ttl: millis_of_secs(default_ttl_secs),
        strategy: strategy_of(strategy_id),
        ..default_policy()
    }
}

/// The policy that a host's four settings describe: sizes as given, the
/// default time to live in seconds, the strategy by its identifier, and the
/// defaults for everything else.
pub fn policy_from_parts(
    max_size: usize,
    max_entries: usize,
    default_ttl_secs: u64,
    strategy_id: i32,
) -> (policy: CachePolicy)
    ensures
        policy@ == policy_of_parts(max_size, max_entries, default_ttl_secs, strategy_id),
{
    let mut policy = CachePolicy::default();
    policy.max_size = max_size;
    policy.max_entries = max_entries;
    policy.default_ttl = secs_to_millis(default_ttl_secs);
    policy.strategy = strategy_from_id(strategy_id);
    policy
}

} // verus!
