//! Rate engine: turns paired cumulative counters and an elapsed time into an
//! instantaneous bytes-per-second rate.
//!
//! Elapsed time is measured in whole milliseconds and clamped to a one
//! millisecond floor before dividing, so a sub-millisecond tick can neither
//! divide by zero nor produce an unbounded spike.  A counter that moved
//! backwards (reset, remount, wrap) yields a zero rate for that tick.

use vstd::prelude::*;

verus! {

/// Floor, in milliseconds, substituted for very short sampling intervals.
pub const MIN_ELAPSED_MS: u64 = 1;

/// Fixed sector size used to convert disk sector counters to bytes.
pub const SECTOR_SIZE: u64 = 512;

/// Elapsed milliseconds after applying the one-millisecond floor.
pub open spec fn clamped_elapsed(elapsed_ms: u64) -> int {
    if elapsed_ms < MIN_ELAPSED_MS {
        MIN_ELAPSED_MS as int
    } else {
        elapsed_ms as int
    }
}

/// Bytes per second implied by two cumulative byte counters, saturating at
/// `u64::MAX`; zero whenever the counter moved backwards.
pub open spec fn rate_spec(current: u64, previous: u64, elapsed_ms: u64) -> u64 {
    if current < previous {
        0
    } else {
        let r = (current - previous) * 1000 / clamped_elapsed(elapsed_ms);
        if r > u64::MAX { u64::MAX } else { r as u64 }
    }
}

/// Bytes per second implied by two cumulative sector counters, after the
/// fixed sector-to-byte conversion; zero whenever the counter moved backwards.
pub open spec fn disk_rate_spec(current_sectors: u64, previous_sectors: u64, elapsed_ms: u64) -> u64 {
    if current_sectors < previous_sectors {
        0
    } else {
        let r = (current_sectors - previous_sectors) * (SECTOR_SIZE as int) * 1000
            / clamped_elapsed(elapsed_ms);
        if r > u64::MAX { u64::MAX } else { r as u64 }
    }
}

/// Instantaneous byte rate from two cumulative byte counters.
pub fn rate(current: u64, previous: u64, elapsed_ms: u64) -> (r: u64)
    ensures
        r == rate_spec(current, previous, elapsed_ms),
        current < previous ==> r == 0,
{
    if current < previous {
        return 0;
    }
    let eff: u64 = if elapsed_ms < MIN_ELAPSED_MS { MIN_ELAPSED_MS } else { elapsed_ms };
    let num: u128 = (current - previous) as u128 * 1000;
    let q: u128 = num / (eff as u128);
    if q > u64::MAX as u128 {
        u64::MAX
    } else {
        q as u64
    }
}

/// Instantaneous byte rate from two cumulative sector counters.
pub fn disk_rate(current_sectors: u64, previous_sectors: u64, elapsed_ms: u64) -> (r: u64)
    ensures
        r == disk_rate_spec(current_sectors, previous_sectors, elapsed_ms),
        current_sectors < previous_sectors ==> r == 0,
{
    if current_sectors < previous_sectors {
        return 0;
    }
    let eff: u64 = if elapsed_ms < MIN_ELAPSED_MS { MIN_ELAPSED_MS } else { elapsed_ms };
    let delta: u128 = (current_sectors - previous_sectors) as u128;
    assert(delta * (SECTOR_SIZE as u128) * 1000 <= u128::MAX) by (nonlinear_arith)
        requires delta <= u64::MAX as u128
    {}
    let num: u128 = delta * (SECTOR_SIZE as u128) * 1000;
    let q: u128 = num / (eff as u128);
    if q > u64::MAX as u128 {
        u64::MAX
    } else {
        q as u64
    }
}

/// A rate is never negative, and a counter that moved backwards yields zero.
pub proof fn lemma_rate_nonnegative(current: u64, previous: u64, elapsed_ms: u64)
    ensures
        rate_spec(current, previous, elapsed_ms) >= 0,
        current < previous ==> rate_spec(current, previous, elapsed_ms) == 0,
        disk_rate_spec(current, previous, elapsed_ms) >= 0,
        current < previous ==> disk_rate_spec(current, previous, elapsed_ms) == 0,
{
}

/// Every elapsed time at or below the floor produces the same rate as the
/// floor itself.
pub proof fn lemma_rate_elapsed_floor(current: u64, previous: u64, elapsed_ms: u64)
    requires
        elapsed_ms <= MIN_ELAPSED_MS,
    ensures
        rate_spec(current, previous, elapsed_ms)
            == rate_spec(current, previous, MIN_ELAPSED_MS),
        disk_rate_spec(current, previous, elapsed_ms)
            == disk_rate_spec(current, previous, MIN_ELAPSED_MS),
{
}

} // verus!
