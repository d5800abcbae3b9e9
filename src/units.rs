use vstd::prelude::*;

verus! {

/// Shortest elapsed time, in milliseconds, that a rate is divided by.
pub const MIN_ELAPSED_MS: u64 = 100;

/// `value` KiB in MB (1024 KiB each), rounded to nearest, halves up.
pub open spec fn kib_to_mb_spec(value: int) -> int {
    (value + 512) / 1024
}

/// `value` bytes in MB (1024 * 1024 bytes each), rounded to nearest, halves up.
pub open spec fn bytes_to_mb_spec(value: int) -> int {
    (value + 524288) / 1048576
}

/// `part` as a share of `total`, in thousandths of a percent (rounded down);
/// zero when `total` is zero.
pub open spec fn milli_pct_spec(part: int, total: int) -> int {
    if total == 0 {
        0
    } else {
        part * 100_000 / total
    }
}

/// The elapsed time that rates are divided by: `elapsed_ms`, but at least
/// `MIN_ELAPSED_MS`.
pub open spec fn effective_elapsed_ms(elapsed_ms: int) -> int {
    if elapsed_ms < MIN_ELAPSED_MS {
        MIN_ELAPSED_MS as int
    } else {
        elapsed_ms
    }
}

/// `bytes` moved over `elapsed_ms` milliseconds, as a rate in thousandths of a
/// kilobit (1024 bits) per second, rounded down:
/// `1000 * (bytes * 8) / ((elapsed_ms / 1000) * 1024)`.
pub open spec fn milli_kbps_spec(bytes: int, elapsed_ms: int) -> int {
    if elapsed_ms <= 0 {
        0
    } else {
        (bytes * 8 * 1_000_000) / (1024 * elapsed_ms)
    }
}

/// The rate between two readings of a cumulative counter: the increase since
/// `previous` over the elapsed time (floored at `MIN_ELAPSED_MS`); zero when
/// no time elapsed or the counter went down.
pub open spec fn counter_rate_spec(previous: int, current: int, elapsed_ms: int) -> int {
    if elapsed_ms <= 0 || current < previous {
        0
    } else {
        milli_kbps_spec(current - previous, effective_elapsed_ms(elapsed_ms))
    }
}

pub fn kib_to_mb(value: u64) -> (r: u64)
    ensures
        r == kib_to_mb_spec(value as int),
{
    let r = value / 1024 + if value % 1024 >= 512 { 1u64 } else { 0u64 };
    r
}

pub fn bytes_to_mb(value: u64) -> (r: u64)
    ensures
        r == bytes_to_mb_spec(value as int),
{
    let r = value / 1048576 + if value % 1048576 >= 524288 { 1u64 } else { 0u64 };
    r
}

pub fn percentage(part_kib: u64, total_kib: u64) -> (r: u128)
    ensures
        r == milli_pct_spec(part_kib as int, total_kib as int),
{
    if total_kib == 0 {
        return 0;
    }
    assert(part_kib as int * 100_000 <= u64::MAX as int * 100_000) by (nonlinear_arith);
    (part_kib as u128 * 100_000) / total_kib as u128
}

pub fn effective_elapsed(elapsed_ms: u64) -> (r: u64)
    ensures
        r == effective_elapsed_ms(elapsed_ms as int),
        r >= MIN_ELAPSED_MS,
{
    if elapsed_ms < MIN_ELAPSED_MS {
        MIN_ELAPSED_MS
    } else {
        elapsed_ms
    }
}

pub fn bytes_per_second_to_kbps(bytes: u64, elapsed_ms: u64) -> (r: u128)
    ensures
        r == milli_kbps_spec(bytes as int, elapsed_ms as int),
{
    if elapsed_ms == 0 {
        return 0;
    }
    assert(bytes as int * 8_000_000 <= u64::MAX as int * 8_000_000) by (nonlinear_arith);
    assert(1024 * (elapsed_ms as int) <= 1024 * u64::MAX as int) by (nonlinear_arith);
    (bytes as u128 * 8_000_000) / (1024 * elapsed_ms as u128)
}

/// The rate of a cumulative counter that went from `previous` to `current`
/// over `elapsed_ms` (floored at `MIN_ELAPSED_MS`); no elapsed time, or a
/// counter that went down (a reset), gives zero.
pub fn counter_rate(previous: u64, current: u64, elapsed_ms: u64) -> (r: u128)
    ensures
        r == counter_rate_spec(previous as int, current as int, elapsed_ms as int),
{
    if elapsed_ms == 0 {
        return 0;
    }
    let delta = current.saturating_sub(previous);
    let ms = effective_elapsed(elapsed_ms);
    bytes_per_second_to_kbps(delta, ms)
}

} // verus!
