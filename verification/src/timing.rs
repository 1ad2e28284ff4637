//! Scan-time arithmetic for touchpad reports (units of 100 microseconds).
use vstd::prelude::*;

verus! {

/// Scan time of a timer reading in microseconds: the reading, taken as an
/// unsigned 64-bit value, in 100 us units, wrapped to 16 bits.
pub open spec fn scan_time_at(micros: i64) -> int {
    (((micros as u64) / 100) % 65536) as int
}

/// Convert a microsecond timer reading into a 16-bit scan time.
pub fn scan_time_from_micros(micros: i64) -> (scan_time: u16)
    ensures
        scan_time as int == scan_time_at(micros),
{
    let ticks: u64 = (micros as u64) / 100;
    (ticks % 65536) as u16
}

/// Ticks elapsed from `last` to `now` on a wrapping 32-bit counter.
pub open spec fn elapsed_ticks(last: u32, now: u32) -> int {
    if now >= last {
        now - last
    } else {
        now - last + 0x1_0000_0000
    }
}

/// Scan time reported for a delivery: the ticks since the previous delivery
/// capped at 0xFF, or 0 when there was no previous delivery (`last == 0`).
pub open spec fn delivery_scan_time(last: u32, now: u32) -> int {
    if last == 0 {
        0
    } else if elapsed_ticks(last, now) < 0xFF {
        elapsed_ticks(last, now)
    } else {
        0xFF
    }
}

/// Scan time for a touch report delivered at `now`, the previous one at `last`.
pub fn scan_time_delta(last: u32, now: u32) -> (scan_time: u16)
    ensures
        scan_time as int == delivery_scan_time(last, now),
        scan_time <= 0xFF,
{
    if last > 0 {
        let elapsed = now.wrapping_sub(last);
        if elapsed < 0xFF {
            elapsed as u16
        } else {
            0xFF
        }
    } else {
        0
    }
}

} // verus!
