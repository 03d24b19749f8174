//! Timer arithmetic: the operating system's clock as a tick counter, and the
//! frequency of a processor counter measured against it.

use std::time::Duration;
use vstd::prelude::*;

verus! {

/// The number of ticks per second of the operating system's timer.
pub open spec fn os_timer_freq() -> int {
    1_000_000
}

/// The timer value of a clock reading that is made of whole seconds and of
/// the microseconds of the second under way: the sum of the two numbers,
/// taken `os_timer_freq()` times.
pub open spec fn os_timer_ticks(secs: int, subsec_micros: int) -> int {
    os_timer_freq() * (secs + subsec_micros)
}

/// The frequency of a processor counter that advanced by `cpu_elapsed` while
/// an operating-system timer of frequency `os_freq` advanced by `os_elapsed`.
/// It is zero where that timer did not advance.
pub open spec fn cpu_timer_freq(os_freq: int, cpu_elapsed: int, os_elapsed: int) -> int {
    if os_elapsed > 0 {
        os_freq * cpu_elapsed / os_elapsed
    } else {
        0
    }
}

/// The number of timer ticks that `ms_to_wait` milliseconds take at
/// frequency `os_freq`.
pub open spec fn wait_ticks(os_freq: int, ms_to_wait: int) -> int {
    os_freq * ms_to_wait / 1000
}

/// `Duration::as_secs` of std: the whole seconds of a duration. Nothing is
/// claimed of the number.
pub assume_specification[ Duration::as_secs ](d: &Duration) -> (secs: u64)
;

/// `Duration::subsec_micros` of std: the part of a duration below a second,
/// in whole microseconds. Claimed of it is what its documentation says: the
/// number is below one million.
pub assume_specification[ Duration::subsec_micros ](d: &Duration) -> (micros: u32)
    ensures
        micros < 1_000_000,
;

/// `SystemTime::elapsed` of std, on `UNIX_EPOCH`: the time that has passed
/// since the start of 1970 by the system clock, or `None` where the clock
/// stands before it. Nothing is claimed of the duration: it is a reading of
/// the clock.
#[verifier::external_body]
fn time_since_epoch() -> (elapsed: Option<Duration>) {
    match std::time::UNIX_EPOCH.elapsed() {
        Ok(d) => Some(d),
        Err(_) => None,
    }
}

/// The frequency of the operating system's timer, in ticks per second.
pub fn get_os_timer_freq() -> (freq: u64)
    ensures
        freq == os_timer_freq(),
{
    1_000_000
}

/// Turns a clock reading into a timer value, where the value fits in 64
/// bits.
pub fn os_timer_value(secs: u64, subsec_micros: u32) -> (ticks: Option<u64>)
    ensures
        ticks == if os_timer_ticks(secs as int, subsec_micros as int) <= u64::MAX {
            Some(os_timer_ticks(secs as int, subsec_micros as int) as u64)
        } else {
            None::<u64>
        },
{
    match secs.checked_add(subsec_micros as u64) {
        None => None,
        Some(sum) => get_os_timer_freq().checked_mul(sum),
    }
}

/// Reads the operating system's timer. There is no value where the system
/// clock stands before the start of 1970 or the value does not fit in 64
/// bits; a value is the timer value of some clock reading.
pub fn read_os_timer() -> (ticks: Option<u64>)
    ensures
        ticks matches Some(t) ==> exists|secs: u64, micros: u32|
            micros < 1_000_000 && t == #[trigger] os_timer_ticks(secs as int, micros as int),
{
    match time_since_epoch() {
        None => None,
        Some(since_the_epoch) => {
            let secs = since_the_epoch.as_secs();
            let micros = since_the_epoch.subsec_micros();
            let ticks = os_timer_value(secs, micros);
            assert(ticks matches Some(t) ==> t == os_timer_ticks(secs as int, micros as int));
            ticks
        },
    }
}

/// The number of timer ticks to wait for `ms_to_wait` milliseconds.
pub fn os_wait_time(os_freq: u64, ms_to_wait: u64) -> (ticks: u64)
    requires
        os_freq * ms_to_wait <= u64::MAX,
    ensures
        ticks == wait_ticks(os_freq as int, ms_to_wait as int),
{
    assert(os_freq * ms_to_wait >= 0) by (nonlinear_arith);
    os_freq * ms_to_wait / 1000
}

/// Estimates the frequency of the processor's counter from what it and the
/// operating system's timer advanced by over the same stretch of time.
pub fn estimate_cpu_timer_freq(os_freq: u64, cpu_elapsed: u64, os_elapsed: u64) -> (cpu_freq: u64)
    requires
        os_freq * cpu_elapsed <= u64::MAX,
    ensures
        cpu_freq == cpu_timer_freq(os_freq as int, cpu_elapsed as int, os_elapsed as int),
{
    let mut cpu_freq: u64 = 0;
    if os_elapsed > 0 {
        assert(os_freq * cpu_elapsed >= 0) by (nonlinear_arith);
        cpu_freq = os_freq * cpu_elapsed / os_elapsed;
    }
    cpu_freq
}

} // verus!
