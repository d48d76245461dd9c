//! Divisors derived from the clock of the microcontroller.

use vstd::prelude::*;

verus! {

/// The frequency of the external oscillator, which clocks the core and
/// every peripheral.
pub const CLOCK_SPEED_HZ: u32 = 25_000_000;

/// The system timer counts the core clock divided by this.
pub const SYSTICK_PRESCALER: u32 = 8;

/// The largest value that the reload register of the system timer takes.
pub const SYSTICK_RELOAD_MAX: u32 = 0x00FF_FFFF;

/// The quotient of `dividend` by `divisor`, rounded to the nearest whole
/// number, halves upwards where the divisor is even.
pub open spec fn rounded_quotient(dividend: int, divisor: int) -> int {
    (dividend + divisor / 2) / divisor
}

/// Divides and rounds to the nearest whole number. The divisor is not zero
/// and the quotient fits into 16 bits.
pub fn divide_u32_to_u16_round(dividend: u32, divisor: u32) -> (quotient: u16)
    requires
        divisor > 0,
        dividend + divisor / 2 <= u32::MAX,
        rounded_quotient(dividend as int, divisor as int) <= u16::MAX,
    ensures
        quotient == rounded_quotient(dividend as int, divisor as int),
{
    let quotient: u32 = (dividend + (divisor / 2)) / divisor;
    quotient as u16
}

/// The value for the reload register of the system timer that makes it
/// fire every millisecond, where there is one: the timer counts at least
/// two ticks in a millisecond and the value fits the register.
pub fn systick_reload_value(clock_speed_hz: u32) -> (reload: Option<u32>)
    ensures
        reload is Some <==> 1 < (clock_speed_hz / SYSTICK_PRESCALER) / 1000 <= SYSTICK_RELOAD_MAX
            + 1,
        reload matches Some(value) ==> value == (clock_speed_hz / SYSTICK_PRESCALER) / 1000 - 1,
{
    let sys_tick_period: u32 = (clock_speed_hz / SYSTICK_PRESCALER) / 1000;
    if sys_tick_period <= 1 {
        return None;
    }
    let reload_value: u32 = sys_tick_period - 1;
    if reload_value > SYSTICK_RELOAD_MAX {
        return None;
    }
    Some(reload_value)
}

} // verus!
