//! The sixteen PWM outputs, in eight groups of two that share a frequency:
//! what a request to set them programs into the hardware, and what a request
//! to read them reports.
//!
//! A request to set the outputs is carried out group by group. For each group
//! the caller sets the frequency that `clamp_frequency` gives, asks the two
//! channels for their greatest duty value, which depends on the frequency,
//! and sets the duty values that `group_setting` gives.
use crate::payload::{OutputGetRes, OutputGroup};
use vstd::prelude::*;

verus! {

/// The lowest frequency that is programmed, in Hz.
pub const FREQUENCY_MIN: u16 = 10;

/// The highest frequency that is programmed, in Hz.
pub const FREQUENCY_MAX: u16 = 50_000;

/// The duty cycle that stands for "always on" in a request.
pub const DUTY_FULL: u16 = 0x8000;

/// The quotient of two non-negative numbers, rounded to the nearest, a half
/// rounded up.
pub open spec fn rounded_quotient(dividend: int, divisor: int) -> int {
    dividend / divisor + if 2 * (dividend % divisor) >= divisor {
        1int
    } else {
        0int
    }
}

/// Calls `rounded_div::RoundedDiv::rounded_div` for `u32`, which computes the
/// quotient and adds one where twice the remainder is at least the divisor.
/// It panics on a zero divisor, and for a divisor above 2^31 the doubled
/// remainder may not fit: both are left out. The library divides by
/// `DUTY_FULL` only.
#[verifier::external_body]
fn rounded_div_u32(dividend: u32, divisor: u32) -> (quotient: u32)
    requires
        0 < divisor <= 0x8000_0000,
    ensures
        quotient == rounded_quotient(dividend as int, divisor as int),
{
    rounded_div::RoundedDiv::rounded_div(dividend, divisor)
}

/// The frequency that is programmed for a requested frequency.
pub open spec fn clamped_frequency(frequency: u16) -> u16 {
    if frequency < FREQUENCY_MIN {
        FREQUENCY_MIN
    } else if frequency > FREQUENCY_MAX {
        FREQUENCY_MAX
    } else {
        frequency
    }
}

/// The duty value that is programmed for a requested duty cycle, on hardware
/// whose greatest duty value is `max_duty`: the requested duty cycle, at most
/// `DUTY_FULL`, brought from the scale of 0 to `DUTY_FULL` to the scale of 0 to
/// `max_duty`, rounded. `DUTY_FULL` gives `max_duty`, and 0 gives 0.
pub open spec fn scaled_duty(duty_cycle: u16, max_duty: u16) -> int {
    let duty = if duty_cycle > DUTY_FULL {
        DUTY_FULL
    } else {
        duty_cycle
    };
    rounded_quotient(duty * max_duty, DUTY_FULL as int)
}

/// A scaled duty value lies between 0 and the greatest duty value of the
/// hardware, which it reaches for a duty cycle of `DUTY_FULL` or more.
pub proof fn lemma_scaled_duty_bounds(duty_cycle: u16, max_duty: u16)
    ensures
        0 <= scaled_duty(duty_cycle, max_duty) <= max_duty,
        duty_cycle >= DUTY_FULL ==> scaled_duty(duty_cycle, max_duty) == max_duty,
        duty_cycle == 0 ==> scaled_duty(duty_cycle, max_duty) == 0,
{
    let duty: int = if duty_cycle > DUTY_FULL {
        DUTY_FULL as int
    } else {
        duty_cycle as int
    };
    let product = duty * max_duty;
    assert(0 <= product <= 0x8000 * max_duty) by (nonlinear_arith)
        requires
            product == duty * max_duty,
            0 <= duty <= 0x8000,
            0 <= max_duty,
    ;
    if duty == 0x8000 {
        assert(product == 0x8000 * max_duty) by (nonlinear_arith)
            requires
                product == duty * max_duty,
                duty == 0x8000,
        ;
    }
    if duty == 0 {
        assert(product == 0) by (nonlinear_arith)
            requires
                product == duty * max_duty,
                duty == 0,
        ;
    }
}

pub fn clamp_frequency(frequency: u16) -> (r: u16)
    ensures
        r == clamped_frequency(frequency),
        FREQUENCY_MIN <= r <= FREQUENCY_MAX,
{
    if frequency < FREQUENCY_MIN {
        FREQUENCY_MIN
    } else if frequency > FREQUENCY_MAX {
        FREQUENCY_MAX
    } else {
        frequency
    }
}

/// The duty value to program for a requested duty cycle, on hardware whose
/// greatest duty value is `max_duty`.
pub fn scale_duty(duty_cycle: u16, max_duty: u16) -> (r: u16)
    ensures
        r == scaled_duty(duty_cycle, max_duty),
        r <= max_duty,
{
    let duty: u32 = if duty_cycle > DUTY_FULL {
        DUTY_FULL as u32
    } else {
        duty_cycle as u32
    };
    proof {
        lemma_scaled_duty_bounds(duty_cycle, max_duty);
        assert(duty * max_duty <= 0x8000 * 0xFFFF) by (nonlinear_arith)
            requires
                0 <= duty <= 0x8000,
                0 <= max_duty <= 0xFFFF,
        ;
    }
    let quotient = rounded_div_u32(duty * (max_duty as u32), DUTY_FULL as u32);
    quotient as u16
}

/// What is programmed into one PWM slice for a requested group, once the
/// frequency is set and the hardware has told the greatest duty value of each
/// of its two channels.
pub fn group_setting(group: &OutputGroup, max_duty_a: u16, max_duty_b: u16) -> (setting:
    OutputGroup)
    ensures
        setting.frequency == clamped_frequency(group.frequency),
        setting.duty_cycle@.len() == 2,
        setting.duty_cycle@[0] == scaled_duty(group.duty_cycle@[0], max_duty_a),
        setting.duty_cycle@[1] == scaled_duty(group.duty_cycle@[1], max_duty_b),
{
    let setting = OutputGroup {
        duty_cycle: [
            scale_duty(group.duty_cycle[0], max_duty_a),
            scale_duty(group.duty_cycle[1], max_duty_b),
        ],
        frequency: clamp_frequency(group.frequency),
    };
    setting
}

/// Answers a request to read the outputs: the frequency and the two duty
/// values of each group as the hardware holds them, not scaled back.
pub fn handle_output_get(hardware: &[OutputGroup; 8]) -> (response: OutputGetRes)
    ensures
        response.0 == *hardware,
{
    OutputGetRes(*hardware)
}

} // verus!
