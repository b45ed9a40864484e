//! Pulse-width modulation: what an alarm does to a signal that a timer drives.

use vstd::prelude::*;

use crate::utils::physical_quantities::duration::SmallDuration;

verus! {

/// What the alarm of a timer does to the pin of a PWM signal.
#[derive(Clone, Copy, Debug, PartialEq, Eq, Structural)]
pub struct AlarmStep {
    /// The level that the pin is set to, `true` for high.
    pub set_high: bool,
    /// The time, in ticks of the timer, at which the alarm is to fire next.
    pub alarm: u64,
}

/// The step that an alarm takes at the time `now`, in ticks of a timer of `clock_hertz`
/// hertz, on a pin whose level is `is_high`: the level changes, and the alarm fires again
/// once the new level has lasted as long as it is to last.
pub open spec fn spec_alarm_step(
    is_high: bool,
    now: u64,
    while_on: SmallDuration,
    while_off: SmallDuration,
    clock_hertz: u32,
) -> (bool, int) {
    if is_high {
        (false, now + SmallDuration::spec_ticks(while_on@, clock_hertz as nat))
    } else {
        (true, now + SmallDuration::spec_ticks(while_off@, clock_hertz as nat))
    }
}

/// The step that an alarm takes at the time `now` on a pin whose level is `is_high`. The
/// time of the next alarm must be one that the timer counts up to.
pub fn alarm_step(
    is_high: bool,
    now: u64,
    while_on: SmallDuration,
    while_off: SmallDuration,
    clock_hertz: u32,
) -> (step: AlarmStep)
    requires
        spec_alarm_step(is_high, now, while_on, while_off, clock_hertz).1 <= u64::MAX,
    ensures
        step.set_high == spec_alarm_step(is_high, now, while_on, while_off, clock_hertz).0,
        step.alarm == spec_alarm_step(is_high, now, while_on, while_off, clock_hertz).1,
        step.set_high == !is_high,
{
    if is_high {
        AlarmStep { set_high: false, alarm: now + while_on.ticks_at(clock_hertz) }
    } else {
        AlarmStep { set_high: true, alarm: now + while_off.ticks_at(clock_hertz) }
    }
}

/// The step that an alarm takes at the time `now` on a pin whose level is `is_high`, or
/// `None` where the time of the next alarm is beyond what the timer counts up to.
pub fn checked_alarm_step(
    is_high: bool,
    now: u64,
    while_on: SmallDuration,
    while_off: SmallDuration,
    clock_hertz: u32,
) -> (step: Option<AlarmStep>)
    ensures
        step is Some <==> spec_alarm_step(is_high, now, while_on, while_off, clock_hertz).1
            <= u64::MAX,
        step matches Some(taken) ==> taken.set_high == !is_high && taken.alarm == spec_alarm_step(
            is_high,
            now,
            while_on,
            while_off,
            clock_hertz,
        ).1,
{
    let lasting = if is_high {
        while_on.ticks_at(clock_hertz)
    } else {
        while_off.ticks_at(clock_hertz)
    };
    if lasting > u64::MAX - now {
        None
    } else {
        Some(alarm_step(is_high, now, while_on, while_off, clock_hertz))
    }
}

} // verus!
