//! Wall-clock arithmetic used to schedule the next lighting transition.
use vstd::prelude::*;

verus! {

/// Seconds in one civil day.
pub const SECONDS_PER_DAY: u32 = 24 * 60 * 60;

/// Second of the day described by a (possibly out-of-range) clock reading;
/// each field is first reduced into its own range.
pub open spec fn second_of_day(hour: u8, minute: u8, second: u8) -> int {
    (hour % 24) as int * 3600 + (minute % 60) as int * 60 + (second % 60) as int
}

/// Second of the day at which the minute `target_minute_of_day` (reduced
/// modulo one day) begins.
pub open spec fn target_second_of_day(target_minute_of_day: u16) -> int {
    (target_minute_of_day % 1440) as int * 60
}

/// Waiting `delay` seconds from the clock reading lands exactly on the start
/// of `target_minute_of_day` (modulo one day).
pub open spec fn lands_on_target(hour: u8, minute: u8, second: u8, target_minute_of_day: u16, delay: int) -> bool {
    (second_of_day(hour, minute, second) + delay) % (SECONDS_PER_DAY as int)
        == target_second_of_day(target_minute_of_day)
}

/// The delay as a formula: the distance from the clock reading forward to
/// the target, around the clock, with a full day in place of zero.
pub open spec fn delay_until(hour: u8, minute: u8, second: u8, target_minute_of_day: u16) -> int {
    let d = (target_second_of_day(target_minute_of_day) - second_of_day(hour, minute, second))
        % (SECONDS_PER_DAY as int);
    if d == 0 {
        SECONDS_PER_DAY as int
    } else {
        d
    }
}

/// Number of seconds from the clock reading until the next start of
/// `target_minute_of_day`.  When the clock is exactly at the target, the
/// next occurrence is one full day later, never "now".
///
/// The result is the least positive delay that lands on the target.
pub fn seconds_until_minute(hour: u8, minute: u8, second: u8, target_minute_of_day: u16) -> (delay: u32)
    ensures
        delay == delay_until(hour, minute, second, target_minute_of_day),
        0 < delay <= SECONDS_PER_DAY,
        lands_on_target(hour, minute, second, target_minute_of_day, delay as int),
        forall|d: int|
            0 < d < delay ==> !#[trigger] lands_on_target(hour, minute, second, target_minute_of_day, d),
{
    let now: u32 = (hour % 24) as u32 * 3600 + (minute % 60) as u32 * 60 + (second % 60) as u32;
    let target: u32 = (target_minute_of_day % 1440) as u32 * 60;
    let delta: u32 = (target + SECONDS_PER_DAY - now) % SECONDS_PER_DAY;
    proof {
        let n = second_of_day(hour, minute, second);
        let t = target_second_of_day(target_minute_of_day);
        assert(now == n);
        assert(target == t);
        assert(0 <= n < 86400);
        assert(0 <= t < 86400);
        if t >= n {
            assert(delta == t - n) by {
                vstd::arithmetic::div_mod::lemma_mod_add_multiples_vanish(t - n, 86400);
                vstd::arithmetic::div_mod::lemma_small_mod((t - n) as nat, 86400);
            }
        } else {
            assert(delta == t + 86400 - n) by {
                vstd::arithmetic::div_mod::lemma_small_mod((t + 86400 - n) as nat, 86400);
            }
        }
        assert forall|d: int| 0 < d < delta || (delta == 0 && 0 < d < 86400) implies !#[trigger] lands_on_target(hour, minute, second, target_minute_of_day, d) by {
            if n + d < 86400 {
                vstd::arithmetic::div_mod::lemma_small_mod((n + d) as nat, 86400);
            } else {
                vstd::arithmetic::div_mod::lemma_mod_sub_multiples_vanish(n + d, 86400);
                vstd::arithmetic::div_mod::lemma_small_mod((n + d - 86400) as nat, 86400);
            }
        }
    }
    if delta == 0 {
        proof {
            vstd::arithmetic::div_mod::lemma_mod_add_multiples_vanish(
                second_of_day(hour, minute, second),
                86400,
            );
            vstd::arithmetic::div_mod::lemma_small_mod(
                second_of_day(hour, minute, second) as nat,
                86400,
            );
        }
        SECONDS_PER_DAY
    } else {
        proof {
            let n = second_of_day(hour, minute, second);
            let t = target_second_of_day(target_minute_of_day);
            if t >= n {
                vstd::arithmetic::div_mod::lemma_small_mod(t as nat, 86400);
            } else {
                vstd::arithmetic::div_mod::lemma_mod_add_multiples_vanish(t, 86400);
                vstd::arithmetic::div_mod::lemma_small_mod(t as nat, 86400);
            }
        }
        delta
    }
}

} // verus!
