//! The daily lighting window.
use vstd::prelude::*;

use crate::config::LightingConfig;

verus! {

/// Whether the lights should be on now and the minute of the day of the
/// next change.
#[derive(Debug, Clone, Copy, PartialEq, Eq, Structural)]
pub struct LightingDecision {
    pub lights_on: bool,
    pub next_transition_minute: u16,
}

/// Length of the lighting window in minutes; a window of a day or more
/// keeps the lights on all day.
pub open spec fn window_minutes(config: LightingConfig) -> int {
    if config.duration_minutes > 1440 {
        1440
    } else {
        config.duration_minutes as int
    }
}

/// Minute of the day at which the window opens.
pub open spec fn window_start(config: LightingConfig) -> int {
    config.start_minute as int % 1440
}

/// Minutes elapsed since the window last opened, counted around the clock.
pub open spec fn minutes_since_start(minute_of_day: u16, config: LightingConfig) -> int {
    (minute_of_day as int % 1440 - window_start(config)) % 1440
}

/// Whether `minute_of_day` (taken modulo one day) lies inside the window,
/// which may cross midnight.
pub open spec fn lights_should_be_on(minute_of_day: u16, config: LightingConfig) -> bool {
    minutes_since_start(minute_of_day, config) < window_minutes(config)
}

/// Minute of the day at which the window closes.
pub open spec fn window_end(config: LightingConfig) -> int {
    (window_start(config) + window_minutes(config)) % 1440
}

/// Decides the light state at `minute_of_day` and the next minute at which
/// it changes: the end of the window while inside it, its start otherwise.
pub fn evaluate_lighting(minute_of_day: u16, config: LightingConfig) -> (decision: LightingDecision)
    ensures
        decision.lights_on == lights_should_be_on(minute_of_day, config),
        decision.next_transition_minute == (if decision.lights_on {
            window_end(config)
        } else {
            window_start(config)
        }),
        decision.next_transition_minute < 1440,
{
    let now: u16 = minute_of_day % 1440;
    let start: u16 = config.start_minute % 1440;
    let duration: u16 = if config.duration_minutes < 1440 { config.duration_minutes } else { 1440 };
    let elapsed: u16 = (now + 1440 - start) % 1440;
    proof {
        let n = now as int;
        let s = start as int;
        if n >= s {
            vstd::arithmetic::div_mod::lemma_mod_add_multiples_vanish(n - s, 1440);
            vstd::arithmetic::div_mod::lemma_small_mod((n - s) as nat, 1440);
            vstd::arithmetic::div_mod::lemma_small_mod((n - s) as nat, 1440);
        } else {
            vstd::arithmetic::div_mod::lemma_small_mod((n + 1440 - s) as nat, 1440);
            vstd::arithmetic::div_mod::lemma_mod_add_multiples_vanish(n - s, 1440);
        }
    }
    let lights_on = elapsed < duration;
    let end: u16 = (start + duration) % 1440;
    let next_transition_minute = if lights_on { end } else { start };
    LightingDecision { lights_on, next_transition_minute }
}

/// Lights are on exactly during the `window_minutes` minutes that follow the
/// window start, counted around the clock: `k` minutes after the start the
/// lights are on if and only if `k` is less than the window length.
pub proof fn lemma_window_is_contiguous(config: LightingConfig, k: int)
    requires
        0 <= k < 1440,
    ensures
        minutes_since_start(((window_start(config) + k) % 1440) as u16, config) == k,
        lights_should_be_on(((window_start(config) + k) % 1440) as u16, config) <==> k
            < window_minutes(config),
{
    let s = window_start(config);
    let m = (s + k) % 1440;
    assert(0 <= s < 1440);
    if s + k < 1440 {
        vstd::arithmetic::div_mod::lemma_small_mod((s + k) as nat, 1440);
        assert(m == s + k);
    } else {
        vstd::arithmetic::div_mod::lemma_mod_sub_multiples_vanish(s + k, 1440);
        vstd::arithmetic::div_mod::lemma_small_mod((s + k - 1440) as nat, 1440);
        assert(m == s + k - 1440);
    }
    let mm = m as u16;
    assert(mm as int == m);
    vstd::arithmetic::div_mod::lemma_small_mod(m as nat, 1440);
    assert(mm as int % 1440 == m);
    if m >= s {
        vstd::arithmetic::div_mod::lemma_small_mod((m - s) as nat, 1440);
    } else {
        vstd::arithmetic::div_mod::lemma_mod_add_multiples_vanish(m - s, 1440);
        vstd::arithmetic::div_mod::lemma_small_mod((m - s + 1440) as nat, 1440);
    }
}

/// When the window is neither empty nor a full day, the announced next
/// transition really changes the light state: only the next change is ever
/// scheduled, and it is a change.
pub proof fn lemma_next_transition_flips(minute_of_day: u16, config: LightingConfig)
    requires
        0 < window_minutes(config) < 1440,
    ensures
        lights_should_be_on(minute_of_day, config) ==> !lights_should_be_on(
            window_end(config) as u16,
            config,
        ),
        !lights_should_be_on(minute_of_day, config) ==> lights_should_be_on(
            window_start(config) as u16,
            config,
        ),
{
    lemma_window_is_contiguous(config, 0);
    lemma_window_is_contiguous(config, window_minutes(config));
    vstd::arithmetic::div_mod::lemma_small_mod(window_start(config) as nat, 1440);
}

} // verus!
