//! The timing of a frame: drawing, waiting for a key, and the tick.
use vstd::prelude::*;

verus! {

/// A tick, in nanoseconds.
pub open spec fn tick_ns(tick_rate_ms: u64) -> int {
    tick_rate_ms * 1_000_000
}

/// What is left of a tick, in nanoseconds.
pub open spec fn rest_of_tick(tick_rate_ms: u64, elapsed_ns: u128) -> int {
    if elapsed_ns < tick_ns(tick_rate_ms) {
        tick_ns(tick_rate_ms) - elapsed_ns
    } else {
        0
    }
}

/// How long to wait for a key at most, in nanoseconds: until the next tick is
/// due, and not at all if it is due already.
pub fn poll_timeout_ns(tick_rate_ms: u64, elapsed_ns: u128) -> (timeout: u128)
    ensures
        timeout == rest_of_tick(tick_rate_ms, elapsed_ns),
{
    let tick: u128 = tick_rate_ms as u128 * 1_000_000;
    if elapsed_ns < tick {
        tick - elapsed_ns
    } else {
        0
    }
}

/// Whether a tick is due, so long after the last one.
pub fn tick_due(tick_rate_ms: u64, elapsed_ns: u128) -> (due: bool)
    ensures
        due == (elapsed_ns >= tick_ns(tick_rate_ms)),
{
    elapsed_ns >= tick_rate_ms as u128 * 1_000_000
}

/// The time that a tick allows for a frame, in microseconds.
pub fn tick_budget_us(tick_rate_ms: u64) -> (budget: u64)
    requires
        tick_rate_ms * 1000 <= u64::MAX,
    ensures
        budget == tick_rate_ms * 1000,
{
    tick_rate_ms * 1000
}

/// Whether the visualizer is to be fed with captured audio at a tick.
pub fn feeds_real_audio(visualizer_enabled: bool, has_real_audio: bool) -> (feeds: bool)
    ensures
        feeds == (visualizer_enabled && has_real_audio),
{
    visualizer_enabled && has_real_audio
}

/// Whether the visualizer is to be animated without audio at a tick, where
/// `used_real` says whether captured audio was there to be used.
pub fn feeds_simulation(visualizer_enabled: bool, has_real_audio: bool, used_real: bool) -> (feeds: bool)
    ensures
        feeds == (visualizer_enabled && !(has_real_audio && used_real)),
{
    visualizer_enabled && !(has_real_audio && used_real)
}

/// Whoever waits for a key as long as told finds the tick due, and never waits
/// longer than a tick.
pub proof fn law_waiting_ends_with_the_tick(tick_rate_ms: u64, elapsed_ns: u128)
    ensures
        elapsed_ns + rest_of_tick(tick_rate_ms, elapsed_ns) >= tick_ns(tick_rate_ms),
        0 <= rest_of_tick(tick_rate_ms, elapsed_ns) <= tick_ns(tick_rate_ms),
        elapsed_ns >= tick_ns(tick_rate_ms) <==> rest_of_tick(tick_rate_ms, elapsed_ns) == 0,
{
}

/// The wait for a key, together with the time since the last tick, makes up one
/// tick; there is no wait once a tick has gone by.
pub proof fn law_the_wait_fills_the_tick(tick_rate_ms: u64, elapsed_ns: u128, timeout: u128)
    requires
        call_ensures(poll_timeout_ns, (tick_rate_ms, elapsed_ns), timeout),
    ensures
        elapsed_ns <= tick_rate_ms * 1_000_000 ==> elapsed_ns + timeout == tick_rate_ms * 1_000_000,
        elapsed_ns > tick_rate_ms * 1_000_000 ==> timeout == 0,
{
}

/// A tick is due exactly when there is no time left to wait.
pub proof fn law_a_tick_is_due_when_the_wait_is_over(
    tick_rate_ms: u64,
    elapsed_ns: u128,
    timeout: u128,
    due: bool,
)
    requires
        call_ensures(poll_timeout_ns, (tick_rate_ms, elapsed_ns), timeout),
        call_ensures(tick_due, (tick_rate_ms, elapsed_ns), due),
    ensures
        due <==> timeout == 0,
        due <==> elapsed_ns >= tick_rate_ms * 1_000_000,
{
}

/// The budget of a frame is the length of a tick: a thousand microseconds for
/// each millisecond.
pub proof fn law_the_budget_is_a_tick(tick_rate_ms: u64, budget: u64)
    requires
        tick_rate_ms * 1000 <= u64::MAX,
        call_ensures(tick_budget_us, (tick_rate_ms,), budget),
    ensures
        budget == tick_rate_ms * 1000,
{
}

/// With the visualizer off it is fed with nothing. With it on, captured audio is
/// looked for where audio is captured, and the simulation runs exactly where
/// none was used: the visualizer is never fed with both, and never with neither.
pub proof fn law_the_visualizer_is_fed_once(enabled: bool, captured: bool, used: bool, feeds: bool, simulates: bool)
    requires
        call_ensures(feeds_real_audio, (enabled, captured), feeds),
        call_ensures(feeds_simulation, (enabled, captured, used), simulates),
    ensures
        !enabled ==> !feeds && !simulates,
        enabled ==> (feeds <==> captured),
        enabled && !captured ==> simulates,
        enabled && captured ==> (simulates <==> !used),
{
}

/// Frames can be timed at any tick rate, as long as its length in microseconds
/// can be counted.
pub proof fn law_any_tick_rate_can_be_timed(tick_rate_ms: u64, elapsed_ns: u128, a: bool, b: bool, c: bool)
    ensures
        call_requires(poll_timeout_ns, (tick_rate_ms, elapsed_ns)),
        call_requires(tick_due, (tick_rate_ms, elapsed_ns)),
        tick_rate_ms * 1000 <= u64::MAX ==> call_requires(tick_budget_us, (tick_rate_ms,)),
        call_requires(feeds_real_audio, (a, b)),
        call_requires(feeds_simulation, (a, b, c)),
{
}

} // verus!
