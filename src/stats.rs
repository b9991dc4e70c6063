//! Per-driver accumulators and the statistics derived from two samples of them.
//!
//! Derived quantities are exact fractions: a [`Ratio`] stands for
//! `num / den`, and for zero when `den` is zero. Rates are per second, delays
//! and jitter in microseconds.

use vstd::prelude::*;
use crate::frame::Protocol;

verus! {

pub const MICROS_PER_SECOND: u64 = 1_000_000;

pub open spec fn sat_add(a: u64, b: int) -> u64 {
    if a + b > u64::MAX { u64::MAX } else { (a + b) as u64 }
}

/// Microseconds from `from` to `to`; zero when the clock went backwards.
pub open spec fn elapsed(from: u64, to: u64) -> u64 {
    if to >= from { (to - from) as u64 } else { 0 }
}

/// Monotonic counters of one direction of one driver.
#[derive(Clone, Copy, Debug, PartialEq, Eq, Default)]
pub struct DriverStatsInfoInner {
    /// Time of the last counted frame, microseconds since the epoch.
    pub last_update: u64,
    pub messages: u64,
    pub bytes: u64,
    /// Sum over the counted frames of the time from ingest to counting.
    pub delay: u64,
}

/// The accumulators of one driver, one per direction; `None` until the first
/// frame in that direction.
#[derive(Clone, Copy, Debug, PartialEq, Eq, Default)]
pub struct DriverStatsInfo {
    pub input: Option<DriverStatsInfoInner>,
    pub output: Option<DriverStatsInfoInner>,
}

pub open spec fn empty_inner() -> DriverStatsInfoInner {
    DriverStatsInfoInner { last_update: 0, messages: 0, bytes: 0, delay: 0 }
}

/// The counters after one more frame of `bytes` bytes, ingested at
/// `timestamp` and counted at `now`. Counters stop at `u64::MAX`; the time of
/// the last update never goes back, even when the clock does.
pub open spec fn counted(
    a: DriverStatsInfoInner,
    bytes: nat,
    timestamp: u64,
    now: u64,
) -> DriverStatsInfoInner {
    DriverStatsInfoInner {
        last_update: if now >= a.last_update { now } else { a.last_update },
        messages: sat_add(a.messages, 1),
        bytes: sat_add(a.bytes, bytes as int),
        delay: sat_add(a.delay, elapsed(timestamp, now) as int),
    }
}

pub open spec fn counted_opt(
    a: Option<DriverStatsInfoInner>,
    bytes: nat,
    timestamp: u64,
    now: u64,
) -> Option<DriverStatsInfoInner> {
    Some(
        counted(
            match a {
                Some(x) => x,
                None => empty_inner(),
            },
            bytes,
            timestamp,
            now,
        ),
    )
}

/// No counter of `b` is below the same counter of `a`.
pub open spec fn inner_no_decrease(a: Option<DriverStatsInfoInner>, b: Option<DriverStatsInfoInner>) -> bool {
    match a {
        None => true,
        Some(x) => match b {
            None => false,
            Some(y) => x.messages <= y.messages && x.bytes <= y.bytes && x.delay <= y.delay
                && x.last_update <= y.last_update,
        },
    }
}

pub open spec fn no_decrease(a: DriverStatsInfo, b: DriverStatsInfo) -> bool {
    inner_no_decrease(a.input, b.input) && inner_no_decrease(a.output, b.output)
}

/// One frame counted by a driver, with its size, ingest time and the moment
/// of counting.
#[derive(Clone, Copy, Debug, PartialEq, Eq)]
pub enum StatsEvent {
    Input { bytes: u64, timestamp: u64, now: u64 },
    Output { bytes: u64, timestamp: u64, now: u64 },
}

pub open spec fn apply_event(a: DriverStatsInfo, e: StatsEvent) -> DriverStatsInfo {
    match e {
        StatsEvent::Input { bytes, timestamp, now } => DriverStatsInfo {
            input: counted_opt(a.input, bytes as nat, timestamp, now),
            output: a.output,
        },
        StatsEvent::Output { bytes, timestamp, now } => DriverStatsInfo {
            input: a.input,
            output: counted_opt(a.output, bytes as nat, timestamp, now),
        },
    }
}

pub open spec fn apply_events(a: DriverStatsInfo, es: Seq<StatsEvent>) -> DriverStatsInfo
    decreases es.len(),
{
    if es.len() == 0 {
        a
    } else {
        apply_events(apply_event(a, es[0]), es.skip(1))
    }
}

/// Between two resets the counters of a driver never decrease: whatever
/// frames it counts, in either direction, every counter and the time of the
/// last update end at least where they started.
pub proof fn lemma_counters_monotone(a: DriverStatsInfo, es: Seq<StatsEvent>)
    ensures
        no_decrease(a, apply_events(a, es)),
    decreases es.len(),
{
    if es.len() > 0 {
        let b = apply_event(a, es[0]);
        lemma_counters_monotone(b, es.skip(1));
    }
}

impl DriverStatsInfoInner {
    /// Counts one frame of `bytes` bytes ingested at `timestamp`, at `now`.
    pub fn count(&mut self, bytes: u64, timestamp: u64, now: u64)
        ensures
            *final(self) == counted(*old(self), bytes as nat, timestamp, now),
    {
        let delay: u64 = if now >= timestamp { now - timestamp } else { 0 };
        if now >= self.last_update {
            self.last_update = now;
        }
        self.messages = self.messages.saturating_add(1);
        self.bytes = self.bytes.saturating_add(bytes);
        self.delay = self.delay.saturating_add(delay);
    }
}

impl DriverStatsInfo {
    pub fn new() -> (r: Self)
        ensures
            r.input.is_none(),
            r.output.is_none(),
    {
        DriverStatsInfo { input: None, output: None }
    }

    /// Counts `frame`, received from the transport, at time `now`.
    pub fn update_input(&mut self, frame: &Protocol, now: u64)
        ensures
            *final(self) == apply_event(
                *old(self),
                StatsEvent::Input { bytes: frame.raw().len() as u64, timestamp: frame.time(), now },
            ),
            no_decrease(*old(self), *final(self)),
    {
        let bytes = frame.raw_bytes().len() as u64;
        let mut inner = match self.input {
            Some(x) => x,
            None => DriverStatsInfoInner { last_update: 0, messages: 0, bytes: 0, delay: 0 },
        };
        inner.count(bytes, frame.timestamp(), now);
        self.input = Some(inner);
    }

    /// Counts `frame`, written to the transport, at time `now`.
    pub fn update_output(&mut self, frame: &Protocol, now: u64)
        ensures
            *final(self) == apply_event(
                *old(self),
                StatsEvent::Output { bytes: frame.raw().len() as u64, timestamp: frame.time(), now },
            ),
            no_decrease(*old(self), *final(self)),
    {
        let bytes = frame.raw_bytes().len() as u64;
        let mut inner = match self.output {
            Some(x) => x,
            None => DriverStatsInfoInner { last_update: 0, messages: 0, bytes: 0, delay: 0 },
        };
        inner.count(bytes, frame.timestamp(), now);
        self.output = Some(inner);
    }

    /// Forgets every count.
    pub fn reset(&mut self)
        ensures
            final(self).input.is_none(),
            final(self).output.is_none(),
    {
        self.input = None;
        self.output = None;
    }
}

/// The fraction `num / den`; its value is zero when `den` is zero.
#[derive(Clone, Copy, Debug, PartialEq, Eq)]
pub struct Ratio {
    pub num: u128,
    pub den: u128,
}

/// `numerator / denominator`, or zero when the denominator is zero.
pub open spec fn safe_ratio(numerator: int, denominator: int) -> Ratio {
    if denominator > 0 {
        Ratio { num: numerator as u128, den: denominator as u128 }
    } else {
        Ratio { num: 0, den: 1 }
    }
}

/// `count` events over `window` microseconds, as a rate per second.
pub open spec fn rate(count: u64, window: u64) -> Ratio {
    safe_ratio(count * MICROS_PER_SECOND, window as int)
}

/// Mean delay per message.
pub open spec fn mean_delay(delay: u64, messages: u64) -> Ratio {
    safe_ratio(delay as int, messages as int)
}

pub open spec fn abs_diff(a: int, b: int) -> int {
    if a >= b { a - b } else { b - a }
}

/// `|x - y|` as a fraction over the product of the denominators.
pub open spec fn ratio_distance(x: Ratio, y: Ratio) -> Ratio {
    Ratio {
        num: abs_diff(x.num * y.den, y.num * x.den) as u128,
        den: (x.den * y.den) as u128,
    }
}

/// Statistics of one direction of one driver over the last sampling window.
#[derive(Clone, Copy, Debug, PartialEq, Eq)]
pub struct DriverStatsInner {
    pub last_message_time: u64,
    pub total_bytes: u64,
    pub bytes_per_second: Ratio,
    pub average_bytes_per_second: Ratio,
    pub total_messages: u64,
    pub messages_per_second: Ratio,
    pub average_messages_per_second: Ratio,
    pub delay: Ratio,
    pub jitter: Ratio,
}

#[derive(Clone, Copy, Debug, PartialEq, Eq)]
pub struct DriverStats {
    pub input: Option<DriverStatsInner>,
    pub output: Option<DriverStatsInner>,
}

/// The sampling window in microseconds; zero without an earlier sample.
pub open spec fn window_of(last: Option<DriverStatsInfoInner>, current: DriverStatsInfoInner) -> u64 {
    match last {
        Some(l) => elapsed(l.last_update, current.last_update),
        None => 0,
    }
}

/// The statistics derived from the previous sample `last` and the current
/// one, counting averages from `start_time`.
pub open spec fn derived(
    last: Option<DriverStatsInfoInner>,
    current: Option<DriverStatsInfoInner>,
    start_time: u64,
) -> Option<DriverStatsInner> {
    match current {
        None => None,
        Some(c) => {
            let window = window_of(last, c);
            let total_time = elapsed(start_time, c.last_update);
            let l = match last {
                Some(l) => l,
                None => empty_inner(),
            };
            let delay = mean_delay(c.delay, c.messages);
            Some(DriverStatsInner {
                last_message_time: c.last_update,
                total_bytes: c.bytes,
                bytes_per_second: rate(elapsed(l.bytes, c.bytes), window),
                average_bytes_per_second: rate(c.bytes, total_time),
                total_messages: c.messages,
                messages_per_second: rate(elapsed(l.messages, c.messages), window),
                average_messages_per_second: rate(c.messages, total_time),
                delay,
                jitter: ratio_distance(delay, mean_delay(l.delay, l.messages)),
            })
        },
    }
}

/// `numerator / denominator`, or zero when the denominator is zero.
pub fn divide_safe(numerator: u128, denominator: u128) -> (r: Ratio)
    ensures
        r == safe_ratio(numerator as int, denominator as int),
{
    if denominator > 0 {
        Ratio { num: numerator, den: denominator }
    } else {
        Ratio { num: 0, den: 1 }
    }
}

/// Microseconds between the previous sample and the current one; zero when
/// there is no previous sample, so that no rate is reported.
pub fn time_diff(last_stats: Option<&DriverStatsInfoInner>, current_stats: &DriverStatsInfoInner) -> (r: u64)
    ensures
        r == window_of(
            match last_stats {
                Some(l) => Some(*l),
                None => None,
            },
            *current_stats,
        ),
{
    match last_stats {
        Some(l) => {
            if current_stats.last_update >= l.last_update {
                current_stats.last_update - l.last_update
            } else {
                0
            }
        },
        None => 0,
    }
}

/// Microseconds from `start_time` to the last counted frame.
pub fn total_time_since_start(start_time: u64, current_stats: &DriverStatsInfoInner) -> (r: u64)
    ensures
        r == elapsed(start_time, current_stats.last_update),
{
    if current_stats.last_update >= start_time {
        current_stats.last_update - start_time
    } else {
        0
    }
}

fn rate_of(count: u64, window: u64) -> (r: Ratio)
    ensures
        r == rate(count, window),
{
    divide_safe(count as u128 * 1_000_000u128, window as u128)
}

fn mean_delay_of(delay: u64, messages: u64) -> (r: Ratio)
    ensures
        r == mean_delay(delay, messages),
        r.num <= u64::MAX,
        0 < r.den <= u64::MAX,
{
    divide_safe(delay as u128, messages as u128)
}

fn distance(x: Ratio, y: Ratio) -> (r: Ratio)
    requires
        x.num <= u64::MAX,
        x.den <= u64::MAX,
        y.num <= u64::MAX,
        y.den <= u64::MAX,
    ensures
        r == ratio_distance(x, y),
{
    proof {
        assert(x.num * y.den <= u64::MAX * u64::MAX) by (nonlinear_arith)
            requires x.num <= u64::MAX, y.den <= u64::MAX, 0 <= x.num, 0 <= y.den;
        assert(y.num * x.den <= u64::MAX * u64::MAX) by (nonlinear_arith)
            requires y.num <= u64::MAX, x.den <= u64::MAX, 0 <= y.num, 0 <= x.den;
        assert(x.den * y.den <= u64::MAX * u64::MAX) by (nonlinear_arith)
            requires x.den <= u64::MAX, y.den <= u64::MAX, 0 <= x.den, 0 <= y.den;
        assert(u64::MAX * u64::MAX <= u128::MAX);
    }
    let a = x.num * y.den;
    let b = y.num * x.den;
    let num = if a >= b { a - b } else { b - a };
    Ratio { num, den: x.den * y.den }
}

/// The statistics of one direction from the previous sample and the current
/// one: rates over the window between them, averages since `start_time`, the
/// mean delay and how far it moved since the previous sample.
pub fn calculate_driver_stats(
    last_stats: Option<DriverStatsInfoInner>,
    current_stats: Option<DriverStatsInfoInner>,
    start_time: u64,
) -> (r: Option<DriverStatsInner>)
    ensures
        r == derived(last_stats, current_stats, start_time),
{
    match current_stats {
        None => None,
        Some(c) => {
            let window = time_diff(last_stats.as_ref(), &c);
            let total_time = total_time_since_start(start_time, &c);
            let l = match last_stats {
                Some(l) => l,
                None => DriverStatsInfoInner { last_update: 0, messages: 0, bytes: 0, delay: 0 },
            };
            let diff_messages: u64 = if c.messages >= l.messages { c.messages - l.messages } else { 0 };
            let diff_bytes: u64 = if c.bytes >= l.bytes { c.bytes - l.bytes } else { 0 };
            let delay = mean_delay_of(c.delay, c.messages);
            let last_delay = mean_delay_of(l.delay, l.messages);
            Some(DriverStatsInner {
                last_message_time: c.last_update,
                total_bytes: c.bytes,
                bytes_per_second: rate_of(diff_bytes, window),
                average_bytes_per_second: rate_of(c.bytes, total_time),
                total_messages: c.messages,
                messages_per_second: rate_of(diff_messages, window),
                average_messages_per_second: rate_of(c.messages, total_time),
                delay,
                jitter: distance(delay, last_delay),
            })
        },
    }
}

/// Both directions of one driver.
pub fn calculate_stats(last: Option<DriverStatsInfo>, current: DriverStatsInfo, start_time: u64) -> (r: DriverStats)
    ensures
        r.input == derived(
            match last { Some(l) => l.input, None => None },
            current.input,
            start_time,
        ),
        r.output == derived(
            match last { Some(l) => l.output, None => None },
            current.output,
            start_time,
        ),
{
    let (last_input, last_output) = match last {
        Some(l) => (l.input, l.output),
        None => (None, None),
    };
    DriverStats {
        input: calculate_driver_stats(last_input, current.input, start_time),
        output: calculate_driver_stats(last_output, current.output, start_time),
    }
}

/// A source that emits one frame every `period` microseconds is reported at
/// exactly `1 / period` frames per microsecond, that is `1_000_000 / period`
/// per second, over any window of whole periods; and the total is the count
/// of frames.
pub proof fn lemma_rate_of_steady_source(
    last: DriverStatsInfoInner,
    current: DriverStatsInfoInner,
    n: u64,
    period: u64,
    start_time: u64,
)
    requires
        n > 0,
        period > 0,
        current.messages == last.messages + n,
        current.last_update == last.last_update + n * period,
    ensures
        ({
            let d = derived(Some(last), Some(current), start_time)->Some_0;
            &&& d.messages_per_second.num * period == d.messages_per_second.den * MICROS_PER_SECOND
            &&& d.total_messages == current.messages
        }),
{
    let window = (n * period) as u64;
    assert(window > 0) by (nonlinear_arith)
        requires n > 0, period > 0, window == n * period;
    assert(n * MICROS_PER_SECOND * period == (n * period) * MICROS_PER_SECOND) by (nonlinear_arith);
}

/// A source whose frames all wait the same time (a mean delay unchanged
/// between two samples) shows no jitter; one whose mean delay moved shows some.
pub proof fn lemma_jitter(last: DriverStatsInfoInner, current: DriverStatsInfoInner, start_time: u64)
    requires
        last.messages > 0,
        current.messages > 0,
    ensures
        ({
            let d = derived(Some(last), Some(current), start_time)->Some_0;
            &&& (current.delay * last.messages == last.delay * current.messages) <==> d.jitter.num == 0
            &&& d.jitter.den > 0
        }),
{
    let a = current.delay * last.messages;
    let b = last.delay * current.messages;
    assert(0 <= a <= u64::MAX * u64::MAX) by (nonlinear_arith)
        requires a == current.delay * last.messages, current.delay <= u64::MAX, last.messages <= u64::MAX;
    assert(0 <= b <= u64::MAX * u64::MAX) by (nonlinear_arith)
        requires b == last.delay * current.messages, last.delay <= u64::MAX, current.messages <= u64::MAX;
    assert(0 < current.messages * last.messages <= u64::MAX * u64::MAX) by (nonlinear_arith)
        requires current.messages > 0, last.messages > 0, current.messages <= u64::MAX, last.messages <= u64::MAX;
    assert(u64::MAX * u64::MAX <= u128::MAX);
}

} // verus!
