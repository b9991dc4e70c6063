use mavlink_server::actor::{StatsActor, StatsCommand, StatsReply};
use mavlink_server::drivers::FakeSource;
use mavlink_server::frame::Protocol;
use mavlink_server::hub::MessageKey;
use mavlink_server::stats::{
    calculate_driver_stats, calculate_stats, divide_safe, time_diff, total_time_since_start,
    DriverStatsInfo, DriverStatsInfoInner, Ratio,
};

fn value(r: Ratio) -> f64 {
    if r.den == 0 {
        0.0
    } else {
        r.num as f64 / r.den as f64
    }
}

fn heartbeat_at(timestamp: u64) -> Protocol {
    let mut source = FakeSource::builder(1000).build();
    let raw = source.next_messages().pop().unwrap().to_raw_vec();
    Protocol::new_with_timestamp(timestamp, "src", raw)
}

fn inner(last_update: u64, messages: u64, bytes: u64, delay: u64) -> DriverStatsInfoInner {
    DriverStatsInfoInner { last_update, messages, bytes, delay }
}

#[test]
fn update_counts_each_frame() {
    let mut info = DriverStatsInfo::new();
    let f = heartbeat_at(1_000);
    info.update_input(&f, 1_500);
    assert_eq!(info.input, Some(inner(1_500, 1, 21, 500)));
    assert_eq!(info.output, None);
    info.update_input(&f, 2_000);
    assert_eq!(info.input, Some(inner(2_000, 2, 42, 1_500)));
    info.update_output(&f, 900);
    assert_eq!(info.output, Some(inner(900, 1, 21, 0)));
}

#[test]
fn counters_never_decrease_between_resets() {
    let mut info = DriverStatsInfo::new();
    let mut previous = (0u64, 0u64, 0u64);
    for i in 0..50u64 {
        let f = heartbeat_at(10 * i);
        info.update_input(&f, 10 * i + (i % 7));
        let x = info.input.unwrap();
        assert!(x.messages >= previous.0 && x.bytes >= previous.1 && x.delay >= previous.2);
        previous = (x.messages, x.bytes, x.delay);
    }
    info.reset();
    assert_eq!(info.input, None);
    assert_eq!(info.output, None);
}

#[test]
fn counters_saturate() {
    let mut x = inner(0, u64::MAX, u64::MAX - 1, u64::MAX);
    x.count(5, 0, 10);
    assert_eq!(x, inner(10, u64::MAX, u64::MAX, u64::MAX));
}

#[test]
fn safe_division() {
    assert_eq!(divide_safe(7, 0), Ratio { num: 0, den: 1 });
    assert_eq!(divide_safe(7, 2), Ratio { num: 7, den: 2 });
}

#[test]
fn windows_and_totals() {
    let last = inner(1_000, 1, 1, 1);
    let cur = inner(3_500, 2, 2, 2);
    assert_eq!(time_diff(Some(&last), &cur), 2_500);
    assert_eq!(time_diff(None, &cur), 0);
    assert_eq!(time_diff(Some(&cur), &last), 0);
    assert_eq!(total_time_since_start(500, &cur), 3_000);
    assert_eq!(total_time_since_start(5_000, &cur), 0);
}

#[test]
fn rate_stats_at_100_hz_for_3_seconds() {
    let start = 10_000_000u64;
    let mut info = DriverStatsInfo::new();
    let mut samples = Vec::new();
    for i in 1..=300u64 {
        let t = start + i * 10_000;
        info.update_output(&heartbeat_at(t - 100), t);
        if i % 100 == 0 {
            samples.push(info.output.unwrap());
        }
    }
    let d = calculate_driver_stats(Some(samples[1]), Some(samples[2]), start).unwrap();
    let mps = value(d.messages_per_second);
    assert!((90.0..=110.0).contains(&mps));
    assert_eq!(mps, 100.0);
    assert_eq!(d.total_messages, 300);
    assert_eq!(value(d.average_messages_per_second), 100.0);
    assert_eq!(value(d.bytes_per_second), 2_100.0);
    assert_eq!(d.total_bytes, 6_300);
    assert_eq!(value(d.delay), 100.0);
    assert_eq!(value(d.jitter), 0.0);
    assert_eq!(d.last_message_time, start + 3_000_000);
}

#[test]
fn first_sample_reports_no_rate() {
    let d = calculate_driver_stats(None, Some(inner(2_000_000, 10, 210, 50)), 1_000_000).unwrap();
    assert_eq!(value(d.messages_per_second), 0.0);
    assert_eq!(value(d.average_messages_per_second), 10.0);
    assert_eq!(value(d.delay), 5.0);
    assert_eq!(value(d.jitter), 5.0);
    assert!(calculate_driver_stats(None, None, 0).is_none());
}

#[test]
fn jitter_of_alternating_source() {
    let last = inner(1_000_000, 10, 0, 100);
    let cur = inner(2_000_000, 30, 0, 500);
    let d = calculate_driver_stats(Some(last), Some(cur), 0).unwrap();
    assert!(value(d.jitter) > 0.0);
    assert!((value(d.jitter) - (500.0 / 30.0 - 10.0)).abs() < 1e-9);
    let steady = inner(2_000_000, 30, 0, 300);
    let d = calculate_driver_stats(Some(last), Some(steady), 0).unwrap();
    assert_eq!(d.jitter.num, 0);
}

#[test]
fn both_directions_derived() {
    let last = DriverStatsInfo { input: Some(inner(0, 0, 0, 0)), output: None };
    let cur = DriverStatsInfo { input: Some(inner(1_000_000, 5, 105, 0)), output: Some(inner(1_000_000, 1, 21, 0)) };
    let s = calculate_stats(Some(last), cur, 0);
    assert_eq!(value(s.input.unwrap().messages_per_second), 5.0);
    assert_eq!(value(s.output.unwrap().messages_per_second), 0.0);
}

fn sample(name: &str, info: DriverStatsInfo) -> (String, DriverStatsInfo) {
    (name.to_string(), info)
}

#[test]
fn reset_zeroes_totals_at_next_sample() {
    let mut actor = StatsActor::new(1_000_000, 0);
    let mut source = DriverStatsInfo::new();
    let mut sink = DriverStatsInfo::new();
    for i in 1..=300u64 {
        let f = heartbeat_at(i * 10_000);
        source.update_input(&f, i * 10_000);
        sink.update_output(&f, i * 10_000 + 5);
    }
    actor.update_driver_stats(vec![sample("source", source), sample("sink", sink)]);
    let before = actor.drivers_stats();
    assert_eq!(before[0].1.input.unwrap().total_messages, 300);
    assert_eq!(before[1].1.output.unwrap().total_messages, 300);

    match actor.handle_command(StatsCommand::Reset, 4_000_000) {
        StatsReply::ResetDone => {}
        other => panic!("unexpected reply {:?}", other),
    }
    source.reset();
    sink.reset();
    assert!(actor.drivers_stats().is_empty());
    actor.update_driver_stats(vec![sample("source", source), sample("sink", sink)]);
    for (_, s) in actor.drivers_stats() {
        assert_eq!(s.input.map_or(0, |x| x.total_messages), 0);
        assert_eq!(s.output.map_or(0, |x| x.total_messages), 0);
    }
}

#[test]
fn every_command_gets_its_reply() {
    let mut actor = StatsActor::new(500, 0);
    assert!(matches!(actor.handle_command(StatsCommand::SetPeriod { period_us: 2_000 }, 1), StatsReply::PeriodSet));
    assert_eq!(actor.update_period(), 2_000);
    assert!(matches!(actor.handle_command(StatsCommand::Reset, 2), StatsReply::ResetDone));
    match actor.handle_command(StatsCommand::GetDriversStats, 3) {
        StatsReply::DriversStats(v) => assert!(v.is_empty()),
        other => panic!("unexpected reply {:?}", other),
    }
    match actor.handle_command(StatsCommand::GetHubStats, 4) {
        StatsReply::HubStats(s) => assert!(s.input.is_none() && s.output.is_none()),
        other => panic!("unexpected reply {:?}", other),
    }
    match actor.handle_command(StatsCommand::GetHubMessagesStats, 5) {
        StatsReply::HubMessagesStats(v) => assert!(v.is_empty()),
        other => panic!("unexpected reply {:?}", other),
    }
}

#[test]
fn hub_and_message_sampling() {
    let mut actor = StatsActor::new(1_000_000, 0);
    let key = MessageKey { system_id: 1, component_id: 2, message_id: 0 };
    actor.update_messages_stats(vec![(key, inner(1_000_000, 10, 210, 0))]);
    actor.update_messages_stats(vec![(key, inner(2_000_000, 60, 1_260, 0))]);
    let m = actor.messages_stats();
    assert_eq!(m.len(), 1);
    assert_eq!(m[0].0, key);
    assert_eq!(value(m[0].1.messages_per_second), 50.0);
    assert_eq!(value(m[0].1.average_messages_per_second), 30.0);

    actor.update_hub_stats(DriverStatsInfo { input: Some(inner(1_000_000, 4, 84, 0)), output: None });
    actor.update_hub_stats(DriverStatsInfo { input: Some(inner(3_000_000, 8, 168, 0)), output: None });
    let h = actor.hub_stats();
    assert_eq!(value(h.input.unwrap().messages_per_second), 2.0);
    assert!(h.output.is_none());

    match actor.handle_command(StatsCommand::Reset, 7) {
        StatsReply::ResetDone => {}
        other => panic!("unexpected reply {:?}", other),
    }
    assert!(actor.messages_stats().is_empty());
    assert!(actor.hub_stats().input.is_none());
}

#[test]
fn sampling_uses_each_drivers_own_previous_sample() {
    let mut actor = StatsActor::new(1_000_000, 0);
    let a1 = DriverStatsInfo { input: Some(inner(1_000_000, 10, 0, 0)), output: None };
    let b1 = DriverStatsInfo { input: Some(inner(1_000_000, 50, 0, 0)), output: None };
    actor.update_driver_stats(vec![sample("a", a1), sample("b", b1)]);
    let a2 = DriverStatsInfo { input: Some(inner(2_000_000, 30, 0, 0)), output: None };
    let b2 = DriverStatsInfo { input: Some(inner(2_000_000, 60, 0, 0)), output: None };
    actor.update_driver_stats(vec![sample("b", b2), sample("a", a2)]);
    let out = actor.drivers_stats();
    assert_eq!(out[0].0, "b");
    assert_eq!(value(out[0].1.input.unwrap().messages_per_second), 10.0);
    assert_eq!(out[1].0, "a");
    assert_eq!(value(out[1].1.input.unwrap().messages_per_second), 20.0);
}

#[test]
fn last_update_never_goes_back() {
    let mut info = DriverStatsInfo::new();
    let f = heartbeat_at(1_000);
    info.update_input(&f, 5_000);
    info.update_input(&f, 4_000);
    assert_eq!(info.input, Some(inner(5_000, 2, 42, 7_000)));
}
