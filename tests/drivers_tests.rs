use mavlink_server::drivers::{
    callbacks_passed, continues_after, next_backoff, should_forward, ChannelError, FakeSink,
    FakeSource,
};
use mavlink_server::endpoints::{
    parse_u32, Endpoint, FakeSinkInfo, FakeSourceInfo, Serial, SerialInfo, TlogWriter,
    TlogWriterInfo,
};
use mavlink_server::frame::Protocol;
use mavlink_server::hub::{hub_stats, MessageKey, MessagesStats, Registry};
use mavlink_server::logs::LogLevel;
use mavlink_server::stats::{DriverStatsInfo, DriverStatsInfoInner};

fn frame_from(origin: &str) -> Protocol {
    let mut source = FakeSource::builder(1000).build();
    let raw = source.next_messages().pop().unwrap().to_raw_vec();
    Protocol::new_with_timestamp(1, origin, raw)
}

#[test]
fn loopback_suppressed() {
    let from_client_1 = frame_from("127.0.0.1:40001");
    assert!(!should_forward(&from_client_1, &"127.0.0.1:40001".to_string()));
    assert!(should_forward(&from_client_1, &"127.0.0.1:40002".to_string()));
}

#[test]
fn lag_continues_close_stops() {
    assert!(continues_after(ChannelError::Lagged(42)));
    assert!(!continues_after(ChannelError::Closed));
}

#[test]
fn one_failed_callback_drops_the_frame() {
    assert!(callbacks_passed(&vec![]));
    assert!(callbacks_passed(&vec![true, true]));
    assert!(!callbacks_passed(&vec![true, false, true]));
}

#[test]
fn fake_source_tags_and_sequences() {
    let mut source = FakeSource::builder(10).build();
    for i in 0..3u8 {
        let frames = source.next_messages();
        assert_eq!(frames.len(), 1);
        assert_eq!(frames[0].origin, "FakeSource");
        assert_eq!(frames[0].sequence(), i);
    }
    assert_eq!(source.period_us, 10);
    assert!(!FakeSink::builder().build().print);
    assert!(FakeSink::builder().print().build().print);
}

#[test]
fn decimal_parsing() {
    assert_eq!(parse_u32("115200"), Some(115200));
    assert_eq!(parse_u32("+57600"), Some(57600));
    assert_eq!(parse_u32("4294967295"), Some(u32::MAX));
    assert_eq!(parse_u32("4294967296"), None);
    assert_eq!(parse_u32(""), None);
    assert_eq!(parse_u32("+"), None);
    assert_eq!(parse_u32("-1"), None);
    assert_eq!(parse_u32("12a"), None);
}

#[test]
fn serial_from_url() {
    let info = SerialInfo;
    let url = url::Url::parse("serial:///dev/ttyUSB0?baudrate=57600").unwrap();
    match info.create_endpoint_from_url(&url) {
        Some(Endpoint::Serial(s)) => {
            assert_eq!(s.port_name, "/dev/ttyUSB0");
            assert_eq!(s.baud_rate, 57600);
        }
        _ => panic!("expected a serial endpoint"),
    }
    let url = url::Url::parse("serial:///dev/ttyACM0?arg2=921600").unwrap();
    match info.create_endpoint_from_url(&url) {
        Some(Endpoint::Serial(s)) => assert_eq!(s.baud_rate, 921600),
        _ => panic!("expected a serial endpoint"),
    }
    let url = url::Url::parse("serial:///dev/ttyACM0?baudrate=fast&arg2=9600").unwrap();
    match info.create_endpoint_from_url(&url) {
        Some(Endpoint::Serial(s)) => assert_eq!(s.baud_rate, 9600),
        _ => panic!("expected a serial endpoint"),
    }
    let url = url::Url::parse("serial:///dev/ttyACM0").unwrap();
    match info.create_endpoint_from_url(&url) {
        Some(Endpoint::Serial(s)) => assert_eq!(s.baud_rate, 115200),
        _ => panic!("expected a serial endpoint"),
    }
}

#[test]
fn serial_from_parts_takes_first_number() {
    let pairs = vec![
        ("other".to_string(), "1".to_string()),
        ("baudrate".to_string(), "x".to_string()),
        ("arg2".to_string(), "19200".to_string()),
        ("baudrate".to_string(), "38400".to_string()),
    ];
    let s = Serial::from_url_parts("/dev/x".to_string(), &pairs);
    assert_eq!(s.baud_rate, 19200);
    let b = Serial::builder("/dev/y", 4800).build();
    assert_eq!(b.port_name, "/dev/y");
    assert_eq!(b.baud_rate, 4800);
}

#[test]
fn endpoint_descriptors() {
    assert_eq!(SerialInfo.name(), "Serial");
    assert_eq!(SerialInfo.valid_schemes(), vec!["serial"]);
    assert_eq!(
        SerialInfo.cli_example_legacy(),
        vec!["serial:<PORT>:<BAUDRATE>", "serial:/dev/ttyACM0:115200", "serial:COM:57600"]
    );
    assert_eq!(
        SerialInfo.cli_example_url(),
        vec![
            "serial://<PORT>?baudrate=<BAUDRATE?>",
            "serial:///dev/ttyACM0?baudrate=115200",
            "serial://COM1?baudrate=57600"
        ]
    );
    assert_eq!(TlogWriterInfo.name(), "Tlogwriter");
    assert_eq!(TlogWriterInfo.valid_schemes(), vec!["tlogwriter", "tlogw"]);
    assert_eq!(TlogWriterInfo.cli_example_legacy(), vec!["tlogwriter:<FILE>", "tlogwriter:/tmp/potato.tlog"]);
    assert_eq!(TlogWriterInfo.cli_example_url(), vec!["tlogwriter://<FILE>", "tlogwriter:///tmp/potato.tlog"]);
    assert_eq!(FakeSinkInfo.name(), "FakeSink");
    assert_eq!(FakeSinkInfo.valid_schemes(), vec!["fakeclient", "fakesink", "fakec"]);
    assert!(FakeSinkInfo.cli_example_url().is_empty());
    assert_eq!(FakeSourceInfo.name(), "FakeSource");
    assert_eq!(FakeSourceInfo.valid_schemes(), vec!["fakesource", "fakeserver", "fakesrc", "fakes"]);
    let url = url::Url::parse("fakesource://?period_ms=10").unwrap();
    assert!(FakeSourceInfo.create_endpoint_from_url(&url).is_none());
    assert!(FakeSinkInfo.create_endpoint_from_url(&url).is_none());
    let url = url::Url::parse("tlogwriter:///tmp/out.tlog").unwrap();
    match TlogWriterInfo.create_endpoint_from_url(&url) {
        Some(Endpoint::TlogWriter(w)) => assert_eq!(w.path, "/tmp/out.tlog"),
        _ => panic!("expected a tlog writer"),
    }
    assert_eq!(TlogWriter::builder("/a".to_string()).build().path, "/a");
    assert_ne!(LogLevel::Info, LogLevel::Trace);
}

fn inner(last_update: u64, messages: u64, bytes: u64, delay: u64) -> DriverStatsInfoInner {
    DriverStatsInfoInner { last_update, messages, bytes, delay }
}

#[test]
fn hub_totals_per_direction() {
    let drivers = vec![
        ("a".to_string(), DriverStatsInfo { input: Some(inner(10, 2, 42, 4)), output: None }),
        ("b".to_string(), DriverStatsInfo { input: Some(inner(7, 1, 21, 1)), output: Some(inner(9, 3, 63, 0)) }),
        ("c".to_string(), DriverStatsInfo::new()),
    ];
    let t = hub_stats(&drivers);
    assert_eq!(t.input, Some(inner(10, 3, 63, 5)));
    assert_eq!(t.output, Some(inner(9, 3, 63, 0)));
    assert_eq!(hub_stats(&vec![]), DriverStatsInfo::new());
}

#[test]
fn message_stats_by_stream() {
    let mut stats = MessagesStats::new();
    let f = frame_from("x");
    stats.update(&f, 11);
    stats.update(&f, 21);
    let key = MessageKey { system_id: 1, component_id: 2, message_id: 0 };
    assert_eq!(stats.get(key), Some(inner(21, 2, 42, 30)));
    assert_eq!(stats.get(MessageKey { system_id: 1, component_id: 3, message_id: 0 }), None);
    assert_eq!(stats.all().len(), 1);
    stats.reset();
    assert_eq!(stats.get(key), None);
}

#[test]
fn registry_mints_fresh_ids() {
    let mut registry: Registry<&str> = Registry::new();
    let a = registry.add("serial").unwrap();
    let b = registry.add("tcp").unwrap();
    assert_ne!(a, b);
    assert_eq!(registry.len(), 2);
    assert_eq!(registry.ids(), vec![a, b]);
    assert_eq!(registry.get(a), Some(&"serial"));
    assert_eq!(registry.remove(a), Some("serial"));
    assert_eq!(registry.remove(a), None);
    assert_eq!(registry.get(a), None);
    let c = registry.add("udp").unwrap();
    assert!(c != a && c != b);
    assert_eq!(registry.ids(), vec![b, c]);
    assert_eq!(registry.len(), 2);
}

#[test]
fn reconnect_backoff_doubles_up_to_ceiling() {
    assert_eq!(next_backoff(None, 100, 1_000), 100);
    assert_eq!(next_backoff(Some(100), 100, 1_000), 200);
    assert_eq!(next_backoff(Some(600), 100, 1_000), 1_000);
    assert_eq!(next_backoff(None, 5_000, 1_000), 1_000);
    assert_eq!(next_backoff(Some(u64::MAX), 1, u64::MAX), u64::MAX);
}
