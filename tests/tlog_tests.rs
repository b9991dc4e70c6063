use mavlink_server::drivers::FakeSource;
use mavlink_server::frame::Protocol;
use mavlink_server::tlog::{pacing_delay, read_tlog_records, tlog_record};

fn heartbeats(n: usize) -> Vec<Protocol> {
    let mut source = FakeSource::builder(1000).build();
    (0..n).map(|_| source.next_messages().pop().unwrap()).collect()
}

#[test]
fn record_is_big_endian_timestamp_then_frame() {
    let frames = heartbeats(1);
    let rec = tlog_record(0x0102030405060708, &frames[0]);
    assert_eq!(&rec[..8], &[1, 2, 3, 4, 5, 6, 7, 8]);
    assert_eq!(&rec[8..], frames[0].raw_bytes());
}

#[test]
fn tlog_round_trip_of_100_heartbeats() {
    let frames = heartbeats(100);
    let mut log = Vec::new();
    let mut expected = Vec::new();
    for (i, f) in frames.iter().enumerate() {
        let ts = 1_700_000_000_000_000u64 + (i as u64) * 10_000;
        log.extend(tlog_record(ts, f));
        expected.push((ts, f.to_raw_vec()));
    }
    let mut buf = log.clone();
    let read = read_tlog_records("tlogreader", &mut buf);
    let got: Vec<(u64, Vec<u8>)> = read.iter().map(|p| (p.timestamp(), p.to_raw_vec())).collect();
    assert_eq!(got, expected);
    assert!(buf.is_empty());
    assert!(read.iter().all(|p| p.origin == "tlogreader"));
}

#[test]
fn tlog_incomplete_record_kept() {
    let frames = heartbeats(2);
    let mut log = tlog_record(5, &frames[0]);
    let second = tlog_record(6, &frames[1]);
    log.extend_from_slice(&second[..12]);
    let read = read_tlog_records("r", &mut log);
    assert_eq!(read.len(), 1);
    assert_eq!(read[0].timestamp(), 5);
    assert_eq!(log, second[..12].to_vec());
}

#[test]
fn pacing_between_records() {
    assert_eq!(pacing_delay(None, 10), 0);
    assert_eq!(pacing_delay(Some(10), 35), 25);
    assert_eq!(pacing_delay(Some(40), 35), 0);
}
