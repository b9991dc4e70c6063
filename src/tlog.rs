//! Telemetry logs: a sequence of records, each an 8-byte big-endian
//! timestamp in microseconds followed by one complete MAVLink v2 frame, with
//! no header, trailer or padding.

use vstd::prelude::*;
use crate::frame::{
    frame_len_at, is_v2_frame, supported_flags_at, Protocol, STX_V2, PREFIX_LEN, HEADER_LEN,
    CHECKSUM_LEN, SIGNATURE_LEN, IFLAG_SIGNED,
};
use crate::reader::copy_range;
use crate::stats::elapsed;

verus! {

pub const TIMESTAMP_LEN: usize = 8;

pub open spec fn be_bytes(x: u64) -> Seq<u8> {
    seq![
        (x >> 56u64) as u8, (x >> 48u64) as u8, (x >> 40u64) as u8, (x >> 32u64) as u8,
        (x >> 24u64) as u8, (x >> 16u64) as u8, (x >> 8u64) as u8, x as u8,
    ]
}

pub open spec fn from_be(b0: u8, b1: u8, b2: u8, b3: u8, b4: u8, b5: u8, b6: u8, b7: u8) -> u64 {
    (b0 as u64) << 56u64 | (b1 as u64) << 48u64 | (b2 as u64) << 40u64 | (b3 as u64) << 32u64
        | (b4 as u64) << 24u64 | (b5 as u64) << 16u64 | (b6 as u64) << 8u64 | (b7 as u64)
}

/// The timestamp stored in the eight bytes of `s` from `i` on.
pub open spec fn timestamp_at(s: Seq<u8>, i: int) -> u64 {
    from_be(s[i], s[i + 1], s[i + 2], s[i + 3], s[i + 4], s[i + 5], s[i + 6], s[i + 7])
}

pub open spec fn record_bytes(timestamp: u64, frame: Seq<u8>) -> Seq<u8> {
    be_bytes(timestamp) + frame
}

/// The records of a log, one after the other.
pub open spec fn log_bytes(rs: Seq<(u64, Seq<u8>)>) -> Seq<u8>
    decreases rs.len(),
{
    if rs.len() == 0 {
        Seq::empty()
    } else {
        record_bytes(rs[0].0, rs[0].1) + log_bytes(rs.skip(1))
    }
}

/// The records found in `s` from position `i` on, and the position where
/// reading stopped: at the end, at an incomplete record, or at bytes that do
/// not hold a frame after their timestamp.
pub open spec fn tlog_scan(s: Seq<u8>, i: int) -> (Seq<(u64, Seq<u8>)>, int)
    decreases s.len() - i,
{
    if i < 0 || i > s.len() || s.len() - i < TIMESTAMP_LEN + PREFIX_LEN {
        (Seq::empty(), i)
    } else {
        let h = i + TIMESTAMP_LEN;
        if s[h] != STX_V2 || !supported_flags_at(s, h) || s.len() - h < frame_len_at(s, h) {
            (Seq::empty(), i)
        } else {
            let end = h + frame_len_at(s, h);
            let rest = tlog_scan(s, end);
            (seq![(timestamp_at(s, i), s.subrange(h, end))].add(rest.0), rest.1)
        }
    }
}

pub open spec fn stamped(ps: Seq<Protocol>) -> Seq<(u64, Seq<u8>)> {
    ps.map_values(|p: Protocol| (p.time(), p.raw()))
}

proof fn lemma_be_round_trip(x: u64)
    ensures
        from_be(
            be_bytes(x)[0], be_bytes(x)[1], be_bytes(x)[2], be_bytes(x)[3],
            be_bytes(x)[4], be_bytes(x)[5], be_bytes(x)[6], be_bytes(x)[7],
        ) == x,
{
    assert(((((x >> 56u64) as u8) as u64) << 56u64 | (((x >> 48u64) as u8) as u64) << 48u64
        | (((x >> 40u64) as u8) as u64) << 40u64 | (((x >> 32u64) as u8) as u64) << 32u64
        | (((x >> 24u64) as u8) as u64) << 24u64 | (((x >> 16u64) as u8) as u64) << 16u64
        | (((x >> 8u64) as u8) as u64) << 8u64 | ((x as u8) as u64)) == x) by (bit_vector);
}

proof fn lemma_tlog_shift(p: Seq<u8>, b: Seq<u8>, i: int)
    requires
        0 <= i <= b.len(),
    ensures
        tlog_scan(p + b, p.len() + i).0 == tlog_scan(b, i).0,
        tlog_scan(p + b, p.len() + i).1 == p.len() + tlog_scan(b, i).1,
    decreases b.len() - i,
{
    let s = p + b;
    let j = p.len() + i;
    if b.len() - i >= TIMESTAMP_LEN + PREFIX_LEN {
        let h = i + TIMESTAMP_LEN;
        assert(s[j + TIMESTAMP_LEN] == b[h]);
        assert(s[j + TIMESTAMP_LEN + 1] == b[h + 1]);
        assert(s[j + TIMESTAMP_LEN + 2] == b[h + 2]);
        if !(b[h] != STX_V2 || !supported_flags_at(b, h) || b.len() - h < frame_len_at(b, h)) {
            let end = h + frame_len_at(b, h);
            assert(s.subrange(j + TIMESTAMP_LEN, p.len() + end) =~= b.subrange(h, end));
            assert(timestamp_at(s, j) == timestamp_at(b, i)) by {
                assert(s[j] == b[i] && s[j + 1] == b[i + 1] && s[j + 2] == b[i + 2] && s[j + 3] == b[i + 3]);
                assert(s[j + 4] == b[i + 4] && s[j + 5] == b[i + 5] && s[j + 6] == b[i + 6] && s[j + 7] == b[i + 7]);
            }
            lemma_tlog_shift(p, b, end);
        }
    }
}

/// Reading back a log written record by record gives every record, in order,
/// with its timestamp and its frame byte for byte, and uses up the whole log.
pub proof fn lemma_tlog_round_trip(rs: Seq<(u64, Seq<u8>)>)
    requires
        forall|k: int| 0 <= k < rs.len() ==> is_v2_frame(#[trigger] rs[k].1),
    ensures
        tlog_scan(log_bytes(rs), 0).0 == rs,
        tlog_scan(log_bytes(rs), 0).1 == log_bytes(rs).len(),
    decreases rs.len(),
{
    if rs.len() > 0 {
        let (t, f) = rs[0];
        let tail = rs.skip(1);
        assert forall|k: int| 0 <= k < tail.len() implies is_v2_frame(#[trigger] tail[k].1) by {
            assert(tail[k] == rs[k + 1]);
        }
        lemma_tlog_round_trip(tail);
        let rest = log_bytes(tail);
        let r = record_bytes(t, f);
        let s = log_bytes(rs);
        assert(s == r + rest);
        assert(is_v2_frame(f));
        let h = TIMESTAMP_LEN as int;
        assert(s[h] == f[0] && s[h + 1] == f[1] && s[h + 2] == f[2]);
        assert(s.subrange(h, h + f.len()) =~= f);
        assert(timestamp_at(s, 0) == t) by {
            lemma_be_round_trip(t);
            assert(s[0] == be_bytes(t)[0] && s[1] == be_bytes(t)[1] && s[2] == be_bytes(t)[2]);
            assert(s[3] == be_bytes(t)[3] && s[4] == be_bytes(t)[4] && s[5] == be_bytes(t)[5]);
            assert(s[6] == be_bytes(t)[6] && s[7] == be_bytes(t)[7]);
        }
        lemma_tlog_shift(r, rest, 0);
        assert(seq![(t, f)].add(tail) =~= rs);
    } else {
        assert(log_bytes(rs).len() == 0);
    }
}

/// One record of the log: `timestamp` in big-endian order, then the frame.
pub fn tlog_record(timestamp: u64, frame: &Protocol) -> (r: Vec<u8>)
    ensures
        r@ == record_bytes(timestamp, frame.raw()),
{
    let mut out: Vec<u8> = Vec::new();
    out.push((timestamp >> 56u64) as u8);
    out.push((timestamp >> 48u64) as u8);
    out.push((timestamp >> 40u64) as u8);
    out.push((timestamp >> 32u64) as u8);
    out.push((timestamp >> 24u64) as u8);
    out.push((timestamp >> 16u64) as u8);
    out.push((timestamp >> 8u64) as u8);
    out.push(timestamp as u8);
    let raw = frame.raw_bytes();
    let mut i: usize = 0;
    while i < raw.len()
        invariant
            i <= raw@.len(),
            out@ == be_bytes(timestamp) + raw@.subrange(0, i as int),
        decreases raw@.len() - i,
    {
        out.push(raw[i]);
        i = i + 1;
        proof {
            assert(out@ =~= be_bytes(timestamp) + raw@.subrange(0, i as int));
        }
    }
    proof {
        assert(raw@.subrange(0, raw@.len() as int) =~= raw@);
    }
    out
}

/// Reads every complete record out of `buf` as a frame tagged `origin` with
/// its stored timestamp, and leaves in `buf` the bytes where reading stopped.
pub fn read_tlog_records(origin: &str, buf: &mut Vec<u8>) -> (r: Vec<Protocol>)
    ensures
        stamped(r@) == tlog_scan(old(buf)@, 0).0,
        forall|k: int| 0 <= k < r@.len() ==> (#[trigger] r@[k]).tag() == origin@,
        final(buf)@ == old(buf)@.subrange(tlog_scan(old(buf)@, 0).1, old(buf)@.len() as int),
{
    let ghost s = buf@;
    let len = buf.len();
    let mut out: Vec<Protocol> = Vec::new();
    let mut i: usize = 0;
    loop
        invariant
            s == buf@,
            len == s.len(),
            i <= len,
            tlog_scan(s, 0).0 == stamped(out@) + tlog_scan(s, i as int).0,
            tlog_scan(s, 0).1 == tlog_scan(s, i as int).1,
            forall|k: int| 0 <= k < out@.len() ==> (#[trigger] out@[k]).tag() == origin@,
        ensures
            s == buf@,
            i <= len,
            tlog_scan(s, 0).0 == stamped(out@),
            tlog_scan(s, 0).1 == i,
            forall|k: int| 0 <= k < out@.len() ==> (#[trigger] out@[k]).tag() == origin@,
        decreases len - i,
    {
        if len - i < TIMESTAMP_LEN + PREFIX_LEN {
            proof {
                assert(stamped(out@) + Seq::<(u64, Seq<u8>)>::empty() =~= stamped(out@));
            }
            break;
        }
        let h = i + TIMESTAMP_LEN;
        if buf[h] != STX_V2 || !(buf[h + 2] == 0 || buf[h + 2] == IFLAG_SIGNED) {
            proof {
                assert(stamped(out@) + Seq::<(u64, Seq<u8>)>::empty() =~= stamped(out@));
            }
            break;
        }
        let signature: usize = if buf[h + 2] == IFLAG_SIGNED { SIGNATURE_LEN } else { 0 };
        let flen: usize = HEADER_LEN + buf[h + 1] as usize + CHECKSUM_LEN + signature;
        if len - h < flen {
            proof {
                assert(stamped(out@) + Seq::<(u64, Seq<u8>)>::empty() =~= stamped(out@));
            }
            break;
        }
        let timestamp: u64 = (buf[i] as u64) << 56u64 | (buf[i + 1] as u64) << 48u64
            | (buf[i + 2] as u64) << 40u64 | (buf[i + 3] as u64) << 32u64
            | (buf[i + 4] as u64) << 24u64 | (buf[i + 5] as u64) << 16u64
            | (buf[i + 6] as u64) << 8u64 | (buf[i + 7] as u64);
        let f = copy_range(buf.as_slice(), h, h + flen);
        let ghost rest = tlog_scan(s, (h + flen) as int);
        proof {
            assert(flen == frame_len_at(s, h as int));
            assert(is_v2_frame(f@));
            assert(timestamp == timestamp_at(s, i as int));
        }
        let ghost before = out@;
        let p = Protocol::new_with_timestamp(timestamp, origin, f);
        out.push(p);
        proof {
            assert(stamped(out@) =~= stamped(before).push((p.time(), p.raw())));
            assert(stamped(before) + seq![(timestamp, f@)].add(rest.0) =~= stamped(out@) + rest.0);
        }
        i = h + flen;
    }
    let rest = copy_range(buf.as_slice(), i, len);
    *buf = rest;
    out
}

/// How long to wait before replaying a record stamped `current` after one
/// stamped `previous`: their distance, or nothing for the first record and
/// for stamps that go backwards.
pub fn pacing_delay(previous: Option<u64>, current: u64) -> (r: u64)
    ensures
        r == match previous {
            Some(p) => elapsed(p, current),
            None => 0,
        },
{
    match previous {
        Some(p) => if current >= p { current - p } else { 0 },
        None => 0,
    }
}

} // verus!
