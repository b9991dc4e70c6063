//! The frame reader: turns the bytes that arrived on one transport into
//! MAVLink v2 frames, keeping an incomplete trailing frame for later.

use vstd::prelude::*;
use crate::frame::{
    is_v2_frame, frame_len_at, supported_flags_at, Protocol, STX_V2, PREFIX_LEN, MAX_FRAME_LEN,
    HEADER_LEN, CHECKSUM_LEN, SIGNATURE_LEN, IFLAG_SIGNED,
};

verus! {

/// Whether the checksum field of frame `f` matches the CRC that the MAVLink
/// codec computes over its header and payload.
pub uninterp spec fn crc_matches(f: Seq<u8>) -> bool;

/// The frames found in `s` from position `i` on, and the position up to which
/// the bytes are used up.
///
/// Bytes outside a frame are skipped; a marker followed by unsupported
/// incompatibility flags is skipped alone; scanning stops at the first frame
/// that is not complete yet; a complete frame whose checksum does not match is
/// dropped when `discard` holds and kept otherwise.
pub open spec fn scan(s: Seq<u8>, i: int, discard: bool) -> (Seq<Seq<u8>>, int)
    decreases s.len() - i,
{
    if i < 0 || i >= s.len() {
        (Seq::empty(), s.len() as int)
    } else if s[i] != STX_V2 {
        scan(s, i + 1, discard)
    } else if s.len() - i < PREFIX_LEN {
        (Seq::empty(), i)
    } else if !supported_flags_at(s, i) {
        scan(s, i + 1, discard)
    } else if s.len() - i < frame_len_at(s, i) {
        (Seq::empty(), i)
    } else {
        let f = s.subrange(i, i + frame_len_at(s, i));
        let rest = scan(s, i + frame_len_at(s, i), discard);
        if crc_matches(f) || !discard {
            (seq![f].add(rest.0), rest.1)
        } else {
            rest
        }
    }
}

/// The frames that reading the whole of `s` delivers.
pub open spec fn frames_in(s: Seq<u8>, discard: bool) -> Seq<Seq<u8>> {
    scan(s, 0, discard).0
}

/// How many leading bytes of `s` reading uses up.
pub open spec fn consumed_in(s: Seq<u8>, discard: bool) -> int {
    scan(s, 0, discard).1
}

pub open spec fn raws(ps: Seq<Protocol>) -> Seq<Seq<u8>> {
    ps.map_values(|p: Protocol| p.raw())
}

/// The bytes of the frames `fs`, one after the other.
pub open spec fn concat(fs: Seq<Seq<u8>>) -> Seq<u8>
    decreases fs.len(),
{
    if fs.len() == 0 {
        Seq::empty()
    } else {
        fs[0] + concat(fs.skip(1))
    }
}

/// Every frame that reading delivers is a complete v2 frame, and under
/// `discard` one whose checksum matches; reading never uses up more bytes
/// than it was given.
pub proof fn lemma_frames_checked(s: Seq<u8>, i: int, discard: bool)
    requires
        0 <= i <= s.len(),
    ensures
        i <= scan(s, i, discard).1 <= s.len(),
        forall|k: int| 0 <= k < scan(s, i, discard).0.len() ==> is_v2_frame(#[trigger] scan(s, i, discard).0[k])
            && (discard ==> crc_matches(scan(s, i, discard).0[k])),
    decreases s.len() - i,
{
    if i < s.len() {
        if s[i] != STX_V2 || (s.len() - i >= PREFIX_LEN && !supported_flags_at(s, i)) {
            lemma_frames_checked(s, i + 1, discard);
        } else if s.len() - i >= PREFIX_LEN && s.len() - i >= frame_len_at(s, i) {
            let f = s.subrange(i, i + frame_len_at(s, i));
            lemma_frames_checked(s, i + frame_len_at(s, i), discard);
            let rest = scan(s, i + frame_len_at(s, i), discard);
            assert(is_v2_frame(f));
            if crc_matches(f) || !discard {
                assert forall|k: int| 0 <= k < scan(s, i, discard).0.len() implies is_v2_frame(
                    #[trigger] scan(s, i, discard).0[k],
                ) && (discard ==> crc_matches(scan(s, i, discard).0[k])) by {
                    if k > 0 {
                        assert(scan(s, i, discard).0[k] == rest.0[k - 1]);
                    }
                }
            }
        }
    }
}

/// Scanning `p + b` from inside `b` finds what scanning `b` alone finds.
proof fn lemma_scan_shift(p: Seq<u8>, b: Seq<u8>, i: int, discard: bool)
    requires
        0 <= i <= b.len(),
    ensures
        scan(p + b, p.len() + i, discard).0 == scan(b, i, discard).0,
        scan(p + b, p.len() + i, discard).1 == p.len() + scan(b, i, discard).1,
    decreases b.len() - i,
{
    let s = p + b;
    let j = p.len() + i;
    if i < b.len() {
        assert(s[j] == b[i]);
        if b[i] != STX_V2 {
            lemma_scan_shift(p, b, i + 1, discard);
        } else if b.len() - i < PREFIX_LEN {
        } else {
            assert(s[j + 1] == b[i + 1]);
            assert(s[j + 2] == b[i + 2]);
            if !supported_flags_at(b, i) {
                lemma_scan_shift(p, b, i + 1, discard);
            } else if b.len() - i >= frame_len_at(b, i) {
                let len = frame_len_at(b, i);
                assert(s.subrange(j, j + len) =~= b.subrange(i, i + len));
                lemma_scan_shift(p, b, i + len, discard);
            }
        }
    }
}

/// A strict prefix of a frame yields nothing and is kept whole.
proof fn lemma_scan_partial(g: Seq<u8>, p: int, discard: bool)
    requires
        is_v2_frame(g),
        0 <= p < g.len(),
    ensures
        scan(g.subrange(0, p), 0, discard) == (Seq::<Seq<u8>>::empty(), 0int),
{
    let t = g.subrange(0, p);
    if p > 0 {
        assert(t[0] == g[0]);
        if p >= PREFIX_LEN {
            assert(t[1] == g[1]);
            assert(t[2] == g[2]);
        }
    }
}

/// Reading a run of complete frames with valid checksums, followed by the
/// first `p` bytes of one more frame, delivers exactly those frames, in order,
/// and leaves exactly the `p` trailing bytes unread.
pub proof fn lemma_tail_preserved(fs: Seq<Seq<u8>>, g: Seq<u8>, p: int, discard: bool)
    requires
        forall|k: int| 0 <= k < fs.len() ==> is_v2_frame(#[trigger] fs[k]) && crc_matches(fs[k]),
        is_v2_frame(g),
        0 <= p < g.len(),
    ensures
        frames_in(concat(fs) + g.subrange(0, p), discard) == fs,
        consumed_in(concat(fs) + g.subrange(0, p), discard) == concat(fs).len(),
        (concat(fs) + g.subrange(0, p)).len() - concat(fs).len() == p,
    decreases fs.len(),
{
    let t = g.subrange(0, p);
    if fs.len() == 0 {
        assert(concat(fs) + t =~= t);
        lemma_scan_partial(g, p, discard);
    } else {
        let f = fs[0];
        let tail = fs.skip(1);
        assert forall|k: int| 0 <= k < tail.len() implies is_v2_frame(#[trigger] tail[k])
            && crc_matches(tail[k]) by {
            assert(tail[k] == fs[k + 1]);
        }
        lemma_tail_preserved(tail, g, p, discard);
        let rest = concat(tail) + t;
        let s = concat(fs) + t;
        assert(s =~= f + rest);
        assert(s[0] == f[0] && s[1] == f[1] && s[2] == f[2]);
        assert(s.subrange(0, frame_len_at(s, 0)) =~= f);
        lemma_scan_shift(f, rest, 0, discard);
        assert(seq![f].add(tail) =~= fs);
    }
}

/// A complete frame whose checksum does not match is dropped when invalid
/// checksums are discarded, and is delivered byte for byte otherwise.
pub proof fn lemma_checksum_policy(f: Seq<u8>)
    requires
        is_v2_frame(f),
        !crc_matches(f),
    ensures
        frames_in(f, true) == Seq::<Seq<u8>>::empty(),
        frames_in(f, false) == seq![f],
        consumed_in(f, true) == f.len(),
        consumed_in(f, false) == f.len(),
{
    assert(f.subrange(0, f.len() as int) =~= f);
    assert(scan(f, f.len() as int, true).0 =~= Seq::<Seq<u8>>::empty());
    assert(scan(f, f.len() as int, false).0 =~= Seq::<Seq<u8>>::empty());
    assert(seq![f].add(Seq::<Seq<u8>>::empty()) =~= seq![f]);
}

/// A lone complete frame is delivered whole when its checksum matches or
/// invalid checksums are kept.
pub proof fn lemma_frame_kept(f: Seq<u8>, discard: bool)
    requires
        is_v2_frame(f),
        crc_matches(f) || !discard,
    ensures
        frames_in(f, discard) == seq![f],
        consumed_in(f, discard) == f.len(),
{
    assert(f.subrange(0, f.len() as int) =~= f);
    assert(scan(f, f.len() as int, discard).0 =~= Seq::<Seq<u8>>::empty());
    assert(seq![f].add(Seq::<Seq<u8>>::empty()) =~= seq![f]);
}

/// Relies on MAVLinkV2MessageRaw::has_valid_crc of the mavlink crate, with the
/// ardupilotmega dialect's CRC_EXTRA table: the CRC-16/MCRF4XX of the header
/// and payload, keyed by CRC_EXTRA, compared with the frame's checksum field.
#[verifier::external_body]
fn checksum_matches(f: &[u8]) -> (r: bool)
    requires
        is_v2_frame(f@),
        f@.len() <= MAX_FRAME_LEN,
    ensures
        r == crc_matches(f@),
{
    let mut bytes = [0u8; MAX_FRAME_LEN];
    bytes[..f.len()].copy_from_slice(f);
    let raw = mavlink::MAVLinkV2MessageRaw::from_bytes_unparsed(bytes);
    raw.has_valid_crc::<mavlink::dialects::ardupilotmega::MavMessage>()
}

/// The bytes of `s` from `start` to `end`.
pub fn copy_range(s: &[u8], start: usize, end: usize) -> (r: Vec<u8>)
    requires
        start <= end <= s@.len(),
    ensures
        r@ == s@.subrange(start as int, end as int),
{
    let mut out: Vec<u8> = Vec::new();
    let mut i: usize = start;
    while i < end
        invariant
            start <= i <= end <= s@.len(),
            out@ == s@.subrange(start as int, i as int),
        decreases end - i,
    {
        out.push(s[i]);
        i = i + 1;
        proof {
            assert(out@ =~= s@.subrange(start as int, i as int));
        }
    }
    out
}

/// Reads every frame out of `buf`, tags each with `origin` and the current
/// time, and leaves in `buf` only the bytes after the last one used: at most
/// one incomplete frame.
pub fn read_all_messages(origin: &str, buf: &mut Vec<u8>, discard_invalid_checksum: bool) -> (r:
    Vec<Protocol>)
    ensures
        raws(r@) == frames_in(old(buf)@, discard_invalid_checksum),
        forall|k: int| 0 <= k < r@.len() ==> (#[trigger] r@[k]).tag() == origin@,
        final(buf)@ == old(buf)@.subrange(
            consumed_in(old(buf)@, discard_invalid_checksum),
            old(buf)@.len() as int,
        ),
{
    let ghost s = buf@;
    let ghost d = discard_invalid_checksum;
    let mut out: Vec<Protocol> = Vec::new();
    let len = buf.len();
    let mut i: usize = 0;
    while i < len
        invariant_except_break
            d == discard_invalid_checksum,
            s == buf@,
            len == s.len(),
            i <= len,
            frames_in(s, d) == raws(out@) + scan(s, i as int, d).0,
            consumed_in(s, d) == scan(s, i as int, d).1,
            forall|k: int| 0 <= k < out@.len() ==> (#[trigger] out@[k]).tag() == origin@,
        ensures
            s == buf@,
            len == s.len(),
            i <= len,
            frames_in(s, d) == raws(out@),
            consumed_in(s, d) == i,
            forall|k: int| 0 <= k < out@.len() ==> (#[trigger] out@[k]).tag() == origin@,
        decreases len - i,
    {
        if buf[i] != STX_V2 {
            proof {
                assert(scan(s, i as int, d) == scan(s, i + 1, d));
            }
            i = i + 1;
            continue;
        }
        if len - i < PREFIX_LEN {
            proof {
                assert(raws(out@) + Seq::<Seq<u8>>::empty() =~= raws(out@));
            }
            break;
        }
        if !(buf[i + 2] == 0 || buf[i + 2] == IFLAG_SIGNED) {
            proof {
                assert(scan(s, i as int, d) == scan(s, i + 1, d));
            }
            i = i + 1;
            continue;
        }
        let signature: usize = if buf[i + 2] == IFLAG_SIGNED { SIGNATURE_LEN } else { 0 };
        let flen: usize = HEADER_LEN + buf[i + 1] as usize + CHECKSUM_LEN + signature;
        if len - i < flen {
            proof {
                assert(raws(out@) + Seq::<Seq<u8>>::empty() =~= raws(out@));
            }
            break;
        }
        let f = copy_range(buf.as_slice(), i, i + flen);
        let ghost rest = scan(s, (i + flen) as int, d);
        proof {
            assert(is_v2_frame(f@));
            assert(flen == frame_len_at(s, i as int));
        }
        let crc_ok = checksum_matches(f.as_slice());
        let keep = crc_ok || !discard_invalid_checksum;
        proof {
            if keep {
                assert(scan(s, i as int, d) == (seq![f@].add(rest.0), rest.1));
            } else {
                assert(scan(s, i as int, d) == rest);
            }
        }
        if keep {
            let ghost before = out@;
            let p = Protocol::new(origin, f);
            out.push(p);
            proof {
                assert(raws(out@) =~= raws(before).push(p.raw()));
                assert(raws(before) + seq![p.raw()].add(rest.0) =~= raws(out@) + rest.0);
            }
        }
        i = i + flen;
    }
    let rest = copy_range(buf.as_slice(), i, len);
    *buf = rest;
    out
}

} // verus!
