//! What the drivers decide: which frames a driver forwards, when its loops go
//! on, what the synthetic source emits, and how endpoints are described and
//! configured from a URL. The transports themselves run outside.

use vstd::prelude::*;
use mavlink::dialects::ardupilotmega::MavMessage;
use mavlink::{Message, MavlinkVersion};
use crate::frame::{is_v2_frame, message_id_of, Protocol};
use crate::reader::{crc_matches, frames_in, lemma_frame_kept, raws, read_all_messages};

verus! {

/// Loopback suppression: a frame is never handed back to the driver (or
/// peer) whose tag it carries.
pub fn should_forward(frame: &Protocol, remote_tag: &String) -> (r: bool)
    ensures
        r == (frame.tag() != remote_tag@),
{
    !frame.origin().eq(remote_tag)
}

/// Whether every interceptor of a direction accepted the frame; one failure
/// drops the frame from that direction.
pub fn callbacks_passed(results: &Vec<bool>) -> (r: bool)
    ensures
        r == (forall|i: int| 0 <= i < results@.len() ==> #[trigger] results@[i]),
{
    let mut i: usize = 0;
    while i < results.len()
        invariant
            i <= results@.len(),
            forall|j: int| 0 <= j < i ==> #[trigger] results@[j],
        decreases results@.len() - i,
    {
        if !results[i] {
            return false;
        }
        i = i + 1;
    }
    true
}

/// What a subscriber of the hub saw instead of a frame.
#[derive(Clone, Copy, Debug, PartialEq, Eq)]
pub enum ChannelError {
    /// The subscriber fell behind and this many frames were skipped.
    Lagged(u64),
    /// Every sender is gone.
    Closed,
}

/// A lag is reported and the loop goes on; a closed channel ends it.
pub fn continues_after(error: ChannelError) -> (r: bool)
    ensures
        r == (error is Lagged),
{
    match error {
        ChannelError::Lagged(_) => true,
        ChannelError::Closed => false,
    }
}

pub open spec fn min_int(a: int, b: int) -> int {
    if a <= b { a } else { b }
}

/// The wait before the next reconnection attempt: `initial_us` the first
/// time, then twice the previous wait, never more than `ceiling_us`.
pub fn next_backoff(previous_us: Option<u64>, initial_us: u64, ceiling_us: u64) -> (r: u64)
    ensures
        r == min_int(
            match previous_us {
                Some(p) => 2 * p,
                None => initial_us as int,
            },
            ceiling_us as int,
        ),
{
    let wanted: u64 = match previous_us {
        Some(p) => if p > ceiling_us / 2 { ceiling_us } else { 2 * p },
        None => initial_us,
    };
    if wanted <= ceiling_us { wanted } else { ceiling_us }
}

/// The v2 frame that the MAVLink codec writes for message `message_id`
/// decoded from `payload`, under the given header; `None` where the codec
/// does not know the message or rejects a field of the payload.
pub uninterp spec fn v2_encoding(
    sequence: u8,
    system_id: u8,
    component_id: u8,
    message_id: u32,
    payload: Seq<u8>,
) -> Option<Seq<u8>>;

/// Relies on Message::parse of the ardupilotmega MavMessage (the message
/// `message_id` from its payload bytes; an error for an unknown id or an
/// invalid enum value) and on mavlink::write_v2_msg, which writes the marker,
/// the payload length, zero flags, the header's sequence and ids, the message
/// id, the payload and the CRC over them keyed by the message's CRC_EXTRA.
#[verifier::external_body]
fn encode_v2(sequence: u8, system_id: u8, component_id: u8, message_id: u32, payload: &[u8]) -> (r:
    Option<Vec<u8>>)
    requires
        payload@.len() <= 255,
    ensures
        match r {
            Some(f) => {
                &&& v2_encoding(sequence, system_id, component_id, message_id, payload@) == Some(f@)
                &&& is_v2_frame(f@)
                &&& f@[2] == 0
                &&& f@[4] == sequence
                &&& f@[5] == system_id
                &&& f@[6] == component_id
                &&& message_id_of(f@) == message_id
                &&& crc_matches(f@)
            },
            None => v2_encoding(sequence, system_id, component_id, message_id, payload@) is None,
        },
{
    let header = mavlink::MavHeader { sequence, system_id, component_id };
    let message = match MavMessage::parse(MavlinkVersion::V2, message_id, payload) {
        Ok(message) => message,
        Err(_) => return None,
    };
    let mut buf: Vec<u8> = Vec::new();
    match mavlink::write_v2_msg(&mut buf, header, &message) {
        Ok(_) => Some(buf),
        Err(_) => None,
    }
}

/// System id of the synthetic source.
pub const FAKE_SYSTEM_ID: u8 = 1;

/// Component id of the synthetic source.
pub const FAKE_COMPONENT_ID: u8 = 2;

/// Message id of HEARTBEAT.
pub const HEARTBEAT_ID: u32 = 0;

/// The payload of the synthetic heartbeat, fields in wire order: custom mode
/// 5 (little endian), a quadrotor, an ArduPilotMega autopilot, base mode
/// manual input | stabilize | guided | custom mode, standby, and protocol
/// version 3.
pub open spec fn heartbeat_payload() -> Seq<u8> {
    seq![5u8, 0u8, 0u8, 0u8, 2u8, 3u8, 89u8, 3u8, 3u8]
}

fn heartbeat_payload_bytes() -> (r: Vec<u8>)
    ensures
        r@ == heartbeat_payload(),
{
    let r: Vec<u8> = vec![5u8, 0u8, 0u8, 0u8, 2u8, 3u8, 89u8, 3u8, 3u8];
    proof {
        assert(r@ =~= heartbeat_payload());
    }
    r
}

/// The frame of the synthetic heartbeat with a given sequence number.
pub open spec fn heartbeat_frame(sequence: u8) -> Option<Seq<u8>> {
    v2_encoding(sequence, FAKE_SYSTEM_ID, FAKE_COMPONENT_ID, HEARTBEAT_ID, heartbeat_payload())
}

/// A synthetic source of heartbeats, one every `period_us` microseconds.
pub struct FakeSource {
    pub period_us: u64,
    sequence: u8,
}

pub struct FakeSourceBuilder(FakeSource);

impl FakeSource {
    pub closed spec fn next_sequence(self) -> u8 {
        self.sequence
    }

    pub closed spec fn period(self) -> u64 {
        self.period_us
    }

    pub fn builder(period_us: u64) -> (r: FakeSourceBuilder)
        ensures
            r.source().period() == period_us,
            r.source().next_sequence() == 0,
    {
        FakeSourceBuilder(FakeSource { period_us, sequence: 0 })
    }

    /// The frames of the next heartbeat, read back through the frame reader as
    /// from a transport, and the sequence number moved on (modulo 256).
    pub fn next_messages(&mut self) -> (r: Vec<Protocol>)
        ensures
            match heartbeat_frame(old(self).next_sequence()) {
                Some(f) => {
                    &&& r@.len() == 1
                    &&& r@[0].raw() == f
                    &&& r@[0].tag() == "FakeSource"@
                    &&& r@[0].raw()[4] == old(self).next_sequence()
                    &&& r@[0].raw()[5] == FAKE_SYSTEM_ID
                    &&& r@[0].raw()[6] == FAKE_COMPONENT_ID
                    &&& message_id_of(r@[0].raw()) == HEARTBEAT_ID
                },
                None => r@.len() == 0,
            },
            final(self).next_sequence() == (old(self).next_sequence() + 1) % 256,
            final(self).period() == old(self).period(),
    {
        let payload = heartbeat_payload_bytes();
        let encoded = encode_v2(
            self.sequence,
            FAKE_SYSTEM_ID,
            FAKE_COMPONENT_ID,
            HEARTBEAT_ID,
            payload.as_slice(),
        );
        self.sequence = self.sequence.wrapping_add(1);
        match encoded {
            Some(frame) => {
                let mut buf = frame;
                let ghost f = buf@;
                proof {
                    assert(crc_matches(f));
                    lemma_frame_kept(f, true);
                    assert(frames_in(f, true).len() == 1);
                }
                let out = read_all_messages("FakeSource", &mut buf, true);
                proof {
                    assert(raws(out@)[0] == out@[0].raw());
                }
                out
            },
            None => Vec::new(),
        }
    }
}

impl FakeSourceBuilder {
    pub closed spec fn source(self) -> FakeSource {
        self.0
    }

    pub fn build(self) -> (r: FakeSource)
        ensures
            r == self.source(),
    {
        self.0
    }
}

/// A sink that takes every frame of the hub, optionally printing it.
pub struct FakeSink {
    pub print: bool,
}

pub struct FakeSinkBuilder(FakeSink);

impl FakeSink {
    pub fn builder() -> (r: FakeSinkBuilder)
        ensures
            !r.sink().print,
    {
        FakeSinkBuilder(FakeSink { print: false })
    }
}

impl FakeSinkBuilder {
    pub closed spec fn sink(self) -> FakeSink {
        self.0
    }

    pub fn build(self) -> (r: FakeSink)
        ensures
            r == self.sink(),
    {
        self.0
    }

    pub fn print(self) -> (r: Self)
        ensures
            r.sink().print,
    {
        FakeSinkBuilder(FakeSink { print: true })
    }
}

} // verus!
