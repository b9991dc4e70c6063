//! One MAVLink v2 frame together with the tag of the driver that produced it
//! and the moment it entered the router.

use vstd::prelude::*;

verus! {

/// Start-of-frame marker of MAVLink v2.
pub const STX_V2: u8 = 0xFD;

/// Marker, length byte, flags, sequence, ids and message id.
pub const HEADER_LEN: usize = 10;

/// Length of the CRC field.
pub const CHECKSUM_LEN: usize = 2;

/// Length of the optional signature block.
pub const SIGNATURE_LEN: usize = 13;

/// Incompatibility flag that marks a signed frame.
pub const IFLAG_SIGNED: u8 = 1;

/// Largest v2 frame: header, 255 bytes of payload, checksum and signature.
pub const MAX_FRAME_LEN: usize = 280;

/// Bytes needed before the length of a frame is known: marker, length, flags.
pub const PREFIX_LEN: usize = 3;

/// Total length of a frame whose header starts at `s[i]`, read from its length
/// byte and its incompatibility flags.
pub open spec fn frame_len_at(s: Seq<u8>, i: int) -> int {
    HEADER_LEN as int + s[i + 1] as int + CHECKSUM_LEN as int
        + if s[i + 2] == IFLAG_SIGNED { SIGNATURE_LEN as int } else { 0 }
}

/// The only incompatibility flag a v2 frame may carry is the signing flag.
pub open spec fn supported_flags_at(s: Seq<u8>, i: int) -> bool {
    s[i + 2] == 0 || s[i + 2] == IFLAG_SIGNED
}

/// `f` is exactly one structurally complete MAVLink v2 frame (its CRC aside).
pub open spec fn is_v2_frame(f: Seq<u8>) -> bool {
    &&& f.len() >= PREFIX_LEN
    &&& f[0] == STX_V2
    &&& supported_flags_at(f, 0)
    &&& f.len() == frame_len_at(f, 0)
}

pub open spec fn message_id_of(f: Seq<u8>) -> int {
    f[7] as int + 256 * (f[8] as int) + 65536 * (f[9] as int)
}

/// A frame as it travels through the router. Never changed once built.
#[derive(Debug, PartialEq)]
pub struct Protocol {
    pub origin: String,
    pub timestamp: u64,
    message: Vec<u8>,
}

impl Protocol {
    #[verifier::type_invariant]
    spec fn holds_frame(self) -> bool {
        is_v2_frame(self.message@)
    }

    /// The raw bytes of the frame.
    pub closed spec fn raw(self) -> Seq<u8> {
        self.message@
    }

    /// The tag of the driver that produced the frame.
    pub closed spec fn tag(self) -> Seq<char> {
        self.origin@
    }

    /// Ingest time, microseconds since the epoch.
    pub closed spec fn time(self) -> u64 {
        self.timestamp
    }

    /// Wraps a frame stamped with the current time.
    pub fn new(origin: &str, message: Vec<u8>) -> (r: Self)
        requires
            is_v2_frame(message@),
        ensures
            r.tag() == origin@,
            r.raw() == message@,
    {
        Self::new_with_timestamp(now_micros(), origin, message)
    }

    /// Wraps a frame with a given ingest time in microseconds since the epoch.
    pub fn new_with_timestamp(timestamp: u64, origin: &str, message: Vec<u8>) -> (r: Self)
        requires
            is_v2_frame(message@),
        ensures
            r.tag() == origin@,
            r.time() == timestamp,
            r.raw() == message@,
    {
        Protocol { origin: origin.to_owned(), timestamp, message }
    }

    pub fn origin(&self) -> (r: &String)
        ensures
            r@ == self.tag(),
    {
        &self.origin
    }

    pub fn timestamp(&self) -> (r: u64)
        ensures
            r == self.time(),
    {
        self.timestamp
    }

    /// The whole frame, from marker to checksum or signature.
    pub fn raw_bytes(&self) -> (r: &[u8])
        ensures
            r@ == self.raw(),
            is_v2_frame(r@),
    {
        proof { use_type_invariant(self); }
        self.message.as_slice()
    }

    pub fn payload_length(&self) -> (r: u8)
        ensures
            r == self.raw()[1],
    {
        proof { use_type_invariant(self); }
        self.message[1]
    }

    pub fn incompatibility_flags(&self) -> (r: u8)
        ensures
            r == self.raw()[2],
    {
        proof { use_type_invariant(self); }
        self.message[2]
    }

    pub fn sequence(&self) -> (r: u8)
        ensures
            r == self.raw()[4],
    {
        proof { use_type_invariant(self); }
        self.message[4]
    }

    pub fn system_id(&self) -> (r: u8)
        ensures
            r == self.raw()[5],
    {
        proof { use_type_invariant(self); }
        self.message[5]
    }

    pub fn component_id(&self) -> (r: u8)
        ensures
            r == self.raw()[6],
    {
        proof { use_type_invariant(self); }
        self.message[6]
    }

    /// The 24-bit message id, stored little endian.
    pub fn message_id(&self) -> (r: u32)
        ensures
            r == message_id_of(self.raw()),
    {
        proof { use_type_invariant(self); }
        self.message[7] as u32 + 256 * (self.message[8] as u32) + 65536 * (self.message[9] as u32)
    }

    pub fn has_signature(&self) -> (r: bool)
        ensures
            r == (self.raw()[2] == IFLAG_SIGNED),
    {
        proof { use_type_invariant(self); }
        self.message[2] == IFLAG_SIGNED
    }

    /// A copy of the frame bytes.
    pub fn to_raw_vec(&self) -> (r: Vec<u8>)
        ensures
            r@ == self.raw(),
    {
        let mut out: Vec<u8> = Vec::new();
        let mut i: usize = 0;
        while i < self.message.len()
            invariant
                i <= self.message@.len(),
                out@ == self.message@.subrange(0, i as int),
            decreases self.message@.len() - i,
        {
            out.push(self.message[i]);
            i = i + 1;
            proof {
                assert(out@ =~= self.message@.subrange(0, i as int));
            }
        }
        proof {
            assert(out@ =~= self.message@);
        }
        out
    }
}

/// Relies on chrono::Utc::now and DateTime::timestamp_micros: the wall clock
/// in microseconds since the epoch. Nothing is promised of its value.
#[verifier::external_body]
pub(crate) fn now_micros() -> (r: u64) {
    chrono::Utc::now().timestamp_micros() as u64
}

} // verus!
