//! The audio datagram format.
//!
//! Audio goes in unreliable datagrams, because late audio is worse than
//! missing audio.
//!
//! ```text
//! byte 0   version (high 4 bits) | kind (low 4 bits)
//! byte 1   flags
//! byte 2-3 sequence, wrapping u16, little endian
//! byte 4-7 timestamp in samples at 48 kHz, wrapping u32, little endian
//! byte 8+  the Opus payload
//! ```
use vstd::prelude::*;
use vstd::slice::*;

use crate::config::MAX_PACKET_BYTES;

verus! {

/// The header length in bytes.
pub const HEADER_LEN: usize = 8;

/// The format version. It occupies the high 4 bits of byte 0.
pub const VERSION: u8 = 1;

/// Bit 0 of the flags byte. It marks the first packet after a silence.
pub const FLAG_TALKSPURT_START: u8 = 1;

/// Datagram kind. It occupies the low 4 bits of byte 0.
#[derive(Debug, Clone, Copy, PartialEq, Eq, Structural)]
pub enum Kind {
    Audio,
}

impl Kind {
    /// The number this kind has on the wire.
    pub open spec fn spec_code(self) -> u8 {
        match self {
            Kind::Audio => 1,
        }
    }

    /// The number this kind has on the wire.
    pub fn code(self) -> (r: u8)
        ensures
            r == self.spec_code(),
    {
        match self {
            Kind::Audio => 1,
        }
    }
}

/// Why a datagram could not be written or read.
#[derive(Debug, Clone, Copy, PartialEq, Eq, Structural)]
pub enum WireError {
    /// The datagram is shorter than a header, or carries no payload.
    TooShort,
    /// The buffer is too small for the packet.
    BufferTooSmall,
    /// The payload is larger than the codec can produce.
    PayloadTooLarge,
    /// Unknown format version.
    UnknownVersion(u8),
    /// Unknown datagram kind.
    UnknownKind(u8),
}

/// A parsed audio datagram. The payload borrows the receive buffer.
#[derive(Debug, Clone, Copy)]
pub struct AudioPacket<'a> {
    pub seq: u16,
    pub timestamp: u32,
    pub flags: u8,
    pub payload: &'a [u8],
}

/// Byte 0 of every audio datagram: version 1 in the high nibble, kind 1 in the
/// low one.
pub open spec fn first_byte() -> u8 {
    (VERSION * 16 + Kind::Audio.spec_code()) as u8
}

/// A `u16` in little endian.
pub open spec fn le16(v: u16) -> Seq<u8> {
    seq![(v % 256) as u8, (v / 256) as u8]
}

/// A `u32` in little endian.
pub open spec fn le32(v: u32) -> Seq<u8> {
    seq![(v % 256) as u8, ((v / 256) % 256) as u8, ((v / 65536) % 256) as u8, (v / 16777216) as u8]
}

/// The bytes of a datagram.
pub open spec fn spec_encode(seq: u16, timestamp: u32, flags: u8, payload: Seq<u8>) -> Seq<u8> {
    seq![first_byte(), flags] + le16(seq) + le32(timestamp) + payload
}

/// What `encode_into` answers for a payload and an output buffer length.
pub open spec fn spec_encode_result(payload_len: nat, out_len: nat) -> Result<usize, WireError> {
    if out_len < HEADER_LEN + payload_len {
        Err(WireError::BufferTooSmall)
    } else if payload_len > MAX_PACKET_BYTES {
        Err(WireError::PayloadTooLarge)
    } else {
        Ok((HEADER_LEN + payload_len) as usize)
    }
}

/// Reads a little endian `u16`.
pub open spec fn from_le16(b0: u8, b1: u8) -> u16 {
    (b0 + 256 * b1) as u16
}

/// Reads a little endian `u32`.
pub open spec fn from_le32(b0: u8, b1: u8, b2: u8, b3: u8) -> u32 {
    (b0 + 256 * b1 + 65536 * b2 + 16777216 * b3) as u32
}

/// What a datagram says: sequence, timestamp, flags and payload, or why it
/// is refused.
pub open spec fn spec_decode(b: Seq<u8>) -> Result<(u16, u32, u8, Seq<u8>), WireError> {
    if b.len() < HEADER_LEN {
        Err(WireError::TooShort)
    } else if b[0] / 16 != VERSION {
        Err(WireError::UnknownVersion(b[0] / 16))
    } else if b[0] % 16 != Kind::Audio.spec_code() {
        Err(WireError::UnknownKind(b[0] % 16))
    } else if b.len() - HEADER_LEN > MAX_PACKET_BYTES {
        Err(WireError::PayloadTooLarge)
    } else if b.len() == HEADER_LEN {
        Err(WireError::TooShort)
    } else {
        Ok(
            (
                from_le16(b[2], b[3]),
                from_le32(b[4], b[5], b[6], b[7]),
                b[1],
                b.subrange(HEADER_LEN as int, b.len() as int),
            ),
        )
    }
}

impl<'a> AudioPacket<'a> {
    /// True when this packet starts a talkspurt.
    pub fn is_talkspurt_start(&self) -> (r: bool)
        ensures
            r == (self.flags & FLAG_TALKSPURT_START != 0),
    {
        self.flags & FLAG_TALKSPURT_START != 0
    }

    /// Writes the header and the payload into `out`, and returns how many
    /// bytes the datagram takes. Nothing past that length is touched, and a
    /// refusal leaves `out` as it was.
    pub fn encode_into(seq: u16, timestamp: u32, flags: u8, payload: &[u8], out: &mut [u8]) -> (r:
        Result<usize, WireError>)
        ensures
            r == spec_encode_result(payload@.len(), old(out)@.len()),
            final(out)@.len() == old(out)@.len(),
            r is Err ==> final(out)@ == old(out)@,
            r matches Ok(n) ==> {
                &&& final(out)@.subrange(0, n as int) == spec_encode(seq, timestamp, flags, payload@)
                &&& final(out)@.subrange(n as int, old(out)@.len() as int) == old(out)@.subrange(
                    n as int,
                    old(out)@.len() as int,
                )
            },
    {
        if payload.len() > out.len() || out.len() - payload.len() < HEADER_LEN {
            return Err(WireError::BufferTooSmall);
        }
        if payload.len() > MAX_PACKET_BYTES {
            return Err(WireError::PayloadTooLarge);
        }
        let total = HEADER_LEN + payload.len();
        let ghost before = out@;

        out[0] = VERSION * 16 + Kind::Audio.code();
        out[1] = flags;
        out[2] = (seq % 256) as u8;
        out[3] = (seq / 256) as u8;
        out[4] = (timestamp % 256) as u8;
        out[5] = ((timestamp / 256) % 256) as u8;
        out[6] = ((timestamp / 65536) % 256) as u8;
        out[7] = (timestamp / 16777216) as u8;

        let mut i: usize = 0;
        while i < payload.len()
            invariant
                total == HEADER_LEN + payload@.len(),
                total <= out@.len(),
                out@.len() == before.len(),
                i <= payload@.len(),
                out@.subrange(0, HEADER_LEN as int) == seq![first_byte(), flags] + le16(seq) + le32(
                    timestamp,
                ),
                forall|j: int| 0 <= j < i ==> out@[HEADER_LEN + j] == payload@[j],
                forall|j: int| total <= j < out@.len() ==> out@[j] == before[j],
            decreases payload@.len() - i,
        {
            out[HEADER_LEN + i] = payload[i];
            i = i + 1;
        }
        assert(out@.subrange(0, total as int) =~= spec_encode(seq, timestamp, flags, payload@)) by {
            let h = seq![first_byte(), flags] + le16(seq) + le32(timestamp);
            assert forall|j: int| 0 <= j < total implies out@[j] == spec_encode(
                seq,
                timestamp,
                flags,
                payload@,
            )[j] by {
                if j < HEADER_LEN {
                    assert(out@[j] == out@.subrange(0, HEADER_LEN as int)[j]);
                }
            }
        }
        assert(out@.subrange(total as int, out@.len() as int) =~= before.subrange(
            total as int,
            before.len() as int,
        ));
        Ok(total)
    }

    /// Parses a datagram.
    ///
    /// An unknown version or kind is an error, not a panic. Anything on the
    /// network is untrusted.
    pub fn decode(bytes: &'a [u8]) -> (r: Result<AudioPacket<'a>, WireError>)
        ensures
            match (r, spec_decode(bytes@)) {
                (Ok(p), Ok((seq, timestamp, flags, payload))) => p.seq == seq && p.timestamp
                    == timestamp && p.flags == flags && p.payload@ == payload,
                (Err(e), Err(f)) => e == f,
                _ => false,
            },
    {
        if bytes.len() < HEADER_LEN {
            return Err(WireError::TooShort);
        }
        let version = bytes[0] / 16;
        if version != VERSION {
            return Err(WireError::UnknownVersion(version));
        }
        let kind = bytes[0] % 16;
        if kind != Kind::Audio.code() {
            return Err(WireError::UnknownKind(kind));
        }
        if bytes.len() - HEADER_LEN > MAX_PACKET_BYTES {
            return Err(WireError::PayloadTooLarge);
        }
        if bytes.len() == HEADER_LEN {
            return Err(WireError::TooShort);
        }
        let payload = slice_subrange(bytes, HEADER_LEN, bytes.len());
        let seq = bytes[2] as u16 + 256 * (bytes[3] as u16);
        let timestamp = bytes[4] as u32 + 256 * (bytes[5] as u32) + 65536 * (bytes[6] as u32)
            + 16777216 * (bytes[7] as u32);
        Ok(AudioPacket { seq, timestamp, flags: bytes[1], payload })
    }
}

/// The distance from `b` forward to `a` on the wrapping `u16` circle.
pub open spec fn seq_gap(a: u16, b: u16) -> int {
    if a >= b {
        a - b
    } else {
        a - b + 0x1_0000
    }
}

/// The signed distance from `b` to `a`, across a wrap: the gap when it is
/// less than half the circle, and the gap less a whole circle otherwise.
pub open spec fn spec_seq_delta(a: u16, b: u16) -> int {
    if seq_gap(a, b) < 0x8000 {
        seq_gap(a, b)
    } else {
        seq_gap(a, b) - 0x1_0000
    }
}

/// True when `a` is newer than `b`: they differ and `a` lies less than half the
/// circle ahead of `b` (the RFC 1982 rule).
pub open spec fn spec_seq_newer(a: u16, b: u16) -> bool {
    a != b && seq_gap(a, b) < 0x8000
}

/// Compares two wrapping sequence numbers.
pub fn seq_newer(a: u16, b: u16) -> (r: bool)
    ensures
        r == spec_seq_newer(a, b),
{
    a != b && a.wrapping_sub(b) < 0x8000
}

/// The signed distance from `b` to `a`, across a wrap.
pub fn seq_delta(a: u16, b: u16) -> (r: i32)
    ensures
        r == spec_seq_delta(a, b),
        -0x8000 <= r < 0x8000,
{
    let diff = a.wrapping_sub(b);
    if diff < 0x8000 {
        diff as i32
    } else {
        (diff as i32) - 0x1_0000
    }
}

/// Reading back what was written gives the same packet, for every payload
/// that the format allows (one to `MAX_PACKET_BYTES` bytes).
pub proof fn lemma_encode_then_decode(seq: u16, timestamp: u32, flags: u8, payload: Seq<u8>)
    requires
        1 <= payload.len() <= MAX_PACKET_BYTES,
    ensures
        spec_decode(spec_encode(seq, timestamp, flags, payload)) == Ok::<
            (u16, u32, u8, Seq<u8>),
            WireError,
        >((seq, timestamp, flags, payload)),
{
    let b = spec_encode(seq, timestamp, flags, payload);
    assert(b[0] == 17);
    assert(b[2] == (seq % 256) as u8);
    assert(b[3] == (seq / 256) as u8);
    assert(b.subrange(HEADER_LEN as int, b.len() as int) =~= payload);
}

/// A datagram that parses is exactly the encoding of what it parses to.
pub proof fn lemma_decode_then_encode(b: Seq<u8>)
    requires
        spec_decode(b) is Ok,
    ensures
        ({
            let (seq, timestamp, flags, payload) = spec_decode(b)->Ok_0;
            spec_encode(seq, timestamp, flags, payload) == b
        }),
{
    let (seq, timestamp, flags, payload) = spec_decode(b)->Ok_0;
    assert(b[0] == 17);
    lemma_le16_round_trip(b[2], b[3]);
    lemma_le32_round_trip(b[4], b[5], b[6], b[7]);
    let e = spec_encode(seq, timestamp, flags, payload);
    assert(e =~= b);
}

proof fn lemma_le16_round_trip(b0: u8, b1: u8)
    ensures
        le16(from_le16(b0, b1)) == seq![b0, b1],
{
    let v = from_le16(b0, b1);
    assert(v == b0 + 256 * b1);
    assert(v % 256 == b0);
    assert(v / 256 == b1);
    assert(le16(v) =~= seq![b0, b1]);
}

proof fn lemma_le32_round_trip(b0: u8, b1: u8, b2: u8, b3: u8)
    ensures
        le32(from_le32(b0, b1, b2, b3)) == seq![b0, b1, b2, b3],
{
    let v = from_le32(b0, b1, b2, b3);
    assert(v == b0 + 256 * b1 + 65536 * b2 + 16777216 * b3);
    assert(v % 256 == b0);
    assert(v / 256 == b1 + 256 * b2 + 65536 * b3);
    assert((v / 256) % 256 == b1);
    assert(v / 65536 == b2 + 256 * b3);
    assert((v / 65536) % 256 == b2);
    assert(v / 16777216 == b3);
    assert(le32(v) =~= seq![b0, b1, b2, b3]);
}

/// The signed distance and the newer-than test agree: `a` is newer than `b`
/// exactly when the distance from `b` to `a` is positive. Stepping `b` forward
/// by that distance lands on `a`, and swapping the two negates the distance
/// except at the half-circle point, where both directions read `-0x8000`.
pub proof fn lemma_seq_delta_laws(a: u16, b: u16)
    ensures
        spec_seq_newer(a, b) <==> spec_seq_delta(a, b) > 0,
        (b + spec_seq_delta(a, b)) % 0x1_0000 == a as int,
        seq_gap(a, b) != 0x8000 ==> spec_seq_delta(b, a) == -spec_seq_delta(a, b),
        seq_gap(a, b) == 0x8000 ==> spec_seq_delta(b, a) == spec_seq_delta(a, b) == -0x8000,
        spec_seq_delta(a, a) == 0,
{
}

} // verus!
