//! Every tunable constant lives here.
//!
//! Reading this one file gives the whole latency budget and the protocol
//! limits.
use vstd::prelude::*;

verus! {

/// The control protocol version sent in `Control::Hello`.
pub const PROTOCOL_VERSION: u16 = 1;

/// The sample rate every stage runs at.
pub const SAMPLE_RATE: u32 = 48_000;

/// The Opus frame length in milliseconds.
pub const FRAME_MS: u32 = 10;

/// Samples in one mono frame: 480 at 48 kHz and 10 ms.
pub const FRAME_SAMPLES: usize = 480;

/// The device buffer asked for, in frames: about 5.3 ms at 48 kHz.
pub const DEVICE_BUFFER_FRAMES: u32 = 256;

/// The largest Opus packet the decoder accepts.
pub const MAX_PACKET_BYTES: usize = 1000;

/// Encoded packets held per peer before the network side drops new ones.
pub const PEER_QUEUE_PACKETS: usize = 32;

/// The smallest jitter target depth in frames.
pub const JITTER_MIN_FRAMES: usize = 1;

/// The starting jitter target depth in frames.
pub const JITTER_START_FRAMES: usize = 2;

/// The largest jitter target depth in frames.
pub const JITTER_MAX_FRAMES: usize = 6;

/// Frames of headroom above the target before the buffer trims a frame.
pub const JITTER_SLACK_FRAMES: usize = 2;

/// How long, in milliseconds, the target must stay put before it shrinks.
pub const JITTER_SHRINK_AFTER_MS: u64 = 5_000;

/// Consecutive concealed frames before the output fades to silence.
pub const CONCEAL_LIMIT: u32 = 5;

/// The largest number of people in one conversation, including you.
pub const MAX_PEERS: usize = 8;

/// The highest slot number that a single keypress can reach.
pub const MAX_SLOT: u8 = 9;

/// A session with no voice for this many seconds closes itself.
pub const SESSION_IDLE_TIMEOUT_SECS: u64 = 600;

/// The longest name that the roster shows, in characters.
pub const MAX_NAME_CHARS: usize = 40;

/// The largest control message in bytes.
pub const MAX_MESSAGE: usize = 4096;

/// The reconnect backoff steps in seconds. The last one holds.
pub open spec fn backoff_table() -> Seq<u64> {
    seq![1u64, 2, 5, 15, 30]
}

/// The number of reconnect backoff steps.
pub const BACKOFF_STEPS: usize = 5;

/// The random fraction, in percent, added to each backoff step.
pub const BACKOFF_JITTER_PERCENT: u64 = 20;

} // verus!
