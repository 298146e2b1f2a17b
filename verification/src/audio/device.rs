//! Choosing audio devices by name.
//!
//! The host's device list arrives as plain names. A stored choice that the
//! host no longer offers falls back to the system default, because a device
//! that went away must not stop the application from starting.
use vstd::prelude::*;

use crate::config::{DEVICE_BUFFER_FRAMES, SAMPLE_RATE};
use crate::text::{chars_equal, chars_of, string_of};

verus! {

/// Which way audio flows.
#[derive(Debug, Clone, Copy, PartialEq, Eq, Structural)]
pub enum Direction {
    Input,
    Output,
}

/// Whether the output will be heard by the microphone.
#[derive(Debug, Clone, Copy, PartialEq, Eq, Structural)]
pub enum EchoRisk {
    /// The voice unit is cancelling the echo, so a loudspeaker is fine.
    Cancelled,
    /// A loudspeaker. The far end will hear itself.
    Likely,
    /// Headphones or a headset. Nothing leaks back.
    Unlikely,
    /// The host did not say what this device is.
    Unknown,
}

/// True when `name` is one of `offered`.
pub open spec fn offers(offered: Seq<String>, name: Seq<char>) -> bool {
    exists|i: int| 0 <= i < offered.len() && #[trigger] offered[i]@ == name
}

/// The device name a direction really opens: the stored choice when the host
/// still offers it, and the system default otherwise.
pub open spec fn in_use_spec(
    preferred: Option<Seq<char>>,
    offered: Seq<String>,
    default: Option<Seq<char>>,
) -> Option<Seq<char>> {
    match preferred {
        Some(name) if offers(offered, name) => Some(name),
        _ => default,
    }
}

/// True when some entry of `offered` is `name`.
fn is_offered(name: &str, offered: &[String]) -> (r: bool)
    ensures
        r == offers(offered@, name@),
{
    let wanted = chars_of(name);
    let mut i: usize = 0;
    while i < offered.len()
        invariant
            wanted@ == name@,
            i <= offered@.len(),
            forall|j: int| 0 <= j < i ==> #[trigger] offered@[j]@ != name@,
        decreases offered@.len() - i,
    {
        let candidate = chars_of(offered[i].as_str());
        if chars_equal(candidate.as_slice(), wanted.as_slice()) {
            return true;
        }
        i = i + 1;
    }
    false
}

/// The device name a direction really opens.
///
/// `preferred` is the stored choice. The menu tick has to agree with the
/// audio path, or it reports a device that is not in use.
pub fn in_use(preferred: Option<&str>, offered: &[String], default: Option<&str>) -> (r: Option<
    String,
>)
    ensures
        r is Some <==> in_use_spec(
            match preferred {
                Some(p) => Some(p@),
                None => None,
            },
            offered@,
            match default {
                Some(d) => Some(d@),
                None => None,
            },
        ) is Some,
        r matches Some(s) ==> s@ == in_use_spec(
            match preferred {
                Some(p) => Some(p@),
                None => None,
            },
            offered@,
            match default {
                Some(d) => Some(d@),
                None => None,
            },
        )->Some_0,
{
    match preferred {
        Some(name) => {
            if is_offered(name, offered) {
                return Some(string_of(chars_of(name).as_slice()));
            }
        },
        None => {},
    }
    match default {
        Some(d) => Some(string_of(chars_of(d).as_slice())),
        None => None,
    }
}


/// What the host says a device is.
#[derive(Debug, Clone, Copy, PartialEq, Eq, Structural)]
pub enum DeviceKind {
    Speaker,
    Headphones,
    Headset,
    Earpiece,
    /// Anything else, or nothing said.
    Other,
}

/// Whether the far end will hear itself through a device. Only a real
/// speaker is reported: many good headphone interfaces say nothing of
/// themselves, and a warning that fires on the right setup teaches the user
/// to ignore warnings.
pub fn echo_risk(direction: Direction, kind: DeviceKind) -> (r: EchoRisk)
    ensures
        r == match (direction, kind) {
            (Direction::Input, _) => EchoRisk::Unlikely,
            (_, DeviceKind::Speaker) => EchoRisk::Likely,
            (_, DeviceKind::Headphones) => EchoRisk::Unlikely,
            (_, DeviceKind::Headset) => EchoRisk::Unlikely,
            (_, DeviceKind::Earpiece) => EchoRisk::Unlikely,
            _ => EchoRisk::Unknown,
        },
{
    match (direction, kind) {
        (Direction::Input, _) => EchoRisk::Unlikely,
        (_, DeviceKind::Speaker) => EchoRisk::Likely,
        (_, DeviceKind::Headphones) => EchoRisk::Unlikely,
        (_, DeviceKind::Headset) => EchoRisk::Unlikely,
        (_, DeviceKind::Earpiece) => EchoRisk::Unlikely,
        _ => EchoRisk::Unknown,
    }
}

/// The device buffer a stream asks for.
#[derive(Debug, Clone, Copy, PartialEq, Eq, Structural)]
pub enum BufferChoice {
    /// This many frames.
    Fixed(u32),
    /// Whatever the backend picks; the delay is then unknown.
    Default,
}

/// The buffer sizes a format accepts, in frames.
#[derive(Debug, Clone, Copy, PartialEq, Eq, Structural)]
pub struct BufferRange {
    pub min: u32,
    pub max: u32,
}

/// One stream format a device offers.
#[derive(Debug, Clone, Copy, PartialEq, Eq, Structural)]
pub struct FormatRange {
    pub min_rate: u32,
    pub max_rate: u32,
    pub channels: u16,
    /// The buffer sizes it accepts, smallest and largest, when the host says.
    pub buffer: Option<BufferRange>,
}

/// The buffer asked for: the preferred size held to the range the device
/// accepts, because CoreAudio refuses a size it did not offer.
pub open spec fn buffer_spec(buffer: Option<BufferRange>) -> BufferChoice {
    match buffer {
        Some(b) => BufferChoice::Fixed(
            if DEVICE_BUFFER_FRAMES < b.min {
                b.min
            } else if DEVICE_BUFFER_FRAMES > b.max {
                b.max
            } else {
                DEVICE_BUFFER_FRAMES
            },
        ),
        None => BufferChoice::Default,
    }
}

/// Picks the smallest safe buffer the device allows.
pub fn pick_buffer_size(buffer: Option<BufferRange>) -> (r: BufferChoice)
    requires
        buffer matches Some(b) ==> b.min <= b.max,
    ensures
        r == buffer_spec(buffer),
{
    match buffer {
        Some(b) => BufferChoice::Fixed(
            if DEVICE_BUFFER_FRAMES < b.min {
                b.min
            } else if DEVICE_BUFFER_FRAMES > b.max {
                b.max
            } else {
                DEVICE_BUFFER_FRAMES
            },
        ),
        None => BufferChoice::Default,
    }
}

/// True when a format can run at the pipeline's own rate.
pub open spec fn runs_native(f: FormatRange) -> bool {
    f.min_rate <= SAMPLE_RATE <= f.max_rate
}

/// True when some format a device offers runs at the pipeline's rate.
pub fn supports_native_rate(formats: &[FormatRange]) -> (r: bool)
    ensures
        r == exists|i: int| 0 <= i < formats@.len() && runs_native(#[trigger] formats@[i]),
{
    let mut i: usize = 0;
    while i < formats.len()
        invariant
            i <= formats@.len(),
            forall|j: int| 0 <= j < i ==> !runs_native(#[trigger] formats@[j]),
        decreases formats@.len() - i,
    {
        if formats[i].min_rate <= SAMPLE_RATE && SAMPLE_RATE <= formats[i].max_rate {
            return true;
        }
        i = i + 1;
    }
    false
}

/// How a device is opened.
#[derive(Debug, Clone, Copy, PartialEq, Eq, Structural)]
pub struct FormatChoice {
    /// Which of the offered formats.
    pub index: usize,
    /// The sample rate to run at.
    pub rate: u32,
    /// True when that rate is the pipeline's own, so nothing resamples.
    pub native: bool,
    pub channels: u16,
    pub buffer: BufferChoice,
}

/// True when format `i` has the highest rate of all, and no later format
/// has as high a one.
pub open spec fn last_highest(formats: Seq<FormatRange>, i: int) -> bool {
    &&& 0 <= i < formats.len()
    &&& forall|j: int|
        0 <= j < formats.len() ==> (#[trigger] formats[j]).max_rate <= formats[i].max_rate && (j > i
            ==> formats[j].max_rate < formats[i].max_rate)
}

/// The format to open: the first that runs at the pipeline's own rate,
/// since a resampler in the hot path costs latency that cannot be won back;
/// failing that, the one with the highest rate, the last of equals, at that
/// rate. At least one channel.
pub open spec fn format_choice_spec(formats: Seq<FormatRange>) -> Option<FormatChoice> {
    if formats.len() == 0 {
        None
    } else {
        let i = if exists|i: int| 0 <= i < formats.len() && runs_native(#[trigger] formats[i]) {
            choose|i: int|
                0 <= i < formats.len() && runs_native(#[trigger] formats[i]) && forall|j: int|
                    0 <= j < i ==> !runs_native(#[trigger] formats[j])
        } else {
            choose|i: int| #[trigger] last_highest(formats, i)
        };
        let f = formats[i];
        let native = runs_native(f);
        Some(
            FormatChoice {
                index: i as usize,
                rate: if native {
                    SAMPLE_RATE
                } else {
                    f.max_rate
                },
                native,
                channels: if f.channels >= 1 {
                    f.channels
                } else {
                    1
                },
                buffer: buffer_spec(f.buffer),
            },
        )
    }
}

/// How to open a device, from the formats it offers; `None` when it offers
/// none.
pub fn choose_format(formats: &[FormatRange]) -> (r: Option<FormatChoice>)
    requires
        forall|i: int|
            0 <= i < formats@.len() ==> ((#[trigger] formats@[i]).buffer matches Some(b) ==> b.min
                <= b.max),
    ensures
        r == format_choice_spec(formats@),
{
    if formats.len() == 0 {
        return None;
    }
    let mut found: Option<usize> = None;
    let mut i: usize = 0;
    while i < formats.len()
        invariant
            i <= formats@.len(),
            found is None ==> forall|j: int| 0 <= j < i ==> !runs_native(#[trigger] formats@[j]),
            found matches Some(k) ==> k < formats@.len() && runs_native(formats@[k as int])
                && forall|j: int| 0 <= j < k ==> !runs_native(#[trigger] formats@[j]),
        decreases formats@.len() - i,
    {
        if found.is_none() && formats[i].min_rate <= SAMPLE_RATE && SAMPLE_RATE <= formats[i].max_rate {
            found = Some(i);
        }
        i = i + 1;
    }
    let index = match found {
        Some(k) => {
            proof {
                let c = choose|c: int|
                    0 <= c < formats@.len() && runs_native(#[trigger] formats@[c]) && forall|j: int|
                        0 <= j < c ==> !runs_native(#[trigger] formats@[j]);
                assert(runs_native(formats@[k as int]));
                if c < k {
                    assert(!runs_native(formats@[c]));
                } else if c > k {
                    assert(!runs_native(formats@[k as int]));
                }
            }
            k
        },
        None => {
            let mut best: usize = 0;
            let mut j: usize = 1;
            while j < formats.len()
                invariant
                    formats@.len() >= 1,
                    1 <= j <= formats@.len(),
                    best < j,
                    forall|m: int|
                        0 <= m < j ==> (#[trigger] formats@[m]).max_rate <= formats@[best as int].max_rate,
                    forall|m: int|
                        best < m < j ==> (#[trigger] formats@[m]).max_rate < formats@[best as int].max_rate,
                decreases formats@.len() - j,
            {
                if formats[j].max_rate >= formats[best].max_rate {
                    best = j;
                }
                j = j + 1;
            }
            proof {
                assert(last_highest(formats@, best as int));
                let c = choose|c: int| #[trigger] last_highest(formats@, c);
                assert(formats@[best as int].max_rate <= formats@[c].max_rate);
                assert(formats@[c].max_rate <= formats@[best as int].max_rate);
                if c < best {
                    assert(formats@[best as int].max_rate < formats@[c].max_rate);
                } else if c > best {
                    assert(formats@[c].max_rate < formats@[best as int].max_rate);
                }
            }
            best
        },
    };
    let f = formats[index];
    let native = f.min_rate <= SAMPLE_RATE && SAMPLE_RATE <= f.max_rate;
    Some(
        FormatChoice {
            index,
            rate: if native {
                SAMPLE_RATE
            } else {
                f.max_rate
            },
            native,
            channels: if f.channels >= 1 {
                f.channels
            } else {
                1
            },
            buffer: pick_buffer_size(f.buffer),
        },
    )
}

} // verus!
