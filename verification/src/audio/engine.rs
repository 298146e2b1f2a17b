//! The audio thread's decisions.
//!
//! The device streams live on one thread, and everything else talks to it
//! through commands. What a command makes that thread do, and what it knows
//! afterwards, is decided here. Opening and closing the devices is the
//! caller's work: it performs the steps of a plan, in order, and reports back
//! whether each open succeeded.
//!
//! The speaker opens once and stays open. The microphone opens and closes.
//! A contact must be able to reach you at any moment, so the output never
//! closes; the microphone indicator should mean something, so the input does.
use vstd::prelude::*;

verus! {

/// What the engine is doing.
#[derive(Debug, Clone, Copy, PartialEq, Eq, Structural)]
pub enum EngineState {
    /// Nothing is running. Reaching this state after start up means a fault.
    Idle,
    /// The speaker is open, so a contact can be heard. The microphone is shut.
    Listening,
    /// The microphone is open and transmitting.
    Live,
}

impl EngineState {
    /// The number an engine state is published as.
    pub open spec fn code_spec(self) -> u8 {
        match self {
            EngineState::Idle => 0,
            EngineState::Listening => 1,
            EngineState::Live => 2,
        }
    }

    /// The engine state a published number stands for. A number no state
    /// publishes reads as `Idle`.
    pub open spec fn from_code_spec(code: u8) -> EngineState {
        if code == 2 {
            EngineState::Live
        } else if code == 1 {
            EngineState::Listening
        } else {
            EngineState::Idle
        }
    }

    pub fn code(self) -> (r: u8)
        ensures
            r == self.code_spec(),
    {
        match self {
            EngineState::Idle => 0,
            EngineState::Listening => 1,
            EngineState::Live => 2,
        }
    }

    pub fn from_code(code: u8) -> (r: EngineState)
        ensures
            r == EngineState::from_code_spec(code),
    {
        if code == 2 {
            EngineState::Live
        } else if code == 1 {
            EngineState::Listening
        } else {
            EngineState::Idle
        }
    }
}

/// Publishing an engine state and reading it back gives the same state.
pub proof fn lemma_engine_state_code_round_trip(state: EngineState)
    ensures
        EngineState::from_code_spec(state.code_spec()) == state,
{
}

/// A confirmation tone.
#[derive(Debug, Clone, Copy, PartialEq, Eq, Structural)]
pub enum Chirp {
    /// The audio devices failed. Two notes, falling.
    Fault,
}

/// The devices the user chose, by name.
///
/// `None` means "use the system default". The audio thread reads this
/// whenever it opens a device, so a change takes effect on the next open.
#[derive(Debug, Clone)]
pub struct DevicePreference {
    pub input: Option<String>,
    pub output: Option<String>,
}

impl Default for DevicePreference {
    fn default() -> (r: DevicePreference)
        ensures
            r.input is None,
            r.output is None,
    {
        DevicePreference { input: None, output: None }
    }
}

/// A command for the audio thread.
#[derive(Debug, Clone, Copy, PartialEq, Eq, Structural)]
pub enum Command {
    /// Open the microphone without transmitting. Arming ahead of time is what
    /// makes a talk session start instantly.
    Arm,
    /// Start or stop transmitting. The microphone should already be armed.
    Transmit(bool),
    /// Close the microphone. The speaker stays open.
    Disarm,
    /// Play a confirmation tone locally.
    Chirp(Chirp),
    /// Close and reopen the speaker, picking up a changed preference.
    Reopen,
    /// Close everything and stop the thread.
    Shutdown,
}

/// One piece of device work, performed by the caller.
#[derive(Debug, Clone, Copy, PartialEq, Eq, Structural)]
pub enum Step {
    /// Open the microphone and the thread that sends its frames. The caller
    /// reports whether it opened.
    OpenMicrophone,
    /// Stop the sender and close the microphone.
    CloseMicrophone,
    /// Drop the output stream.
    CloseSpeaker,
    /// Build a new slot table. The output callback owns the read side of
    /// every packet queue, so a new stream needs new queues.
    NewSlotTable,
    /// Open the speaker on the preferred output. The caller reports whether
    /// it opened.
    OpenSpeaker,
    /// Take every peer out of the slot table.
    ClearSlots,
    /// Play a tone.
    PlayChirp(Chirp),
}

/// What the audio thread knows about its devices.
#[derive(Debug, Clone, Copy, PartialEq, Eq, Structural)]
pub struct Devices {
    /// The input stream is open.
    pub microphone: bool,
    /// The output stream is open.
    pub speaker: bool,
    /// Captured frames are being sent.
    pub transmitting: bool,
    /// Published: the input device is open, transmitting or not.
    pub armed: bool,
    /// Published: what the engine is doing.
    pub state: EngineState,
}

/// What the thread knows once the speaker has first been tried.
pub open spec fn started_spec(speaker_opened: bool) -> Devices {
    Devices {
        microphone: false,
        speaker: speaker_opened,
        transmitting: false,
        armed: false,
        state: if speaker_opened {
            EngineState::Listening
        } else {
            EngineState::Idle
        },
    }
}

/// The state published when nothing is being sent.
pub open spec fn resting_state(speaker: bool) -> EngineState {
    if speaker {
        EngineState::Listening
    } else {
        EngineState::Idle
    }
}

/// The device work a command calls for, in the order it is done.
pub open spec fn plan_spec(d: Devices, command: Command) -> Seq<Step> {
    match command {
        Command::Arm => if d.microphone {
            seq![]
        } else {
            seq![Step::OpenMicrophone]
        },
        Command::Transmit(on) => if on && !d.microphone {
            seq![Step::OpenMicrophone]
        } else {
            seq![]
        },
        Command::Disarm => if d.microphone {
            seq![Step::CloseMicrophone]
        } else {
            seq![]
        },
        Command::Chirp(c) => seq![Step::PlayChirp(c)],
        Command::Reopen => if d.microphone {
            seq![Step::CloseSpeaker, Step::NewSlotTable, Step::OpenSpeaker, Step::CloseMicrophone]
        } else {
            seq![Step::CloseSpeaker, Step::NewSlotTable, Step::OpenSpeaker]
        },
        Command::Shutdown => if d.microphone {
            seq![Step::CloseMicrophone, Step::ClearSlots, Step::CloseSpeaker]
        } else {
            seq![Step::ClearSlots, Step::CloseSpeaker]
        },
    }
}

/// What the thread knows after a command's work, given whether the
/// microphone and the speaker opened where the plan opened them.
pub open spec fn next_spec(
    d: Devices,
    command: Command,
    microphone_opened: bool,
    speaker_opened: bool,
) -> Devices {
    match command {
        Command::Arm => if !d.microphone && microphone_opened {
            Devices { microphone: true, armed: true, ..d }
        } else {
            d
        },
        Command::Transmit(on) => {
            let opened = on && !d.microphone && microphone_opened;
            Devices {
                microphone: d.microphone || opened,
                armed: if opened {
                    true
                } else {
                    d.armed
                },
                transmitting: on,
                state: if on {
                    EngineState::Live
                } else {
                    resting_state(d.speaker)
                },
                ..d
            }
        },
        Command::Disarm => Devices {
            microphone: false,
            transmitting: false,
            armed: false,
            state: resting_state(d.speaker),
            ..d
        },
        Command::Chirp(_) => d,
        Command::Reopen => Devices {
            microphone: false,
            speaker: speaker_opened,
            armed: if d.microphone {
                false
            } else {
                d.armed
            },
            state: if speaker_opened {
                EngineState::Listening
            } else {
                d.state
            },
            ..d
        },
        Command::Shutdown => Devices {
            microphone: false,
            speaker: false,
            transmitting: false,
            armed: false,
            state: EngineState::Idle,
        },
    }
}

/// The tone a command's outcome calls for: a microphone that would not open
/// when armed is a fault the user must hear.
pub open spec fn fault_spec(d: Devices, command: Command, microphone_opened: bool) -> Option<Chirp> {
    if command == Command::Arm && !d.microphone && !microphone_opened {
        Some(Chirp::Fault)
    } else {
        None
    }
}

/// Whether the device report is rebuilt: when arming opened the microphone.
pub open spec fn report_spec(d: Devices, command: Command, microphone_opened: bool) -> bool {
    command == Command::Arm && !d.microphone && microphone_opened
}

/// What a command left behind.
#[derive(Debug, Clone, Copy, PartialEq, Eq, Structural)]
pub struct Settled {
    /// What the thread knows now.
    pub devices: Devices,
    /// A tone to play because something failed.
    pub fault: Option<Chirp>,
    /// The device report should be rebuilt from the devices now open.
    pub rebuild_report: bool,
    /// The thread stops.
    pub stop: bool,
}

impl Devices {
    /// What the thread knows after it first tried to open the speaker.
    pub fn started(speaker_opened: bool) -> (r: Devices)
        ensures
            r == started_spec(speaker_opened),
    {
        Devices {
            microphone: false,
            speaker: speaker_opened,
            transmitting: false,
            armed: false,
            state: if speaker_opened {
                EngineState::Listening
            } else {
                EngineState::Idle
            },
        }
    }

    /// The device work `command` calls for, in order.
    pub fn plan(&self, command: Command) -> (r: Vec<Step>)
        ensures
            r@ == plan_spec(*self, command),
    {
        let mut steps: Vec<Step> = Vec::new();
        match command {
            Command::Arm => {
                if !self.microphone {
                    steps.push(Step::OpenMicrophone);
                }
            },
            Command::Transmit(on) => {
                if on && !self.microphone {
                    steps.push(Step::OpenMicrophone);
                }
            },
            Command::Disarm => {
                if self.microphone {
                    steps.push(Step::CloseMicrophone);
                }
            },
            Command::Chirp(c) => {
                steps.push(Step::PlayChirp(c));
            },
            Command::Reopen => {
                steps.push(Step::CloseSpeaker);
                steps.push(Step::NewSlotTable);
                steps.push(Step::OpenSpeaker);
                if self.microphone {
                    steps.push(Step::CloseMicrophone);
                }
            },
            Command::Shutdown => {
                if self.microphone {
                    steps.push(Step::CloseMicrophone);
                }
                steps.push(Step::ClearSlots);
                steps.push(Step::CloseSpeaker);
            },
        }
        assert(steps@ =~= plan_spec(*self, command));
        steps
    }

    /// What follows once the plan for `command` has been carried out.
    ///
    /// `microphone_opened` and `speaker_opened` say whether the opens in the
    /// plan succeeded; where the plan opened nothing they are not read.
    pub fn settle(&self, command: Command, microphone_opened: bool, speaker_opened: bool) -> (r:
        Settled)
        ensures
            r.devices == next_spec(*self, command, microphone_opened, speaker_opened),
            r.fault == fault_spec(*self, command, microphone_opened),
            r.rebuild_report == report_spec(*self, command, microphone_opened),
            r.stop == (command == Command::Shutdown),
    {
        let d = *self;
        let resting = if d.speaker {
            EngineState::Listening
        } else {
            EngineState::Idle
        };
        match command {
            Command::Arm => {
                if d.microphone {
                    Settled { devices: d, fault: None, rebuild_report: false, stop: false }
                } else if microphone_opened {
                    Settled {
                        devices: Devices { microphone: true, armed: true, ..d },
                        fault: None,
                        rebuild_report: true,
                        stop: false,
                    }
                } else {
                    Settled { devices: d, fault: Some(Chirp::Fault), rebuild_report: false, stop: false }
                }
            },
            Command::Transmit(on) => {
                let opened = on && !d.microphone && microphone_opened;
                let devices = Devices {
                    microphone: d.microphone || opened,
                    armed: if opened {
                        true
                    } else {
                        d.armed
                    },
                    transmitting: on,
                    state: if on {
                        EngineState::Live
                    } else {
                        resting
                    },
                    ..d
                };
                Settled { devices, fault: None, rebuild_report: false, stop: false }
            },
            Command::Disarm => {
                let devices = Devices {
                    microphone: false,
                    transmitting: false,
                    armed: false,
                    state: resting,
                    ..d
                };
                Settled { devices, fault: None, rebuild_report: false, stop: false }
            },
            Command::Chirp(_) => Settled { devices: d, fault: None, rebuild_report: false, stop: false },
            Command::Reopen => {
                let devices = Devices {
                    microphone: false,
                    speaker: speaker_opened,
                    armed: if d.microphone {
                        false
                    } else {
                        d.armed
                    },
                    state: if speaker_opened {
                        EngineState::Listening
                    } else {
                        d.state
                    },
                    ..d
                };
                Settled { devices, fault: None, rebuild_report: false, stop: false }
            },
            Command::Shutdown => {
                let devices = Devices {
                    microphone: false,
                    speaker: false,
                    transmitting: false,
                    armed: false,
                    state: EngineState::Idle,
                };
                Settled { devices, fault: None, rebuild_report: false, stop: true }
            },
        }
    }
}

/// Every command keeps "armed" equal to "the microphone is open", whatever
/// the opens in its plan did.
pub proof fn lemma_armed_tracks_the_microphone(
    d: Devices,
    command: Command,
    microphone_opened: bool,
    speaker_opened: bool,
)
    requires
        d.armed == d.microphone,
    ensures
        next_spec(d, command, microphone_opened, speaker_opened).armed == next_spec(
            d,
            command,
            microphone_opened,
            speaker_opened,
        ).microphone,
{
}

/// Only a reopen or a shutdown touches the speaker: no other command closes
/// the output, so a contact can always be heard.
pub proof fn lemma_only_reopen_and_shutdown_touch_the_speaker(
    d: Devices,
    command: Command,
    microphone_opened: bool,
    speaker_opened: bool,
)
    requires
        command != Command::Reopen,
        command != Command::Shutdown,
    ensures
        next_spec(d, command, microphone_opened, speaker_opened).speaker == d.speaker,
        !plan_spec(d, command).contains(Step::CloseSpeaker),
{
    assert(!plan_spec(d, command).contains(Step::CloseSpeaker)) by {
        let p = plan_spec(d, command);
        if p.contains(Step::CloseSpeaker) {
            let i = choose|i: int| 0 <= i < p.len() && p[i] == Step::CloseSpeaker;
            assert(p[i] == Step::CloseSpeaker);
        }
    }
}

/// The microphone opens only for a conversation: no command but arming ahead
/// of a talk session or starting to transmit plans to open it, and none
/// leaves it open where it was closed.
pub proof fn lemma_only_arming_or_talking_opens_the_microphone(
    d: Devices,
    command: Command,
    microphone_opened: bool,
    speaker_opened: bool,
)
    requires
        command != Command::Arm,
        command != Command::Transmit(true),
    ensures
        !plan_spec(d, command).contains(Step::OpenMicrophone),
        next_spec(d, command, microphone_opened, speaker_opened).microphone ==> d.microphone,
{
    let p = plan_spec(d, command);
    if p.contains(Step::OpenMicrophone) {
        let i = choose|i: int| 0 <= i < p.len() && p[i] == Step::OpenMicrophone;
        assert(p[i] == Step::OpenMicrophone);
    }
}

/// Disarming always leaves the microphone closed and nothing sent.
pub proof fn lemma_disarm_closes_the_microphone(
    d: Devices,
    microphone_opened: bool,
    speaker_opened: bool,
)
    ensures
        !next_spec(d, Command::Disarm, microphone_opened, speaker_opened).microphone,
        !next_spec(d, Command::Disarm, microphone_opened, speaker_opened).transmitting,
        next_spec(d, Command::Disarm, microphone_opened, speaker_opened).state != EngineState::Live,
{
}

/// Arming twice opens the microphone once: the second arm plans no work and
/// changes nothing.
pub proof fn lemma_arm_is_idempotent(d: Devices, first_opened: bool, microphone_opened: bool, speaker_opened: bool)
    requires
        first_opened,
    ensures
        ({
            let once = next_spec(d, Command::Arm, first_opened, speaker_opened);
            &&& plan_spec(once, Command::Arm) == Seq::<Step>::empty()
            &&& next_spec(once, Command::Arm, microphone_opened, speaker_opened) == once
        }),
{
    let once = next_spec(d, Command::Arm, first_opened, speaker_opened);
    assert(once.microphone);
    assert(plan_spec(once, Command::Arm) =~= Seq::<Step>::empty());
}

/// Counters that describe how one peer's stream is behaving.
#[derive(Debug, Clone, Copy, PartialEq, Eq, Structural)]
pub struct SlotCounters {
    pub played: u64,
    pub concealed: u64,
    pub late: u64,
    pub overrun: u64,
}

/// Counters that describe how the stream is behaving.
#[derive(Debug, Clone, Copy, PartialEq, Eq, Structural)]
pub struct Stats {
    pub encoded: u64,
    pub send_dropped: u64,
    pub encode_errors: u64,
    /// Frames decoded and heard. The positive signal that audio is arriving.
    pub played: u64,
    pub concealed: u64,
    pub late: u64,
    pub overrun: u64,
}

/// The sum of one counter over the slots.
pub open spec fn sum_played(slots: Seq<SlotCounters>) -> int
    decreases slots.len(),
{
    if slots.len() == 0 {
        0
    } else {
        sum_played(slots.drop_last()) + slots.last().played
    }
}

pub open spec fn sum_concealed(slots: Seq<SlotCounters>) -> int
    decreases slots.len(),
{
    if slots.len() == 0 {
        0
    } else {
        sum_concealed(slots.drop_last()) + slots.last().concealed
    }
}

pub open spec fn sum_late(slots: Seq<SlotCounters>) -> int
    decreases slots.len(),
{
    if slots.len() == 0 {
        0
    } else {
        sum_late(slots.drop_last()) + slots.last().late
    }
}

pub open spec fn sum_overrun(slots: Seq<SlotCounters>) -> int
    decreases slots.len(),
{
    if slots.len() == 0 {
        0
    } else {
        sum_overrun(slots.drop_last()) + slots.last().overrun
    }
}

proof fn lemma_sums_grow(slots: Seq<SlotCounters>, i: int)
    requires
        0 <= i <= slots.len(),
    ensures
        sum_played(slots.subrange(0, i)) <= sum_played(slots),
        sum_concealed(slots.subrange(0, i)) <= sum_concealed(slots),
        sum_late(slots.subrange(0, i)) <= sum_late(slots),
        sum_overrun(slots.subrange(0, i)) <= sum_overrun(slots),
    decreases slots.len() - i,
{
    if i < slots.len() {
        lemma_sums_grow(slots, i + 1);
        assert(slots.subrange(0, i + 1).drop_last() =~= slots.subrange(0, i));
    } else {
        assert(slots.subrange(0, i) =~= slots);
    }
}

impl Stats {
    /// The engine's counters: the capture side's own, and the stream
    /// counters summed over every slot.
    pub fn collect(encoded: u64, send_dropped: u64, encode_errors: u64, slots: &[SlotCounters]) -> (r:
        Stats)
        requires
            sum_played(slots@) <= u64::MAX,
            sum_concealed(slots@) <= u64::MAX,
            sum_late(slots@) <= u64::MAX,
            sum_overrun(slots@) <= u64::MAX,
        ensures
            r.encoded == encoded,
            r.send_dropped == send_dropped,
            r.encode_errors == encode_errors,
            r.played == sum_played(slots@),
            r.concealed == sum_concealed(slots@),
            r.late == sum_late(slots@),
            r.overrun == sum_overrun(slots@),
    {
        let mut played: u64 = 0;
        let mut concealed: u64 = 0;
        let mut late: u64 = 0;
        let mut overrun: u64 = 0;
        let mut i: usize = 0;
        while i < slots.len()
            invariant
                i <= slots@.len(),
                sum_played(slots@) <= u64::MAX,
                sum_concealed(slots@) <= u64::MAX,
                sum_late(slots@) <= u64::MAX,
                sum_overrun(slots@) <= u64::MAX,
                played == sum_played(slots@.subrange(0, i as int)),
                concealed == sum_concealed(slots@.subrange(0, i as int)),
                late == sum_late(slots@.subrange(0, i as int)),
                overrun == sum_overrun(slots@.subrange(0, i as int)),
            decreases slots@.len() - i,
        {
            proof {
                assert(slots@.subrange(0, i + 1).drop_last() =~= slots@.subrange(0, i as int));
                lemma_sums_grow(slots@, i + 1);
            }
            let s = slots[i];
            played = played + s.played;
            concealed = concealed + s.concealed;
            late = late + s.late;
            overrun = overrun + s.overrun;
            i = i + 1;
        }
        assert(slots@.subrange(0, slots@.len() as int) =~= slots@);
        Stats { encoded, send_dropped, encode_errors, played, concealed, late, overrun }
    }
}


/// Starting or stopping transmission does exactly that: after
/// `Transmit(on)` captured frames are sent exactly when `on`, and the engine
/// is published as live exactly when `on`. Disarming and shutting down stop
/// sending, and no other command starts or stops it.
pub proof fn lemma_transmit_sets_sending(
    d: Devices,
    on: bool,
    microphone_opened: bool,
    speaker_opened: bool,
    c: Chirp,
)
    ensures
        next_spec(d, Command::Transmit(on), microphone_opened, speaker_opened).transmitting == on,
        (next_spec(d, Command::Transmit(on), microphone_opened, speaker_opened).state
            == EngineState::Live) == on,
        !next_spec(d, Command::Disarm, microphone_opened, speaker_opened).transmitting,
        !next_spec(d, Command::Shutdown, microphone_opened, speaker_opened).transmitting,
        next_spec(d, Command::Arm, microphone_opened, speaker_opened).transmitting == d.transmitting,
        next_spec(d, Command::Chirp(c), microphone_opened, speaker_opened).transmitting
            == d.transmitting,
        next_spec(d, Command::Reopen, microphone_opened, speaker_opened).transmitting
            == d.transmitting,
{
}

} // verus!
