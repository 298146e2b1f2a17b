//! Packets between the network and the output callback, and the table of peer
//! slots the callback mixes.
//!
//! The output callback is a real-time thread. Every packet here is a fixed
//! size, so a queue slot never allocates.
use vstd::prelude::*;
use vstd::array::*;
use vstd::slice::*;

use crate::config::{FRAME_SAMPLES, JITTER_START_FRAMES, MAX_PACKET_BYTES, MAX_PEERS};
use crate::keys::EndpointId;
use crate::net::audio_wire::{
    spec_encode, spec_encode_result, AudioPacket, WireError, FLAG_TALKSPURT_START, HEADER_LEN,
};

verus! {

/// One encoded frame, sized so a queue slot never allocates.
#[derive(Clone, Copy)]
pub struct Packet {
    seq: u16,
    timestamp: u32,
    flags: u8,
    len: u16,
    data: [u8; MAX_PACKET_BYTES],
}

impl Packet {
    /// The sequence number.
    pub closed spec fn spec_seq(self) -> u16 {
        self.seq
    }

    /// The timestamp in samples.
    pub closed spec fn spec_timestamp(self) -> u32 {
        self.timestamp
    }

    /// The flags byte.
    pub closed spec fn spec_flags(self) -> u8 {
        self.flags
    }

    /// The sequence number.
    pub fn seq(&self) -> (r: u16)
        ensures
            r == self.spec_seq(),
    {
        self.seq
    }

    /// The timestamp in samples.
    pub fn timestamp(&self) -> (r: u32)
        ensures
            r == self.spec_timestamp(),
    {
        self.timestamp
    }

    /// The flags byte.
    pub fn flags(&self) -> (r: u8)
        ensures
            r == self.spec_flags(),
    {
        self.flags
    }

    /// The same packet with another header.
    pub fn with_header(self, seq: u16, timestamp: u32, flags: u8) -> (r: Packet)
        ensures
            r.spec_seq() == seq,
            r.spec_timestamp() == timestamp,
            r.spec_flags() == flags,
            r.spec_payload() == self.spec_payload(),
    {
        Packet { seq, timestamp, flags, ..self }
    }

    /// The Opus payload the packet carries.
    pub closed spec fn spec_payload(self) -> Seq<u8> {
        if self.len as int <= MAX_PACKET_BYTES {
            self.data@.subrange(0, self.len as int)
        } else {
            self.data@
        }
    }

    /// An empty packet. Used to fill the preallocated arrays.
    pub fn empty() -> (p: Packet)
        ensures
            p.spec_seq() == 0,
            p.spec_timestamp() == 0,
            p.spec_flags() == 0,
            p.spec_payload() == Seq::<u8>::empty(),
    {
        let p = Packet {
            seq: 0,
            timestamp: 0,
            flags: 0,
            len: 0,
            data: array_fill_for_copy_types::<u8, MAX_PACKET_BYTES>(0),
        };
        assert(p.spec_payload() =~= Seq::<u8>::empty());
        p
    }

    /// Copies a parsed datagram into a queue slot.
    ///
    /// Returns `None` when the payload is larger than a slot. A peer does not
    /// get to make us allocate.
    pub fn from_wire(packet: &AudioPacket<'_>) -> (r: Option<Packet>)
        ensures
            r is None <==> packet.payload@.len() > MAX_PACKET_BYTES,
            r matches Some(p) ==> {
                &&& p.spec_seq() == packet.seq
                &&& p.spec_timestamp() == packet.timestamp
                &&& p.spec_flags() == packet.flags
                &&& p.spec_payload() == packet.payload@
            },
    {
        let n = packet.payload.len();
        if n > MAX_PACKET_BYTES {
            return None;
        }
        let mut data = array_fill_for_copy_types::<u8, MAX_PACKET_BYTES>(0);
        let mut i: usize = 0;
        while i < n
            invariant
                n == packet.payload@.len(),
                n <= MAX_PACKET_BYTES,
                i <= n,
                data@.len() == MAX_PACKET_BYTES,
                forall|j: int| 0 <= j < i ==> data@[j] == packet.payload@[j],
            decreases n - i,
        {
            data[i] = packet.payload[i];
            i = i + 1;
        }
        let out = Packet {
            seq: packet.seq,
            timestamp: packet.timestamp,
            flags: packet.flags,
            len: n as u16,
            data,
        };
        assert(out.spec_payload() =~= packet.payload@);
        Some(out)
    }

    /// The Opus payload.
    pub fn payload(&self) -> (r: &[u8])
        ensures
            r@ == self.spec_payload(),
    {
        let all = self.data.as_slice();
        if (self.len as usize) <= MAX_PACKET_BYTES {
            slice_subrange(all, 0, self.len as usize)
        } else {
            all
        }
    }

    /// True when the packet carries no payload.
    pub fn is_empty(&self) -> (r: bool)
        ensures
            r == (self.spec_payload().len() == 0),
    {
        proof {
            assert(self.data@.len() == MAX_PACKET_BYTES);
        }
        self.len == 0
    }
}

} // verus!

verus! {

/// One encoded frame on its way out: a datagram buffer, allocated once and
/// large enough for the largest packet the codec makes, and how much of it
/// is in use.
pub struct OutgoingFrame {
    len: usize,
    bytes: Vec<u8>,
}

impl OutgoingFrame {
    /// The buffer has its full size and the used part fits in it.
    pub closed spec fn wf(&self) -> bool {
        &&& self.bytes@.len() == HEADER_LEN + MAX_PACKET_BYTES
        &&& self.len <= self.bytes@.len()
    }

    /// The datagram the frame holds.
    pub closed spec fn spec_wire(&self) -> Seq<u8> {
        self.bytes@.subrange(0, self.len as int)
    }

    /// A frame that holds nothing yet.
    pub fn empty() -> (f: OutgoingFrame)
        ensures
            f.wf(),
            f.spec_wire() == Seq::<u8>::empty(),
    {
        let mut bytes: Vec<u8> = Vec::new();
        let mut i: usize = 0;
        while i < HEADER_LEN + MAX_PACKET_BYTES
            invariant
                i <= HEADER_LEN + MAX_PACKET_BYTES,
                bytes@.len() == i,
            decreases HEADER_LEN + MAX_PACKET_BYTES - i,
        {
            bytes.push(0);
            i = i + 1;
        }
        let f = OutgoingFrame { len: 0, bytes };
        assert(f.spec_wire() =~= Seq::<u8>::empty());
        f
    }

    /// Writes one datagram into the frame, replacing what it held. A refusal
    /// leaves the frame as it was.
    pub fn encode(&mut self, seq: u16, timestamp: u32, flags: u8, payload: &[u8]) -> (r: Result<
        usize,
        WireError,
    >)
        requires
            old(self).wf(),
        ensures
            final(self).wf(),
            r == spec_encode_result(payload@.len(), (HEADER_LEN + MAX_PACKET_BYTES) as nat),
            r is Err ==> final(self).spec_wire() == old(self).spec_wire(),
            r is Ok ==> final(self).spec_wire() == spec_encode(seq, timestamp, flags, payload@),
    {
        let ghost before = *self;
        let r = AudioPacket::encode_into(seq, timestamp, flags, payload, self.bytes.as_mut_slice());
        match r {
            Ok(n) => {
                self.len = n;
            },
            Err(_) => {
                assert(self.bytes@ == before.bytes@);
            },
        }
        r
    }

    /// The complete datagram, header and payload.
    pub fn wire(&self) -> (r: &[u8])
        requires
            self.wf(),
        ensures
            r@ == self.spec_wire(),
            r@.len() <= HEADER_LEN + MAX_PACKET_BYTES,
    {
        slice_subrange(self.bytes.as_slice(), 0, self.len)
    }
}

/// How the frames of an outgoing stream are numbered.
#[derive(Debug, Clone, Copy, PartialEq, Eq, Structural)]
pub struct Numbering {
    /// The sequence number of the next frame.
    pub seq: u16,
    /// The sample clock at the start of the next frame.
    pub timestamp: u32,
    /// A frame has gone out since the microphone last closed.
    pub talking: bool,
}

impl Numbering {
    /// A stream that has sent nothing.
    pub fn new() -> (n: Numbering)
        ensures
            n == (Numbering { seq: 0, timestamp: 0, talking: false }),
    {
        Numbering { seq: 0, timestamp: 0, talking: false }
    }

    /// The header of the next frame: its number, its timestamp, and its
    /// flags. The first frame after silence starts a talkspurt, so the far
    /// end restarts its buffer instead of concealing the pause.
    pub fn header(&mut self) -> (r: (u16, u32, u8))
        ensures
            r == (old(self).seq, old(self).timestamp, if old(self).talking {
                0u8
            } else {
                FLAG_TALKSPURT_START
            }),
            *final(self) == (Numbering { talking: true, ..*old(self) }),
    {
        let flags = if self.talking {
            0
        } else {
            FLAG_TALKSPURT_START
        };
        self.talking = true;
        (self.seq, self.timestamp, flags)
    }

    /// A frame went out: the next is numbered one later and starts a frame
    /// of samples later, both wrapping.
    pub fn advance(&mut self)
        ensures
            final(self).seq == (old(self).seq + 1) % 0x1_0000,
            final(self).timestamp == (old(self).timestamp + FRAME_SAMPLES) % 0x1_0000_0000,
            final(self).talking == old(self).talking,
    {
        self.seq = self.seq.wrapping_add(1);
        self.timestamp = self.timestamp.wrapping_add(FRAME_SAMPLES as u32);
    }

    /// The microphone closed: the next frame starts a talkspurt.
    pub fn silence(&mut self)
        ensures
            *final(self) == (Numbering { talking: false, ..*old(self) }),
    {
        self.talking = false;
    }
}

} // verus!

verus! {

/// What giving a peer a slot did.
#[derive(Debug, Clone, Copy, PartialEq, Eq, Structural)]
pub enum Activation {
    /// The peer already held this slot. Its stream is not disturbed.
    Existing(usize),
    /// The peer was given this free slot. Whatever the previous owner left
    /// must be thrown away.
    Fresh(usize),
}

/// The position of the first slot owned by `peer`, if any.
pub open spec fn owner_position(owners: Seq<Option<EndpointId>>, peer: EndpointId) -> Option<int> {
    if exists|i: int|
        0 <= i < owners.len() && #[trigger] owners[i] is Some && owners[i]->Some_0@ == peer@ {
        Some(
            choose|i: int|
                0 <= i < owners.len() && #[trigger] owners[i] is Some && owners[i]->Some_0@ == peer@,
        )
    } else {
        None
    }
}

/// The position of the first free slot, if any.
pub open spec fn first_free(owners: Seq<Option<EndpointId>>) -> Option<int> {
    if exists|i: int| 0 <= i < owners.len() && #[trigger] owners[i] is None {
        Some(
            choose|i: int|
                0 <= i < owners.len() && #[trigger] owners[i] is None && forall|j: int|
                    0 <= j < i ==> #[trigger] owners[j] is Some,
        )
    } else {
        None
    }
}

/// The peers holding slots, in slot order.
pub open spec fn owners_in_order(owners: Seq<Option<EndpointId>>) -> Seq<EndpointId>
    decreases owners.len(),
{
    if owners.len() == 0 {
        Seq::empty()
    } else {
        let before = owners_in_order(owners.drop_last());
        match owners.last() {
            Some(p) => before.push(p),
            None => before,
        }
    }
}

/// The positions of the slots that have an owner, in order.
pub open spec fn occupied_positions(owners: Seq<Option<EndpointId>>) -> Seq<usize>
    decreases owners.len(),
{
    if owners.len() == 0 {
        Seq::empty()
    } else {
        let before = occupied_positions(owners.drop_last());
        if owners.last() is Some {
            before.push((owners.len() - 1) as usize)
        } else {
            before
        }
    }
}

/// What the network side publishes about one slot for the output callback.
#[derive(Debug, Clone, Copy, PartialEq, Eq, Structural)]
pub struct SlotState {
    /// The callback mixes this slot.
    pub active: bool,
    /// Bumped, wrapping, whenever the slot changes owner. The callback
    /// compares it against what it last saw and resets its decoder and jitter
    /// state on a change.
    pub generation: u32,
    /// The jitter target in frames.
    pub target_frames: u32,
    /// Frames concealed because a packet never arrived.
    pub concealed: u64,
    /// Packets dropped because they arrived too late to play.
    pub late: u64,
    /// Packets dropped because the queue was full.
    pub overrun: u64,
}

/// A slot nobody has held yet.
pub open spec fn idle_slot() -> SlotState {
    SlotState {
        active: false,
        generation: 0,
        target_frames: JITTER_START_FRAMES as u32,
        concealed: 0,
        late: 0,
        overrun: 0,
    }
}

/// The generation after `g`, wrapping.
pub open spec fn next_generation(g: u32) -> u32 {
    ((g + 1) % 0x1_0000_0000) as u32
}

/// A slot handed to a new owner: counters at zero, the starting jitter
/// target, a new generation, and mixed.
pub open spec fn fresh_slot(s: SlotState) -> SlotState {
    SlotState {
        active: true,
        generation: next_generation(s.generation),
        target_frames: JITTER_START_FRAMES as u32,
        concealed: 0,
        late: 0,
        overrun: 0,
    }
}

/// A slot activated again by the peer that holds it: mixed, and otherwise
/// as it was, so its stream is not disturbed.
pub open spec fn reactivated_slot(s: SlotState) -> SlotState {
    SlotState { active: true, ..s }
}

/// A slot whose owner left: no longer mixed, and a new generation so the
/// callback drains what the owner left behind.
pub open spec fn retired_slot(s: SlotState) -> SlotState {
    SlotState { active: false, generation: next_generation(s.generation), ..s }
}

/// Who owns each of the fixed set of peer slots, and what each slot tells
/// the output callback.
///
/// The set never changes size, so the output callback can index its slots
/// without a bound surprise. Adding a peer marks a slot; it never allocates.
pub struct SlotOwners {
    owners: Vec<Option<EndpointId>>,
    slots: Vec<SlotState>,
}

impl SlotOwners {
    /// The owner of each slot.
    pub closed spec fn spec_owners(&self) -> Seq<Option<EndpointId>> {
        self.owners@
    }

    /// The published state of each slot.
    pub closed spec fn spec_slots(&self) -> Seq<SlotState> {
        self.slots@
    }

    /// There are `MAX_PEERS` slots and no peer holds two.
    pub closed spec fn wf(&self) -> bool {
        &&& self.owners@.len() == MAX_PEERS
        &&& self.slots@.len() == MAX_PEERS
        &&& forall|i: int, j: int|
            0 <= i < j < self.owners@.len() && (#[trigger] self.owners@[i]) is Some && (
            #[trigger] self.owners@[j]) is Some ==> self.owners@[i]->Some_0@ != self.owners@[j]->Some_0@
    }

    /// What a consistent table promises its callers: `MAX_PEERS` slots, each
    /// with its published state, and no peer holding two of them.
    pub proof fn lemma_wf_facts(&self)
        requires
            self.wf(),
        ensures
            self.spec_owners().len() == MAX_PEERS,
            self.spec_slots().len() == MAX_PEERS,
            forall|i: int, j: int|
                0 <= i < j < MAX_PEERS && (#[trigger] self.spec_owners()[i]) is Some && (
                #[trigger] self.spec_owners()[j]) is Some ==> self.spec_owners()[i]->Some_0@
                    != self.spec_owners()[j]->Some_0@,
    {
    }

    /// Every slot free and idle.
    pub fn new() -> (t: SlotOwners)
        ensures
            t.wf(),
            t.spec_owners() == Seq::new(MAX_PEERS as nat, |i: int| None::<EndpointId>),
            t.spec_slots() == Seq::new(MAX_PEERS as nat, |i: int| idle_slot()),
    {
        let mut owners: Vec<Option<EndpointId>> = Vec::new();
        let mut slots: Vec<SlotState> = Vec::new();
        let mut i: usize = 0;
        while i < MAX_PEERS
            invariant
                i <= MAX_PEERS,
                owners@ == Seq::new(i as nat, |k: int| None::<EndpointId>),
                slots@ == Seq::new(i as nat, |k: int| idle_slot()),
            decreases MAX_PEERS - i,
        {
            owners.push(None);
            slots.push(
                SlotState {
                    active: false,
                    generation: 0,
                    target_frames: JITTER_START_FRAMES as u32,
                    concealed: 0,
                    late: 0,
                    overrun: 0,
                },
            );
            i = i + 1;
            assert(owners@ =~= Seq::new(i as nat, |k: int| None::<EndpointId>));
            assert(slots@ =~= Seq::new(i as nat, |k: int| idle_slot()));
        }
        SlotOwners { owners, slots }
    }

    /// What slot `index` publishes.
    pub fn slot(&self, index: usize) -> (r: SlotState)
        requires
            self.wf(),
            index < MAX_PEERS,
        ensures
            r == self.spec_slots()[index as int],
    {
        self.slots[index]
    }

    /// The slot a peer holds, if any.
    pub fn index_of(&self, peer: EndpointId) -> (r: Option<usize>)
        requires
            self.wf(),
        ensures
            r is Some <==> owner_position(self.spec_owners(), peer) is Some,
            r matches Some(i) ==> i == owner_position(self.spec_owners(), peer)->Some_0
                && self.spec_owners()[i as int]->Some_0@ == peer@,
    {
        let mut i: usize = 0;
        while i < self.owners.len()
            invariant
                self.wf(),
                i <= self.owners@.len(),
                forall|j: int|
                    0 <= j < i ==> !((#[trigger] self.owners@[j]) is Some && self.owners@[j]->Some_0@
                        == peer@),
            decreases self.owners@.len() - i,
        {
            match self.owners[i] {
                Some(owner) => {
                    if crate::keys::same_key(&owner, &peer) {
                        proof {
                            assert(self.owners@[i as int] == Some(owner));
                            assert(self.owners@[i as int] is Some && self.owners@[i as int]->Some_0@
                                == peer@);
                            let c = owner_position(self.owners@, peer)->Some_0;
                            assert(self.owners@[c] is Some && self.owners@[c]->Some_0@ == peer@);
                            if c < i {
                                assert(self.owners@[c]->Some_0@ != self.owners@[i as int]->Some_0@);
                            } else if c > i {
                                assert(self.owners@[i as int]->Some_0@ != self.owners@[c]->Some_0@);
                            }
                        }
                        return Some(i);
                    }
                },
                None => {},
            }
            i = i + 1;
        }
        None
    }

    /// The first free slot, if any.
    fn free_slot(&self) -> (r: Option<usize>)
        ensures
            r is Some <==> first_free(self.spec_owners()) is Some,
            r matches Some(i) ==> i == first_free(self.spec_owners())->Some_0,
    {
        let mut i: usize = 0;
        while i < self.owners.len()
            invariant
                i <= self.owners@.len(),
                forall|j: int| 0 <= j < i ==> (#[trigger] self.owners@[j]) is Some,
            decreases self.owners@.len() - i,
        {
            if self.owners[i].is_none() {
                proof {
                    let c = first_free(self.owners@)->Some_0;
                    assert(self.owners@[i as int] is None);
                    if c < i {
                        assert(self.owners@[c] is Some);
                    } else if c > i {
                        assert(self.owners@[i as int] is Some);
                    }
                }
                return Some(i);
            }
            i = i + 1;
        }
        None
    }

    /// Gives a peer a slot. Returns where, and whether it is fresh, or
    /// `None` when every slot is taken.
    ///
    /// Reactivating a peer that already holds a slot returns the same slot and
    /// does not disturb its stream: only its active flag is set. A new peer
    /// takes the lowest free slot, which starts over: counters at zero, the
    /// starting jitter target, a new generation, and the active flag set.
    pub fn activate(&mut self, peer: EndpointId) -> (r: Option<Activation>)
        requires
            old(self).wf(),
        ensures
            final(self).wf(),
            owner_position(old(self).spec_owners(), peer) matches Some(i) ==> {
                &&& r == Some(Activation::Existing(i as usize))
                &&& final(self).spec_owners() == old(self).spec_owners()
                &&& final(self).spec_slots() == old(self).spec_slots().update(
                    i,
                    reactivated_slot(old(self).spec_slots()[i]),
                )
            },
            owner_position(old(self).spec_owners(), peer) is None ==> (first_free(
                old(self).spec_owners(),
            ) matches Some(i) ==> {
                &&& r == Some(Activation::Fresh(i as usize))
                &&& final(self).spec_owners() == old(self).spec_owners().update(i, Some(peer))
                &&& final(self).spec_slots() == old(self).spec_slots().update(
                    i,
                    fresh_slot(old(self).spec_slots()[i]),
                )
            }),
            owner_position(old(self).spec_owners(), peer) is None && first_free(
                old(self).spec_owners(),
            ) is None ==> {
                &&& r is None
                &&& final(self).spec_owners() == old(self).spec_owners()
                &&& final(self).spec_slots() == old(self).spec_slots()
            },
    {
        match self.index_of(peer) {
            Some(i) => {
                let mut st = self.slots[i];
                st.active = true;
                self.slots.set(i, st);
                return Some(Activation::Existing(i));
            },
            None => {},
        }
        match self.free_slot() {
            Some(i) => {
                self.owners.set(i, Some(peer));
                let previous = self.slots[i];
                self.slots.set(
                    i,
                    SlotState {
                        active: true,
                        generation: previous.generation.wrapping_add(1),
                        target_frames: JITTER_START_FRAMES as u32,
                        concealed: 0,
                        late: 0,
                        overrun: 0,
                    },
                );
                proof {
                    assert forall|a: int, b: int|
                        0 <= a < b < self.owners@.len() && (#[trigger] self.owners@[a]) is Some && (
                        #[trigger] self.owners@[b]) is Some implies self.owners@[a]->Some_0@
                        != self.owners@[b]->Some_0@ by {
                        if a == i {
                            assert(!(old(self).owners@[b] is Some && old(self).owners@[b]->Some_0@
                                == peer@));
                        } else if b == i {
                            assert(!(old(self).owners@[a] is Some && old(self).owners@[a]->Some_0@
                                == peer@));
                        }
                    }
                }
                Some(Activation::Fresh(i))
            },
            None => None,
        }
    }

    /// Takes a peer's slot away. Returns the slot it held.
    pub fn deactivate(&mut self, peer: EndpointId) -> (r: Option<usize>)
        requires
            old(self).wf(),
        ensures
            final(self).wf(),
            r == match owner_position(old(self).spec_owners(), peer) {
                Some(i) => Some(i as usize),
                None => None::<usize>,
            },
            r matches Some(i) ==> final(self).spec_owners() == old(self).spec_owners().update(
                i as int,
                None,
            ) && final(self).spec_slots() == old(self).spec_slots().update(
                i as int,
                retired_slot(old(self).spec_slots()[i as int]),
            ),
            r is None ==> final(self).spec_owners() == old(self).spec_owners()
                && final(self).spec_slots() == old(self).spec_slots(),
    {
        match self.index_of(peer) {
            Some(i) => {
                self.owners.set(i, None);
                let mut st = self.slots[i];
                st.active = false;
                st.generation = st.generation.wrapping_add(1);
                self.slots.set(i, st);
                Some(i)
            },
            None => None,
        }
    }

    /// Where a datagram from `peer` goes: the slot the peer holds, and the
    /// packet copied out of the datagram. A peer outside the session has no
    /// slot, so its audio never reaches the mix; an oversized payload is
    /// dropped as well.
    pub fn route(&self, peer: EndpointId, packet: &AudioPacket<'_>) -> (r: Option<(usize, Packet)>)
        requires
            self.wf(),
        ensures
            r is Some <==> owner_position(self.spec_owners(), peer) is Some
                && packet.payload@.len() <= MAX_PACKET_BYTES,
            r matches Some((i, p)) ==> {
                &&& i == owner_position(self.spec_owners(), peer)->Some_0
                &&& p.spec_seq() == packet.seq
                &&& p.spec_timestamp() == packet.timestamp
                &&& p.spec_flags() == packet.flags
                &&& p.spec_payload() == packet.payload@
            },
    {
        let index = match self.index_of(peer) {
            Some(i) => i,
            None => return None,
        };
        match Packet::from_wire(packet) {
            Some(p) => Some((index, p)),
            None => None,
        }
    }

    /// Every peer that holds a slot, in slot order.
    pub fn active_peers(&self) -> (r: Vec<EndpointId>)
        ensures
            r@ == owners_in_order(self.spec_owners()),
    {
        let mut out: Vec<EndpointId> = Vec::new();
        let mut i: usize = 0;
        while i < self.owners.len()
            invariant
                i <= self.owners@.len(),
                out@ == owners_in_order(self.owners@.subrange(0, i as int)),
            decreases self.owners@.len() - i,
        {
            proof {
                assert(self.owners@.subrange(0, i + 1).drop_last() =~= self.owners@.subrange(
                    0,
                    i as int,
                ));
            }
            match self.owners[i] {
                Some(p) => out.push(p),
                None => {},
            }
            i = i + 1;
        }
        assert(self.owners@.subrange(0, self.owners@.len() as int) =~= self.owners@);
        out
    }

    /// Frees every slot. Each slot that had an owner is retired. Returns the
    /// slots that had an owner, in order.
    pub fn clear(&mut self) -> (r: Vec<usize>)
        requires
            old(self).wf(),
        ensures
            final(self).wf(),
            final(self).spec_owners() == Seq::new(MAX_PEERS as nat, |i: int| None::<EndpointId>),
            final(self).spec_slots() == Seq::new(
                MAX_PEERS as nat,
                |i: int|
                    if old(self).spec_owners()[i] is Some {
                        retired_slot(old(self).spec_slots()[i])
                    } else {
                        old(self).spec_slots()[i]
                    },
            ),
            r@ == occupied_positions(old(self).spec_owners()),
    {
        let mut freed: Vec<usize> = Vec::new();
        let mut i: usize = 0;
        while i < self.owners.len()
            invariant
                self.owners@.len() == MAX_PEERS,
                self.slots@.len() == MAX_PEERS,
                i <= MAX_PEERS,
                forall|j: int| 0 <= j < i ==> (#[trigger] self.owners@[j]) is None,
                old(self).owners@.len() == MAX_PEERS,
                old(self).slots@.len() == MAX_PEERS,
                forall|j: int| i <= j < MAX_PEERS ==> #[trigger] self.owners@[j] == old(self).owners@[j],
                forall|j: int|
                    0 <= j < i ==> #[trigger] self.slots@[j] == if old(self).owners@[j] is Some {
                        retired_slot(old(self).slots@[j])
                    } else {
                        old(self).slots@[j]
                    },
                forall|j: int| i <= j < MAX_PEERS ==> #[trigger] self.slots@[j] == old(self).slots@[j],
                freed@ == occupied_positions(old(self).owners@.subrange(0, i as int)),
            decreases MAX_PEERS - i,
        {
            proof {
                assert(old(self).owners@.subrange(0, i + 1).drop_last() =~= old(self).owners@.subrange(
                    0,
                    i as int,
                ));
            }
            if self.owners[i].is_some() {
                self.owners.set(i, None);
                let mut st = self.slots[i];
                st.active = false;
                st.generation = st.generation.wrapping_add(1);
                self.slots.set(i, st);
                freed.push(i);
            }
            i = i + 1;
        }
        assert(old(self).owners@.subrange(0, MAX_PEERS as int) =~= old(self).owners@);
        assert(self.owners@ =~= Seq::new(MAX_PEERS as nat, |i: int| None::<EndpointId>));
        assert(self.slots@ =~= Seq::new(
            MAX_PEERS as nat,
            |i: int|
                if old(self).owners@[i] is Some {
                    retired_slot(old(self).slots@[i])
                } else {
                    old(self).slots@[i]
                },
        ));
        freed
    }
}


/// Activating a peer that holds no slot and then activating it again finds it
/// in the slot it was just given: the second call neither moves it nor starts
/// a fresh stream.
pub proof fn lemma_activate_twice_keeps_the_slot(t: SlotOwners, peer: EndpointId)
    requires
        t.wf(),
        owner_position(t.spec_owners(), peer) is None,
        first_free(t.spec_owners()) is Some,
    ensures
        ({
            let i = first_free(t.spec_owners())->Some_0;
            owner_position(t.spec_owners().update(i, Some(peer)), peer) == Some(i)
        }),
{
    let owners = t.spec_owners();
    let i = first_free(owners)->Some_0;
    let after = owners.update(i, Some(peer));
    assert(0 <= i < after.len() && after[i] is Some && after[i]->Some_0@ == peer@);
    let c = owner_position(after, peer)->Some_0;
    assert(after[c] is Some && after[c]->Some_0@ == peer@);
    if c != i {
        assert(owners[c] is Some && owners[c]->Some_0@ == peer@);
    }
}

/// The output callback notices every change of owner: a slot handed to a new
/// owner, whether straight from idle or after its previous owner left, carries
/// a generation other than the one the callback last saw.
pub proof fn lemma_new_owner_changes_the_generation(s: SlotState)
    ensures
        fresh_slot(s).generation != s.generation,
        retired_slot(s).generation != s.generation,
        fresh_slot(retired_slot(s)).generation != retired_slot(s).generation,
{
}

/// A peer whose slot was taken away holds no slot at all.
pub proof fn lemma_deactivated_peer_holds_no_slot(t: SlotOwners, peer: EndpointId)
    requires
        t.wf(),
        owner_position(t.spec_owners(), peer) is Some,
    ensures
        owner_position(
            t.spec_owners().update(owner_position(t.spec_owners(), peer)->Some_0, None),
            peer,
        ) is None,
{
    let owners = t.spec_owners();
    let i = owner_position(owners, peer)->Some_0;
    let after = owners.update(i, None);
    assert forall|j: int| 0 <= j < after.len() implies !(#[trigger] after[j] is Some
        && after[j]->Some_0@ == peer@) by {
        if j != i && after[j] is Some && after[j]->Some_0@ == peer@ {
            assert(owners[j] is Some);
            assert(owners[i] is Some);
            if j < i {
                assert(owners[j]->Some_0@ != owners[i]->Some_0@);
            } else {
                assert(owners[i]->Some_0@ != owners[j]->Some_0@);
            }
        }
    }
}

} // verus!
