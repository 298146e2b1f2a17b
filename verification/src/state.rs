//! The snapshot the user interface reads.
//!
//! The interface never reads network or audio state directly. The core
//! publishes one immutable value of this type, and the interface reads it.
use vstd::prelude::*;

use crate::keys::EndpointId;

verus! {

/// How a peer's packets reach us.
#[derive(Debug, Clone, Copy, PartialEq, Eq, Structural)]
pub enum PathKind {
    /// A hole-punched direct path. This is the low latency case.
    Direct,
    /// The traffic goes through a relay. This roughly doubles the delay.
    Relay,
    /// Not connected, or not yet known.
    Unknown,
}

impl PathKind {
    /// The roster's short label for the path.
    pub open spec fn short_spec(self) -> Seq<char> {
        match self {
            PathKind::Direct => seq!['D', 'I', 'R'],
            PathKind::Relay => seq!['R', 'L', 'Y'],
            PathKind::Unknown => Seq::empty(),
        }
    }

    /// The roster's short label for the path.
    pub fn short(&self) -> (r: &'static str)
        ensures
            r@ == self.short_spec(),
    {
        proof {
            reveal_strlit("DIR");
            reveal_strlit("RLY");
            reveal_strlit("");
        }
        match self {
            PathKind::Direct => "DIR",
            PathKind::Relay => "RLY",
            PathKind::Unknown => "",
        }
    }

    /// The number a path kind is stored as.
    pub open spec fn code_spec(self) -> u32 {
        match self {
            PathKind::Direct => 0,
            PathKind::Relay => 1,
            PathKind::Unknown => 2,
        }
    }

    /// The number a path kind is stored as.
    pub fn code(&self) -> (r: u32)
        ensures
            r == self.code_spec(),
    {
        match self {
            PathKind::Direct => 0,
            PathKind::Relay => 1,
            PathKind::Unknown => 2,
        }
    }

    /// The path kind a stored number means. Anything unknown reads as
    /// `Unknown`.
    pub fn from_code(code: u32) -> (r: PathKind)
        ensures
            r == (if code == 0 {
                PathKind::Direct
            } else if code == 1 {
                PathKind::Relay
            } else {
                PathKind::Unknown
            }),
            r.code_spec() == code || (code > 1 && r == PathKind::Unknown),
    {
        if code == 0 {
            PathKind::Direct
        } else if code == 1 {
            PathKind::Relay
        } else {
            PathKind::Unknown
        }
    }
}

/// Storing a path kind and reading it back gives the same kind.
pub proof fn lemma_path_code_round_trip(p: PathKind)
    ensures
        (if p.code_spec() == 0 {
            PathKind::Direct
        } else if p.code_spec() == 1 {
            PathKind::Relay
        } else {
            PathKind::Unknown
        }) == p,
{
}

/// One row of the roster.
#[derive(Debug, Clone)]
pub struct PeerView {
    pub endpoint_id: EndpointId,
    pub slot: Option<u8>,
    pub name: String,
    pub online: bool,
    /// The application level round trip time in milliseconds.
    pub rtt_ms: Option<u32>,
    pub path: PathKind,
    /// The peer refuses incoming sessions.
    pub dnd: bool,
    /// The peer has closed its own microphone.
    pub muted: bool,
    /// The peer is in the local session.
    pub live: bool,
    /// The peer is speaking now.
    pub speaking: bool,
}

/// What the network layer knows of a contact it has a peer for.
#[derive(Debug, Clone, Copy, PartialEq, Eq, Structural)]
pub struct LinkFacts {
    pub connected: bool,
    pub rtt_ms: Option<u32>,
    pub path: PathKind,
    pub dnd: bool,
    pub muted: bool,
    pub speaking: bool,
}

impl PeerView {
    /// A contact's roster row, from its stored entry and what the network
    /// layer knows of it, if anything. A contact the network layer has never
    /// heard of is offline. Only a connected peer can be speaking. Session
    /// membership is filled in elsewhere.
    pub fn from_contact(endpoint_id: EndpointId, slot: Option<u8>, name: String, link: Option<
        LinkFacts,
    >) -> (r: PeerView)
        ensures
            r.endpoint_id == endpoint_id,
            r.slot == slot,
            r.name@ == name@,
            !r.live,
            link is None ==> !r.online && r.rtt_ms is None && r.path == PathKind::Unknown && !r.dnd
                && !r.muted && !r.speaking,
            link matches Some(l) ==> r.online == l.connected && r.rtt_ms == l.rtt_ms && r.path
                == l.path && r.dnd == l.dnd && r.muted == l.muted && r.speaking == (l.speaking
                && l.connected),
    {
        match link {
            Some(l) => PeerView {
                endpoint_id,
                slot,
                name,
                online: l.connected,
                rtt_ms: l.rtt_ms,
                path: l.path,
                dnd: l.dnd,
                muted: l.muted,
                live: false,
                speaking: l.speaking && l.connected,
            },
            None => PeerView {
                endpoint_id,
                slot,
                name,
                online: false,
                rtt_ms: None,
                path: PathKind::Unknown,
                dnd: false,
                muted: false,
                live: false,
                speaking: false,
            },
        }
    }
}

/// A connection attempt from an endpoint that is not a contact.
#[derive(Debug, Clone)]
pub struct KnockView {
    pub endpoint_id: EndpointId,
    pub claimed: Option<String>,
}

/// What the local microphone is doing.
#[derive(Debug, Clone, Copy, PartialEq, Eq, Structural)]
pub enum MicState {
    /// Closed. Nothing is transmitted.
    Closed,
    /// The input device is open, but nothing is being sent.
    Armed,
    /// Open to at least one peer.
    Live,
    /// Forced off by the user, while a session is open.
    Muted,
}

/// What the audio path is actually doing.
#[derive(Debug, Clone, Copy, PartialEq, Eq, Structural)]
pub struct AudioCounters {
    pub sent: u64,
    pub refused: u64,
    pub encoded: u64,
    /// Frames decoded and heard.
    pub played: u64,
    pub concealed: u64,
    pub late: u64,
    pub overrun: u64,
}

impl AudioCounters {
    /// Every counter at zero.
    pub fn zero() -> (r: AudioCounters)
        ensures
            r == (AudioCounters {
                sent: 0,
                refused: 0,
                encoded: 0,
                played: 0,
                concealed: 0,
                late: 0,
                overrun: 0,
            }),
    {
        AudioCounters { sent: 0, refused: 0, encoded: 0, played: 0, concealed: 0, late: 0, overrun: 0 }
    }
}

/// The whole interface state, as one value.
#[derive(Debug, Clone)]
pub struct UiState {
    pub my_name: String,
    pub my_id: Option<EndpointId>,
    /// False until the endpoint reaches a relay. Nothing can connect before it.
    pub online: bool,
    pub peers: Vec<PeerView>,
    pub knocks: Vec<KnockView>,
    pub mic: MicState,
    pub dnd: bool,
    /// Slots in the live session, in the order they were added.
    pub live_slots: Vec<u8>,
    /// Set when something went wrong that the user must see.
    pub fault: Option<String>,
    /// Audio counters.
    pub audio: AudioCounters,
}

/// True when some peer is live and speaking.
pub open spec fn receiving_spec(peers: Seq<PeerView>) -> bool {
    exists|i: int| 0 <= i < peers.len() && #[trigger] peers[i].live && peers[i].speaking
}

/// The positions of the live peers, in order.
pub open spec fn live_positions(peers: Seq<PeerView>) -> Seq<usize>
    decreases peers.len(),
{
    if peers.len() == 0 {
        Seq::empty()
    } else {
        let before = live_positions(peers.drop_last());
        if peers.last().live {
            before.push((peers.len() - 1) as usize)
        } else {
            before
        }
    }
}

impl UiState {
    /// The snapshot the core publishes after reading the store and the peers:
    /// nothing is live yet, the microphone is closed, and no fault is shown.
    pub fn published(
        my_name: String,
        me: EndpointId,
        online: bool,
        peers: Vec<PeerView>,
        knocks: Vec<KnockView>,
        dnd: bool,
    ) -> (r: UiState)
        ensures
            r.my_name@ == my_name@,
            r.my_id == Some(me),
            r.online == online,
            r.peers@ == peers@,
            r.knocks@ == knocks@,
            r.mic == MicState::Closed,
            r.dnd == dnd,
            r.live_slots@ == Seq::<u8>::empty(),
            r.fault is None,
            r.audio == AudioCounters::zero_spec(),
    {
        UiState {
            my_name,
            my_id: Some(me),
            online,
            peers,
            knocks,
            mic: MicState::Closed,
            dnd,
            live_slots: Vec::new(),
            fault: None,
            audio: AudioCounters::zero(),
        }
    }

    /// The positions in `peers` of the peers in the live session, in order.
    pub fn live_peers(&self) -> (r: Vec<usize>)
        ensures
            r@ == live_positions(self.peers@),
    {
        let mut out: Vec<usize> = Vec::new();
        let mut i: usize = 0;
        while i < self.peers.len()
            invariant
                i <= self.peers@.len(),
                out@ == live_positions(self.peers@.subrange(0, i as int)),
            decreases self.peers@.len() - i,
        {
            proof {
                assert(self.peers@.subrange(0, i + 1).drop_last() =~= self.peers@.subrange(
                    0,
                    i as int,
                ));
            }
            if self.peers[i].live {
                out.push(i);
            }
            i = i + 1;
        }
        assert(self.peers@.subrange(0, self.peers@.len() as int) =~= self.peers@);
        out
    }

    /// True when any peer is sending audio right now.
    pub fn receiving(&self) -> (r: bool)
        ensures
            r == receiving_spec(self.peers@),
    {
        let mut i: usize = 0;
        while i < self.peers.len()
            invariant
                i <= self.peers@.len(),
                forall|j: int| 0 <= j < i ==> !(#[trigger] self.peers@[j].live && self.peers@[j].speaking),
            decreases self.peers@.len() - i,
        {
            if self.peers[i].live && self.peers[i].speaking {
                return true;
            }
            i = i + 1;
        }
        false
    }
}

impl Default for UiState {
    fn default() -> (r: UiState)
        ensures
            r.my_name@ == Seq::<char>::empty(),
            r.my_id is None,
            !r.online,
            r.peers@ == Seq::<PeerView>::empty(),
            r.knocks@ == Seq::<KnockView>::empty(),
            r.mic == MicState::Closed,
            !r.dnd,
            r.live_slots@ == Seq::<u8>::empty(),
            r.fault is None,
            r.audio == AudioCounters::zero_spec(),
    {
        UiState {
            my_name: String::new(),
            my_id: None,
            online: false,
            peers: Vec::new(),
            knocks: Vec::new(),
            mic: MicState::Closed,
            dnd: false,
            live_slots: Vec::new(),
            fault: None,
            audio: AudioCounters::zero(),
        }
    }
}

impl AudioCounters {
    /// Every counter at zero.
    pub open spec fn zero_spec() -> AudioCounters {
        AudioCounters { sent: 0, refused: 0, encoded: 0, played: 0, concealed: 0, late: 0, overrun: 0 }
    }
}

} // verus!
