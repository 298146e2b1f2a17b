//! A roster with every state worth looking at, for screenshots of the
//! interface without a network.
use vstd::prelude::*;

use crate::keys::{derived_public_key, public_key_of, EndpointId};
use crate::state::{AudioCounters, KnockView, MicState, PathKind, PeerView, UiState};
use crate::text::append;

verus! {

/// The secret key of demo identity `n`: 32 bytes of `n`.
pub open spec fn demo_secret(n: u8) -> Seq<u8> {
    Seq::new(32, |i: int| n)
}

/// Demo identity `n`.
pub fn demo_id(n: u8) -> (r: EndpointId)
    ensures
        r@ == derived_public_key(demo_secret(n)),
{
    let secret = [n; 32];
    assert(secret@ =~= demo_secret(n));
    public_key_of(&secret)
}

/// What a roster row shows, as values.
pub open spec fn row_fields(p: PeerView) -> (Seq<u8>, Option<u8>, Seq<char>, bool, Option<u32>, PathKind, bool, bool, bool, bool) {
    (p.endpoint_id@, p.slot, p.name@, p.online, p.rtt_ms, p.path, p.dnd, p.muted, p.live, p.speaking)
}

/// An offline demo contact.
pub open spec fn idle_row(n: u8, slot: u8, name: Seq<char>) -> (Seq<u8>, Option<u8>, Seq<char>, bool, Option<u32>, PathKind, bool, bool, bool, bool) {
    (derived_public_key(demo_secret(n)), Some(slot), name, false, None, PathKind::Unknown, false, false, false, false)
}

/// The demo roster: two contacts in the session when `live`, one speaking;
/// one muted, one on do not disturb, two offline.
pub open spec fn demo_rows(live: bool) -> Seq<(Seq<u8>, Option<u8>, Seq<char>, bool, Option<u32>, PathKind, bool, bool, bool, bool)> {
    seq![
        (derived_public_key(demo_secret(1)), Some(1u8), "Maggie Henry"@, true, Some(12u32), PathKind::Direct, false, false, live, live),
        (derived_public_key(demo_secret(2)), Some(3u8), "Will Tachau"@, true, Some(44u32), PathKind::Relay, false, false, live, false),
        (derived_public_key(demo_secret(3)), Some(4u8), "Ada Bell"@, true, Some(8u32), PathKind::Direct, false, true, false, false),
        (derived_public_key(demo_secret(4)), Some(6u8), "Tomas Vidal"@, true, Some(120u32), PathKind::Relay, true, false, false, false),
        idle_row(5, 5, "David Marcin"@),
        idle_row(6, 7, "Priya Raman"@),
    ]
}

fn text(s: &str) -> (r: String)
    ensures
        r@ == s@,
{
    let mut out = String::new();
    append(&mut out, s);
    out
}

fn idle_peer(n: u8, slot: u8, name: &str) -> (r: PeerView)
    ensures
        row_fields(r) == idle_row(n, slot, name@),
{
    PeerView {
        endpoint_id: demo_id(n),
        slot: Some(slot),
        name: text(name),
        online: false,
        rtt_ms: None,
        path: PathKind::Unknown,
        dnd: false,
        muted: false,
        live: false,
        speaking: false,
    }
}

/// A roster with every state worth looking at.
pub fn demo_state(live: bool) -> (r: UiState)
    ensures
        r.my_name@ == "nick"@,
        r.my_id matches Some(id) && id@ == derived_public_key(demo_secret(9)),
        r.online,
        r.peers@.map_values(|p: PeerView| row_fields(p)) == demo_rows(live),
        r.knocks@.len() == 1,
        r.knocks@[0].endpoint_id@ == derived_public_key(demo_secret(7)),
        r.knocks@[0].claimed matches Some(c) && c@ == "Jun Park"@,
        r.mic == (if live {
            MicState::Live
        } else {
            MicState::Closed
        }),
        !r.dnd,
        r.live_slots@ == (if live {
            seq![1u8, 3u8]
        } else {
            Seq::<u8>::empty()
        }),
        r.fault is None,
        r.audio == AudioCounters::zero_spec(),
{
    let peers = vec![
        PeerView {
            endpoint_id: demo_id(1),
            slot: Some(1),
            name: text("Maggie Henry"),
            online: true,
            rtt_ms: Some(12),
            path: PathKind::Direct,
            dnd: false,
            muted: false,
            live,
            speaking: live,
        },
        PeerView {
            endpoint_id: demo_id(2),
            slot: Some(3),
            name: text("Will Tachau"),
            online: true,
            rtt_ms: Some(44),
            path: PathKind::Relay,
            dnd: false,
            muted: false,
            live,
            speaking: false,
        },
        PeerView {
            endpoint_id: demo_id(3),
            slot: Some(4),
            name: text("Ada Bell"),
            online: true,
            rtt_ms: Some(8),
            path: PathKind::Direct,
            dnd: false,
            muted: true,
            live: false,
            speaking: false,
        },
        PeerView {
            endpoint_id: demo_id(4),
            slot: Some(6),
            name: text("Tomas Vidal"),
            online: true,
            rtt_ms: Some(120),
            path: PathKind::Relay,
            dnd: true,
            muted: false,
            live: false,
            speaking: false,
        },
        idle_peer(5, 5, "David Marcin"),
        idle_peer(6, 7, "Priya Raman"),
    ];
    assert(peers@.map_values(|p: PeerView| row_fields(p)) =~= demo_rows(live));
    let knocks = vec![KnockView { endpoint_id: demo_id(7), claimed: Some(text("Jun Park")) }];
    let live_slots: Vec<u8> = if live {
        vec![1, 3]
    } else {
        Vec::new()
    };
    assert(live_slots@ =~= (if live {
        seq![1u8, 3u8]
    } else {
        Seq::<u8>::empty()
    }));
    UiState {
        my_name: text("nick"),
        my_id: Some(demo_id(9)),
        online: true,
        peers,
        knocks,
        mic: if live {
            MicState::Live
        } else {
            MicState::Closed
        },
        dnd: false,
        live_slots,
        fault: None,
        audio: AudioCounters::zero(),
    }
}

} // verus!
