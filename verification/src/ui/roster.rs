//! The roster's decisions: what a key press asks for, which peers a search
//! shows, and the text each part of the roster carries.
use vstd::prelude::*;

use crate::state::{MicState, PathKind, PeerView, UiState};
use crate::text::{
    chars_of, contains, contains_spec, decimal, decimal_string, lowercase, push_all, starts_with,
    starts_with_spec, string_of, to_lowercase, trim, trimmed,
};
use crate::ui::statusitem::join_slots;

verus! {

/// What the roster asks the core to do.
#[derive(Debug, Clone, Copy, PartialEq, Eq, Structural)]
pub enum Action {
    /// A digit was pressed. Add or remove that contact.
    ToggleSlot(u8),
    /// End the session.
    EndSession,
    /// Approve the first waiting endpoint.
    ApproveFirstKnock,
    /// Reject the first waiting endpoint.
    RejectFirstKnock,
    /// Move keyboard focus to the search and add field.
    FocusField,
    /// Close the panel without touching the session.
    Close,
    /// Return was pressed in the search and add field.
    Submit,
    /// Put your own key on the clipboard.
    CopyKey,
}

/// What a key press in the roster asks for.
pub open spec fn key_action_spec(key: char) -> Option<Action> {
    if '1' <= key <= '9' {
        Some(Action::ToggleSlot((key as u32 - '0' as u32) as u8))
    } else if key == '\u{1b}' {
        Some(Action::Close)
    } else if key == '/' {
        Some(Action::FocusField)
    } else if key == 'a' || key == 'A' {
        Some(Action::ApproveFirstKnock)
    } else if key == 'x' || key == 'X' {
        Some(Action::RejectFirstKnock)
    } else if key == 'c' || key == 'C' {
        Some(Action::CopyKey)
    } else if key == '0' {
        Some(Action::EndSession)
    } else {
        None
    }
}

/// What a key press in the roster asks for. A digit from one to nine toggles
/// that slot, zero ends the session, and escape closes the panel.
pub fn key_action(key: char) -> (r: Option<Action>)
    ensures
        r == key_action_spec(key),
{
    if '1' <= key && key <= '9' {
        Some(Action::ToggleSlot((key as u32 - '0' as u32) as u8))
    } else if key == '\u{1b}' {
        Some(Action::Close)
    } else if key == '/' {
        Some(Action::FocusField)
    } else if key == 'a' || key == 'A' {
        Some(Action::ApproveFirstKnock)
    } else if key == 'x' || key == 'X' {
        Some(Action::RejectFirstKnock)
    } else if key == 'c' || key == 'C' {
        Some(Action::CopyKey)
    } else if key == '0' {
        Some(Action::EndSession)
    } else {
        None
    }
}

/// The ticket prefix. A key typed into the search field is not a search.
pub open spec fn ticket_prefix() -> Seq<char> {
    seq!['w', 't', '1']
}

/// True when the search `filter` shows `peer`: the lowercase name contains the
/// filter, or the slot number is exactly the filter.
pub open spec fn shows(filter: Seq<char>, peer: PeerView) -> bool {
    contains_spec(lowercase(peer.name@), filter) || (peer.slot is Some && decimal(
        peer.slot->Some_0 as nat,
    ) == filter)
}

/// The positions of the peers a filter lets through, in order. An empty
/// filter, or a ticket, hides nobody.
pub open spec fn visible_spec(peers: Seq<PeerView>, filter: Seq<char>) -> Seq<usize>
    decreases peers.len(),
{
    if peers.len() == 0 {
        Seq::empty()
    } else {
        let before = visible_spec(peers.drop_last(), filter);
        if filter.len() == 0 || starts_with_spec(filter, ticket_prefix()) || shows(
            filter,
            peers.last(),
        ) {
            before.push((peers.len() - 1) as usize)
        } else {
            before
        }
    }
}

/// What the user has typed into the roster's search field, normalised.
pub struct RosterFilter {
    text: String,
}

impl RosterFilter {
    /// The normalised search text.
    pub closed spec fn spec_text(&self) -> Seq<char> {
        self.text@
    }

    /// An empty filter, which shows everyone.
    pub fn new() -> (f: RosterFilter)
        ensures
            f.spec_text() == Seq::<char>::empty(),
    {
        RosterFilter { text: String::new() }
    }

    /// The normalised search text.
    pub fn text(&self) -> (r: &str)
        ensures
            r@ == self.spec_text(),
    {
        self.text.as_str()
    }

    /// Sets the filter to the trimmed, lowercase form of `filter`. Returns
    /// true when it changed, which is when the roster must redraw.
    pub fn set_filter(&mut self, filter: &str) -> (changed: bool)
        ensures
            final(self).spec_text() == lowercase(trimmed(filter@)),
            changed == (old(self).spec_text() != lowercase(trimmed(filter@))),
    {
        let normal = to_lowercase(trim(filter));
        let same = crate::text::chars_equal(
            chars_of(self.text.as_str()).as_slice(),
            chars_of(normal.as_str()).as_slice(),
        );
        if same {
            return false;
        }
        self.text = normal;
        true
    }

    /// The positions of the peers the filter lets through.
    pub fn visible_peers(&self, state: &UiState) -> (r: Vec<usize>)
        ensures
            r@ == visible_spec(state.peers@, self.spec_text()),
    {
        let filter = chars_of(self.text.as_str());
        let prefix: Vec<char> = vec!['w', 't', '1'];
        assert(prefix@ == ticket_prefix());
        let all = filter.len() == 0 || starts_with(filter.as_slice(), prefix.as_slice());
        let mut out: Vec<usize> = Vec::new();
        let mut i: usize = 0;
        while i < state.peers.len()
            invariant
                i <= state.peers@.len(),
                filter@ == self.spec_text(),
                all == (filter@.len() == 0 || starts_with_spec(filter@, ticket_prefix())),
                out@ == visible_spec(state.peers@.subrange(0, i as int), filter@),
            decreases state.peers@.len() - i,
        {
            proof {
                assert(state.peers@.subrange(0, i + 1).drop_last() =~= state.peers@.subrange(
                    0,
                    i as int,
                ));
            }
            let peer = &state.peers[i];
            let keep = if all {
                true
            } else {
                let name = to_lowercase(peer.name.as_str());
                let by_name = contains(chars_of(name.as_str()).as_slice(), filter.as_slice());
                let by_slot = match peer.slot {
                    Some(s) => {
                        let digits = decimal_string(s as u64);
                        crate::text::chars_equal(
                            chars_of(digits.as_str()).as_slice(),
                            filter.as_slice(),
                        )
                    },
                    None => false,
                };
                by_name || by_slot
            };
            if keep {
                out.push(i);
            }
            i = i + 1;
        }
        assert(state.peers@.subrange(0, state.peers@.len() as int) =~= state.peers@);
        out
    }
}

/// The status text in the roster header.
pub open spec fn header_status_spec(state: UiState) -> Seq<char> {
    if !state.online {
        seq!['c', 'o', 'n', 'n', 'e', 'c', 't', 'i', 'n', 'g']
    } else if state.dnd {
        seq!['d', 'o', ' ', 'n', 'o', 't', ' ', 'd', 'i', 's', 't', 'u', 'r', 'b']
    } else {
        match state.mic {
            MicState::Live => seq!['l', 'i', 'v', 'e', ' ', ' '] + join_slots(state.live_slots@),
            MicState::Muted => seq!['m', 'u', 't', 'e', 'd'],
            MicState::Armed => state.my_name@ + seq![' ', ' ', ' ', 'm', 'i', 'c', ' ', 'o', 'p', 'e', 'n'],
            MicState::Closed => state.my_name@,
        }
    }
}

/// The text of the live slots, each written out and separated by a space.
fn slots_text(slots: &Vec<u8>) -> (r: Vec<char>)
    ensures
        r@ == join_slots(slots@),
{
    let mut out: Vec<char> = Vec::new();
    let mut i: usize = 0;
    while i < slots.len()
        invariant
            i <= slots@.len(),
            out@ == join_slots(slots@.subrange(0, i as int)),
        decreases slots@.len() - i,
    {
        proof {
            let s = slots@.subrange(0, i + 1);
            assert(s.drop_last() =~= slots@.subrange(0, i as int));
        }
        if i > 0 {
            out.push(' ');
        }
        let digits = chars_of(decimal_string(slots[i] as u64).as_str());
        let mut k: usize = 0;
        let ghost start = out@;
        while k < digits.len()
            invariant
                k <= digits@.len(),
                out@ == start + digits@.subrange(0, k as int),
            decreases digits@.len() - k,
        {
            out.push(digits[k]);
            k = k + 1;
            assert(out@ =~= start + digits@.subrange(0, k as int));
        }
        i = i + 1;
        proof {
            assert(digits@.subrange(0, digits@.len() as int) =~= digits@);
            assert(out@ =~= join_slots(slots@.subrange(0, i as int)));
        }
    }
    assert(slots@.subrange(0, slots@.len() as int) =~= slots@);
    out
}

/// The status text in the roster header: connecting, do not disturb, the
/// live slots, muted, or the local name.
pub fn header_status(state: &UiState) -> (r: String)
    ensures
        r@ == header_status_spec(*state),
{
    let text: Vec<char> = if !state.online {
        vec!['c', 'o', 'n', 'n', 'e', 'c', 't', 'i', 'n', 'g']
    } else if state.dnd {
        vec!['d', 'o', ' ', 'n', 'o', 't', ' ', 'd', 'i', 's', 't', 'u', 'r', 'b']
    } else {
        match state.mic {
            MicState::Live => {
                let mut t: Vec<char> = vec!['l', 'i', 'v', 'e', ' ', ' '];
                let mut rest = slots_text(&state.live_slots);
                t.append(&mut rest);
                t
            },
            MicState::Muted => vec!['m', 'u', 't', 'e', 'd'],
            MicState::Armed => {
                let mut t = chars_of(state.my_name.as_str());
                let mut rest: Vec<char> = vec![' ', ' ', ' ', 'm', 'i', 'c', ' ', 'o', 'p', 'e', 'n'];
                t.append(&mut rest);
                t
            },
            MicState::Closed => chars_of(state.my_name.as_str()),
        }
    };
    let out = string_of(text.as_slice());
    assert(out@ =~= header_status_spec(*state));
    out
}

/// The text at the right of a roster row: a state word when the peer is
/// online and refusing, muted or speaking, and otherwise the round trip time
/// and path, or "connecting" while the path is unknown.
pub open spec fn row_detail_spec(peer: PeerView) -> Seq<char> {
    if peer.online && peer.dnd {
        seq!['d', 'n', 'd']
    } else if peer.online && peer.muted {
        seq!['m', 'u', 't', 'e', 'd']
    } else if peer.online && peer.speaking {
        seq!['s', 'p', 'e', 'a', 'k', 'i', 'n', 'g']
    } else if !peer.online {
        Seq::empty()
    } else {
        match peer.rtt_ms {
            Some(ms) => decimal(ms as nat) + seq!['m', 's', ' ', ' '] + peer.path.short_spec(),
            None => match peer.path {
                PathKind::Unknown => seq!['c', 'o', 'n', 'n', 'e', 'c', 't', 'i', 'n', 'g'],
                other => other.short_spec(),
            },
        }
    }
}

/// The text at the right of a roster row.
pub fn row_detail(peer: &PeerView) -> (r: String)
    ensures
        r@ == row_detail_spec(*peer),
{
    let text: Vec<char> = if peer.online && peer.dnd {
        vec!['d', 'n', 'd']
    } else if peer.online && peer.muted {
        vec!['m', 'u', 't', 'e', 'd']
    } else if peer.online && peer.speaking {
        vec!['s', 'p', 'e', 'a', 'k', 'i', 'n', 'g']
    } else if !peer.online {
        Vec::new()
    } else {
        match peer.rtt_ms {
            Some(ms) => {
                let mut t = chars_of(decimal_string(ms as u64).as_str());
                let mut unit: Vec<char> = vec!['m', 's', ' ', ' '];
                t.append(&mut unit);
                let mut path = chars_of(peer.path.short());
                t.append(&mut path);
                t
            },
            None => match peer.path {
                PathKind::Unknown => vec!['c', 'o', 'n', 'n', 'e', 'c', 't', 'i', 'n', 'g'],
                other => chars_of(other.short()),
            },
        }
    };
    let out = string_of(text.as_slice());
    assert(out@ =~= row_detail_spec(*peer));
    out
}


/// True when a filter lets every peer through, or lets `peer` through.
pub open spec fn keeps(filter: Seq<char>, peer: PeerView) -> bool {
    filter.len() == 0 || starts_with_spec(filter, ticket_prefix()) || shows(filter, peer)
}

proof fn lemma_visible_members(peers: Seq<PeerView>, filter: Seq<char>)
    requires
        peers.len() <= usize::MAX,
    ensures
        forall|j: int|
            0 <= j < visible_spec(peers, filter).len() ==> (#[trigger] visible_spec(peers, filter)[j])
                < peers.len(),
        forall|k: int|
            0 <= k < peers.len() ==> (visible_spec(peers, filter).contains(k as usize) <==> keeps(
                filter,
                #[trigger] peers[k],
            )),
    decreases peers.len(),
{
    if peers.len() > 0 {
        let front = peers.drop_last();
        lemma_visible_members(front, filter);
        let before = visible_spec(front, filter);
        let v = visible_spec(peers, filter);
        let last = (peers.len() - 1) as int;
        assert(peers[last] == peers.last());
        assert(v == if keeps(filter, peers[last]) {
            before.push(last as usize)
        } else {
            before
        });
        assert forall|k: int| 0 <= k < peers.len() implies (v.contains(k as usize) <==> keeps(
            filter,
            #[trigger] peers[k],
        )) by {
            if k < last {
                assert(peers[k] == front[k]);
                assert(keeps(filter, front[k]) == before.contains(k as usize));
                if v.contains(k as usize) {
                    let j = choose|j: int| 0 <= j < v.len() && v[j] == k as usize;
                    if j < before.len() {
                        assert(v[j] == before[j]);
                        assert(before.contains(k as usize));
                    } else {
                        assert(v[j] == last as usize);
                    }
                }
                if before.contains(k as usize) {
                    let j = choose|j: int| 0 <= j < before.len() && before[j] == k as usize;
                    assert(v[j] == before[j]);
                    assert(v.contains(k as usize));
                }
            } else {
                if keeps(filter, peers[k]) {
                    assert(v[v.len() - 1] == k as usize);
                } else {
                    assert(v == before);
                    if v.contains(k as usize) {
                        let j = choose|j: int| 0 <= j < v.len() && v[j] == k as usize;
                        assert(before[j] < front.len());
                    }
                }
            }
        }
    }
}

/// The roster search lists exactly the peers it matches. An empty filter, or
/// a ticket being pasted, lists everyone; any other filter lists a peer
/// exactly when the filter occurs anywhere in the peer's lowercase name, or
/// is the peer's slot number.
pub proof fn lemma_search_lists_exactly_its_matches(peers: Seq<PeerView>, filter: Seq<char>, k: int)
    requires
        peers.len() <= usize::MAX,
        0 <= k < peers.len(),
    ensures
        (filter.len() == 0 || starts_with_spec(filter, ticket_prefix())) ==> visible_spec(
            peers,
            filter,
        ).contains(k as usize),
        (filter.len() > 0 && !starts_with_spec(filter, ticket_prefix())) ==> (visible_spec(
            peers,
            filter,
        ).contains(k as usize) <==> ((exists|i: int|
            0 <= i && i + filter.len() <= lowercase(peers[k].name@).len() && #[trigger] lowercase(
                peers[k].name@,
            ).subrange(i, i + filter.len()) == filter) || (peers[k].slot is Some && decimal(
            peers[k].slot->Some_0 as nat,
        ) == filter))),
{
    lemma_visible_members(peers, filter);
    assert(keeps(filter, peers[k]) == visible_spec(peers, filter).contains(k as usize));
}

} // verus!
