//! The control protocol.
//!
//! One bidirectional stream per connection carries everything that is not
//! audio: presence, session membership, and the application ping. Framing is
//! a `u16` length prefix followed by the message body.
use vstd::prelude::*;

use crate::config::{MAX_MESSAGE, MAX_NAME_CHARS, PROTOCOL_VERSION};
use crate::keys::{is_valid_public_key, valid_ed25519_key, EndpointId};
use crate::text::{chars_of, is_control, is_control_spec, string_of};

verus! {

/// A control message.
///
/// Add a variant at the end: the body encodes the variant index, so an
/// insertion in the middle breaks every older build.
#[derive(Debug, Clone)]
pub enum Control {
    /// The first message on the stream. It carries the sender's display name.
    Hello { name: String, version: u16 },
    /// The sender's availability changed.
    Presence { available: bool, dnd: bool, muted: bool },
    /// Open a session, or update its membership. Every member receives the
    /// full list.
    SessionOpen { session: u64, members: Vec<[u8; 32]> },
    /// Leave a session.
    SessionClose { session: u64 },
    /// The sender started or stopped speaking. This drives the roster only.
    TalkState { session: u64, speaking: bool },
    /// Round trip probe.
    Ping { nonce: u64 },
    /// Round trip reply. `nonce` is copied from the `Ping`.
    Pong { nonce: u64 },
}

/// The member entries that are valid public keys, in their order.
pub open spec fn valid_members(members: Seq<[u8; 32]>) -> Seq<[u8; 32]>
    decreases members.len(),
{
    if members.len() == 0 {
        Seq::empty()
    } else {
        let before = valid_members(members.drop_last());
        if valid_ed25519_key(members.last()@) {
            before.push(members.last())
        } else {
            before
        }
    }
}

impl Control {
    /// Reads the member list as endpoint ids, skipping any that are not
    /// valid keys. A peer controls this list: a bad entry must not stop the
    /// good ones.
    pub fn members_as_ids(members: &[[u8; 32]]) -> (r: Vec<EndpointId>)
        ensures
            r@ == valid_members(members@),
    {
        let mut out: Vec<EndpointId> = Vec::new();
        let mut i: usize = 0;
        while i < members.len()
            invariant
                i <= members@.len(),
                out@ == valid_members(members@.subrange(0, i as int)),
            decreases members@.len() - i,
        {
            proof {
                assert(members@.subrange(0, i + 1).drop_last() =~= members@.subrange(0, i as int));
            }
            let m = members[i];
            if is_valid_public_key(&m) {
                out.push(m);
            }
            i = i + 1;
        }
        assert(members@.subrange(0, members@.len() as int) =~= members@);
        out
    }

    /// Turns endpoint ids into the wire form.
    pub fn ids_as_members(ids: Vec<EndpointId>) -> (r: Vec<[u8; 32]>)
        ensures
            r@ == ids@,
    {
        ids
    }
}

/// Why a control frame cannot be written or read.
#[derive(Debug, Clone, Copy, PartialEq, Eq, Structural)]
pub enum FrameError {
    /// The message is too large to send.
    TooLarge,
    /// A peer claims a zero length message.
    Empty,
    /// A peer claims a message larger than the limit, of this many bytes.
    ClaimsTooMuch(u16),
}

/// The length prefix for a message body of `len` bytes, or why it cannot be
/// sent.
pub open spec fn frame_header_spec(len: nat) -> Result<[u8; 2], FrameError> {
    if len > MAX_MESSAGE {
        Err(FrameError::TooLarge)
    } else {
        Ok([(len % 256) as u8, (len / 256) as u8])
    }
}

/// The length prefix for a message body of `len` bytes.
pub fn frame_header(len: usize) -> (r: Result<[u8; 2], FrameError>)
    ensures
        r == frame_header_spec(len as nat),
{
    if len > MAX_MESSAGE {
        return Err(FrameError::TooLarge);
    }
    Ok([(len % 256) as u8, (len / 256) as u8])
}

/// The body length a prefix announces, or why it is refused: zero is
/// meaningless and more than the limit is a peer asking us to allocate.
pub open spec fn frame_length_spec(header: [u8; 2]) -> Result<usize, FrameError> {
    let len = header[0] + 256 * header[1];
    if len == 0 {
        Err(FrameError::Empty)
    } else if len > MAX_MESSAGE {
        Err(FrameError::ClaimsTooMuch(len as u16))
    } else {
        Ok(len as usize)
    }
}

/// The body length a prefix announces.
pub fn frame_length(header: [u8; 2]) -> (r: Result<usize, FrameError>)
    ensures
        r == frame_length_spec(header),
{
    let len = header[0] as usize + 256 * header[1] as usize;
    if len == 0 {
        return Err(FrameError::Empty);
    }
    if len > MAX_MESSAGE {
        return Err(FrameError::ClaimsTooMuch(len as u16));
    }
    Ok(len)
}

/// A prefix written for a body is read back as that body's length, for every
/// body the protocol sends (one to `MAX_MESSAGE` bytes).
pub proof fn lemma_frame_round_trip(len: nat)
    requires
        1 <= len <= MAX_MESSAGE,
    ensures
        frame_header_spec(len) is Ok,
        frame_length_spec(frame_header_spec(len)->Ok_0) == Ok::<usize, FrameError>(len as usize),
{
    let h = frame_header_spec(len)->Ok_0;
    assert(h[0] + 256 * h[1] == len);
}

/// The characters of `s` that are not control characters, in order.
pub open spec fn without_controls(s: Seq<char>) -> Seq<char>
    decreases s.len(),
{
    if s.len() == 0 {
        Seq::empty()
    } else {
        let before = without_controls(s.drop_last());
        if is_control_spec(s.last()) {
            before
        } else {
            before.push(s.last())
        }
    }
}

/// A name from the network as the roster shows it: control characters
/// removed, then at most `MAX_NAME_CHARS` characters.
pub open spec fn clean_name_spec(s: Seq<char>) -> Seq<char> {
    let kept = without_controls(s);
    if kept.len() <= MAX_NAME_CHARS {
        kept
    } else {
        kept.subrange(0, MAX_NAME_CHARS as int)
    }
}

proof fn lemma_without_controls_len(s: Seq<char>)
    ensures
        without_controls(s).len() <= s.len(),
        forall|i: int|
            0 <= i < without_controls(s).len() ==> !is_control_spec(#[trigger] without_controls(s)[i]),
    decreases s.len(),
{
    if s.len() > 0 {
        lemma_without_controls_len(s.drop_last());
    }
}

/// Trims a name that came from the network.
///
/// A peer chooses this string and it lands in the roster. Control
/// characters are stripped and the length is capped.
pub fn clean_name(name: &str) -> (r: String)
    ensures
        r@ == clean_name_spec(name@),
        r@.len() <= MAX_NAME_CHARS,
        forall|i: int| 0 <= i < r@.len() ==> !is_control_spec(#[trigger] r@[i]),
{
    let chars = chars_of(name);
    let mut kept: Vec<char> = Vec::new();
    let mut i: usize = 0;
    while i < chars.len()
        invariant
            chars@ == name@,
            i <= chars@.len(),
            kept@ == without_controls(chars@.subrange(0, i as int)),
        decreases chars@.len() - i,
    {
        proof {
            assert(chars@.subrange(0, i + 1).drop_last() =~= chars@.subrange(0, i as int));
        }
        if !is_control(chars[i]) {
            kept.push(chars[i]);
        }
        i = i + 1;
    }
    assert(chars@.subrange(0, chars@.len() as int) =~= chars@);
    proof {
        lemma_without_controls_len(name@);
    }
    let mut out: Vec<char> = Vec::new();
    let mut j: usize = 0;
    while j < kept.len() && j < MAX_NAME_CHARS
        invariant
            j <= kept@.len(),
            j <= MAX_NAME_CHARS,
            out@ == kept@.subrange(0, j as int),
        decreases kept@.len() - j,
    {
        out.push(kept[j]);
        j = j + 1;
        assert(out@ =~= kept@.subrange(0, j as int));
    }
    if kept.len() <= MAX_NAME_CHARS {
        assert(out@ =~= kept@);
    }
    string_of(out.as_slice())
}

/// What applying one control message from a peer does.
#[derive(Debug, Clone)]
pub enum Reaction {
    /// Record the name the peer claims, already cleaned, and refresh the
    /// roster. `other_version` is set when the peer speaks another protocol
    /// version, which is worth a log line and nothing more.
    ClaimName { name: String, other_version: bool },
    /// Record the peer's do-not-disturb and mute flags, and refresh.
    SetPresence { dnd: bool, muted: bool },
    /// Record whether the peer is speaking, and refresh.
    SetSpeaking(bool),
    /// Answer a probe with this nonce.
    Pong(u64),
    /// A reply to one of our probes: if a probe with this nonce is pending,
    /// record the round trip and refresh.
    ProbeAnswered(u64),
    /// Session membership is not handled by this build: log it.
    Ignore,
}

/// The reaction a control message calls for.
pub open spec fn reaction_spec(msg: Control, r: Reaction) -> bool {
    match msg {
        Control::Hello { name, version } => r matches Reaction::ClaimName { name: n, other_version }
            && n@ == clean_name_spec(name@) && other_version == (version != PROTOCOL_VERSION),
        Control::Presence { dnd, muted, .. } => r == (Reaction::SetPresence { dnd, muted }),
        Control::TalkState { speaking, .. } => r == Reaction::SetSpeaking(speaking),
        Control::Ping { nonce } => r == Reaction::Pong(nonce),
        Control::Pong { nonce } => r == Reaction::ProbeAnswered(nonce),
        Control::SessionOpen { .. } => r is Ignore,
        Control::SessionClose { .. } => r is Ignore,
    }
}

impl Control {
    /// What applying this message from a peer does.
    pub fn reaction(&self) -> (r: Reaction)
        ensures
            reaction_spec(*self, r),
    {
        match self {
            Control::Hello { name, version } => Reaction::ClaimName {
                name: clean_name(name.as_str()),
                other_version: *version != PROTOCOL_VERSION,
            },
            Control::Presence { dnd, muted, .. } => Reaction::SetPresence { dnd: *dnd, muted: *muted },
            Control::TalkState { speaking, .. } => Reaction::SetSpeaking(*speaking),
            Control::Ping { nonce } => Reaction::Pong(*nonce),
            Control::Pong { nonce } => Reaction::ProbeAnswered(*nonce),
            Control::SessionOpen { .. } => Reaction::Ignore,
            Control::SessionClose { .. } => Reaction::Ignore,
        }
    }
}

/// A probe is answered with its own nonce, so the reply finds the probe it
/// answers.
pub proof fn lemma_a_ping_is_answered_with_its_nonce(nonce: u64, r: Reaction)
    requires
        reaction_spec(Control::Ping { nonce }, r),
    ensures
        r == Reaction::Pong(nonce),
{
}

} // verus!
