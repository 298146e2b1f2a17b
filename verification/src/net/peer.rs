//! The rules for one contact's connection: which of two duplicate
//! connections survives, how long to wait before dialling again, and how the
//! measured round trip time is stored.
use vstd::prelude::*;

use crate::config::{backoff_table, BACKOFF_JITTER_PERCENT, BACKOFF_STEPS};
use crate::keys::EndpointId;
use crate::state::PathKind;

verus! {

/// Byte-wise order on keys: true when `a` sorts no later than `b`.
pub open spec fn key_le(a: Seq<u8>, b: Seq<u8>) -> bool
    decreases a.len(),
{
    if a.len() == 0 {
        true
    } else if b.len() == 0 {
        false
    } else if a[0] != b[0] {
        a[0] < b[0]
    } else {
        key_le(a.drop_first(), b.drop_first())
    }
}

/// Which endpoint dialled a connection.
pub fn dialer_of(dialed_by_me: bool, me: EndpointId, them: EndpointId) -> (r: EndpointId)
    ensures
        r == if dialed_by_me {
            me
        } else {
            them
        },
{
    if dialed_by_me {
        me
    } else {
        them
    }
}

/// True when key `a` sorts no later than key `b`.
pub fn key_at_most(a: &EndpointId, b: &EndpointId) -> (r: bool)
    ensures
        r == key_le(a@, b@),
{
    let mut i: usize = 0;
    assert(a@.subrange(0, 32) =~= a@);
    assert(b@.subrange(0, 32) =~= b@);
    while i < 32
        invariant
            a@.len() == 32,
            b@.len() == 32,
            i <= 32,
            forall|j: int| 0 <= j < i ==> a@[j] == b@[j],
            key_le(a@, b@) == key_le(a@.subrange(i as int, 32), b@.subrange(i as int, 32)),
        decreases 32 - i,
    {
        proof {
            assert(a@.subrange(i as int, 32).drop_first() =~= a@.subrange(i + 1, 32));
            assert(b@.subrange(i as int, 32).drop_first() =~= b@.subrange(i + 1, 32));
        }
        if a[i] != b[i] {
            return a[i] < b[i];
        }
        i = i + 1;
    }
    true
}

/// Both sides dial, so two connections can exist for one pair, and both
/// sides must keep the same one. The rule needs no negotiation: keep the
/// connection whose dialer has the smaller endpoint id.
///
/// True when the live connection, dialled by this side when
/// `existing_dialed_by_me`, stays, and the offered one is closed.
pub fn keep_existing(
    existing_dialed_by_me: bool,
    offered_dialed_by_me: bool,
    me: EndpointId,
    them: EndpointId,
) -> (r: bool)
    ensures
        r == key_le(
            dialer_of_spec(existing_dialed_by_me, me, them)@,
            dialer_of_spec(offered_dialed_by_me, me, them)@,
        ),
{
    let existing = dialer_of(existing_dialed_by_me, me, them);
    let offered = dialer_of(offered_dialed_by_me, me, them);
    key_at_most(&existing, &offered)
}

/// Which endpoint dialled a connection.
pub open spec fn dialer_of_spec(dialed_by_me: bool, me: EndpointId, them: EndpointId) -> EndpointId {
    if dialed_by_me {
        me
    } else {
        them
    }
}

/// The byte order of identities is transitive.
pub proof fn lemma_key_le_transitive(a: Seq<u8>, b: Seq<u8>, c: Seq<u8>)
    requires
        a.len() == b.len(),
        b.len() == c.len(),
        key_le(a, b),
        key_le(b, c),
    ensures
        key_le(a, c),
    decreases a.len(),
{
    if a.len() > 0 && a[0] == b[0] && b[0] == c[0] {
        lemma_key_le_transitive(a.drop_first(), b.drop_first(), c.drop_first());
    }
}

/// Identities are totally ordered by their bytes: any two compare one way or
/// the other, and only equal keys compare both ways.
pub proof fn lemma_key_le_total(a: Seq<u8>, b: Seq<u8>)
    requires
        a.len() == b.len(),
    ensures
        key_le(a, b) || key_le(b, a),
        key_le(a, b) && key_le(b, a) ==> a == b,
    decreases a.len(),
{
    if a.len() > 0 && a[0] == b[0] {
        lemma_key_le_total(a.drop_first(), b.drop_first());
        if key_le(a, b) && key_le(b, a) {
            assert(a =~= seq![a[0]] + a.drop_first());
            assert(b =~= seq![b[0]] + b.drop_first());
        }
    } else if a.len() == 0 {
        assert(a =~= b);
    }
}

/// The tie-break picks the same connection on both sides: when each side
/// holds one connection it dialled and one the other dialled, exactly one of
/// the two sides keeps the connection it dialled itself.
pub proof fn lemma_tie_break_agrees(a: EndpointId, b: EndpointId)
    requires
        a@ != b@,
    ensures
        key_le(dialer_of_spec(true, a, b)@, dialer_of_spec(false, a, b)@) != key_le(
            dialer_of_spec(true, b, a)@,
            dialer_of_spec(false, b, a)@,
        ),
{
    lemma_key_le_total(a@, b@);
}

/// The step of the backoff table that attempt `attempt` waits for, in
/// seconds: the table is walked and its last value holds.
pub open spec fn backoff_base_spec(attempt: nat) -> u64 {
    if attempt < BACKOFF_STEPS {
        backoff_table()[attempt as int]
    } else {
        backoff_table()[BACKOFF_STEPS - 1]
    }
}

/// The wait before reconnect attempt `attempt`, in milliseconds: the table
/// step, plus a share of `BACKOFF_JITTER_PERCENT` of it set by the top 53
/// bits of `random`, so a group of peers does not reconnect in lockstep.
pub open spec fn backoff_millis_spec(attempt: nat, random: u64) -> nat {
    let base = backoff_base_spec(attempt) as nat;
    base * 1000 + ((random as nat / 2048) * base * (BACKOFF_JITTER_PERCENT as nat) * 10) / (
    0x20_0000_0000_0000 as nat)
}

/// Reconnect backoff, in milliseconds, for attempt `attempt` with the random
/// draw `random`.
pub fn backoff_for(attempt: usize, random: u64) -> (r: u64)
    ensures
        r == backoff_millis_spec(attempt as nat, random),
        backoff_base_spec(attempt as nat) * 1000 <= r,
        r <= backoff_base_spec(attempt as nat) * (1000 + BACKOFF_JITTER_PERCENT * 10),
{
    let table: [u64; 5] = [1, 2, 5, 15, 30];
    assert(table@ =~= backoff_table());
    let index = if attempt < BACKOFF_STEPS {
        attempt
    } else {
        BACKOFF_STEPS - 1
    };
    let base = table[index];
    let bits = (random / 2048) as u128;
    proof {
        assert(bits < 0x20_0000_0000_0000);
        assert(base <= 30);
        assert(bits * (base as u128) <= 0x20_0000_0000_0000 * 30) by (nonlinear_arith)
            requires
                bits < 0x20_0000_0000_0000,
                base <= 30,
        ;
    }
    let extra = bits * (base as u128) * (BACKOFF_JITTER_PERCENT as u128 * 10) / 0x20_0000_0000_0000;
    proof {
        assert(extra <= base * 200) by (nonlinear_arith)
            requires
                extra == bits * (base as u128) * 200 / 0x20_0000_0000_0000,
                bits < 0x20_0000_0000_0000,
        ;
    }
    base * 1000 + extra as u64
}

/// The next state of the backoff jitter generator (xorshift64). Backoff
/// jitter does not need a strong generator.
pub open spec fn xorshift_spec(x: u64) -> u64 {
    let a = x ^ (x << 13u64);
    let b = a ^ (a >> 7u64);
    b ^ (b << 17u64)
}

/// The next state of the backoff jitter generator.
pub fn xorshift(x: u64) -> (r: u64)
    ensures
        r == xorshift_spec(x),
{
    let a = x ^ (x << 13u64);
    let b = a ^ (a >> 7u64);
    b ^ (b << 17u64)
}

/// The state every thread's backoff jitter generator starts from.
pub const JITTER_SEED: u64 = 0x2545_F491_4F6C_DD1D;

/// The backoff jitter one thread keeps between reconnect attempts: the state
/// of its xorshift generator.
#[derive(Debug, Clone, Copy, PartialEq, Eq, Structural)]
pub struct BackoffJitter {
    pub state: u64,
}

impl BackoffJitter {
    /// A thread's generator before its first draw.
    pub fn new() -> (j: BackoffJitter)
        ensures
            j.state == JITTER_SEED,
    {
        BackoffJitter { state: JITTER_SEED }
    }

    /// The wait before reconnect attempt `attempt`, in milliseconds: the
    /// generator moves to its next state, and the backoff is read with it.
    pub fn backoff(&mut self, attempt: usize) -> (r: u64)
        ensures
            final(self).state == xorshift_spec(old(self).state),
            r == backoff_millis_spec(attempt as nat, final(self).state),
    {
        self.state = xorshift(self.state);
        backoff_for(attempt, self.state)
    }
}

/// The jitter varies between calls, so peers do not reconnect in lockstep:
/// a thread's first two backoffs differ for every attempt, and a generator
/// whose state is not zero never stands still and never reaches zero.
pub proof fn lemma_backoff_jitter_varies(attempt: nat, x: u64)
    ensures
        backoff_millis_spec(attempt, xorshift_spec(JITTER_SEED)) != backoff_millis_spec(
            attempt,
            xorshift_spec(xorshift_spec(JITTER_SEED)),
        ),
        x != 0 ==> xorshift_spec(x) != x && xorshift_spec(x) != 0,
{
    let s1 = xorshift_spec(JITTER_SEED);
    assert(xorshift_spec(0x2545_F491_4F6C_DD1Du64) == 0x7f6c_280b_eaa8_e3e7u64) by (bit_vector);
    assert(xorshift_spec(0x7f6c_280b_eaa8_e3e7u64) == 0xe471_1987_1cf9_abe0u64) by (bit_vector);
    assert(x != 0 ==> xorshift_spec(x) != x && xorshift_spec(x) != 0) by (bit_vector);
    let b = backoff_base_spec(attempt) as nat;
    assert(b == 1 || b == 2 || b == 5 || b == 15 || b == 30);
    let f1 = 0x7f6c_280b_eaa8_e3e7nat / 2048;
    let f2 = 0xe471_1987_1cf9_abe0nat / 2048;
    assert(((f1 * b * 200) / 0x20_0000_0000_0000nat) < ((f2 * b * 200) / 0x20_0000_0000_0000nat))
        by (nonlinear_arith)
        requires
            b == 1 || b == 2 || b == 5 || b == 15 || b == 30,
            f1 == 0x7f6c_280b_eaa8_e3e7nat / 2048,
            f2 == 0xe471_1987_1cf9_abe0nat / 2048,
    ;
}

/// The stored round trip time that means "not measured".
pub const RTT_UNMEASURED: u32 = 0xffff_ffff;

/// The round trip time a stored value means.
pub fn rtt_from_stored(stored: u32) -> (r: Option<u32>)
    ensures
        r == if stored == RTT_UNMEASURED {
            None::<u32>
        } else {
            Some(stored)
        },
{
    if stored == RTT_UNMEASURED {
        None
    } else {
        Some(stored)
    }
}

/// The stored value for a measured round trip time, in milliseconds. A
/// measurement never reads as "not measured".
pub fn rtt_to_stored(millis: u128) -> (r: u32)
    ensures
        r == if millis < RTT_UNMEASURED {
            millis as u32
        } else {
            (RTT_UNMEASURED - 1) as u32
        },
        r != RTT_UNMEASURED,
{
    if millis < RTT_UNMEASURED as u128 {
        millis as u32
    } else {
        RTT_UNMEASURED - 1
    }
}


/// What the transport reports of one network path to a peer.
#[derive(Debug, Clone, Copy, PartialEq, Eq, Structural)]
pub struct PathInfo {
    /// The path is a direct IP path.
    pub ip: bool,
    /// The path goes through a relay.
    pub relay: bool,
    /// The transport is sending over this path now.
    pub selected: bool,
}

/// The kind of one path.
pub open spec fn kind_of(p: PathInfo) -> PathKind {
    if p.ip {
        PathKind::Direct
    } else if p.relay {
        PathKind::Relay
    } else {
        PathKind::Unknown
    }
}

/// The position of the first selected path, if any.
pub open spec fn first_selected(paths: Seq<PathInfo>) -> Option<int> {
    if exists|i: int| 0 <= i < paths.len() && (#[trigger] paths[i]).selected {
        Some(
            choose|i: int|
                0 <= i < paths.len() && (#[trigger] paths[i]).selected && forall|j: int|
                    0 <= j < i ==> !(#[trigger] paths[j]).selected,
        )
    } else {
        None
    }
}

/// The position of the first path whose kind is known, if any.
pub open spec fn first_known(paths: Seq<PathInfo>) -> Option<int> {
    if exists|i: int| 0 <= i < paths.len() && kind_of(#[trigger] paths[i]) != PathKind::Unknown {
        Some(
            choose|i: int|
                0 <= i < paths.len() && kind_of(#[trigger] paths[i]) != PathKind::Unknown && forall|
                    j: int,
                | 0 <= j < i ==> kind_of(#[trigger] paths[j]) == PathKind::Unknown,
        )
    } else {
        None
    }
}

/// How a peer's packets reach us: the kind of the path the transport has
/// selected. A relay path held open as a standby while a direct one carries
/// the traffic is not reported. With no path selected, the first path whose
/// kind is known stands in.
pub open spec fn path_kind_spec(paths: Seq<PathInfo>) -> PathKind {
    match first_selected(paths) {
        Some(i) => kind_of(paths[i]),
        None => match first_known(paths) {
            Some(i) => kind_of(paths[i]),
            None => PathKind::Unknown,
        },
    }
}

proof fn lemma_first_selected_at(paths: Seq<PathInfo>, i: int)
    requires
        0 <= i < paths.len(),
        paths[i].selected,
        forall|j: int| 0 <= j < i ==> !(#[trigger] paths[j]).selected,
    ensures
        first_selected(paths) == Some(i),
{
    let c = first_selected(paths)->Some_0;
    assert(paths[c].selected);
    if c < i {
        assert(!paths[c].selected);
    } else if c > i {
        assert(!paths[i].selected);
    }
}

proof fn lemma_first_known_at(paths: Seq<PathInfo>, i: int)
    requires
        0 <= i < paths.len(),
        kind_of(paths[i]) != PathKind::Unknown,
        forall|j: int| 0 <= j < i ==> kind_of(#[trigger] paths[j]) == PathKind::Unknown,
    ensures
        first_known(paths) == Some(i),
{
    let c = first_known(paths)->Some_0;
    assert(kind_of(paths[c]) != PathKind::Unknown);
    if c < i {
        assert(kind_of(paths[c]) == PathKind::Unknown);
    } else if c > i {
        assert(kind_of(paths[i]) == PathKind::Unknown);
    }
}

fn kind(p: &PathInfo) -> (r: PathKind)
    ensures
        r == kind_of(*p),
{
    if p.ip {
        PathKind::Direct
    } else if p.relay {
        PathKind::Relay
    } else {
        PathKind::Unknown
    }
}

/// How a peer's packets reach us, from the paths the transport reports.
pub fn path_kind(paths: &[PathInfo]) -> (r: PathKind)
    ensures
        r == path_kind_spec(paths@),
{
    let mut fallback = PathKind::Unknown;
    let ghost mut fallback_at: int = -1;
    let mut i: usize = 0;
    while i < paths.len()
        invariant
            i <= paths@.len(),
            forall|j: int| 0 <= j < i ==> !(#[trigger] paths@[j]).selected,
            fallback_at < 0 ==> fallback == PathKind::Unknown,
            fallback_at < 0 ==> forall|j: int| 0 <= j < i ==> kind_of(#[trigger] paths@[j]) == PathKind::Unknown,
            fallback_at >= 0 ==> fallback_at < i && fallback == kind_of(paths@[fallback_at])
                && fallback != PathKind::Unknown,
            fallback_at >= 0 ==> forall|j: int|
                0 <= j < fallback_at ==> kind_of(#[trigger] paths@[j]) == PathKind::Unknown,
        decreases paths@.len() - i,
    {
        let k = kind(&paths[i]);
        if paths[i].selected {
            proof {
                lemma_first_selected_at(paths@, i as int);
            }
            return k;
        }
        if fallback == PathKind::Unknown {
            fallback = k;
            proof {
                if k != PathKind::Unknown {
                    fallback_at = i as int;
                }
            }
        }
        i = i + 1;
    }
    proof {
        if first_selected(paths@) is Some {
            let j = first_selected(paths@)->Some_0;
            assert(paths@[j].selected);
        }
        if fallback_at >= 0 {
            lemma_first_known_at(paths@, fallback_at);
        } else if first_known(paths@) is Some {
            let j = first_known(paths@)->Some_0;
            assert(kind_of(paths@[j]) != PathKind::Unknown);
        }
    }
    fallback
}


/// How many dials in a row have failed, for one contact's supervisor.
#[derive(Debug, Clone, Copy, PartialEq, Eq, Structural)]
pub struct Redial {
    pub attempt: usize,
}

impl Redial {
    /// Nothing has failed yet.
    pub fn new() -> (r: Redial)
        ensures
            r.attempt == 0,
    {
        Redial { attempt: 0 }
    }

    /// A connection is up, by our dial or by theirs: the next failure waits
    /// the first step again.
    pub fn connected(&mut self)
        ensures
            final(self).attempt == 0,
    {
        self.attempt = 0;
    }

    /// A dial failed. Returns how long to wait before the next one, in
    /// milliseconds, with `random` as the jitter source; the count of
    /// failures grows, and stops at its largest value rather than wrap.
    pub fn failed(&mut self, random: u64) -> (wait_ms: u64)
        ensures
            wait_ms == backoff_millis_spec(old(self).attempt as nat, random),
            final(self).attempt == if old(self).attempt == usize::MAX {
                usize::MAX as int
            } else {
                old(self).attempt + 1
            },
    {
        let wait = backoff_for(self.attempt, random);
        self.attempt = self.attempt.saturating_add(1);
        wait
    }
}

/// Failures wait longer and longer, up to the last step, which then holds:
/// a later attempt never waits less than an earlier one before jitter.
pub proof fn lemma_backoff_never_shrinks(earlier: nat, later: nat)
    requires
        earlier <= later,
    ensures
        backoff_base_spec(earlier) <= backoff_base_spec(later),
        later >= BACKOFF_STEPS - 1 ==> backoff_base_spec(later) == 30,
{
}


/// The connection a contact already has, as the tie-break sees it.
#[derive(Debug, Clone, Copy, PartialEq, Eq, Structural)]
pub struct Held {
    /// It has not been closed.
    pub alive: bool,
    /// This side dialled it.
    pub dialed_by_me: bool,
}

/// What to do with a newly offered connection.
#[derive(Debug, Clone, Copy, PartialEq, Eq, Structural)]
pub enum Offer {
    /// Close the offered connection; the held one stays.
    Refuse,
    /// Run the offered connection, closing the held one first when it is
    /// still alive.
    Take { close_held: bool },
}

/// What to do with an offered connection: with a live connection held, the
/// one whose dialer has the smaller identity stays; a dead or missing one is
/// simply replaced.
pub open spec fn offer_spec(held: Option<Held>, dialed_by_me: bool, me: EndpointId, them: EndpointId) -> Offer {
    match held {
        Some(h) => if !h.alive {
            Offer::Take { close_held: false }
        } else if key_le(dialer_of_spec(h.dialed_by_me, me, them)@, dialer_of_spec(dialed_by_me, me, them)@) {
            Offer::Refuse
        } else {
            Offer::Take { close_held: true }
        },
        None => Offer::Take { close_held: false },
    }
}

/// What to do with an offered connection.
pub fn offer(held: Option<Held>, dialed_by_me: bool, me: EndpointId, them: EndpointId) -> (r: Offer)
    ensures
        r == offer_spec(held, dialed_by_me, me, them),
{
    match held {
        Some(h) => if !h.alive {
            Offer::Take { close_held: false }
        } else if keep_existing(h.dialed_by_me, dialed_by_me, me, them) {
            Offer::Refuse
        } else {
            Offer::Take { close_held: true }
        },
        None => Offer::Take { close_held: false },
    }
}

/// Offering the same connection twice never replaces it: a live
/// connection is refused in favour of itself.
pub proof fn lemma_an_offer_never_replaces_its_twin(dialed_by_me: bool, me: EndpointId, them: EndpointId)
    ensures
        offer_spec(Some(Held { alive: true, dialed_by_me }), dialed_by_me, me, them) == Offer::Refuse,
{
    lemma_key_le_total(dialer_of_spec(dialed_by_me, me, them)@, dialer_of_spec(dialed_by_me, me, them)@);
}


/// The rules for an offered connection, in terms of the two endpoints' keys.
/// With nothing held, or with a held connection that is no longer alive, the
/// offered connection is taken and nothing is closed, whoever dialled either.
/// With a live connection held, the connection dialled by the endpoint with
/// the smaller key survives, so both ends keep the same one: the offer is
/// refused exactly when the held connection is that one, and a taken offer
/// closes the held connection.
pub proof fn lemma_offer_rules(held: Option<Held>, dialed_by_me: bool, me: EndpointId, them: EndpointId)
    requires
        me@ != them@,
    ensures
        held is None ==> offer_spec(held, dialed_by_me, me, them) == (Offer::Take { close_held: false }),
        (held is Some && !held->Some_0.alive) ==> offer_spec(held, dialed_by_me, me, them) == (Offer::Take {
            close_held: false,
        }),
        (held is Some && held->Some_0.alive && held->Some_0.dialed_by_me == dialed_by_me) ==> offer_spec(
            held,
            dialed_by_me,
            me,
            them,
        ) == Offer::Refuse,
        (held is Some && held->Some_0.alive && held->Some_0.dialed_by_me != dialed_by_me) ==> offer_spec(
            held,
            dialed_by_me,
            me,
            them,
        ) == (if key_le(me@, them@) == held->Some_0.dialed_by_me {
            Offer::Refuse
        } else {
            Offer::Take { close_held: true }
        }),
{
    lemma_key_le_total(me@, them@);
    lemma_key_le_total(me@, me@);
    lemma_key_le_total(them@, them@);
}

} // verus!
