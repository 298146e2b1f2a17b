//! Talk sessions.
//!
//! A session is a set of people whose microphones are open to each other. It
//! is not a call: the connections are already warm, so opening one only opens
//! a microphone and starts mixing the members' audio.
use vstd::prelude::*;

use crate::config::MAX_PEERS;
use crate::keys::{same_key, EndpointId};
use crate::net::peer::{key_at_most, key_le, lemma_key_le_total, lemma_key_le_transitive};

verus! {

/// The most other people one session holds: the local user counts towards
/// the mesh limit.
pub const MAX_MEMBERS: usize = 7;

/// True when `s` holds `peer`.
pub open spec fn holds(s: Seq<EndpointId>, peer: EndpointId) -> bool {
    exists|i: int| 0 <= i < s.len() && #[trigger] s[i]@ == peer@
}

/// True when the keys strictly increase: the order of a set of keys.
pub open spec fn ascending(s: Seq<EndpointId>) -> bool {
    forall|i: int, j: int|
        0 <= i < j < s.len() ==> key_le((#[trigger] s[i])@, (#[trigger] s[j])@) && s[i]@ != s[j]@
}

/// The live conversation.
///
/// The members are a set of keys kept as a vector in key order. vstd states
/// `BTreeSet`'s behaviour only for keys whose `Ord` it knows to be lawful,
/// which 32 byte arrays are not, so the order is this type's own invariant.
pub struct Session {
    id: u64,
    members: Vec<EndpointId>,
}

impl Session {
    /// The session's identifier, chosen by whoever opened it. Members echo it
    /// back so a stale message from a finished session cannot reopen one.
    pub closed spec fn spec_id(&self) -> u64 {
        self.id
    }

    /// The members, in key order.
    pub closed spec fn spec_members(&self) -> Seq<EndpointId> {
        self.members@
    }

    /// The members are a set kept in key order, within the mesh limit.
    pub closed spec fn wf(&self) -> bool {
        &&& self.members@.len() <= MAX_MEMBERS
        &&& ascending(self.members@)
    }

    /// An empty session.
    pub fn new(id: u64) -> (s: Session)
        ensures
            s.wf(),
            s.spec_id() == id,
            s.spec_members() == Seq::<EndpointId>::empty(),
    {
        Session { id, members: Vec::new() }
    }

    /// The session's identifier.
    pub fn id(&self) -> (r: u64)
        ensures
            r == self.spec_id(),
    {
        self.id
    }

    /// The position of `peer` among the members, if it is one.
    fn position(&self, peer: &EndpointId) -> (r: Option<usize>)
        ensures
            r is None <==> !holds(self.members@, *peer),
            r matches Some(i) ==> i < self.members@.len() && self.members@[i as int]@ == peer@,
    {
        let mut i: usize = 0;
        while i < self.members.len()
            invariant
                i <= self.members@.len(),
                forall|j: int| 0 <= j < i ==> #[trigger] self.members@[j]@ != peer@,
            decreases self.members@.len() - i,
        {
            if same_key(&self.members[i], peer) {
                return Some(i);
            }
            i = i + 1;
        }
        None
    }

    /// Where `peer`, which is not a member, goes to keep the key order: the
    /// first member that sorts after it.
    fn insertion_point(&self, peer: &EndpointId) -> (r: usize)
        requires
            self.wf(),
            !holds(self.members@, *peer),
        ensures
            r <= self.members@.len(),
            forall|j: int| 0 <= j < r ==> key_le((#[trigger] self.members@[j])@, peer@),
            forall|j: int| r <= j < self.members@.len() ==> key_le(peer@, (#[trigger] self.members@[j])@),
    {
        let mut i: usize = 0;
        while i < self.members.len()
            invariant
                self.wf(),
                !holds(self.members@, *peer),
                i <= self.members@.len(),
                forall|j: int| 0 <= j < i ==> key_le((#[trigger] self.members@[j])@, peer@),
            decreases self.members@.len() - i,
        {
            if !key_at_most(&self.members[i], peer) {
                proof {
                    lemma_key_le_total(self.members@[i as int]@, peer@);
                    assert forall|j: int| i <= j < self.members@.len() implies key_le(
                        peer@,
                        (#[trigger] self.members@[j])@,
                    ) by {
                        if j > i {
                            lemma_key_le_transitive(
                                peer@,
                                self.members@[i as int]@,
                                self.members@[j]@,
                            );
                        }
                    }
                }
                return i;
            }
            i = i + 1;
        }
        i
    }

    /// Adds a member. Returns false, and changes nothing, when the session
    /// is already full. Adding a member twice is harmless.
    pub fn add(&mut self, peer: EndpointId) -> (r: bool)
        requires
            old(self).wf(),
        ensures
            final(self).wf(),
            final(self).spec_id() == old(self).spec_id(),
            holds(old(self).spec_members(), peer) ==> r && final(self).spec_members() == old(
                self,
            ).spec_members(),
            !holds(old(self).spec_members(), peer) && old(self).spec_members().len() >= MAX_MEMBERS
                ==> !r && final(self).spec_members() == old(self).spec_members(),
            !holds(old(self).spec_members(), peer) && old(self).spec_members().len() < MAX_MEMBERS
                ==> r && final(self).spec_members().len() == old(self).spec_members().len() + 1
                && forall|q: EndpointId|
                holds(final(self).spec_members(), q) == (holds(old(self).spec_members(), q) || q@
                    == peer@),
    {
        if self.position(&peer).is_some() {
            return true;
        }
        if self.members.len() >= MAX_PEERS - 1 {
            return false;
        }
        let p = self.insertion_point(&peer);
        let ghost before = self.members@;
        self.members.insert(p, peer);
        proof {
            assert(self.members@ =~= before.subrange(0, p as int).push(peer) + before.subrange(
                p as int,
                before.len() as int,
            ));
            assert forall|i: int, j: int| 0 <= i < j < self.members@.len() implies key_le(
                (#[trigger] self.members@[i])@,
                (#[trigger] self.members@[j])@,
            ) && self.members@[i]@ != self.members@[j]@ by {
                let oi = if i < p {
                    i
                } else {
                    i - 1
                };
                let oj = if j < p {
                    j
                } else {
                    j - 1
                };
                if i == p {
                    assert(self.members@[j] == before[oj]);
                    assert(before[oj]@ != peer@);
                } else if j == p {
                    assert(self.members@[i] == before[oi]);
                    assert(before[oi]@ != peer@);
                } else {
                    assert(self.members@[i] == before[oi]);
                    assert(self.members@[j] == before[oj]);
                }
            }
            assert forall|q: EndpointId| holds(self.members@, q) == (holds(before, q) || q@
                == peer@) by {
                if holds(before, q) {
                    let k = choose|k: int| 0 <= k < before.len() && #[trigger] before[k]@ == q@;
                    let nk = if k < p {
                        k
                    } else {
                        k + 1
                    };
                    assert(self.members@[nk] == before[k]);
                }
                if q@ == peer@ {
                    assert(self.members@[p as int] == peer);
                }
                if holds(self.members@, q) {
                    let k = choose|k: int| 0 <= k < self.members@.len() && #[trigger] self.members@[k]@ == q@;
                    if k < p {
                        assert(self.members@[k] == before[k]);
                    } else if k > p {
                        assert(self.members@[k] == before[k - 1]);
                    }
                }
            }
        }
        true
    }

    /// Removes a member. Returns whether it was one.
    pub fn remove(&mut self, peer: EndpointId) -> (r: bool)
        requires
            old(self).wf(),
        ensures
            final(self).wf(),
            final(self).spec_id() == old(self).spec_id(),
            r == holds(old(self).spec_members(), peer),
            !holds(final(self).spec_members(), peer),
            forall|q: EndpointId|
                q@ != peer@ ==> (holds(final(self).spec_members(), q) == holds(
                    old(self).spec_members(),
                    q,
                )),
            final(self).spec_members().len() + (if r {
                1int
            } else {
                0int
            }) == old(self).spec_members().len(),
    {
        match self.position(&peer) {
            None => false,
            Some(i) => {
                let ghost before = self.members@;
                self.members.remove(i);
                proof {
                    assert forall|a: int, b: int| 0 <= a < b < self.members@.len() implies key_le(
                        (#[trigger] self.members@[a])@,
                        (#[trigger] self.members@[b])@,
                    ) && self.members@[a]@ != self.members@[b]@ by {
                        let oa = if a < i {
                            a
                        } else {
                            a + 1
                        };
                        let ob = if b < i {
                            b
                        } else {
                            b + 1
                        };
                        assert(self.members@[a] == before[oa]);
                        assert(self.members@[b] == before[ob]);
                    }
                    assert forall|k: int| 0 <= k < self.members@.len() implies #[trigger] self.members@[k]@
                        != peer@ by {
                        let ok = if k < i {
                            k
                        } else {
                            k + 1
                        };
                        assert(self.members@[k] == before[ok]);
                        assert(before[i as int]@ == peer@);
                    }
                    assert forall|q: EndpointId| q@ != peer@ implies (holds(self.members@, q) == holds(
                        before,
                        q,
                    )) by {
                        if holds(before, q) {
                            let k = choose|k: int| 0 <= k < before.len() && #[trigger] before[k]@ == q@;
                            assert(k != i);
                            let nk = if k < i {
                                k
                            } else {
                                k - 1
                            };
                            assert(self.members@[nk] == before[k]);
                        }
                        if holds(self.members@, q) {
                            let k = choose|k: int|
                                0 <= k < self.members@.len() && #[trigger] self.members@[k]@ == q@;
                            let ok = if k < i {
                                k
                            } else {
                                k + 1
                            };
                            assert(self.members@[k] == before[ok]);
                        }
                    }
                }
                true
            },
        }
    }

    /// True when `peer` is a member.
    pub fn contains(&self, peer: EndpointId) -> (r: bool)
        ensures
            r == holds(self.spec_members(), peer),
    {
        self.position(&peer).is_some()
    }

    /// True when nobody else is in the session.
    pub fn is_empty(&self) -> (r: bool)
        ensures
            r == (self.spec_members().len() == 0),
    {
        self.members.len() == 0
    }

    /// How many other people are in the session.
    pub fn len(&self) -> (r: usize)
        ensures
            r == self.spec_members().len(),
    {
        self.members.len()
    }

    /// The members, in key order.
    pub fn members(&self) -> (r: &[EndpointId])
        ensures
            r@ == self.spec_members(),
    {
        self.members.as_slice()
    }
}

/// A session never holds more than the mesh limit, never holds anyone twice,
/// and lists its members in key order.
pub proof fn lemma_session_bounds(s: Session)
    requires
        s.wf(),
    ensures
        s.spec_members().len() <= MAX_MEMBERS,
        MAX_MEMBERS + 1 == MAX_PEERS,
        ascending(s.spec_members()),
        forall|i: int, j: int|
            0 <= i < j < s.spec_members().len() ==> #[trigger] s.spec_members()[i]@
                != #[trigger] s.spec_members()[j]@,
{
    assert forall|i: int, j: int| 0 <= i < j < s.spec_members().len() implies #[trigger] s.spec_members()[i]@
        != #[trigger] s.spec_members()[j]@ by {
        assert(key_le(s.spec_members()[i]@, s.spec_members()[j]@) && s.spec_members()[i]@
            != s.spec_members()[j]@);
    }
}

/// Two key-ordered member lists agree on their first `n` entries when they
/// hold the same members.
proof fn lemma_prefix_agrees(a: Seq<EndpointId>, b: Seq<EndpointId>, n: int)
    requires
        ascending(a),
        ascending(b),
        forall|q: EndpointId| holds(a, q) == holds(b, q),
        0 <= n <= a.len(),
        n <= b.len(),
    ensures
        forall|i: int| 0 <= i < n ==> (#[trigger] a[i])@ == b[i]@,
    decreases n,
{
    if n > 0 {
        lemma_prefix_agrees(a, b, n - 1);
        let i = n - 1;
        if a[i]@ != b[i]@ {
            lemma_key_le_total(a[i]@, b[i]@);
            if key_le(a[i]@, b[i]@) {
                // a[i] is a member of b, so it sits somewhere in b.
                assert(holds(a, a[i]));
                let k = choose|k: int| 0 <= k < b.len() && #[trigger] b[k]@ == a[i]@;
                if k < i {
                    assert(a[k]@ == b[k]@);
                    assert(a[k]@ != a[i]@);
                } else if k > i {
                    assert(key_le(b[i]@, b[k]@));
                }
            } else {
                assert(holds(b, b[i]));
                let k = choose|k: int| 0 <= k < a.len() && #[trigger] a[k]@ == b[i]@;
                if k < i {
                    assert(a[k]@ == b[k]@);
                    assert(b[k]@ != b[i]@);
                } else if k > i {
                    assert(key_le(a[i]@, a[k]@));
                }
            }
        }
    }
}

/// Two key-ordered member lists with the same members are the same list.
pub proof fn lemma_ascending_lists_agree(a: Seq<EndpointId>, b: Seq<EndpointId>)
    requires
        ascending(a),
        ascending(b),
        forall|q: EndpointId| holds(a, q) == holds(b, q),
    ensures
        a == b,
{
    let n = if a.len() < b.len() {
        a.len() as int
    } else {
        b.len() as int
    };
    lemma_prefix_agrees(a, b, n);
    if a.len() < b.len() {
        let q = b[n];
        assert(b[n]@ == q@);
        assert(holds(b, q));
        let k = choose|k: int| 0 <= k < a.len() && #[trigger] a[k]@ == q@;
        assert(a[k]@ == b[k]@);
        assert(b[k]@ != b[n]@);
    } else if b.len() < a.len() {
        let q = a[n];
        assert(a[n]@ == q@);
        assert(holds(a, q));
        let k = choose|k: int| 0 <= k < b.len() && #[trigger] b[k]@ == q@;
        assert(a[k]@ == b[k]@);
        assert(a[k]@ != a[n]@);
    }
    assert forall|i: int| 0 <= i < a.len() implies a[i] == b[i] by {
        assert(a[i]@ == b[i]@);
        assert(a[i] =~= b[i]);
    }
    assert(a =~= b);
}

/// Adding someone to a session that did not hold them, and then removing
/// them, leaves the members exactly as they were.
pub proof fn lemma_add_then_remove_restores(before: Session, added: Session, removed: Session, peer: EndpointId)
    requires
        before.wf(),
        added.wf(),
        removed.wf(),
        !holds(before.spec_members(), peer),
        forall|q: EndpointId|
            holds(added.spec_members(), q) == (holds(before.spec_members(), q) || q@ == peer@),
        !holds(removed.spec_members(), peer),
        forall|q: EndpointId|
            q@ != peer@ ==> holds(removed.spec_members(), q) == holds(added.spec_members(), q),
    ensures
        removed.spec_members() == before.spec_members(),
{
    assert forall|q: EndpointId| holds(removed.spec_members(), q) == holds(before.spec_members(), q) by {
        if q@ == peer@ {
            if holds(before.spec_members(), q) {
                let k = choose|k: int|
                    0 <= k < before.spec_members().len() && #[trigger] before.spec_members()[k]@ == q@;
                assert(before.spec_members()[k]@ == peer@);
            }
        }
    }
    lemma_ascending_lists_agree(removed.spec_members(), before.spec_members());
}

/// A fresh identifier for a new session, from the thread's random generator.
/// Nothing is promised of the value: it is random.
#[verifier::external_body]
pub fn new_id() -> u64 {
    rand::Rng::random(&mut rand::rng())
}

} // verus!
