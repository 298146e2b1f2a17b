//! The reorder window the jitter buffer is specified over.
//!
//! A window is the run of frame positions starting at the next frame to play.
//! Position `k` holds the packet for sequence number `next + k`, or nothing
//! when that packet has not arrived. Playing or dropping a frame shifts the
//! window by one, and a fresh empty position enters at the far end.
use vstd::prelude::*;

use crate::audio::packet::Packet;

verus! {

/// How many positions of a window hold a packet.
pub open spec fn count_some(w: Seq<Option<Packet>>) -> nat
    decreases w.len(),
{
    if w.len() == 0 {
        0
    } else {
        count_some(w.drop_last()) + if w.last() is Some {
            1nat
        } else {
            0nat
        }
    }
}

/// The window after the head position is played or dropped.
pub open spec fn shift(w: Seq<Option<Packet>>) -> Seq<Option<Packet>> {
    w.drop_first().push(None)
}

/// The window after `n` head positions are played or dropped.
pub open spec fn shift_n(w: Seq<Option<Packet>>, n: nat) -> Seq<Option<Packet>>
    decreases n,
{
    if n == 0 {
        w
    } else {
        shift(shift_n(w, (n - 1) as nat))
    }
}

/// A window with nothing in it.
pub open spec fn empty_window(len: nat) -> Seq<Option<Packet>> {
    Seq::new(len, |k: int| None::<Packet>)
}

/// How many head positions are dropped, at most `fuel` of them, until no more
/// than `limit` packets are held.
pub open spec fn drops_until(w: Seq<Option<Packet>>, limit: nat, fuel: nat) -> nat
    decreases fuel,
{
    if fuel == 0 || count_some(w) <= limit {
        0
    } else {
        1 + drops_until(shift(w), limit, (fuel - 1) as nat)
    }
}

pub proof fn lemma_count_push(w: Seq<Option<Packet>>, x: Option<Packet>)
    ensures
        count_some(w.push(x)) == count_some(w) + if x is Some {
            1nat
        } else {
            0nat
        },
{
    assert(w.push(x).drop_last() =~= w);
}

pub proof fn lemma_count_concat(a: Seq<Option<Packet>>, b: Seq<Option<Packet>>)
    ensures
        count_some(a + b) == count_some(a) + count_some(b),
    decreases b.len(),
{
    if b.len() == 0 {
        assert(a + b =~= a);
    } else {
        lemma_count_concat(a, b.drop_last());
        assert((a + b).drop_last() =~= a + b.drop_last());
    }
}

pub proof fn lemma_count_bound(w: Seq<Option<Packet>>)
    ensures
        count_some(w) <= w.len(),
    decreases w.len(),
{
    if w.len() > 0 {
        lemma_count_bound(w.drop_last());
    }
}

pub proof fn lemma_count_empty(len: nat)
    ensures
        count_some(empty_window(len)) == 0,
    decreases len,
{
    if len > 0 {
        lemma_count_empty((len - 1) as nat);
        assert(empty_window(len).drop_last() =~= empty_window((len - 1) as nat));
    }
}

pub proof fn lemma_count_zero_means_empty(w: Seq<Option<Packet>>)
    requires
        count_some(w) == 0,
    ensures
        w == empty_window(w.len()),
    decreases w.len(),
{
    if w.len() > 0 {
        lemma_count_zero_means_empty(w.drop_last());
        assert(w.last() is None);
        assert forall|k: int| 0 <= k < w.len() implies w[k] == empty_window(w.len())[k] by {
            if k < w.len() - 1 {
                assert(w[k] == w.drop_last()[k]);
            }
        }
        assert(w =~= empty_window(w.len()));
    } else {
        assert(w =~= empty_window(0));
    }
}

pub proof fn lemma_count_first(w: Seq<Option<Packet>>)
    requires
        w.len() > 0,
    ensures
        count_some(w) == count_some(w.drop_first()) + if w[0] is Some {
            1nat
        } else {
            0nat
        },
{
    let head = seq![w[0]];
    assert(w =~= head + w.drop_first());
    lemma_count_concat(head, w.drop_first());
    assert(head.drop_last() =~= Seq::<Option<Packet>>::empty());
    assert(count_some(Seq::<Option<Packet>>::empty()) == 0);
    assert(count_some(head) == count_some(head.drop_last()) + if head.last() is Some {
        1nat
    } else {
        0nat
    });
}

pub proof fn lemma_count_shift(w: Seq<Option<Packet>>)
    requires
        w.len() > 0,
    ensures
        count_some(shift(w)) + if w[0] is Some {
            1nat
        } else {
            0nat
        } == count_some(w),
        shift(w).len() == w.len(),
{
    lemma_count_first(w);
    lemma_count_push(w.drop_first(), None);
}

pub proof fn lemma_count_update(w: Seq<Option<Packet>>, k: int, x: Option<Packet>)
    requires
        0 <= k < w.len(),
    ensures
        count_some(w.update(k, x)) + if w[k] is Some {
            1nat
        } else {
            0nat
        } == count_some(w) + if x is Some {
            1nat
        } else {
            0nat
        },
    decreases w.len(),
{
    if k == w.len() - 1 {
        assert(w.update(k, x).drop_last() =~= w.drop_last());
    } else {
        lemma_count_update(w.drop_last(), k, x);
        assert(w.update(k, x).drop_last() =~= w.drop_last().update(k, x));
    }
}

/// Shifting `n` times moves the tail forward and fills the end with nothing.
pub proof fn lemma_shift_n_shape(w: Seq<Option<Packet>>, n: nat)
    requires
        n <= w.len(),
    ensures
        shift_n(w, n) == w.subrange(n as int, w.len() as int) + empty_window(n),
    decreases n,
{
    if n > 0 {
        lemma_shift_n_shape(w, (n - 1) as nat);
        assert(shift_n(w, n) =~= w.subrange(n as int, w.len() as int) + empty_window(n));
    } else {
        assert(w.subrange(0, w.len() as int) + empty_window(0) =~= w);
    }
}

/// After `n` shifts at most `len - n` packets remain.
pub proof fn lemma_shift_n_count(w: Seq<Option<Packet>>, n: nat)
    requires
        n <= w.len(),
    ensures
        count_some(shift_n(w, n)) <= w.len() - n,
        shift_n(w, n).len() == w.len(),
{
    lemma_shift_n_shape(w, n);
    lemma_count_concat(w.subrange(n as int, w.len() as int), empty_window(n));
    lemma_count_empty(n);
    lemma_count_bound(w.subrange(n as int, w.len() as int));
}

/// Dropping the head positions one by one ends at the first window that holds
/// no more than `limit` packets.
pub proof fn lemma_drops_step(w: Seq<Option<Packet>>, limit: nat, fuel: nat)
    requires
        fuel > 0,
        count_some(w) > limit,
    ensures
        drops_until(w, limit, fuel) == 1 + drops_until(shift(w), limit, (fuel - 1) as nat),
{
}

pub proof fn lemma_drops_done(w: Seq<Option<Packet>>, limit: nat, fuel: nat)
    requires
        count_some(w) <= limit,
    ensures
        drops_until(w, limit, fuel) == 0,
{
}

/// True when the last `j` positions of `w` hold nothing.
pub open spec fn tail_empty(w: Seq<Option<Packet>>, j: nat) -> bool {
    forall|k: int| w.len() - j <= k < w.len() ==> (#[trigger] w[k]) is None
}

/// One shift empties one more position at the end.
pub proof fn lemma_shift_tail(w: Seq<Option<Packet>>, j: nat)
    requires
        w.len() > 0,
        j <= w.len(),
        tail_empty(w, j),
    ensures
        tail_empty(shift(w), j),
        j < w.len() ==> tail_empty(shift(w), j + 1),
        shift(w).len() == w.len(),
{
    let s = shift(w);
    assert forall|k: int| s.len() - j <= k < s.len() implies (#[trigger] s[k]) is None by {
        if k < s.len() - 1 {
            assert(s[k] == w[k + 1]);
        }
    }
    if j < w.len() {
        assert forall|k: int| s.len() - (j + 1) <= k < s.len() implies (#[trigger] s[k]) is None by {
            if k < s.len() - 1 {
                assert(s[k] == w[k + 1]);
            }
        }
    }
}

/// Shifting keeps the positions at the end empty.
pub proof fn lemma_shift_n_tail(w: Seq<Option<Packet>>, j: nat, n: nat)
    requires
        w.len() > 0,
        j <= w.len(),
        tail_empty(w, j),
    ensures
        tail_empty(shift_n(w, n), j),
        shift_n(w, n).len() == w.len(),
    decreases n,
{
    if n > 0 {
        lemma_shift_n_tail(w, j, (n - 1) as nat);
        lemma_shift_tail(shift_n(w, (n - 1) as nat), j);
    }
}

/// A window empty to its start holds nothing.
pub proof fn lemma_tail_all_empty(w: Seq<Option<Packet>>)
    requires
        tail_empty(w, w.len()),
    ensures
        count_some(w) == 0,
{
    assert(w =~= empty_window(w.len()));
    lemma_count_empty(w.len());
}

} // verus!
