//! The adaptive jitter buffer.
//!
//! A jitter buffer trades latency for smoothness. Too shallow and every network
//! hiccup is a gap. Too deep and the conversation stops feeling immediate. The
//! rule is: grow at once, shrink slowly.
//!
//! The **buffer** runs inside the output callback, where it must not allocate.
//! Its storage is allocated once, in `new`. How the target depth it plays to
//! moves with the measured jitter is `target_step`.
use vstd::prelude::*;
use vstd::arithmetic::div_mod::*;

use crate::audio::packet::Packet;
use crate::audio::window::{
    count_some, drops_until, empty_window, lemma_count_bound, lemma_count_empty, lemma_count_shift,
    lemma_count_update, lemma_count_zero_means_empty, lemma_drops_done, lemma_drops_step,
    lemma_shift_n_count, lemma_shift_n_tail, lemma_shift_tail, lemma_tail_all_empty, shift, shift_n,
    tail_empty,
};
use crate::config::{FRAME_MS, JITTER_MAX_FRAMES, JITTER_MIN_FRAMES, JITTER_SLACK_FRAMES};
use crate::net::audio_wire::{seq_delta, spec_seq_delta, FLAG_TALKSPURT_START};

verus! {

/// The reorder array size. It exceeds the largest target depth so a packet
/// that arrives early still has somewhere to sit, and it divides the `u16`
/// sequence space evenly, so the index does not jump at the wrap point.
pub const CAPACITY: usize = 16;

/// The most frames the buffer holds after a frame is played.
pub const HARD_LIMIT: usize = 14;

/// What the callback should do for this frame.
#[derive(Debug, Clone, Copy, PartialEq, Eq, Structural)]
pub enum Decision {
    /// Play this packet.
    Play,
    /// The packet never arrived. Run concealment.
    Conceal,
    /// The stream has not filled to its target yet. Play silence and wait.
    Prime,
}

/// A sequence number `n` steps after `a`, across the wrap.
pub open spec fn wrap_add(a: u16, n: int) -> u16 {
    ((a + n) % 0x1_0000) as u16
}

/// A buffer that waits for the target depth at `target`.
pub open spec fn waits_at(b: Buffer, target: usize) -> bool {
    !b.spec_started() || (b.spec_priming() && b.spec_held() < (if target >= 1 {
        target as nat
    } else {
        1nat
    }))
}

proof fn lemma_drain_steps(bs: Seq<Buffer>, target: usize, i: nat)
    requires
        bs.len() == CAPACITY + 1,
        bs[0].wf(),
        forall|k: int| 0 <= k < CAPACITY ==> #[trigger] take_step(bs[k], bs[k + 1], target),
        i <= CAPACITY,
    ensures
        waits_at(bs[0], target) ==> bs[i as int] == bs[0],
        !waits_at(bs[0], target) ==> {
            &&& bs[i as int].wf()
            &&& tail_empty(bs[i as int].window(), i)
            &&& i > 0 ==> bs[i as int].spec_started() && !bs[i as int].spec_priming()
        },
    decreases i,
{
    if i > 0 {
        let p = (i - 1) as nat;
        lemma_drain_steps(bs, target, p);
        assert(take_step(bs[p as int], bs[p + 1 as int], target));
        if !waits_at(bs[0], target) {
            let o = bs[p as int];
            o.lemma_wf_facts();
            let w1 = shift(o.window());
            lemma_shift_tail(o.window(), p);
            if o.window()[0] is Some {
                lemma_shift_n_tail(w1, i, trim_drops(w1, target as nat));
            }
        }
    }
}

/// With no packets arriving, the buffer does not creep deeper than its
/// target: after `CAPACITY` takes at one target it holds no more than the
/// target and its slack, and none at all once it has started playing.
pub proof fn lemma_no_creep_without_arrivals(bs: Seq<Buffer>, target: usize)
    requires
        bs.len() == CAPACITY + 1,
        bs[0].wf(),
        forall|k: int| 0 <= k < CAPACITY ==> #[trigger] take_step(bs[k], bs[k + 1], target),
    ensures
        bs[CAPACITY as int].spec_held() <= target + JITTER_SLACK_FRAMES,
        !waits_at(bs[0], target) ==> bs[CAPACITY as int].spec_held() == 0,
{
    lemma_drain_steps(bs, target, CAPACITY as nat);
    bs[0].lemma_wf_facts();
    if !waits_at(bs[0], target) {
        let last = bs[CAPACITY as int];
        last.lemma_wf_facts();
        lemma_tail_all_empty(last.window());
    }
}

/// The depth above which the buffer trims one frame, for a target depth.
pub open spec fn trim_limit(target: nat) -> nat {
    (if target >= JITTER_MIN_FRAMES {
        target
    } else {
        JITTER_MIN_FRAMES as nat
    }) + JITTER_SLACK_FRAMES as nat
}

/// How many head frames a trim drops from window `w`: as many as it takes to
/// bring the held count down to `HARD_LIMIT`, and then one more when the
/// count is still above the trim limit for `target`.
pub open spec fn trim_drops(w: Seq<Option<Packet>>, target: nat) -> nat {
    let d = drops_until(w, HARD_LIMIT as nat, CAPACITY as nat);
    d + if count_some(shift_n(w, d)) > trim_limit(target) {
        1nat
    } else {
        0nat
    }
}

/// What a `take` at `target` does to the buffer: a buffer that waits is left
/// as it was; one that plays moves past the played packet and whatever the
/// trim drops; one that conceals moves past the missing packet. Either way it
/// is then started and no longer priming.
pub open spec fn take_step(o: Buffer, f: Buffer, target: usize) -> bool {
    let waits = !o.spec_started() || (o.spec_priming() && o.spec_held() < (if target >= 1 {
        target as nat
    } else {
        1nat
    }));
    let w1 = shift(o.window());
    &&& f.wf()
    &&& waits ==> f == o
    &&& (!waits && o.window()[0] is Some) ==> f.window() == shift_n(w1, trim_drops(w1, target as nat))
        && f.spec_started() && !f.spec_priming()
    &&& (!waits && o.window()[0] is None) ==> f.window() == w1 && f.spec_started() && !f.spec_priming()
}

/// True when a packet with `seq` and `flags` makes a buffer in this state
/// start over: it starts a talkspurt, and the buffer has not started or the
/// packet lies more than a whole window ahead.
pub open spec fn restarts(started: bool, next_seq: u16, seq: u16, flags: u8) -> bool {
    flags & FLAG_TALKSPURT_START != 0 && (!started || spec_seq_delta(seq, next_seq) > CAPACITY)
}

/// The reorder buffer. It lives inside the output callback.
pub struct Buffer {
    ring: Vec<Packet>,
    filled: Vec<bool>,
    /// The sequence number the next `take` will play.
    next_seq: u16,
    started: bool,
    /// True until the buffer has filled to its target for the first time.
    priming: bool,
    held: usize,
    conceal_run: u32,
}

proof fn lemma_wrap_index(a: u16, n: int, k: int)
    requires
        n >= 0,
        k >= 0,
    ensures
        (wrap_add(a, n) + k) % 16 == (a + n + k) % 16,
        wrap_add(wrap_add(a, n), k) == wrap_add(a, n + k),
{
    let x = a + n;
    lemma_fundamental_div_mod(x, 0x1_0000);
    let q = x / 0x1_0000;
    assert(wrap_add(a, n) + k == (x + k) + 16 * (-4096 * q));
    lemma_mod_multiples_vanish(-4096 * q, x + k, 16);
    assert(wrap_add(a, n) + k == (x + k) + 0x1_0000 * (-q));
    lemma_mod_multiples_vanish(-q, x + k, 0x1_0000);
}

impl Buffer {
    /// The slot at array position `i`.
    closed spec fn slot(self, i: int) -> Option<Packet> {
        if self.filled@[i] {
            Some(self.ring@[i])
        } else {
            None
        }
    }

    /// The reorder window: position `k` holds the packet for sequence number
    /// `next_seq + k`, if it has arrived.
    pub closed spec fn window(self) -> Seq<Option<Packet>> {
        Seq::new(CAPACITY as nat, |k: int| self.slot((self.next_seq + k) % (CAPACITY as int)))
    }

    /// The sequence number the next `take` will play.
    pub closed spec fn spec_next_seq(self) -> u16 {
        self.next_seq
    }

    /// True once a packet has arrived since the last reset.
    pub closed spec fn spec_started(self) -> bool {
        self.started
    }

    /// True while the buffer waits to fill to its target.
    pub closed spec fn spec_priming(self) -> bool {
        self.priming
    }

    /// How many packets are held.
    pub closed spec fn spec_held(self) -> nat {
        self.held as nat
    }

    /// How many frames in a row have been concealed.
    pub closed spec fn spec_conceal_run(self) -> u32 {
        self.conceal_run
    }

    /// The buffer's internal consistency.
    pub closed spec fn wf(self) -> bool {
        &&& self.ring@.len() == CAPACITY
        &&& self.filled@.len() == CAPACITY
        &&& self.held == count_some(self.window())
        &&& forall|k: int|
            0 <= k < CAPACITY && (#[trigger] self.window()[k]) is Some ==> self.window()[k]->Some_0.spec_seq()
                == wrap_add(self.next_seq, k)
        &&& !self.started ==> self.held == 0 && self.priming && self.conceal_run == 0
    }

    /// What a consistent buffer promises about its window.
    pub proof fn lemma_wf_facts(self)
        requires
            self.wf(),
        ensures
            self.window().len() == CAPACITY,
            self.spec_held() == count_some(self.window()),
            self.spec_held() <= CAPACITY,
            forall|k: int|
                0 <= k < CAPACITY && (#[trigger] self.window()[k]) is Some
                    ==> self.window()[k]->Some_0.spec_seq() == wrap_add(self.spec_next_seq(), k),
            !self.spec_started() ==> self.window() == empty_window(CAPACITY as nat)
                && self.spec_priming() && self.spec_conceal_run() == 0,
    {
        lemma_count_bound(self.window());
        if !self.started {
            lemma_count_zero_means_empty(self.window());
        }
    }

    /// The buffer never holds two packets with one sequence number, so what
    /// `held` counts is the number of distinct sequence numbers accepted and
    /// not yet played or dropped.
    pub proof fn lemma_held_numbers_are_distinct(self)
        requires
            self.wf(),
        ensures
            forall|a: int, b: int|
                0 <= a < b < CAPACITY && (#[trigger] self.window()[a]) is Some && (
                #[trigger] self.window()[b]) is Some ==> self.window()[a]->Some_0.spec_seq()
                    != self.window()[b]->Some_0.spec_seq(),
    {
        assert forall|a: int, b: int|
            0 <= a < b < CAPACITY && (#[trigger] self.window()[a]) is Some && (
            #[trigger] self.window()[b]) is Some implies self.window()[a]->Some_0.spec_seq()
                != self.window()[b]->Some_0.spec_seq() by {
            let n = self.next_seq as int;
            assert((n + a) % 0x1_0000 != (n + b) % 0x1_0000);
        }
    }

    proof fn lemma_window_set(old_b: Buffer, new_b: Buffer, i: int)
        requires
            old_b.ring@.len() == CAPACITY,
            old_b.filled@.len() == CAPACITY,
            new_b.ring@.len() == CAPACITY,
            new_b.filled@.len() == CAPACITY,
            new_b.next_seq == old_b.next_seq,
            0 <= i < CAPACITY,
            forall|j: int| 0 <= j < CAPACITY && j != i ==> new_b.slot(j) == old_b.slot(j),
        ensures
            new_b.window() == old_b.window().update(
                (i - old_b.next_seq) % (CAPACITY as int),
                new_b.slot(i),
            ),
            (old_b.next_seq + (i - old_b.next_seq) % (CAPACITY as int)) % (CAPACITY as int) == i,
    {
        let k = (i - old_b.next_seq) % 16;
        assert((old_b.next_seq + k) % 16 == i);
        assert forall|j: int| 0 <= j < CAPACITY implies new_b.window()[j] == old_b.window().update(
            k,
            new_b.slot(i),
        )[j] by {
            if j != k {
                assert((old_b.next_seq + j) % 16 != i);
            }
        }
        assert(new_b.window() =~= old_b.window().update(k, new_b.slot(i)));
    }

    proof fn lemma_empty_window_moves(old_b: Buffer, new_b: Buffer)
        requires
            old_b.filled@.len() == CAPACITY,
            old_b.window() == empty_window(CAPACITY as nat),
            new_b.filled@ == old_b.filled@,
        ensures
            new_b.window() == empty_window(CAPACITY as nat),
    {
        assert forall|i: int| 0 <= i < CAPACITY implies !old_b.filled@[i] by {
            let k = (i - old_b.next_seq) % 16;
            assert((old_b.next_seq + k) % 16 == i);
            assert(old_b.window()[k] is None);
        }
        assert(new_b.window() =~= empty_window(CAPACITY as nat));
    }

    proof fn lemma_window_advance(old_b: Buffer, new_b: Buffer)
        requires
            old_b.ring@.len() == CAPACITY,
            old_b.filled@.len() == CAPACITY,
            new_b.ring@.len() == CAPACITY,
            new_b.filled@.len() == CAPACITY,
            new_b.next_seq == wrap_add(old_b.next_seq, 1),
            new_b.slot((old_b.next_seq % 16) as int) is None,
            forall|j: int|
                0 <= j < CAPACITY && j != old_b.next_seq % 16 ==> new_b.slot(j) == old_b.slot(j),
        ensures
            new_b.window() == shift(old_b.window()),
    {
        assert forall|k: int| 0 <= k < CAPACITY implies new_b.window()[k] == shift(
            old_b.window(),
        )[k] by {
            lemma_wrap_index(old_b.next_seq, 1, k);
            if k < 15 {
                assert((old_b.next_seq + 1 + k) % 16 != old_b.next_seq % 16);
            } else {
                assert((old_b.next_seq + 1 + k) % 16 == old_b.next_seq % 16);
            }
        }
        assert(new_b.window() =~= shift(old_b.window()));
    }

    /// An empty buffer that has not started.
    pub fn new() -> (b: Buffer)
        ensures
            b.wf(),
            b.window() == empty_window(CAPACITY as nat),
            b.spec_next_seq() == 0,
            !b.spec_started(),
            b.spec_priming(),
            b.spec_held() == 0,
            b.spec_conceal_run() == 0,
    {
        let mut ring: Vec<Packet> = Vec::new();
        let mut filled: Vec<bool> = Vec::new();
        let mut i: usize = 0;
        while i < CAPACITY
            invariant
                i <= CAPACITY,
                ring@.len() == i,
                filled@.len() == i,
                forall|j: int| 0 <= j < i ==> !filled@[j],
            decreases CAPACITY - i,
        {
            ring.push(Packet::empty());
            filled.push(false);
            i = i + 1;
        }
        let b = Buffer {
            ring,
            filled,
            next_seq: 0,
            started: false,
            priming: true,
            held: 0,
            conceal_run: 0,
        };
        assert(b.window() =~= empty_window(CAPACITY as nat));
        proof {
            lemma_count_empty(CAPACITY as nat);
        }
        b
    }

    /// Throws away every held packet. Used when a slot changes owner.
    pub fn reset(&mut self)
        requires
            old(self).wf(),
        ensures
            final(self).wf(),
            final(self).window() == empty_window(CAPACITY as nat),
            final(self).spec_next_seq() == old(self).spec_next_seq(),
            !final(self).spec_started(),
            final(self).spec_priming(),
            final(self).spec_held() == 0,
            final(self).spec_conceal_run() == 0,
    {
        let mut i: usize = 0;
        while i < CAPACITY
            invariant
                i <= CAPACITY,
                self.filled@.len() == CAPACITY,
                self.ring@.len() == CAPACITY,
                self.next_seq == old(self).next_seq,
                forall|j: int| 0 <= j < i ==> !self.filled@[j],
            decreases CAPACITY - i,
        {
            self.filled.set(i, false);
            i = i + 1;
        }
        self.started = false;
        self.priming = true;
        self.held = 0;
        self.conceal_run = 0;
        assert(self.window() =~= empty_window(CAPACITY as nat));
        proof {
            lemma_count_empty(CAPACITY as nat);
        }
    }

    /// How many packets are held.
    pub fn held(&self) -> (r: usize)
        ensures
            r == self.spec_held(),
    {
        self.held
    }

    /// How many frames in a row have been concealed.
    pub fn conceal_run(&self) -> (r: u32)
        ensures
            r == self.spec_conceal_run(),
    {
        self.conceal_run
    }

    /// Stores `packet` at its array position, which lies `k` positions into
    /// the window.
    fn store(&mut self, packet: Packet, k: Ghost<int>)
        requires
            old(self).wf(),
            old(self).spec_started(),
            0 <= k@ < CAPACITY,
            packet.spec_seq() == wrap_add(old(self).next_seq, k@),
        ensures
            final(self).wf(),
            final(self).window() == old(self).window().update(k@, Some(packet)),
            final(self).next_seq == old(self).next_seq,
            final(self).started == old(self).started,
            final(self).priming == old(self).priming,
            final(self).conceal_run == old(self).conceal_run,
    {
        let index = packet.seq() as usize % CAPACITY;
        proof {
            lemma_wrap_index(self.next_seq, k@, 0);
            assert(index == (self.next_seq + k@) % 16);
            lemma_count_bound(self.window());
        }
        let ghost before = *self;
        let was = self.filled[index];
        if !was {
            proof {
                assert(self.window()[k@] is None);
                lemma_count_update(self.window(), k@, Some(packet));
                lemma_count_bound(self.window().update(k@, Some(packet)));
            }
            self.held = self.held + 1;
        }
        self.ring.set(index, packet);
        self.filled.set(index, true);
        proof {
            Buffer::lemma_window_set(before, *self, index as int);
            assert((index - before.next_seq) % 16 == k@);
            lemma_count_update(before.window(), k@, Some(packet));
            assert forall|j: int|
                0 <= j < CAPACITY && (#[trigger] self.window()[j]) is Some implies self.window()[j]->Some_0.spec_seq()
                == wrap_add(self.next_seq, j) by {
                if j != k@ {
                    assert(self.window()[j] == before.window()[j]);
                }
            }
        }
    }

    /// Files one packet.
    ///
    /// Returns false when the packet arrived too late to play, which the caller
    /// counts; the buffer is then unchanged.
    pub fn insert(&mut self, packet: Packet) -> (r: bool)
        requires
            old(self).wf(),
        ensures
            final(self).wf(),
            ({
                let o = *old(self);
                let f = *final(self);
                let keep = o.spec_started() && !restarts(
                    o.spec_started(),
                    o.spec_next_seq(),
                    packet.spec_seq(),
                    packet.spec_flags(),
                );
                let ahead = spec_seq_delta(packet.spec_seq(), o.spec_next_seq());
                &&& (keep && ahead < 0) ==> !r && f == o
                &&& (keep && 0 <= ahead < CAPACITY) ==> {
                    &&& r
                    &&& f.window() == o.window().update(ahead, Some(packet))
                    &&& f.spec_next_seq() == o.spec_next_seq()
                    &&& f.spec_started()
                    &&& f.spec_priming() == o.spec_priming()
                    &&& f.spec_conceal_run() == o.spec_conceal_run()
                }
                &&& (!keep || ahead >= CAPACITY) ==> {
                    &&& r
                    &&& f.window() == empty_window(CAPACITY as nat).update(0, Some(packet))
                    &&& f.spec_next_seq() == packet.spec_seq()
                    &&& f.spec_started()
                    &&& f.spec_priming()
                    &&& f.spec_conceal_run() == 0
                }
            }),
    {
        let ghost o = *self;
        if packet.flags() & FLAG_TALKSPURT_START != 0 && (!self.started || seq_delta(
            packet.seq(),
            self.next_seq,
        ) > CAPACITY as i32) {
            self.reset();
        }
        if !self.started {
            proof {
                self.lemma_wf_facts();
            }
            let ghost mid = *self;
            self.next_seq = packet.seq();
            self.started = true;
            proof {
                lemma_count_empty(CAPACITY as nat);
                Buffer::lemma_empty_window_moves(mid, *self);
            }
        }
        let ahead = seq_delta(packet.seq(), self.next_seq);
        if ahead < 0 {
            return false;
        }
        if ahead >= CAPACITY as i32 {
            self.reset();
            let ghost mid = *self;
            self.next_seq = packet.seq();
            self.started = true;
            proof {
                lemma_count_empty(CAPACITY as nat);
                Buffer::lemma_empty_window_moves(mid, *self);
            }
        }
        let ghost k = spec_seq_delta(packet.spec_seq(), self.next_seq);
        proof {
            crate::net::audio_wire::lemma_seq_delta_laws(packet.spec_seq(), self.next_seq);
            assert(0 <= k < CAPACITY);
            assert(packet.spec_seq() == wrap_add(self.next_seq, k));
        }
        self.store(packet, Ghost(k));
        true
    }

    /// Discards the frame at the play position and moves on.
    fn drop_head(&mut self)
        requires
            old(self).wf(),
        ensures
            final(self).wf(),
            final(self).window() == shift(old(self).window()),
            final(self).next_seq == wrap_add(old(self).next_seq, 1),
            final(self).started == old(self).started,
            final(self).priming == old(self).priming,
            final(self).conceal_run == old(self).conceal_run,
    {
        let ghost before = *self;
        let index = self.next_seq as usize % CAPACITY;
        proof {
            assert(before.window()[0] == before.slot(index as int));
            lemma_count_shift(before.window());
        }
        if self.filled[index] {
            self.filled.set(index, false);
            self.held = self.held - 1;
        }
        self.next_seq = self.next_seq.wrapping_add(1);
        proof {
            Buffer::lemma_window_advance(before, *self);
            assert forall|j: int|
                0 <= j < CAPACITY && (#[trigger] self.window()[j]) is Some implies self.window()[j]->Some_0.spec_seq()
                == wrap_add(self.next_seq, j) by {
                assert(self.window()[j] == before.window()[j + 1]);
                lemma_wrap_index(before.next_seq, 1, j);
            }
            if !self.started {
                lemma_count_zero_means_empty(before.window());
                assert(shift(before.window()) =~= empty_window(CAPACITY as nat));
                lemma_count_empty(CAPACITY as nat);
            }
        }
    }

    /// Drops frames when the buffer has drifted deeper than the target.
    ///
    /// A hard limit first, so the reorder array never wraps onto itself. Then
    /// at most **one** frame for the target, because a run of dropped frames is
    /// far more audible than a single one.
    fn trim(&mut self, target: usize)
        requires
            old(self).wf(),
        ensures
            final(self).wf(),
            final(self).window() == shift_n(
                old(self).window(),
                trim_drops(old(self).window(), target as nat),
            ),
            final(self).next_seq == wrap_add(
                old(self).next_seq,
                trim_drops(old(self).window(), target as nat) as int,
            ),
            final(self).started == old(self).started,
            final(self).priming == old(self).priming,
            final(self).conceal_run == old(self).conceal_run,
            final(self).spec_held() <= HARD_LIMIT,
    {
        let ghost w0 = self.window();
        let ghost n0 = self.next_seq;
        let ghost mut j: nat = 0;
        while self.held > HARD_LIMIT
            invariant
                self.wf(),
                w0.len() == CAPACITY,
                j <= 2,
                self.window() == shift_n(w0, j),
                self.next_seq == wrap_add(n0, j as int),
                self.started == old(self).started,
                self.priming == old(self).priming,
                self.conceal_run == old(self).conceal_run,
                drops_until(w0, HARD_LIMIT as nat, CAPACITY as nat) == j + drops_until(
                    shift_n(w0, j),
                    HARD_LIMIT as nat,
                    (CAPACITY - j) as nat,
                ),
            decreases CAPACITY - j,
        {
            proof {
                lemma_shift_n_count(w0, j);
                lemma_drops_step(shift_n(w0, j), HARD_LIMIT as nat, (CAPACITY - j) as nat);
                lemma_wrap_index(n0, j as int, 0);
                lemma_wrap_index(n0, j as int, 1);
                lemma_shift_n_count(w0, j + 1);
            }
            self.drop_head();
            proof {
                j = j + 1;
                assert(shift_n(w0, j) == shift(shift_n(w0, (j - 1) as nat)));
            }
        }
        proof {
            lemma_drops_done(shift_n(w0, j), HARD_LIMIT as nat, (CAPACITY - j) as nat);
            assert(j == drops_until(w0, HARD_LIMIT as nat, CAPACITY as nat));
        }
        let floor = if target >= JITTER_MIN_FRAMES {
            target
        } else {
            JITTER_MIN_FRAMES
        };
        // `held > floor + slack`, written so that no target can overflow it.
        if self.held > JITTER_SLACK_FRAMES && self.held - JITTER_SLACK_FRAMES > floor {
            let ghost before = self.window();
            proof {
                lemma_count_shift(before);
            }
            self.drop_head();
            proof {
                lemma_wrap_index(n0, j as int, 1);
                assert(shift_n(w0, j + 1) == shift(shift_n(w0, j)));
            }
        }
    }

    /// Decides what to play for this frame, and advances.
    ///
    /// `target` is the depth the estimator asked for. A played packet is
    /// always the one whose sequence number was next.
    pub fn take(&mut self, target: usize) -> (r: (Decision, Option<Packet>))
        requires
            old(self).wf(),
        ensures
            final(self).wf(),
            take_step(*old(self), *final(self), target),
            ({
                let o = *old(self);
                let f = *final(self);
                let waits = !o.spec_started() || (o.spec_priming() && o.spec_held() < (
                if target >= 1 {
                    target as nat
                } else {
                    1nat
                }));
                let w1 = shift(o.window());
                let d = trim_drops(w1, target as nat);
                &&& waits ==> r == (Decision::Prime, None::<Packet>) && f == o
                &&& (!waits && o.window()[0] is Some) ==> {
                    &&& r.0 == Decision::Play
                    &&& r.1 == o.window()[0]
                    &&& r.1->Some_0.spec_seq() == o.spec_next_seq()
                    &&& f.window() == shift_n(w1, d)
                    &&& f.spec_next_seq() == wrap_add(o.spec_next_seq(), 1 + d as int)
                    &&& f.spec_held() <= HARD_LIMIT
                    &&& f.spec_started()
                    &&& !f.spec_priming()
                    &&& f.spec_conceal_run() == 0
                }
                &&& (!waits && o.window()[0] is None) ==> {
                    &&& r == (Decision::Conceal, None::<Packet>)
                    &&& f.window() == w1
                    &&& f.spec_next_seq() == wrap_add(o.spec_next_seq(), 1)
                    &&& f.spec_started()
                    &&& !f.spec_priming()
                    &&& f.spec_conceal_run() == if o.spec_conceal_run() == u32::MAX {
                        u32::MAX
                    } else {
                        (o.spec_conceal_run() + 1) as u32
                    }
                }
            }),
    {
        if !self.started {
            return (Decision::Prime, None);
        }
        if self.priming {
            let floor = if target >= 1 {
                target
            } else {
                1
            };
            if self.held < floor {
                return (Decision::Prime, None);
            }
            let ghost primed = *self;
            self.priming = false;
            proof {
                assert(self.window() =~= primed.window());
            }
        }
        let ghost before = *self;
        let index = self.next_seq as usize % CAPACITY;
        proof {
            assert(before.window()[0] == before.slot(index as int));
        }
        if self.filled[index] {
            let packet = self.ring[index];
            self.drop_head();
            let ghost dropped = *self;
            self.conceal_run = 0;
            proof {
                assert(self.window() =~= dropped.window());
            }
            let ghost mid = *self;
            self.trim(target);
            proof {
                lemma_wrap_index(before.next_seq, 1, trim_drops(mid.window(), target as nat) as int);
                assert(mid.window() == shift(before.window()));
                assert(before.window() =~= old(self).window());
                assert(Some(packet) == before.window()[0]);
            }
            return (Decision::Play, Some(packet));
        }
        self.drop_head();
        let ghost dropped = *self;
        self.conceal_run = self.conceal_run.saturating_add(1);
        proof {
            assert(self.window() =~= dropped.window());
            assert(before.window() =~= old(self).window());
        }
        (Decision::Conceal, None)
    }

    /// The packet at the play position, for in-band FEC after a concealed
    /// frame: Opus can rebuild a lost frame from the next packet.
    pub fn peek_next(&self) -> (r: Option<&Packet>)
        requires
            self.wf(),
        ensures
            r is Some <==> self.window()[0] is Some,
            r matches Some(p) ==> Some(*p) == self.window()[0],
    {
        let index = self.next_seq as usize % CAPACITY;
        proof {
            assert(self.window()[0] == self.slot(index as int));
        }
        if self.filled[index] {
            Some(&self.ring[index])
        } else {
            None
        }
    }
}

/// The playback delay, in milliseconds, that a target depth costs.
pub fn depth_to_delay(frames: u32) -> (r: u64)
    ensures
        r == frames * FRAME_MS,
{
    assert(frames as u64 * FRAME_MS as u64 <= 0xffff_ffff * 10) by (nonlinear_arith)
        requires
            frames <= 0xffff_ffff,
            FRAME_MS == 10,
    ;
    frames as u64 * FRAME_MS as u64
}


/// How the playout target moves after a new jitter estimate.
#[derive(Debug, Clone, Copy, PartialEq, Eq, Structural)]
pub enum TargetStep {
    /// Deepen the buffer to this many frames at once. A gap the user can
    /// hear is worse than latency.
    Grow(u32),
    /// Make the buffer one frame shallower, after a quiet spell. Collapsing
    /// straight to the new target would drop a whole run of audio at once.
    Shrink(u32),
    /// Leave the target where it is.
    Hold,
}

/// The depth the estimate asks for, held to the configured bounds.
pub open spec fn bounded_depth(wanted: i64) -> int {
    if wanted < JITTER_MIN_FRAMES {
        JITTER_MIN_FRAMES as int
    } else if wanted > JITTER_MAX_FRAMES {
        JITTER_MAX_FRAMES as int
    } else {
        wanted as int
    }
}

/// How the target moves from `current` when the estimate asks for `wanted`
/// frames; `settled` says the target has not moved for the settle time.
pub open spec fn target_step_spec(wanted: i64, current: u32, settled: bool) -> TargetStep {
    let w = bounded_depth(wanted);
    if w > current {
        TargetStep::Grow(w as u32)
    } else if w < current && settled {
        TargetStep::Shrink((current - 1) as u32)
    } else {
        TargetStep::Hold
    }
}

/// How the playout target moves after a new jitter estimate: it grows to
/// the wanted depth at once, and shrinks one frame at a time, only once it
/// has settled.
pub fn target_step(wanted: i64, current: u32, settled: bool) -> (r: TargetStep)
    ensures
        r == target_step_spec(wanted, current, settled),
{
    let w: u32 = if wanted < JITTER_MIN_FRAMES as i64 {
        JITTER_MIN_FRAMES as u32
    } else if wanted > JITTER_MAX_FRAMES as i64 {
        JITTER_MAX_FRAMES as u32
    } else {
        wanted as u32
    };
    if w > current {
        TargetStep::Grow(w)
    } else if w < current && settled {
        TargetStep::Shrink(current - 1)
    } else {
        TargetStep::Hold
    }
}

/// The target a step leaves behind.
pub open spec fn after_step(current: u32, step: TargetStep) -> int {
    match step {
        TargetStep::Grow(t) => t as int,
        TargetStep::Shrink(t) => t as int,
        TargetStep::Hold => current as int,
    }
}

/// A target inside the configured bounds stays inside them, whatever the
/// estimate asks for; it never shrinks by more than one frame at a time, and
/// never shrinks before it has settled.
pub proof fn lemma_target_stays_in_bounds(wanted: i64, current: u32, settled: bool)
    requires
        JITTER_MIN_FRAMES <= current <= JITTER_MAX_FRAMES,
    ensures
        JITTER_MIN_FRAMES <= after_step(current, target_step_spec(wanted, current, settled))
            <= JITTER_MAX_FRAMES,
        after_step(current, target_step_spec(wanted, current, settled)) >= current - 1,
        !settled ==> after_step(current, target_step_spec(wanted, current, settled)) >= current,
{
}

/// An estimate asking for more than the current depth is granted at once,
/// up to the upper bound.
pub proof fn lemma_target_grows_at_once(wanted: i64, current: u32, settled: bool)
    requires
        current < wanted,
        current < JITTER_MAX_FRAMES,
    ensures
        target_step_spec(wanted, current, settled) is Grow,
        after_step(current, target_step_spec(wanted, current, settled)) == bounded_depth(wanted),
{
}

} // verus!
