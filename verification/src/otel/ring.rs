//! The bounded ring that records wait in.
//!
//! Every slot carries a sequence number that says whose turn it is. A producer may fill a slot whose
//! number is the producer's position; filling it sets the number to the position plus one. A consumer
//! may empty a slot whose number is the consumer's position plus one; emptying it sets the number one
//! round ahead. Positions wrap. A full ring drops what is pushed: decoding never waits for telemetry.
use vstd::arithmetic::div_mod::{
    lemma_fundamental_div_mod, lemma_fundamental_div_mod_converse, lemma_mod_add_multiples_vanish,
    lemma_mod_bound, lemma_mod_mod, lemma_mod_multiples_basic, lemma_mod_multiples_vanish,
    lemma_small_mod,
};
use vstd::prelude::*;

use crate::gpu::pool::is_pow2;
use crate::otel::record::Record;

verus! {

/// Number of positions before they repeat.
pub open spec fn wrap() -> int {
    0x1_0000_0000_0000_0000
}

/// What a slot's sequence number says to one who stands at a position.
#[derive(Clone, Copy, Debug, PartialEq, Eq, Structural)]
pub enum Turn {
    /// The slot is this position's.
    Mine,
    /// The slot is not ready: the ring is full for a producer, empty for a consumer.
    NotYet,
    /// Someone else took the position; look again.
    Passed,
}

/// What sequence number `seq` says to one who waits for `want`: how far ahead it is, as a signed number.
pub open spec fn turn_of(seq: u64, want: u64) -> Turn {
    let d = (seq - want) % wrap();
    if d == 0 {
        Turn::Mine
    } else if d >= 0x8000_0000_0000_0000 {
        Turn::NotYet
    } else {
        Turn::Passed
    }
}

/// What sequence number `seq` says to one who waits for `want`.
pub fn turn(seq: u64, want: u64) -> (t: Turn)
    ensures
        t == turn_of(seq, want),
{
    let d: u64 = seq.wrapping_sub(want);
    proof {
        let x = seq - want;
        if x < 0 {
            lemma_fundamental_div_mod_converse(x, wrap(), -1, x + wrap());
        } else {
            lemma_small_mod(x as nat, wrap() as nat);
        }
    }
    if d == 0 {
        Turn::Mine
    } else if d >= 0x8000_0000_0000_0000 {
        Turn::NotYet
    } else {
        Turn::Passed
    }
}

/// A slot of the ring.
pub struct Slot {
    pub seq: u64,
    pub rec: Option<Record>,
}

/// The ring.
pub struct Ring {
    pub buf: Vec<Slot>,
    /// Position of the next push and of the next pop.
    pub head: u64,
    pub tail: u64,
    pub dropped: u64,
    /// The same positions without wrapping.
    pub pushed: Ghost<nat>,
    pub popped: Ghost<nat>,
}

impl Ring {
    /// Number of slots.
    pub open spec fn cap(&self) -> int {
        self.buf@.len() as int
    }

    /// The position in the current round that slot `i` stands for.
    pub open spec fn position(&self, i: int) -> int {
        let t = self.popped@ as int;
        t + (i - t) % self.cap()
    }

    /// The records that wait, first in first out.
    pub open spec fn queue(&self) -> Seq<Record> {
        Seq::new(
            (self.pushed@ - self.popped@) as nat,
            |k: int| self.buf@[(self.popped@ + k) % self.cap()].rec->0,
        )
    }

    /// Slot `i` agrees with the positions.
    pub open spec fn slot_ok(&self, i: int) -> bool {
        let p = self.position(i);
        let s = self.buf@[i];
        if p < self.pushed@ {
            s.seq == (p + 1) % wrap() && s.rec is Some
        } else {
            s.seq == p % wrap() && s.rec is None
        }
    }

    /// The ring's invariant.
    pub open spec fn wf(&self) -> bool {
        &&& 2 <= self.cap() <= 0x8000_0000_0000_0000
        &&& wrap() % self.cap() == 0
        &&& self.popped@ <= self.pushed@ <= self.popped@ + self.cap()
        &&& self.head == self.pushed@ as int % wrap()
        &&& self.tail == self.popped@ as int % wrap()
        &&& forall|i: int| 0 <= i < self.cap() ==> #[trigger] self.slot_ok(i)
    }

    /// A ring with room for at least `capacity` records: the next power of two, from two on.
    pub fn new(capacity: usize) -> (r: Ring)
        requires
            capacity <= usize::MAX / 2 + 1,
        ensures
            r.wf(),
            r.queue() == Seq::<Record>::empty(),
            r.dropped == 0,
            is_pow2(r.cap()),
            capacity <= r.cap(),
            r.cap() == 2 || r.cap() < 2 * capacity,
    {
        let mut cap: usize = 2;
        let ghost mut q: int = pow2_of(63);
        proof {
            reveal_with_fuel(is_pow2, 3);
            reveal_with_fuel(pow2_of, 65);
            lemma_half_pow2(63, q);
        }
        while cap < capacity
            invariant
                2 <= cap <= 0x8000_0000_0000_0000,
                capacity <= usize::MAX / 2 + 1,
                is_pow2(cap as int),
                is_pow2(q),
                q >= 1,
                cap * q == wrap(),
                cap == 2 || cap < 2 * capacity,
            decreases 2 * capacity - cap,
        {
            proof {
                assert((2 * cap) as int / 2 == cap);
                assert(q > 2) by (nonlinear_arith)
                    requires
                        cap * q == 0x1_0000_0000_0000_0000,
                        cap < 0x8000_0000_0000_0000,
                ;
                assert(q == 2 * (q / 2));
                assert((2 * cap) * (q / 2) == cap * (2 * (q / 2))) by (nonlinear_arith);
                let (c, h) = (2 * cap, q / 2);
                assert(c <= 0x8000_0000_0000_0000) by (nonlinear_arith)
                    requires
                        c * h == 0x1_0000_0000_0000_0000,
                        h >= 2,
                        c >= 0,
                ;
                q = q / 2;
            }
            cap = cap * 2;
        }
        proof {
            lemma_divides(cap as int, q);
        }
        let mut buf: Vec<Slot> = Vec::new();
        let mut i: usize = 0;
        while i < cap
            invariant
                i <= cap <= 0x8000_0000_0000_0000,
                buf@.len() == i,
                forall|k: int| 0 <= k < i ==> (#[trigger] buf@[k]).seq == k && buf@[k].rec is None,
            decreases cap - i,
        {
            buf.push(Slot { seq: i as u64, rec: None });
            i = i + 1;
        }
        let r: Ring = Ring {
            buf,
            head: 0,
            tail: 0,
            dropped: 0,
            pushed: Ghost(0),
            popped: Ghost(0),
        };
        proof {
            lemma_small_mod(0, wrap() as nat);
            assert forall|i: int| 0 <= i < r.cap() implies #[trigger] r.slot_ok(i) by {
                lemma_small_mod(i as nat, r.cap() as nat);
                lemma_small_mod(i as nat, wrap() as nat);
                assert(r.buf@[i].seq == i);
            }
            assert(r.queue() =~= Seq::<Record>::empty());
        }
        r
    }

    /// Number of slots.
    pub fn capacity(&self) -> (n: usize)
        ensures
            n == self.cap(),
    {
        self.buf.len()
    }

    /// Adds a record, or drops and counts it where the ring is full.
    pub fn push(&mut self, rec: Record) -> (ok: bool)
        requires
            old(self).wf(),
        ensures
            final(self).wf(),
            final(self).cap() == old(self).cap(),
            ok == (old(self).queue().len() < old(self).cap()),
            ok ==> final(self).queue() == old(self).queue().push(rec) && final(self).dropped == old(
                self,
            ).dropped,
            !ok ==> final(self).queue() == old(self).queue() && final(self).dropped == old(
                self,
            ).dropped.wrapping_add(1),
    {
        let cap: u64 = self.buf.len() as u64;
        let i: usize = (self.head % cap) as usize;
        let ghost (h, t, c) = (self.pushed@ as int, self.popped@ as int, self.cap());
        proof {
            lemma_wrapped_slot(h, c);
            if h < t + c {
                lemma_slot_of(t, c, h);
            } else {
                lemma_slot_of(t, c, t);
            }
            assert(self.slot_ok(i as int));
            if h == t + c {
                lemma_far_behind(t, c);
                lemma_next_round(t, c);
            }
        }
        let seq: u64 = self.buf[i].seq;
        match turn(seq, self.head) {
            Turn::Mine => {
                let ghost was = *self;
                proof {
                    if h == t + c {
                        assert(self.position(i as int) == t);
                    }
                    assert(h < t + c);
                    assert(self.position(i as int) == h);
                }
                let next: u64 = self.head.wrapping_add(1);
                proof {
                    lemma_step(h);
                }
                self.buf.set(i, Slot { seq: next, rec: Some(rec) });
                self.head = next;
                self.pushed = Ghost((self.pushed@ + 1) as nat);
                proof {
                    assert forall|k: int| 0 <= k < self.cap() implies #[trigger] self.slot_ok(k) by {
                        assert(was.slot_ok(k));
                        if k != i {
                            assert(was.position(k) != h) by {
                                lemma_slot_back(t, c, k);
                            }
                        }
                    }
                    assert(self.queue() =~= was.queue().push(rec)) by {
                        assert forall|k: int| 0 <= k < h - t implies self.queue()[k]
                            == was.queue()[k] by {
                            lemma_distinct(t, c, t + k, h);
                        }
                    }
                }
                true
            },
            _ => {
                proof {
                    assert(h >= t + c) by {
                        if h < t + c {
                            assert(self.position(i as int) == h);
                            lemma_small_mod(0, wrap() as nat);
                        }
                    }
                }
                self.dropped = self.dropped.wrapping_add(1);
                proof {
                    assert forall|k: int| 0 <= k < self.cap() implies #[trigger] self.slot_ok(k) by {
                        assert(old(self).slot_ok(k));
                    }
                    assert(self.queue() =~= old(self).queue());
                }
                false
            },
        }
    }

    /// Takes the oldest record, if any.
    pub fn pop(&mut self) -> (r: Option<Record>)
        requires
            old(self).wf(),
        ensures
            final(self).wf(),
            final(self).cap() == old(self).cap(),
            final(self).dropped == old(self).dropped,
            match r {
                None => old(self).queue().len() == 0 && final(self).queue() == old(self).queue(),
                Some(x) => {
                    &&& old(self).queue().len() > 0
                    &&& x == old(self).queue()[0]
                    &&& final(self).queue() == old(self).queue().skip(1)
                },
            },
    {
        let cap: u64 = self.buf.len() as u64;
        let i: usize = (self.tail % cap) as usize;
        let ghost (h, t, c) = (self.pushed@ as int, self.popped@ as int, self.cap());
        let want: u64 = self.tail.wrapping_add(1);
        proof {
            lemma_wrapped_slot(t, c);
            lemma_slot_of(t, c, t);
            lemma_step(t);
            assert(self.slot_ok(i as int));
            assert(self.position(i as int) == t);
            if t == h {
                lemma_one_behind(t);
            } else {
                lemma_small_mod(0, wrap() as nat);
            }
        }
        let seq: u64 = self.buf[i].seq;
        match turn(seq, want) {
            Turn::Mine => {
                let ghost was = *self;
                let ahead: u64 = self.tail.wrapping_add(cap);
                proof {
                    lemma_ahead(t, c);
                }
                let mut slot: Slot = Slot { seq: ahead, rec: None };
                core::mem::swap(&mut self.buf[i], &mut slot);
                self.tail = want;
                self.popped = Ghost((self.popped@ + 1) as nat);
                proof {
                    assert forall|k: int| 0 <= k < self.cap() implies #[trigger] self.slot_ok(k) by {
                        assert(was.slot_ok(k));
                        lemma_slot_back(t, c, k);
                        lemma_slot_back(t + 1, c, k);
                        if k == i {
                            lemma_next_round(t, c);
                            lemma_slot_of(t + 1, c, t + c);
                        } else {
                            lemma_slot_of(t + 1, c, was.position(k));
                        }
                    }
                    assert(self.queue() =~= was.queue().skip(1)) by {
                        assert forall|k: int| 0 <= k < h - t - 1 implies self.queue()[k]
                            == was.queue().skip(1)[k] by {
                            lemma_distinct(t, c, t + 1 + k, t);
                        }
                    }
                }
                slot.rec
            },
            _ => {
                proof {
                    assert(self.queue() =~= old(self).queue());
                }
                None
            },
        }
    }

    /// Takes up to `max` records, oldest first; returns how many.
    pub fn pop_batch(&mut self, out: &mut Vec<Record>, max: usize) -> (n: usize)
        requires
            old(self).wf(),
        ensures
            final(self).wf(),
            final(self).cap() == old(self).cap(),
            final(self).dropped == old(self).dropped,
            n == (if max <= old(self).queue().len() {
                max as int
            } else {
                old(self).queue().len() as int
            }),
            final(out)@ == old(out)@ + old(self).queue().take(n as int),
            final(self).queue() == old(self).queue().skip(n as int),
    {
        let ghost q = self.queue();
        let mut n: usize = 0;
        proof {
            assert(q.skip(0) =~= q);
            assert(out@ + q.take(0) =~= out@);
        }
        while n < max
            invariant
                n <= max,
                n <= q.len(),
                self.wf(),
                self.cap() == old(self).cap(),
                self.dropped == old(self).dropped,
                q == old(self).queue(),
                out@ == old(out)@ + q.take(n as int),
                self.queue() == q.skip(n as int),
            ensures
                n == max || n == q.len(),
            decreases max - n,
        {
            match self.pop() {
                Some(r) => {
                    out.push(r);
                    n = n + 1;
                    proof {
                        assert(q.take(n as int) =~= q.take(n - 1).push(q[n - 1]));
                        assert(out@ =~= old(out)@ + q.take(n as int));
                        assert(self.queue() =~= q.skip(n as int));
                    }
                },
                None => {
                    break;
                },
            }
        }
        n
    }

    /// Records that were dropped.
    pub fn dropped(&self) -> (n: u64)
        ensures
            n == self.dropped,
    {
        self.dropped
    }
}

// ---- positions ----

proof fn lemma_half_pow2(n: nat, q: int)
    requires
        q == pow2_of(n),
    ensures
        is_pow2(q),
        q >= 1,
        q > 1 ==> q % 2 == 0 && is_pow2(q / 2),
    decreases n,
{
    if n > 0 {
        lemma_half_pow2((n - 1) as nat, q / 2);
    }
}

/// Two to the `n`.
pub open spec fn pow2_of(n: nat) -> int
    decreases n,
{
    if n == 0 {
        1
    } else {
        2 * pow2_of((n - 1) as nat)
    }
}

proof fn lemma_divides(c: int, q: int)
    requires
        c >= 1,
        c * q == wrap(),
    ensures
        wrap() % c == 0,
{
    lemma_mod_multiples_basic(q, c);
    assert(q * c == c * q) by (nonlinear_arith);
}

/// A wrapped position lies in the same slot.
proof fn lemma_wrapped_slot(p: int, c: int)
    requires
        p >= 0,
        c >= 2,
        wrap() % c == 0,
    ensures
        (p % wrap()) % c == p % c,
        0 <= p % c < c,
{
    let q = wrap() / c;
    lemma_fundamental_div_mod(wrap(), c);
    assert(wrap() == c * q);
    assert(q >= 1) by (nonlinear_arith)
        requires
            c * q == wrap(),
            c >= 2,
    ;
    lemma_mod_mod(p, c, q);
    lemma_mod_bound(p, c);
}

/// The slot of a position within the round that starts at `t` stands for that position.
proof fn lemma_slot_of(t: int, c: int, p: int)
    requires
        c >= 2,
        0 <= t <= p < t + c,
    ensures
        t + (p % c - t) % c == p,
{
    lemma_fundamental_div_mod(p, c);
    let q = p / c;
    lemma_mod_multiples_vanish(-q, p - t, c);
    assert(c * (-q) == -(c * q)) by (nonlinear_arith);
    lemma_small_mod((p - t) as nat, c as nat);
}

/// A slot's position within the round lies in the slot.
proof fn lemma_slot_back(t: int, c: int, k: int)
    requires
        c >= 2,
        t >= 0,
        0 <= k < c,
    ensures
        ({
            let p = t + (k - t) % c;
            t <= p < t + c && p % c == k
        }),
{
    let x = k - t;
    let q = x / c;
    lemma_mod_bound(x, c);
    lemma_fundamental_div_mod(x, c);
    lemma_mod_multiples_vanish(-q, k, c);
    assert(c * (-q) == -(c * q)) by (nonlinear_arith);
    lemma_small_mod(k as nat, c as nat);
}

proof fn lemma_next_round(t: int, c: int)
    requires
        c >= 2,
    ensures
        (t + c) % c == t % c,
{
    lemma_mod_add_multiples_vanish(t, c);
}

proof fn lemma_step(p: int)
    requires
        p >= 0,
    ensures
        (p + 1) % wrap() == (if p % wrap() == wrap() - 1 {
            0
        } else {
            p % wrap() + 1
        }),
{
}

proof fn lemma_ahead(p: int, c: int)
    requires
        p >= 0,
        0 <= c < wrap(),
    ensures
        (p + c) % wrap() == (if p % wrap() + c >= wrap() {
            p % wrap() + c - wrap()
        } else {
            p % wrap() + c
        }),
{
}

/// In a full ring the slot is almost a round behind.
proof fn lemma_far_behind(t: int, c: int)
    requires
        t >= 0,
        2 <= c <= 0x8000_0000_0000_0000,
    ensures
        ((t + 1) % wrap() - (t + c) % wrap()) % wrap() >= 0x8000_0000_0000_0000,
{
}

/// In an empty ring the slot is one behind.
proof fn lemma_one_behind(t: int)
    requires
        t >= 0,
    ensures
        (t % wrap() - (t + 1) % wrap()) % wrap() == wrap() - 1,
{
}

/// Two positions less than a round apart lie in different slots.
proof fn lemma_distinct(t: int, c: int, a: int, b: int)
    requires
        c >= 2,
        0 <= t <= a < t + c,
        t <= b < t + c,
        a != b,
    ensures
        a % c != b % c,
{
    if a % c == b % c {
        lemma_fundamental_div_mod(a, c);
        lemma_fundamental_div_mod(b, c);
        let (x, y) = (a / c, b / c);
        assert(c * x - c * y == c * (x - y)) by (nonlinear_arith);
        assert(x == y) by (nonlinear_arith)
            requires
                c >= 2,
                -c < c * (x - y) < c,
        ;
    }
}

} // verus!
