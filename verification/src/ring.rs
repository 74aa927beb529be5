//! Single-producer / single-consumer descriptor ring.
//!
//! The ring carries 64-bit descriptor slots between a producer and a
//! consumer.  `head` and `tail` are monotonically wrapping counters (not
//! reduced modulo the capacity); the power-of-two `mask` is applied only when
//! indexing the slot array.  The `size` word doubles as a shutdown channel:
//! the producer publishes the sentinel `STOP_MARK` there and the consumer
//! checks it before every read.
//!
//! In the shared-memory deployment the four counters and the slot array live
//! at the start of a named shared region, and the producer must order its
//! slot stores before the `tail` store (a release fence) so that a consumer
//! observing the new `tail` also observes the slot contents.  This module
//! verifies the single-owner functional behaviour; the process that maps the
//! ring into two address spaces keeps that layout and ordering.

use vstd::prelude::*;

verus! {

use vstd::arithmetic::div_mod::{
    lemma_add_mod_noop, lemma_mod_bound, lemma_mod_mod, lemma_mod_sub_multiples_vanish,
    lemma_small_mod, lemma_sub_mod_noop,
};
use vstd::arithmetic::power2::{lemma_pow2_adds, lemma_pow2_pos, lemma_pow2_strictly_increases, pow2};
use vstd::bits::{lemma_u64_low_bits_mask_is_mod, low_bits_mask};

/// Sentinel stored in the ring's `size` word to tell the consumer to stop.
pub const STOP_MARK: u64 = 0xabcdefff;

/// Error returned when a ring is created with a slot count that is not a
/// power of two (or is too large to index).
#[derive(Debug)]
pub struct InvalidRingSize(pub u64);

/// The modulus of the wrapping `head`/`tail` counters.
pub open spec fn counter_modulus() -> nat {
    pow2(64)
}

/// Largest exponent accepted for the capacity, so that a capacity always
/// fits comfortably in a `usize` index.
pub open spec fn max_capacity_exp() -> nat {
    31
}

/// A slot count is valid when it is a power of two no larger than 2^31.
pub open spec fn ring_size_ok(n: u64) -> bool {
    exists|k: nat| k <= max_capacity_exp() && n == pow2(k)
}

/// What `read_from_head` reports: either the stop sentinel was observed, or
/// a batch of descriptors was taken off the ring.
pub enum RingPoll {
    /// The producer published `STOP_MARK`; the consumer must terminate.
    Stopped,
    /// The descriptors read, in FIFO order (possibly empty).
    Received(Vec<u64>),
}

/// A single-producer / single-consumer ring of 64-bit descriptor slots.
pub struct RingBuffer {
    head: u64,
    tail: u64,
    size: u64,
    mask: u64,
    slots: Vec<u64>,
    /// Every descriptor ever accepted by `write_at_tail`, in order.
    history: Ghost<Seq<u64>>,
    /// How many of those descriptors the consumer has taken.
    reads: Ghost<nat>,
    /// The capacity's exponent: `slots.len() == pow2(lg_cap)`.
    lg_cap: Ghost<nat>,
}

impl RingBuffer {
    /// Capacity in slots.
    pub closed spec fn capacity(&self) -> nat {
        self.slots@.len()
    }

    /// Every descriptor the producer has ever written, in order.
    pub closed spec fn written(&self) -> Seq<u64> {
        self.history@
    }

    /// The descriptors the consumer has taken so far, in order.
    pub closed spec fn taken(&self) -> Seq<u64> {
        self.history@.take(self.reads@ as int)
    }

    /// The descriptors currently queued, oldest first.
    pub closed spec fn queued(&self) -> Seq<u64> {
        self.history@.skip(self.reads@ as int)
    }

    /// True once the producer has published the stop sentinel.
    pub closed spec fn stopped(&self) -> bool {
        self.size == STOP_MARK
    }

    /// The raw wrapping consumer counter.
    pub closed spec fn head_counter(&self) -> u64 {
        self.head
    }

    /// The raw wrapping producer counter.
    pub closed spec fn tail_counter(&self) -> u64 {
        self.tail
    }

    /// The raw size word (capacity, or `STOP_MARK`).
    pub closed spec fn size_word(&self) -> u64 {
        self.size
    }

    /// Well-formedness: the counters are the (wrapped) totals, at most
    /// `capacity` descriptors are outstanding, and every outstanding
    /// descriptor sits in its slot at index `position % capacity`.
    pub closed spec fn wf(&self) -> bool {
        &&& self.capacity() == pow2(self.lg_cap@)
        &&& self.lg_cap@ <= max_capacity_exp()
        &&& self.mask == self.capacity() - 1
        &&& (self.size == self.capacity() || self.size == STOP_MARK)
        &&& self.reads@ <= self.history@.len()
        &&& self.history@.len() - self.reads@ <= self.capacity()
        &&& self.head == self.reads@ % counter_modulus()
        &&& self.tail == self.history@.len() % counter_modulus()
        &&& forall|j: int|
            self.reads@ <= j < self.history@.len() ==> self.slots@[j % self.capacity() as int]
                == self.history@[j]
    }

    /// Create a ring of `ring_size` slots on the heap, with `head`, `tail`
    /// zeroed and `mask == ring_size - 1`.  `ring_size` must be a power of
    /// two no larger than 2^31.
    #[verifier::loop_isolation(false)]
    pub fn new_in_heap(ring_size: u64) -> (r: Result<RingBuffer, InvalidRingSize>)
        ensures
            match r {
                Ok(rb) => {
                    &&& ring_size_ok(ring_size)
                    &&& rb.wf()
                    &&& !rb.stopped()
                    &&& rb.capacity() == ring_size
                    &&& rb.written() == Seq::<u64>::empty()
                    &&& rb.taken() == Seq::<u64>::empty()
                    &&& rb.head_counter() == 0
                    &&& rb.tail_counter() == 0
                },
                Err(e) => !ring_size_ok(ring_size) && e.0 == ring_size,
            },
    {
        let mut power: u64 = 1;
        let mut exp: u64 = 0;
        proof {
            vstd::arithmetic::power2::lemma2_to64();
        }
        while power < ring_size && exp < 31
            invariant
                power == pow2(exp as nat),
                exp <= 31,
                forall|j: nat| j < exp ==> pow2(j) < ring_size,
            decreases 31 - exp,
        {
            proof {
                lemma_pow2_pos(exp as nat);
                assert(pow2((exp + 1) as nat) == 2 * pow2(exp as nat)) by {
                    lemma_pow2_adds(exp as nat, 1);
                    vstd::arithmetic::power2::lemma2_to64();
                }
                assert(power * 2 == pow2((exp + 1) as nat));
                assert(pow2((exp + 1) as nat) <= pow2(31)) by {
                    if exp + 1 < 31 {
                        lemma_pow2_strictly_increases((exp + 1) as nat, 31);
                    }
                }
                vstd::arithmetic::power2::lemma2_to64();
                vstd::arithmetic::power2::lemma2_to64_rest();
                assert(pow2(31) == 0x80000000);
                assert forall|j: nat| j < exp + 1 implies pow2(j) < ring_size by {
                    if j < exp {
                    } else {
                        assert(pow2(j) == power);
                    }
                }
            }
            power = power * 2;
            exp = exp + 1;
        }
        if power != ring_size {
            proof {
                assert forall|k: nat| k <= max_capacity_exp() implies ring_size != pow2(k) by {
                    if k < exp as nat {
                        assert(pow2(k) < ring_size);
                    } else if k == exp as nat {
                        assert(pow2(k) == power);
                    } else {
                        lemma_pow2_strictly_increases(exp as nat, k);
                        if power < ring_size {
                            // the loop stopped because exp reached 31, so k > 31
                            assert(exp == 31);
                        } else {
                            assert(pow2(k) > power && power > ring_size);
                        }
                    }
                }
            }
            return Err(InvalidRingSize(ring_size));
        }
        let mut slots: Vec<u64> = Vec::new();
        let mut i: u64 = 0;
        while i < ring_size
            invariant
                slots@.len() == i,
                i <= ring_size,
            decreases ring_size - i,
        {
            slots.push(0);
            i = i + 1;
        }
        let rb = RingBuffer {
            head: 0,
            tail: 0,
            size: ring_size,
            mask: ring_size - 1,
            slots,
            history: Ghost(Seq::empty()),
            reads: Ghost(0),
            lg_cap: Ghost(exp as nat),
        };
        proof {
            lemma_pow2_pos(exp as nat);
            assert(0nat % counter_modulus() == 0) by {
                lemma_small_mod(0, counter_modulus());
                lemma_pow2_pos(64);
            }
            assert(ring_size_ok(ring_size));
        }
        Ok(rb)
    }

    /// Copy as many of `mbufs` as fit into the ring, advancing `tail`.
    /// Exactly `min(mbufs.len(), capacity - queued)` descriptors are
    /// accepted, in order; the rest are the caller's to retry.
    ///
    /// In the shared deployment the slot stores must be ordered before the
    /// `tail` store (release), so the consumer sees the data it is handed.
    #[verifier::loop_isolation(false)]
    pub fn write_at_tail(&mut self, mbufs: &Vec<u64>) -> (n: usize)
        requires
            old(self).wf(),
            !old(self).stopped(),
        ensures
            final(self).wf(),
            !final(self).stopped(),
            final(self).capacity() == old(self).capacity(),
            n == vstd::math::min(
                mbufs@.len() as int,
                old(self).capacity() as int - old(self).queued().len() as int,
            ),
            final(self).written() == old(self).written() + mbufs@.take(n as int),
            final(self).taken() == old(self).taken(),
            final(self).queued() == old(self).queued() + mbufs@.take(n as int),
            final(self).tail_counter() == vstd::wrapping::u64_specs::wrapping_add(
                old(self).tail_counter(),
                n as u64,
            ),
            final(self).head_counter() == old(self).head_counter(),
            final(self).size_word() == old(self).size_word(),
    {
        proof {
            lemma_pow2_pos(64);
            lemma_pow2_pos(old(self).lg_cap@);
            vstd::arithmetic::power2::lemma2_to64();
            vstd::arithmetic::power2::lemma2_to64_rest();
            if old(self).lg_cap@ < 31 {
                lemma_pow2_strictly_increases(old(self).lg_cap@, 31);
            }
        }
        let ghost base = self.history@.len();
        let ghost reads = self.reads@;
        let ghost cap = self.capacity();
        let avail: u64 = self.size.wrapping_add(self.head).wrapping_sub(self.tail);
        proof {
            lemma_wrap_gap(self.size as nat + reads, base, self.head, self.tail, self.size);
            assert(avail == cap + reads - base);
        }
        let to_write: usize = if mbufs.len() < avail as usize {
            mbufs.len()
        } else {
            avail as usize
        };
        let mut i: usize = 0;
        while i < to_write
            invariant
                self.wf_write_loop(*old(self), mbufs@, i as nat, to_write as nat),
            decreases to_write - i,
        {
            let idx: usize = ((self.tail.wrapping_add(i as u64)) & self.mask) as usize;
            proof {
                lemma_wrap_then_mask(base + i as nat, self.tail, i as nat, self.lg_cap@, cap);
                assert(idx == (base + i) % cap as int);
                lemma_mod_bound((base + i) as int, cap as int);
                // the write lands on no live descriptor's slot
                assert forall|j: int| reads <= j < base + i implies (base + i) % cap as int
                    != #[trigger] (j % cap as int) by {
                    lemma_distinct_slots(j as nat, base + i as nat, cap);
                }
            }
            let v: u64 = mbufs[i];
            self.slots.set(idx, v);
            proof {
                self.history@ = self.history@.push(v);
                assert(mbufs@.take(i + 1) =~= mbufs@.take(i as int).push(v));
                assert(self.history@ =~= old(self).history@ + mbufs@.take(i + 1));
            }
            i = i + 1;
        }
        self.tail = self.tail.wrapping_add(to_write as u64);
        proof {
            lemma_wrap_add(base, to_write as nat, old(self).tail);
            assert(self.history@ == old(self).history@ + mbufs@.take(to_write as int));
            assert(self.taken() =~= old(self).taken());
            assert(self.queued() =~= old(self).queued() + mbufs@.take(to_write as int));
        }
        to_write
    }

    /// The producer-side loop invariant of `write_at_tail`.
    spec fn wf_write_loop(&self, pre: RingBuffer, input: Seq<u64>, i: nat, limit: nat) -> bool {
        &&& i <= limit <= input.len()
        &&& pre.wf()
        &&& self.head == pre.head
        &&& self.tail == pre.tail
        &&& self.size == pre.size
        &&& self.mask == pre.mask
        &&& self.lg_cap == pre.lg_cap
        &&& self.reads == pre.reads
        &&& self.slots@.len() == pre.slots@.len()
        &&& self.history@ == pre.history@ + input.take(i as int)
        &&& limit + pre.history@.len() - pre.reads@ <= pre.capacity()
        &&& forall|j: int|
            self.reads@ <= j < self.history@.len() ==> self.slots@[j % self.capacity() as int]
                == self.history@[j]
    }

    /// Take up to `want` descriptors off the ring, advancing `head` — unless
    /// the stop sentinel is set, in which case nothing is read and the
    /// consumer is told to terminate.
    ///
    /// In the shared deployment the slot loads must be ordered before the
    /// `head` store (release), so the producer cannot overwrite a slot that
    /// is still being read.
    #[verifier::loop_isolation(false)]
    pub fn read_from_head(&mut self, want: usize) -> (r: RingPoll)
        requires
            old(self).wf(),
        ensures
            final(self).wf(),
            final(self).stopped() == old(self).stopped(),
            final(self).capacity() == old(self).capacity(),
            final(self).written() == old(self).written(),
            match r {
                RingPoll::Stopped => old(self).stopped() && *final(self) == *old(self),
                RingPoll::Received(v) => {
                    &&& !old(self).stopped()
                    &&& v@.len() == vstd::math::min(want as int, old(self).queued().len() as int)
                    &&& v@ == old(self).queued().take(v@.len() as int)
                    &&& final(self).taken() == old(self).taken() + v@
                    &&& final(self).queued() == old(self).queued().skip(v@.len() as int)
                    &&& final(self).head_counter() == vstd::wrapping::u64_specs::wrapping_add(
                        old(self).head_counter(),
                        v@.len() as u64,
                    )
                    &&& final(self).tail_counter() == old(self).tail_counter()
                    &&& final(self).size_word() == old(self).size_word()
                },
            },
    {
        proof {
            lemma_pow2_pos(64);
            lemma_pow2_pos(old(self).lg_cap@);
            vstd::arithmetic::power2::lemma2_to64();
            vstd::arithmetic::power2::lemma2_to64_rest();
            if old(self).lg_cap@ < 31 {
                lemma_pow2_strictly_increases(old(self).lg_cap@, 31);
            }
        }
        if self.size == STOP_MARK {
            return RingPoll::Stopped;
        }
        let ghost base = self.history@.len();
        let ghost reads0 = self.reads@;
        let ghost cap = self.capacity();
        let avail: u64 = self.tail.wrapping_sub(self.head);
        proof {
            lemma_wrap_diff(base, reads0, self.tail, self.head);
            assert(avail == base - reads0);
        }
        let to_read: usize = if want < avail as usize {
            want
        } else {
            avail as usize
        };
        let mut out: Vec<u64> = Vec::new();
        let mut i: usize = 0;
        while i < to_read
            invariant
                self == old(self),
                self.wf(),
                !self.stopped(),
                base == self.history@.len(),
                reads0 == self.reads@,
                cap == self.capacity(),
                i <= to_read,
                to_read <= base - reads0,
                out@ == self.queued().take(i as int),
            decreases to_read - i,
        {
            let idx: usize = ((self.head.wrapping_add(i as u64)) & self.mask) as usize;
            proof {
                lemma_wrap_then_mask(reads0 + i as nat, self.head, i as nat, self.lg_cap@, cap);
                lemma_mod_bound((reads0 + i) as int, cap as int);
                assert(self.slots@[(reads0 + i) % cap as int] == self.history@[reads0 as int + i]);
            }
            let v: u64 = self.slots[idx];
            out.push(v);
            proof {
                assert(self.queued().take(i + 1) == self.queued().take(i as int).push(
                    self.history@[reads0 as int + i],
                ));
            }
            i = i + 1;
        }
        self.head = self.head.wrapping_add(to_read as u64);
        proof {
            self.reads@ = reads0 + to_read as nat;
            lemma_wrap_add(reads0, to_read as nat, old(self).head);
            assert(out@ == old(self).queued().take(to_read as int));
            assert(self.taken() =~= old(self).taken() + out@);
            assert(self.queued() =~= old(self).queued().skip(to_read as int));
            assert forall|j: int| self.reads@ <= j < self.history@.len() implies self.slots@[j
                % self.capacity() as int] == self.history@[j] by {}
        }
        RingPoll::Received(out)
    }

    /// Publish the stop sentinel in the `size` word.  Every subsequent
    /// `read_from_head` observes it and reports `Stopped`.
    ///
    /// In the shared deployment this store must be a release store.
    pub fn publish_stop(&mut self)
        requires
            old(self).wf(),
        ensures
            final(self).wf(),
            final(self).stopped(),
            final(self).capacity() == old(self).capacity(),
            final(self).written() == old(self).written(),
            final(self).taken() == old(self).taken(),
            final(self).queued() == old(self).queued(),
            final(self).head_counter() == old(self).head_counter(),
            final(self).tail_counter() == old(self).tail_counter(),
    {
        self.size = STOP_MARK;
    }

    /// The consumer counter.
    pub fn head(&self) -> (r: u64)
        ensures
            r == self.head_counter(),
    {
        self.head
    }

    /// The producer counter.
    pub fn tail(&self) -> (r: u64)
        ensures
            r == self.tail_counter(),
    {
        self.tail
    }

    /// The size word: the capacity, or `STOP_MARK` once stopped.
    pub fn size(&self) -> (r: u64)
        requires
            self.wf(),
        ensures
            r == self.size_word(),
            self.stopped() ==> r == STOP_MARK,
            !self.stopped() ==> r == self.capacity(),
    {
        self.size
    }

    /// The index mask, `capacity - 1`.
    pub fn mask(&self) -> (r: u64)
        requires
            self.wf(),
        ensures
            r == self.capacity() - 1,
    {
        self.mask
    }

    /// The size word again, under the conventional name.
    pub fn len(&self) -> (r: u64)
        requires
            self.wf(),
        ensures
            r == self.size_word(),
    {
        self.size
    }

    /// How many descriptors are queued right now.
    pub fn available(&self) -> (r: u64)
        requires
            self.wf(),
        ensures
            r == self.queued().len(),
    {
        proof {
            lemma_pow2_pos(64);
            lemma_pow2_strictly_increases(self.lg_cap@, 64);
            lemma_wrap_diff(self.history@.len(), self.reads@, self.tail, self.head);
        }
        self.tail.wrapping_sub(self.head)
    }

    /// Reset both counters; the ring forgets everything it carried.
    pub fn clear(&mut self)
        requires
            old(self).wf(),
        ensures
            final(self).wf(),
            final(self).stopped() == old(self).stopped(),
            final(self).capacity() == old(self).capacity(),
            final(self).written() == Seq::<u64>::empty(),
            final(self).taken() == Seq::<u64>::empty(),
            final(self).head_counter() == 0,
            final(self).tail_counter() == 0,
    {
        proof {
            lemma_pow2_pos(64);
        }
        self.head = 0;
        self.tail = 0;
        proof {
            self.history@ = Seq::empty();
            self.reads@ = 0;
            lemma_small_mod(0, counter_modulus());
        }
    }

    /// Conservation: everything the producer ever wrote is either already
    /// taken by the consumer or still queued, with nothing lost, duplicated
    /// or reordered.
    pub proof fn lemma_conservation(&self)
        requires
            self.wf(),
        ensures
            self.written() == self.taken() + self.queued(),
            self.written().len() == self.taken().len() + self.queued().len(),
    {
        assert(self.written() =~= self.taken() + self.queued());
    }

    /// FIFO: the sequence the consumer has read is a prefix of the sequence
    /// the producer wrote.
    pub proof fn lemma_fifo_prefix(&self)
        requires
            self.wf(),
        ensures
            self.taken() == self.written().take(self.taken().len() as int),
            self.taken().len() <= self.written().len(),
    {
    }

    /// The wrapping counters are the true totals reduced modulo 2^64: the
    /// consumer counter counts every descriptor ever taken, the producer
    /// counter every descriptor ever written.
    pub proof fn lemma_counters_track_totals(&self)
        requires
            self.wf(),
        ensures
            self.head_counter() == self.taken().len() % counter_modulus(),
            self.tail_counter() == self.written().len() % counter_modulus(),
    {
    }

    /// Bounded queue: in wrapping arithmetic, `tail - head` is the number of
    /// queued descriptors and never exceeds the capacity.
    pub proof fn lemma_bounded_queue(&self)
        requires
            self.wf(),
        ensures
            vstd::wrapping::u64_specs::wrapping_sub(self.tail_counter(), self.head_counter())
                == self.queued().len(),
            self.queued().len() <= self.capacity(),
    {
        lemma_pow2_pos(64);
        lemma_pow2_strictly_increases(self.lg_cap@, 64);
        lemma_wrap_diff(self.history@.len(), self.reads@, self.tail, self.head);
    }
}

/// `(a % 2^64) + b` under wrapping addition equals `(a + b) % 2^64`.
proof fn lemma_wrap_add(a: nat, b: nat, wrapped: u64)
    requires
        wrapped == a % counter_modulus(),
        b < counter_modulus(),
    ensures
        vstd::wrapping::u64_specs::wrapping_add(wrapped, b as u64) == (a + b) % counter_modulus(),
{
    lemma_pow2_pos(64);
    let m = counter_modulus() as int;
    vstd::arithmetic::power2::lemma2_to64_rest();
    lemma_add_mod_noop(a as int, b as int, m);
    lemma_mod_bound(a as int, m);
    lemma_mod_bound((a + b) as int, m);
    if wrapped + b < counter_modulus() {
        lemma_small_mod((wrapped + b) as nat, counter_modulus());
    } else {
        lemma_mod_sub_multiples_vanish((wrapped + b) as int, m);
        lemma_small_mod((wrapped + b - m) as nat, counter_modulus());
    }
}

/// The wrapping difference of two wrapped counters recovers their true
/// difference, provided it is less than 2^64.
proof fn lemma_wrap_diff(w: nat, r: nat, tail: u64, head: u64)
    requires
        tail == w % counter_modulus(),
        head == r % counter_modulus(),
        r <= w,
        w - r < counter_modulus(),
    ensures
        vstd::wrapping::u64_specs::wrapping_sub(tail, head) == w - r,
{
    lemma_pow2_pos(64);
    let m = counter_modulus() as int;
    vstd::arithmetic::power2::lemma2_to64_rest();
    lemma_sub_mod_noop(w as int, r as int, m);
    lemma_small_mod((w - r) as nat, counter_modulus());
    lemma_mod_bound(w as int, m);
    lemma_mod_bound(r as int, m);
    if tail >= head {
        lemma_small_mod((tail - head) as nat, counter_modulus());
    } else {
        lemma_mod_sub_multiples_vanish((tail - head) as int + m, m);
        lemma_small_mod((tail - head + m) as nat, counter_modulus());
    }
}

/// Free space: `size + head - tail` in wrapping arithmetic equals
/// `capacity - queued`, phrased over the true totals.
proof fn lemma_wrap_gap(cr: nat, w: nat, head: u64, tail: u64, size: u64)
    requires
        head as int == (cr - size) % (counter_modulus() as int),
        tail == w % counter_modulus(),
        w <= cr,
        size as nat <= cr,
        cr - w < counter_modulus(),
    ensures
        vstd::wrapping::u64_specs::wrapping_sub(
            vstd::wrapping::u64_specs::wrapping_add(size, head),
            tail,
        ) == cr - w,
{
    lemma_pow2_pos(64);
    vstd::arithmetic::power2::lemma2_to64_rest();
    let m = counter_modulus() as int;
    let sum = vstd::wrapping::u64_specs::wrapping_add(head, size);
    lemma_wrap_add((cr - size as nat) as nat, size as nat, head);
    assert(sum == cr % counter_modulus()) by {
        assert(vstd::wrapping::u64_specs::wrapping_add(head, size)
            == vstd::wrapping::u64_specs::wrapping_add(size, head));
    }
    assert(vstd::wrapping::u64_specs::wrapping_add(size, head) == cr % counter_modulus());
    lemma_wrap_diff(cr, w, (cr % counter_modulus()) as u64, tail);
}

/// Masking a wrapped counter with `pow2(k) - 1` yields the true counter
/// modulo the capacity `pow2(k)`.
proof fn lemma_wrap_then_mask(total: nat, wrapped: u64, i: nat, k: nat, cap: nat)
    requires
        k <= max_capacity_exp(),
        cap == pow2(k),
        wrapped as int == (total - i) % (counter_modulus() as int),
        i <= total,
        i < counter_modulus(),
    ensures
        (vstd::wrapping::u64_specs::wrapping_add(wrapped, i as u64) & (cap - 1) as u64) == total
            % cap,
{
    lemma_pow2_pos(64);
    lemma_pow2_pos(k);
    lemma_pow2_pos((64 - k) as nat);
    vstd::arithmetic::power2::lemma2_to64();
    vstd::arithmetic::power2::lemma2_to64_rest();
    let w = vstd::wrapping::u64_specs::wrapping_add(wrapped, i as u64);
    lemma_wrap_add((total - i) as nat, i, wrapped);
    assert(w == total % counter_modulus());
    lemma_u64_low_bits_mask_is_mod(w, k);
    assert(low_bits_mask(k) == (cap - 1) as nat);
    assert(w & ((cap - 1) as u64) == w % (pow2(k) as u64));
    // (total % 2^64) % 2^k == total % 2^k because 2^k divides 2^64
    lemma_pow2_adds(k, (64 - k) as nat);
    assert(pow2(64) == pow2(k) * pow2((64 - k) as nat));
    lemma_mod_mod(total as int, cap as int, pow2((64 - k) as nat) as int);
    assert((total as int % (cap as int * pow2((64 - k) as nat) as int)) % cap as int == total as int
        % cap as int);
    lemma_mod_bound(total as int, cap as int);
}

/// Two distinct in-flight positions never share a slot: if `b < a` and
/// `a - b < cap` then `a % cap != b % cap`.
proof fn lemma_distinct_slots(b: nat, a: nat, cap: nat)
    requires
        cap > 0,
        b < a,
        a - b < cap,
    ensures
        a % cap != b % cap,
{
    let c = cap as int;
    lemma_sub_mod_noop(a as int, b as int, c);
    lemma_small_mod((a - b) as nat, cap);
    lemma_mod_bound(a as int, c);
    lemma_mod_bound(b as int, c);
    if a % cap == b % cap {
        assert((a % cap - b % cap) % c == 0) by {
            lemma_small_mod(0, cap);
        }
    }
}

} // verus!
