//! Ring transport: the two fixed-capacity FIFO queues that connect the
//! pipeline stages — one carrying interleaved sample words (capture to
//! encoder), one carrying encoded bytes (encoder to output sink).
//!
//! The queues themselves come from the `rtrb` crate.  Only the
//! single-element primitives on each queue are taken on trust (created
//! empty, `push` appends at the back, `pop` removes at the front); every
//! bulk operation, every sizing rule and the FIFO round-trip law are
//! verified on top of them.
//!
//! A ring is held here as one value owning both of the queue's endpoints,
//! so its contents evolve only through the operations below.  The embedding
//! application, which splits a queue's endpoints across threads, uses the
//! same `rtrb` queue directly and keeps only unverified plumbing around it.

use vstd::prelude::*;

use vstd::arithmetic::div_mod::lemma_mod_decreases;
use vstd::arithmetic::div_mod::lemma_mod_subtraction;
use vstd::arithmetic::div_mod::lemma_mod_twice;

verus! {

#[verifier::external_type_specification]
#[verifier::external_body]
#[verifier::reject_recursive_types(T)]
pub struct ExProducer<T>(rtrb::Producer<T>);

#[verifier::external_type_specification]
#[verifier::external_body]
#[verifier::reject_recursive_types(T)]
pub struct ExConsumer<T>(rtrb::Consumer<T>);

/// The encoded bytes a byte ring currently holds, oldest first.
pub uninterp spec fn byte_ring_contents(r: ByteRing) -> Seq<u8>;

/// The fixed slot count a byte ring was created with.
pub uninterp spec fn byte_ring_capacity(r: ByteRing) -> nat;

/// The sample words a sample ring currently holds, oldest first.
pub uninterp spec fn sample_ring_contents(r: SampleRing) -> Seq<u32>;

/// The fixed slot count a sample ring was created with.
pub uninterp spec fn sample_ring_capacity(r: SampleRing) -> nat;

/// Fixed-capacity FIFO queue of encoded bytes (encoder to output sink).
pub struct ByteRing {
    producer: rtrb::Producer<u8>,
    consumer: rtrb::Consumer<u8>,
    cap: usize,
}

/// Fixed-capacity FIFO queue of interleaved sample words (capture to
/// encoder).  Each word is the little-endian bit pattern of one 32-bit
/// float sample.
pub struct SampleRing {
    producer: rtrb::Producer<u32>,
    consumer: rtrb::Consumer<u32>,
    cap: usize,
}

impl ByteRing {
    /// Relies on `rtrb::RingBuffer::new`: allocates a queue of exactly
    /// `capacity` slots that starts empty.
    #[verifier::external_body]
    pub fn new(capacity: usize) -> (r: ByteRing)
        ensures
            byte_ring_contents(r) == Seq::<u8>::empty(),
            byte_ring_capacity(r) == capacity,
    {
        let (producer, consumer) = rtrb::RingBuffer::new(capacity);
        ByteRing { producer, consumer, cap: capacity }
    }

    /// Relies on `rtrb::Consumer::slots`: reports how many elements are
    /// queued for reading, never more than the queue's capacity.
    #[verifier::external_body]
    pub fn len(&self) -> (n: usize)
        ensures
            n == byte_ring_contents(*self).len(),
            n <= byte_ring_capacity(*self),
    {
        self.consumer.slots()
    }

    /// Relies on the capacity recorded at construction never changing.
    #[verifier::external_body]
    pub fn capacity(&self) -> (n: usize)
        ensures
            n == byte_ring_capacity(*self),
    {
        self.cap
    }

    /// Relies on `rtrb::Producer::push`: appends the element at the back
    /// when a free slot exists, fails (leaving the queue unchanged) only
    /// when the queue is full.
    #[verifier::external_body]
    fn push_one(&mut self, v: u8) -> (ok: bool)
        ensures
            byte_ring_capacity(*final(self)) == byte_ring_capacity(*old(self)),
            ok ==> byte_ring_contents(*final(self)) == byte_ring_contents(*old(self)).push(v),
            ok ==> byte_ring_contents(*old(self)).len() < byte_ring_capacity(*old(self)),
            !ok ==> byte_ring_contents(*final(self)) == byte_ring_contents(*old(self)),
            !ok ==> byte_ring_contents(*old(self)).len() == byte_ring_capacity(*old(self)),
            byte_ring_contents(*old(self)).len() < byte_ring_capacity(*old(self)) ==> ok,
    {
        self.producer.push(v).is_ok()
    }

    /// Relies on `rtrb::Consumer::pop`: removes and returns the oldest
    /// element, failing (leaving the queue unchanged) only when empty.
    #[verifier::external_body]
    fn pop_one(&mut self) -> (v: Option<u8>)
        ensures
            byte_ring_capacity(*final(self)) == byte_ring_capacity(*old(self)),
            byte_ring_contents(*old(self)).len() > 0 ==> v == Some(
                byte_ring_contents(*old(self))[0],
            ) && byte_ring_contents(*final(self)) == byte_ring_contents(*old(self)).drop_first(),
            byte_ring_contents(*old(self)).len() == 0 ==> v is None && byte_ring_contents(
                *final(self),
            ) == byte_ring_contents(*old(self)),
    {
        self.consumer.pop().ok()
    }

    /// Copies as much of `data` as the free capacity allows into the queue,
    /// in order, and reports how many bytes were taken.
    pub fn try_write(&mut self, data: &[u8]) -> (n: usize)
        ensures
            byte_ring_capacity(*final(self)) == byte_ring_capacity(*old(self)),
            n == spec_accepted(
                data@.len(),
                byte_ring_contents(*old(self)).len(),
                byte_ring_capacity(*old(self)),
            ),
            byte_ring_contents(*final(self)) == byte_ring_contents(*old(self)) + data@.take(
                n as int,
            ),
    {
        let mut i: usize = 0;
        let ghost orig = *self;
        proof {
            assert(byte_ring_contents(orig) + data@.take(0) =~= byte_ring_contents(orig));
        }
        while i < data.len()
            invariant
                i <= data@.len(),
                byte_ring_capacity(*self) == byte_ring_capacity(orig),
                byte_ring_contents(*self) == byte_ring_contents(orig) + data@.take(i as int),
                i > 0 ==> byte_ring_contents(orig).len() + i <= byte_ring_capacity(orig),
            ensures
                byte_ring_capacity(*self) == byte_ring_capacity(orig),
                byte_ring_contents(*self) == byte_ring_contents(orig) + data@.take(i as int),
                i > 0 ==> byte_ring_contents(orig).len() + i <= byte_ring_capacity(orig),
                i == data@.len() || byte_ring_contents(*self).len() == byte_ring_capacity(orig),
            decreases data@.len() - i,
        {
            if !self.push_one(data[i]) {
                break ;
            }
            proof {
                assert(byte_ring_contents(orig) + data@.take(i + 1) =~= (byte_ring_contents(orig)
                    + data@.take(i as int)).push(data@[i as int]));
            }
            i = i + 1;
        }
        i
    }

    /// Removes up to `max` of the oldest bytes and returns them in queue
    /// order; fewer come back only when the queue runs out.
    pub fn read_up_to(&mut self, max: usize) -> (out: Vec<u8>)
        ensures
            byte_ring_capacity(*final(self)) == byte_ring_capacity(*old(self)),
            out@.len() == if max as nat <= byte_ring_contents(*old(self)).len() {
                max as nat
            } else {
                byte_ring_contents(*old(self)).len()
            },
            out@ == byte_ring_contents(*old(self)).take(out@.len() as int),
            byte_ring_contents(*final(self)) == byte_ring_contents(*old(self)).skip(
                out@.len() as int,
            ),
    {
        let mut out: Vec<u8> = Vec::new();
        let ghost orig = *self;
        proof {
            assert(byte_ring_contents(orig).take(0) =~= out@);
            assert(byte_ring_contents(orig).skip(0) =~= byte_ring_contents(orig));
        }
        loop
            invariant
                out@.len() <= max,
                out@.len() <= byte_ring_contents(orig).len(),
                byte_ring_capacity(*self) == byte_ring_capacity(orig),
                out@ == byte_ring_contents(orig).take(out@.len() as int),
                byte_ring_contents(*self) == byte_ring_contents(orig).skip(out@.len() as int),
            ensures
                byte_ring_capacity(*self) == byte_ring_capacity(orig),
                out@ == byte_ring_contents(orig).take(out@.len() as int),
                byte_ring_contents(*self) == byte_ring_contents(orig).skip(out@.len() as int),
                out@.len() == if max as nat <= byte_ring_contents(orig).len() {
                    max as nat
                } else {
                    byte_ring_contents(orig).len()
                },
            decreases max - out@.len(),
        {
            if out.len() >= max {
                break ;
            }
            let ghost k = out@.len() as int;
            match self.pop_one() {
                Some(v) => {
                    proof {
                        assert(byte_ring_contents(orig).skip(k).len() > 0);
                        assert(byte_ring_contents(orig).skip(k)[0] == byte_ring_contents(orig)[k]);
                        assert(byte_ring_contents(orig).take(k + 1) =~= byte_ring_contents(
                            orig,
                        ).take(k).push(byte_ring_contents(orig)[k]));
                        assert(byte_ring_contents(orig).skip(k).drop_first()
                            =~= byte_ring_contents(orig).skip(k + 1));
                    }
                    out.push(v);
                },
                None => {
                    break ;
                },
            }
        }
        out
    }
}

impl SampleRing {
    /// Relies on `rtrb::RingBuffer::new`: allocates a queue of exactly
    /// `capacity` slots that starts empty.
    #[verifier::external_body]
    pub fn new(capacity: usize) -> (r: SampleRing)
        ensures
            sample_ring_contents(r) == Seq::<u32>::empty(),
            sample_ring_capacity(r) == capacity,
    {
        let (producer, consumer) = rtrb::RingBuffer::new(capacity);
        SampleRing { producer, consumer, cap: capacity }
    }

    /// Relies on `rtrb::Consumer::slots`: reports how many elements are
    /// queued for reading, never more than the queue's capacity.
    #[verifier::external_body]
    pub fn len(&self) -> (n: usize)
        ensures
            n == sample_ring_contents(*self).len(),
            n <= sample_ring_capacity(*self),
    {
        self.consumer.slots()
    }

    /// Relies on the capacity recorded at construction never changing.
    #[verifier::external_body]
    pub fn capacity(&self) -> (n: usize)
        ensures
            n == sample_ring_capacity(*self),
    {
        self.cap
    }

    /// Relies on `rtrb::Producer::push`: appends the element at the back
    /// when a free slot exists, fails (leaving the queue unchanged) only
    /// when the queue is full.
    #[verifier::external_body]
    fn push_one(&mut self, v: u32) -> (ok: bool)
        ensures
            sample_ring_capacity(*final(self)) == sample_ring_capacity(*old(self)),
            ok ==> sample_ring_contents(*final(self)) == sample_ring_contents(*old(self)).push(v),
            ok ==> sample_ring_contents(*old(self)).len() < sample_ring_capacity(*old(self)),
            !ok ==> sample_ring_contents(*final(self)) == sample_ring_contents(*old(self)),
            !ok ==> sample_ring_contents(*old(self)).len() == sample_ring_capacity(*old(self)),
            sample_ring_contents(*old(self)).len() < sample_ring_capacity(*old(self)) ==> ok,
    {
        self.producer.push(v).is_ok()
    }

    /// Relies on `rtrb::Consumer::pop`: removes and returns the oldest
    /// element, failing (leaving the queue unchanged) only when empty.
    #[verifier::external_body]
    fn pop_one(&mut self) -> (v: Option<u32>)
        ensures
            sample_ring_capacity(*final(self)) == sample_ring_capacity(*old(self)),
            sample_ring_contents(*old(self)).len() > 0 ==> v == Some(
                sample_ring_contents(*old(self))[0],
            ) && sample_ring_contents(*final(self)) == sample_ring_contents(
                *old(self),
            ).drop_first(),
            sample_ring_contents(*old(self)).len() == 0 ==> v is None && sample_ring_contents(
                *final(self),
            ) == sample_ring_contents(*old(self)),
    {
        self.consumer.pop().ok()
    }

    /// Copies exactly the first `limit` words of `data` into the queue,
    /// in order.  The caller has already checked that they fit.
    fn write_prefix(&mut self, data: &[u32], limit: usize)
        requires
            limit <= data@.len(),
            sample_ring_contents(*old(self)).len() + limit <= sample_ring_capacity(*old(self)),
        ensures
            sample_ring_capacity(*final(self)) == sample_ring_capacity(*old(self)),
            sample_ring_contents(*final(self)) == sample_ring_contents(*old(self)) + data@.take(
                limit as int,
            ),
    {
        let mut i: usize = 0;
        let ghost orig = *self;
        proof {
            assert(sample_ring_contents(orig) + data@.take(0) =~= sample_ring_contents(orig));
        }
        while i < limit
            invariant
                i <= limit,
                limit <= data@.len(),
                sample_ring_capacity(*self) == sample_ring_capacity(orig),
                sample_ring_contents(*self) == sample_ring_contents(orig) + data@.take(i as int),
                sample_ring_contents(orig).len() + limit <= sample_ring_capacity(orig),
            decreases limit - i,
        {
            assert(sample_ring_contents(*self).len() < sample_ring_capacity(*self));
            let ok = self.push_one(data[i]);
            proof {
                assert(sample_ring_contents(orig) + data@.take(i + 1) =~= (sample_ring_contents(
                    orig,
                ) + data@.take(i as int)).push(data@[i as int]));
            }
            i = i + 1;
        }
    }

    /// Removes up to `max` of the oldest words and returns them in queue
    /// order; fewer come back only when the queue runs out.
    pub fn read_up_to(&mut self, max: usize) -> (out: Vec<u32>)
        ensures
            sample_ring_capacity(*final(self)) == sample_ring_capacity(*old(self)),
            out@.len() == if max as nat <= sample_ring_contents(*old(self)).len() {
                max as nat
            } else {
                sample_ring_contents(*old(self)).len()
            },
            out@ == sample_ring_contents(*old(self)).take(out@.len() as int),
            sample_ring_contents(*final(self)) == sample_ring_contents(*old(self)).skip(
                out@.len() as int,
            ),
    {
        let mut out: Vec<u32> = Vec::new();
        let ghost orig = *self;
        proof {
            assert(sample_ring_contents(orig).take(0) =~= out@);
            assert(sample_ring_contents(orig).skip(0) =~= sample_ring_contents(orig));
        }
        loop
            invariant
                out@.len() <= max,
                out@.len() <= sample_ring_contents(orig).len(),
                sample_ring_capacity(*self) == sample_ring_capacity(orig),
                out@ == sample_ring_contents(orig).take(out@.len() as int),
                sample_ring_contents(*self) == sample_ring_contents(orig).skip(out@.len() as int),
            ensures
                sample_ring_capacity(*self) == sample_ring_capacity(orig),
                out@ == sample_ring_contents(orig).take(out@.len() as int),
                sample_ring_contents(*self) == sample_ring_contents(orig).skip(out@.len() as int),
                out@.len() == if max as nat <= sample_ring_contents(orig).len() {
                    max as nat
                } else {
                    sample_ring_contents(orig).len()
                },
            decreases max - out@.len(),
        {
            if out.len() >= max {
                break ;
            }
            let ghost k = out@.len() as int;
            match self.pop_one() {
                Some(v) => {
                    proof {
                        assert(sample_ring_contents(orig).skip(k).len() > 0);
                        assert(sample_ring_contents(orig).skip(k)[0] == sample_ring_contents(
                            orig,
                        )[k]);
                        assert(sample_ring_contents(orig).take(k + 1) =~= sample_ring_contents(
                            orig,
                        ).take(k).push(sample_ring_contents(orig)[k]));
                        assert(sample_ring_contents(orig).skip(k).drop_first()
                            =~= sample_ring_contents(orig).skip(k + 1));
                    }
                    out.push(v);
                },
                None => {
                    break ;
                },
            }
        }
        out
    }

    /// Queues normalized samples in whole-frame groups only: what fits of
    /// `data` is truncated down to a multiple of the channel count before
    /// writing, and the rest is dropped, reported as a count of dropped
    /// frames for diagnostics.  The queue never receives a partial frame.
    pub fn write_whole_frames(&mut self, data: &[u32], channels: usize) -> (res: (usize, usize))
        requires
            1 <= channels,
        ensures
            sample_ring_capacity(*final(self)) == sample_ring_capacity(*old(self)),
            res.0 as int % channels as int == 0,
            res.0 <= data@.len(),
            sample_ring_contents(*final(self)) == sample_ring_contents(*old(self)) + data@.take(
                res.0 as int,
            ),
            res.0 == spec_frame_aligned(
                spec_accepted(
                    data@.len(),
                    sample_ring_contents(*old(self)).len(),
                    sample_ring_capacity(*old(self)),
                ),
                channels as nat,
            ),
            res.1 == (data@.len() - res.0) / channels as int,
    {
        let len = self.len();
        let cap = self.capacity();
        let free = cap - len;
        let (aligned, dropped) = plan_frame_write(data.len(), free, channels);
        self.write_prefix(data, aligned);
        (aligned, dropped)
    }
}

/// Plans one whole-frame transfer on plain counts: of `available` queued
/// samples and `free` ring slots, how many samples move now — the
/// writable share truncated down to whole `channels`-sized frames — and
/// how many frames would drop were the remainder discarded.  The capture
/// path applies this per delivery so the sample queue never receives a
/// partial frame; the embedding application applies the same plan to a
/// queue whose endpoints are split across threads.
pub fn plan_frame_write(available: usize, free: usize, channels: usize) -> (r: (usize, usize))
    requires
        1 <= channels,
    ensures
        r.0 == spec_frame_aligned(
            if available <= free {
                available as nat
            } else {
                free as nat
            },
            channels as nat,
        ),
        r.0 as int % channels as int == 0,
        r.0 <= available,
        r.0 <= free,
        r.1 == (available - r.0) / channels as int,
{
    let writable = if available <= free {
        available
    } else {
        free
    };
    proof {
        lemma_mod_decreases(writable as nat, channels as nat);
    }
    let aligned = writable - writable % channels;
    proof {
        lemma_mod_subtraction(
            writable as nat,
            (writable as nat) % (channels as nat),
            channels as nat,
        );
        lemma_mod_twice(writable as int, channels as int);
    }
    let dropped = (available - aligned) / channels;
    (aligned, dropped)
}

/// `n` truncated down to a whole number of `channels`-sized frames.
pub open spec fn spec_frame_aligned(n: nat, channels: nat) -> nat {
    (n - (n % channels)) as nat
}

/// How many of `requested` elements a queue holding `len` of `cap` slots
/// accepts: everything that fits, and never more than the free space.
pub open spec fn spec_accepted(requested: nat, len: nat, cap: nat) -> nat {
    let free = if len <= cap {
        (cap - len) as nat
    } else {
        0
    };
    if requested <= free {
        requested
    } else {
        free
    }
}

/// FIFO order law, transport round trip: bytes written into an empty ring
/// and read back come out exactly as they went in — same order, nothing
/// lost, nothing duplicated.
pub fn byte_ring_round_trip(r: &mut ByteRing, data: &Vec<u8>) -> (out: Vec<u8>)
    requires
        byte_ring_contents(*old(r)).len() == 0,
        data@.len() <= byte_ring_capacity(*old(r)),
    ensures
        out@ == data@,
        byte_ring_contents(*final(r)).len() == 0,
{
    let n = r.try_write(data.as_slice());
    assert(n == data@.len());
    let out = r.read_up_to(n);
    proof {
        assert(data@.take(data@.len() as int) =~= data@);
        assert(byte_ring_contents(*old(r)) + data@ =~= data@);
    }
    out
}

/// FIFO order law, successive reads: two reads in a row return adjacent
/// front segments of the queued sequence — together they are exactly the
/// oldest `n1 + n2` elements, in order.
pub proof fn lemma_successive_reads_in_order(s: Seq<u8>, n1: int, n2: int)
    requires
        0 <= n1,
        0 <= n2,
        n1 + n2 <= s.len(),
    ensures
        s.take(n1) + s.skip(n1).take(n2) == s.take(n1 + n2),
{
    assert(s.take(n1) + s.skip(n1).take(n2) =~= s.take(n1 + n2));
}

} // verus!
