//! Output sinks: the three interchangeable consumers of the encoded byte
//! ring — raw stream emission, direct hardware staging, and live playback
//! with jitter-buffer priming.
//!
//! The destinations themselves (a pipe, a device, a playback stream) are
//! collaborators the embedding application supplies; what is verified here
//! is the policy: bytes leave in ring order, nothing already encoded is
//! discarded on a normal stop, and everything handed to a frame-based
//! destination is a whole number of frames.

use vstd::prelude::*;

use crate::encoder::OUTPUT_FRAME_BYTES;
use crate::flag::ShutdownFlag;
use crate::ring::byte_ring_capacity;
use crate::ring::byte_ring_contents;
use crate::ring::lemma_successive_reads_in_order;
use crate::ring::ByteRing;

verus! {

/// Bytes moved per read when draining the ring to a raw stream.
pub const STDOUT_READ_BUFFER_SIZE: usize = 4096;

/// A destination for encoded bytes, implemented by the embedding
/// application (a locked standard-output handle in the raw-stream mode, a
/// capturing buffer in tests).
///
/// `written` is the sink's model: every byte it has accepted, in order.
/// An implementation outside this crate is not verified against these
/// contracts; they state what the drain loop's guarantees rest on.
pub trait ByteSink {
    /// Every byte this sink has accepted, oldest first.  An
    /// implementation outside verified code can leave the model at this
    /// stock value; the drain loop reasons about it abstractly.
    open spec fn written(&self) -> Seq<u8> {
        Seq::<u8>::empty()
    }

    /// Accepts all of `data`, or fails having accepted some prefix of it.
    fn write_all(&mut self, data: &Vec<u8>) -> (r: Result<(), String>)
        ensures
            r is Ok ==> final(self).written() == old(self).written() + data@,
            r is Err ==> exists|k: int|
                0 <= k <= data@.len() && final(self).written() == old(self).written() + data@.take(
                    k,
                ),
    ;

    /// Pushes accepted bytes onward (the pipe must not buffer); accepts
    /// nothing new.
    fn flush(&mut self) -> (r: Result<(), String>)
        ensures
            final(self).written() == old(self).written(),
    ;

    /// Waits briefly for more data to arrive; accepts nothing.
    fn idle(&mut self)
        ensures
            final(self).written() == old(self).written(),
    ;
}

/// Drains the encoded byte ring into a raw-stream sink: whatever is
/// available is written out immediately and flushed, in ring order, until
/// the ring is empty — so a normal stop never discards already-encoded
/// audio.  On success the sink has accepted exactly the ring's former
/// contents; only a sink failure is returned as an error — in particular
/// an already-empty ring always drains cleanly — and the sink then holds
/// some prefix of the ring's former contents.
///
/// The ring is held here whole, so no producer can refill it mid-drain;
/// the embedding application, whose producer runs concurrently on the
/// queue's other endpoint, repeats this pass while the run continues.  One
/// idle beat is granted on an empty ring while cancellation has not been
/// requested, mirroring the push-based worker's backoff.
pub fn run_stdout_output_loop<S: ByteSink>(
    output: &mut ByteRing,
    running: &ShutdownFlag,
    writer: &mut S,
) -> (r: Result<(), String>)
    ensures
        byte_ring_capacity(*final(output)) == byte_ring_capacity(*old(output)),
        r is Ok ==> byte_ring_contents(*final(output)).len() == 0 && final(writer).written()
            == old(writer).written() + byte_ring_contents(*old(output)),
        r is Err ==> byte_ring_contents(*old(output)).len() > 0,
        r is Err ==> exists|k: int|
            0 <= k <= byte_ring_contents(*old(output)).len() && final(writer).written() == old(
                writer,
            ).written() + byte_ring_contents(*old(output)).take(k),
{
    let ghost orig = byte_ring_contents(*old(output));
    let ghost orig_written = writer.written();
    let ghost mut consumed: int = 0;
    proof {
        assert(orig.skip(0) =~= orig);
        assert(orig_written + orig.take(0) =~= orig_written);
    }
    loop
        invariant
            0 <= consumed <= orig.len(),
            orig == byte_ring_contents(*old(output)),
            orig_written == old(writer).written(),
            byte_ring_capacity(*output) == byte_ring_capacity(*old(output)),
            byte_ring_contents(*output) == orig.skip(consumed),
            writer.written() == orig_written + orig.take(consumed),
        ensures
            byte_ring_capacity(*output) == byte_ring_capacity(*old(output)),
            byte_ring_contents(*output).len() == 0,
            writer.written() == orig_written + orig,
        decreases orig.len() - consumed,
    {
        if output.len() > 0 {
            let chunk = output.read_up_to(STDOUT_READ_BUFFER_SIZE);
            proof {
                lemma_successive_reads_in_order(orig, consumed, chunk@.len() as int);
            }
            match writer.write_all(&chunk) {
                Ok(_) => {},
                Err(e) => {
                    proof {
                        let k = choose|k: int|
                            0 <= k <= chunk@.len() && writer.written() == orig_written + orig.take(
                                consumed,
                            ) + chunk@.take(k);
                        lemma_successive_reads_in_order(orig, consumed, k);
                        assert(chunk@.take(k) =~= orig.skip(consumed).take(k));
                        assert(writer.written() == orig_written + orig.take(consumed + k));
                        assert(0 <= consumed + k <= orig.len());
                        assert(orig.len() > 0);
                    }
                    return Err(e);
                },
            }
            proof {
                consumed = consumed + chunk@.len();
            }
            match writer.flush() {
                Ok(_) => {},
                Err(e) => {
                    proof {
                        assert(writer.written() == orig_written + orig.take(consumed));
                        assert(orig.len() > 0);
                    }
                    return Err(e);
                },
            }
        } else {
            if running.is_running() {
                writer.idle();
            }
            break ;
        }
    }
    proof {
        assert(consumed == orig.len());
        assert(orig.take(orig.len() as int) =~= orig);
    }
    Ok(())
}

/// Staging buffer for the direct-hardware sink: accumulates encoded bytes
/// until a whole hardware frame boundary is reached, so the device is only
/// ever handed whole frames.
pub struct FrameStager {
    buffered: Vec<u8>,
}

impl FrameStager {
    /// Bytes accepted but not yet emitted: always less than one frame.
    pub closed spec fn staged(&self) -> Seq<u8> {
        self.buffered@
    }

    /// The staging buffer never retains a whole frame.
    pub closed spec fn wf(&self) -> bool {
        self.buffered@.len() < OUTPUT_FRAME_BYTES
    }

    /// An empty stager.
    pub fn new() -> (s: FrameStager)
        ensures
            s.wf(),
            s.staged() == Seq::<u8>::empty(),
    {
        FrameStager { buffered: Vec::new() }
    }

    /// How many trailing bytes would be discarded by a shutdown now.
    pub fn pending(&self) -> (n: usize)
        ensures
            n == self.staged().len(),
    {
        self.buffered.len()
    }

    /// Frame alignment invariant: accepts incoming bytes and returns the
    /// longest whole-frame chunk now due for the device.  Nothing is lost,
    /// duplicated or reordered — the emitted chunk followed by what stays
    /// staged is exactly the staged bytes followed by the incoming ones —
    /// and every emitted chunk is a whole number of hardware frames.
    pub fn push(&mut self, incoming: &Vec<u8>) -> (emit: Vec<u8>)
        requires
            old(self).wf(),
        ensures
            final(self).wf(),
            emit@.len() as int % OUTPUT_FRAME_BYTES as int == 0,
            emit@ + final(self).staged() == old(self).staged() + incoming@,
    {
        let mut all: Vec<u8> = Vec::new();
        all.append(&mut self.buffered);
        let ghost staged0 = all@;
        let mut i: usize = 0;
        proof {
            assert(staged0 + incoming@.take(0) =~= staged0);
        }
        while i < incoming.len()
            invariant
                i <= incoming@.len(),
                all@ == staged0 + incoming@.take(i as int),
            decreases incoming@.len() - i,
        {
            proof {
                assert(staged0 + incoming@.take(i + 1) =~= (staged0 + incoming@.take(
                    i as int,
                )).push(incoming@[i as int]));
            }
            all.push(incoming[i]);
            i = i + 1;
        }
        proof {
            assert(incoming@.take(incoming@.len() as int) =~= incoming@);
        }
        let aligned = all.len() - all.len() % OUTPUT_FRAME_BYTES;
        proof {
            vstd::arithmetic::div_mod::lemma_mod_subtraction(
                all@.len(),
                all@.len() % (OUTPUT_FRAME_BYTES as nat),
                OUTPUT_FRAME_BYTES as nat,
            );
            vstd::arithmetic::div_mod::lemma_mod_twice(
                all@.len() as int,
                OUTPUT_FRAME_BYTES as int,
            );
        }
        let rest = all.split_off(aligned);
        self.buffered = rest;
        proof {
            assert(all@ + self.buffered@ =~= staged0 + incoming@);
        }
        all
    }
}

/// Frame alignment invariant, composition step: every chunk a frame-based
/// sink receives is a whole number of frames — the staging buffer and the
/// playback callback each guarantee it per delivery — so the total ever
/// delivered is one too, by this step applied delivery by delivery.
pub proof fn lemma_frame_aligned_total(delivered: int, chunk: int)
    requires
        delivered % (OUTPUT_FRAME_BYTES as int) == 0,
        chunk % (OUTPUT_FRAME_BYTES as int) == 0,
    ensures
        (delivered + chunk) % (OUTPUT_FRAME_BYTES as int) == 0,
{
    vstd::arithmetic::div_mod::lemma_add_mod_noop(delivered, chunk, OUTPUT_FRAME_BYTES as int);
}

/// How many bytes a playback callback emits: the callback's writable
/// quantum, capped by the ring capacity when one is known, rounded down to
/// a whole output frame.
pub open spec fn spec_target_write(max_writable: nat, ring_capacity: nat) -> nat {
    let capped = if ring_capacity > 0 && max_writable > ring_capacity {
        ring_capacity
    } else {
        max_writable
    };
    (capped - capped % (OUTPUT_FRAME_BYTES as nat)) as nat
}

/// The whole-frame share of the queued bytes a primed callback may emit.
pub open spec fn spec_playback_readable(available: nat, target_write: nat) -> nat {
    let capped = if available > target_write {
        target_write
    } else {
        available
    };
    (capped - capped % (OUTPUT_FRAME_BYTES as nat)) as nat
}

/// Whether the playback stream is primed after a callback: an unprimed
/// stream primes once a full quantum is queued; a primed stream un-primes
/// when not even one whole frame is available — it then falls back to
/// silence and must re-prime rather than emit a partial or stale frame.
pub open spec fn spec_primed_after(available: nat, target_write: nat, primed_before: bool) -> bool {
    let primed = primed_before || available >= target_write;
    primed && spec_playback_readable(available, target_write) > 0
}

/// One live-playback callback against the encoded byte ring.
///
/// Always emits exactly the target quantum of bytes to keep the playback
/// clock stable: the front of the ring up to the readable whole-frame
/// count when primed, zero-filled to the quantum; pure silence while
/// priming.  Returns the emitted buffer and the new priming state.
pub fn fill_playback_quantum(ring: &mut ByteRing, max_writable: usize, primed_before: bool) -> (out: (
    Vec<u8>,
    bool,
))
    ensures
        byte_ring_capacity(*final(ring)) == byte_ring_capacity(*old(ring)),
        out.0@.len() == spec_target_write(max_writable as nat, byte_ring_capacity(*old(ring))),
        out.1 == spec_primed_after(
            byte_ring_contents(*old(ring)).len(),
            spec_target_write(max_writable as nat, byte_ring_capacity(*old(ring))),
            primed_before,
        ),
        ({
            let target = spec_target_write(max_writable as nat, byte_ring_capacity(*old(ring)));
            let readable = if out.1 {
                spec_playback_readable(byte_ring_contents(*old(ring)).len(), target)
            } else {
                0
            };
            &&& readable % (OUTPUT_FRAME_BYTES as nat) == 0
            &&& out.0@ == byte_ring_contents(*old(ring)).take(readable as int) + Seq::new(
                (target - readable) as nat,
                |i: int| 0u8,
            )
            &&& byte_ring_contents(*final(ring)) == byte_ring_contents(*old(ring)).skip(
                readable as int,
            )
        }),
{
    let capacity = ring.capacity();
    let capped = if capacity > 0 && max_writable > capacity {
        capacity
    } else {
        max_writable
    };
    proof {
        vstd::arithmetic::div_mod::lemma_mod_decreases(capped as nat, OUTPUT_FRAME_BYTES as nat);
        vstd::arithmetic::div_mod::lemma_mod_subtraction(
            capped as nat,
            (capped as nat) % (OUTPUT_FRAME_BYTES as nat),
            OUTPUT_FRAME_BYTES as nat,
        );
        vstd::arithmetic::div_mod::lemma_mod_twice(capped as int, OUTPUT_FRAME_BYTES as int);
    }
    let target_write = capped - capped % OUTPUT_FRAME_BYTES;
    let available = ring.len();
    let primed = primed_before || available >= target_write;
    let readable = if primed {
        let take = if available > target_write {
            target_write
        } else {
            available
        };
        proof {
            vstd::arithmetic::div_mod::lemma_mod_decreases(take as nat, OUTPUT_FRAME_BYTES as nat);
            vstd::arithmetic::div_mod::lemma_mod_subtraction(
                take as nat,
                (take as nat) % (OUTPUT_FRAME_BYTES as nat),
                OUTPUT_FRAME_BYTES as nat,
            );
            vstd::arithmetic::div_mod::lemma_mod_twice(take as int, OUTPUT_FRAME_BYTES as int);
        }
        take - take % OUTPUT_FRAME_BYTES
    } else {
        0
    };
    let primed_after = primed && readable > 0;
    let emit_bytes = if primed_after {
        readable
    } else {
        0
    };
    let mut out = ring.read_up_to(emit_bytes);
    proof {
        assert(out@ =~= byte_ring_contents(*old(ring)).take(emit_bytes as int) + Seq::new(
            0nat,
            |i: int| 0u8,
        ));
    }
    while out.len() < target_write
        invariant
            emit_bytes <= out@.len() <= target_write,
            out@ == byte_ring_contents(*old(ring)).take(emit_bytes as int) + Seq::new(
                (out@.len() - emit_bytes) as nat,
                |i: int| 0u8,
            ),
        decreases target_write - out@.len(),
    {
        proof {
            assert(Seq::new((out@.len() + 1 - emit_bytes) as nat, |i: int| 0u8) =~= Seq::new(
                (out@.len() - emit_bytes) as nat,
                |i: int| 0u8,
            ).push(0u8));
            assert(byte_ring_contents(*old(ring)).take(emit_bytes as int) + Seq::new(
                (out@.len() + 1 - emit_bytes) as nat,
                |i: int| 0u8,
            ) =~= (byte_ring_contents(*old(ring)).take(emit_bytes as int) + Seq::new(
                (out@.len() - emit_bytes) as nat,
                |i: int| 0u8,
            )).push(0u8));
        }
        out.push(0u8);
    }
    (out, primed_after)
}

} // verus!
