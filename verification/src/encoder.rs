//! Encoder supervisor: configuration, flow-control sizing and shutdown
//! decisions for the external compressed-audio encoder process.
//!
//! The supervisor itself runs the process and its feeder/reader workers in
//! the embedding application; everything it decides — how work is sized,
//! what each observation means, which error wins at shutdown — is computed
//! here, on plain values, with contracts.

use vstd::prelude::*;

use vstd::string::StringExecFns;

use crate::ring::sample_ring_capacity;
use crate::ring::sample_ring_contents;
use crate::ring::SampleRing;
use crate::samples::samples_to_le_bytes;
use crate::samples::spec_samples_le_bytes;
use crate::text::spec_decimal;
use crate::text::usize_to_decimal;

verus! {

/// Interleaved input channels fed to the encoder.
pub const INPUT_CHANNELS: usize = 6;

/// Encoded output frame size in bytes (two 16-bit carrier channels).
pub const OUTPUT_FRAME_BYTES: usize = 4;

/// Smallest read issued against the encoder's output pipe.
pub const MIN_STDOUT_READ_BUFFER_SIZE: usize = 512;

/// Largest read issued against the encoder's output pipe.
pub const MAX_STDOUT_READ_BUFFER_SIZE: usize = 1024;

/// Immutable per-run settings for the encoder process.
///
/// Zero values are not rejected: every consumer clamps them to 1 first,
/// so a zero-depth queue or zero-frame chunk behaves exactly like 1.
#[derive(Debug, Clone)]
pub struct EncoderConfig {
    /// Input thread queue depth declared to the encoder process.
    pub ffmpeg_thread_queue_size: usize,
    /// Interleaved frames moved per feeder write.
    pub feeder_chunk_frames: usize,
    /// Whether latency profiling is collected for this run.
    pub profile_latency: bool,
}

/// All zero-or-absent configuration values are used as at least 1.
pub open spec fn clamped_min_one(v: nat) -> nat {
    if v == 0 {
        1
    } else {
        v
    }
}

impl Default for EncoderConfig {
    fn default() -> (c: EncoderConfig)
        ensures
            c.ffmpeg_thread_queue_size == 128,
            c.feeder_chunk_frames == 128,
            !c.profile_latency,
    {
        EncoderConfig {
            ffmpeg_thread_queue_size: 128,
            feeder_chunk_frames: 128,
            profile_latency: false,
        }
    }
}

impl EncoderConfig {
    /// Queue depth actually declared to the encoder process.
    pub fn effective_thread_queue_size(&self) -> (n: usize)
        ensures
            n == clamped_min_one(self.ffmpeg_thread_queue_size as nat),
    {
        if self.ffmpeg_thread_queue_size == 0 {
            1
        } else {
            self.ffmpeg_thread_queue_size
        }
    }

    /// Frames actually moved per feeder write.
    pub fn effective_chunk_frames(&self) -> (n: usize)
        ensures
            n == clamped_min_one(self.feeder_chunk_frames as nat),
    {
        if self.feeder_chunk_frames == 0 {
            1
        } else {
            self.feeder_chunk_frames
        }
    }

    /// Samples (frames times channels) moved per feeder write, kept within
    /// the machine word so the feeder's scratch buffer length is always
    /// representable.
    pub fn feeder_chunk_samples(&self) -> (n: usize)
        ensures
            n == spec_feeder_chunk_samples(self),
    {
        let frames = self.effective_chunk_frames();
        if frames <= usize::MAX / INPUT_CHANNELS {
            frames * INPUT_CHANNELS
        } else {
            (usize::MAX / INPUT_CHANNELS) * INPUT_CHANNELS
        }
    }
}

/// Samples moved per feeder write: the clamped frame count times the
/// channel count, saturated to what a machine word can address.
pub open spec fn spec_feeder_chunk_samples(c: &EncoderConfig) -> nat {
    let frames = clamped_min_one(c.feeder_chunk_frames as nat);
    if frames <= usize::MAX as nat / (INPUT_CHANNELS as nat) {
        frames * (INPUT_CHANNELS as nat)
    } else {
        (usize::MAX as nat / (INPUT_CHANNELS as nat)) * (INPUT_CHANNELS as nat)
    }
}

/// Read size for the encoder's output pipe: an eighth of the output ring's
/// capacity, clamped to the fixed floor and ceiling, rounded down to a
/// whole output frame.
pub open spec fn spec_stdout_read_buffer_size(output_capacity: nat) -> nat {
    let eighth = output_capacity / 8;
    let clamped = if eighth < MIN_STDOUT_READ_BUFFER_SIZE as nat {
        MIN_STDOUT_READ_BUFFER_SIZE as nat
    } else if eighth > MAX_STDOUT_READ_BUFFER_SIZE as nat {
        MAX_STDOUT_READ_BUFFER_SIZE as nat
    } else {
        eighth
    };
    (clamped - (clamped % (OUTPUT_FRAME_BYTES as nat))) as nat
}

/// Sizes the bounded read issued against the encoder's output pipe so that
/// draining it cannot flood the output ring in one burst.
///
/// The result is always a positive whole number of output frames.
pub fn stdout_read_buffer_size(output_capacity: usize) -> (n: usize)
    ensures
        n == spec_stdout_read_buffer_size(output_capacity as nat),
        n % OUTPUT_FRAME_BYTES == 0,
        MIN_STDOUT_READ_BUFFER_SIZE - OUTPUT_FRAME_BYTES < n <= MAX_STDOUT_READ_BUFFER_SIZE,
{
    let eighth = output_capacity / 8;
    let clamped = if eighth < MIN_STDOUT_READ_BUFFER_SIZE {
        MIN_STDOUT_READ_BUFFER_SIZE
    } else if eighth > MAX_STDOUT_READ_BUFFER_SIZE {
        MAX_STDOUT_READ_BUFFER_SIZE
    } else {
        eighth
    };
    clamped - (clamped % OUTPUT_FRAME_BYTES)
}

/// The encoder process invocation for one run: raw interleaved
/// little-endian 32-bit float input at 48 kHz on 6 channels from its
/// standard input, a compressed stream framed for digital transport at the
/// fixed maximum bitrate on its standard output, with probing, analysis
/// and internal buffering disabled and every packet flushed immediately.
pub open spec fn spec_encoder_args(thread_queue_size: nat) -> Seq<Seq<char>> {
    seq![
        "-y"@,
        "-f"@,
        "f32le"@,
        "-ar"@,
        "48000"@,
        "-ac"@,
        "6"@,
        "-i"@,
        "pipe:0"@,
        "-c:a"@,
        "ac3"@,
        "-b:a"@,
        "640k"@,
        "-f"@,
        "spdif"@,
        "-fflags"@,
        "+nobuffer"@,
        "-flags"@,
        "+low_delay"@,
        "-probesize"@,
        "32"@,
        "-analyzeduration"@,
        "0"@,
        "-flush_packets"@,
        "1"@,
        "-avioflags"@,
        "direct"@,
        "-thread_queue_size"@,
        spec_decimal(thread_queue_size),
        "pipe:1"@,
    ]
}

/// The argument list the encoder process is launched with, carrying the
/// clamped input queue depth.  The embedding application spawns the
/// process with exactly these arguments and owns its pipes.
pub fn encoder_command_args(config: &EncoderConfig) -> (args: Vec<String>)
    ensures
        args.deep_view() == spec_encoder_args(
            clamped_min_one(config.ffmpeg_thread_queue_size as nat),
        ),
{
    let queue = config.effective_thread_queue_size();
    let mut args: Vec<String> = Vec::new();
    args.push(String::from_str("-y"));
    args.push(String::from_str("-f"));
    args.push(String::from_str("f32le"));
    args.push(String::from_str("-ar"));
    args.push(String::from_str("48000"));
    args.push(String::from_str("-ac"));
    args.push(String::from_str("6"));
    args.push(String::from_str("-i"));
    args.push(String::from_str("pipe:0"));
    args.push(String::from_str("-c:a"));
    args.push(String::from_str("ac3"));
    args.push(String::from_str("-b:a"));
    args.push(String::from_str("640k"));
    args.push(String::from_str("-f"));
    args.push(String::from_str("spdif"));
    args.push(String::from_str("-fflags"));
    args.push(String::from_str("+nobuffer"));
    args.push(String::from_str("-flags"));
    args.push(String::from_str("+low_delay"));
    args.push(String::from_str("-probesize"));
    args.push(String::from_str("32"));
    args.push(String::from_str("-analyzeduration"));
    args.push(String::from_str("0"));
    args.push(String::from_str("-flush_packets"));
    args.push(String::from_str("1"));
    args.push(String::from_str("-avioflags"));
    args.push(String::from_str("direct"));
    args.push(String::from_str("-thread_queue_size"));
    args.push(usize_to_decimal(queue));
    args.push(String::from_str("pipe:1"));
    proof {
        assert(args.deep_view() =~~= spec_encoder_args(
            clamped_min_one(config.ffmpeg_thread_queue_size as nat),
        ));
    }
    args
}

/// One feeder pass: claims up to `max_samples` of the oldest queued
/// sample words and serializes them to the little-endian byte stream the
/// encoder process reads.  The embedding application writes these bytes
/// to the process input pipe in full and flushes at once.
pub fn take_feeder_batch(input: &mut SampleRing, max_samples: usize) -> (bytes: Vec<u8>)
    ensures
        sample_ring_capacity(*final(input)) == sample_ring_capacity(*old(input)),
        ({
            let k = if max_samples as nat <= sample_ring_contents(*old(input)).len() {
                max_samples as nat
            } else {
                sample_ring_contents(*old(input)).len()
            };
            &&& bytes@ == spec_samples_le_bytes(sample_ring_contents(*old(input)).take(k as int))
            &&& bytes@.len() == 4 * k
            &&& sample_ring_contents(*final(input)) == sample_ring_contents(*old(input)).skip(
                k as int,
            )
        }),
{
    let samples = input.read_up_to(max_samples);
    samples_to_le_bytes(&samples)
}

/// Transport round trip across the capture side: whole frames queued into
/// an empty sample ring come back out of the feeder as exactly their
/// little-endian serialization — same order, nothing lost, nothing
/// duplicated — between the capture callback and the encoder's input pipe.
pub fn capture_to_feeder_round_trip(ring: &mut SampleRing, frames: &Vec<u32>) -> (bytes: Vec<u8>)
    requires
        sample_ring_contents(*old(ring)).len() == 0,
        frames@.len() as int % 6 == 0,
        frames@.len() <= sample_ring_capacity(*old(ring)),
    ensures
        bytes@ == spec_samples_le_bytes(frames@),
        bytes@.len() == 4 * frames@.len(),
        sample_ring_contents(*final(ring)).len() == 0,
{
    let (written, _) = ring.write_whole_frames(frames.as_slice(), INPUT_CHANNELS);
    assert(written == frames@.len());
    proof {
        assert(sample_ring_contents(*ring) =~= frames@);
    }
    let bytes = take_feeder_batch(ring, written);
    proof {
        assert(frames@.take(frames@.len() as int) =~= frames@);
    }
    bytes
}

/// Expected-shutdown noise rule, applied per observation: a pipe read,
/// write or close failure seen while the run is live is fatal and keeps
/// its message; the same failure seen after cancellation was requested is
/// suppressed — tearing the pipeline down is then intentional.
pub fn classify_pipe_error(running: bool, message: String) -> (r: Option<String>)
    ensures
        running ==> r == Some(message),
        !running ==> r is None,
{
    if running {
        Some(message)
    } else {
        None
    }
}

/// What the reader does when the output ring has no room for the next
/// byte.
#[derive(Debug, Clone, Copy, PartialEq, Eq)]
pub enum BackpressureAction {
    /// Back off briefly and try the same byte again.
    RetryLater,
    /// Abandon the remaining bytes of this read.
    Abandon,
}

/// The reader's primary backpressure point: while the run is live a full
/// output ring means back off and retry; once cancellation is requested
/// the remaining bytes are abandoned instead — the drain side of the
/// pipeline may already be gone, so room may never appear again.
pub fn backpressure_action(running: bool) -> (a: BackpressureAction)
    ensures
        a is Abandon <==> !running,
        a is RetryLater <==> running,
{
    if running {
        BackpressureAction::RetryLater
    } else {
        BackpressureAction::Abandon
    }
}

/// Why an encoder run ended badly, in the order the conditions are
/// checked.
#[derive(Debug, Clone, PartialEq, Eq)]
pub enum EncoderFailure {
    /// A worker hit a fatal pipe or status error while the run was live.
    Pipeline(String),
    /// The process outlived its shutdown deadline and was killed.
    KilledAfterTimeout,
    /// The process exited on its own with a non-success status.
    ExitFailure,
}

/// The supervisor's final verdict, from what the drain phase observed.
///
/// Every fatal condition is suppressed when cancellation was requested
/// before the end of the run: tearing the process down is then
/// intentional, and whatever broke while doing so is expected noise.
/// Shutdown bound, result half: a cancelled run never reports an error.
/// While the run was still live, the first worker error wins, then a
/// forced kill after the shutdown deadline, then a non-success exit.
pub fn finalize_encoder_outcome(
    running: bool,
    first_error: Option<String>,
    forced_kill: bool,
    exit_ok: Option<bool>,
) -> (r: Result<(), EncoderFailure>)
    ensures
        !running ==> r is Ok,
        running && first_error is Some ==> r == Result::<(), EncoderFailure>::Err(
            EncoderFailure::Pipeline(first_error->Some_0),
        ),
        running && first_error is None && forced_kill ==> r == Result::<(), EncoderFailure>::Err(
            EncoderFailure::KilledAfterTimeout,
        ),
        running && first_error is None && !forced_kill && exit_ok == Some(false) ==> r
            == Result::<(), EncoderFailure>::Err(EncoderFailure::ExitFailure),
        running && first_error is None && !forced_kill && (exit_ok is None || exit_ok == Some(
            true,
        )) ==> r is Ok,
{
    if !running {
        return Ok(());
    }
    match first_error {
        Some(message) => Err(EncoderFailure::Pipeline(message)),
        None => {
            if forced_kill {
                Err(EncoderFailure::KilledAfterTimeout)
            } else {
                match exit_ok {
                    Some(false) => Err(EncoderFailure::ExitFailure),
                    _ => Ok(()),
                }
            }
        },
    }
}

/// How a whole run ended: which of the two pipeline halves failed first,
/// or both during shutdown.
#[derive(Debug, Clone, PartialEq, Eq)]
pub enum RunFailure {
    /// The capture/output path failed.
    Capture(String),
    /// The encoder path failed.
    Encoder(String),
    /// The capture/output path failed, and the encoder path also failed
    /// while it was being handled.
    Both(String, String),
}

/// Aggregates the run's two results into the single verdict the caller
/// sees: success only when both halves succeeded, and a combined failure
/// when the encoder also broke while a capture failure was being handled.
pub fn combine_run_results(capture_error: Option<String>, encoder_error: Option<String>) -> (r:
    Result<(), RunFailure>)
    ensures
        capture_error is None && encoder_error is None <==> r is Ok,
        capture_error is Some && encoder_error is None ==> r == Result::<(), RunFailure>::Err(
            RunFailure::Capture(capture_error->Some_0),
        ),
        capture_error is None && encoder_error is Some ==> r == Result::<(), RunFailure>::Err(
            RunFailure::Encoder(encoder_error->Some_0),
        ),
        capture_error is Some && encoder_error is Some ==> r == Result::<(), RunFailure>::Err(
            RunFailure::Both(capture_error->Some_0, encoder_error->Some_0),
        ),
{
    match (capture_error, encoder_error) {
        (None, None) => Ok(()),
        (Some(c), None) => Err(RunFailure::Capture(c)),
        (None, Some(e)) => Err(RunFailure::Encoder(e)),
        (Some(c), Some(e)) => Err(RunFailure::Both(c, e)),
    }
}

/// Clamping law: configuration fields written as zero behave identically
/// to the same fields written as one — every derived quantity agrees.
pub proof fn lemma_zero_config_behaves_as_one(zero: EncoderConfig, one: EncoderConfig)
    requires
        zero.ffmpeg_thread_queue_size == 0,
        zero.feeder_chunk_frames == 0,
        one.ffmpeg_thread_queue_size == 1,
        one.feeder_chunk_frames == 1,
    ensures
        clamped_min_one(zero.ffmpeg_thread_queue_size as nat) == clamped_min_one(
            one.ffmpeg_thread_queue_size as nat,
        ),
        clamped_min_one(zero.feeder_chunk_frames as nat) == clamped_min_one(
            one.feeder_chunk_frames as nat,
        ),
        spec_feeder_chunk_samples(&zero) == spec_feeder_chunk_samples(&one),
{
}

} // verus!
