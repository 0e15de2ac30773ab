//! Frame normalizer: turns a capture-supplied byte buffer of declared
//! offset, size and layout into canonical interleaved 6-channel samples.
//!
//! Three layouts are tolerated: a single per-channel plane of 32-bit
//! floats, a single interleaved float plane with a known channel count,
//! and a strided plane whose channel count and sample format are inferred
//! from the stride.  Channels the input does not carry are filled with
//! silence.  Nothing here trusts the declared offset, size or stride: any
//! inconsistent description yields no data rather than a wrong read.

use vstd::prelude::*;

use vstd::arithmetic::div_mod::lemma_fundamental_div_mod;
use vstd::arithmetic::div_mod::lemma_fundamental_div_mod_converse;
use vstd::arithmetic::mul::lemma_mul_inequality;
use vstd::bytes::spec_u16_from_le_bytes;
use vstd::bytes::spec_u32_from_le_bytes;
use vstd::bytes::u16_from_le_bytes;
use vstd::bytes::u32_from_le_bytes;
use vstd::slice::slice_subrange;

use crate::samples::s16_to_sample_bits;
use crate::samples::spec_s16_bits;

verus! {

/// Channels of the canonical interleaved layout.
pub const CHANNELS: usize = 6;

/// A slice is addressable: its length fits the machine word.
proof fn lemma_slice_len_bound<T>(s: &[T])
    ensures
        s@.len() <= usize::MAX,
{
    broadcast use vstd::slice::axiom_spec_len;

    assert(vstd::slice::spec_slice_len(s) == s@.len());
}

/// The 32-bit word encoded little-endian at `base` in `data`.
pub open spec fn spec_word_at(data: Seq<u8>, base: int) -> u32 {
    spec_u32_from_le_bytes(data.subrange(base, base + 4))
}

/// The signed value a 16-bit carrier word denotes.
pub open spec fn spec_i16_val(u: u16) -> int {
    if u < 0x8000 {
        u as int
    } else {
        u - 0x10000
    }
}

/// The signed 16-bit PCM sample encoded little-endian at `base` in `data`.
pub open spec fn spec_pcm16_at(data: Seq<u8>, base: int) -> int {
    spec_i16_val(spec_u16_from_le_bytes(data.subrange(base, base + 2)))
}

/// When a declared plane is consistent: it lies inside the buffer and both
/// its offset and its length are whole 32-bit words.
pub open spec fn plane_parse_ok(data: Seq<u8>, offset: nat, size: nat) -> bool {
    &&& offset + size <= data.len()
    &&& offset % 4 == 0
    &&& size % 4 == 0
}

/// Reads one signed 16-bit PCM sample.
fn pcm16_value(data: &[u8], base: usize) -> (v: i16)
    requires
        base + 2 <= data@.len(),
    ensures
        v as int == spec_pcm16_at(data@, base as int),
{
    proof {
        lemma_slice_len_bound(data);
    }
    let u = u16_from_le_bytes(slice_subrange(data, base, base + 2));
    if u < 0x8000 {
        u as i16
    } else {
        ((u as i32) - 0x10000) as i16
    }
}

/// Parses one per-channel plane of 32-bit float samples.
///
/// Succeeds exactly when the declared range is inside the buffer and
/// 4-byte aligned in offset and length; then `out` holds every word of the
/// plane in order.  On failure `out` is untouched and the delivery simply
/// carries no data.
pub fn parse_f32_plane_into(raw_data: &[u8], offset: usize, size: usize, out: &mut Vec<u32>) -> (r:
    Option<()>)
    ensures
        r is Some <==> plane_parse_ok(raw_data@, offset as nat, size as nat),
        r is Some ==> final(out)@.len() == size as nat / 4,
        r is Some ==> forall|i: int|
            0 <= i < final(out)@.len() ==> #[trigger] final(out)@[i] == spec_word_at(
                raw_data@,
                offset + 4 * i,
            ),
        r is None ==> final(out)@ == old(out)@,
{
    proof {
        lemma_slice_len_bound(raw_data);
    }
    let end = match offset.checked_add(size) {
        Some(e) => e,
        None => {
            return None;
        },
    };
    if end > raw_data.len() {
        return None;
    }
    if offset % 4 != 0 || size % 4 != 0 {
        return None;
    }
    proof {
        lemma_fundamental_div_mod(size as int, 4);
    }
    let count = size / 4;
    out.clear();
    let mut i: usize = 0;
    while i < count
        invariant
            i <= count,
            count == size as nat / 4,
            4 * count == size,
            offset + size <= raw_data@.len(),
            raw_data@.len() <= usize::MAX,
            out@.len() == i,
            forall|k: int|
                0 <= k < i ==> #[trigger] out@[k] == spec_word_at(raw_data@, offset + 4 * k),
        decreases count - i,
    {
        proof {
            lemma_mul_inequality(i as int + 1, count as int, 4);
        }
        let base = offset + 4 * i;
        let w = u32_from_le_bytes(slice_subrange(raw_data, base, base + 4));
        out.push(w);
        i = i + 1;
    }
    Some(())
}

/// Parses a single interleaved float plane with a caller-declared channel
/// count, truncating any trailing partial frame.
///
/// Succeeds exactly when the channel count is nonzero and the plane is
/// consistent; then `out` holds the words of every whole frame, in order.
pub fn parse_f32_interleaved_into(
    raw_data: &[u8],
    offset: usize,
    size: usize,
    channels: usize,
    out: &mut Vec<u32>,
) -> (r: Option<()>)
    ensures
        r is Some <==> channels >= 1 && plane_parse_ok(raw_data@, offset as nat, size as nat),
        r is Some ==> final(out)@.len() == spec_whole_frames(size as nat / 4, channels as nat),
        r is Some ==> forall|i: int|
            0 <= i < final(out)@.len() ==> #[trigger] final(out)@[i] == spec_word_at(
                raw_data@,
                offset + 4 * i,
            ),
        r is None ==> final(out)@ == old(out)@,
{
    if channels == 0 {
        return None;
    }
    match parse_f32_plane_into(raw_data, offset, size, out) {
        Some(_) => {},
        None => {
            return None;
        },
    }
    proof {
        vstd::arithmetic::div_mod::lemma_mod_decreases(out@.len() as nat, channels as nat);
    }
    let valid = out.len() - out.len() % channels;
    out.truncate(valid);
    Some(())
}

/// `samples` truncated down to a whole number of `channels`-sized frames.
pub open spec fn spec_whole_frames(samples: nat, channels: nat) -> nat {
    (samples - samples % channels) as nat
}

/// The channel count a stride implies under float interpretation: a whole
/// number of 32-bit words, between 1 and 6 of them.
pub open spec fn stride_f32_channels(stride: nat) -> Option<nat> {
    if stride % 4 == 0 && 1 <= stride / 4 <= 6 {
        Some(stride / 4)
    } else {
        None
    }
}

/// The channel count a stride implies under 16-bit PCM interpretation: a
/// whole number of 16-bit words, between 1 and 6 of them.
pub open spec fn stride_s16_channels(stride: nat) -> Option<nat> {
    if stride % 2 == 0 && 1 <= stride / 2 <= 6 {
        Some(stride / 2)
    } else {
        None
    }
}

/// When stride-based inference succeeds: the stride is positive, the
/// declared range lies inside the buffer, at least one whole frame is
/// present, and one rung of the fallback ladder accepts the stride.
pub open spec fn stride_parse_ok(data: Seq<u8>, offset: nat, size: nat, stride: nat) -> bool {
    &&& 1 <= stride
    &&& offset + size <= data.len()
    &&& stride <= size
    &&& (stride_f32_channels(stride) is Some || stride_s16_channels(stride) is Some)
}

/// The sample the stride parse places at frame `f`, channel `c`: a word of
/// the input for carried channels — converted from PCM on the 16-bit rung —
/// and silence for the zero-padded channels above the carried count.
/// The float rung is tried first, exactly as the parser does.
pub open spec fn spec_stride_sample(
    data: Seq<u8>,
    offset: nat,
    stride: nat,
    f: int,
    c: int,
) -> u32 {
    if stride_f32_channels(stride) is Some {
        let ch = stride_f32_channels(stride)->Some_0;
        if c < ch {
            spec_word_at(data, offset + f * stride + 4 * c)
        } else {
            0u32
        }
    } else if stride_s16_channels(stride) is Some {
        let ch = stride_s16_channels(stride)->Some_0;
        if c < ch {
            spec_s16_bits(spec_pcm16_at(data, offset + f * stride + 2 * c))
        } else {
            0u32
        }
    } else {
        0u32
    }
}

/// Parses a strided interleaved plane by inferring layout from the stride:
/// a stride of `4*k` words is read as `k` float channels, else a stride of
/// `2*k` as `k` 16-bit PCM channels (each sample mapped into the unit
/// range), `1 <= k <= 6` in both cases; everything else yields no data.
/// Carried channels are packed and the remainder is zero-padded to the
/// canonical 6 channels; a trailing partial frame is never read.
pub fn parse_interleaved_from_stride_into(
    raw_data: &[u8],
    offset: usize,
    size: usize,
    stride: usize,
    out: &mut Vec<u32>,
) -> (r: Option<()>)
    ensures
        r is Some <==> stride_parse_ok(raw_data@, offset as nat, size as nat, stride as nat),
        r is Some ==> final(out)@.len() == (size as nat / stride as nat) * 6,
        r is Some ==> forall|k: int|
            0 <= k < final(out)@.len() ==> #[trigger] final(out)@[k] == spec_stride_sample(
                raw_data@,
                offset as nat,
                stride as nat,
                k / 6,
                k % 6,
            ),
        r is None ==> final(out)@ == old(out)@,
{
    proof {
        lemma_slice_len_bound(raw_data);
    }
    if stride == 0 {
        return None;
    }
    let end = match offset.checked_add(size) {
        Some(e) => e,
        None => {
            return None;
        },
    };
    if end > raw_data.len() {
        return None;
    }
    if size < stride {
        return None;
    }
    let frame_count = size / stride;
    proof {
        lemma_fundamental_div_mod(size as int, stride as int);
        assert(frame_count as int * stride as int <= size as int) by (nonlinear_arith)
            requires
                stride as int >= 1,
                frame_count as int == size as int / stride as int,
                size as int == stride as int * (size as int / stride as int) + size as int
                    % stride as int,
                size as int % stride as int >= 0,
        ;
    }
    if stride % 4 == 0 && stride / 4 >= 1 && stride / 4 <= CHANNELS {
        let channels = stride / 4;
        fill_stride_f32(raw_data, offset, stride, frame_count, channels, out);
        return Some(());
    }
    if stride % 2 == 0 && stride / 2 >= 1 && stride / 2 <= CHANNELS {
        let channels = stride / 2;
        fill_stride_s16(raw_data, offset, stride, frame_count, channels, out);
        return Some(());
    }
    None
}

/// Fills `out` with `frame_count` frames read as float words.
fn fill_stride_f32(
    raw_data: &[u8],
    offset: usize,
    stride: usize,
    frame_count: usize,
    channels: usize,
    out: &mut Vec<u32>,
)
    requires
        stride_f32_channels(stride as nat) == Some(channels as nat),
        offset + frame_count * stride <= raw_data@.len(),
    ensures
        final(out)@.len() == frame_count * 6,
        forall|k: int|
            0 <= k < final(out)@.len() ==> #[trigger] final(out)@[k] == spec_stride_sample(
                raw_data@,
                offset as nat,
                stride as nat,
                k / 6,
                k % 6,
            ),
{
    proof {
        lemma_slice_len_bound(raw_data);
    }
    out.clear();
    let mut f: usize = 0;
    while f < frame_count
        invariant
            f <= frame_count,
            stride_f32_channels(stride as nat) == Some(channels as nat),
            1 <= channels <= 6,
            offset + frame_count * stride <= raw_data@.len(),
            raw_data@.len() <= usize::MAX,
            out@.len() == f * 6,
            forall|k: int|
                0 <= k < out@.len() ==> #[trigger] out@[k] == spec_stride_sample(
                    raw_data@,
                    offset as nat,
                    stride as nat,
                    k / 6,
                    k % 6,
                ),
        decreases frame_count - f,
    {
        proof {
            lemma_mul_inequality(f as int, frame_count as int, stride as int);
            lemma_mul_inequality(f as int + 1, frame_count as int, stride as int);
            assert((f + 1) * stride == f * stride + stride) by (nonlinear_arith);
            lemma_fundamental_div_mod(stride as int, 4);
        }
        let frame_base = offset + f * stride;
        let mut c: usize = 0;
        while c < 6
            invariant
                c <= 6,
                f < frame_count,
                stride_f32_channels(stride as nat) == Some(channels as nat),
                1 <= channels <= 6,
                frame_base == offset + f * stride,
                frame_base + stride <= raw_data@.len(),
                raw_data@.len() <= usize::MAX,
                4 * channels == stride,
                out@.len() == f * 6 + c,
                forall|k: int|
                    0 <= k < out@.len() ==> #[trigger] out@[k] == spec_stride_sample(
                        raw_data@,
                        offset as nat,
                        stride as nat,
                        k / 6,
                        k % 6,
                    ),
            decreases 6 - c,
        {
            let w: u32 = if c < channels {
                proof {
                    lemma_mul_inequality(c as int + 1, channels as int, 4);
                }
                u32_from_le_bytes(slice_subrange(raw_data, frame_base + 4 * c, frame_base + 4 * c + 4))
            } else {
                0
            };
            proof {
                lemma_fundamental_div_mod_converse(
                    f as int * 6 + c as int,
                    6,
                    f as int,
                    c as int,
                );
            }
            out.push(w);
            c = c + 1;
        }
        f = f + 1;
    }
}

/// Fills `out` with `frame_count` frames read as 16-bit PCM, each sample
/// converted exactly onto the unit range.
fn fill_stride_s16(
    raw_data: &[u8],
    offset: usize,
    stride: usize,
    frame_count: usize,
    channels: usize,
    out: &mut Vec<u32>,
)
    requires
        stride_f32_channels(stride as nat) is None,
        stride_s16_channels(stride as nat) == Some(channels as nat),
        offset + frame_count * stride <= raw_data@.len(),
    ensures
        final(out)@.len() == frame_count * 6,
        forall|k: int|
            0 <= k < final(out)@.len() ==> #[trigger] final(out)@[k] == spec_stride_sample(
                raw_data@,
                offset as nat,
                stride as nat,
                k / 6,
                k % 6,
            ),
{
    proof {
        lemma_slice_len_bound(raw_data);
    }
    out.clear();
    let mut f: usize = 0;
    while f < frame_count
        invariant
            f <= frame_count,
            stride_f32_channels(stride as nat) is None,
            stride_s16_channels(stride as nat) == Some(channels as nat),
            1 <= channels <= 6,
            offset + frame_count * stride <= raw_data@.len(),
            raw_data@.len() <= usize::MAX,
            out@.len() == f * 6,
            forall|k: int|
                0 <= k < out@.len() ==> #[trigger] out@[k] == spec_stride_sample(
                    raw_data@,
                    offset as nat,
                    stride as nat,
                    k / 6,
                    k % 6,
                ),
        decreases frame_count - f,
    {
        proof {
            lemma_mul_inequality(f as int, frame_count as int, stride as int);
            lemma_mul_inequality(f as int + 1, frame_count as int, stride as int);
            assert((f + 1) * stride == f * stride + stride) by (nonlinear_arith);
            lemma_fundamental_div_mod(stride as int, 2);
        }
        let frame_base = offset + f * stride;
        let mut c: usize = 0;
        while c < 6
            invariant
                c <= 6,
                f < frame_count,
                stride_f32_channels(stride as nat) is None,
                stride_s16_channels(stride as nat) == Some(channels as nat),
                1 <= channels <= 6,
                frame_base == offset + f * stride,
                frame_base + stride <= raw_data@.len(),
                raw_data@.len() <= usize::MAX,
                2 * channels == stride,
                out@.len() == f * 6 + c,
                forall|k: int|
                    0 <= k < out@.len() ==> #[trigger] out@[k] == spec_stride_sample(
                        raw_data@,
                        offset as nat,
                        stride as nat,
                        k / 6,
                        k % 6,
                    ),
            decreases 6 - c,
        {
            let w: u32 = if c < channels {
                proof {
                    lemma_mul_inequality(c as int + 1, channels as int, 2);
                }
                let v = pcm16_value(raw_data, frame_base + 2 * c);
                s16_to_sample_bits(v)
            } else {
                0
            };
            proof {
                lemma_fundamental_div_mod_converse(
                    f as int * 6 + c as int,
                    6,
                    f as int,
                    c as int,
                );
            }
            out.push(w);
            c = c + 1;
        }
        f = f + 1;
    }
}

/// One single-plane capture delivery: stride-based inference is attempted
/// first, and a delivery the stride ladder rejects falls back to a flat
/// 6-channel interleaved float read.  A delivery neither accepts carries
/// no data.
pub fn parse_single_plane_delivery(
    raw_data: &[u8],
    offset: usize,
    size: usize,
    stride: usize,
    out: &mut Vec<u32>,
) -> (r: Option<()>)
    ensures
        r is Some <==> stride_parse_ok(raw_data@, offset as nat, size as nat, stride as nat)
            || plane_parse_ok(raw_data@, offset as nat, size as nat),
        stride_parse_ok(raw_data@, offset as nat, size as nat, stride as nat) ==> final(out)@.len()
            == (size as nat / stride as nat) * 6 && forall|k: int|
            0 <= k < final(out)@.len() ==> #[trigger] final(out)@[k] == spec_stride_sample(
                raw_data@,
                offset as nat,
                stride as nat,
                k / 6,
                k % 6,
            ),
        !stride_parse_ok(raw_data@, offset as nat, size as nat, stride as nat) && plane_parse_ok(
            raw_data@,
            offset as nat,
            size as nat,
        ) ==> final(out)@.len() == spec_whole_frames(size as nat / 4, 6) && forall|i: int|
            0 <= i < final(out)@.len() ==> #[trigger] final(out)@[i] == spec_word_at(
                raw_data@,
                offset + 4 * i,
            ),
        r is None ==> final(out)@ == old(out)@,
{
    match parse_interleaved_from_stride_into(raw_data, offset, size, stride, out) {
        Some(_) => Some(()),
        None => parse_f32_interleaved_into(raw_data, offset, size, CHANNELS, out),
    }
}

/// The sample a planar delivery contributes at frame `s`, channel `c`:
/// the channel's own word where the plane carries one, silence where the
/// plane is absent or too short.
pub open spec fn spec_plane_sample(planes: Seq<Vec<u32>>, s: int, c: int) -> u32 {
    if c < planes.len() && s < planes[c]@.len() {
        planes[c]@[s]
    } else {
        0u32
    }
}

/// The common frame count of a planar delivery: the smallest sample count
/// over the planes that parsed nonempty, or nothing when every plane is
/// empty (the delivery then carries no data).
pub fn min_nonempty_plane_len(planes: &Vec<Vec<u32>>) -> (r: Option<usize>)
    ensures
        r is None <==> (forall|p: int| 0 <= p < planes@.len() ==> #[trigger] planes@[p]@.len() == 0),
        r is Some ==> r->Some_0 > 0,
        r is Some ==> (exists|p: int|
            0 <= p < planes@.len() && #[trigger] planes@[p]@.len() == r->Some_0),
        r is Some ==> (forall|p: int|
            0 <= p < planes@.len() && #[trigger] planes@[p]@.len() > 0 ==> planes@[p]@.len()
                >= r->Some_0),
{
    let mut best: Option<usize> = None;
    let mut p: usize = 0;
    while p < planes.len()
        invariant
            p <= planes@.len(),
            best is None <==> (forall|q: int| 0 <= q < p ==> #[trigger] planes@[q]@.len() == 0),
            best is Some ==> best->Some_0 > 0,
            best is Some ==> (exists|q: int|
                0 <= q < p && #[trigger] planes@[q]@.len() == best->Some_0),
            best is Some ==> (forall|q: int|
                0 <= q < p && #[trigger] planes@[q]@.len() > 0 ==> planes@[q]@.len()
                    >= best->Some_0),
        decreases planes@.len() - p,
    {
        let plane_len = planes[p].len();
        if plane_len > 0 {
            best = match best {
                None => Some(plane_len),
                Some(b) => if plane_len < b {
                    Some(plane_len)
                } else {
                    Some(b)
                },
            };
        }
        p = p + 1;
    }
    best
}

/// Interleaves up to six per-channel planes into the canonical layout:
/// `n_samples` frames, each carrying the planes' words in channel order,
/// with silence for absent or exhausted channels.
pub fn interleave_planes(planes: &Vec<Vec<u32>>, n_samples: usize) -> (out: Vec<u32>)
    requires
        n_samples <= usize::MAX / 6,
    ensures
        out@.len() == n_samples * 6,
        forall|k: int|
            0 <= k < out@.len() ==> #[trigger] out@[k] == spec_plane_sample(planes@, k / 6, k % 6),
{
    let mut out: Vec<u32> = Vec::new();
    let mut s: usize = 0;
    while s < n_samples
        invariant
            s <= n_samples,
            n_samples <= usize::MAX / 6,
            out@.len() == s * 6,
            forall|k: int|
                0 <= k < out@.len() ==> #[trigger] out@[k] == spec_plane_sample(
                    planes@,
                    k / 6,
                    k % 6,
                ),
        decreases n_samples - s,
    {
        let mut c: usize = 0;
        while c < 6
            invariant
                c <= 6,
                s < n_samples,
                n_samples <= usize::MAX / 6,
                out@.len() == s * 6 + c,
                forall|k: int|
                    0 <= k < out@.len() ==> #[trigger] out@[k] == spec_plane_sample(
                        planes@,
                        k / 6,
                        k % 6,
                    ),
            decreases 6 - c,
        {
            let w: u32 = if c < planes.len() {
                let plane_len = planes[c].len();
                if s < plane_len {
                    planes[c][s]
                } else {
                    0
                }
            } else {
                0
            };
            proof {
                lemma_fundamental_div_mod_converse(s as int * 6 + c as int, 6, s as int, c as int);
            }
            out.push(w);
            c = c + 1;
        }
        s = s + 1;
    }
    out
}

} // verus!
