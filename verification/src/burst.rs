//! Burst framing of the encoded byte stream.
//!
//! The transport treats the stream as opaque bytes, but its framing is
//! fixed: each compressed burst begins with a 4-byte little-endian
//! preamble, and consecutive bursts for this codec and rate are spaced
//! exactly one burst interval apart.  These scanners make that framing
//! checkable on any byte stream the pipeline produced.

use vstd::prelude::*;

verus! {

/// Byte distance between consecutive burst preambles for this codec and
/// rate.
pub const BURST_SPACING_BYTES: usize = 6144;

/// Whether the 4-byte burst preamble starts at `i`.
pub open spec fn spec_preamble_at(data: Seq<u8>, i: int) -> bool {
    &&& data[i] == 0x72
    &&& data[i + 1] == 0xF8
    &&& data[i + 2] == 0x1F
    &&& data[i + 3] == 0x4E
}

/// Finds every burst preamble in the stream: the returned positions are
/// strictly increasing and are exactly the offsets where the preamble
/// occurs.
pub fn find_burst_preambles(data: &[u8]) -> (positions: Vec<usize>)
    ensures
        forall|a: int, b: int|
            0 <= a < b < positions@.len() ==> positions@[a] < positions@[b],
        forall|k: int|
            0 <= k < positions@.len() ==> positions@[k] + 4 <= data@.len() && spec_preamble_at(
                data@,
                #[trigger] positions@[k] as int,
            ),
        forall|i: int|
            0 <= i && i + 4 <= data@.len() && spec_preamble_at(data@, i) ==> positions@.contains(
                i as usize,
            ),
{
    let mut positions: Vec<usize> = Vec::new();
    if data.len() < 4 {
        return positions;
    }
    let mut i: usize = 0;
    let last_start = data.len() - 4;
    while i <= last_start
        invariant
            i <= last_start + 1,
            last_start + 4 == data@.len(),
            forall|a: int, b: int|
                0 <= a < b < positions@.len() ==> positions@[a] < positions@[b],
            forall|k: int|
                0 <= k < positions@.len() ==> positions@[k] < i && spec_preamble_at(
                    data@,
                    #[trigger] positions@[k] as int,
                ),
            forall|j: int|
                0 <= j < i && spec_preamble_at(data@, j) ==> positions@.contains(j as usize),
        decreases last_start + 1 - i,
    {
        if data[i] == 0x72 && data[i + 1] == 0xF8 && data[i + 2] == 0x1F && data[i + 3] == 0x4E {
            let ghost before = positions@;
            positions.push(i);
            proof {
                assert(positions@[positions@.len() - 1] == i);
                assert forall|j: int|
                    0 <= j < i + 1 && spec_preamble_at(data@, j) implies positions@.contains(
                    j as usize,
                ) by {
                    if j < i {
                        assert(before.contains(j as usize));
                        let w = choose|w: int| 0 <= w < before.len() && before[w] == j as usize;
                        assert(positions@[w] == j as usize);
                    } else {
                        assert(positions@[positions@.len() - 1] == j as usize);
                    }
                }
            }
        } else {
            proof {
                assert(!spec_preamble_at(data@, i as int));
            }
        }
        i = i + 1;
    }
    positions
}

/// Whether consecutive positions are each exactly one burst interval
/// apart.
pub fn bursts_evenly_spaced(positions: &Vec<usize>) -> (b: bool)
    ensures
        b <==> forall|k: int|
            0 <= k < positions@.len() - 1 ==> #[trigger] positions@[k] + BURST_SPACING_BYTES
                == positions@[k + 1],
{
    let mut i: usize = 0;
    if positions.len() == 0 {
        return true;
    }
    while i < positions.len() - 1
        invariant
            positions@.len() > 0,
            i <= positions@.len() - 1,
            forall|k: int|
                0 <= k < i ==> #[trigger] positions@[k] + BURST_SPACING_BYTES == positions@[k + 1],
        decreases positions@.len() - 1 - i,
    {
        let here = positions[i];
        let next = positions[i + 1];
        if !(here <= usize::MAX - BURST_SPACING_BYTES) || here + BURST_SPACING_BYTES != next {
            proof {
                assert(!(positions@[i as int] + BURST_SPACING_BYTES == positions@[i + 1]));
            }
            return false;
        }
        i = i + 1;
    }
    true
}

} // verus!
