use vstd::prelude::*;
use crate::spectrum::{fft_frame, spread_frame};

verus! {

/// 1/64 as a magnitude key: the bit pattern of that single-precision value.
pub const MAGNITUDE_THRESHOLD: u32 = 0x3C80_0000;

/// How many passes back the magnitude frame under recognition lies.
pub const FFT_LAG: u32 = 46;

/// How many passes back the spread frame under recognition lies.
pub const SPREAD_LAG: usize = 49;

/// A bin that passed every local-maximum test, with the magnitude keys of it
/// and of its two neighbours in frequency.
#[derive(Clone, Copy, Debug, PartialEq, Eq, Structural)]
pub struct PeakCandidate {
    pub fft_pass_number: u32,
    pub bin: u16,
    pub magnitude_before: u32,
    pub magnitude: u32,
    pub magnitude_after: u32,
}

/// The bin offsets, within the spread frame under recognition, that a peak
/// must exceed.
pub open spec fn neighbor_offset(j: int) -> int {
    if j == 0 {
        -10
    } else if j == 1 {
        -7
    } else if j == 2 {
        -4
    } else if j == 3 {
        -3
    } else if j == 4 {
        1
    } else if j == 5 {
        2
    } else if j == 6 {
        5
    } else {
        8
    }
}

/// How many passes back (from the pass count) lie the other spread frames
/// whose bin below a peak it must exceed.
pub open spec fn distant_back(j: int) -> int {
    if j == 0 {
        53
    } else if j == 1 {
        45
    } else if j == 2 {
        91
    } else if j == 3 {
        84
    } else if j == 4 {
        77
    } else if j == 5 {
        70
    } else if j == 6 {
        63
    } else if j == 7 {
        56
    } else if j == 8 {
        42
    } else if j == 9 {
        35
    } else if j == 10 {
        28
    } else if j == 11 {
        21
    } else if j == 12 {
        14
    } else {
        7
    }
}

/// Whether bin `b` of the magnitude frame 46 passes back is a peak once the
/// passes `frames` are done: at least the threshold and the spread value of
/// the bin below, and above the spread values at the neighbouring offsets and
/// at the bin below in the distant spread frames.
pub open spec fn is_peak(frames: Seq<Seq<u32>>, b: int) -> bool {
    let n = frames.len() as int;
    let x = fft_frame(frames, n - 46)[b];
    let s = spread_frame(frames, n - 49);
    &&& x >= MAGNITUDE_THRESHOLD
    &&& x >= s[b - 1]
    &&& forall|j: int| 0 <= j < 8 ==> x > s[b + #[trigger] neighbor_offset(j)]
    &&& forall|j: int|
        0 <= j < 14 ==> x > spread_frame(frames, n - #[trigger] distant_back(j))[b - 1]
}

/// The candidate record of bin `b`.
pub open spec fn candidate_of(frames: Seq<Seq<u32>>, b: int) -> PeakCandidate {
    let n = frames.len() as int;
    let f = fft_frame(frames, n - 46);
    PeakCandidate {
        fft_pass_number: (n - 46) as u32,
        bin: b as u16,
        magnitude_before: f[b - 1],
        magnitude: f[b],
        magnitude_after: f[b + 1],
    }
}

/// The candidates among the bins 10 up to (not including) `hi`, by bin.
pub open spec fn peak_candidates(frames: Seq<Seq<u32>>, hi: int) -> Seq<PeakCandidate>
    decreases hi,
{
    if hi <= 10 {
        Seq::empty()
    } else {
        let r = peak_candidates(frames, hi - 1);
        if is_peak(frames, hi - 1) {
            r.push(candidate_of(frames, hi - 1))
        } else {
            r
        }
    }
}

/// Every candidate is a peak between bin 10 and `hi`, recorded from the frame
/// it was found in, and the candidates come in increasing order of bin.
pub proof fn lemma_candidates_are_peaks(frames: Seq<Seq<u32>>, hi: int)
    requires
        hi <= 1015,
    ensures
        forall|i: int|
            0 <= i < peak_candidates(frames, hi).len() ==> {
                let c = #[trigger] peak_candidates(frames, hi)[i];
                &&& 10 <= c.bin < hi
                &&& is_peak(frames, c.bin as int)
                &&& c == candidate_of(frames, c.bin as int)
            },
        forall|i: int, k: int|
            0 <= i < k < peak_candidates(frames, hi).len() ==> peak_candidates(frames, hi)[i].bin
                < peak_candidates(frames, hi)[k].bin,
    decreases hi,
{
    if hi > 10 {
        lemma_candidates_are_peaks(frames, hi - 1);
        let r = peak_candidates(frames, hi - 1);
        let all = peak_candidates(frames, hi);
        if is_peak(frames, hi - 1) {
            let c = candidate_of(frames, hi - 1);
            assert(all == r.push(c));
            assert(c.bin == hi - 1);
            assert forall|i: int| 0 <= i < r.len() implies #[trigger] all[i] == r[i] by {}
            assert forall|i: int, k: int| 0 <= i < k < all.len() implies all[i].bin < all[k].bin by {
                assert(all[i] == r[i]);
                if k < r.len() {
                    assert(all[k] == r[k]);
                }
            }
        }
    }
}

/// The offset at index `j` of the neighbouring offsets.
pub(crate) fn neighbor_offset_at(j: usize) -> (r: i32)
    requires
        j < 8,
    ensures
        r as int == neighbor_offset(j as int),
{
    if j == 0 {
        -10
    } else if j == 1 {
        -7
    } else if j == 2 {
        -4
    } else if j == 3 {
        -3
    } else if j == 4 {
        1
    } else if j == 5 {
        2
    } else if j == 6 {
        5
    } else {
        8
    }
}

/// The distance at index `j` of the distant spread frames.
pub(crate) fn distant_back_at(j: usize) -> (r: usize)
    requires
        j < 14,
    ensures
        r as int == distant_back(j as int),
{
    if j == 0 {
        53
    } else if j == 1 {
        45
    } else if j == 2 {
        91
    } else if j == 3 {
        84
    } else if j == 4 {
        77
    } else if j == 5 {
        70
    } else if j == 6 {
        63
    } else if j == 7 {
        56
    } else if j == 8 {
        42
    } else if j == 9 {
        35
    } else if j == 10 {
        28
    } else if j == 11 {
        21
    } else if j == 12 {
        14
    } else {
        7
    }
}

} // verus!
