use vstd::prelude::*;
use crate::recognition::{
    PeakCandidate, MAGNITUDE_THRESHOLD, FFT_LAG, SPREAD_LAG, neighbor_offset, distant_back, is_peak,
    peak_candidates, neighbor_offset_at, distant_back_at,
};

verus! {

/// Number of frequency bins in one magnitude frame (DC through Nyquist).
pub const NUM_BINS: usize = 1025;

/// Number of frames that each history keeps (a power of two).
pub const HISTORY_LEN: usize = 256;

/// The larger of two magnitude keys.
pub open spec fn key_max(a: u32, b: u32) -> u32 {
    if a >= b {
        a
    } else {
        b
    }
}

/// A frame smeared forwards in frequency: each bin but the last two takes the
/// largest of itself and the next two bins.
pub open spec fn smear(f: Seq<u32>) -> Seq<u32> {
    Seq::new(
        1025,
        |b: int|
            if b <= 1022 {
                key_max(key_max(f[b], f[b + 1]), f[b + 2])
            } else {
                f[b]
            },
    )
}

/// A frame of zeros: what a history slot holds before any pass has written it.
pub open spec fn zero_frame() -> Seq<u32> {
    Seq::new(1025, |b: int| 0u32)
}

/// The magnitude frame of pass `p`, or zeros for a pass before the first.
pub open spec fn fft_frame(frames: Seq<Seq<u32>>, p: int) -> Seq<u32> {
    if 0 <= p < frames.len() {
        frames[p]
    } else {
        zero_frame()
    }
}

/// Bin `b` of the smeared frame of pass `q`, or zero where pass `q` has not
/// happened.
pub open spec fn smeared_value(frames: Seq<Seq<u32>>, q: int, b: int) -> u32 {
    if 0 <= q < frames.len() {
        smear(frames[q])[b]
    } else {
        0
    }
}

/// The spread frame of pass `p` once the passes `frames` are done: its own
/// smeared frame, raised to the smeared frames of the passes 1, 3 and 6 later.
pub open spec fn spread_frame(frames: Seq<Seq<u32>>, p: int) -> Seq<u32> {
    Seq::new(
        1025,
        |b: int|
            key_max(
                key_max(
                    key_max(smeared_value(frames, p, b), smeared_value(frames, p + 1, b)),
                    smeared_value(frames, p + 3, b),
                ),
                smeared_value(frames, p + 6, b),
            ),
    )
}

/// Two passes less than 256 apart use different slots.
pub proof fn lemma_slots_distinct(p: int, q: int)
    requires
        p != q,
        -256 < p - q < 256,
    ensures
        p % 256 != q % 256,
{
}

/// The slot `back` passes before the slot `idx` of pass `n`.
pub proof fn lemma_slot_back(n: int, back: int)
    requires
        0 <= back <= 256,
    ensures
        ((n % 256) + 256 - back) % 256 == (n - back) % 256,
{
}

/// The magnitude history and the spread history, both rings of 256 frames
/// indexed by pass number.
pub struct SpectralHistory {
    pub(crate) fft_outputs: Vec<Vec<u32>>,
    pub(crate) spread_outputs: Vec<Vec<u32>>,
    pub(crate) index: usize,
    pub(crate) frames: Ghost<Seq<Seq<u32>>>,
}

impl SpectralHistory {
    /// The magnitude frames of all passes so far, oldest first.
    pub closed spec fn frames(&self) -> Seq<Seq<u32>> {
        self.frames@
    }

    /// Slot `p % 256` of each history holds pass `p`'s frame, for the last 256
    /// passes (those before the first holding zeros).
    pub closed spec fn wf(&self) -> bool {
        let n = self.frames@.len() as int;
        &&& self.fft_outputs@.len() == 256
        &&& self.spread_outputs@.len() == 256
        &&& self.index == n % 256
        &&& forall|i: int| 0 <= i < n ==> (#[trigger] self.frames@[i]).len() == 1025
        &&& forall|s: int| 0 <= s < 256 ==> (#[trigger] self.fft_outputs@[s])@.len() == 1025
        &&& forall|s: int| 0 <= s < 256 ==> (#[trigger] self.spread_outputs@[s])@.len() == 1025
        &&& forall|p: int|
            n - 256 <= p < n ==> self.fft_outputs@[p % 256]@ == #[trigger] fft_frame(
                self.frames@,
                p,
            )
        &&& forall|p: int|
            n - 256 <= p < n ==> self.spread_outputs@[p % 256]@ == #[trigger] spread_frame(
                self.frames@,
                p,
            )
    }

    /// Both histories filled with zeros, no pass done.
    pub fn new() -> (r: SpectralHistory)
        ensures
            r.wf(),
            r.frames() == Seq::<Seq<u32>>::empty(),
    {
        let mut fft_outputs: Vec<Vec<u32>> = Vec::new();
        let mut spread_outputs: Vec<Vec<u32>> = Vec::new();
        let mut s: usize = 0;
        while s < HISTORY_LEN
            invariant
                s <= 256,
                fft_outputs@.len() == s,
                spread_outputs@.len() == s,
                forall|t: int| 0 <= t < s ==> (#[trigger] fft_outputs@[t])@ == zero_frame(),
                forall|t: int| 0 <= t < s ==> (#[trigger] spread_outputs@[t])@ == zero_frame(),
            decreases 256 - s,
        {
            fft_outputs.push(zero_row());
            spread_outputs.push(zero_row());
            s = s + 1;
        }
        let r = SpectralHistory { fft_outputs, spread_outputs, index: 0, frames: Ghost(Seq::empty()) };
        assert forall|p: int| -256 <= p < 0 implies r.spread_outputs@[p % 256]@ == #[trigger] spread_frame(
            r.frames@,
            p,
        ) by {
            assert(spread_frame(r.frames@, p) =~= zero_frame());
        }
        r
    }

    /// Takes in the magnitude frame of the next pass: stores it, stores its
    /// smeared copy as that pass's spread frame, and raises the spread frames
    /// of the passes 1, 3 and 6 before to it.
    pub fn push(&mut self, frame: &[u32])
        requires
            old(self).wf(),
            frame@.len() == 1025,
        ensures
            final(self).wf(),
            final(self).frames() == old(self).frames().push(frame@),
    {
        let ghost n = self.frames@.len() as int;
        let ghost nf = self.frames@.push(frame@);
        let idx = self.index;
        let row = copy_row(frame);
        self.fft_outputs[idx] = row;
        let smeared = smear_row(frame);
        self.spread_outputs[idx] = smeared;
        let ghost after_copy = self.spread_outputs@;
        let s1 = (idx + HISTORY_LEN - 1) % HISTORY_LEN;
        let s3 = (idx + HISTORY_LEN - 3) % HISTORY_LEN;
        let s6 = (idx + HISTORY_LEN - 6) % HISTORY_LEN;
        proof {
            lemma_slot_back(n, 1);
            lemma_slot_back(n, 3);
            lemma_slot_back(n, 6);
            lemma_slots_distinct(n, n - 1);
            lemma_slots_distinct(n, n - 3);
            lemma_slots_distinct(n, n - 6);
            lemma_slots_distinct(n - 1, n - 3);
            lemma_slots_distinct(n - 1, n - 6);
            lemma_slots_distinct(n - 3, n - 6);
        }
        let m1 = max_rows(&self.spread_outputs[s1], &self.spread_outputs[idx]);
        self.spread_outputs[s1] = m1;
        let m3 = max_rows(&self.spread_outputs[s3], &self.spread_outputs[idx]);
        self.spread_outputs[s3] = m3;
        let m6 = max_rows(&self.spread_outputs[s6], &self.spread_outputs[idx]);
        self.spread_outputs[s6] = m6;
        self.index = (idx + 1) % HISTORY_LEN;
        self.frames = Ghost(nf);
        proof {
            assert(self.index == (n + 1) % 256) by {
                vstd::arithmetic::div_mod::lemma_add_mod_noop(n, 1, 256);
            }
            assert forall|i: int| 0 <= i < n + 1 implies (#[trigger] nf[i]).len() == 1025 by {
                if i < n {
                    assert(old(self).frames@[i].len() == 1025);
                }
            }
            assert forall|s: int| 0 <= s < 256 implies (#[trigger] self.fft_outputs@[s])@.len()
                == 1025 by {
                if s != idx {
                    assert(old(self).fft_outputs@[s]@.len() == 1025);
                }
            }
            assert forall|s: int| 0 <= s < 256 implies (#[trigger] self.spread_outputs@[s])@.len()
                == 1025 by {
                if s != idx && s != s1 && s != s3 && s != s6 {
                    assert(old(self).spread_outputs@[s]@.len() == 1025);
                }
            }
            assert forall|p: int| n + 1 - 256 <= p < n + 1 implies self.fft_outputs@[p % 256]@
                == #[trigger] fft_frame(nf, p) by {
                if p != n {
                    lemma_slots_distinct(p, n);
                    assert(old(self).fft_outputs@[p % 256]@ == fft_frame(old(self).frames@, p));
                } else {
                    assert(nf[n] == frame@);
                }
            }
            assert forall|p: int| n + 1 - 256 <= p < n + 1 implies self.spread_outputs@[p
                % 256]@ == #[trigger] spread_frame(nf, p) by {
                assert forall|q: int, b: int| q < n && 0 <= b < 1025 implies smeared_value(nf, q, b)
                    == smeared_value(old(self).frames@, q, b) by {
                    if 0 <= q {
                        assert(nf[q] == old(self).frames@[q]);
                    }
                }
                assert forall|b: int| 0 <= b < 1025 implies smeared_value(nf, n, b)
                    == smear(frame@)[b] by {
                    assert(nf[n] == frame@);
                }
                if p == n {
                    assert(spread_frame(nf, p) =~= smear(frame@));
                } else {
                    lemma_slots_distinct(p, n);
                    let old_row = spread_frame(old(self).frames@, p);
                    assert(old(self).spread_outputs@[p % 256]@ == old_row);
                    if p == n - 1 || p == n - 3 || p == n - 6 {
                        assert(spread_frame(nf, p) =~= Seq::new(
                            1025,
                            |b: int| key_max(old_row[b], smear(frame@)[b]),
                        ));
                    } else {
                        assert(p % 256 != s1 && p % 256 != s3 && p % 256 != s6) by {
                            lemma_slots_distinct(p, n - 1);
                            lemma_slots_distinct(p, n - 3);
                            lemma_slots_distinct(p, n - 6);
                        }
                        assert(spread_frame(nf, p) =~= old_row);
                    }
                }
            }
        }
    }
}

/// A row of 1025 zeros.
fn zero_row() -> (r: Vec<u32>)
    ensures
        r@ == zero_frame(),
{
    let mut r: Vec<u32> = Vec::new();
    let mut b: usize = 0;
    while b < NUM_BINS
        invariant
            b <= 1025,
            r@.len() == b,
            forall|j: int| 0 <= j < b ==> r@[j] == 0u32,
        decreases 1025 - b,
    {
        r.push(0);
        b = b + 1;
    }
    assert(r@ =~= zero_frame());
    r
}

/// A copy of a frame.
fn copy_row(frame: &[u32]) -> (r: Vec<u32>)
    requires
        frame@.len() == 1025,
    ensures
        r@ == frame@,
{
    let mut r: Vec<u32> = Vec::new();
    let mut b: usize = 0;
    while b < NUM_BINS
        invariant
            b <= 1025,
            frame@.len() == 1025,
            r@.len() == b,
            forall|j: int| 0 <= j < b ==> r@[j] == frame@[j],
        decreases 1025 - b,
    {
        r.push(frame[b]);
        b = b + 1;
    }
    assert(r@ =~= frame@);
    r
}

/// The larger of two magnitude keys.
pub fn max_key(a: u32, b: u32) -> (r: u32)
    ensures
        r == key_max(a, b),
{
    if a >= b {
        a
    } else {
        b
    }
}

/// The frame smeared forwards in frequency.
fn smear_row(frame: &[u32]) -> (r: Vec<u32>)
    requires
        frame@.len() == 1025,
    ensures
        r@ == smear(frame@),
{
    let mut r: Vec<u32> = Vec::new();
    let mut b: usize = 0;
    while b < NUM_BINS
        invariant
            b <= 1025,
            frame@.len() == 1025,
            r@.len() == b,
            forall|j: int| 0 <= j < b ==> r@[j] == smear(frame@)[j],
        decreases 1025 - b,
    {
        if b <= 1022 {
            r.push(max_key(max_key(frame[b], frame[b + 1]), frame[b + 2]));
        } else {
            r.push(frame[b]);
        }
        b = b + 1;
    }
    assert(r@ =~= smear(frame@));
    r
}

/// The bin-wise maximum of two frames.
fn max_rows(a: &Vec<u32>, b: &Vec<u32>) -> (r: Vec<u32>)
    requires
        a@.len() == 1025,
        b@.len() == 1025,
    ensures
        r@ == Seq::new(1025, |j: int| key_max(a@[j], b@[j])),
{
    let mut r: Vec<u32> = Vec::new();
    let mut k: usize = 0;
    while k < NUM_BINS
        invariant
            k <= 1025,
            a@.len() == 1025,
            b@.len() == 1025,
            r@.len() == k,
            forall|j: int| 0 <= j < k ==> r@[j] == key_max(a@[j], b@[j]),
        decreases 1025 - k,
    {
        r.push(max_key(a[k], b[k]));
        k = k + 1;
    }
    assert(r@ =~= Seq::new(1025, |j: int| key_max(a@[j], b@[j])));
    r
}

impl SpectralHistory {
    /// The peaks of the magnitude frame 46 passes back, in increasing order of
    /// bin, over the bins 10 through 1014.
    pub fn find_peaks(&self, passes_done: u32) -> (r: Vec<PeakCandidate>)
        requires
            self.wf(),
            passes_done == self.frames().len(),
            46 <= passes_done,
        ensures
            r@ == peak_candidates(self.frames(), 1015),
    {
        let ghost frames = self.frames@;
        let ghost n = frames.len() as int;
        let idx = self.index;
        proof {
            lemma_slot_back(n, 46);
            lemma_slot_back(n, 49);
        }
        let f = &self.fft_outputs[(idx + HISTORY_LEN - FFT_LAG as usize) % 256];
        let s = &self.spread_outputs[(idx + 256 - SPREAD_LAG) % 256];
        assert(f@ == fft_frame(frames, n - 46));
        assert(s@ == spread_frame(frames, n - 49));
        let mut distant_slots: Vec<usize> = Vec::new();
        let mut j: usize = 0;
        while j < 14
            invariant
                self.wf(),
                frames == self.frames@,
                n == frames.len(),
                idx == n % 256,
                j <= 14,
                distant_slots@.len() == j,
                forall|k: int|
                    0 <= k < j ==> {
                        &&& 0 <= #[trigger] distant_slots@[k] < 256
                        &&& self.spread_outputs@[distant_slots@[k] as int]@ == spread_frame(
                            frames,
                            n - distant_back(k),
                        )
                    },
            decreases 14 - j,
        {
            let back = distant_back_at(j);
            proof {
                lemma_slot_back(n, back as int);
                assert(spread_frame(frames, n - back) == self.spread_outputs@[(n - back) % 256]@);
            }
            distant_slots.push((idx + 256 - back) % 256);
            j = j + 1;
        }
        let mut r: Vec<PeakCandidate> = Vec::new();
        let pass_number: u32 = passes_done - FFT_LAG;
        let mut b: usize = 10;
        while b <= 1014
            invariant
                self.wf(),
                frames == self.frames@,
                n == frames.len(),
                46 <= n <= u32::MAX,
                pass_number == n - 46,
                10 <= b <= 1015,
                f@ == fft_frame(frames, n - 46),
                s@ == spread_frame(frames, n - 49),
                f@.len() == 1025,
                s@.len() == 1025,
                distant_slots@.len() == 14,
                forall|k: int|
                    0 <= k < 14 ==> {
                        &&& 0 <= #[trigger] distant_slots@[k] < 256
                        &&& self.spread_outputs@[distant_slots@[k] as int]@ == spread_frame(
                            frames,
                            n - distant_back(k),
                        )
                    },
                r@ == peak_candidates(frames, b as int),
            decreases 1015 - b,
        {
            let x = f[b];
            let mut ok = x >= MAGNITUDE_THRESHOLD && x >= s[b - 1];
            let mut k: usize = 0;
            while k < 8
                invariant
                    10 <= b <= 1014,
                    s@.len() == 1025,
                    k <= 8,
                    ok == (x >= MAGNITUDE_THRESHOLD && x >= s@[b - 1] && forall|m: int|
                        0 <= m < k ==> x > s@[b + #[trigger] neighbor_offset(m)]),
                decreases 8 - k,
            {
                let o = neighbor_offset_at(k);
                if x <= s[(b as i32 + o) as usize] {
                    ok = false;
                }
                k = k + 1;
            }
            let mut k: usize = 0;
            while k < 14
                invariant
                    self.wf(),
                    10 <= b <= 1014,
                    k <= 14,
                    distant_slots@.len() == 14,
                    forall|m: int|
                        0 <= m < 14 ==> {
                            &&& 0 <= #[trigger] distant_slots@[m] < 256
                            &&& self.spread_outputs@[distant_slots@[m] as int]@ == spread_frame(
                                frames,
                                n - distant_back(m),
                            )
                        },
                    ok == (x >= MAGNITUDE_THRESHOLD && x >= s@[b - 1] && (forall|m: int|
                        0 <= m < 8 ==> x > s@[b + #[trigger] neighbor_offset(m)]) && forall|
                        m: int,
                    |
                        0 <= m < k ==> x > spread_frame(frames, n - #[trigger] distant_back(m))[b
                            - 1]),
                decreases 14 - k,
            {
                let other = &self.spread_outputs[distant_slots[k]];
                if x <= other[b - 1] {
                    ok = false;
                }
                k = k + 1;
            }
            assert(ok == is_peak(frames, b as int));
            if ok {
                r.push(
                    PeakCandidate {
                        fft_pass_number: pass_number,
                        bin: b as u16,
                        magnitude_before: f[b - 1],
                        magnitude: x,
                        magnitude_after: f[b + 1],
                    },
                );
            }
            b = b + 1;
        }
        r
    }
}

} // verus!
