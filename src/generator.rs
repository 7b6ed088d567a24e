use vstd::prelude::*;
use crate::ring::{SampleRing, recent_window, CHUNK_LEN};
use crate::spectrum::{SpectralHistory, NUM_BINS};
use crate::recognition::{
    PeakCandidate, FFT_LAG, peak_candidates, is_peak, candidate_of, lemma_candidates_are_peaks,
};
use crate::signature::{DecodedSignature, FrequencyPeak, SAMPLE_RATE_HZ, band_of, band_for_bin};

verus! {

/// A corrected bin: the bin in 1/64 of a bin plus the interpolated offset,
/// truncated to 16 bits.
pub open spec fn corrected_bin(bin: int, offset: int) -> int {
    (bin * 64 + offset) % 65536
}

/// The peak that a candidate becomes, given its log-scaled magnitude and its
/// interpolated offset in 1/64 of a bin.
pub open spec fn peak_of(c: PeakCandidate, peak_magnitude: u16, offset: int) -> FrequencyPeak {
    FrequencyPeak {
        fft_pass_number: c.fft_pass_number,
        peak_magnitude,
        corrected_peak_frequency_bin: corrected_bin(c.bin as int, offset) as u16,
        sample_rate_hz: SAMPLE_RATE_HZ,
    }
}

/// Computes the corrected bin of a peak from its bin and the interpolated offset.
pub fn correct_bin(bin: u16, offset: i32) -> (r: u16)
    ensures
        r as int == corrected_bin(bin as int, offset as int),
{
    let t: i64 = bin as i64 * 64 + offset as i64 + 65536 * 65536;
    proof {
        vstd::arithmetic::div_mod::lemma_mod_multiples_vanish(
            65536,
            bin as int * 64 + offset as int,
            65536,
        );
    }
    ((t as u64) % 65536) as u16
}

/// The state of one signature computation over one buffer of samples: the
/// buffer is taken in chunk by chunk; the caller turns each analysis window
/// into a magnitude frame and each peak candidate into a magnitude and an
/// interpolated offset.
pub struct SignatureGenerator {
    input: Vec<i16>,
    chunks_fed: usize,
    ring: SampleRing,
    history: SpectralHistory,
    num_spread_ffts_done: u32,
    pending: Vec<PeakCandidate>,
    signature: DecodedSignature,
    recognitions: Ghost<nat>,
}

impl SignatureGenerator {
    /// The samples the signature is computed over.
    pub closed spec fn input(&self) -> Seq<i16> {
        self.input@
    }

    /// How many chunks the ring has taken in.
    pub closed spec fn chunks_fed(&self) -> nat {
        self.chunks_fed as nat
    }

    /// The magnitude frames of the analysis passes so far.
    pub closed spec fn frames(&self) -> Seq<Seq<u32>> {
        self.history.frames()
    }

    /// How many analysis passes are done.
    pub open spec fn passes(&self) -> nat {
        self.frames().len()
    }

    /// How many recognition passes are done.
    pub closed spec fn recognitions(&self) -> nat {
        self.recognitions@
    }

    /// The peak candidates of the latest recognition pass.
    pub closed spec fn pending(&self) -> Seq<PeakCandidate> {
        self.pending@
    }

    /// The signature as far as it is computed.
    pub closed spec fn current_signature(&self) -> DecodedSignature {
        self.signature
    }

    /// A window has been handed out whose magnitude frame is still owed.
    pub open spec fn awaiting_spectrum(&self) -> bool {
        self.chunks_fed() == self.passes() + 1
    }

    /// The ring holds the chunks taken in, the histories the frames pushed, the
    /// pending candidates those of the latest recognition pass, and the
    /// signature no peak before the first recognition pass.
    pub closed spec fn wf(&self) -> bool {
        let passes = self.history.frames().len();
        &&& self.ring.wf()
        &&& self.history.wf()
        &&& self.signature.wf()
        &&& self.input@.len() <= u32::MAX
        &&& self.signature.number_samples == self.input@.len()
        &&& self.chunks_fed <= self.input@.len() / 128
        &&& self.ring.history() == self.input@.subrange(0, 128 * self.chunks_fed)
        &&& self.num_spread_ffts_done == passes
        &&& (self.chunks_fed == passes || self.chunks_fed == passes + 1)
        &&& self.recognitions@ == if passes >= 46 {
            passes - 45
        } else {
            0
        }
        &&& self.pending@ == if passes >= 46 {
            peak_candidates(self.history.frames(), 1015)
        } else {
            Seq::empty()
        }
        &&& passes < 46 ==> self.signature.is_empty()
    }

    /// Starts a computation over `buffer`; nothing is taken in yet.
    pub fn new(buffer: &[i16]) -> (r: SignatureGenerator)
        requires
            buffer@.len() <= u32::MAX,
        ensures
            r.wf(),
            r.input() == buffer@,
            r.chunks_fed() == 0,
            r.passes() == 0,
            r.recognitions() == 0,
            r.current_signature().is_empty(),
            r.current_signature().number_samples == buffer@.len(),
            r.current_signature().sample_rate_hz == SAMPLE_RATE_HZ,
    {
        let mut input: Vec<i16> = Vec::new();
        let mut i: usize = 0;
        while i < buffer.len()
            invariant
                i <= buffer@.len(),
                input@ == buffer@.subrange(0, i as int),
            decreases buffer@.len() - i,
        {
            input.push(buffer[i]);
            i = i + 1;
            assert(input@ =~= buffer@.subrange(0, i as int));
        }
        assert(input@ =~= buffer@);
        let ring = SampleRing::new();
        assert(ring.history() =~= input@.subrange(0, 0));
        SignatureGenerator {
            input,
            chunks_fed: 0,
            ring,
            history: SpectralHistory::new(),
            num_spread_ffts_done: 0,
            pending: Vec::new(),
            signature: DecodedSignature::new(buffer.len() as u32),
            recognitions: Ghost(0),
        }
    }

    /// Takes in the next whole chunk of the input, if one is left, and returns
    /// the analysis window in chronological order. A trailing part shorter than
    /// a chunk is never taken in.
    pub fn next_window(&mut self) -> (r: Option<Vec<i16>>)
        requires
            old(self).wf(),
            !old(self).awaiting_spectrum(),
        ensures
            final(self).wf(),
            final(self).input() == old(self).input(),
            final(self).frames() == old(self).frames(),
            final(self).recognitions() == old(self).recognitions(),
            final(self).pending() == old(self).pending(),
            final(self).current_signature() == old(self).current_signature(),
            old(self).chunks_fed() < old(self).input().len() / 128 ==> {
                &&& final(self).chunks_fed() == old(self).chunks_fed() + 1
                &&& r matches Some(w) && w@ == recent_window(
                    old(self).input().subrange(0, 128 * final(self).chunks_fed() as int),
                )
            },
            old(self).chunks_fed() >= old(self).input().len() / 128 ==> {
                &&& r is None
                &&& final(self).chunks_fed() == old(self).chunks_fed()
                &&& final(self).passes() == old(self).input().len() / 128
            },
    {
        if self.chunks_fed < self.input.len() / CHUNK_LEN {
            let start = self.chunks_fed * CHUNK_LEN;
            let chunk = vstd::slice::slice_subrange(self.input.as_slice(), start, start + CHUNK_LEN);
            self.ring.ingest(chunk);
            self.chunks_fed = self.chunks_fed + 1;
            assert(self.ring.history() =~= self.input@.subrange(0, 128 * self.chunks_fed));
            Some(self.ring.chronological())
        } else {
            None
        }
    }

    /// Takes in the magnitude frame of the window handed out last, spreads it
    /// over the spread history, and from the 46th pass on runs a recognition
    /// pass, whose candidates replace the pending ones.
    pub fn push_spectrum(&mut self, magnitudes: &[u32])
        requires
            old(self).wf(),
            old(self).awaiting_spectrum(),
            magnitudes@.len() == 1025,
        ensures
            final(self).wf(),
            final(self).input() == old(self).input(),
            final(self).chunks_fed() == old(self).chunks_fed(),
            final(self).frames() == old(self).frames().push(magnitudes@),
            final(self).current_signature() == old(self).current_signature(),
            final(self).passes() >= 46 ==> final(self).recognitions() == old(self).recognitions() + 1
                && final(self).pending() == peak_candidates(final(self).frames(), 1015),
            final(self).passes() < 46 ==> final(self).recognitions() == 0
                && final(self).pending().len() == 0,
    {
        self.history.push(magnitudes);
        self.num_spread_ffts_done = self.num_spread_ffts_done + 1;
        if self.num_spread_ffts_done >= FFT_LAG {
            self.pending = self.history.find_peaks(self.num_spread_ffts_done);
            self.recognitions = Ghost(self.recognitions@ + 1);
        }
    }

    /// The peak candidates of the latest recognition pass, in increasing order
    /// of bin.
    pub fn candidates(&self) -> (r: &Vec<PeakCandidate>)
        requires
            self.wf(),
        ensures
            r@ == self.pending(),
    {
        &self.pending
    }

    /// Records the pending candidate at `index` as a peak, with the magnitude
    /// and the offset (in 1/64 of a bin) that interpolation gave it, in the band
    /// that holds its frequency; a candidate outside all bands is dropped.
    pub fn record_peak(&mut self, index: usize, peak_magnitude: u16, offset: i32)
        requires
            old(self).wf(),
            index < old(self).pending().len(),
        ensures
            final(self).wf(),
            final(self).input() == old(self).input(),
            final(self).chunks_fed() == old(self).chunks_fed(),
            final(self).frames() == old(self).frames(),
            final(self).recognitions() == old(self).recognitions(),
            final(self).pending() == old(self).pending(),
            ({
                let peak = peak_of(old(self).pending()[index as int], peak_magnitude, offset as int);
                let old_sig = old(self).current_signature();
                let sig = final(self).current_signature();
                &&& sig.sample_rate_hz == old_sig.sample_rate_hz
                &&& sig.number_samples == old_sig.number_samples
                &&& match band_of(peak.corrected_peak_frequency_bin as int) {
                    Some(band) => {
                        &&& sig.band_peaks(band) == old_sig.band_peaks(band).push(peak)
                        &&& forall|other| other != band ==> #[trigger] sig.band_peaks(other) == old_sig.band_peaks(other)
                    },
                    None => sig == old_sig,
                }
            }),
    {
        let c = self.pending[index];
        let corrected = correct_bin(c.bin, offset);
        match band_for_bin(corrected) {
            Some(band) => {
                let peak = FrequencyPeak {
                    fft_pass_number: c.fft_pass_number,
                    peak_magnitude,
                    corrected_peak_frequency_bin: corrected,
                    sample_rate_hz: SAMPLE_RATE_HZ,
                };
                self.signature.append(band, peak);
            },
            None => {},
        }
    }

    /// The signature as far as it is computed.
    pub fn signature(&self) -> (r: &DecodedSignature)
        ensures
            *r == self.current_signature(),
    {
        &self.signature
    }

    /// Ends the computation and hands out the signature.
    pub fn finish(self) -> (r: DecodedSignature)
        requires
            self.wf(),
        ensures
            r == self.current_signature(),
            r.wf(),
            r.number_samples == self.input().len(),
            r.sample_rate_hz == SAMPLE_RATE_HZ,
    {
        self.signature
    }
}

/// The recorded metadata is the length of the input and the library's sample
/// rate, at every step.
pub proof fn lemma_signature_metadata(g: &SignatureGenerator)
    requires
        g.wf(),
    ensures
        g.current_signature().number_samples == g.input().len(),
        g.current_signature().sample_rate_hz == SAMPLE_RATE_HZ,
{
}

/// An input shorter than one chunk gives no analysis pass and no peak.
pub proof fn lemma_short_input_has_no_peaks(g: &SignatureGenerator)
    requires
        g.wf(),
        g.input().len() < 128,
    ensures
        g.passes() == 0,
        g.chunks_fed() == 0,
        g.current_signature().is_empty(),
{
}

/// There is one analysis pass per whole chunk taken in, never more than the
/// whole chunks of the input, and one recognition pass for each analysis pass
/// from the 46th on.
pub proof fn lemma_pass_counts(g: &SignatureGenerator)
    requires
        g.wf(),
    ensures
        g.passes() <= g.chunks_fed() <= g.input().len() / 128,
        g.recognitions() == if g.passes() >= 46 {
            g.passes() - 45
        } else {
            0
        },
{
}

/// Two computations that took in the same magnitude frames hold the same
/// candidates; the same samples taken in give the same window.
pub proof fn lemma_same_frames_same_candidates(g1: &SignatureGenerator, g2: &SignatureGenerator)
    requires
        g1.wf(),
        g2.wf(),
        g1.frames() == g2.frames(),
    ensures
        g1.pending() == g2.pending(),
{
}

/// Each pending candidate is a peak of the frame 46 passes back, recorded with
/// that frame's magnitudes and pass number.
pub proof fn lemma_pending_are_peaks(g: &SignatureGenerator)
    requires
        g.wf(),
    ensures
        forall|i: int|
            0 <= i < g.pending().len() ==> {
                let c = #[trigger] g.pending()[i];
                &&& 10 <= c.bin <= 1014
                &&& is_peak(g.frames(), c.bin as int)
                &&& c == candidate_of(g.frames(), c.bin as int)
            },
{
    lemma_candidates_are_peaks(g.frames(), 1015);
}

} // verus!
