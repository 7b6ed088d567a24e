use vstd::prelude::*;

verus! {

/// Sample rate of the audio that signatures describe, in Hz.
pub const SAMPLE_RATE_HZ: u32 = 16000;

/// The four frequency ranges that peaks are grouped by.
#[derive(Clone, Copy, Debug, PartialEq, Eq, Hash, Structural)]
pub enum FrequencyBand {
    /// [250, 520) Hz
    _250_520,
    /// [520, 1450) Hz
    _520_1450,
    /// [1450, 3500) Hz
    _1450_3500,
    /// [3500, 5500] Hz
    _3500_5500,
}

/// One recognized spectral peak.
#[derive(Clone, Copy, Debug, PartialEq, Eq, Structural)]
pub struct FrequencyPeak {
    /// The analysis pass whose spectrum holds the peak.
    pub fft_pass_number: u32,
    /// The log-scaled magnitude of the peak.
    pub peak_magnitude: u16,
    /// The peak's frequency in 1/64 of an FFT bin.
    pub corrected_peak_frequency_bin: u16,
    pub sample_rate_hz: u32,
}

/// A corrected bin `c` (in 1/64 of a bin of 8000/1024 Hz) lies at `c * 125 / 1024` Hz;
/// this is that frequency times 1024.
pub open spec fn hz_times_1024(corrected_bin: int) -> int {
    corrected_bin * 125
}

/// The band whose range holds the frequency of a corrected bin, if any.
pub open spec fn band_of(corrected_bin: int) -> Option<FrequencyBand> {
    let x = hz_times_1024(corrected_bin);
    if 250 * 1024 <= x < 520 * 1024 {
        Some(FrequencyBand::_250_520)
    } else if 520 * 1024 <= x < 1450 * 1024 {
        Some(FrequencyBand::_520_1450)
    } else if 1450 * 1024 <= x < 3500 * 1024 {
        Some(FrequencyBand::_1450_3500)
    } else if 3500 * 1024 <= x <= 5500 * 1024 {
        Some(FrequencyBand::_3500_5500)
    } else {
        None
    }
}

/// The band that holds the frequency of a corrected bin, or `None` where it
/// lies outside all four.
pub fn band_for_bin(corrected_bin: u16) -> (r: Option<FrequencyBand>)
    ensures
        r == band_of(corrected_bin as int),
{
    let x: u32 = corrected_bin as u32 * 125;
    if 250 * 1024 <= x && x < 520 * 1024 {
        Some(FrequencyBand::_250_520)
    } else if 520 * 1024 <= x && x < 1450 * 1024 {
        Some(FrequencyBand::_520_1450)
    } else if 1450 * 1024 <= x && x < 3500 * 1024 {
        Some(FrequencyBand::_1450_3500)
    } else if 3500 * 1024 <= x && x <= 5500 * 1024 {
        Some(FrequencyBand::_3500_5500)
    } else {
        None
    }
}

/// The fingerprint: sample metadata and the peaks found, grouped by band in the
/// order they were found.
pub struct DecodedSignature {
    pub sample_rate_hz: u32,
    pub number_samples: u32,
    pub band_250_520: Vec<FrequencyPeak>,
    pub band_520_1450: Vec<FrequencyPeak>,
    pub band_1450_3500: Vec<FrequencyPeak>,
    pub band_3500_5500: Vec<FrequencyPeak>,
}

impl DecodedSignature {
    /// The peaks of one band, oldest first.
    pub open spec fn band_peaks(&self, band: FrequencyBand) -> Seq<FrequencyPeak> {
        match band {
            FrequencyBand::_250_520 => self.band_250_520@,
            FrequencyBand::_520_1450 => self.band_520_1450@,
            FrequencyBand::_1450_3500 => self.band_1450_3500@,
            FrequencyBand::_3500_5500 => self.band_3500_5500@,
        }
    }

    /// No band holds a peak.
    pub open spec fn is_empty(&self) -> bool {
        forall|band: FrequencyBand| (#[trigger] self.band_peaks(band)).len() == 0
    }

    /// Every peak lies in the band it is filed under, at the library's sample rate.
    pub open spec fn wf(&self) -> bool {
        &&& self.sample_rate_hz == SAMPLE_RATE_HZ
        &&& forall|band: FrequencyBand, i: int|
            0 <= i < self.band_peaks(band).len() ==> {
                let p = #[trigger] self.band_peaks(band)[i];
                &&& band_of(p.corrected_peak_frequency_bin as int) == Some(band)
                &&& p.sample_rate_hz == SAMPLE_RATE_HZ
            }
    }

    /// A signature of `number_samples` samples with no peaks yet.
    pub fn new(number_samples: u32) -> (r: DecodedSignature)
        ensures
            r.wf(),
            r.is_empty(),
            r.sample_rate_hz == SAMPLE_RATE_HZ,
            r.number_samples == number_samples,
    {
        DecodedSignature {
            sample_rate_hz: SAMPLE_RATE_HZ,
            number_samples,
            band_250_520: Vec::new(),
            band_520_1450: Vec::new(),
            band_1450_3500: Vec::new(),
            band_3500_5500: Vec::new(),
        }
    }

    /// The peaks of one band, oldest first.
    pub fn peaks(&self, band: FrequencyBand) -> (r: &Vec<FrequencyPeak>)
        ensures
            r@ == self.band_peaks(band),
    {
        match band {
            FrequencyBand::_250_520 => &self.band_250_520,
            FrequencyBand::_520_1450 => &self.band_520_1450,
            FrequencyBand::_1450_3500 => &self.band_1450_3500,
            FrequencyBand::_3500_5500 => &self.band_3500_5500,
        }
    }

    /// Appends a peak to the band it belongs to.
    pub fn append(&mut self, band: FrequencyBand, peak: FrequencyPeak)
        requires
            old(self).wf(),
            band_of(peak.corrected_peak_frequency_bin as int) == Some(band),
            peak.sample_rate_hz == SAMPLE_RATE_HZ,
        ensures
            final(self).wf(),
            final(self).sample_rate_hz == old(self).sample_rate_hz,
            final(self).number_samples == old(self).number_samples,
            final(self).band_peaks(band) == old(self).band_peaks(band).push(peak),
            forall|other: FrequencyBand|
                other != band ==> #[trigger] final(self).band_peaks(other) == old(self).band_peaks(
                    other,
                ),
    {
        match band {
            FrequencyBand::_250_520 => self.band_250_520.push(peak),
            FrequencyBand::_520_1450 => self.band_520_1450.push(peak),
            FrequencyBand::_1450_3500 => self.band_1450_3500.push(peak),
            FrequencyBand::_3500_5500 => self.band_3500_5500.push(peak),
        }
        assert forall|b: FrequencyBand, i: int|
            0 <= i < self.band_peaks(b).len() implies {
                let p = #[trigger] self.band_peaks(b)[i];
                &&& band_of(p.corrected_peak_frequency_bin as int) == Some(b)
                &&& p.sample_rate_hz == SAMPLE_RATE_HZ
            } by {
            if b == band && i == self.band_peaks(b).len() - 1 {
            } else {
                assert(self.band_peaks(b)[i] == old(self).band_peaks(b)[i]);
            }
        }
    }
}

/// Every peak of a signature lies strictly within the band it is filed under,
/// and so within [250, 5500] Hz.
pub proof fn lemma_recorded_peaks_in_band(sig: &DecodedSignature)
    requires
        sig.wf(),
    ensures
        forall|band: FrequencyBand, i: int|
            0 <= i < sig.band_peaks(band).len() ==> {
                let c = (#[trigger] sig.band_peaks(band)[i]).corrected_peak_frequency_bin as int;
                &&& band_of(c) == Some(band)
                &&& 250 * 1024 <= hz_times_1024(c) <= 5500 * 1024
            },
{
}

} // verus!
