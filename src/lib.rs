//! Acoustic fingerprinting of mono 16 kHz audio: the sample ring buffer, the
//! spectral histories with their peak spreading, the peak recognizer and the
//! signature that collects the recognized peaks.
//!
//! Floating-point work (windowing, the forward FFT, logarithms) is done by the
//! caller. Power magnitudes reach this library as magnitude keys: the IEEE-754
//! bit patterns of non-negative single-precision values, whose integer order is
//! the numeric order of the values they encode.
mod generator;
mod recognition;
mod ring;
mod signature;
mod spectrum;

pub use generator::{
    SignatureGenerator, corrected_bin, peak_of, correct_bin, lemma_signature_metadata,
    lemma_short_input_has_no_peaks, lemma_pass_counts, lemma_same_frames_same_candidates,
    lemma_pending_are_peaks,
};
pub use recognition::{
    PeakCandidate, MAGNITUDE_THRESHOLD, FFT_LAG, SPREAD_LAG, neighbor_offset, distant_back, is_peak,
    candidate_of, peak_candidates, lemma_candidates_are_peaks,
};
pub use ring::{SampleRing, recent_window};
pub use signature::{
    DecodedSignature, FrequencyBand, FrequencyPeak, SAMPLE_RATE_HZ, band_for_bin, band_of,
    hz_times_1024, lemma_recorded_peaks_in_band,
};
pub use spectrum::{
    SpectralHistory, NUM_BINS, HISTORY_LEN, key_max, smear, zero_frame, fft_frame, smeared_value,
    spread_frame, max_key,
};
