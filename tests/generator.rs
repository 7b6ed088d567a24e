use audio_fingerprint::{DecodedSignature, FrequencyBand, FrequencyPeak, SignatureGenerator};

const BANDS: [FrequencyBand; 4] = [
    FrequencyBand::_250_520,
    FrequencyBand::_520_1450,
    FrequencyBand::_1450_3500,
    FrequencyBand::_3500_5500,
];

fn floor_key() -> u32 {
    1e-10f32.to_bits()
}

fn total_peaks(sig: &DecodedSignature) -> usize {
    BANDS.iter().map(|&b| sig.peaks(b).len()).sum()
}

/// Drives a computation over `buffer`, with `frame_of(pass)` as the magnitude
/// frame of each pass and a fixed magnitude and offset for each candidate.
/// Returns the signature, the number of passes and the candidates seen.
fn run(
    buffer: &[i16],
    frame_of: &dyn Fn(usize) -> Vec<u32>,
) -> (DecodedSignature, usize, Vec<(usize, u16)>) {
    let mut g = SignatureGenerator::new(buffer);
    let mut passes = 0;
    let mut seen = Vec::new();
    while let Some(w) = g.next_window() {
        assert_eq!(w.len(), 2048);
        g.push_spectrum(&frame_of(passes));
        passes += 1;
        let n = g.candidates().len();
        for i in 0..n {
            seen.push((passes, g.candidates()[i].bin));
            g.record_peak(i, 7000, 10);
        }
    }
    (g.finish(), passes, seen)
}

fn one_spike(pass: usize, bins: &[(usize, f32)]) -> impl Fn(usize) -> Vec<u32> + '_ {
    move |p| {
        let mut f = vec![floor_key(); 1025];
        if p == pass {
            for &(b, v) in bins {
                f[b] = v.to_bits();
            }
        }
        f
    }
}

#[test]
fn short_input_gives_no_pass_and_no_peak() {
    let buffer = vec![1000i16; 127];
    let (sig, passes, seen) = run(&buffer, &|_| vec![floor_key(); 1025]);
    assert_eq!(passes, 0);
    assert!(seen.is_empty());
    assert_eq!(total_peaks(&sig), 0);
    assert_eq!(sig.number_samples, 127);
    assert_eq!(sig.sample_rate_hz, 16000);
}

#[test]
fn empty_input_gives_empty_signature() {
    let (sig, passes, _) = run(&[], &|_| vec![floor_key(); 1025]);
    assert_eq!(passes, 0);
    assert_eq!(total_peaks(&sig), 0);
    assert_eq!(sig.number_samples, 0);
}

#[test]
fn one_pass_per_whole_chunk() {
    let buffer = vec![0i16; 128 * 50 + 77];
    let (sig, passes, _) = run(&buffer, &|_| vec![floor_key(); 1025]);
    assert_eq!(passes, 50);
    assert_eq!(sig.number_samples, 128 * 50 + 77);
}

#[test]
fn silence_gives_no_peaks() {
    let buffer = vec![0i16; 50000];
    let mut g = SignatureGenerator::new(&buffer);
    let mut passes = 0;
    while let Some(w) = g.next_window() {
        assert!(w.iter().all(|&s| s == 0));
        g.push_spectrum(&vec![floor_key(); 1025]);
        passes += 1;
        assert!(g.candidates().is_empty());
    }
    assert_eq!(passes, 390);
    let sig = g.finish();
    assert_eq!(total_peaks(&sig), 0);
    assert_eq!(sig.number_samples, 50000);
    assert_eq!(sig.sample_rate_hz, 16000);
}

#[test]
fn a_lone_spike_is_recognized_46_passes_later() {
    let buffer = vec![0i16; 128 * 100];
    let frames = one_spike(0, &[(100, 1.0)]);
    let (sig, passes, seen) = run(&buffer, &frames);
    assert_eq!(passes, 100);
    assert_eq!(seen, vec![(46, 100)]);
    let expected = FrequencyPeak {
        fft_pass_number: 0,
        peak_magnitude: 7000,
        corrected_peak_frequency_bin: 6410,
        sample_rate_hz: 16000,
    };
    assert_eq!(sig.peaks(FrequencyBand::_520_1450), &vec![expected]);
    assert_eq!(total_peaks(&sig), 1);
}

#[test]
fn candidate_carries_the_neighbouring_magnitudes() {
    let buffer = vec![0i16; 128 * 46];
    let mut g = SignatureGenerator::new(&buffer);
    let mut p = 0;
    while g.next_window().is_some() {
        let mut f = vec![floor_key(); 1025];
        if p == 0 {
            f[199] = 0.25f32.to_bits();
            f[200] = 1.0f32.to_bits();
            f[201] = 0.5f32.to_bits();
        }
        g.push_spectrum(&f);
        p += 1;
    }
    let c = g.candidates();
    assert_eq!(c.len(), 1);
    assert_eq!(c[0].bin, 200);
    assert_eq!(c[0].fft_pass_number, 0);
    assert_eq!(c[0].magnitude_before, 0.25f32.to_bits());
    assert_eq!(c[0].magnitude, 1.0f32.to_bits());
    assert_eq!(c[0].magnitude_after, 0.5f32.to_bits());
}

#[test]
fn a_stronger_neighbour_suppresses_a_peak() {
    let buffer = vec![0i16; 128 * 60];
    let frames = one_spike(0, &[(100, 1.0), (105, 2.0)]);
    let (_, _, seen) = run(&buffer, &frames);
    assert_eq!(seen, vec![(46, 105)]);
}

#[test]
fn a_later_stronger_frame_suppresses_a_peak() {
    let buffer = vec![0i16; 128 * 60];
    let frames = |p: usize| {
        let mut f = vec![floor_key(); 1025];
        if p == 0 {
            f[100] = 1.0f32.to_bits();
        }
        if p == 1 {
            f[100] = 2.0f32.to_bits();
        }
        f
    };
    let (_, _, seen) = run(&buffer, &frames);
    assert_eq!(seen, vec![(47, 100)]);
}

#[test]
fn below_threshold_is_no_peak() {
    let buffer = vec![0i16; 128 * 60];
    let frames = one_spike(0, &[(100, 0.015)]);
    let (_, _, seen) = run(&buffer, &frames);
    assert!(seen.is_empty());
}

#[test]
fn peak_outside_all_bands_is_dropped() {
    let buffer = vec![0i16; 128 * 60];
    let frames = one_spike(0, &[(20, 1.0)]);
    let (sig, _, seen) = run(&buffer, &frames);
    assert_eq!(seen, vec![(46, 20)]);
    assert_eq!(total_peaks(&sig), 0);
}

#[test]
fn same_input_gives_same_signature() {
    let buffer: Vec<i16> = (0..128 * 120).map(|i| (i % 300) as i16).collect();
    let frames = |p: usize| {
        let mut f = vec![floor_key(); 1025];
        f[(p * 37) % 900 + 50] = (1.0 + p as f32).to_bits();
        f
    };
    let (a, pa, sa) = run(&buffer, &frames);
    let (b, pb, sb) = run(&buffer, &frames);
    assert_eq!(pa, pb);
    assert_eq!(sa, sb);
    assert!(!sa.is_empty());
    for band in BANDS {
        assert_eq!(a.peaks(band), b.peaks(band));
    }
    assert_eq!(a.number_samples, b.number_samples);
}
