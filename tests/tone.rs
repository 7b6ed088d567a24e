use audio_fingerprint::{FrequencyBand, PeakCandidate, SignatureGenerator};
use chfft::RFft1D;

fn hann_window() -> Vec<f32> {
    (0..2048)
        .map(|i| {
            let x = 2.0 * std::f64::consts::PI * (i as f64 + 1.0) / 2049.0;
            (0.5 - 0.5 * x.cos()) as f32
        })
        .collect()
}

fn magnitude_keys(fft: &mut RFft1D<f32>, window: &[f32], samples: &[i16]) -> Vec<u32> {
    let windowed: Vec<f32> = samples.iter().zip(window).map(|(&s, &w)| s as f32 * w).collect();
    let bins = fft.forward(&windowed);
    assert_eq!(bins.len(), 1025);
    bins.iter()
        .map(|c| ((c.re * c.re + c.im * c.im) / ((1 << 17) as f32)).max(1e-10).to_bits())
        .collect()
}

fn log_scaled(key: u32) -> f32 {
    f32::from_bits(key).ln().max(1.0 / 64.0) * 1477.3 + 6144.0
}

fn interpolate(c: &PeakCandidate) -> (u16, i32) {
    let before = log_scaled(c.magnitude_before);
    let at = log_scaled(c.magnitude);
    let after = log_scaled(c.magnitude_after);
    let variation_1 = at * 2.0 - before - after;
    assert!(variation_1 >= 0.0);
    let variation_2 = (after - before) * 32.0 / variation_1;
    (at.round() as u16, variation_2.floor() as i32)
}

#[test]
fn recurring_tone_bursts_give_recurring_peaks_at_one_kilohertz() {
    // 1000 Hz bursts of 1024 samples, one every 6144 samples (48 passes), for 2 s.
    let mut buffer = vec![0i16; 32000];
    let mut start = 512;
    while start + 1024 <= buffer.len() {
        for k in 0..1024 {
            let t = (start + k) as f64 / 16000.0;
            buffer[start + k] = (10000.0 * (2.0 * std::f64::consts::PI * 1000.0 * t).sin()) as i16;
        }
        start += 6144;
    }
    let window = hann_window();
    let mut fft = RFft1D::<f32>::new(2048);
    let mut g = SignatureGenerator::new(&buffer);
    while let Some(w) = g.next_window() {
        g.push_spectrum(&magnitude_keys(&mut fft, &window, &w));
        for i in 0..g.candidates().len() {
            let (m, o) = interpolate(&g.candidates()[i]);
            g.record_peak(i, m, o);
        }
    }
    let sig = g.finish();
    let near: Vec<u32> = sig
        .peaks(FrequencyBand::_520_1450)
        .iter()
        .filter(|p| {
            let hz = p.corrected_peak_frequency_bin as f64 * 125.0 / 1024.0;
            (hz - 1000.0).abs() <= 7.8125
        })
        .map(|p| p.fft_pass_number)
        .collect();
    assert!(!near.is_empty());
    assert_eq!(near, vec![15, 63, 111, 159]);
}

