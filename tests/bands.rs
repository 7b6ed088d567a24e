use audio_fingerprint::{band_for_bin, correct_bin, FrequencyBand};

#[test]
fn band_edges() {
    assert_eq!(band_for_bin(2047), None);
    assert_eq!(band_for_bin(2048), Some(FrequencyBand::_250_520));
    assert_eq!(band_for_bin(4259), Some(FrequencyBand::_250_520));
    assert_eq!(band_for_bin(4260), Some(FrequencyBand::_520_1450));
    assert_eq!(band_for_bin(11878), Some(FrequencyBand::_520_1450));
    assert_eq!(band_for_bin(11879), Some(FrequencyBand::_1450_3500));
    assert_eq!(band_for_bin(28671), Some(FrequencyBand::_1450_3500));
    assert_eq!(band_for_bin(28672), Some(FrequencyBand::_3500_5500));
    assert_eq!(band_for_bin(45056), Some(FrequencyBand::_3500_5500));
    assert_eq!(band_for_bin(45057), None);
    assert_eq!(band_for_bin(0), None);
    assert_eq!(band_for_bin(65535), None);
}

#[test]
fn one_kilohertz_is_in_the_second_band() {
    assert_eq!(band_for_bin(8192), Some(FrequencyBand::_520_1450));
}

#[test]
fn corrected_bin_adds_the_offset() {
    assert_eq!(correct_bin(100, 5), 6405);
    assert_eq!(correct_bin(100, 0), 6400);
    assert_eq!(correct_bin(100, -1), 6399);
    assert_eq!(correct_bin(100, -32), 6368);
}

#[test]
fn corrected_bin_truncates_to_sixteen_bits() {
    assert_eq!(correct_bin(1014, 1000), 360);
    assert_eq!(correct_bin(10, -1000), 65176);
}
