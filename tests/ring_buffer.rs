use audio_fingerprint::SampleRing;

fn chunk_from(start: i16) -> Vec<i16> {
    (0..128).map(|k| start.wrapping_add(k as i16)).collect()
}

#[test]
fn new_ring_reads_zeros() {
    let ring = SampleRing::new();
    let w = ring.chronological();
    assert_eq!(w.len(), 2048);
    assert!(w.iter().all(|&s| s == 0));
}

#[test]
fn partial_ring_is_zero_padded_in_front() {
    let mut ring = SampleRing::new();
    ring.ingest(&chunk_from(1));
    ring.ingest(&chunk_from(129));
    let w = ring.chronological();
    assert!(w[..1792].iter().all(|&s| s == 0));
    let tail: Vec<i16> = (1..=256).collect();
    assert_eq!(&w[1792..], &tail[..]);
}

#[test]
fn wraparound_reads_the_latest_samples_in_order() {
    let mut ring = SampleRing::new();
    let mut fed: Vec<i16> = Vec::new();
    for c in 0..40 {
        let chunk = chunk_from((c * 128) as i16);
        fed.extend_from_slice(&chunk);
        ring.ingest(&chunk);
        if c >= 15 {
            let w = ring.chronological();
            assert_eq!(&w[..], &fed[fed.len() - 2048..]);
            assert!(w.windows(2).all(|p| p[0] < p[1]));
        }
    }
}
