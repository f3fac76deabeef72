use node_system_audio::ring::{RetentionRing, DEFAULT_CEILING_SECS};

fn ring() -> RetentionRing {
    RetentionRing::new(1000, 10, 10)
}

/// Peaks scaled to -1.0..=1.0.
fn normalised(ring: &RetentionRing, buckets: usize) -> Vec<f32> {
    ring.peaks(buckets).iter().map(|&p| p as f32 / 32768.0).collect()
}

#[test]
fn reads_back_pushed_samples() {
    let mut r = ring();
    r.push(&[1, 2, 3]);
    assert_eq!(r.window_frames(), 3);
    assert_eq!(r.read_frames(0, 3), vec![1, 2, 3]);
}

#[test]
fn wraps_and_keeps_tail() {
    let mut r = ring();
    r.push(&[1, 2, 3, 4, 5, 6, 7, 8, 9, 10, 11, 12]);
    assert_eq!(r.window_frames(), 10);
    assert_eq!(r.read_frames(0, 10), vec![3, 4, 5, 6, 7, 8, 9, 10, 11, 12]);
}

#[test]
fn oversized_push_keeps_its_tail() {
    let mut r = ring();
    let big: Vec<i16> = (1..=25).collect();
    r.push(&big);
    assert_eq!(
        r.read_frames(0, 10),
        vec![16, 17, 18, 19, 20, 21, 22, 23, 24, 25]
    );
}

#[test]
fn retention_hides_and_restores() {
    let mut r = ring();
    r.push(&[1, 2, 3, 4, 5, 6, 7, 8]);

    r.set_retention_frames(3);
    assert_eq!(r.read_frames(0, 3), vec![6, 7, 8]);

    r.set_retention_frames(8);
    assert_eq!(r.read_frames(0, 8), vec![1, 2, 3, 4, 5, 6, 7, 8]);
}

#[test]
fn ranges_clamp() {
    let mut r = ring();
    r.push(&[1, 2, 3]);
    assert_eq!(r.read_frames(2, 99), vec![3]);
    assert!(r.read_frames(5, 2).is_empty());
    assert!(r.read_frames(0, 0).is_empty());
}

#[test]
fn peaks_bracket_signal() {
    let mut r = ring();
    r.push(&[i16::MIN, i16::MAX]);
    let p = normalised(&r, 1);
    assert_eq!(p.len(), 2);
    assert!((p[0] - -1.0).abs() < 1e-6);
    assert!(p[1] > 0.99 && p[1] <= 1.0);
}

#[test]
fn empty_ring_peaks_are_flat() {
    assert_eq!(normalised(&ring(), 4), vec![0.0; 8]);
}

#[test]
fn pushes_in_pieces_give_the_same_window() {
    let all: Vec<i16> = (0..37).collect();
    let mut whole = ring();
    whole.push(&all);
    for cut in 0..all.len() {
        let mut pieces = ring();
        pieces.push(&all[..cut]);
        pieces.push(&all[cut..]);
        assert_eq!(pieces.read_frames(0, 10), whole.read_frames(0, 10));
    }
}

#[test]
fn wrapping_pushes_match_a_plain_tail() {
    let mut r = RetentionRing::new(1000, 7, 5);
    let mut all: Vec<i16> = Vec::new();
    let mut next: i16 = 0;
    for step in 0..40usize {
        let len = (step * 5) % 11;
        let chunk: Vec<i16> = (0..len).map(|i| next + i as i16).collect();
        next += len as i16;
        r.push(&chunk);
        all.extend(&chunk);
        let from = all.len().saturating_sub(5);
        assert_eq!(r.read_frames(0, 5), all[from..].to_vec());
        assert_eq!(r.window_frames(), all.len().min(5));
    }
}

#[test]
fn limits_clamp_at_construction() {
    let mut r = RetentionRing::new(1000, 0, 0);
    assert_eq!(r.retention_frames(), 1);
    r.push(&[4, 5, 6]);
    assert_eq!(r.read_frames(0, 9), vec![6]);
    assert_eq!(RetentionRing::new(1000, 5, 99).retention_frames(), 5);
    assert_eq!(RetentionRing::new(1000, 5, 3).retention_frames(), 3);
}

#[test]
fn retention_clamps_to_the_ceiling() {
    let mut r = ring();
    r.set_retention_frames(1_000);
    assert_eq!(r.retention_frames(), 10);
    r.set_retention_frames(0);
    assert_eq!(r.retention_frames(), 1);
}

#[test]
fn lengths_in_milliseconds() {
    let mut r = RetentionRing::new(16_000, 32_000, 32_000);
    r.push(&vec![7; 16_100]);
    assert_eq!(r.rate(), 16_000);
    assert_eq!(r.window_ms(), 1_006);
    assert_eq!(r.ms_to_frames(1_006), 16_096);
    assert_eq!(r.ms_to_frames(u32::MAX), 68_719_476_720);
}

#[test]
fn a_rate_of_zero_counts_as_one() {
    let mut r = RetentionRing::new(0, 10, 10);
    r.push(&[1, 2, 3]);
    assert_eq!(r.window_ms(), 3_000);
    assert_eq!(r.ms_to_frames(5_000), 0);
}

#[test]
fn adjacent_reads_join() {
    let mut r = ring();
    r.push(&[1, 2, 3, 4, 5, 6, 7]);
    let mut joined = r.read_frames(1, 4);
    joined.extend(r.read_frames(4, 6));
    assert_eq!(joined, r.read_frames(1, 6));
    assert_eq!(joined, vec![2, 3, 4, 5, 6]);
}

#[test]
fn peaks_of_every_bucket() {
    let mut r = ring();
    r.push(&[5, -3, 8, 2, -9, 1]);
    assert_eq!(r.peaks(3), vec![-3, 5, 2, 8, -9, 1]);
    assert_eq!(r.peaks(4), vec![5, 5, -3, 8, 2, 2, -9, 1]);
    assert_eq!(r.peaks(0), vec![-9, 8]);
}

#[test]
fn more_buckets_than_frames_repeat_frames() {
    let mut r = ring();
    r.push(&[4, -4]);
    assert_eq!(r.peaks(4), vec![4, 4, 4, 4, -4, -4, -4, -4]);
}

#[test]
fn every_frame_shows_in_any_number_of_buckets() {
    let mut r = ring();
    let frames: Vec<i16> = vec![3, -7, 11, -2, 9, 0, -5];
    r.push(&frames);
    for buckets in 1..40 {
        let p = r.peaks(buckets);
        for f in &frames {
            assert!(p.chunks(2).any(|b| b[0] <= *f && *f <= b[1]), "{f} in {buckets}");
        }
    }
}

#[test]
fn clearing_keeps_the_limits() {
    let mut r = ring();
    r.set_retention_frames(4);
    r.push(&[1, 2, 3, 4, 5]);
    r.clear();
    assert_eq!(r.window_frames(), 0);
    assert_eq!(r.retention_frames(), 4);
    assert!(r.read_frames(0, 10).is_empty());
    r.push(&[9]);
    assert_eq!(r.read_frames(0, 10), vec![9]);
}

#[test]
fn default_ceiling_is_an_hour() {
    assert_eq!(DEFAULT_CEILING_SECS, 3_600);
}
