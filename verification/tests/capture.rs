use node_system_audio::capture::Shared;
use node_system_audio::device::{default_device_changed, OpenDevice};
use node_system_audio::epoch::Epoch;
use node_system_audio::ring::RetentionRing;

const NANOS: i128 = 1_000_000_000;

#[test]
fn errors_latch() {
    let mut shared = Shared::new(RetentionRing::new(16_000, 1_000, 1_000));

    shared.record_error("device exploded".to_string());

    // Reading must not consume it: a UI polling every 200ms would see the
    // error for one frame and then lose it.
    assert_eq!(shared.error().as_deref(), Some("device exploded"));
    assert_eq!(shared.error().as_deref(), Some("device exploded"));

    shared.clear_error();
    assert_eq!(shared.error(), None);
}

#[test]
fn clear_error_lowers_fault_flag() {
    let mut shared = Shared::new(RetentionRing::new(16_000, 1_000, 1_000));
    shared.faulted = true;

    shared.clear_error();

    assert!(!shared.faulted);
}

#[test]
fn fault_consumed_once() {
    let mut shared = Shared::new(RetentionRing::new(16_000, 1_000, 1_000));
    shared.faulted = true;

    // Taken, not read, so one fault triggers one rebuild.
    assert!(shared.take_fault());
    assert!(!shared.take_fault());
}

#[test]
fn device_name_absent_until_opened() {
    let mut shared = Shared::new(RetentionRing::new(16_000, 1_000, 1_000));
    assert_eq!(shared.device_name(), None);

    shared.device_name = "Speakers".to_string();
    assert_eq!(shared.device_name().as_deref(), Some("Speakers"));
}

#[test]
fn no_deficit_within_tolerance() {
    let epoch = Epoch::new(48_000, 0);
    // Nothing accounted, but 250ms has not passed either.
    assert!(epoch.deficit(1_000) < 0);
    assert!(epoch.deficit(249_999_999) < 0);
    assert_eq!(epoch.deficit(250_000_000), 0);
}

#[test]
fn deficit_grows_when_frames_stop() {
    let epoch = Epoch::new(48_000, 0);

    // 2s elapsed, nothing received, 0.25s tolerance => ~1.75s of silence.
    let deficit = epoch.deficit(2_000_000_000) as f64 / 1e9;
    assert!(
        (deficit - 48_000.0 * 1.75).abs() < 48_000.0 * 0.1,
        "expected ~84000 frames of deficit, got {deficit}"
    );
    assert_eq!(epoch.deficit(2_000_000_000), 84_000 * NANOS);
}

#[test]
fn accounted_frames_cancel_deficit() {
    let mut epoch = Epoch::new(48_000, 0);
    epoch.receive(48_000 * 2);

    assert!(
        epoch.deficit(2_000_000_000) < 0,
        "a stream delivering on time should never trigger the gap filler"
    );
    assert_eq!(epoch.shortfall(2_000_000_000), 0);
}

#[test]
fn unidentifiable_device_never_changed() {
    assert!(!default_device_changed(&None, &None));
    assert!(!default_device_changed(&None, &Some("coreaudio:1".to_string())));
}

#[test]
fn devices_compare_by_identity() {
    let a = Some("coreaudio:1".to_string());
    let b = Some("coreaudio:2".to_string());
    assert!(default_device_changed(&a, &b));
    assert!(!default_device_changed(&a, &a.clone()));
    // Nothing to reopen onto.
    assert!(!default_device_changed(&a, &None));
}

#[test]
fn undescribed_device_is_unknown() {
    let device = OpenDevice::new(None, 48_000, 2, None);
    assert_eq!(device.name, "unknown");
    assert_eq!(device.native_rate, 48_000);
    assert_eq!(device.channels, 2);
    assert_eq!(device.id, None);
    let named = OpenDevice::new(Some("id".to_string()), 1, 1, Some("Speakers".to_string()));
    assert_eq!(named.name, "Speakers");
    assert_eq!(named.id.as_deref(), Some("id"));
}

#[test]
fn opened_device_is_visible() {
    let mut shared = Shared::new(RetentionRing::new(16_000, 10, 10));
    let device = OpenDevice::new(None, 44_100, 6, Some("Dock".to_string()));
    shared.device_opened(&device);
    assert_eq!(shared.native_rate, 44_100);
    assert_eq!(shared.channels, 6);
    assert_eq!(shared.device_name().as_deref(), Some("Dock"));
}

#[test]
fn stream_failure_flags_and_latches() {
    let mut shared = Shared::new(RetentionRing::new(16_000, 10, 10));
    shared.stream_failed("gone".to_string());
    assert!(shared.faulted);
    assert_eq!(shared.error().as_deref(), Some("gone"));
    shared.record_error("later".to_string());
    assert_eq!(shared.error().as_deref(), Some("later"));
}

#[test]
fn emptying_keeps_error_and_device() {
    let mut shared = Shared::new(RetentionRing::new(16_000, 10, 10));
    shared.store(&[1, 2, 3]);
    shared.add_silence(5);
    shared.record_error("kept".to_string());
    shared.native_rate = 48_000;
    shared.empty();
    assert_eq!(shared.ring.window_frames(), 0);
    assert_eq!(shared.silence_frames, 0);
    assert_eq!(shared.error().as_deref(), Some("kept"));
    assert_eq!(shared.native_rate, 48_000);
}

#[test]
fn counters_wrap() {
    let mut shared = Shared::new(RetentionRing::new(16_000, 10, 10));
    shared.restarts = u32::MAX;
    shared.count_restart();
    assert_eq!(shared.restarts, 0);
    shared.silence_frames = u64::MAX;
    shared.add_silence(3);
    assert_eq!(shared.silence_frames, 2);
}

#[test]
fn shortfall_is_whole_frames_beyond_the_tolerance() {
    let epoch = Epoch::new(48_000, 1_000);
    assert_eq!(epoch.shortfall(250_001_000), 0);
    // One frame at 48 kHz lasts 20833.3 ns.
    assert_eq!(epoch.shortfall(250_001_000 + 20_833), 0);
    assert_eq!(epoch.shortfall(250_001_000 + 20_834), 1);
    assert_eq!(epoch.shortfall(500_001_000), 12_000);
    // A second at most.
    assert_eq!(epoch.shortfall(1_250_001_000), 48_000);
    assert_eq!(epoch.shortfall(u64::MAX), 48_000);
    // A clock before the start owes nothing.
    assert_eq!(epoch.shortfall(0), 0);
}

#[test]
fn filling_closes_the_gap() {
    let mut epoch = Epoch::new(48_000, 0);
    let now = 3_000_000_000;
    let mut total: u64 = 0;
    let mut ticks = 0;
    loop {
        let owed = epoch.shortfall(now);
        if owed == 0 {
            break;
        }
        total += epoch.fill(owed, 16_000);
        ticks += 1;
    }
    assert_eq!(ticks, 3);
    // 2.75 s of silence, counted at the target rate.
    assert_eq!(total, 44_000);
    assert!(epoch.deficit(now) >= 0 && epoch.deficit(now) < NANOS);
}

#[test]
fn silence_fractions_carry_over() {
    let mut epoch = Epoch::new(44_100, 0);
    let mut total: u64 = 0;
    for _ in 0..44_100 {
        total += epoch.fill(1, 16_000);
    }
    assert_eq!(total, 16_000);
}

#[test]
fn successor_owes_the_interval() {
    let mut epoch = Epoch::new(48_000, 5_000_000_000);
    epoch.receive(96_000);
    let next = epoch.succeeded_by(44_100, 0);
    assert_eq!(next.rate(), 44_100);
    // Accounted up to 7 s; at 8 s a second less the tolerance is owed.
    assert_eq!(next.deficit(8_000_000_000), 44_100 * 750_000_000);
    assert_eq!(next.shortfall(8_000_000_000), 33_075);
    // Half a second of it was discarded and is owed too.
    let next = epoch.succeeded_by(44_100, 24_000);
    assert_eq!(next.deficit(8_000_000_000), 44_100 * 1_250_000_000);
}

#[test]
fn counts_know_their_room() {
    let mut epoch = Epoch::new(48_000, 0);
    assert!(epoch.has_room(1_000_000));
    assert!(!epoch.has_room(usize::MAX));
    assert!(epoch.has_room(usize::MAX - 48_000));
    epoch.receive(1);
    assert!(!epoch.has_room(usize::MAX - 48_000));
}
