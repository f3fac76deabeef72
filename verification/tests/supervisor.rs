use node_system_audio::capture::Shared;
use node_system_audio::device::OpenDevice;
use node_system_audio::ring::RetentionRing;
use node_system_audio::supervisor::{
    Action, Supervisor, DEVICE_CHECK_NS, REBUILD_BACKOFF_MS, TICK_MS,
};
use node_system_audio::Error;

const MS: u64 = 1_000_000;

fn shared() -> Shared {
    Shared::new(RetentionRing::new(16_000, 160_000, 160_000))
}

fn device(id: &str, rate: u32) -> OpenDevice {
    OpenDevice::new(Some(id.to_string()), rate, 2, Some(format!("Device {id}")))
}

fn bits(samples: &[f32]) -> Vec<u32> {
    samples.iter().map(|s| s.to_bits()).collect()
}

/// A running supervisor of a device at the ring's rate.
fn passing(shared: &mut Shared) -> Supervisor {
    Supervisor::new(shared, device("a", 16_000), 0).unwrap()
}

/// A running supervisor of a device whose engine takes four frames at a time.
fn converting(shared: &mut Shared) -> Supervisor {
    let mut s = Supervisor::new(shared, device("a", 48_000), 0).unwrap();
    s.attach_engine(Ok(4)).unwrap();
    s
}

fn reopens(action: Action) -> bool {
    matches!(action, Action::Reopen)
}

fn sleeps(action: Action) -> bool {
    matches!(action, Action::Sleep(TICK_MS))
}

#[test]
fn opened_device_facts_show_before_the_first_tick() {
    let mut shared = shared();
    let s = passing(&mut shared);
    assert!(!s.needs_engine());
    assert_eq!(shared.native_rate, 16_000);
    assert_eq!(shared.channels, 2);
    assert_eq!(shared.device_name().as_deref(), Some("Device a"));
    assert_eq!(shared.restarts, 0);
}

#[test]
fn a_device_without_a_rate_does_not_start() {
    let mut shared = shared();
    let result = Supervisor::new(&mut shared, device("a", 0), 0);
    assert!(matches!(result, Err(Error::ZeroSampleRate)));
    assert_eq!(shared.device_name().as_deref(), Some("Device a"));
}

#[test]
fn a_rejected_ratio_does_not_start() {
    let mut shared = shared();
    let mut s = Supervisor::new(&mut shared, device("a", 44_100), 0).unwrap();
    assert!(s.needs_engine());
    assert_eq!(s.engine_rates(), (44_100, 16_000));
    let error = s.attach_engine(Err(vec!["no".to_string()])).unwrap_err();
    assert!(matches!(error, Error::Resampler { from: 44_100, to: 16_000, .. }));
}

#[test]
fn staged_samples_reach_the_ring_in_order() {
    let mut shared = shared();
    let mut s = passing(&mut shared);
    assert!(sleeps(s.woke(&mut shared, &bits(&[0.5, -0.5]), 20 * MS)));
    assert!(sleeps(s.woke(&mut shared, &bits(&[1.0]), 40 * MS)));
    assert_eq!(shared.ring.read_frames(0, 9), vec![16383, -16383, 32767]);
    assert_eq!(shared.silence_frames, 0);
}

#[test]
fn a_quiet_stream_is_filled_with_silence() {
    let mut shared = shared();
    let mut s = passing(&mut shared);
    // A quarter of a second is tolerated.
    assert!(sleeps(s.woke(&mut shared, &[], 250 * MS)));
    assert_eq!(shared.ring.window_frames(), 0);
    assert!(sleeps(s.woke(&mut shared, &bits(&[1.0]), 350 * MS)));
    assert_eq!(shared.ring.window_frames(), 1_600);
    assert_eq!(shared.silence_frames, 1_599);
    let frames = shared.ring.read_frames(0, 1_600);
    assert_eq!(frames[0], 32767);
    assert!(frames[1..].iter().all(|&f| f == 0));
}

#[test]
fn a_long_gap_closes_a_second_at_a_time() {
    let mut shared = shared();
    let mut s = passing(&mut shared);
    let now = 3_250 * MS;
    for second in 1..=3usize {
        let action = s.woke(&mut shared, &[], now);
        assert_eq!(shared.ring.window_frames(), second * 16_000);
        if matches!(action, Action::PollDevice) {
            assert!(sleeps(s.polled(&Some("a".to_string()))));
        }
    }
    s.woke(&mut shared, &[], now);
    assert_eq!(shared.ring.window_ms(), 3_000);
}

#[test]
fn silence_is_counted_at_the_ring_rate() {
    let mut shared = shared();
    let mut s = Supervisor::new(&mut shared, device("a", 48_000), 0).unwrap();
    s.attach_engine(Ok(1_000_000)).unwrap();
    s.woke(&mut shared, &[], 350 * MS);
    // 100 ms, whatever the device's rate is.
    assert_eq!(shared.silence_frames, 1_600);
}

#[test]
fn chunks_go_through_the_engine_in_order() {
    let mut shared = shared();
    let mut s = converting(&mut shared);
    let staged: Vec<u32> = (1..=10).collect();
    match s.woke(&mut shared, &staged, 20 * MS) {
        Action::Convert(chunk) => assert_eq!(chunk, vec![1, 2, 3, 4]),
        _ => panic!("expected a chunk"),
    }
    match s.converted(&mut shared, Some(vec![bits(&[0.5])]), 4) {
        Action::Convert(chunk) => assert_eq!(chunk, vec![5, 6, 7, 8]),
        _ => panic!("expected a chunk"),
    }
    // Nothing is written before the engine is done.
    assert_eq!(shared.ring.window_frames(), 0);
    assert!(sleeps(s.converted(&mut shared, Some(vec![bits(&[-0.5, 1.0])]), 4)));
    assert_eq!(shared.ring.read_frames(0, 9), vec![16383, -16383, 32767]);
    // Two frames are held for next time.
    match s.woke(&mut shared, &[11, 12], 40 * MS) {
        Action::Convert(chunk) => assert_eq!(chunk, vec![9, 10, 11, 12]),
        _ => panic!("expected a chunk"),
    }
}

#[test]
fn refused_chunks_are_reported() {
    let mut shared = shared();
    let mut s = converting(&mut shared);
    s.woke(&mut shared, &[0; 8], 20 * MS);
    s.converted(&mut shared, None, 4);
    assert_eq!(shared.error(), None);
    s.converted(&mut shared, None, 4);
    assert_eq!(
        shared.error().as_deref(),
        Some("resampler rejected 2 chunk(s); some audio is missing")
    );
    // Reported once.
    shared.clear_error();
    s.woke(&mut shared, &[], 40 * MS);
    assert_eq!(shared.error(), None);
}

#[test]
fn a_fault_reopens_once_and_keeps_the_buffer() {
    let mut shared = shared();
    let mut s = passing(&mut shared);
    s.woke(&mut shared, &bits(&[1.0]), 20 * MS);
    shared.stream_failed("stream died".to_string());
    assert!(reopens(s.woke(&mut shared, &bits(&[0.5]), 40 * MS)));
    assert!(!shared.faulted);
    assert_eq!(shared.error().as_deref(), Some("stream died"));
    assert!(sleeps(s.opened(&mut shared, Ok(device("b", 16_000)))));
    assert_eq!(shared.restarts, 1);
    assert_eq!(shared.error(), None);
    assert_eq!(shared.device_name().as_deref(), Some("Device b"));
    assert!(sleeps(s.woke(&mut shared, &bits(&[-1.0]), 60 * MS)));
    assert_eq!(shared.ring.read_frames(0, 9), vec![32767, 16383, -32767]);
}

#[test]
fn the_default_device_is_looked_up_in_intervals() {
    let mut shared = shared();
    let mut s = passing(&mut shared);
    let staged = vec![0; 8_000];
    assert!(sleeps(s.woke(&mut shared, &staged, DEVICE_CHECK_NS - 1)));
    assert!(matches!(s.woke(&mut shared, &[], DEVICE_CHECK_NS), Action::PollDevice));
    assert!(sleeps(s.polled(&Some("a".to_string()))));
    assert!(sleeps(s.woke(&mut shared, &[], DEVICE_CHECK_NS + 20 * MS)));
    let later = 2 * DEVICE_CHECK_NS;
    assert!(matches!(s.woke(&mut shared, &staged, later), Action::PollDevice));
    // No device to reopen onto.
    assert!(sleeps(s.polled(&None)));
    let later = 3 * DEVICE_CHECK_NS;
    assert!(matches!(s.woke(&mut shared, &staged, later), Action::PollDevice));
    assert!(reopens(s.polled(&Some("b".to_string()))));
}

#[test]
fn a_fault_outlives_the_lookup() {
    let mut shared = shared();
    let mut s = passing(&mut shared);
    shared.stream_failed("stream died".to_string());
    assert!(matches!(s.woke(&mut shared, &[0; 8_000], DEVICE_CHECK_NS), Action::PollDevice));
    assert!(!shared.faulted);
    assert!(reopens(s.polled(&Some("a".to_string()))));
}

#[test]
fn a_failed_reopen_is_retried_once() {
    let mut shared = shared();
    let mut s = passing(&mut shared);
    shared.stream_failed("stream died".to_string());
    s.woke(&mut shared, &[], 20 * MS);
    let pause = s.opened(&mut shared, Err(Error::NoOutputDevice));
    assert!(matches!(pause, Action::BackOff(REBUILD_BACKOFF_MS)));
    assert_eq!(shared.error().as_deref(), Some("no default output device"));
    assert!(reopens(s.backed_off()));
    let end = s.opened(&mut shared, Err(Error::StartStream(vec!["busy".to_string()])));
    assert!(matches!(end, Action::Exit));
    assert_eq!(shared.error().as_deref(), Some("could not start the loopback stream"));
    assert_eq!(shared.restarts, 0);
}

#[test]
fn the_retry_rebuilds_the_resampler_too() {
    let mut shared = shared();
    let mut s = passing(&mut shared);
    shared.stream_failed("stream died".to_string());
    s.woke(&mut shared, &[], 20 * MS);
    s.opened(&mut shared, Err(Error::NoOutputDevice));
    s.backed_off();
    let build = s.opened(&mut shared, Ok(device("b", 48_000)));
    assert!(matches!(build, Action::BuildEngine { from: 48_000, to: 16_000 }));
    assert!(sleeps(s.built(&mut shared, Ok(4))));
    assert_eq!(s.engine_rates(), (48_000, 16_000));
    assert_eq!(shared.restarts, 1);
    assert_eq!(shared.error(), None);
    match s.woke(&mut shared, &[1, 2, 3, 4], 40 * MS) {
        Action::Convert(chunk) => assert_eq!(chunk, vec![1, 2, 3, 4]),
        _ => panic!("expected a chunk"),
    }
}

#[test]
fn a_replacement_at_the_ring_rate_needs_no_engine() {
    let mut shared = shared();
    let mut s = converting(&mut shared);
    shared.stream_failed("stream died".to_string());
    s.woke(&mut shared, &[1, 2], 20 * MS);
    assert!(sleeps(s.opened(&mut shared, Ok(device("b", 16_000)))));
    assert!(!s.needs_engine());
    s.woke(&mut shared, &bits(&[1.0]), 40 * MS);
    assert_eq!(shared.ring.read_frames(0, 9), vec![32767]);
}

#[test]
fn a_replacement_at_the_same_rate_keeps_held_input() {
    let mut shared = shared();
    let mut s = converting(&mut shared);
    shared.stream_failed("stream died".to_string());
    s.woke(&mut shared, &[1, 2], 20 * MS);
    assert!(sleeps(s.opened(&mut shared, Ok(device("b", 48_000)))));
    match s.woke(&mut shared, &[3, 4], 40 * MS) {
        Action::Convert(chunk) => assert_eq!(chunk, vec![1, 2, 3, 4]),
        _ => panic!("expected a chunk"),
    }
}

#[test]
fn an_unusable_replacement_ends_the_worker() {
    let mut shared_state = shared();
    let mut s = passing(&mut shared_state);
    shared_state.stream_failed("stream died".to_string());
    s.woke(&mut shared_state, &[], 20 * MS);
    assert!(matches!(s.opened(&mut shared_state, Ok(device("b", 0))), Action::Exit));
    assert_eq!(
        shared_state.error().as_deref(),
        Some("sample rate must be greater than zero")
    );

    let mut shared_state = shared();
    let mut s = passing(&mut shared_state);
    shared_state.stream_failed("stream died".to_string());
    s.woke(&mut shared_state, &[], 20 * MS);
    s.opened(&mut shared_state, Ok(device("b", 7)));
    let end = s.built(&mut shared_state, Err(vec!["odd".to_string()]));
    assert!(matches!(end, Action::Exit));
    assert_eq!(
        shared_state.error().as_deref(),
        Some("could not build a resampler for 7 Hz to 16000 Hz")
    );
    assert_eq!(shared_state.restarts, 0);
}

#[test]
fn the_interval_between_devices_is_filled() {
    let mut shared = shared();
    let mut s = passing(&mut shared);
    s.woke(&mut shared, &vec![0x3f80_0000; 1_600], 100 * MS);
    shared.stream_failed("stream died".to_string());
    s.woke(&mut shared, &[], 120 * MS);
    s.opened(&mut shared, Err(Error::NoOutputDevice));
    s.backed_off();
    s.opened(&mut shared, Ok(device("b", 16_000)));
    // The replacement delivers at 1.1 s for the first time.
    let action = s.woke(&mut shared, &[], 1_100 * MS);
    if matches!(action, Action::PollDevice) {
        s.polled(&Some("b".to_string()));
    }
    // 100 ms of sound and 750 ms of silence; a quarter of a second is still tolerated.
    assert_eq!(shared.ring.window_ms(), 850);
    assert_eq!(shared.silence_frames, 12_000);
}

#[test]
fn a_rebuilt_resampler_reports_anew() {
    let mut shared = shared();
    let mut s = converting(&mut shared);
    s.woke(&mut shared, &[0; 20], 20 * MS);
    for _ in 0..5 {
        s.converted(&mut shared, None, 4);
    }
    assert_eq!(
        shared.error().as_deref(),
        Some("resampler rejected 5 chunk(s); some audio is missing")
    );
    shared.stream_failed("stream died".to_string());
    assert!(reopens(s.woke(&mut shared, &[], 40 * MS)));
    s.opened(&mut shared, Ok(device("b", 44_100)));
    assert!(sleeps(s.built(&mut shared, Ok(4))));
    assert_eq!(shared.error(), None);
    s.woke(&mut shared, &[0; 4], 60 * MS);
    s.converted(&mut shared, None, 4);
    assert_eq!(
        shared.error().as_deref(),
        Some("resampler rejected 1 chunk(s); some audio is missing")
    );
}

#[test]
fn a_kept_resampler_keeps_its_reports() {
    let mut shared = shared();
    let mut s = converting(&mut shared);
    s.woke(&mut shared, &[0; 4], 20 * MS);
    s.converted(&mut shared, None, 4);
    shared.stream_failed("stream died".to_string());
    assert!(reopens(s.woke(&mut shared, &[], 40 * MS)));
    assert!(sleeps(s.opened(&mut shared, Ok(device("b", 48_000)))));
    s.woke(&mut shared, &[], 60 * MS);
    assert_eq!(shared.error(), None);
}

#[test]
fn discarded_input_stays_owed() {
    let mut shared = shared();
    let mut s = Supervisor::new(&mut shared, device("a", 48_000), 0).unwrap();
    s.attach_engine(Ok(1_000_000)).unwrap();
    shared.stream_failed("stream died".to_string());
    // 100 ms are held for the engine when a device at the ring's rate takes over.
    assert!(reopens(s.woke(&mut shared, &[0; 4_800], 100 * MS)));
    assert!(sleeps(s.opened(&mut shared, Ok(device("b", 16_000)))));
    assert!(sleeps(s.woke(&mut shared, &[], 350 * MS)));
    assert_eq!(shared.ring.window_ms(), 100);
    assert_eq!(shared.silence_frames, 1_600);
}

#[test]
fn a_lost_buffer_ends_the_worker() {
    let mut shared = shared();
    let mut s = passing(&mut shared);
    assert!(matches!(s.buffer_poisoned(&mut shared), Action::Exit));
    assert_eq!(shared.error().as_deref(), Some("audio buffer was poisoned"));
}

#[test]
fn lost_staging_ends_the_worker() {
    let mut shared = shared();
    let mut s = passing(&mut shared);
    assert!(matches!(s.staging_poisoned(&mut shared), Action::Exit));
    assert_eq!(shared.error().as_deref(), Some("capture thread panicked"));
}

#[test]
fn ticks_know_their_room() {
    let mut shared = shared();
    let s = passing(&mut shared);
    assert!(s.counts_fit(16_000));
    assert!(!s.counts_fit(usize::MAX));
}

#[test]
fn intervals() {
    assert_eq!(TICK_MS, 20);
    assert_eq!(DEVICE_CHECK_NS, 500 * MS);
    assert_eq!(REBUILD_BACKOFF_MS, 750);
}
