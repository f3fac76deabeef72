use node_system_audio::device::OpenDevice;
use node_system_audio::permission::Platform;
use node_system_audio::supervisor::{Action, Supervisor};
use node_system_audio::{
    BufferOptions, BufferState, CaptureStep, Error, PermissionStatus, SystemAudioBuffer,
};

fn options(retention: u32, rate: u32, ceiling: u32) -> Option<BufferOptions> {
    Some(BufferOptions {
        retention_seconds: Some(retention),
        target_sample_rate: Some(rate),
        ceiling_seconds: Some(ceiling),
    })
}

/// A running buffer at 1 kHz that keeps ten seconds.
fn running() -> SystemAudioBuffer {
    let mut b = SystemAudioBuffer::new(options(10, 1_000, 20)).unwrap();
    assert!(matches!(b.start(), Ok(CaptureStep::Open)));
    b.capture_opened(Ok(())).unwrap();
    b
}

const MS: u64 = 1_000_000;

fn device(rate: u32) -> OpenDevice {
    OpenDevice::new(Some("a".to_string()), rate, 2, Some("Speakers".to_string()))
}

/// A number that is quantised to `sample`.
fn bits_of(sample: i16) -> u32 {
    let half = match sample {
        0 | 32767 | -32767 => 0.0,
        s if s > 0 => 0.5,
        _ => -0.5,
    };
    ((f32::from(sample) + half) / 32767.0).to_bits()
}

/// Lets a device at the buffer's rate deliver samples, all at the start.
fn feed(b: &mut SystemAudioBuffer, samples: &[i16]) -> Supervisor {
    let rate = b.status().sample_rate;
    let mut s = b.supervise(device(rate), 0).ok().unwrap();
    let staged: Vec<u32> = samples.iter().map(|&v| bits_of(v)).collect();
    assert!(matches!(b.woke(&mut s, &staged, 0), Action::Sleep(_)));
    s
}

/// Lets time pass without any delivery.
fn idle(b: &mut SystemAudioBuffer, s: &mut Supervisor, now: u64) {
    if matches!(b.woke(s, &[], now), Action::PollDevice) {
        assert!(matches!(s.polled(&None), Action::Sleep(_)));
    }
}

/// Lets the stream fail and recover on the same device.
fn restart(b: &mut SystemAudioBuffer, s: &mut Supervisor) {
    b.stream_failed("gone".to_string());
    assert!(matches!(b.woke(s, &[], 0), Action::Reopen));
    let rate = b.status().sample_rate;
    assert!(matches!(b.reopened(s, Ok(device(rate))), Action::Sleep(_)));
}

fn samples_of(file: &[u8]) -> Vec<i16> {
    file[44..].chunks(2).map(|b| i16::from_le_bytes([b[0], b[1]])).collect()
}

#[test]
fn defaults() {
    let b = SystemAudioBuffer::new(None).unwrap();
    let s = b.status();
    assert_eq!(s.state, BufferState::Idle);
    assert_eq!(s.filled_ms, 0);
    assert_eq!(s.retention_ms, 900_000);
    assert_eq!(s.sample_rate, 16_000);
    assert_eq!(s.silence_inserted_ms, 0);
    assert_eq!(s.native_sample_rate, None);
    assert_eq!(s.channels, None);
    assert_eq!(s.device_name, None);
    assert_eq!(s.restarts, 0);
    assert_eq!(s.error, None);
}

#[test]
fn options_default_one_by_one() {
    let b = SystemAudioBuffer::new(Some(BufferOptions {
        retention_seconds: None,
        target_sample_rate: Some(100),
        ceiling_seconds: None,
    }))
    .unwrap();
    assert_eq!(b.status().retention_ms, 900_000);
    assert_eq!(b.status().sample_rate, 100);
}

#[test]
fn zero_options_are_rejected() {
    let error = SystemAudioBuffer::new(options(10, 0, 20)).err().unwrap();
    assert!(matches!(error, Error::NotPositive("targetSampleRate")));
    let error = SystemAudioBuffer::new(options(0, 1_000, 20)).err().unwrap();
    assert!(matches!(error, Error::NotPositive("retentionSeconds")));
    // The rate is looked at first.
    let error = SystemAudioBuffer::new(options(0, 0, 0)).err().unwrap();
    assert!(matches!(error, Error::NotPositive("targetSampleRate")));
}

#[test]
fn the_ceiling_holds_at_least_the_retention() {
    let mut b = SystemAudioBuffer::new(options(10, 1_000, 0)).unwrap();
    assert_eq!(b.status().retention_ms, 10_000);
    b.set_retention_seconds(11).unwrap();
    assert_eq!(b.status().retention_ms, 10_000);
}

#[test]
fn states_follow_the_calls() {
    let mut b = SystemAudioBuffer::new(options(10, 1_000, 20)).unwrap();
    assert_eq!(b.state(), BufferState::Idle);
    assert!(matches!(b.freeze(), Err(Error::NotRunning)));
    assert!(matches!(b.resume(), Err(Error::NotFrozen)));

    assert!(matches!(b.start(), Ok(CaptureStep::Open)));
    assert_eq!(b.state(), BufferState::Idle);
    b.capture_opened(Ok(())).unwrap();
    assert_eq!(b.state(), BufferState::Running);
    assert!(matches!(b.start(), Ok(CaptureStep::Keep)));
    assert!(matches!(b.resume(), Ok(CaptureStep::Keep)));

    assert!(matches!(b.freeze(), Ok(CaptureStep::Close)));
    assert_eq!(b.state(), BufferState::Frozen);
    assert!(matches!(b.freeze(), Ok(CaptureStep::Keep)));
    assert!(matches!(b.start(), Err(Error::Frozen)));

    assert!(matches!(b.resume(), Ok(CaptureStep::Open)));
    assert_eq!(b.state(), BufferState::Frozen);
    b.capture_opened(Ok(())).unwrap();
    assert_eq!(b.state(), BufferState::Running);

    b.stop();
    assert_eq!(b.state(), BufferState::Idle);
    b.stop();
    assert_eq!(b.state(), BufferState::Idle);
}

#[test]
fn a_capture_that_does_not_open_leaves_the_state() {
    let mut b = SystemAudioBuffer::new(options(10, 1_000, 20)).unwrap();
    b.start().unwrap();
    let result = b.capture_opened(Err(Error::NoOutputDevice));
    assert!(matches!(result, Err(Error::NoOutputDevice)));
    assert_eq!(b.state(), BufferState::Idle);

    let mut b = running();
    feed(&mut b, &[1, 2, 3]);
    b.freeze().unwrap();
    b.resume().unwrap();
    assert!(b.capture_opened(Err(Error::NoOutputDevice)).is_err());
    // Still frozen, and emptied already.
    assert_eq!(b.state(), BufferState::Frozen);
    assert_eq!(b.status().filled_ms, 0);
}

#[test]
fn freezing_keeps_and_resuming_clears() {
    let mut b = running();
    let mut s = feed(&mut b, &[1, 2, 3, 4]);
    idle(&mut b, &mut s, 261 * MS);
    b.freeze().unwrap();
    assert_eq!(
        samples_of(&b.read(0, 100)),
        vec![1, 2, 3, 4, 0, 0, 0, 0, 0, 0, 0]
    );
    assert_eq!(b.status().silence_inserted_ms, 7);
    b.resume().unwrap();
    assert_eq!(samples_of(&b.read(0, 100)), Vec::<i16>::new());
    assert_eq!(b.status().silence_inserted_ms, 0);
}

#[test]
fn stopping_discards() {
    let mut b = running();
    feed(&mut b, &[1, 2, 3, 4]);
    b.stream_failed("kept".to_string());
    b.stop();
    assert_eq!(b.status().filled_ms, 0);
    assert_eq!(b.status().error.as_deref(), Some("kept"));
    b.clear_error();
    assert_eq!(b.status().error, None);
}

#[test]
fn device_facts_show_only_while_capturing_or_frozen() {
    let mut b = running();
    assert_eq!(b.status().native_sample_rate, None);
    b.supervise(device(48_000), 0).ok().unwrap();
    for _ in 0..2 {
        let s = b.status();
        assert_eq!(s.native_sample_rate, Some(48_000));
        assert_eq!(s.channels, Some(2));
        assert_eq!(s.device_name.as_deref(), Some("Speakers"));
        b.freeze().unwrap();
    }
    b.stop();
    let s = b.status();
    assert_eq!(s.native_sample_rate, None);
    assert_eq!(s.channels, None);
    assert_eq!(s.device_name, None);
}

#[test]
fn status_in_milliseconds() {
    let mut b = SystemAudioBuffer::new(options(5, 16_000, 5)).unwrap();
    let mut s = feed(&mut b, &vec![0; 16_015]);
    assert_eq!(b.status().filled_ms, 1_000);
    assert_eq!(b.status().silence_inserted_ms, 0);
    for _ in 0..3 {
        restart(&mut b, &mut s);
    }
    // A second and a half beyond what was delivered and what is tolerated.
    for _ in 0..2 {
        idle(&mut b, &mut s, 250 * MS + 1_000_937_500 + 1_500 * MS);
    }
    let status = b.status();
    assert_eq!(status.filled_ms, 2_500);
    assert_eq!(status.silence_inserted_ms, 1_500);
    assert_eq!(status.restarts, 3);
}

#[test]
fn silence_in_milliseconds_is_capped() {
    let mut b = SystemAudioBuffer::new(options(1, 1, 1)).unwrap();
    let mut s = feed(&mut b, &[]);
    // One frame a second, one second a tick.
    for _ in 0..4_294_967 {
        idle(&mut b, &mut s, u64::MAX);
    }
    assert_eq!(b.status().silence_inserted_ms, 4_294_967_000);
    idle(&mut b, &mut s, u64::MAX);
    assert_eq!(b.status().silence_inserted_ms, u32::MAX);
}

#[test]
fn retention_hides_and_reveals() {
    let mut b = SystemAudioBuffer::new(options(3, 2, 4)).unwrap();
    feed(&mut b, &[1, 2, 3, 4, 5, 6, 7, 8, 9]);
    assert_eq!(samples_of(&b.read(0, u32::MAX)), vec![4, 5, 6, 7, 8, 9]);
    b.set_retention_seconds(1).unwrap();
    assert_eq!(b.status().retention_ms, 1_000);
    assert_eq!(samples_of(&b.read(0, u32::MAX)), vec![8, 9]);
    // Up to the ceiling of four seconds.
    b.set_retention_seconds(u32::MAX).unwrap();
    assert_eq!(b.status().retention_ms, 4_000);
    assert_eq!(samples_of(&b.read(0, u32::MAX)), vec![2, 3, 4, 5, 6, 7, 8, 9]);
    let error = b.set_retention_seconds(0).unwrap_err();
    assert!(matches!(error, Error::NotPositive("retentionSeconds")));
    assert_eq!(b.status().retention_ms, 4_000);
}

#[test]
fn reads_are_wav_files_of_the_range() {
    let mut b = running();
    feed(&mut b, &[10, 20, 30, 40, 50]);
    let file = b.read(1, 4);
    assert_eq!(&file[0..4], b"RIFF");
    assert_eq!(u32::from_le_bytes(file[24..28].try_into().unwrap()), 1_000);
    assert_eq!(samples_of(&file), vec![20, 30, 40]);
    // Out-of-range values clamp rather than throw.
    assert_eq!(samples_of(&b.read(3, u32::MAX)), vec![40, 50]);
    assert_eq!(b.read(4, 1).len(), 44);
    assert_eq!(b.read(9, 99).len(), 44);
}

#[test]
fn the_last_milliseconds() {
    let mut b = SystemAudioBuffer::new(options(10, 16_000, 10)).unwrap();
    let audio: Vec<i16> = (0..16_000).map(|i| i as i16).collect();
    feed(&mut b, &audio);
    let filled = b.status().filled_ms;
    assert_eq!(filled, 1_000);
    let file = b.read(filled - 30, filled);
    assert_eq!(samples_of(&file), audio[15_520..].to_vec());
}

#[test]
fn adjoining_clips_join() {
    let mut b = running();
    let audio: Vec<i16> = (0..500).collect();
    feed(&mut b, &audio);
    let mut joined = samples_of(&b.read(100, 250));
    joined.extend(samples_of(&b.read(250, 400)));
    assert_eq!(joined, audio[100..400].to_vec());
}

#[test]
fn peaks_per_bucket() {
    let mut b = running();
    assert_eq!(b.peaks(2).unwrap(), vec![0, 0, 0, 0]);
    feed(&mut b, &[5, -3, 8, -32767]);
    assert_eq!(b.peaks(2).unwrap(), vec![-3, 5, -32767, 8]);
    let error = b.peaks(0).unwrap_err();
    assert!(matches!(error, Error::NotPositive("buckets")));
}

#[test]
fn permission_needs_no_state() {
    let b = running();
    assert_eq!(b.permission_status(Platform::Ungated), PermissionStatus::NotRequired);
    assert_eq!(b.permission_status(Platform::MacOs), PermissionStatus::Unknown);
}

#[test]
fn limits_are_known_beforehand() {
    assert!(SystemAudioBuffer::fits_memory(&None));
    assert!(SystemAudioBuffer::fits_memory(&options(900, 16_000, 3_600)));
    assert!(!SystemAudioBuffer::fits_memory(&options(1, u32::MAX, u32::MAX)));
    assert!(!SystemAudioBuffer::fits_memory(&options(u32::MAX, u32::MAX, 1)));
    // Refused before anything is allocated.
    assert!(SystemAudioBuffer::fits_memory(&options(0, u32::MAX, u32::MAX)));

    let mut b = running();
    feed(&mut b, &[1; 500]);
    assert!(b.can_read(0, u32::MAX));
    assert!(b.can_draw(u32::MAX));
}

#[test]
fn staged_audio_is_read_back() {
    let mut b = running();
    let mut s = feed(&mut b, &[100, -200, 300]);
    let staged: Vec<u32> = [400, -500].iter().map(|&v| bits_of(v)).collect();
    b.woke(&mut s, &staged, 257 * MS);
    // Of the seven frames due beyond the tolerance, five were delivered.
    assert_eq!(
        samples_of(&b.read(0, u32::MAX)),
        vec![100, -200, 300, 400, -500, 0, 0]
    );
    assert_eq!(samples_of(&b.read(1, 4)), vec![-200, 300, 400]);
    assert_eq!(b.status().filled_ms, 7);
}

#[test]
fn converted_audio_is_read_back() {
    let mut b = running();
    let mut s = b.supervise(device(2_000), 0).ok().unwrap();
    s.attach_engine(Ok(2)).unwrap();
    assert!(matches!(b.woke(&mut s, &[0; 4], 0), Action::Convert(_)));
    let first = Some(vec![vec![bits_of(11)]]);
    assert!(matches!(b.converted(&mut s, first, 2), Action::Convert(_)));
    let second = Some(vec![vec![bits_of(-12), bits_of(13)]]);
    assert!(matches!(b.converted(&mut s, second, 2), Action::Sleep(_)));
    assert_eq!(samples_of(&b.read(0, u32::MAX)), vec![11, -12, 13]);
}

#[test]
fn a_capture_recovers_on_its_buffer() {
    let mut b = running();
    let mut s = feed(&mut b, &[1, 2, 3]);
    b.stream_failed("gone".to_string());
    assert_eq!(b.status().error.as_deref(), Some("gone"));
    assert!(matches!(b.woke(&mut s, &[], 0), Action::Reopen));
    assert!(matches!(b.reopened(&mut s, Err(Error::NoOutputDevice)), Action::BackOff(_)));
    assert_eq!(b.status().error.as_deref(), Some("no default output device"));
    assert!(matches!(s.backed_off(), Action::Reopen));
    assert!(matches!(
        b.reopened(&mut s, Ok(device(2_000))),
        Action::BuildEngine { from: 2_000, to: 1_000 }
    ));
    assert!(matches!(b.engine_built(&mut s, Ok(2)), Action::Sleep(_)));
    let status = b.status();
    assert_eq!(status.state, BufferState::Running);
    assert_eq!(status.restarts, 1);
    assert_eq!(status.error, None);
    assert_eq!(status.native_sample_rate, Some(2_000));
    assert_eq!(samples_of(&b.read(0, u32::MAX)), vec![1, 2, 3]);
}

#[test]
fn a_capture_ends_with_a_message() {
    let mut b = running();
    let error = b.supervise(device(0), 0).err().unwrap();
    assert!(matches!(error, Error::ZeroSampleRate));

    let mut s = feed(&mut b, &[1]);
    assert!(matches!(b.staging_poisoned(&mut s), Action::Exit));
    assert_eq!(b.status().error.as_deref(), Some("capture thread panicked"));

    let mut s = feed(&mut b, &[2]);
    assert!(matches!(b.buffer_poisoned(&mut s), Action::Exit));
    assert_eq!(b.status().error.as_deref(), Some("audio buffer was poisoned"));
    assert_eq!(samples_of(&b.read(0, u32::MAX)), vec![1, 2]);
}
