use node_system_audio::text::decimal_string;
use node_system_audio::Error;

#[test]
fn messages_are_lowercase() {
    for err in [
        Error::NoOutputDevice,
        Error::ZeroSampleRate,
        Error::Poisoned,
        Error::NotRunning,
        Error::NotFrozen,
    ] {
        let msg = err.to_string();
        let first = msg.chars().next().expect("error messages are never empty");
        assert!(!first.is_uppercase(), "{msg:?} starts with a capital");
        assert!(!msg.ends_with('.'), "{msg:?} ends with a full stop");
    }
}

#[test]
fn message_chain_keeps_cause() {
    let cause = rubato::ResamplerConstructionError::InvalidSampleRate { input: 0, output: 0 };
    let err = Error::Resampler {
        from: 44_100,
        to: 16_000,
        source: vec![cause.to_string()],
    };

    let message = err.message_chain();
    let top_level = err.to_string();

    assert!(message.contains("44100"), "lost the context: {message}");
    assert!(
        message.len() > top_level.len(),
        "source chain was dropped: {message}"
    );
    assert_eq!(message, format!("{top_level}: {cause}"));
}

#[test]
fn causeless_error_chains_to_itself() {
    assert_eq!(
        Error::NoOutputDevice.message_chain(),
        Error::NoOutputDevice.to_string()
    );
}

#[test]
fn state_errors_name_the_next_call() {
    assert!(Error::Frozen.to_string().contains("resume()"));
    assert!(Error::NotFrozen.to_string().contains("start()"));
}

#[test]
fn every_message() {
    let causes = || vec!["inner".to_string(), "innermost".to_string()];
    let cases = [
        (Error::NoOutputDevice, "no default output device"),
        (
            Error::DeviceConfig(causes()),
            "could not read the default output device configuration",
        ),
        (Error::DeviceId(causes()), "could not identify the output device"),
        (
            Error::OpenStream { device: "Speakers".to_string(), source: causes() },
            "could not open a loopback stream on Speakers",
        ),
        (Error::StartStream(causes()), "could not start the loopback stream"),
        (
            Error::UnsupportedSampleFormat("i24".to_string()),
            "device sample format i24 is not supported",
        ),
        (
            Error::Resampler { from: 44_100, to: 16_000, source: causes() },
            "could not build a resampler for 44100 Hz to 16000 Hz",
        ),
        (Error::ZeroSampleRate, "sample rate must be greater than zero"),
        (
            Error::Poisoned,
            "shared state was poisoned by a panic on another thread",
        ),
        (Error::NotPositive("buckets"), "buckets must be greater than zero"),
        (Error::Frozen, "buffer is frozen; call resume() to capture again"),
        (Error::NotRunning, "buffer is not running"),
        (Error::NotFrozen, "buffer is not frozen; call start()"),
    ];
    for (error, message) in cases {
        assert_eq!(error.to_string(), message);
        assert!(error.message_chain().starts_with(message));
    }
}

#[test]
fn causes_follow_outermost_first() {
    let error = Error::StartStream(vec!["device busy".to_string(), "errno 16".to_string()]);
    assert_eq!(
        error.message_chain(),
        "could not start the loopback stream: device busy: errno 16"
    );
    assert_eq!(
        Error::DeviceConfig(Vec::new()).message_chain(),
        Error::DeviceConfig(Vec::new()).to_string()
    );
}

#[test]
fn numbers_in_decimal() {
    for n in [0u64, 7, 10, 19, 100, 44_100, 999_999, u64::MAX - 1, u64::MAX] {
        assert_eq!(decimal_string(n), n.to_string());
    }
}
