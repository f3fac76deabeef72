use node_system_audio::device::{
    sample_format, DeviceConfig, DeviceReport, SampleFormat, StreamOutcome, StreamPlan,
};
use node_system_audio::Error;

fn report(description: Option<&str>, rate: u32, channels: u16, format: &str) -> DeviceReport {
    DeviceReport {
        description: description.map(str::to_string),
        config: Ok(DeviceConfig { rate, channels, format: format.to_string() }),
    }
}

fn plan() -> StreamPlan {
    StreamPlan::new(Some(report(Some("Speakers"), 48_000, 2, "f32"))).ok().unwrap()
}

#[test]
fn formats_by_name() {
    let known = [
        ("f32", SampleFormat::F32),
        ("f64", SampleFormat::F64),
        ("i16", SampleFormat::I16),
        ("i32", SampleFormat::I32),
        ("i8", SampleFormat::I8),
        ("u8", SampleFormat::U8),
        ("u16", SampleFormat::U16),
        ("u32", SampleFormat::U32),
    ];
    for (name, format) in known {
        assert_eq!(sample_format(&name.to_string()), Some(format));
    }
    for name in ["i24", "u24", "i64", "u64", "dsdu8", "", "F32"] {
        assert_eq!(sample_format(&name.to_string()), None);
    }
}

#[test]
fn a_plan_keeps_the_device_facts() {
    let p = plan();
    assert_eq!(p.format, SampleFormat::F32);
    assert_eq!(p.device.name, "Speakers");
    assert_eq!(p.device.native_rate, 48_000);
    assert_eq!(p.device.channels, 2);
    assert_eq!(p.channel_count(), 2);
    let nameless = StreamPlan::new(Some(report(None, 44_100, 0, "i16"))).ok().unwrap();
    assert_eq!(nameless.device.name, "unknown");
    assert_eq!(nameless.device.channels, 0);
    assert_eq!(nameless.channel_count(), 1);
}

#[test]
fn no_plan_without_a_usable_device() {
    assert!(matches!(StreamPlan::new(None), Err(Error::NoOutputDevice)));

    let unreadable = DeviceReport { description: None, config: Err(vec!["busy".to_string()]) };
    let error = StreamPlan::new(Some(unreadable)).err().unwrap();
    assert_eq!(
        error.message_chain(),
        "could not read the default output device configuration: busy"
    );

    let error = StreamPlan::new(Some(report(None, 48_000, 2, "i24"))).err().unwrap();
    assert_eq!(error.to_string(), "device sample format i24 is not supported");
}

#[test]
fn stream_outcomes() {
    let error = plan()
        .finish(StreamOutcome::NotBuilt(vec!["denied".to_string()]))
        .err()
        .unwrap();
    assert_eq!(
        error.message_chain(),
        "could not open a loopback stream on Speakers: denied"
    );

    let error = plan()
        .finish(StreamOutcome::NotStarted(vec!["busy".to_string()]))
        .err()
        .unwrap();
    assert_eq!(error.message_chain(), "could not start the loopback stream: busy");

    let device = plan()
        .finish(StreamOutcome::Playing(Some("coreaudio:1".to_string())))
        .ok()
        .unwrap();
    assert_eq!(device.id.as_deref(), Some("coreaudio:1"));
    assert_eq!(device.native_rate, 48_000);
    assert_eq!(device.name, "Speakers");
    let device = plan().finish(StreamOutcome::Playing(None)).ok().unwrap();
    assert_eq!(device.id, None);
}
