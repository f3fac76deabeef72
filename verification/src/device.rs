//! Output devices: what opening one takes, what is known of it, and when another one took over.
use vstd::prelude::*;
use vstd::string::*;
use crate::error::Error;
use crate::text::text_of;

verus! {

/// An opened output device and what is known of it.
pub struct OpenDevice {
    /// Identifies the device. Without it change detection is lost, but capture works.
    pub id: Option<String>,
    pub native_rate: u32,
    pub channels: u16,
    pub name: String,
}

impl OpenDevice {
    /// Facts about a device. One that does not describe itself is called "unknown".
    pub fn new(
        id: Option<String>,
        native_rate: u32,
        channels: u16,
        description: Option<String>,
    ) -> (device: Self)
        ensures
            device.id == id,
            device.native_rate == native_rate,
            device.channels == channels,
            device.name@ == match description {
                Some(name) => name@,
                None => "unknown"@,
            },
    {
        let name = match description {
            Some(name) => name,
            None => "unknown".to_owned(),
        };
        OpenDevice { id, native_rate, channels, name }
    }
}

/// Whether the default output device differs from the one being captured. An unidentifiable
/// device counts as unchanged, to avoid reopening every tick; so does a missing one, since there
/// is nothing to reopen onto.
pub open spec fn device_differs(current: Option<Seq<char>>, default: Option<Seq<char>>) -> bool {
    current is Some && default is Some && current != default
}

/// Compares the identity of the device being captured with that of the default output device,
/// where each is known.
pub fn default_device_changed(current: &Option<String>, default: &Option<String>) -> (changed: bool)
    ensures
        changed == device_differs(text_of(*current), text_of(*default)),
{
    match (current, default) {
        (Some(current), Some(default)) => !(*current == *default),
        _ => false,
    }
}

/// A sample format that can be captured.
#[derive(Clone, Copy, Debug, PartialEq, Eq, Structural)]
pub enum SampleFormat {
    F32,
    F64,
    I16,
    I32,
    I8,
    U8,
    U16,
    U32,
}

/// The format of that name, if it can be captured.
pub open spec fn format_named(name: Seq<char>) -> Option<SampleFormat> {
    if name == "f32"@ {
        Some(SampleFormat::F32)
    } else if name == "f64"@ {
        Some(SampleFormat::F64)
    } else if name == "i16"@ {
        Some(SampleFormat::I16)
    } else if name == "i32"@ {
        Some(SampleFormat::I32)
    } else if name == "i8"@ {
        Some(SampleFormat::I8)
    } else if name == "u8"@ {
        Some(SampleFormat::U8)
    } else if name == "u16"@ {
        Some(SampleFormat::U16)
    } else if name == "u32"@ {
        Some(SampleFormat::U32)
    } else {
        None
    }
}

/// Looks up a sample format by its name.
pub fn sample_format(name: &String) -> (format: Option<SampleFormat>)
    ensures
        format == format_named(name@),
{
    if *name == "f32".to_owned() {
        Some(SampleFormat::F32)
    } else if *name == "f64".to_owned() {
        Some(SampleFormat::F64)
    } else if *name == "i16".to_owned() {
        Some(SampleFormat::I16)
    } else if *name == "i32".to_owned() {
        Some(SampleFormat::I32)
    } else if *name == "i8".to_owned() {
        Some(SampleFormat::I8)
    } else if *name == "u8".to_owned() {
        Some(SampleFormat::U8)
    } else if *name == "u16".to_owned() {
        Some(SampleFormat::U16)
    } else if *name == "u32".to_owned() {
        Some(SampleFormat::U32)
    } else {
        None
    }
}

/// The configuration that a device runs at.
pub struct DeviceConfig {
    pub rate: u32,
    pub channels: u16,
    /// The name of the sample format.
    pub format: String,
}

/// What the default output device reports of itself.
pub struct DeviceReport {
    /// Its name, where it describes itself.
    pub description: Option<String>,
    /// Its configuration, or why that cannot be read.
    pub config: Result<DeviceConfig, Vec<String>>,
}

/// What became of the stream that was asked for.
pub enum StreamOutcome {
    /// It could not be built.
    NotBuilt(Vec<String>),
    /// It was built but could not be started.
    NotStarted(Vec<String>),
    /// It plays, on a device with this identity, where that is known.
    Playing(Option<String>),
}

/// The stream to open.
pub struct StreamPlan {
    pub device: OpenDevice,
    pub format: SampleFormat,
}

impl StreamPlan {
    /// Plans a stream on the default output device, if there is one, it can be configured, and its
    /// sample format can be captured.
    pub fn new(found: Option<DeviceReport>) -> (result: Result<Self, Error>)
        ensures
            match found {
                None => result == Err::<StreamPlan, Error>(Error::NoOutputDevice),
                Some(report) => match report.config {
                    Err(source) => result == Err::<StreamPlan, Error>(Error::DeviceConfig(source)),
                    Ok(config) => match format_named(config.format@) {
                        None => result == Err::<StreamPlan, Error>(
                            Error::UnsupportedSampleFormat(config.format),
                        ),
                        Some(format) => {
                            &&& result matches Ok(plan)
                            &&& plan.format == format
                            &&& plan.device.id is None
                            &&& plan.device.native_rate == config.rate
                            &&& plan.device.channels == config.channels
                            &&& plan.device.name@ == match report.description {
                                Some(name) => name@,
                                None => "unknown"@,
                            }
                        },
                    },
                },
            },
    {
        match found {
            None => Err(Error::NoOutputDevice),
            Some(report) => match report.config {
                Err(source) => Err(Error::DeviceConfig(source)),
                Ok(config) => match sample_format(&config.format) {
                    None => Err(Error::UnsupportedSampleFormat(config.format)),
                    Some(format) => {
                        let device = OpenDevice::new(
                            None,
                            config.rate,
                            config.channels,
                            report.description,
                        );
                        Ok(StreamPlan { device, format })
                    },
                },
            },
        }
    }

    /// Samples that make up one frame. A device without channels is read as one channel.
    pub fn channel_count(&self) -> (count: usize)
        ensures
            count == if self.device.channels < 1 {
                1
            } else {
                self.device.channels as int
            },
    {
        if self.device.channels < 1 {
            1
        } else {
            self.device.channels as usize
        }
    }

    /// Takes what became of the stream. One that plays leaves an opened device.
    pub fn finish(self, outcome: StreamOutcome) -> (result: Result<OpenDevice, Error>)
        ensures
            result == match outcome {
                StreamOutcome::NotBuilt(source) => Err::<OpenDevice, Error>(
                    Error::OpenStream { device: self.device.name, source },
                ),
                StreamOutcome::NotStarted(source) => Err::<OpenDevice, Error>(
                    Error::StartStream(source),
                ),
                StreamOutcome::Playing(id) => Ok::<OpenDevice, Error>(
                    OpenDevice { id, ..self.device },
                ),
            },
    {
        match outcome {
            StreamOutcome::NotBuilt(source) => {
                Err(Error::OpenStream { device: self.device.name, source })
            },
            StreamOutcome::NotStarted(source) => Err(Error::StartStream(source)),
            // Best-effort. Without an identity change detection is lost, but capture works.
            StreamOutcome::Playing(id) => Ok(OpenDevice { id, ..self.device }),
        }
    }
}

/// Law: a device that cannot be identified never counts as changed, nor does a missing default,
/// nor the same device.
pub proof fn law_unidentifiable_device_never_changed(device: Option<Seq<char>>)
    ensures
        !device_differs(None, device),
        !device_differs(device, None),
        !device_differs(device, device),
{
}

/// Law: a switch of outputs is noticed whenever both devices can be told apart, and only then.
pub proof fn law_known_devices_are_told_apart(current: Seq<char>, default: Seq<char>)
    ensures
        device_differs(Some(current), Some(default)) <==> current != default,
        !device_differs(None, Some(default)),
        !device_differs(Some(current), None),
        !device_differs(None, None),
{
}

/// Law: eight sample formats can be captured, each under its own name, and no other name is taken
/// for one of them.
pub proof fn law_formats_go_by_their_names(name: Seq<char>)
    ensures
        format_named(name) == Some(SampleFormat::F32) <==> name == seq!['f', '3', '2'],
        format_named(name) == Some(SampleFormat::F64) <==> name == seq!['f', '6', '4'],
        format_named(name) == Some(SampleFormat::I16) <==> name == seq!['i', '1', '6'],
        format_named(name) == Some(SampleFormat::I32) <==> name == seq!['i', '3', '2'],
        format_named(name) == Some(SampleFormat::I8) <==> name == seq!['i', '8'],
        format_named(name) == Some(SampleFormat::U8) <==> name == seq!['u', '8'],
        format_named(name) == Some(SampleFormat::U16) <==> name == seq!['u', '1', '6'],
        format_named(name) == Some(SampleFormat::U32) <==> name == seq!['u', '3', '2'],
{
    reveal_strlit("f32");
    reveal_strlit("f64");
    reveal_strlit("i16");
    reveal_strlit("i32");
    reveal_strlit("i8");
    reveal_strlit("u8");
    reveal_strlit("u16");
    reveal_strlit("u32");
    assert("f32"@ =~= seq!['f', '3', '2']);
    assert("f64"@ =~= seq!['f', '6', '4']);
    assert("i16"@ =~= seq!['i', '1', '6']);
    assert("i32"@ =~= seq!['i', '3', '2']);
    assert("i8"@ =~= seq!['i', '8']);
    assert("u8"@ =~= seq!['u', '8']);
    assert("u16"@ =~= seq!['u', '1', '6']);
    assert("u32"@ =~= seq!['u', '3', '2']);
}

} // verus!
