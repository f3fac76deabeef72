//! The crate's error type.
//!
//! Named variants rather than formatted strings, so callers can match. Causes reported by an
//! audio backend or a resampling engine are kept as their messages, outermost first.
use vstd::prelude::*;
use vstd::string::*;
use crate::text::{decimal, decimal_string};

verus! {

#[derive(Debug)]
#[non_exhaustive]
pub enum Error {
    /// Nothing plugged in, or no audio on this machine at all.
    NoOutputDevice,
    /// The device exists but won't report a usable configuration.
    DeviceConfig(Vec<String>),
    /// The device could not be identified, so device-change detection is unavailable. Capture can
    /// still proceed.
    DeviceId(Vec<String>),
    /// On macOS this is distinct from a denied permission, which succeeds and then delivers
    /// silence.
    OpenStream { device: String, source: Vec<String> },
    StartStream(Vec<String>),
    /// The backend offered a sample format this crate has no conversion for, by its name.
    UnsupportedSampleFormat(String),
    Resampler { from: u32, to: u32, source: Vec<String> },
    ZeroSampleRate,
    /// A thread panicked holding shared state; the buffer may be half-written.
    Poisoned,
    NotPositive(&'static str),
    Frozen,
    NotRunning,
    NotFrozen,
}

/// A message followed by every cause, each behind a colon.
pub open spec fn chained(message: Seq<char>, causes: Seq<String>) -> Seq<char>
    decreases causes.len(),
{
    if causes.len() == 0 {
        message
    } else {
        chained(message, causes.drop_last()) + ": "@ + causes.last()@
    }
}

impl Error {
    /// The message of the error itself.
    pub open spec fn message(self) -> Seq<char> {
        match self {
            Error::NoOutputDevice => "no default output device"@,
            Error::DeviceConfig(_) => "could not read the default output device configuration"@,
            Error::DeviceId(_) => "could not identify the output device"@,
            Error::OpenStream { device, .. } => "could not open a loopback stream on "@ + device@,
            Error::StartStream(_) => "could not start the loopback stream"@,
            Error::UnsupportedSampleFormat(name) => "device sample format "@ + name@
                + " is not supported"@,
            Error::Resampler { from, to, .. } => "could not build a resampler for "@ + decimal(
                from as nat,
            ) + " Hz to "@ + decimal(to as nat) + " Hz"@,
            Error::ZeroSampleRate => "sample rate must be greater than zero"@,
            Error::Poisoned => "shared state was poisoned by a panic on another thread"@,
            Error::NotPositive(name) => name@ + " must be greater than zero"@,
            Error::Frozen => "buffer is frozen; call resume() to capture again"@,
            Error::NotRunning => "buffer is not running"@,
            Error::NotFrozen => "buffer is not frozen; call start()"@,
        }
    }

    /// The messages of what caused the error, outermost first.
    pub open spec fn causes(self) -> Seq<String> {
        match self {
            Error::DeviceConfig(source) => source@,
            Error::DeviceId(source) => source@,
            Error::OpenStream { source, .. } => source@,
            Error::StartStream(source) => source@,
            Error::Resampler { source, .. } => source@,
            _ => Seq::empty(),
        }
    }

    /// The message of the error itself, without its causes.
    pub fn to_string(&self) -> (text: String)
        ensures
            text@ == self.message(),
    {
        match self {
            Error::NoOutputDevice => "no default output device".to_owned(),
            Error::DeviceConfig(_) => {
                "could not read the default output device configuration".to_owned()
            },
            Error::DeviceId(_) => "could not identify the output device".to_owned(),
            Error::OpenStream { device, .. } => {
                let mut text = "could not open a loopback stream on ".to_owned();
                text.append(device.as_str());
                text
            },
            Error::StartStream(_) => "could not start the loopback stream".to_owned(),
            Error::UnsupportedSampleFormat(name) => {
                let mut text = "device sample format ".to_owned();
                text.append(name.as_str());
                text.append(" is not supported");
                text
            },
            Error::Resampler { from, to, .. } => {
                let mut text = "could not build a resampler for ".to_owned();
                text.append(decimal_string(*from as u64).as_str());
                text.append(" Hz to ");
                text.append(decimal_string(*to as u64).as_str());
                text.append(" Hz");
                text
            },
            Error::ZeroSampleRate => "sample rate must be greater than zero".to_owned(),
            Error::Poisoned => {
                "shared state was poisoned by a panic on another thread".to_owned()
            },
            Error::NotPositive(name) => {
                let mut text = (*name).to_owned();
                text.append(" must be greater than zero");
                text
            },
            Error::Frozen => "buffer is frozen; call resume() to capture again".to_owned(),
            Error::NotRunning => "buffer is not running".to_owned(),
            Error::NotFrozen => "buffer is not frozen; call start()".to_owned(),
        }
    }

    /// The message with every underlying cause appended. Callers behind a string-only boundary
    /// need it: the useful half is usually the backend's error underneath.
    pub fn message_chain(&self) -> (text: String)
        ensures
            text@ == chained(self.message(), self.causes()),
    {
        let text = self.to_string();
        match self {
            Error::DeviceConfig(source) => with_causes(text, source),
            Error::DeviceId(source) => with_causes(text, source),
            Error::OpenStream { source, .. } => with_causes(text, source),
            Error::StartStream(source) => with_causes(text, source),
            Error::Resampler { source, .. } => with_causes(text, source),
            _ => text,
        }
    }
}

fn with_causes(message: String, causes: &Vec<String>) -> (text: String)
    ensures
        text@ == chained(message@, causes@),
{
    let ghost start = message@;
    let mut text = message;
    let mut i: usize = 0;
    while i < causes.len()
        invariant
            i <= causes@.len(),
            text@ == chained(start, causes@.subrange(0, i as int)),
        decreases causes.len() - i,
    {
        text.append(": ");
        text.append(causes[i].as_str());
        assert(causes@.subrange(0, i + 1).drop_last() =~= causes@.subrange(0, i as int));
        i += 1;
    }
    assert(causes@.subrange(0, causes@.len() as int) =~= causes@);
    text
}

/// Law: the chain begins with the message itself, and an error without a cause chains to itself.
pub proof fn law_chain_extends_message(error: Error)
    ensures
        chained(error.message(), error.causes()).len() >= error.message().len(),
        chained(error.message(), error.causes()).subrange(0, error.message().len() as int)
            == error.message(),
        error.causes().len() == 0 ==> chained(error.message(), error.causes()) == error.message(),
        error.causes().len() > 0 ==> chained(error.message(), error.causes()).len()
            > error.message().len(),
{
    lemma_chain_extends(error.message(), error.causes());
}

proof fn lemma_chain_extends(message: Seq<char>, causes: Seq<String>)
    ensures
        chained(message, causes).len() >= message.len(),
        chained(message, causes).subrange(0, message.len() as int) == message,
        causes.len() > 0 ==> chained(message, causes).len() > message.len(),
    decreases causes.len(),
{
    reveal_strlit(": ");
    if causes.len() == 0 {
        assert(message.subrange(0, message.len() as int) =~= message);
    } else {
        lemma_chain_extends(message, causes.drop_last());
        let head = chained(message, causes.drop_last());
        assert(chained(message, causes).subrange(0, message.len() as int) =~= head.subrange(
            0,
            message.len() as int,
        ));
    }
}

/// Law: every error says what it is about, in full: the device, the format, the two rates or the
/// option by its name, whatever they are.
pub proof fn law_messages_name_their_subject(
    device: String,
    name: &'static str,
    from: u32,
    to: u32,
    source: Vec<String>,
)
    ensures
        (Error::OpenStream { device, source }).message() == "could not open a loopback stream on "@
            + device@,
        Error::UnsupportedSampleFormat(device).message() == "device sample format "@ + device@
            + " is not supported"@,
        (Error::Resampler { from, to, source }).message() == "could not build a resampler for "@
            + decimal(from as nat) + " Hz to "@ + decimal(to as nat) + " Hz"@,
        Error::NotPositive(name).message() == name@ + " must be greater than zero"@,
        Error::DeviceConfig(source).message()
            == "could not read the default output device configuration"@,
        Error::DeviceId(source).message() == "could not identify the output device"@,
        Error::StartStream(source).message() == "could not start the loopback stream"@,
        Error::NoOutputDevice.message() == "no default output device"@,
        Error::ZeroSampleRate.message() == "sample rate must be greater than zero"@,
        Error::Poisoned.message() == "shared state was poisoned by a panic on another thread"@,
        Error::Frozen.message() == "buffer is frozen; call resume() to capture again"@,
        Error::NotRunning.message() == "buffer is not running"@,
        Error::NotFrozen.message() == "buffer is not frozen; call start()"@,
{
}

/// Law: every cause is kept, in order, each behind a colon. A chain of one cause more is the chain
/// without it and that cause, and a chain of none is the message.
pub proof fn law_every_cause_is_appended(message: Seq<char>, causes: Seq<String>, cause: String)
    ensures
        chained(message, Seq::empty()) == message,
        chained(message, causes.push(cause)) == chained(message, causes) + ": "@ + cause@,
{
    assert(causes.push(cause).drop_last() =~= causes);
}

/// Law: an error's causes are those it was given, all of them.
pub proof fn law_causes_are_those_given(device: String, from: u32, to: u32, source: Vec<String>)
    ensures
        Error::DeviceConfig(source).causes() == source@,
        Error::DeviceId(source).causes() == source@,
        Error::StartStream(source).causes() == source@,
        (Error::OpenStream { device, source }).causes() == source@,
        (Error::Resampler { from, to, source }).causes() == source@,
        Error::UnsupportedSampleFormat(device).causes().len() == 0,
        Error::NoOutputDevice.causes().len() == 0,
        Error::ZeroSampleRate.causes().len() == 0,
        Error::Poisoned.causes().len() == 0,
        Error::Frozen.causes().len() == 0,
        Error::NotRunning.causes().len() == 0,
        Error::NotFrozen.causes().len() == 0,
{
}

} // verus!
