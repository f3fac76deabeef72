//! State shared between the capture callback, the worker and the caller.
use vstd::prelude::*;
use vstd::string::*;
use crate::device::OpenDevice;
use crate::ring::{RetentionRing, RingView};
use crate::text::text_of;

verus! {

/// `x` reduced to the range of a 64-bit counter.
pub open spec fn wrapped_u64(x: int) -> u64 {
    (x % 0x1_0000_0000_0000_0000) as u64
}

/// `x` reduced to the range of a 32-bit counter.
pub open spec fn wrapped_u32(x: int) -> u32 {
    (x % 0x1_0000_0000) as u32
}

/// What the shared state holds, as mathematics.
#[verifier::ext_equal]
pub struct SharedView {
    pub ring: RingView,
    pub silence_frames: u64,
    pub error: Option<Seq<char>>,
    pub faulted: bool,
    pub restarts: u32,
    pub native_rate: u32,
    pub channels: u32,
    pub device_name: Seq<char>,
}

impl SharedView {
    /// Nothing captured yet.
    pub open spec fn fresh(ring: RingView) -> Self {
        SharedView {
            ring,
            silence_frames: 0,
            error: None,
            faulted: false,
            restarts: 0,
            native_rate: 0,
            channels: 0,
            device_name: Seq::empty(),
        }
    }

    pub open spec fn with_error(self, message: Seq<char>) -> Self {
        SharedView { error: Some(message), ..self }
    }

    /// After a failure was reported by the stream.
    pub open spec fn with_fault(self, message: Seq<char>) -> Self {
        SharedView { faulted: true, ..self.with_error(message) }
    }

    pub open spec fn error_cleared(self) -> Self {
        SharedView { error: None, faulted: false, ..self }
    }

    pub open spec fn fault_taken(self) -> Self {
        SharedView { faulted: false, ..self }
    }

    /// After a device was opened.
    pub open spec fn with_device(self, device: OpenDevice) -> Self {
        SharedView {
            native_rate: device.native_rate,
            channels: device.channels as u32,
            device_name: device.name@,
            ..self
        }
    }

    /// After `frames` more frames of silence were made up.
    pub open spec fn with_silence(self, frames: int) -> Self {
        SharedView { silence_frames: wrapped_u64(self.silence_frames + frames), ..self }
    }

    /// After `samples` reached the ring.
    pub open spec fn with_samples(self, samples: Seq<i16>) -> Self {
        SharedView { ring: self.ring.pushed(samples), ..self }
    }

    /// After the stream was rebuilt once more.
    pub open spec fn restarted(self) -> Self {
        SharedView { restarts: wrapped_u32(self.restarts + 1), ..self }
    }

    /// The contents are discarded. Limits, device facts and a latched error stay.
    pub open spec fn emptied(self) -> Self {
        SharedView { ring: self.ring.cleared(), silence_frames: 0, ..self }
    }
}

/// State shared between the capture callback, the worker, and the caller.
pub struct Shared {
    pub ring: RetentionRing,
    /// Silence made up to cover gaps, in frames at the ring's rate.
    pub silence_frames: u64,
    /// Latched: survives being read. Cleared by `clear_error` or a successful rebuild.
    pub last_error: Option<String>,
    /// Raised when the stream fails, consumed by the supervisor.
    pub faulted: bool,
    pub restarts: u32,
    pub native_rate: u32,
    pub channels: u32,
    /// Name of the device currently being captured.
    pub device_name: String,
}

impl View for Shared {
    type V = SharedView;

    open spec fn view(&self) -> SharedView {
        SharedView {
            ring: self.ring@,
            silence_frames: self.silence_frames,
            error: text_of(self.last_error),
            faulted: self.faulted,
            restarts: self.restarts,
            native_rate: self.native_rate,
            channels: self.channels,
            device_name: self.device_name@,
        }
    }
}

impl Shared {
    pub open spec fn wf(self) -> bool {
        self.ring.wf()
    }

    pub fn new(ring: RetentionRing) -> (shared: Self)
        requires
            ring.wf(),
        ensures
            shared.wf(),
            shared@ == SharedView::fresh(ring@),
    {
        Shared {
            ring,
            silence_frames: 0,
            last_error: None,
            faulted: false,
            restarts: 0,
            native_rate: 0,
            channels: 0,
            device_name: String::new(),
        }
    }

    /// The latched error. Reading does not clear it.
    pub fn error(&self) -> (error: Option<String>)
        ensures
            text_of(error) == self@.error,
    {
        match &self.last_error {
            Some(message) => Some(message.clone()),
            None => None,
        }
    }

    /// Dismisses the latched error and lowers the fault flag.
    pub fn clear_error(&mut self)
        requires
            old(self).wf(),
        ensures
            final(self).wf(),
            final(self)@ == old(self)@.error_cleared(),
    {
        self.last_error = None;
        self.faulted = false;
    }

    /// Latches an error, in place of an earlier one.
    pub fn record_error(&mut self, message: String)
        requires
            old(self).wf(),
        ensures
            final(self).wf(),
            final(self)@ == old(self)@.with_error(message@),
    {
        self.last_error = Some(message);
    }

    /// Notes that the stream failed. Only flags it; the supervisor handles it.
    pub fn stream_failed(&mut self, message: String)
        requires
            old(self).wf(),
        ensures
            final(self).wf(),
            final(self)@ == old(self)@.with_fault(message@),
    {
        self.record_error(message);
        self.faulted = true;
    }

    /// Consumes the fault flag, so that one fault triggers one rebuild.
    pub fn take_fault(&mut self) -> (faulted: bool)
        requires
            old(self).wf(),
        ensures
            final(self).wf(),
            faulted == old(self)@.faulted,
            final(self)@ == old(self)@.fault_taken(),
    {
        let faulted: bool = self.faulted;
        self.faulted = false;
        faulted
    }

    /// Name of the device being captured, absent until one was opened.
    pub fn device_name(&self) -> (name: Option<String>)
        ensures
            text_of(name) == if self@.device_name.len() == 0 {
                None::<Seq<char>>
            } else {
                Some(self@.device_name)
            },
    {
        if self.device_name.as_str().is_empty() {
            None
        } else {
            Some(self.device_name.clone())
        }
    }

    /// Takes over the facts about a device that was opened.
    pub fn device_opened(&mut self, device: &OpenDevice)
        requires
            old(self).wf(),
        ensures
            final(self).wf(),
            final(self)@ == old(self)@.with_device(*device),
    {
        self.native_rate = device.native_rate;
        self.channels = device.channels as u32;
        self.device_name = device.name.clone();
    }

    /// Counts silence that was made up.
    pub fn add_silence(&mut self, frames: u64)
        requires
            old(self).wf(),
        ensures
            final(self).wf(),
            final(self)@ == old(self)@.with_silence(frames as int),
    {
        self.silence_frames = self.silence_frames.wrapping_add(frames);
    }

    /// Appends samples to the ring.
    pub fn store(&mut self, samples: &[i16])
        requires
            old(self).wf(),
        ensures
            final(self).wf(),
            final(self)@ == old(self)@.with_samples(samples@),
    {
        self.ring.push(samples);
    }

    /// Counts a rebuilt stream.
    pub fn count_restart(&mut self)
        requires
            old(self).wf(),
        ensures
            final(self).wf(),
            final(self)@ == old(self)@.restarted(),
    {
        self.restarts = self.restarts.wrapping_add(1);
    }

    /// Discards the contents and the silence counted for them.
    pub fn empty(&mut self)
        requires
            old(self).wf(),
        ensures
            final(self).wf(),
            final(self)@ == old(self)@.emptied(),
    {
        self.silence_frames = 0;
        self.ring.clear();
    }
}

/// Law: an error is latched until it is cleared. Whatever is stored, counted or opened after it,
/// and however often the fault flag is consumed, the error stays the same.
pub proof fn law_errors_latch(
    shared: SharedView,
    message: Seq<char>,
    samples: Seq<i16>,
    frames: int,
    device: OpenDevice,
)
    ensures
        shared.with_error(message).error == Some(message),
        shared.with_error(message).with_samples(samples).error == Some(message),
        shared.with_error(message).with_silence(frames).error == Some(message),
        shared.with_error(message).with_device(device).error == Some(message),
        shared.with_error(message).fault_taken().error == Some(message),
        shared.with_error(message).restarted().error == Some(message),
        shared.with_error(message).emptied().error == Some(message),
        shared.with_error(message).error_cleared().error is None,
{
}

/// Law: one fault is consumed once. Taking it lowers the flag and nothing else, clearing the error
/// lowers it too, and only a failing stream raises it.
pub proof fn law_fault_consumed_once(shared: SharedView, message: Seq<char>)
    ensures
        shared.with_fault(message).faulted,
        !shared.with_fault(message).fault_taken().faulted,
        shared.with_fault(message).fault_taken() == shared.fault_taken().with_error(message),
        !shared.with_fault(message).error_cleared().faulted,
        shared.with_error(message).faulted == shared.faulted,
{
}

/// Law: every event changes its own part of the shared state and nothing else. A failure sets the
/// error and raises the flag, clearing resets both, consuming a fault lowers only the flag.
pub proof fn law_errors_touch_nothing_else(shared: SharedView, message: Seq<char>)
    ensures
        shared.with_error(message) == (SharedView { error: Some(message), ..shared }),
        shared.with_fault(message) == (SharedView {
            error: Some(message),
            faulted: true,
            ..shared
        }),
        shared.error_cleared() == (SharedView { error: None, faulted: false, ..shared }),
        shared.fault_taken() == (SharedView { faulted: false, ..shared }),
{
}

/// Law: an opened device shows its rate, its channels and its name, and changes nothing else.
pub proof fn law_opened_device_is_shown(shared: SharedView, device: OpenDevice)
    ensures
        ({
            let after = shared.with_device(device);
            &&& after.native_rate == device.native_rate
            &&& after.channels == device.channels
            &&& after.device_name == device.name@
            &&& after == (SharedView {
                native_rate: after.native_rate,
                channels: after.channels,
                device_name: after.device_name,
                ..shared
            })
        }),
{
}

/// Law: counters count. Each restart is one more, each frame of silence one more, and only past the
/// largest number do they start over; nothing else changes.
pub proof fn law_counters_count(shared: SharedView, frames: nat)
    requires
        frames <= 0xffff_ffff_ffff_ffff,
    ensures
        ({
            let after = shared.restarted();
            &&& shared.restarts < 0xffff_ffff ==> after.restarts == shared.restarts + 1
            &&& shared.restarts == 0xffff_ffff ==> after.restarts == 0
            &&& after == (SharedView { restarts: after.restarts, ..shared })
        }),
        ({
            let after = shared.with_silence(frames as int);
            let sum = shared.silence_frames + frames;
            &&& sum <= 0xffff_ffff_ffff_ffff ==> after.silence_frames == sum
            &&& sum > 0xffff_ffff_ffff_ffff ==> after.silence_frames == sum
                - 0x1_0000_0000_0000_0000
            &&& after == (SharedView { silence_frames: after.silence_frames, ..shared })
        }),
{
}

/// Law: samples reach the ring and nothing else, and emptying forgets what was recorded and nothing
/// else.
pub proof fn law_contents_come_and_go_alone(shared: SharedView, samples: Seq<i16>)
    ensures
        shared.with_samples(samples) == (SharedView {
            ring: shared.ring.pushed(samples),
            ..shared
        }),
        shared.emptied() == (SharedView {
            ring: RingView { history: Seq::empty(), ..shared.ring },
            silence_frames: 0,
            ..shared
        }),
{
}

/// Law: a new state knows of no device, no error and no restart.
pub proof fn law_new_state_is_blank(ring: RingView)
    ensures
        SharedView::fresh(ring) == (SharedView {
            ring,
            silence_frames: 0,
            error: None,
            faulted: false,
            restarts: 0,
            native_rate: 0,
            channels: 0,
            device_name: Seq::empty(),
        }),
{
}

} // verus!
