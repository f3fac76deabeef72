//! The rolling buffer as its users see it.
//!
//! Opening and closing the capture itself is left to the caller: `start`, `freeze` and `resume`
//! say which of the two is due.
use vstd::prelude::*;
use vstd::string::*;
use crate::capture::{Shared, SharedView};
use crate::device::OpenDevice;
use crate::error::Error;
use crate::permission;
use crate::resample::{converted_samples, quantised_all};
use crate::ring::{
    clip, envelope, law_adjacent_reads_join, law_filled_ms_addresses_the_end,
    law_push_keeps_older_frames, law_reads_are_exact, law_retention_hides_and_reveals, tail,
    RetentionRing, RingView, DEFAULT_CEILING_SECS,
};
use crate::supervisor::{
    law_converted_samples_reach_the_ring, law_staged_samples_reach_the_ring, Action, Supervisor,
    SupervisorView, Worker,
};
use crate::text::text_of;
use crate::wav;

verus! {

pub const DEFAULT_TARGET_RATE: u32 = 16_000;

pub const DEFAULT_RETENTION_SECS: u32 = 15 * 60;

pub struct BufferOptions {
    /// How much history to keep. Defaults to 900 (15 minutes).
    pub retention_seconds: Option<u32>,
    /// Output rate. Defaults to 16000, which is what Whisper-style models want.
    pub target_sample_rate: Option<u32>,
    /// Allocation ceiling. The retention can be raised up to this at runtime without
    /// reallocating. Defaults to 3600.
    pub ceiling_seconds: Option<u32>,
}

#[derive(Clone, Copy, Debug, PartialEq, Eq, Structural)]
pub enum BufferState {
    /// Not capturing. Nothing is being recorded.
    Idle,
    /// Capturing into the rolling window.
    Running,
    /// Capture stopped, contents retained for reading.
    Frozen,
}

#[derive(Clone, Copy, Debug, PartialEq, Eq, Structural)]
pub enum PermissionStatus {
    Granted,
    Denied,
    /// macOS without preflight: knowable only by attempting capture.
    Unknown,
    /// Windows and Linux: loopback needs no permission.
    NotRequired,
}

/// What the caller has to do about the capture.
#[derive(Clone, Copy, Debug, PartialEq, Eq, Structural)]
pub enum CaptureStep {
    /// Nothing.
    Keep,
    /// Open a capture, then report with `capture_opened`.
    Open,
    /// Close the capture.
    Close,
}

pub struct BufferStatus {
    pub state: BufferState,
    /// Audio currently held, in milliseconds. Wall-clock accurate: gaps in the device's delivery
    /// are filled with silence rather than closed up.
    pub filled_ms: u32,
    /// The active retention window, in milliseconds.
    pub retention_ms: u32,
    /// Output rate of everything `read` returns.
    pub sample_rate: u32,
    /// How much synthesised silence stands in for gaps in device delivery. Nonzero is normal on
    /// Windows during quiet passages.
    pub silence_inserted_ms: u32,
    /// The device rate being captured, once running. Can change mid-capture if the default output
    /// device changes.
    pub native_sample_rate: Option<u32>,
    pub channels: Option<u32>,
    pub device_name: Option<String>,
    /// How many times the stream has been rebuilt after a device fault or change. Recording
    /// continues across these; the buffer is preserved.
    pub restarts: u32,
    /// The last error, latched. Persists until `clear_error` or a successful automatic recovery,
    /// so polling cannot miss it.
    pub error: Option<String>,
}

/// The rate asked for, or the default.
pub open spec fn chosen_rate(options: Option<BufferOptions>) -> u32 {
    match options {
        Some(BufferOptions { target_sample_rate: Some(rate), .. }) => rate,
        _ => DEFAULT_TARGET_RATE,
    }
}

/// The retention asked for, or the default, in seconds.
pub open spec fn chosen_retention(options: Option<BufferOptions>) -> u32 {
    match options {
        Some(BufferOptions { retention_seconds: Some(seconds), .. }) => seconds,
        _ => DEFAULT_RETENTION_SECS,
    }
}

/// The ceiling asked for, or the default, in seconds, but never below the retention.
pub open spec fn chosen_ceiling(options: Option<BufferOptions>) -> u32 {
    let ceiling = match options {
        Some(BufferOptions { ceiling_seconds: Some(seconds), .. }) => seconds,
        _ => DEFAULT_CEILING_SECS,
    };
    if ceiling < chosen_retention(options) {
        chosen_retention(options)
    } else {
        ceiling
    }
}

/// The largest frame count an allocation can hold.
pub open spec fn allocatable(frames: int) -> bool {
    2 * frames <= isize::MAX
}

/// What a permission status is called towards users.
pub open spec fn public_status(status: permission::Status) -> PermissionStatus {
    match status {
        permission::Status::Granted => PermissionStatus::Granted,
        permission::Status::Denied => PermissionStatus::Denied,
        permission::Status::Unknown => PermissionStatus::Unknown,
        permission::Status::NotRequired => PermissionStatus::NotRequired,
    }
}

/// A fact that is only known while capturing or frozen, and not zero.
pub open spec fn known(state: BufferState, value: u32) -> Option<u32> {
    if state == BufferState::Idle || value == 0 {
        None
    } else {
        Some(value)
    }
}

/// What a buffer holds, as mathematics.
#[verifier::ext_equal]
pub struct BufferView {
    pub shared: SharedView,
    pub state: BufferState,
    pub target_rate: u32,
}

impl BufferView {
    /// An idle, empty buffer.
    pub open spec fn fresh(options: Option<BufferOptions>) -> Self {
        let rate = chosen_rate(options);
        BufferView {
            shared: SharedView::fresh(
                RingView::empty(
                    rate as nat,
                    (chosen_ceiling(options) * rate) as nat,
                    (chosen_retention(options) * rate) as nat,
                ),
            ),
            state: BufferState::Idle,
            target_rate: rate,
        }
    }

    pub open spec fn valid(self) -> bool {
        &&& self.target_rate > 0
        &&& self.shared.ring.rate == self.target_rate
        &&& self.shared.ring.valid()
    }

    /// The visible audio.
    pub open spec fn window(self) -> Seq<i16> {
        self.shared.ring.window()
    }

    /// The audio between two offsets in milliseconds from the oldest audio held.
    pub open spec fn between(self, start_ms: nat, end_ms: nat) -> Seq<i16> {
        clip(
            self.window(),
            self.shared.ring.frames(start_ms),
            self.shared.ring.frames(end_ms),
        )
    }

    /// The buffer's contents under a supervisor.
    pub open spec fn worker(self, sup: SupervisorView) -> Worker {
        Worker { sup, shared: self.shared }
    }

    /// After the shared state moved on.
    pub open spec fn with_shared(self, shared: SharedView) -> Self {
        BufferView { shared, ..self }
    }

    pub open spec fn in_state(self, state: BufferState) -> Self {
        BufferView { state, ..self }
    }

    pub open spec fn emptied(self) -> Self {
        BufferView { shared: self.shared.emptied(), ..self }
    }

    /// `start`: what becomes of the buffer, and what is due or refused.
    pub open spec fn start(self) -> (Self, Result<CaptureStep, Error>) {
        match self.state {
            BufferState::Running => (self, Ok(CaptureStep::Keep)),
            BufferState::Frozen => (self, Err(Error::Frozen)),
            BufferState::Idle => (self, Ok(CaptureStep::Open)),
        }
    }

    /// `freeze`: what becomes of the buffer, and what is due or refused.
    pub open spec fn freeze(self) -> (Self, Result<CaptureStep, Error>) {
        match self.state {
            BufferState::Running => (
                self.in_state(BufferState::Frozen),
                Ok(CaptureStep::Close),
            ),
            BufferState::Frozen => (self, Ok(CaptureStep::Keep)),
            BufferState::Idle => (self, Err(Error::NotRunning)),
        }
    }

    /// `resume`: what becomes of the buffer, and what is due or refused.
    pub open spec fn resume(self) -> (Self, Result<CaptureStep, Error>) {
        match self.state {
            BufferState::Frozen => (self.emptied(), Ok(CaptureStep::Open)),
            BufferState::Running => (self, Ok(CaptureStep::Keep)),
            BufferState::Idle => (self, Err(Error::NotFrozen)),
        }
    }

    /// `stop`: what becomes of the buffer.
    pub open spec fn stop(self) -> Self {
        self.emptied().in_state(BufferState::Idle)
    }
}

/// A rolling buffer of captured system audio.
pub struct SystemAudioBuffer {
    shared: Shared,
    state: BufferState,
    target_rate: u32,
}

impl View for SystemAudioBuffer {
    type V = BufferView;

    closed spec fn view(&self) -> BufferView {
        BufferView { shared: self.shared@, state: self.state, target_rate: self.target_rate }
    }
}

impl SystemAudioBuffer {
    pub closed spec fn wf(self) -> bool {
        &&& self.shared.wf()
        &&& self@.valid()
    }

    /// Every well-formed buffer keeps the limits of its view.
    pub proof fn lemma_wf_valid(self)
        requires
            self.wf(),
        ensures
            self@.valid(),
    {
    }

    /// An idle buffer with the given options. The rate and the retention must not be zero.
    pub fn new(options: Option<BufferOptions>) -> (result: Result<Self, Error>)
        requires
            chosen_rate(options) > 0 && chosen_retention(options) > 0 ==> allocatable(
                chosen_ceiling(options) * chosen_rate(options),
            ),
        ensures
            result is Ok <==> chosen_rate(options) > 0 && chosen_retention(options) > 0,
            result matches Ok(buffer) ==> buffer.wf() && buffer@ == BufferView::fresh(options),
            result matches Err(e) ==> {
                &&& e matches Error::NotPositive(name)
                &&& name@ == if chosen_rate(options) == 0 {
                    "targetSampleRate"@
                } else {
                    "retentionSeconds"@
                }
            },
    {
        let ghost given = options;
        let options = match options {
            Some(options) => options,
            None => BufferOptions {
                retention_seconds: None,
                target_sample_rate: None,
                ceiling_seconds: None,
            },
        };
        let target_rate: u32 = match options.target_sample_rate {
            Some(rate) => rate,
            None => DEFAULT_TARGET_RATE,
        };
        if target_rate == 0 {
            return Err(Error::NotPositive("targetSampleRate"));
        }
        let retention_secs: u32 = match options.retention_seconds {
            Some(seconds) => seconds,
            None => DEFAULT_RETENTION_SECS,
        };
        if retention_secs == 0 {
            return Err(Error::NotPositive("retentionSeconds"));
        }
        let asked: u32 = match options.ceiling_seconds {
            Some(seconds) => seconds,
            None => DEFAULT_CEILING_SECS,
        };
        let ceiling_secs: u32 = if asked < retention_secs { retention_secs } else { asked };
        assert(retention_secs * target_rate <= ceiling_secs * target_rate) by (nonlinear_arith)
            requires
                retention_secs <= ceiling_secs,
                0 <= target_rate,
        ;
        assert(0 <= retention_secs * target_rate) by (nonlinear_arith);
        let ring = RetentionRing::new(
            target_rate,
            ceiling_secs as usize * target_rate as usize,
            retention_secs as usize * target_rate as usize,
        );
        proof {
            ring.lemma_wf_valid();
        }
        let buffer = SystemAudioBuffer {
            shared: Shared::new(ring),
            state: BufferState::Idle,
            target_rate,
        };
        assert(buffer@ =~= BufferView::fresh(given));
        Ok(buffer)
    }

    /// Whether a buffer with these options can be allocated, or is refused before it comes to that.
    pub fn fits_memory(options: &Option<BufferOptions>) -> (fits: bool)
        ensures
            fits == (chosen_rate(*options) > 0 && chosen_retention(*options) > 0 ==> allocatable(
                chosen_ceiling(*options) * chosen_rate(*options),
            )),
    {
        let mut rate: u32 = DEFAULT_TARGET_RATE;
        let mut retention: u32 = DEFAULT_RETENTION_SECS;
        let mut ceiling: u32 = DEFAULT_CEILING_SECS;
        if let Some(options) = options {
            if let Some(given) = options.target_sample_rate {
                rate = given;
            }
            if let Some(given) = options.retention_seconds {
                retention = given;
            }
            if let Some(given) = options.ceiling_seconds {
                ceiling = given;
            }
        }
        if ceiling < retention {
            ceiling = retention;
        }
        assert(0 <= ceiling * rate <= u32::MAX * u32::MAX) by (nonlinear_arith)
            requires
                0 <= ceiling <= u32::MAX,
                0 <= rate <= u32::MAX,
        ;
        rate == 0 || retention == 0 || 2 * (ceiling as u128 * rate as u128) <= isize::MAX as u128
    }

    pub fn state(&self) -> (state: BufferState)
        ensures
            state == self@.state,
    {
        self.state
    }

    /// Begins capturing. Nothing records until this is called and the capture is open.
    ///
    /// On macOS opening triggers the System Audio Recording prompt. A denial opens successfully and
    /// delivers no frames. What the buffer then holds is made up, so compare the filled length with
    /// the silence inserted after a second to tell the difference.
    pub fn start(&mut self) -> (result: Result<CaptureStep, Error>)
        requires
            old(self).wf(),
        ensures
            final(self).wf(),
            (final(self)@, result) == old(self)@.start(),
    {
        match self.state {
            BufferState::Running => Ok(CaptureStep::Keep),
            BufferState::Frozen => Err(Error::Frozen),
            BufferState::Idle => Ok(CaptureStep::Open),
        }
    }

    /// Takes the outcome of opening the capture. A failure leaves the state as it was and is
    /// handed back.
    pub fn capture_opened(&mut self, outcome: Result<(), Error>) -> (result: Result<(), Error>)
        requires
            old(self).wf(),
        ensures
            final(self).wf(),
            result == outcome,
            final(self)@ == if outcome is Ok {
                old(self)@.in_state(BufferState::Running)
            } else {
                old(self)@
            },
    {
        if outcome.is_ok() {
            self.state = BufferState::Running;
        }
        outcome
    }

    /// Puts a capture on a device that was just opened under a supervisor of its own. The device's
    /// facts become visible even when a rate of zero makes it unusable.
    pub fn supervise(&mut self, device: OpenDevice, now: u64) -> (result: Result<Supervisor, Error>)
        requires
            old(self).wf(),
        ensures
            final(self).wf(),
            final(self)@ == old(self)@.with_shared(old(self)@.shared.with_device(device)),
            result is Err <==> device.native_rate == 0,
            result matches Err(e) ==> e == Error::ZeroSampleRate,
            result matches Ok(supervisor) ==> {
                &&& supervisor.wf()
                &&& supervisor@ == SupervisorView::starting(device, old(self)@.target_rate, now)
            },
    {
        Supervisor::new(&mut self.shared, device, now)
    }

    /// Takes a failure that the stream reported.
    pub fn stream_failed(&mut self, message: String)
        requires
            old(self).wf(),
        ensures
            final(self).wf(),
            final(self)@ == old(self)@.with_shared(old(self)@.shared.with_fault(message@)),
    {
        self.shared.stream_failed(message);
    }

    /// A tick of the capture: takes in what the callback staged and fills the shortfall against
    /// the clock.
    pub fn woke(&mut self, supervisor: &mut Supervisor, staged: &[u32], now: u64) -> (action: Action)
        requires
            old(self).wf(),
            old(supervisor).wf(),
            old(supervisor)@.phase is Sleeping,
            old(supervisor)@.epoch.accounted + staged@.len() + old(supervisor)@.epoch.rate
                <= u64::MAX,
        ensures
            final(self).wf(),
            final(supervisor).wf(),
            final(self)@ == old(self)@.with_shared(final(self)@.shared),
            (final(self)@.worker(final(supervisor)@), action@) == old(self)@.worker(
                old(supervisor)@,
            ).ticked(staged@, now).advanced(),
    {
        let action = supervisor.woke(&mut self.shared, staged, now);
        proof {
            self.shared.ring.lemma_wf_valid();
        }
        action
    }

    /// The engine answered a chunk, or refused it, and wants `next` frames for the next one.
    pub fn converted(
        &mut self,
        supervisor: &mut Supervisor,
        produced: Option<Vec<Vec<u32>>>,
        next: usize,
    ) -> (action: Action)
        requires
            old(self).wf(),
            old(supervisor).wf(),
            old(supervisor)@.phase is Converting,
            old(supervisor)@.resampler.dropped < u64::MAX,
            next > 0,
        ensures
            final(self).wf(),
            final(supervisor).wf(),
            final(self)@ == old(self)@.with_shared(final(self)@.shared),
            (final(self)@.worker(final(supervisor)@), action@) == old(self)@.worker(
                old(supervisor)@,
            ).answered(produced, next as nat).advanced(),
    {
        let action = supervisor.converted(&mut self.shared, produced, next);
        proof {
            self.shared.ring.lemma_wf_valid();
        }
        action
    }

    /// The stream was reopened on the default output device, or could not be.
    pub fn reopened(
        &mut self,
        supervisor: &mut Supervisor,
        outcome: Result<OpenDevice, Error>,
    ) -> (action: Action)
        requires
            old(self).wf(),
            old(supervisor).wf(),
            old(supervisor)@.phase is Opening,
        ensures
            final(self).wf(),
            final(supervisor).wf(),
            final(self)@ == old(self)@.with_shared(final(self)@.shared),
            (final(self)@.worker(final(supervisor)@), action@) == old(self)@.worker(
                old(supervisor)@,
            ).opened(outcome),
    {
        let action = supervisor.opened(&mut self.shared, outcome);
        proof {
            self.shared.ring.lemma_wf_valid();
        }
        action
    }

    /// An engine for the replacement device was built and wants the given number of frames first,
    /// or the ratio was rejected.
    pub fn engine_built(
        &mut self,
        supervisor: &mut Supervisor,
        outcome: Result<usize, Vec<String>>,
    ) -> (action: Action)
        requires
            old(self).wf(),
            old(supervisor).wf(),
            old(supervisor)@.phase is Building,
            outcome matches Ok(chunk_in) ==> chunk_in > 0,
        ensures
            final(self).wf(),
            final(supervisor).wf(),
            final(self)@ == old(self)@.with_shared(final(self)@.shared),
            (final(self)@.worker(final(supervisor)@), action@) == old(self)@.worker(
                old(supervisor)@,
            ).built(outcome),
    {
        let action = supervisor.built(&mut self.shared, outcome);
        proof {
            self.shared.ring.lemma_wf_valid();
        }
        action
    }

    /// The callback panicked while it held the staged samples: the capture ends.
    pub fn staging_poisoned(&mut self, supervisor: &mut Supervisor) -> (action: Action)
        requires
            old(self).wf(),
            old(supervisor).wf(),
            old(supervisor)@.phase is Sleeping,
        ensures
            final(self).wf(),
            final(supervisor).wf(),
            final(self)@ == old(self)@.with_shared(final(self)@.shared),
            (final(self)@.worker(final(supervisor)@), action@) == old(self)@.worker(
                old(supervisor)@,
            ).ended("capture thread panicked"@),
    {
        supervisor.staging_poisoned(&mut self.shared)
    }

    /// A thread panicked while it held the buffer: the capture ends.
    pub fn buffer_poisoned(&mut self, supervisor: &mut Supervisor) -> (action: Action)
        requires
            old(self).wf(),
            old(supervisor).wf(),
        ensures
            final(self).wf(),
            final(supervisor).wf(),
            final(self)@ == old(self)@.with_shared(final(self)@.shared),
            (final(self)@.worker(final(supervisor)@), action@) == old(self)@.worker(
                old(supervisor)@,
            ).ended("audio buffer was poisoned"@),
    {
        supervisor.buffer_poisoned(&mut self.shared)
    }

    /// Discards the contents and goes idle. The capture is closed first, so that nothing is
    /// written behind it.
    pub fn stop(&mut self)
        requires
            old(self).wf(),
        ensures
            final(self).wf(),
            final(self)@ == old(self)@.stop(),
    {
        self.state = BufferState::Idle;
        self.shared.empty();
    }

    /// Stops capturing but keeps the contents, for examining and cutting.
    ///
    /// Audio playing during a freeze is not recorded.
    pub fn freeze(&mut self) -> (result: Result<CaptureStep, Error>)
        requires
            old(self).wf(),
        ensures
            final(self).wf(),
            (final(self)@, result) == old(self)@.freeze(),
    {
        match self.state {
            BufferState::Running => {
                self.state = BufferState::Frozen;
                Ok(CaptureStep::Close)
            },
            BufferState::Frozen => Ok(CaptureStep::Keep),
            BufferState::Idle => Err(Error::NotRunning),
        }
    }

    /// Resumes capturing after a freeze, starting from empty.
    ///
    /// Contents are cleared rather than appended to: keeping them would leave an invisible
    /// discontinuity mid-window, so every position in a waveform drawn over it would be wrong.
    pub fn resume(&mut self) -> (result: Result<CaptureStep, Error>)
        requires
            old(self).wf(),
        ensures
            final(self).wf(),
            (final(self)@, result) == old(self)@.resume(),
    {
        match self.state {
            BufferState::Frozen => {
                self.shared.empty();
                Ok(CaptureStep::Open)
            },
            BufferState::Running => Ok(CaptureStep::Keep),
            BufferState::Idle => Err(Error::NotFrozen),
        }
    }

    /// A snapshot of what the buffer is doing.
    ///
    /// Device facts come from the supervisor, since the device can change underneath a running
    /// capture.
    pub fn status(&self) -> (status: BufferStatus)
        requires
            self.wf(),
        ensures
            status.state == self@.state,
            status.filled_ms == self@.shared.ring.millis(self@.window().len()) as u32,
            status.retention_ms == self@.shared.ring.millis(self@.shared.ring.retention) as u32,
            status.sample_rate == self@.target_rate,
            status.silence_inserted_ms == {
                let ms = self@.shared.ring.millis(self@.shared.silence_frames as nat);
                if ms <= u32::MAX {
                    ms
                } else {
                    u32::MAX as nat
                }
            },
            status.native_sample_rate == known(self@.state, self@.shared.native_rate),
            status.channels == known(self@.state, self@.shared.channels),
            text_of(status.device_name) == if self@.state == BufferState::Idle
                || self@.shared.device_name.len() == 0 {
                None::<Seq<char>>
            } else {
                Some(self@.shared.device_name)
            },
            status.restarts == self@.shared.restarts,
            text_of(status.error) == self@.shared.error,
    {
        let rate: u128 = self.target_rate as u128;
        let silence: u128 = (self.shared.silence_frames as u128 * 1000) / rate;
        let silence_inserted_ms: u32 = if silence <= u32::MAX as u128 {
            silence as u32
        } else {
            u32::MAX
        };
        let retention: u128 = (self.shared.ring.retention_frames() as u128 * 1000) / rate;
        let idle: bool = self.state == BufferState::Idle;
        BufferStatus {
            state: self.state,
            filled_ms: self.shared.ring.window_ms(),
            retention_ms: #[verifier::truncate] (retention as u32),
            sample_rate: self.shared.ring.rate(),
            silence_inserted_ms,
            native_sample_rate: if idle || self.shared.native_rate == 0 {
                None
            } else {
                Some(self.shared.native_rate)
            },
            channels: if idle || self.shared.channels == 0 {
                None
            } else {
                Some(self.shared.channels)
            },
            device_name: if idle {
                None
            } else {
                self.shared.device_name()
            },
            restarts: self.shared.restarts,
            error: self.shared.error(),
        }
    }

    /// Dismisses a latched error. A successful automatic recovery clears it too.
    pub fn clear_error(&mut self)
        requires
            old(self).wf(),
        ensures
            final(self).wf(),
            final(self)@ == (BufferView { shared: old(self)@.shared.error_cleared(), ..old(self)@ }),
    {
        self.shared.clear_error();
    }

    /// Changes how much history to keep, without reallocating.
    ///
    /// Lowering it hides older audio; raising it back reveals whatever is still physically
    /// present, up to the ceiling set at construction.
    pub fn set_retention_seconds(&mut self, seconds: u32) -> (result: Result<(), Error>)
        requires
            old(self).wf(),
        ensures
            final(self).wf(),
            result is Ok <==> seconds > 0,
            result matches Err(e) ==> {
                &&& e matches Error::NotPositive(name)
                &&& name@ == "retentionSeconds"@
                &&& final(self)@ == old(self)@
            },
            result is Ok ==> final(self)@ == (BufferView {
                shared: SharedView {
                    ring: old(self)@.shared.ring.with_retention(
                        (seconds * old(self)@.target_rate) as nat,
                    ),
                    ..old(self)@.shared
                },
                ..old(self)@
            }),
    {
        if seconds == 0 {
            return Err(Error::NotPositive("retentionSeconds"));
        }
        assert(0 <= seconds * self.target_rate <= u32::MAX * u32::MAX) by (nonlinear_arith)
            requires
                0 <= seconds <= u32::MAX,
                0 <= self.target_rate <= u32::MAX,
        ;
        proof {
            self.shared.ring.lemma_wf_valid();
        }
        let frames: u64 = seconds as u64 * self.target_rate as u64;
        let frames: usize = if frames <= usize::MAX as u64 { frames as usize } else { usize::MAX };
        self.shared.ring.set_retention_frames(frames);
        Ok(())
    }

    /// Whether a range fits the fields of a WAV header. Any does that is shorter than 4 GiB at a
    /// rate below 2^31.
    pub fn can_read(&self, start_ms: u32, end_ms: u32) -> (fits: bool)
        requires
            self.wf(),
        ensures
            fits == wav::encodable(
                self@.between(start_ms as nat, end_ms as nat).len(),
                self@.target_rate as nat,
            ),
    {
        let window: usize = self.shared.ring.window_frames();
        let start: usize = self.shared.ring.ms_to_frames(start_ms);
        let end: usize = self.shared.ring.ms_to_frames(end_ms);
        let from: usize = if start < window { start } else { window };
        let to: usize = if end < window { end } else { window };
        let frames: usize = if to <= from { 0 } else { to - from };
        wav::fits_header(frames, self.shared.ring.rate())
    }

    /// Cuts a range out as a mono 16-bit WAV.
    ///
    /// Offsets are milliseconds from the oldest audio held. Out-of-range values clamp. A container
    /// rather than raw PCM so format sniffers accept it and the bytes play in an `<audio>` element
    /// unchanged.
    pub fn read(&self, start_ms: u32, end_ms: u32) -> (file: Vec<u8>)
        requires
            self.wf(),
            wav::encodable(
                self@.between(start_ms as nat, end_ms as nat).len(),
                self@.target_rate as nat,
            ),
        ensures
            file@ == wav::header(
                self@.between(start_ms as nat, end_ms as nat).len(),
                self@.target_rate as nat,
            ) + wav::payload(self@.between(start_ms as nat, end_ms as nat)),
    {
        proof {
            self.shared.ring.lemma_wf_valid();
        }
        let start: usize = self.shared.ring.ms_to_frames(start_ms);
        let end: usize = self.shared.ring.ms_to_frames(end_ms);
        let samples = self.shared.ring.read_frames(start, end);
        assert(samples@ =~= self@.between(start_ms as nat, end_ms as nat));
        wav::mono_pcm16(samples.as_slice(), self.shared.ring.rate())
    }

    /// Whether a waveform of that many buckets can be computed in the machine's word.
    pub fn can_draw(&self, buckets: u32) -> (fits: bool)
        requires
            self.wf(),
        ensures
            fits == (2 * buckets <= usize::MAX && buckets * self@.window().len() <= usize::MAX),
    {
        let window: usize = self.shared.ring.window_frames();
        assert(0 <= buckets * window <= u32::MAX * u64::MAX) by (nonlinear_arith)
            requires
                0 <= buckets <= u32::MAX,
                0 <= window <= u64::MAX,
        ;
        let spread: u128 = buckets as u128 * window as u128;
        2 * (buckets as u128) <= usize::MAX as u128 && spread <= usize::MAX as u128
    }

    /// Waveform envelope: smallest and largest sample per bucket, interleaved, in units of 1/32768
    /// of full scale. Computed here so drawing costs a few thousand numbers rather than the whole
    /// buffer.
    pub fn peaks(&self, buckets: u32) -> (result: Result<Vec<i16>, Error>)
        requires
            self.wf(),
            2 * buckets <= usize::MAX,
            buckets * self@.window().len() <= usize::MAX,
        ensures
            result is Ok <==> buckets > 0,
            result matches Ok(peaks) ==> peaks@ == envelope(self@.window(), buckets as nat),
            result matches Err(e) ==> {
                &&& e matches Error::NotPositive(name)
                &&& name@ == "buckets"@
            },
    {
        if buckets == 0 {
            return Err(Error::NotPositive("buckets"));
        }
        Ok(self.shared.ring.peaks(buckets as usize))
    }

    /// Whether the OS will allow system audio capture.
    pub fn permission_status(&self, platform: permission::Platform) -> (status: PermissionStatus)
        ensures
            status == public_status(permission::status_on(platform)),
    {
        current_permission_status(platform)
    }
}

/// Whether a platform needs a permission grant for loopback capture, without constructing a buffer
/// first.
pub fn permission_status(platform: permission::Platform) -> (status: PermissionStatus)
    ensures
        status == public_status(permission::status_on(platform)),
{
    current_permission_status(platform)
}

fn current_permission_status(platform: permission::Platform) -> (status: PermissionStatus)
    ensures
        status == public_status(permission::status_on(platform)),
{
    match permission::status(platform) {
        permission::Status::Granted => PermissionStatus::Granted,
        permission::Status::Denied => PermissionStatus::Denied,
        permission::Status::Unknown => PermissionStatus::Unknown,
        permission::Status::NotRequired => PermissionStatus::NotRequired,
    }
}

/// Law: nothing records until a capture was opened. A new buffer is idle and empty, and asking to
/// start does not change that.
pub proof fn law_new_buffer_is_idle_and_empty(options: Option<BufferOptions>)
    requires
        chosen_rate(options) > 0,
        chosen_retention(options) > 0,
    ensures
        ({
            let buffer = BufferView::fresh(options);
            &&& buffer.valid()
            &&& buffer.state == BufferState::Idle
            &&& buffer.window().len() == 0
            &&& buffer.shared.error is None
            &&& buffer.shared.restarts == 0
            &&& buffer.start() == (buffer, Ok::<CaptureStep, Error>(CaptureStep::Open))
        }),
{
    let (ceiling, retention, rate) = (
        chosen_ceiling(options) as int,
        chosen_retention(options) as int,
        chosen_rate(options) as int,
    );
    assert(1 <= retention * rate <= ceiling * rate) by (nonlinear_arith)
        requires
            1 <= retention <= ceiling,
            1 <= rate,
    ;
}

/// Law: the options mean what they say. The retention asked for is active from the start, and the
/// ceiling holds at least that.
pub proof fn law_options_are_honoured(options: Option<BufferOptions>)
    requires
        chosen_rate(options) > 0,
        chosen_retention(options) > 0,
    ensures
        ({
            let ring = BufferView::fresh(options).shared.ring;
            &&& ring.rate == chosen_rate(options)
            &&& ring.retention == chosen_retention(options) * chosen_rate(options)
            &&& ring.capacity == chosen_ceiling(options) * chosen_rate(options)
            &&& ring.millis(ring.retention) == 1000 * chosen_retention(options)
        }),
{
    law_new_buffer_is_idle_and_empty(options);
    let (ceiling, retention, rate) = (
        chosen_ceiling(options) as int,
        chosen_retention(options) as int,
        chosen_rate(options) as int,
    );
    assert(1 <= retention * rate <= ceiling * rate) by (nonlinear_arith)
        requires
            1 <= retention <= ceiling,
            1 <= rate,
    ;
    assert((retention * rate) * 1000 == (1000 * retention) * rate) by (nonlinear_arith);
    vstd::arithmetic::div_mod::lemma_div_multiples_vanish(1000 * retention, rate);
    vstd::arithmetic::mul::lemma_mul_is_commutative(1000 * retention, rate);
}

/// Law: a refused call changes nothing, and calls are refused exactly where they make no sense: a
/// frozen buffer does not start, and an idle one neither freezes nor resumes.
pub proof fn law_refused_calls_change_nothing(buffer: BufferView)
    ensures
        buffer.start().1 is Err <==> buffer.state == BufferState::Frozen,
        buffer.freeze().1 is Err <==> buffer.state == BufferState::Idle,
        buffer.resume().1 is Err <==> buffer.state == BufferState::Idle,
        buffer.start().1 is Err ==> buffer.start().0 == buffer,
        buffer.freeze().1 is Err ==> buffer.freeze().0 == buffer,
        buffer.resume().1 is Err ==> buffer.resume().0 == buffer,
{
}

/// Law: a call that asks for what is already the case does nothing.
pub proof fn law_repeated_calls_do_nothing(buffer: BufferView)
    ensures
        ({
            let running = buffer.in_state(BufferState::Running);
            &&& running.start() == (running, Ok::<CaptureStep, Error>(CaptureStep::Keep))
            &&& running.resume() == (running, Ok::<CaptureStep, Error>(CaptureStep::Keep))
        }),
        ({
            let frozen = buffer.in_state(BufferState::Frozen);
            frozen.freeze() == (frozen, Ok::<CaptureStep, Error>(CaptureStep::Keep))
        }),
        buffer.stop().stop() == buffer.stop(),
{
}

/// Law: freezing closes the capture and keeps the contents. Every read gives the same before and
/// after.
pub proof fn law_freeze_keeps_contents(buffer: BufferView, start_ms: nat, end_ms: nat)
    requires
        buffer.state == BufferState::Running,
    ensures
        buffer.freeze().1 == Ok::<CaptureStep, Error>(CaptureStep::Close),
        buffer.freeze().0.state == BufferState::Frozen,
        buffer.freeze().0.shared == buffer.shared,
        buffer.freeze().0.between(start_ms, end_ms) == buffer.between(start_ms, end_ms),
{
}

/// Law: resuming starts from empty, and opens a capture. The limits and a latched error stay.
pub proof fn law_resume_starts_from_empty(buffer: BufferView)
    requires
        buffer.state == BufferState::Frozen,
    ensures
        ({
            let (after, result) = buffer.resume();
            &&& result == Ok::<CaptureStep, Error>(CaptureStep::Open)
            &&& after.window().len() == 0
            &&& after.shared.silence_frames == 0
            &&& after.shared.ring.capacity == buffer.shared.ring.capacity
            &&& after.shared.ring.retention == buffer.shared.ring.retention
            &&& after.shared.error == buffer.shared.error
        }),
{
}

/// Law: stopping discards the contents from any state, and leaves a buffer that can start again.
pub proof fn law_stop_discards(buffer: BufferView, start_ms: nat, end_ms: nat)
    requires
        buffer.valid(),
    ensures
        ({
            let after = buffer.stop();
            &&& after.state == BufferState::Idle
            &&& after.valid()
            &&& after.between(start_ms, end_ms).len() == 0
            &&& after.shared.silence_frames == 0
            &&& after.shared.ring.retention == buffer.shared.ring.retention
            &&& after.shared.ring.capacity == buffer.shared.ring.capacity
            &&& after.start().1 == Ok::<CaptureStep, Error>(CaptureStep::Open)
        }),
{
}

/// Law: a cut clip is the audio. The file that `read` gives holds the frames between the two
/// offsets and nothing else, and decodes to them, frame for frame.
pub proof fn law_clip_decodes_to_the_audio(buffer: BufferView, start_ms: nat, end_ms: nat, i: int)
    requires
        0 <= i < buffer.between(start_ms, end_ms).len(),
    ensures
        ({
            let audio = buffer.between(start_ms, end_ms);
            let file = wav::header(audio.len(), buffer.target_rate as nat) + wav::payload(audio);
            &&& file.len() == 44 + 2 * audio.len()
            &&& wav::decoded(file[44 + 2 * i], file[45 + 2 * i]) == audio[i]
        }),
{
    wav::law_samples_round_trip(
        buffer.between(start_ms, end_ms),
        buffer.target_rate as nat,
        i,
    );
}

/// Law: what was played is what is read. After a tick of a device that runs at the buffer's rate,
/// the audio held is what was held before, what was on its way, the staged samples and zeros for
/// the gap, as far as the retention reaches back; and every frame of any clip decodes to it.
pub proof fn law_staged_audio_is_read_back(
    buffer: BufferView,
    sup: SupervisorView,
    staged: Seq<u32>,
    now: u64,
    start_ms: nat,
    end_ms: nat,
    i: int,
)
    requires
        buffer.valid(),
        sup.valid(),
        sup.resampler.passes_through(),
    ensures
        ({
            let owed = sup.epoch.received(staged.len()).shortfall(now as nat);
            let after = buffer.with_shared(
                buffer.worker(sup).ticked(staged, now).advanced().0.shared,
            );
            let held = tail(
                buffer.window() + (sup.out + quantised_all(staged) + Seq::new(owed, |k: int| 0i16)),
                buffer.shared.ring.retention,
            );
            let ring = buffer.shared.ring;
            let audio = clip(held, ring.frames(start_ms), ring.frames(end_ms));
            let file = wav::header(audio.len(), buffer.target_rate as nat) + wav::payload(audio);
            &&& after.window() == held
            &&& after.between(start_ms, end_ms) == audio
            &&& 0 <= i < audio.len() ==> wav::decoded(file[44 + 2 * i], file[45 + 2 * i])
                == audio[i]
        }),
{
    let worker = buffer.worker(sup);
    let owed = sup.epoch.received(staged.len()).shortfall(now as nat);
    law_staged_samples_reach_the_ring(worker, staged, now);
    law_push_keeps_older_frames(
        buffer.shared.ring,
        sup.out + quantised_all(staged) + Seq::new(owed, |k: int| 0i16),
    );
    let after = buffer.with_shared(worker.ticked(staged, now).advanced().0.shared);
    if 0 <= i < after.between(start_ms, end_ms).len() {
        law_clip_decodes_to_the_audio(after, start_ms, end_ms, i);
    }
}

/// Law: what was converted is what is read. Once the engine answered the last chunk that is ready,
/// the audio held is what was held before, what was on its way and what the engine produced, as far
/// as the retention reaches back; and every frame of any clip decodes to it.
pub proof fn law_converted_audio_is_read_back(
    buffer: BufferView,
    sup: SupervisorView,
    produced: Option<Vec<Vec<u32>>>,
    next: nat,
    start_ms: nat,
    end_ms: nat,
    i: int,
)
    requires
        buffer.valid(),
        !buffer.worker(sup).answered(produced, next).sup.resampler.chunk_ready(),
    ensures
        ({
            let after = buffer.with_shared(
                buffer.worker(sup).answered(produced, next).advanced().0.shared,
            );
            let held = tail(
                buffer.window() + (sup.out + converted_samples(produced)),
                buffer.shared.ring.retention,
            );
            let ring = buffer.shared.ring;
            let audio = clip(held, ring.frames(start_ms), ring.frames(end_ms));
            let file = wav::header(audio.len(), buffer.target_rate as nat) + wav::payload(audio);
            &&& after.window() == held
            &&& after.between(start_ms, end_ms) == audio
            &&& 0 <= i < audio.len() ==> wav::decoded(file[44 + 2 * i], file[45 + 2 * i])
                == audio[i]
        }),
{
    let worker = buffer.worker(sup);
    law_converted_samples_reach_the_ring(worker, produced, next);
    law_push_keeps_older_frames(buffer.shared.ring, sup.out + converted_samples(produced));
    let after = buffer.with_shared(worker.answered(produced, next).advanced().0.shared);
    if 0 <= i < after.between(start_ms, end_ms).len() {
        law_clip_decodes_to_the_audio(after, start_ms, end_ms, i);
    }
}

/// Law: offsets are contiguous and run from the oldest audio held. Two clips that meet join to the
/// clip across both, and the clip from zero past the end is everything held.
pub proof fn law_offsets_run_from_the_oldest(
    buffer: BufferView,
    start_ms: nat,
    middle_ms: nat,
    end_ms: nat,
)
    requires
        start_ms <= middle_ms <= end_ms,
    ensures
        buffer.between(start_ms, middle_ms) + buffer.between(middle_ms, end_ms) == buffer.between(
            start_ms,
            end_ms,
        ),
        buffer.shared.ring.frames(end_ms) >= buffer.window().len() ==> buffer.between(0, end_ms)
            == buffer.window(),
{
    let ring = buffer.shared.ring;
    assert(start_ms * ring.rate <= middle_ms * ring.rate <= end_ms * ring.rate)
        by (nonlinear_arith)
        requires
            start_ms <= middle_ms <= end_ms,
    ;
    law_adjacent_reads_join(
        ring,
        ring.frames(start_ms),
        ring.frames(middle_ms),
        ring.frames(end_ms),
    );
    if ring.frames(end_ms) >= buffer.window().len() {
        assert(buffer.between(0, end_ms) =~= buffer.window());
    }
}

/// Law: the filled length addresses the end of the buffer. The clip of the last `ms` milliseconds
/// ends less than one millisecond and one frame before the newest audio, and lasts `ms`
/// milliseconds to within one frame.
pub proof fn law_last_milliseconds(buffer: BufferView, ms: nat)
    requires
        buffer.valid(),
        ms <= buffer.shared.ring.millis(buffer.window().len()),
    ensures
        ({
            let ring = buffer.shared.ring;
            let filled = ring.millis(buffer.window().len());
            let clip = buffer.between((filled - ms) as nat, filled);
            &&& ring.frames(ms) <= clip.len() <= ring.frames(ms) + 1
            &&& ring.frames(filled) <= buffer.window().len()
            &&& 1000 * (buffer.window().len() - ring.frames(filled) - 1) < ring.rate
            &&& clip == buffer.window().subrange(
                ring.frames(filled) - clip.len(),
                ring.frames(filled) as int,
            )
        }),
{
    let ring = buffer.shared.ring;
    let filled = ring.millis(buffer.window().len());
    law_filled_ms_addresses_the_end(ring, buffer.window().len());
    let from = (filled - ms) as nat;
    assert(from * ring.rate + ms * ring.rate == filled * ring.rate) by (nonlinear_arith)
        requires
            from + ms == filled,
    ;
    assert(from * ring.rate >= 0 && ms * ring.rate >= 0) by (nonlinear_arith);
    let clip = buffer.between(from, filled);
    assert(clip =~= buffer.window().subrange(
        ring.frames(filled) - clip.len(),
        ring.frames(filled) as int,
    ));
}

/// Law: lowering the retention hides older audio and raising it back reveals what is still held,
/// up to the ceiling set at construction.
pub proof fn law_retention_is_adjustable(buffer: BufferView, low: u32, high: u32)
    requires
        buffer.valid(),
        0 < low <= high,
    ensures
        ({
            let ring = buffer.shared.ring;
            let rate = buffer.target_rate;
            let lowered = ring.with_retention((low * rate) as nat);
            let raised = lowered.with_retention((high * rate) as nat);
            &&& raised == ring.with_retention((high * rate) as nat)
            &&& lowered.window() == tail(raised.window(), lowered.retention)
            &&& high * rate >= ring.capacity ==> raised.window() == ring.history
        }),
{
    let rate = buffer.target_rate;
    assert(0 <= low * rate <= high * rate) by (nonlinear_arith)
        requires
            0 < low <= high,
            0 <= rate,
    ;
    law_retention_hides_and_reveals(
        buffer.shared.ring,
        (low * rate) as nat,
        (high * rate) as nat,
    );
}

/// Law: options are taken as given, and each absent one has its default: 900 seconds of retention,
/// 16000 frames a second, a ceiling of 3600 seconds. The ring holds the ceiling, or the retention
/// where that is longer, so that the retention can be raised that far.
pub proof fn law_options_have_their_defaults(options: Option<BufferOptions>)
    ensures
        ({
            let retention = match options {
                Some(given) => match given.retention_seconds {
                    Some(seconds) => seconds,
                    None => 900u32,
                },
                None => 900u32,
            };
            let rate = match options {
                Some(given) => match given.target_sample_rate {
                    Some(rate) => rate,
                    None => 16000u32,
                },
                None => 16000u32,
            };
            let ceiling = match options {
                Some(given) => match given.ceiling_seconds {
                    Some(seconds) => seconds,
                    None => 3600u32,
                },
                None => 3600u32,
            };
            let longest = if ceiling > retention {
                ceiling
            } else {
                retention
            };
            let ring = BufferView::fresh(options).shared.ring;
            &&& chosen_rate(options) == rate
            &&& chosen_retention(options) == retention
            &&& chosen_ceiling(options) == longest
            &&& rate > 0 && retention > 0 ==> {
                &&& ring.rate == rate
                &&& ring.capacity == longest * rate
                &&& ring.retention == retention * rate
                &&& ring.history.len() == 0
            }
        }),
{
    if chosen_rate(options) > 0 && chosen_retention(options) > 0 {
        law_options_are_honoured(options);
    }
}

/// Law: the retention can be raised to the ceiling and no further. After a change it lasts the
/// seconds asked for where the ceiling holds them, and nothing of the ring is lost.
pub proof fn law_retention_lasts_what_was_asked_for(buffer: BufferView, seconds: u32)
    requires
        buffer.valid(),
        seconds > 0,
    ensures
        ({
            let ring = buffer.shared.ring;
            let after = ring.with_retention((seconds * buffer.target_rate) as nat);
            &&& seconds * buffer.target_rate <= ring.capacity ==> {
                &&& after.retention == seconds * buffer.target_rate
                &&& after.millis(after.retention) == 1000 * seconds
            }
            &&& seconds * buffer.target_rate > ring.capacity ==> after.retention == ring.capacity
            &&& after == (RingView { retention: after.retention, ..ring })
        }),
{
    let (n, rate) = (seconds as int, buffer.target_rate as int);
    assert(n * rate >= 1) by (nonlinear_arith)
        requires
            n >= 1,
            rate >= 1,
    ;
    assert((n * rate) * 1000 == (1000 * n) * rate) by (nonlinear_arith);
    vstd::arithmetic::div_mod::lemma_div_multiples_vanish(1000 * n, rate);
    vstd::arithmetic::mul::lemma_mul_is_commutative(1000 * n, rate);
}

/// Law: a buffer is refused for want of memory only where its samples, two bytes each, exceed what
/// an allocation can hold.
pub proof fn law_memory_is_the_only_limit(frames: int)
    ensures
        allocatable(frames) <==> 2 * frames <= isize::MAX,
{
}

/// Law: a new buffer is blank: idle, at the rate chosen, with no device, error, silence or restart.
pub proof fn law_new_buffer_is_blank(options: Option<BufferOptions>)
    ensures
        ({
            let buffer = BufferView::fresh(options);
            &&& buffer.state == BufferState::Idle
            &&& buffer.target_rate == chosen_rate(options)
            &&& buffer.shared == (SharedView {
                ring: buffer.shared.ring,
                silence_frames: 0,
                error: None,
                faulted: false,
                restarts: 0,
                native_rate: 0,
                channels: 0,
                device_name: Seq::empty(),
            })
        }),
{
}

/// Law: what each call does in each state. It says whether a capture is to be opened, kept or
/// closed, or why the call is refused, and changes the state and the contents exactly as far.
pub proof fn law_calls_by_state(buffer: BufferView)
    ensures
        ({
            let empty = SharedView {
                ring: RingView { history: Seq::empty(), ..buffer.shared.ring },
                silence_frames: 0,
                ..buffer.shared
            };
            &&& buffer.start().0 == buffer
            &&& buffer.stop() == (BufferView {
                shared: empty,
                state: BufferState::Idle,
                ..buffer
            })
            &&& match buffer.state {
                BufferState::Idle => {
                    &&& buffer.start().1 == Ok::<CaptureStep, Error>(CaptureStep::Open)
                    &&& buffer.freeze() == (buffer, Err::<CaptureStep, Error>(Error::NotRunning))
                    &&& buffer.resume() == (buffer, Err::<CaptureStep, Error>(Error::NotFrozen))
                },
                BufferState::Running => {
                    &&& buffer.start().1 == Ok::<CaptureStep, Error>(CaptureStep::Keep)
                    &&& buffer.freeze() == (
                        BufferView { state: BufferState::Frozen, ..buffer },
                        Ok::<CaptureStep, Error>(CaptureStep::Close),
                    )
                    &&& buffer.resume() == (buffer, Ok::<CaptureStep, Error>(CaptureStep::Keep))
                },
                BufferState::Frozen => {
                    &&& buffer.start().1 == Err::<CaptureStep, Error>(Error::Frozen)
                    &&& buffer.freeze() == (buffer, Ok::<CaptureStep, Error>(CaptureStep::Keep))
                    &&& buffer.resume() == (
                        BufferView { shared: empty, ..buffer },
                        Ok::<CaptureStep, Error>(CaptureStep::Open),
                    )
                },
            }
        }),
{
}

/// Law: the state alone changes when a capture was opened, and the contents alone when a worker
/// moved on.
pub proof fn law_parts_change_alone(
    buffer: BufferView,
    state: BufferState,
    shared: SharedView,
    sup: SupervisorView,
)
    ensures
        buffer.in_state(state) == (BufferView { state, ..buffer }),
        buffer.with_shared(shared) == (BufferView { shared, ..buffer }),
        buffer.worker(sup) == (Worker { sup, shared: buffer.shared }),
        buffer.window() == buffer.shared.ring.window(),
{
}

/// Law: a clip is cut where it was asked for. It begins at the start offset's frame and ends at the
/// end offset's, both cut to what is held, and each of its frames stands in the file as two bytes,
/// the lower one first.
pub proof fn law_clip_is_cut_where_asked(buffer: BufferView, start_ms: nat, end_ms: nat, i: int)
    requires
        buffer.valid(),
    ensures
        ({
            let held = buffer.window();
            let n = held.len() as int;
            let (first, last) = (
                (start_ms * buffer.target_rate) / 1000int,
                (end_ms * buffer.target_rate) / 1000int,
            );
            let from = if first < n {
                first
            } else {
                n
            };
            let to = if last < n {
                last
            } else {
                n
            };
            let audio = buffer.between(start_ms, end_ms);
            let file = wav::header(audio.len(), buffer.target_rate as nat) + wav::payload(audio);
            &&& audio.len() == if from < to {
                to - from
            } else {
                0
            }
            &&& 0 <= i < to - from ==> {
                &&& audio[i] == held[from + i]
                &&& file[44 + 2 * i] + 256 * file[45 + 2 * i] == if held[from + i] < 0 {
                    held[from + i] + 65536
                } else {
                    held[from + i] as int
                }
            }
        }),
{
    let audio = buffer.between(start_ms, end_ms);
    let ring = buffer.shared.ring;
    law_reads_are_exact(buffer.window(), ring.frames(start_ms), ring.frames(end_ms), i);
    if 0 <= i < audio.len() {
        wav::law_samples_are_little_endian(audio, buffer.target_rate as nat, i);
    }
}

/// Law: facts about the device are shown while there is one: capturing or frozen, and known.
pub proof fn law_facts_are_shown_while_known(state: BufferState, value: u32)
    ensures
        known(state, value) == Some(value) <==> state != BufferState::Idle && value != 0,
        known(state, value) is None <==> state == BufferState::Idle || value == 0,
{
}

/// Law: users see the permission as it is.
pub proof fn law_permission_is_shown_as_it_is(status: permission::Status)
    ensures
        public_status(status) == PermissionStatus::Granted <==> status
            == permission::Status::Granted,
        public_status(status) == PermissionStatus::Denied <==> status == permission::Status::Denied,
        public_status(status) == PermissionStatus::Unknown <==> status
            == permission::Status::Unknown,
        public_status(status) == PermissionStatus::NotRequired <==> status
            == permission::Status::NotRequired,
{
}

} // verus!
