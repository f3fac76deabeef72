//! The capture worker's decisions.
//!
//! The worker sleeps, drains what the callback staged, fills gaps with silence, lets the engine
//! convert whole chunks and writes the ring. It also supervises: on a stream fault or a
//! default-device change it reopens the stream, keeping the ring intact.
//!
//! Nothing here touches a device, a clock or an engine. Each call takes what one of them
//! answered and returns the next action to perform.
use vstd::prelude::*;
use vstd::string::*;
use crate::capture::{Shared, SharedView};
use crate::device::{default_device_changed, device_differs, OpenDevice};
use crate::epoch::{
    law_filling_tracks_the_clock, law_interval_between_devices_is_owed, Epoch, EpochView,
    GAP_TOLERANCE_NS, NANOS,
};
use crate::error::Error;
use crate::resample::{
    converted, converted_samples, law_samples_are_quantised_one_by_one, law_silence_stays_silent,
    quantised, quantised_all, Resampler, ResamplerView,
};
use crate::text::{decimal, decimal_string, text_of};

verus! {

/// Worker wake interval. Short enough that a gap is detected promptly, long enough that the
/// thread is effectively idle.
pub const TICK_MS: u64 = 20;

/// How often to poll the host for a default-device change.
pub const DEVICE_CHECK_NS: u64 = 500_000_000;

/// Backoff after a failed rebuild.
pub const REBUILD_BACKOFF_MS: u64 = 750;

/// What the supervisor asks for. Each action is answered by one call.
pub enum Action {
    /// Sleep this many milliseconds, then report with `woke`.
    Sleep(u64),
    /// Convert a chunk, then report with `converted`.
    Convert(Vec<u32>),
    /// Look up the default output device, then report with `polled`.
    PollDevice,
    /// Close the stream, open one on the default output device, then report with `opened`.
    Reopen,
    /// Sleep this many milliseconds, then report with `backed_off`.
    BackOff(u64),
    /// Build an engine for the two rates, then report with `built`.
    BuildEngine { from: u32, to: u32 },
    /// End the worker.
    Exit,
}

/// An action, as mathematics.
pub enum ActionView {
    Sleep(u64),
    Convert(Seq<u32>),
    PollDevice,
    Reopen,
    BackOff(u64),
    BuildEngine { from: u32, to: u32 },
    Exit,
}

impl View for Action {
    type V = ActionView;

    open spec fn view(&self) -> ActionView {
        match *self {
            Action::Sleep(ms) => ActionView::Sleep(ms),
            Action::Convert(chunk) => ActionView::Convert(chunk@),
            Action::PollDevice => ActionView::PollDevice,
            Action::Reopen => ActionView::Reopen,
            Action::BackOff(ms) => ActionView::BackOff(ms),
            Action::BuildEngine { from, to } => ActionView::BuildEngine { from, to },
            Action::Exit => ActionView::Exit,
        }
    }
}

/// What the supervisor waits for.
pub enum Phase {
    /// The first engine.
    Starting,
    /// The end of a tick's sleep.
    Sleeping,
    /// The engine's answer to a chunk.
    Converting,
    /// The default output device. A fault was already noted or not.
    Polling { faulted: bool },
    /// A reopened stream, for the first time or once more.
    Opening { retry: bool },
    /// The end of the pause before the retry.
    BackingOff,
    /// An engine for a replacement device.
    Building { device: OpenDevice },
    /// Nothing.
    Done,
}

/// The message for chunks that the engine refused.
pub open spec fn drop_report(dropped: nat) -> Seq<char> {
    "resampler rejected "@ + decimal(dropped) + " chunk(s); some audio is missing"@
}

/// `n` frames of silence, as bit patterns.
pub open spec fn silence(n: nat) -> Seq<u32> {
    Seq::new(n, |i: int| 0u32)
}

/// What a supervisor holds, as mathematics.
#[verifier::ext_equal]
pub struct SupervisorView {
    pub resampler: ResamplerView,
    pub epoch: EpochView,
    pub target_rate: u32,
    pub device_id: Option<Seq<char>>,
    /// Target-rate samples that have not reached the ring yet.
    pub out: Seq<i16>,
    /// When the current tick began.
    pub now: u64,
    /// When the default device was looked up last.
    pub checked: u64,
    /// Refused chunks of the current resampler that were reported.
    pub reported: u64,
    pub phase: Phase,
}

impl SupervisorView {
    /// A supervisor of a capture that begins now on an opened device.
    pub open spec fn starting(device: OpenDevice, target_rate: u32, now: u64) -> Self {
        SupervisorView {
            resampler: ResamplerView::fresh(device.native_rate, target_rate),
            epoch: EpochView::fresh(device.native_rate as nat, now as nat),
            target_rate,
            device_id: text_of(device.id),
            out: Seq::empty(),
            now,
            checked: now,
            reported: 0,
            phase: if device.native_rate == target_rate {
                Phase::Sleeping
            } else {
                Phase::Starting
            },
        }
    }

    pub open spec fn valid(self) -> bool {
        &&& self.epoch.valid()
        &&& self.resampler.in_rate == self.epoch.rate
        &&& self.resampler.out_rate == self.target_rate
        &&& self.target_rate > 0
        &&& self.resampler.pending.len() <= self.epoch.accounted
        &&& self.reported <= self.resampler.dropped <= u64::MAX
        &&& self.phase matches Phase::Building { device } ==> {
            &&& device.native_rate > 0
            &&& device.native_rate != self.target_rate
            &&& device.native_rate != self.epoch.rate
        }
    }

    /// The default device was looked up: reopen on a change, or on the fault noted before.
    pub open spec fn polled(self, default: Option<Seq<char>>) -> (Self, ActionView) {
        if self.phase->faulted || device_differs(self.device_id, default) {
            self.reopening(false)
        } else {
            self.sleeping()
        }
    }

    pub open spec fn sleeping(self) -> (Self, ActionView) {
        (SupervisorView { phase: Phase::Sleeping, ..self }, ActionView::Sleep(TICK_MS))
    }

    pub open spec fn reopening(self, retry: bool) -> (Self, ActionView) {
        (SupervisorView { phase: Phase::Opening { retry }, ..self }, ActionView::Reopen)
    }

    pub open spec fn exited(self) -> (Self, ActionView) {
        (SupervisorView { phase: Phase::Done, ..self }, ActionView::Exit)
    }
}

/// A supervisor together with the state it works on.
#[verifier::ext_equal]
pub struct Worker {
    pub sup: SupervisorView,
    pub shared: SharedView,
}

impl Worker {
    pub open spec fn of(sup: Supervisor, shared: Shared) -> Self {
        Worker { sup: sup@, shared: shared@ }
    }

    /// After what the callback staged was taken in and the gap, if there is one, was filled.
    pub open spec fn ticked(self, staged: Seq<u32>, now: u64) -> Self {
        let arrived = self.sup.epoch.received(staged.len());
        let owed = arrived.shortfall(now as nat);
        let epoch = arrived.filled(owed);
        let resampler = self.sup.resampler.pushed(staged);
        Worker {
            sup: SupervisorView {
                epoch,
                resampler: resampler.pushed(silence(owed)),
                out: self.sup.out + self.sup.resampler.immediate(staged) + resampler.immediate(
                    silence(owed),
                ),
                now,
                ..self.sup
            },
            shared: self.shared.with_silence(
                epoch.silence_at(self.sup.target_rate as nat) - arrived.silence_at(
                    self.sup.target_rate as nat,
                ),
            ),
        }
    }

    /// After the engine answered.
    pub open spec fn answered(self, produced: Option<Vec<Vec<u32>>>, next: nat) -> Self {
        Worker {
            sup: SupervisorView {
                resampler: self.sup.resampler.chunk_finished(produced, next),
                out: self.sup.out + converted_samples(produced),
                ..self.sup
            },
            ..self
        }
    }

    /// Goes on with the next chunk, or, when none is ready, writes the ring and supervises.
    pub open spec fn advanced(self) -> (Self, ActionView) {
        if self.sup.resampler.chunk_ready() {
            (
                Worker {
                    sup: SupervisorView {
                        resampler: self.sup.resampler.chunk_taken(),
                        phase: Phase::Converting,
                        ..self.sup
                    },
                    ..self
                },
                ActionView::Convert(self.sup.resampler.chunk()),
            )
        } else {
            self.settled().supervised()
        }
    }

    /// The samples reach the ring, and newly refused chunks are reported.
    pub open spec fn settled(self) -> Self {
        let dropped = self.sup.resampler.dropped;
        let shared = self.shared.with_samples(self.sup.out);
        let sup = SupervisorView { out: Seq::empty(), ..self.sup };
        if dropped > self.sup.reported {
            Worker {
                sup: SupervisorView { reported: dropped as u64, ..sup },
                shared: shared.with_error(drop_report(dropped)),
            }
        } else {
            Worker { sup, shared }
        }
    }

    /// Consumes a fault, and looks up the default device when that is due.
    pub open spec fn supervised(self) -> (Self, ActionView) {
        let faulted = self.shared.faulted;
        let (sup, action) = if self.sup.now >= self.sup.checked + DEVICE_CHECK_NS {
            (
                SupervisorView {
                    checked: self.sup.now,
                    phase: Phase::Polling { faulted },
                    ..self.sup
                },
                ActionView::PollDevice,
            )
        } else if faulted {
            self.sup.reopening(false)
        } else {
            self.sup.sleeping()
        };
        (Worker { sup, shared: self.shared.fault_taken() }, action)
    }

    /// A stream was reopened, or not. One failure is followed by a pause and a retry, a second
    /// one ends the worker. A different rate needs a different resampler.
    pub open spec fn opened(self, outcome: Result<OpenDevice, Error>) -> (Self, ActionView) {
        match outcome {
            Ok(device) => {
                let found = Worker { shared: self.shared.with_device(device), ..self };
                if device.native_rate == self.sup.epoch.rate {
                    found.resumed(device, self.sup.resampler)
                } else if device.native_rate == 0 {
                    found.ended(Error::ZeroSampleRate.message())
                } else if device.native_rate == self.sup.target_rate {
                    found.resumed(
                        device,
                        ResamplerView::fresh(device.native_rate, self.sup.target_rate),
                    )
                } else {
                    (
                        Worker {
                            sup: SupervisorView { phase: Phase::Building { device }, ..found.sup },
                            ..found
                        },
                        ActionView::BuildEngine {
                            from: device.native_rate,
                            to: self.sup.target_rate,
                        },
                    )
                }
            },
            Err(error) => if self.sup.phase->retry {
                self.ended(error.message())
            } else {
                (
                    Worker {
                        sup: SupervisorView { phase: Phase::BackingOff, ..self.sup },
                        shared: self.shared.with_error(error.message()),
                    },
                    ActionView::BackOff(REBUILD_BACKOFF_MS),
                )
            },
        }
    }

    /// An engine for the replacement device was built, or not. An unusable device ends the worker
    /// rather than filling the ring with silence indefinitely.
    pub open spec fn built(self, outcome: Result<usize, Vec<String>>) -> (Self, ActionView) {
        let device = self.sup.phase->device;
        match outcome {
            Ok(chunk_in) => self.resumed(
                device,
                ResamplerView {
                    chunk_in: chunk_in as nat,
                    ..ResamplerView::fresh(device.native_rate, self.sup.target_rate)
                },
            ),
            Err(source) => self.ended(
                (Error::Resampler {
                    from: device.native_rate,
                    to: self.sup.target_rate,
                    source,
                }).message(),
            ),
        }
    }

    /// Capture goes on with a replacement device: the restart is counted and the error that led
    /// here is cleared. At the same rate the accounting simply continues. At another rate it
    /// continues where it ended, without the input that the old resampler still held, and the
    /// refused chunks of the new resampler are reported from the first one on.
    pub open spec fn resumed(self, device: OpenDevice, resampler: ResamplerView) -> (
        Self,
        ActionView,
    ) {
        let same = device.native_rate == self.sup.epoch.rate;
        let (sup, action) = SupervisorView {
            resampler,
            epoch: if same {
                self.sup.epoch
            } else {
                self.sup.epoch.succeeded_by(
                    device.native_rate as nat,
                    self.sup.resampler.pending.len(),
                )
            },
            device_id: text_of(device.id),
            reported: if same {
                self.sup.reported
            } else {
                0
            },
            ..self.sup
        }.sleeping();
        (Worker { sup, shared: self.shared.restarted().error_cleared() }, action)
    }

    /// The worker ends and leaves a message.
    pub open spec fn ended(self, message: Seq<char>) -> (Self, ActionView) {
        let (sup, action) = self.sup.exited();
        (Worker { sup, shared: self.shared.with_error(message) }, action)
    }
}

/// Decides what the capture worker does next.
pub struct Supervisor {
    resampler: Resampler,
    epoch: Epoch,
    target_rate: u32,
    device_id: Option<String>,
    out: Vec<i16>,
    now: u64,
    checked: u64,
    reported: u64,
    phase: Phase,
}

impl View for Supervisor {
    type V = SupervisorView;

    closed spec fn view(&self) -> SupervisorView {
        SupervisorView {
            resampler: self.resampler@,
            epoch: self.epoch@,
            target_rate: self.target_rate,
            device_id: text_of(self.device_id),
            out: self.out@,
            now: self.now,
            checked: self.checked,
            reported: self.reported,
            phase: self.phase,
        }
    }
}

impl Supervisor {
    pub closed spec fn wf(self) -> bool {
        &&& self@.valid()
        &&& self.resampler.wf()
    }

    /// Every well-formed supervisor keeps the limits of its view.
    pub proof fn lemma_wf_valid(self)
        requires
            self.wf(),
        ensures
            self@.valid(),
    {
    }

    /// Takes charge of a capture on a device that was just opened. Its facts become visible even
    /// when a rate of zero makes it unusable. A supervisor whose rates differ needs its engine
    /// attached before it runs.
    pub fn new(shared: &mut Shared, device: OpenDevice, now: u64) -> (result: Result<Self, Error>)
        requires
            old(shared).wf(),
        ensures
            final(shared).wf(),
            final(shared)@ == old(shared)@.with_device(device),
            result is Err <==> device.native_rate == 0 || old(shared)@.ring.rate == 0,
            result matches Err(e) ==> e == Error::ZeroSampleRate,
            result matches Ok(supervisor) ==> {
                &&& supervisor.wf()
                &&& supervisor@ == SupervisorView::starting(
                    device,
                    old(shared)@.ring.rate as u32,
                    now,
                )
            },
    {
        shared.device_opened(&device);
        let target_rate: u32 = shared.ring.rate();
        match Resampler::new(device.native_rate, target_rate) {
            Err(e) => Err(e),
            Ok(resampler) => {
                let phase = if resampler.needs_engine() {
                    Phase::Starting
                } else {
                    Phase::Sleeping
                };
                let supervisor = Supervisor {
                    resampler,
                    epoch: Epoch::new(device.native_rate, now),
                    target_rate,
                    device_id: device.id,
                    out: Vec::new(),
                    now,
                    checked: now,
                    reported: 0,
                    phase,
                };
                Ok(supervisor)
            },
        }
    }

    /// Whether the capture cannot run before its first engine is attached.
    pub fn needs_engine(&self) -> (needed: bool)
        ensures
            needed == !self@.resampler.passes_through(),
    {
        self.resampler.needs_engine()
    }

    /// The rates that the engine converts between.
    pub fn engine_rates(&self) -> (rates: (u32, u32))
        requires
            self.wf(),
        ensures
            rates.0 == self@.resampler.in_rate,
            rates.1 == self@.resampler.out_rate,
    {
        (self.epoch.rate(), self.target_rate)
    }

    /// Takes the outcome of building the first engine. A capture whose engine cannot be built does
    /// not start.
    pub fn attach_engine(&mut self, outcome: Result<usize, Vec<String>>) -> (result: Result<(), Error>)
        requires
            old(self).wf(),
            old(self)@.phase is Starting,
            outcome matches Ok(chunk_in) ==> chunk_in > 0,
        ensures
            final(self).wf(),
            result is Ok <==> outcome is Ok,
            outcome matches Ok(chunk_in) ==> final(self)@ == (SupervisorView {
                resampler: ResamplerView { chunk_in: chunk_in as nat, ..old(self)@.resampler },
                phase: Phase::Sleeping,
                ..old(self)@
            }),
            outcome matches Err(source) ==> {
                &&& final(self)@ == old(self)@.exited().0
                &&& result == Err::<(), Error>(
                    Error::Resampler {
                        from: old(self)@.resampler.in_rate,
                        to: old(self)@.resampler.out_rate,
                        source,
                    },
                )
            },
    {
        match self.resampler.attach(outcome) {
            Ok(()) => {
                self.phase = Phase::Sleeping;
                Ok(())
            },
            Err(e) => {
                self.phase = Phase::Done;
                Err(e)
            },
        }
    }

    /// Whether the frame and chunk counts have room for a tick with this many staged frames.
    pub fn counts_fit(&self, staged: usize) -> (fit: bool)
        requires
            self.wf(),
        ensures
            fit == (self@.epoch.accounted + staged + self@.epoch.rate <= u64::MAX
                && self@.resampler.dropped < u64::MAX),
    {
        self.epoch.has_room(staged) && self.resampler.dropped_chunks() < u64::MAX
    }

    /// The callback panicked while it held the staged samples: stops buffering.
    pub fn staging_poisoned(&mut self, shared: &mut Shared) -> (action: Action)
        requires
            old(self).wf(),
            old(shared).wf(),
            old(self)@.phase is Sleeping,
        ensures
            final(self).wf(),
            final(shared).wf(),
            (Worker::of(*final(self), *final(shared)), action@) == Worker::of(
                *old(self),
                *old(shared),
            ).ended("capture thread panicked"@),
    {
        let ghost before = Worker::of(*self, *shared);
        shared.record_error("capture thread panicked".to_owned());
        self.phase = Phase::Done;
        assert(Worker::of(*self, *shared) =~= before.ended("capture thread panicked"@).0);
        Action::Exit
    }

    /// A thread panicked while it held the buffer: stops.
    pub fn buffer_poisoned(&mut self, shared: &mut Shared) -> (action: Action)
        requires
            old(self).wf(),
            old(shared).wf(),
        ensures
            final(self).wf(),
            final(shared).wf(),
            (Worker::of(*final(self), *final(shared)), action@) == Worker::of(
                *old(self),
                *old(shared),
            ).ended("audio buffer was poisoned"@),
    {
        let ghost before = Worker::of(*self, *shared);
        shared.record_error("audio buffer was poisoned".to_owned());
        self.phase = Phase::Done;
        assert(Worker::of(*self, *shared) =~= before.ended("audio buffer was poisoned"@).0);
        Action::Exit
    }

    /// The tick's sleep is over: takes in what the callback staged and fills the shortfall
    /// against the clock.
    pub fn woke(&mut self, shared: &mut Shared, staged: &[u32], now: u64) -> (action: Action)
        requires
            old(self).wf(),
            old(shared).wf(),
            old(self)@.phase is Sleeping,
            old(self)@.epoch.accounted + staged@.len() + old(self)@.epoch.rate <= u64::MAX,
        ensures
            final(self).wf(),
            final(shared).wf(),
            (Worker::of(*final(self), *final(shared)), action@) == Worker::of(
                *old(self),
                *old(shared),
            ).ticked(staged@, now).advanced(),
    {
        let ghost before = Worker::of(*self, *shared);
        self.now = now;
        self.epoch.receive(staged.len());
        let mut ready = self.resampler.push(staged);
        self.out.append(&mut ready);

        let owed: u32 = self.epoch.shortfall(now);
        let added: u64 = self.epoch.fill(owed, self.target_rate);
        shared.add_silence(added);
        let filler: Vec<u32> = vec![0; owed as usize];
        assert(filler@ =~= silence(owed as nat));
        let mut quiet = self.resampler.push(filler.as_slice());
        self.out.append(&mut quiet);

        assert(Worker::of(*self, *shared) =~= before.ticked(staged@, now));
        self.advance(shared)
    }

    /// The engine answered a chunk with its channels, or refused it, and wants `next` frames for
    /// the next one.
    pub fn converted(
        &mut self,
        shared: &mut Shared,
        produced: Option<Vec<Vec<u32>>>,
        next: usize,
    ) -> (action: Action)
        requires
            old(self).wf(),
            old(shared).wf(),
            old(self)@.phase is Converting,
            old(self)@.resampler.dropped < u64::MAX,
            next > 0,
        ensures
            final(self).wf(),
            final(shared).wf(),
            (Worker::of(*final(self), *final(shared)), action@) == Worker::of(
                *old(self),
                *old(shared),
            ).answered(produced, next as nat).advanced(),
    {
        let ghost before = Worker::of(*self, *shared);
        let mut ready = self.resampler.finish_chunk(produced, next);
        self.out.append(&mut ready);
        assert(Worker::of(*self, *shared) =~= before.answered(produced, next as nat));
        self.advance(shared)
    }

    /// Hands out the next chunk, or finishes the tick.
    fn advance(&mut self, shared: &mut Shared) -> (action: Action)
        requires
            old(self).wf(),
            old(shared).wf(),
            !(old(self)@.phase is Building),
        ensures
            final(self).wf(),
            final(shared).wf(),
            (Worker::of(*final(self), *final(shared)), action@) == Worker::of(
                *old(self),
                *old(shared),
            ).advanced(),
    {
        let ghost before = Worker::of(*self, *shared);
        match self.resampler.next_chunk() {
            Some(chunk) => {
                self.phase = Phase::Converting;
                assert(Worker::of(*self, *shared) =~= before.advanced().0);
                Action::Convert(chunk)
            },
            None => {
                assert(Worker::of(*self, *shared) =~= before);
                self.settle(shared);
                self.supervise(shared)
            },
        }
    }

    fn settle(&mut self, shared: &mut Shared)
        requires
            old(self).wf(),
            old(shared).wf(),
        ensures
            final(self).wf(),
            final(shared).wf(),
            Worker::of(*final(self), *final(shared)) == Worker::of(
                *old(self),
                *old(shared),
            ).settled(),
    {
        let ghost before = Worker::of(*self, *shared);
        shared.store(self.out.as_slice());
        self.out.clear();

        // Refused chunks make the output shorter than elapsed time, which looks like a capture
        // fault. Report it.
        let dropped: u64 = self.resampler.dropped_chunks();
        if dropped > self.reported {
            self.reported = dropped;
            let mut message = "resampler rejected ".to_owned();
            message.append(decimal_string(dropped).as_str());
            message.append(" chunk(s); some audio is missing");
            shared.record_error(message);
        }
        assert(Worker::of(*self, *shared) =~= before.settled());
    }

    fn supervise(&mut self, shared: &mut Shared) -> (action: Action)
        requires
            old(self).wf(),
            old(shared).wf(),
        ensures
            final(self).wf(),
            final(shared).wf(),
            (Worker::of(*final(self), *final(shared)), action@) == Worker::of(
                *old(self),
                *old(shared),
            ).supervised(),
    {
        let ghost before = Worker::of(*self, *shared);
        let faulted: bool = shared.take_fault();
        let action = if self.now >= self.checked && self.now - self.checked >= DEVICE_CHECK_NS {
            self.checked = self.now;
            self.phase = Phase::Polling { faulted };
            Action::PollDevice
        } else if faulted {
            self.phase = Phase::Opening { retry: false };
            Action::Reopen
        } else {
            self.phase = Phase::Sleeping;
            Action::Sleep(TICK_MS)
        };
        assert(Worker::of(*self, *shared) =~= before.supervised().0);
        action
    }

    /// The default output device was looked up. Its identity is absent when there is none, or it
    /// cannot be identified.
    pub fn polled(&mut self, default: &Option<String>) -> (action: Action)
        requires
            old(self).wf(),
            old(self)@.phase is Polling,
        ensures
            final(self).wf(),
            (final(self)@, action@) == old(self)@.polled(text_of(*default)),
    {
        let faulted: bool = match self.phase {
            Phase::Polling { faulted } => faulted,
            _ => false,
        };
        if faulted || default_device_changed(&self.device_id, default) {
            self.phase = Phase::Opening { retry: false };
            Action::Reopen
        } else {
            self.phase = Phase::Sleeping;
            Action::Sleep(TICK_MS)
        }
    }

    /// The pause before the retry is over.
    pub fn backed_off(&mut self) -> (action: Action)
        requires
            old(self).wf(),
            old(self)@.phase is BackingOff,
        ensures
            final(self).wf(),
            (final(self)@, action@) == old(self)@.reopening(true),
    {
        self.phase = Phase::Opening { retry: true };
        Action::Reopen
    }

    /// The stream was reopened on the default output device, or could not be.
    pub fn opened(&mut self, shared: &mut Shared, outcome: Result<OpenDevice, Error>) -> (action:
        Action)
        requires
            old(self).wf(),
            old(shared).wf(),
            old(self)@.phase is Opening,
        ensures
            final(self).wf(),
            final(shared).wf(),
            (Worker::of(*final(self), *final(shared)), action@) == Worker::of(
                *old(self),
                *old(shared),
            ).opened(outcome),
    {
        let ghost before = Worker::of(*self, *shared);
        match outcome {
            Ok(device) => {
                shared.device_opened(&device);
                if device.native_rate == self.epoch.rate() {
                    return self.resume_on(shared, device, None);
                }
                match Resampler::new(device.native_rate, self.target_rate) {
                    Err(e) => {
                        shared.record_error(e.to_string());
                        self.phase = Phase::Done;
                        assert(Worker::of(*self, *shared) =~= before.opened(outcome).0);
                        Action::Exit
                    },
                    Ok(fresh) => {
                        if fresh.needs_engine() {
                            let from: u32 = device.native_rate;
                            self.phase = Phase::Building { device };
                            assert(Worker::of(*self, *shared) =~= before.opened(outcome).0);
                            Action::BuildEngine { from, to: self.target_rate }
                        } else {
                            self.resume_on(shared, device, Some(fresh))
                        }
                    },
                }
            },
            Err(e) => {
                let retry: bool = match self.phase {
                    Phase::Opening { retry } => retry,
                    _ => false,
                };
                shared.record_error(e.to_string());
                if retry {
                    self.phase = Phase::Done;
                    assert(Worker::of(*self, *shared) =~= before.opened(outcome).0);
                    Action::Exit
                } else {
                    self.phase = Phase::BackingOff;
                    assert(Worker::of(*self, *shared) =~= before.opened(outcome).0);
                    Action::BackOff(REBUILD_BACKOFF_MS)
                }
            },
        }
    }

    /// An engine for the replacement device was built and wants the given number of frames first,
    /// or the ratio was rejected.
    pub fn built(&mut self, shared: &mut Shared, outcome: Result<usize, Vec<String>>) -> (action:
        Action)
        requires
            old(self).wf(),
            old(shared).wf(),
            old(self)@.phase is Building,
            outcome matches Ok(chunk_in) ==> chunk_in > 0,
        ensures
            final(self).wf(),
            final(shared).wf(),
            (Worker::of(*final(self), *final(shared)), action@) == Worker::of(
                *old(self),
                *old(shared),
            ).built(outcome),
    {
        let ghost before = Worker::of(*self, *shared);
        let mut phase = Phase::Done;
        std::mem::swap(&mut phase, &mut self.phase);
        if let Phase::Building { device } = phase {
            if let Ok(mut fresh) = Resampler::new(device.native_rate, self.target_rate) {
                return match fresh.attach(outcome) {
                    Ok(()) => {
                        self.resume_on(shared, device, Some(fresh))
                    },
                    Err(e) => {
                        shared.record_error(e.to_string());
                        assert(Worker::of(*self, *shared) =~= before.built(outcome).0);
                        Action::Exit
                    },
                };
            }
        }
        Action::Exit
    }

    /// Goes on with a replacement device, and with another resampler where its rate differs.
    fn resume_on(
        &mut self,
        shared: &mut Shared,
        device: OpenDevice,
        fresh: Option<Resampler>,
    ) -> (action: Action)
        requires
            old(self).wf(),
            old(shared).wf(),
            fresh is None <==> device.native_rate == old(self)@.epoch.rate,
            fresh matches Some(resampler) ==> {
                &&& resampler.wf()
                &&& resampler@.in_rate == device.native_rate
                &&& resampler@.out_rate == old(self)@.target_rate
                &&& resampler@.pending.len() == 0
            },
        ensures
            final(self).wf(),
            final(shared).wf(),
            (Worker::of(*final(self), *final(shared)), action@) == Worker::of(
                *old(self),
                *old(shared),
            ).resumed(
                device,
                match fresh {
                    Some(resampler) => resampler@,
                    None => old(self)@.resampler,
                },
            ),
    {
        let ghost before = Worker::of(*self, *shared);
        let ghost resampler = if fresh is Some {
            fresh->0@
        } else {
            self@.resampler
        };
        if let Some(resampler) = fresh {
            self.epoch = self.epoch.succeeded_by(device.native_rate, self.resampler.held());
            self.resampler = resampler;
            self.reported = 0;
        }
        let ghost found = device;
        self.device_id = device.id;
        self.phase = Phase::Sleeping;
        shared.count_restart();
        shared.clear_error();
        assert(Worker::of(*self, *shared) =~= before.resumed(found, resampler).0);
        Action::Sleep(TICK_MS)
    }
}

/// What a supervisor waits for after it asked for an action.
pub open spec fn awaits(phase: Phase, action: ActionView) -> bool {
    match action {
        ActionView::Sleep(ms) => phase is Sleeping && ms == TICK_MS,
        ActionView::Convert(_) => phase is Converting,
        ActionView::PollDevice => phase is Polling,
        ActionView::Reopen => phase is Opening,
        ActionView::BackOff(ms) => phase is BackingOff && ms == REBUILD_BACKOFF_MS,
        ActionView::BuildEngine { from, to } => {
            phase matches Phase::Building { device } && device.native_rate == from
        },
        ActionView::Exit => phase is Done,
    }
}

impl Worker {
    /// After a device was reopened and, where its rate needs one, an engine was built for it.
    pub open spec fn recovered(self, device: OpenDevice, chunk_in: usize) -> (Self, ActionView) {
        let (found, action) = self.opened(Ok(device));
        if action is BuildEngine {
            found.built(Ok(chunk_in))
        } else {
            (found, action)
        }
    }

    /// After the default device was looked up.
    pub open spec fn looked_up(self, default: Option<Seq<char>>) -> (Self, ActionView) {
        let (sup, action) = self.sup.polled(default);
        (Worker { sup, ..self }, action)
    }

    /// After the pause before the retry.
    pub open spec fn retrying(self) -> (Self, ActionView) {
        let (sup, action) = self.sup.reopening(true);
        (Worker { sup, ..self }, action)
    }
}

/// Law: the supervisor always waits for the answer to the action it asked for, and asks an engine
/// for the ring's rate only.
pub proof fn law_answers_are_awaited(
    worker: Worker,
    default: Option<Seq<char>>,
    outcome: Result<OpenDevice, Error>,
    engine: Result<usize, Vec<String>>,
)
    ensures
        awaits(worker.advanced().0.sup.phase, worker.advanced().1),
        awaits(worker.looked_up(default).0.sup.phase, worker.looked_up(default).1),
        awaits(worker.retrying().0.sup.phase, worker.retrying().1),
        awaits(worker.opened(outcome).0.sup.phase, worker.opened(outcome).1),
        awaits(worker.built(engine).0.sup.phase, worker.built(engine).1),
        worker.opened(outcome).1 matches ActionView::BuildEngine { to, .. } ==> to
            == worker.sup.target_rate,
{
}

/// Law: supervision keeps the buffer. Whatever becomes of a reopened stream, its retry or its
/// engine, the ring, the silence counted for it and the samples on their way to it stay the same.
pub proof fn law_reopening_keeps_the_buffer(
    worker: Worker,
    default: Option<Seq<char>>,
    outcome: Result<OpenDevice, Error>,
    engine: Result<usize, Vec<String>>,
)
    ensures
        ({
            let after = worker.looked_up(default).0;
            after.shared == worker.shared && after.sup.out == worker.sup.out
        }),
        ({
            let after = worker.retrying().0;
            after.shared == worker.shared && after.sup.out == worker.sup.out
        }),
        ({
            let after = worker.opened(outcome).0;
            &&& after.shared.ring == worker.shared.ring
            &&& after.shared.silence_frames == worker.shared.silence_frames
            &&& after.sup.out == worker.sup.out
        }),
        ({
            let after = worker.built(engine).0;
            &&& after.shared.ring == worker.shared.ring
            &&& after.shared.silence_frames == worker.shared.silence_frames
            &&& after.sup.out == worker.sup.out
        }),
{
}

/// Law: every recovery is complete, on the first try as on the retry. Capture goes on at the rate
/// of the replacement, the restart is counted, the error that led here is cleared, and the
/// device's facts are visible.
pub proof fn law_recovery_is_complete(worker: Worker, device: OpenDevice, chunk_in: usize)
    requires
        worker.sup.valid(),
        device.native_rate > 0,
    ensures
        ({
            let (after, action) = worker.recovered(device, chunk_in);
            &&& action == ActionView::Sleep(TICK_MS)
            &&& after.sup.phase is Sleeping
            &&& after.sup.valid()
            &&& after.sup.resampler.in_rate == device.native_rate
            &&& after.sup.epoch.rate == device.native_rate
            &&& after.sup.device_id == text_of(device.id)
            &&& after.shared == worker.shared.with_device(device).restarted().error_cleared()
        }),
{
}

/// Law: the resampler is rebuilt exactly when the replacement runs at a different rate. One that
/// stays keeps the input it holds.
pub proof fn law_resampler_follows_the_rate(worker: Worker, device: OpenDevice, chunk_in: usize)
    requires
        worker.sup.valid(),
        device.native_rate > 0,
    ensures
        ({
            let resampler = worker.recovered(device, chunk_in).0.sup.resampler;
            if device.native_rate == worker.sup.resampler.in_rate {
                resampler == worker.sup.resampler
            } else if device.native_rate == worker.sup.target_rate {
                resampler == ResamplerView::fresh(device.native_rate, worker.sup.target_rate)
            } else {
                resampler == (ResamplerView {
                    chunk_in: chunk_in as nat,
                    ..ResamplerView::fresh(device.native_rate, worker.sup.target_rate)
                })
            }
        }),
{
}

/// Law: a failed reopen is retried once, after a pause. A second failure ends the worker. Either
/// way the message is latched and no restart is counted.
pub proof fn law_reopening_is_retried_once(worker: Worker, first: Error, second: Error)
    requires
        worker.sup.phase matches Phase::Opening { retry } && !retry,
    ensures
        ({
            let (paused, pause) = worker.opened(Err(first));
            let (again, retry) = paused.retrying();
            let (done, end) = again.opened(Err(second));
            &&& pause == ActionView::BackOff(REBUILD_BACKOFF_MS)
            &&& paused.shared == worker.shared.with_error(first.message())
            &&& retry == ActionView::Reopen
            &&& end == ActionView::Exit
            &&& done.shared == worker.shared.with_error(second.message())
            &&& done.shared.restarts == worker.shared.restarts
        }),
{
}

/// Law: a device that cannot be used ends the worker rather than filling the ring with silence,
/// and says why.
pub proof fn law_unusable_device_ends_capture(
    worker: Worker,
    device: OpenDevice,
    source: Vec<String>,
)
    requires
        worker.sup.valid(),
    ensures
        device.native_rate == 0 ==> {
            let (after, action) = worker.opened(Ok(device));
            &&& action == ActionView::Exit
            &&& after.shared.error == Some(Error::ZeroSampleRate.message())
            &&& after.shared.restarts == worker.shared.restarts
        },
        worker.opened(Ok(device)).1 is BuildEngine ==> {
            let (after, action) = worker.opened(Ok(device)).0.built(Err(source));
            &&& action == ActionView::Exit
            &&& after.shared.error == Some(
                (Error::Resampler {
                    from: device.native_rate,
                    to: worker.sup.target_rate,
                    source,
                }).message(),
            )
            &&& after.shared.restarts == worker.shared.restarts
        },
{
}

/// Law: one fault leads to one reopened stream. It is consumed when it is seen, and leads to a
/// reopen at once or right after the lookup that is due, whatever that finds.
pub proof fn law_fault_reopens_once(worker: Worker, default: Option<Seq<char>>)
    ensures
        ({
            let (after, action) = worker.supervised();
            &&& !after.shared.faulted
            &&& worker.shared.faulted ==> {
                ||| action == ActionView::Reopen
                ||| action == ActionView::PollDevice && after.looked_up(default).1
                    == ActionView::Reopen
            }
        }),
{
}

/// Law: without a fault the stream is reopened only for a default device that is known to be
/// another one, and the default device is looked up at most once per interval.
pub proof fn law_undisturbed_capture_goes_on(worker: Worker, default: Option<Seq<char>>)
    requires
        !worker.shared.faulted,
    ensures
        ({
            let (after, action) = worker.supervised();
            if worker.sup.now >= worker.sup.checked + DEVICE_CHECK_NS {
                &&& action == ActionView::PollDevice
                &&& after.sup.checked == worker.sup.now
                &&& after.looked_up(default).1 == if device_differs(
                    worker.sup.device_id,
                    default,
                ) {
                    ActionView::Reopen
                } else {
                    ActionView::Sleep(TICK_MS)
                }
            } else {
                action == ActionView::Sleep(TICK_MS)
            }
        }),
{
}

/// Law: everything the callback staged reaches the ring in order, sample for sample, followed by
/// zeros for the gap. This is a device that already runs at the ring's rate.
pub proof fn law_staged_samples_reach_the_ring(worker: Worker, staged: Seq<u32>, now: u64)
    requires
        worker.sup.valid(),
        worker.sup.resampler.passes_through(),
    ensures
        ({
            let owed = worker.sup.epoch.received(staged.len()).shortfall(now as nat);
            let after = worker.ticked(staged, now).advanced().0;
            &&& after.shared.ring == worker.shared.ring.pushed(
                worker.sup.out + quantised_all(staged) + Seq::new(owed, |i: int| 0i16),
            )
            &&& after.sup.out.len() == 0
        }),
{
    let owed = worker.sup.epoch.received(staged.len()).shortfall(now as nat);
    law_silence_stays_silent(0);
    assert(quantised_all(silence(owed)) =~= Seq::new(owed, |i: int| 0i16));
}

/// Law: an engine is fed elapsed time. Every frame accounted for, staged or made up, is held for
/// the engine in order, behind what is held already.
pub proof fn law_engine_input_is_elapsed_time(worker: Worker, staged: Seq<u32>, now: u64)
    requires
        worker.sup.valid(),
        !worker.sup.resampler.passes_through(),
    ensures
        ({
            let owed = worker.sup.epoch.received(staged.len()).shortfall(now as nat);
            let after = worker.ticked(staged, now);
            let held = after.sup.resampler.pending;
            &&& held == worker.sup.resampler.pending + staged + silence(owed)
            &&& held.len() - worker.sup.resampler.pending.len() == after.sup.epoch.accounted
                - worker.sup.epoch.accounted
            &&& after.sup.out == worker.sup.out
        }),
{
}

/// Law: what the engine converted reaches the ring in order, behind what is already on its way,
/// at the latest when no further chunk is ready.
pub proof fn law_converted_samples_reach_the_ring(
    worker: Worker,
    produced: Option<Vec<Vec<u32>>>,
    next: nat,
)
    ensures
        ({
            let answered = worker.answered(produced, next);
            let after = answered.advanced().0;
            if answered.sup.resampler.chunk_ready() {
                &&& after.shared == worker.shared
                &&& after.sup.out == worker.sup.out + converted_samples(produced)
            } else {
                &&& after.shared.ring == worker.shared.ring.pushed(
                    worker.sup.out + converted_samples(produced),
                )
                &&& after.sup.out.len() == 0
            }
        }),
{
}

/// Law: the buffer keeps wall-clock time. Every tick accounts for what arrived and for the gap,
/// and unless the gap is longer than the cap, less than one frame beyond the tolerance stays owed.
pub proof fn law_tick_keeps_wall_clock_time(worker: Worker, staged: Seq<u32>, now: u64)
    requires
        worker.sup.valid(),
    ensures
        ({
            let owed = worker.sup.epoch.received(staged.len()).shortfall(now as nat);
            let after = worker.ticked(staged, now).sup.epoch;
            &&& after.accounted == worker.sup.epoch.accounted + staged.len() + owed
            &&& after.started == worker.sup.epoch.started
            &&& after.rate == worker.sup.epoch.rate
            &&& owed < after.rate ==> after.deficit(now as nat) < NANOS
            &&& owed > 0 ==> after.deficit(now as nat) >= 0
        }),
{
    law_filling_tracks_the_clock(worker.sup.epoch.received(staged.len()), now as nat);
}

/// Law: the ring grows by exactly the frames accounted for, where a device runs at the ring's
/// rate and the ring is not full. Its length is elapsed time, not sounding time.
pub proof fn law_ring_length_is_elapsed_time(worker: Worker, staged: Seq<u32>, now: u64)
    requires
        worker.sup.valid(),
        worker.sup.resampler.passes_through(),
        worker.sup.out.len() == 0,
    ensures
        ({
            let after = worker.ticked(staged, now).advanced().0;
            let grown = worker.shared.ring.history.len() + after.sup.epoch.accounted
                - worker.sup.epoch.accounted;
            after.shared.ring.history.len() == if grown <= worker.shared.ring.capacity {
                grown
            } else {
                worker.shared.ring.capacity as int
            }
        }),
{
    law_staged_samples_reach_the_ring(worker, staged, now);
}

/// Law: the filled length is wall-clock accurate. Where a device runs at the ring's rate and the
/// ring is not full, the ring stays as long as the frames accounted for. After a tick whose gap is
/// not longer than the cap it reaches to within the tolerance and one frame of now, and filling a
/// gap never takes it past the tolerance.
pub proof fn law_filled_length_follows_the_clock(worker: Worker, staged: Seq<u32>, now: u64)
    requires
        worker.sup.valid(),
        worker.sup.resampler.passes_through(),
        worker.sup.out.len() == 0,
        worker.shared.ring.history.len() == worker.sup.epoch.accounted,
        worker.ticked(staged, now).sup.epoch.accounted <= worker.shared.ring.capacity,
    ensures
        ({
            let owed = worker.sup.epoch.received(staged.len()).shortfall(now as nat);
            let after = worker.ticked(staged, now).advanced().0;
            let length = after.shared.ring.history.len();
            let expected = (now - after.sup.epoch.started - GAP_TOLERANCE_NS)
                * after.sup.epoch.rate;
            &&& length == after.sup.epoch.accounted
            &&& owed < after.sup.epoch.rate ==> expected < (length + 1) * NANOS
            &&& owed > 0 ==> length * NANOS <= expected
        }),
{
    law_ring_length_is_elapsed_time(worker, staged, now);
    law_tick_keeps_wall_clock_time(worker, staged, now);
    let epoch = worker.ticked(staged, now).sup.epoch;
    assert((now - epoch.started - GAP_TOLERANCE_NS) * epoch.rate == (now - epoch.started)
        * epoch.rate - epoch.rate * GAP_TOLERANCE_NS) by (nonlinear_arith);
    assert((epoch.accounted + 1) * NANOS == epoch.accounted * NANOS + NANOS) by (nonlinear_arith);
}

/// Law: the silence counted is the silence synthesised, in frames of the ring. Rounding never
/// accumulates: until the counter wraps, it moves exactly as the converted total does.
pub proof fn law_silence_is_counted_in_ring_frames(worker: Worker, staged: Seq<u32>, now: u64)
    requires
        worker.sup.valid(),
        ({
            let target = worker.sup.target_rate as nat;
            worker.shared.silence_frames + worker.ticked(staged, now).sup.epoch.silence_at(target)
                - worker.sup.epoch.silence_at(target) <= u64::MAX
        }),
    ensures
        ({
            let target = worker.sup.target_rate as nat;
            let after = worker.ticked(staged, now);
            &&& after.shared.silence_frames - after.sup.epoch.silence_at(target)
                == worker.shared.silence_frames - worker.sup.epoch.silence_at(target)
            &&& after.sup.epoch.synthesised == worker.sup.epoch.synthesised
                + worker.sup.epoch.received(staged.len()).shortfall(now as nat)
        }),
{
    let arrived = worker.sup.epoch.received(staged.len());
    let (rate, target) = (arrived.rate as int, worker.sup.target_rate as int);
    let (less, more) = (
        arrived.synthesised * target,
        (arrived.synthesised + arrived.shortfall(now as nat)) * target,
    );
    assert(0 <= less <= more) by (nonlinear_arith)
        requires
            less == arrived.synthesised * target,
            more == (arrived.synthesised + arrived.shortfall(now as nat)) * target,
            target >= 0,
    ;
    vstd::arithmetic::div_mod::lemma_div_is_ordered(less, more, rate);
}

/// Law: a device change loses no time. At the same rate nothing of the accounting changes. At
/// another rate it covers exactly the frames that are in the ring or went to the engine: those that
/// the old resampler still held are discarded with it, and stay owed together with the interval
/// between the devices.
pub proof fn law_recovery_loses_no_time(
    worker: Worker,
    device: OpenDevice,
    chunk_in: usize,
    now: u64,
)
    requires
        worker.sup.valid(),
        device.native_rate > 0,
        worker.sup.epoch.covered_without(worker.sup.resampler.pending.len()) <= u64::MAX,
    ensures
        ({
            let after = worker.recovered(device, chunk_in).0.sup;
            let held = worker.sup.resampler.pending.len();
            if device.native_rate == worker.sup.epoch.rate {
                after.epoch == worker.sup.epoch && after.resampler.pending
                    == worker.sup.resampler.pending
            } else {
                &&& after.resampler.pending.len() == 0
                &&& after.epoch.covered_until() == worker.sup.epoch.covered_without(held)
                &&& after.epoch.deficit(now as nat) == (now - worker.sup.epoch.covered_without(held)
                    - GAP_TOLERANCE_NS) * device.native_rate
            }
        }),
{
    law_interval_between_devices_is_owed(
        worker.sup.epoch,
        device.native_rate as nat,
        worker.sup.resampler.pending.len(),
        now as nat,
    );
}

/// Law: refused chunks are reported each time their number grows, and only then. The message names
/// how many the current resampler refused, and once it was given nothing is left to report.
pub proof fn law_refused_chunks_are_reported(worker: Worker)
    requires
        worker.sup.valid(),
    ensures
        ({
            let after = worker.settled();
            &&& after.sup.reported == worker.sup.resampler.dropped
            &&& after.shared.error == if worker.sup.resampler.dropped > worker.sup.reported {
                Some(drop_report(worker.sup.resampler.dropped))
            } else {
                worker.shared.error
            }
            &&& after.settled().shared.error == after.shared.error
        }),
{
}

/// Law: a resampler that fails is visible, a rebuilt one too. Whatever was reported before the
/// change of rate, the first chunk that the new resampler's engine refuses is reported.
pub proof fn law_rebuilt_resampler_reports_anew(
    worker: Worker,
    device: OpenDevice,
    chunk_in: usize,
    produced: Option<Vec<Vec<u32>>>,
    next: nat,
)
    requires
        worker.sup.valid(),
        device.native_rate > 0,
        device.native_rate != worker.sup.epoch.rate,
        converted(produced) is None,
    ensures
        ({
            let after = worker.recovered(device, chunk_in).0;
            &&& after.sup.reported == 0
            &&& after.sup.resampler.dropped == 0
            &&& after.answered(produced, next).settled().shared.error == Some(drop_report(1))
        }),
{
}

/// Law: following one device switch never hides the next. A recovery leaves the time of the last
/// lookup where it was, so the first tick half a second or more after the current one looks the
/// default device up again, once no chunk is left to convert, and a default with another known
/// identity is reopened like the first.
pub proof fn law_the_next_switch_is_followed(
    worker: Worker,
    device: OpenDevice,
    chunk_in: usize,
    staged: Seq<u32>,
    later: u64,
    default: Seq<char>,
)
    requires
        worker.sup.valid(),
        worker.sup.checked <= worker.sup.now,
        device.native_rate > 0,
        later >= worker.sup.now + 500_000_000,
    ensures
        ({
            let after = worker.recovered(device, chunk_in).0;
            let ticked = after.ticked(staged, later);
            let (polling, action) = ticked.advanced();
            &&& after.sup.checked == worker.sup.checked
            &&& after.sup.now == worker.sup.now
            &&& ticked.sup.checked == worker.sup.checked
            &&& ticked.sup.now == later
            &&& !ticked.sup.resampler.chunk_ready() ==> {
                &&& action == ActionView::PollDevice
                &&& polling.sup.checked == later
                &&& device.id matches Some(id) ==> id@ != default ==> polling.looked_up(
                    Some(default),
                ).1 == ActionView::Reopen
            }
        }),
{
}

/// Law: a lookup that is due is not lost to the engine. While chunks are converted the tick's time
/// and the time of the last lookup stay, and once none is left the lookup is made.
pub proof fn law_due_lookup_outlasts_conversion(
    worker: Worker,
    produced: Option<Vec<Vec<u32>>>,
    next: nat,
)
    requires
        worker.sup.now >= worker.sup.checked + 500_000_000,
    ensures
        ({
            let answered = worker.answered(produced, next);
            let (after, action) = answered.advanced();
            &&& answered.sup.now == worker.sup.now
            &&& answered.sup.checked == worker.sup.checked
            &&& if answered.sup.resampler.chunk_ready() {
                after.sup.now == worker.sup.now && after.sup.checked == worker.sup.checked
            } else {
                action == ActionView::PollDevice && after.sup.checked == worker.sup.now
            }
        }),
{
}

/// Law: only a lookup moves the time of the last lookup, and it moves it to the current tick. No
/// answer of a device, an engine or a pause touches either.
pub proof fn law_only_lookups_count_as_lookups(
    worker: Worker,
    default: Option<Seq<char>>,
    outcome: Result<OpenDevice, Error>,
    engine: Result<usize, Vec<String>>,
)
    ensures
        ({
            let (after, action) = worker.advanced();
            &&& after.sup.now == worker.sup.now
            &&& after.sup.checked == if action is PollDevice {
                worker.sup.now
            } else {
                worker.sup.checked
            }
        }),
        ({
            let after = worker.looked_up(default).0.sup;
            after == (SupervisorView { phase: after.phase, ..worker.sup })
        }),
        ({
            let after = worker.retrying().0.sup;
            after == (SupervisorView { phase: after.phase, ..worker.sup })
        }),
        ({
            let after = worker.opened(outcome).0.sup;
            after.now == worker.sup.now && after.checked == worker.sup.checked
        }),
        ({
            let after = worker.built(engine).0.sup;
            after.now == worker.sup.now && after.checked == worker.sup.checked
        }),
{
}

/// Law: a new capture counts from its beginning. Nothing is accounted, held, on its way or
/// reported, the first lookup is due half a second later, and only different rates wait for an
/// engine.
pub proof fn law_capture_begins_blank(device: OpenDevice, target_rate: u32, now: u64)
    ensures
        ({
            let sup = SupervisorView::starting(device, target_rate, now);
            &&& sup.epoch == (EpochView {
                started: now as nat,
                accounted: 0,
                synthesised: 0,
                rate: device.native_rate as nat,
            })
            &&& sup.resampler == ResamplerView::fresh(device.native_rate, target_rate)
            &&& sup.target_rate == target_rate
            &&& device.id matches Some(id) ==> sup.device_id == Some(id@)
            &&& device.id is None ==> sup.device_id is None
            &&& sup.out.len() == 0
            &&& sup.now == now
            &&& sup.checked == now
            &&& sup.reported == 0
            &&& sup.phase is Sleeping <==> device.native_rate == target_rate
            &&& sup.phase is Starting <==> device.native_rate != target_rate
        }),
{
}

/// Law: a tick takes in all that was staged and makes up exactly the whole frames still owed. Owed
/// is the time since the beginning at the device's rate, less what is accounted for and a quarter
/// of a second, but no more than one second at a time.
pub proof fn law_tick_makes_up_what_is_owed(worker: Worker, staged: Seq<u32>, now: u64)
    requires
        worker.sup.valid(),
    ensures
        ({
            let (before, after) = (worker.sup.epoch, worker.ticked(staged, now).sup.epoch);
            let owed = (now - before.started) * before.rate - (before.accounted + staged.len())
                * 1_000_000_000 - before.rate * 250_000_000;
            let made_up = after.accounted - before.accounted - staged.len();
            &&& after.rate == before.rate
            &&& after.started == before.started
            &&& after.synthesised == before.synthesised + made_up
            &&& owed < 1_000_000_000 ==> made_up == 0
            &&& owed >= before.rate * 1_000_000_000 ==> made_up == before.rate
            &&& 0 <= owed < before.rate * 1_000_000_000 ==> made_up * 1_000_000_000 <= owed < (
            made_up + 1) * 1_000_000_000
        }),
{
}

/// Law: a tick brings samples and silence and changes nothing else. Of the shared state only the
/// count of silence moves; the ring, the error, the fault and the device's facts wait.
pub proof fn law_tick_changes_nothing_else(worker: Worker, staged: Seq<u32>, now: u64)
    ensures
        ({
            let after = worker.ticked(staged, now);
            &&& after.sup == (SupervisorView {
                epoch: after.sup.epoch,
                resampler: after.sup.resampler,
                out: after.sup.out,
                now,
                ..worker.sup
            })
            &&& after.shared == (SharedView {
                silence_frames: after.shared.silence_frames,
                ..worker.shared
            })
        }),
{
}

/// Law: staged samples and silence go on frame by frame. At the ring's rate each staged number
/// becomes its sample, behind what is on its way, and each frame of silence a zero; at another rate
/// each is held for the engine, silence as zeros too.
pub proof fn law_tick_passes_every_frame_on(worker: Worker, staged: Seq<u32>, now: u64, i: int)
    requires
        worker.sup.valid(),
    ensures
        ({
            let after = worker.ticked(staged, now).sup;
            let added = after.epoch.accounted - worker.sup.epoch.accounted;
            let (out, held) = (
                worker.sup.out.len() as int,
                worker.sup.resampler.pending.len() as int,
            );
            let through = worker.sup.resampler.in_rate == worker.sup.resampler.out_rate;
            &&& after.out.len() == if through {
                out + added
            } else {
                out
            }
            &&& after.resampler.pending.len() == if through {
                held
            } else {
                held + added
            }
            &&& 0 <= i < out ==> after.out[i] == worker.sup.out[i]
            &&& 0 <= i < held ==> after.resampler.pending[i] == worker.sup.resampler.pending[i]
            &&& through && 0 <= i < staged.len() ==> after.out[out + i] == quantised(staged[i])
            &&& through && staged.len() <= i < added ==> after.out[out + i] == 0
            &&& !through && 0 <= i < staged.len() ==> after.resampler.pending[held + i] == staged[i]
            &&& !through && staged.len() <= i < added ==> after.resampler.pending[held + i] == 0
            &&& after.resampler == (ResamplerView {
                pending: after.resampler.pending,
                ..worker.sup.resampler
            })
        }),
{
    let owed = worker.sup.epoch.received(staged.len()).shortfall(now as nat);
    law_samples_are_quantised_one_by_one(staged, i);
    law_samples_are_quantised_one_by_one(silence(owed), i - staged.len());
    law_silence_stays_silent(0);
}

/// Law: an engine's answer adds its samples behind what is on its way and changes nothing else
/// but the resampler's counts.
pub proof fn law_answer_changes_nothing_else(
    worker: Worker,
    produced: Option<Vec<Vec<u32>>>,
    next: nat,
)
    ensures
        ({
            let after = worker.answered(produced, next);
            &&& after.shared == worker.shared
            &&& after.sup == (SupervisorView {
                resampler: worker.sup.resampler.chunk_finished(produced, next),
                out: worker.sup.out + converted_samples(produced),
                ..worker.sup
            })
        }),
{
}

/// Law: the tick ends when no chunk is ready. Until then the oldest input goes to the engine and
/// nothing is written; then all that is on its way is written, newly refused chunks are reported by
/// their number, and the fault is consumed. Nothing else changes.
pub proof fn law_end_of_tick(worker: Worker)
    ensures
        ({
            let (sup, resampler) = (worker.sup, worker.sup.resampler);
            let (after, action) = worker.advanced();
            if resampler.in_rate != resampler.out_rate && resampler.pending.len()
                >= resampler.chunk_in {
                let wanted = resampler.chunk_in as int;
                &&& action == ActionView::Convert(resampler.pending.subrange(0, wanted))
                &&& after.shared == worker.shared
                &&& after.sup == (SupervisorView {
                    resampler: ResamplerView {
                        pending: resampler.pending.subrange(
                            wanted,
                            resampler.pending.len() as int,
                        ),
                        ..resampler
                    },
                    phase: Phase::Converting,
                    ..sup
                })
            } else {
                let refused = resampler.dropped > sup.reported;
                &&& after.shared == (SharedView {
                    ring: worker.shared.ring.pushed(sup.out),
                    error: if refused {
                        Some(
                            "resampler rejected "@ + decimal(resampler.dropped)
                                + " chunk(s); some audio is missing"@,
                        )
                    } else {
                        worker.shared.error
                    },
                    faulted: false,
                    ..worker.shared
                })
                &&& after.sup == (SupervisorView {
                    out: Seq::empty(),
                    reported: if refused {
                        resampler.dropped as u64
                    } else {
                        sup.reported
                    },
                    checked: after.sup.checked,
                    phase: after.sup.phase,
                    ..sup
                })
                &&& if sup.now >= sup.checked + 500_000_000 {
                    &&& action == ActionView::PollDevice
                    &&& after.sup.checked == sup.now
                    &&& after.sup.phase == (Phase::Polling { faulted: worker.shared.faulted })
                } else {
                    &&& after.sup.checked == sup.checked
                    &&& if worker.shared.faulted {
                        &&& action == ActionView::Reopen
                        &&& after.sup.phase == (Phase::Opening { retry: false })
                    } else {
                        &&& action == ActionView::Sleep(20)
                        &&& after.sup.phase == Phase::Sleeping
                    }
                }
            }
        }),
{
}

/// Law: a lookup reopens the stream for a fault noted before and for a default device known to be
/// another one, for nothing else, and touches nothing else.
pub proof fn law_lookup_decides_by_identity(worker: Worker, default: Option<Seq<char>>)
    requires
        worker.sup.phase is Polling,
    ensures
        ({
            let (after, action) = worker.looked_up(default);
            let other = match (worker.sup.device_id, default) {
                (Some(current), Some(found)) => current != found,
                _ => false,
            };
            let reopen = worker.sup.phase == (Phase::Polling { faulted: true }) || other;
            &&& after.shared == worker.shared
            &&& action == if reopen {
                ActionView::Reopen
            } else {
                ActionView::Sleep(20)
            }
            &&& after.sup == (SupervisorView {
                phase: if reopen {
                    Phase::Opening { retry: false }
                } else {
                    Phase::Sleeping
                },
                ..worker.sup
            })
        }),
{
}

/// Law: a stream that cannot be reopened leaves its message. The first failure pauses for 750 ms,
/// the second ends the worker, and nothing else changes, so the retry finds all as it was.
pub proof fn law_failed_reopen_only_leaves_its_message(worker: Worker, error: Error)
    requires
        worker.sup.phase is Opening,
    ensures
        ({
            let (after, action) = worker.opened(Err(error));
            let last = worker.sup.phase == (Phase::Opening { retry: true });
            &&& after.shared == (SharedView { error: Some(error.message()), ..worker.shared })
            &&& action == if last {
                ActionView::Exit
            } else {
                ActionView::BackOff(750)
            }
            &&& after.sup == (SupervisorView {
                phase: if last {
                    Phase::Done
                } else {
                    Phase::BackingOff
                },
                ..worker.sup
            })
        }),
        ({
            let (after, action) = worker.retrying();
            &&& action == ActionView::Reopen
            &&& after.shared == worker.shared
            &&& after.sup == (SupervisorView { phase: Phase::Opening { retry: true }, ..worker.sup })
        }),
{
}

/// Law: a recovery sets what belongs to the new device and keeps the rest. The device's identity
/// and facts are the new ones, the restart is one more, the error and the fault are gone; what is
/// on its way, the lookups and the ring stay.
pub proof fn law_recovery_keeps_the_rest(worker: Worker, device: OpenDevice, chunk_in: usize)
    requires
        worker.sup.valid(),
        device.native_rate > 0,
    ensures
        ({
            let (after, action) = worker.recovered(device, chunk_in);
            &&& action == ActionView::Sleep(20)
            &&& after.sup == (SupervisorView {
                resampler: after.sup.resampler,
                epoch: after.sup.epoch,
                reported: after.sup.reported,
                device_id: after.sup.device_id,
                phase: Phase::Sleeping,
                ..worker.sup
            })
            &&& device.id matches Some(id) ==> after.sup.device_id == Some(id@)
            &&& device.id is None ==> after.sup.device_id is None
            &&& after.shared == (SharedView {
                error: None,
                faulted: false,
                restarts: after.shared.restarts,
                native_rate: device.native_rate,
                channels: device.channels as u32,
                device_name: device.name@,
                ..worker.shared
            })
            &&& worker.shared.restarts < 0xffff_ffff ==> after.shared.restarts
                == worker.shared.restarts + 1
            &&& worker.shared.restarts == 0xffff_ffff ==> after.shared.restarts == 0
        }),
{
}

/// Law: a recovery at the same rate loses nothing that is held or counted; one at another rate
/// begins with an empty resampler between the new rate and the ring's, with nothing counted.
pub proof fn law_recovery_follows_the_rate(worker: Worker, device: OpenDevice, chunk_in: usize)
    requires
        worker.sup.valid(),
        device.native_rate > 0,
    ensures
        ({
            let after = worker.recovered(device, chunk_in).0.sup;
            if device.native_rate == worker.sup.resampler.in_rate {
                &&& after.resampler == worker.sup.resampler
                &&& after.epoch == worker.sup.epoch
                &&& after.reported == worker.sup.reported
            } else {
                &&& after.resampler.in_rate == device.native_rate
                &&& after.resampler.out_rate == worker.sup.target_rate
                &&& after.resampler.pending.len() == 0
                &&& after.resampler.dropped == 0
                &&& device.native_rate != worker.sup.target_rate ==> after.resampler.chunk_in
                    == chunk_in
                &&& after.epoch.rate == device.native_rate
                &&& after.epoch.accounted == 0
                &&& after.epoch.synthesised == 0
                &&& after.reported == 0
            }
        }),
{
}

/// Law: an engine is asked for exactly when a usable device runs at a new rate that is not the
/// ring's, between these two rates; until it is built only the device's facts change.
pub proof fn law_engine_is_asked_for_when_needed(worker: Worker, device: OpenDevice)
    ensures
        ({
            let (after, action) = worker.opened(Ok(device));
            let needed = device.native_rate != 0 && device.native_rate != worker.sup.epoch.rate
                && device.native_rate != worker.sup.target_rate;
            &&& action is BuildEngine <==> needed
            &&& needed ==> {
                &&& action == (ActionView::BuildEngine {
                    from: device.native_rate,
                    to: worker.sup.target_rate,
                })
                &&& after.sup == (SupervisorView {
                    phase: Phase::Building { device },
                    ..worker.sup
                })
                &&& after.shared == (SharedView {
                    native_rate: device.native_rate,
                    channels: device.channels as u32,
                    device_name: device.name@,
                    ..worker.shared
                })
            }
        }),
{
}

/// Law: a device that cannot be used leaves its facts and the reason, and nothing else changes. One
/// without a rate ends the worker when it is opened, one whose engine cannot be built right after.
pub proof fn law_unusable_device_leaves_the_reason(
    worker: Worker,
    device: OpenDevice,
    source: Vec<String>,
)
    requires
        worker.sup.valid(),
        device.native_rate != worker.sup.epoch.rate,
        device.native_rate != worker.sup.target_rate,
    ensures
        ({
            let (opened, asked) = worker.opened(Ok(device));
            let (after, action) = if device.native_rate == 0 {
                (opened, asked)
            } else {
                opened.built(Err(source))
            };
            let reason = if device.native_rate == 0 {
                "sample rate must be greater than zero"@
            } else {
                "could not build a resampler for "@ + decimal(device.native_rate as nat)
                    + " Hz to "@ + decimal(worker.sup.target_rate as nat) + " Hz"@
            };
            &&& action == ActionView::Exit
            &&& after.sup == (SupervisorView { phase: Phase::Done, ..worker.sup })
            &&& after.shared == (SharedView {
                error: Some(reason),
                native_rate: device.native_rate,
                channels: device.channels as u32,
                device_name: device.name@,
                ..worker.shared
            })
        }),
{
}

/// Law: an ended worker keeps what was recorded. Only its message and its phase change.
pub proof fn law_ending_keeps_the_recording(worker: Worker, message: Seq<char>)
    ensures
        ({
            let (after, action) = worker.ended(message);
            &&& action == ActionView::Exit
            &&& after.shared == (SharedView { error: Some(message), ..worker.shared })
            &&& after.sup == (SupervisorView { phase: Phase::Done, ..worker.sup })
        }),
{
}

/// Law: an action means what it says, and a worker is its supervisor with the very state it works
/// on.
pub proof fn law_actions_and_workers_are_literal(action: Action, sup: Supervisor, shared: Shared)
    ensures
        action matches Action::Sleep(ms) ==> action@ == ActionView::Sleep(ms),
        action matches Action::Convert(chunk) ==> action@ == ActionView::Convert(chunk@),
        action is PollDevice <==> action@ is PollDevice,
        action is Reopen <==> action@ is Reopen,
        action matches Action::BackOff(ms) ==> action@ == ActionView::BackOff(ms),
        action matches Action::BuildEngine { from, to } ==> action@ == (ActionView::BuildEngine {
            from,
            to,
        }),
        action is Exit <==> action@ is Exit,
        Worker::of(sup, shared).sup == sup@,
        Worker::of(sup, shared).shared == shared@,
{
}

} // verus!
