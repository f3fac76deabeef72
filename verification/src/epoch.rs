//! Frame accounting against the wall clock.
//!
//! Some backends deliver nothing while the device is silent. Left alone that drifts the buffer
//! from the wall clock, so the shortfall is measured here and filled with silence. Times are
//! nanoseconds of a monotonic clock; amounts below one frame are kept in billionths of a frame.
use vstd::prelude::*;

verus! {

/// Nanoseconds in a second, and billionths of a frame in a frame.
pub const NANOS: u64 = 1_000_000_000;

/// Grace before a quiet stream counts as a gap rather than jitter: a quarter of a second.
pub const GAP_TOLERANCE_NS: u64 = 250_000_000;

/// What an epoch knows, as mathematics.
#[verifier::ext_equal]
pub struct EpochView {
    /// The instant that frame zero stands for.
    pub started: nat,
    /// Frames received plus frames synthesised, at `rate`.
    pub accounted: nat,
    /// Frames synthesised, at `rate`.
    pub synthesised: nat,
    pub rate: nat,
}

impl EpochView {
    pub open spec fn fresh(rate: nat, now: nat) -> Self {
        EpochView { started: now, accounted: 0, synthesised: 0, rate }
    }

    /// Billionths of a frame that the wall clock says should have arrived, less the tolerance,
    /// but haven't.
    pub open spec fn deficit(self, now: nat) -> int {
        (now - self.started) * self.rate - self.accounted * NANOS - self.rate * GAP_TOLERANCE_NS
    }

    /// Whole frames of silence to synthesise: the deficit, at most one second's worth at a time.
    pub open spec fn shortfall(self, now: nat) -> nat {
        let deficit = self.deficit(now);
        if deficit < NANOS {
            0
        } else if deficit / NANOS as int > self.rate {
            self.rate
        } else {
            (deficit / NANOS as int) as nat
        }
    }

    /// After `frames` frames arrived.
    pub open spec fn received(self, frames: nat) -> Self {
        EpochView { accounted: self.accounted + frames, ..self }
    }

    /// After `frames` frames of silence were made up.
    pub open spec fn filled(self, frames: nat) -> Self {
        EpochView {
            accounted: self.accounted + frames,
            synthesised: self.synthesised + frames,
            ..self
        }
    }

    /// The instant up to which frames are accounted for.
    pub open spec fn covered_until(self) -> nat {
        self.started + (self.accounted * NANOS as nat) / self.rate
    }

    /// The instant up to which frames are accounted for, leaving out the last `frames` of them.
    pub open spec fn covered_without(self, frames: nat) -> nat {
        EpochView { accounted: (self.accounted - frames) as nat, ..self }.covered_until()
    }

    /// The epoch of a replacement device at `rate`. It begins where this one's accounting ends,
    /// leaving out the last `discarded` frames, so that these and the interval between the devices
    /// are still owed.
    pub open spec fn succeeded_by(self, rate: nat, discarded: nat) -> Self {
        let from = self.covered_without(discarded);
        EpochView::fresh(rate, if from <= u64::MAX { from } else { u64::MAX as nat })
    }

    /// The silence synthesised so far, in whole frames at another rate.
    pub open spec fn silence_at(self, rate: nat) -> nat {
        (self.synthesised * rate) / self.rate
    }

    pub open spec fn valid(self) -> bool {
        &&& self.rate > 0
        &&& self.synthesised <= self.accounted
    }
}

/// Frame accounting at one rate. Succeeded when a device at another rate takes over, since counts at
/// 44.1 kHz mean nothing at 48 kHz.
pub struct Epoch {
    started: u64,
    accounted: u64,
    synthesised: u64,
    rate: u32,
}

impl View for Epoch {
    type V = EpochView;

    closed spec fn view(&self) -> EpochView {
        EpochView {
            started: self.started as nat,
            accounted: self.accounted as nat,
            synthesised: self.synthesised as nat,
            rate: self.rate as nat,
        }
    }
}

impl Epoch {
    /// An epoch that begins now.
    pub fn new(rate: u32, now: u64) -> (epoch: Self)
        ensures
            epoch@ == EpochView::fresh(rate as nat, now as nat),
    {
        Self { started: now, accounted: 0, synthesised: 0, rate }
    }

    pub fn rate(&self) -> (rate: u32)
        ensures
            rate == self@.rate,
    {
        self.rate
    }

    /// Billionths of a frame that the wall clock says should have arrived but haven't, less the
    /// tolerance. Negative while the stream is on time.
    pub fn deficit(&self, now: u64) -> (deficit: i128)
        ensures
            deficit == self@.deficit(now as nat),
    {
        let elapsed: i128 = now as i128 - self.started as i128;
        assert(-0xffff_ffff_ffff_ffff * 0xffff_ffff <= elapsed * self.rate <= 0xffff_ffff_ffff_ffff
            * 0xffff_ffff) by (nonlinear_arith)
            requires
                -0xffff_ffff_ffff_ffff <= elapsed <= 0xffff_ffff_ffff_ffff,
                0 <= self.rate <= 0xffff_ffff,
        ;
        assert(self.accounted * NANOS <= u64::MAX * 0x4000_0000) by (nonlinear_arith)
            requires
                self.accounted <= u64::MAX,
                NANOS <= 0x4000_0000,
        ;
        assert(self.rate * GAP_TOLERANCE_NS <= u32::MAX * 0x4000_0000) by (nonlinear_arith)
            requires
                self.rate <= u32::MAX,
                GAP_TOLERANCE_NS <= 0x4000_0000,
        ;
        let owed: i128 = elapsed * self.rate as i128;
        let settled: i128 = self.accounted as i128 * NANOS as i128;
        let tolerated: i128 = self.rate as i128 * GAP_TOLERANCE_NS as i128;
        owed - settled - tolerated
    }

    /// Whole frames of silence owed now. The cap of one second bounds the allocation after the
    /// process was suspended; ticks come often enough that it still catches up quickly.
    pub fn shortfall(&self, now: u64) -> (frames: u32)
        ensures
            frames == self@.shortfall(now as nat),
            frames <= self@.rate,
    {
        let deficit: i128 = self.deficit(now);
        if deficit < NANOS as i128 {
            return 0;
        }
        let whole: i128 = deficit / NANOS as i128;
        if whole > self.rate as i128 {
            self.rate
        } else {
            whole as u32
        }
    }

    /// Whether the count has room for this many frames and a second of silence.
    pub fn has_room(&self, frames: usize) -> (room: bool)
        ensures
            room == (self@.accounted + frames + self@.rate <= u64::MAX),
    {
        self.accounted as u128 + frames as u128 + self.rate as u128 <= u64::MAX as u128
    }

    /// Counts frames that arrived.
    pub fn receive(&mut self, frames: usize)
        requires
            old(self)@.accounted + frames <= u64::MAX,
        ensures
            final(self)@ == old(self)@.received(frames as nat),
    {
        self.accounted = self.accounted + frames as u64;
    }

    /// Counts frames of silence that were made up, and gives the silence this adds in whole frames
    /// at the rate `at`. Fractions carry over to the next time, so nothing is lost to rounding.
    pub fn fill(&mut self, frames: u32, at: u32) -> (added: u64)
        requires
            old(self)@.valid(),
            old(self)@.accounted + frames <= u64::MAX,
            frames <= old(self)@.rate,
        ensures
            final(self)@ == old(self)@.filled(frames as nat),
            added == final(self)@.silence_at(at as nat) - old(self)@.silence_at(at as nat),
    {
        proof {
            lemma_silence_step(
                self.synthesised as int,
                frames as int,
                at as int,
                self.rate as int,
            );
        }
        let before: u128 = (self.synthesised as u128 * at as u128) / self.rate as u128;
        self.accounted = self.accounted + frames as u64;
        self.synthesised = self.synthesised + frames as u64;
        let after: u128 = (self.synthesised as u128 * at as u128) / self.rate as u128;
        (after - before) as u64
    }

    /// The epoch of a replacement device. Begins where the accounting of this one ends, without the
    /// last `discarded` frames, so that these and the interval between the devices are still owed
    /// and get filled.
    pub fn succeeded_by(&self, rate: u32, discarded: usize) -> (epoch: Self)
        requires
            self@.valid(),
            discarded <= self@.accounted,
        ensures
            epoch@ == self@.succeeded_by(rate as nat, discarded as nat),
    {
        let kept: u64 = self.accounted - discarded as u64;
        proof {
            lemma_quotient_bound((kept * NANOS) as int, self.rate as int);
        }
        let from: u128 = self.started as u128 + (kept as u128 * NANOS as u128)
            / self.rate as u128;
        if from <= u64::MAX as u128 {
            Epoch::new(rate, from as u64)
        } else {
            Epoch::new(rate, u64::MAX)
        }
    }
}

proof fn lemma_quotient_bound(x: int, d: int)
    requires
        0 <= x,
        0 < d,
    ensures
        0 <= x / d <= x,
{
    assert(0 <= x / d <= x) by (nonlinear_arith)
        requires
            0 <= x,
            0 < d,
    ;
}

/// Adding at most one second of silence at one rate adds at most one second, give or take a frame,
/// at another.
proof fn lemma_silence_step(before: int, frames: int, at: int, rate: int)
    requires
        0 <= before <= u64::MAX,
        0 <= frames <= rate <= u32::MAX,
        0 <= at <= u32::MAX,
        0 < rate,
    ensures
        0 <= before * at <= u64::MAX * u32::MAX,
        0 <= (before + frames) * at <= (u64::MAX + u32::MAX) * u32::MAX,
        0 <= (before * at) / rate <= ((before + frames) * at) / rate,
        ((before + frames) * at) / rate - (before * at) / rate <= at + 1,
{
    assert(0 <= before * at <= u64::MAX * u32::MAX) by (nonlinear_arith)
        requires
            0 <= before <= u64::MAX,
            0 <= at <= u32::MAX,
    ;
    assert(0 <= frames * at <= rate * at) by (nonlinear_arith)
        requires
            0 <= frames <= rate,
            0 <= at,
    ;
    assert((before + frames) * at == before * at + frames * at) by (nonlinear_arith);
    assert(rate * at <= u32::MAX * u32::MAX) by (nonlinear_arith)
        requires
            0 <= rate <= u32::MAX,
            0 <= at <= u32::MAX,
    ;
    let a = before * at;
    let b = frames * at;
    vstd::arithmetic::div_mod::lemma_div_is_ordered(a, a + b, rate);
    vstd::arithmetic::div_mod::lemma_div_is_ordered(a + b, a + rate * at, rate);
    vstd::arithmetic::div_mod::lemma_hoist_over_denominator(a, at, rate as nat);
    vstd::arithmetic::mul::lemma_mul_is_commutative(rate, at);
    lemma_quotient_bound(a, rate);
}

/// Law: a stream that delivers on time never triggers the gap filler. While the frames accounted
/// for reach to within the tolerance of now, no silence is made up.
pub proof fn law_on_time_stream_is_not_filled(epoch: EpochView, now: nat)
    requires
        epoch.valid(),
        now <= epoch.covered_until() + GAP_TOLERANCE_NS,
    ensures
        epoch.deficit(now) <= 0,
        epoch.shortfall(now) == 0,
{
    let span = (epoch.accounted * NANOS as nat) / epoch.rate;
    lemma_times_floor((epoch.accounted * NANOS as nat) as int, epoch.rate as int);
    lemma_split(now - epoch.started, GAP_TOLERANCE_NS as int, epoch.rate as int);
    assert((now - epoch.started - GAP_TOLERANCE_NS) * epoch.rate <= span * epoch.rate)
        by (nonlinear_arith)
        requires
            now - epoch.started - GAP_TOLERANCE_NS <= span,
            epoch.rate > 0,
    ;
}

/// Law: the gap filler keeps the buffer on the wall clock. What it makes up never runs ahead of
/// the tolerance, and where the cap does not cut it short it leaves less than one frame owed.
pub proof fn law_filling_tracks_the_clock(epoch: EpochView, now: nat)
    requires
        epoch.valid(),
    ensures
        epoch.shortfall(now) > 0 ==> epoch.filled(epoch.shortfall(now)).deficit(now) >= 0,
        epoch.shortfall(now) < epoch.rate ==> epoch.filled(epoch.shortfall(now)).deficit(now)
            < NANOS,
        epoch.shortfall(now) <= epoch.rate,
{
    let n = epoch.shortfall(now);
    assert((epoch.accounted + n) * NANOS == epoch.accounted * NANOS + n * NANOS)
        by (nonlinear_arith);
    let deficit = epoch.deficit(now);
    if deficit >= NANOS {
        lemma_times_floor(deficit, NANOS as int);
        assert(n * NANOS <= (deficit / NANOS as int) * NANOS) by (nonlinear_arith)
            requires
                0 <= n <= deficit / NANOS as int,
        ;
    }
}

/// Law: a shortfall longer than the cap is made up a whole second at a time, so the owed time
/// shrinks by a second per tick until the gap is closed.
pub proof fn law_long_gaps_close_by_seconds(epoch: EpochView, now: nat)
    requires
        epoch.valid(),
        epoch.shortfall(now) == epoch.rate,
    ensures
        epoch.filled(epoch.shortfall(now)).covered_until() == epoch.covered_until() + NANOS,
{
    assert((epoch.accounted + epoch.rate) * NANOS == epoch.accounted * NANOS + NANOS * epoch.rate)
        by (nonlinear_arith);
    vstd::arithmetic::div_mod::lemma_hoist_over_denominator(
        (epoch.accounted * NANOS as nat) as int,
        NANOS as int,
        epoch.rate,
    );
}

/// Law: a change of rate loses no time. The replacement's accounting begins exactly where the old
/// one's ended, before the frames that were discarded, so that these and the interval between the
/// devices are owed and the gap filler covers them.
pub proof fn law_interval_between_devices_is_owed(
    epoch: EpochView,
    rate: nat,
    discarded: nat,
    now: nat,
)
    requires
        epoch.valid(),
        rate > 0,
        discarded <= epoch.accounted,
        epoch.covered_without(discarded) <= u64::MAX,
    ensures
        epoch.succeeded_by(rate, discarded).covered_until() == epoch.covered_without(discarded),
        epoch.succeeded_by(rate, discarded).deficit(now) == (now - epoch.covered_without(discarded)
            - GAP_TOLERANCE_NS) * rate,
        epoch.covered_without(0) == epoch.covered_until(),
{
    assert(0nat * NANOS as nat == 0);
    assert(0nat / rate == 0) by (nonlinear_arith)
        requires
            rate > 0,
    ;
    lemma_split(now - epoch.covered_without(discarded), GAP_TOLERANCE_NS as int, rate as int);
}

/// A floor times its divisor is at most the dividend, and less than one divisor short of it.
proof fn lemma_times_floor(x: int, d: int)
    requires
        d > 0,
    ensures
        (x / d) * d <= x < (x / d) * d + d,
{
    vstd::arithmetic::div_mod::lemma_fundamental_div_mod(x, d);
    vstd::arithmetic::mul::lemma_mul_is_commutative(d, x / d);
}

proof fn lemma_split(a: int, b: int, rate: int)
    ensures
        (a - b) * rate == a * rate - rate * b,
{
    assert((a - b) * rate == a * rate - rate * b) by (nonlinear_arith);
}

/// Law: the clock runs at the rate. Every nanosecond owes as many billionths of a frame as the rate
/// has frames, every frame that arrives or is made up pays one frame, and a new epoch owes nothing
/// a quarter of a second after it began.
pub proof fn law_owed_time_runs_at_the_rate(epoch: EpochView, now: nat, frames: nat)
    ensures
        epoch.deficit(now + 1) == epoch.deficit(now) + epoch.rate,
        epoch.received(frames).deficit(now) == epoch.deficit(now) - frames * 1_000_000_000,
        epoch.filled(frames).deficit(now) == epoch.deficit(now) - frames * 1_000_000_000,
        EpochView::fresh(epoch.rate, now).deficit(now + 250_000_000) == 0,
{
    assert((now + 1 - epoch.started) * epoch.rate == (now - epoch.started) * epoch.rate
        + epoch.rate) by (nonlinear_arith);
    assert((epoch.accounted + frames) * 1_000_000_000 == epoch.accounted * 1_000_000_000 + frames
        * 1_000_000_000) by (nonlinear_arith);
    assert(250_000_000 * epoch.rate == epoch.rate * 250_000_000) by (nonlinear_arith);
}

/// Law: the shortfall is the whole frames owed. Less than one frame owes none, more than a second's
/// worth is cut to a second's worth, and between the two it is what is owed to within one frame.
pub proof fn law_shortfall_is_the_whole_frames_owed(epoch: EpochView, now: nat)
    requires
        epoch.rate > 0,
    ensures
        ({
            let (owed, n) = (epoch.deficit(now), epoch.shortfall(now));
            &&& owed < 1_000_000_000 ==> n == 0
            &&& owed >= epoch.rate * 1_000_000_000 ==> n == epoch.rate
            &&& 0 <= owed < epoch.rate * 1_000_000_000 ==> n * 1_000_000_000 <= owed < (n + 1)
                * 1_000_000_000
        }),
{
}

/// Law: counting is exact. What arrives and what is made up is counted frame for frame, only what
/// is made up counts as such, and neither the rate nor the beginning moves.
pub proof fn law_frames_are_counted_exactly(epoch: EpochView, frames: nat)
    ensures
        epoch.received(frames) == (EpochView { accounted: epoch.accounted + frames, ..epoch }),
        epoch.filled(frames) == (EpochView {
            accounted: epoch.accounted + frames,
            synthesised: epoch.synthesised + frames,
            ..epoch
        }),
{
}

/// Law: the accounting reaches as far as its frames last, to the nanosecond.
pub proof fn law_frames_cover_their_time(epoch: EpochView, frames: nat)
    requires
        epoch.rate > 0,
        frames <= epoch.accounted,
    ensures
        ({
            let span = epoch.covered_until() - epoch.started;
            span * epoch.rate <= epoch.accounted * 1_000_000_000 < (span + 1) * epoch.rate
        }),
        ({
            let span = epoch.covered_without(frames) - epoch.started;
            span * epoch.rate <= (epoch.accounted - frames) * 1_000_000_000 < (span + 1)
                * epoch.rate
        }),
{
    let rate = epoch.rate as int;
    let (all, part) = (
        (epoch.accounted * NANOS) as int,
        ((epoch.accounted - frames) * NANOS) as int,
    );
    lemma_times_floor(all, rate);
    lemma_times_floor(part, rate);
    assert((all / rate + 1) * rate == (all / rate) * rate + rate) by (nonlinear_arith);
    assert((part / rate + 1) * rate == (part / rate) * rate + rate) by (nonlinear_arith);
}

/// Law: a replacement's epoch begins with nothing counted, at its own rate, where the old one's
/// accounting ended, or at the last instant there is when that lies beyond it.
pub proof fn law_successor_begins_afresh(epoch: EpochView, rate: nat, discarded: nat)
    ensures
        ({
            let after = epoch.succeeded_by(rate, discarded);
            let ended = epoch.covered_without(discarded);
            &&& ended <= 0xffff_ffff_ffff_ffff ==> after.started == ended
            &&& ended > 0xffff_ffff_ffff_ffff ==> after.started == 0xffff_ffff_ffff_ffff
            &&& after == (EpochView { accounted: 0, synthesised: 0, rate, ..after })
        }),
        EpochView::fresh(rate, discarded) == (EpochView {
            started: discarded,
            accounted: 0,
            synthesised: 0,
            rate,
        }),
{
}

/// Law: silence lasts as long at another rate, to within one frame.
pub proof fn law_silence_lasts_as_long_at_another_rate(epoch: EpochView, at: nat)
    requires
        epoch.rate > 0,
    ensures
        epoch.silence_at(at) * epoch.rate <= epoch.synthesised * at < (epoch.silence_at(at) + 1)
            * epoch.rate,
{
    let (x, rate) = ((epoch.synthesised * at) as int, epoch.rate as int);
    lemma_times_floor(x, rate);
    assert((x / rate + 1) * rate == (x / rate) * rate + rate) by (nonlinear_arith);
}

} // verus!
