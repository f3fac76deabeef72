//! Time-addressed retention ring for mono `i16` samples at the target rate.
//!
//! Allocated once at a ceiling and never grown. The retention is an adjustable window inside
//! that ceiling, so resizing history costs an assignment.
use vstd::prelude::*;

verus! {

/// Default allocation ceiling, in seconds. Mono `i16` at 16 kHz is about 1.92 MB a minute, so an
/// hour is about 115 MB of address space.
pub const DEFAULT_CEILING_SECS: u32 = 60 * 60;

/// The last `n` elements of `s`, or all of it when it is shorter.
pub open spec fn tail(s: Seq<i16>, n: nat) -> Seq<i16> {
    if s.len() <= n {
        s
    } else {
        s.subrange(s.len() - n, s.len() as int)
    }
}

/// The part of `s` between `start` and `end`, both clamped to its length; empty when the
/// clamped end does not lie behind the clamped start.
pub open spec fn clip(s: Seq<i16>, start: nat, end: nat) -> Seq<i16> {
    let from = if start < s.len() { start } else { s.len() };
    let to = if end < s.len() { end } else { s.len() };
    if to <= from {
        Seq::empty()
    } else {
        s.subrange(from as int, to as int)
    }
}

/// The smallest element of a non-empty sequence.
pub open spec fn lowest(s: Seq<i16>) -> i16
    decreases s.len(),
{
    if s.len() <= 1 {
        s[0]
    } else {
        let rest = lowest(s.drop_last());
        if s.last() < rest {
            s.last()
        } else {
            rest
        }
    }
}

/// The largest element of a non-empty sequence.
pub open spec fn highest(s: Seq<i16>) -> i16
    decreases s.len(),
{
    if s.len() <= 1 {
        s[0]
    } else {
        let rest = highest(s.drop_last());
        if s.last() > rest {
            s.last()
        } else {
            rest
        }
    }
}

/// First frame of bucket `b` when `window` frames are spread over `buckets` buckets.
pub open spec fn bucket_from(b: int, buckets: int, window: int) -> int {
    (b * window) / buckets
}

/// One past the last frame of bucket `b`: where the next bucket begins, but never an empty range.
pub open spec fn bucket_to(b: int, buckets: int, window: int) -> int {
    let from = bucket_from(b, buckets, window);
    let next = ((b + 1) * window) / buckets;
    let to = if next > from + 1 {
        next
    } else {
        from + 1
    };
    if to < window {
        to
    } else {
        window
    }
}

/// The frames of `window` that bucket `b` of `buckets` covers.
pub open spec fn bucket(window: Seq<i16>, buckets: nat, b: int) -> Seq<i16> {
    window.subrange(
        bucket_from(b, buckets as int, window.len() as int),
        bucket_to(b, buckets as int, window.len() as int),
    )
}

/// Lower bound drawn for bucket `b`. An empty window is flat.
pub open spec fn bucket_low(window: Seq<i16>, buckets: nat, b: int) -> i16 {
    if window.len() == 0 {
        0
    } else {
        lowest(bucket(window, buckets, b))
    }
}

/// Upper bound drawn for bucket `b`. An empty window is flat.
pub open spec fn bucket_high(window: Seq<i16>, buckets: nat, b: int) -> i16 {
    if window.len() == 0 {
        0
    } else {
        highest(bucket(window, buckets, b))
    }
}

/// The sample of frame `i` lies between the bounds drawn for bucket `b`.
pub open spec fn brackets(window: Seq<i16>, buckets: nat, b: int, i: int) -> bool {
    &&& 0 <= b < buckets
    &&& bucket_low(window, buckets, b) <= window[i]
    &&& window[i] <= bucket_high(window, buckets, b)
}

/// The sample of frame `i` lies between the bounds drawn for some bucket.
pub open spec fn bracketed(window: Seq<i16>, buckets: nat, i: int) -> bool {
    exists|b: int| #[trigger] brackets(window, buckets, b, i)
}

/// Waveform envelope of `window` in `buckets` buckets, interleaved as `[min0, max0, min1, ...]`.
pub open spec fn envelope(window: Seq<i16>, buckets: nat) -> Seq<i16> {
    Seq::new(
        2 * buckets,
        |k: int|
            if k % 2 == 0 {
                bucket_low(window, buckets, k / 2)
            } else {
                bucket_high(window, buckets, k / 2)
            },
    )
}

/// What a ring holds, as mathematics: the frames physically present, oldest first, and the
/// limits they live under.
#[verifier::ext_equal]
pub struct RingView {
    pub rate: nat,
    pub capacity: nat,
    pub retention: nat,
    pub history: Seq<i16>,
}

impl RingView {
    /// The limits that every ring keeps.
    pub open spec fn valid(self) -> bool {
        &&& 1 <= self.retention <= self.capacity
        &&& self.history.len() <= self.capacity
    }

    /// An empty ring with the given limits.
    pub open spec fn empty(rate: nat, ceiling: nat, retention: nat) -> Self {
        let capacity = if ceiling < 1 { 1 } else { ceiling };
        RingView { rate, capacity, retention: 1, history: Seq::empty() }.with_retention(retention)
    }

    /// The frames exposed: everything held, capped by the retention.
    pub open spec fn window(self) -> Seq<i16> {
        tail(self.history, self.retention)
    }

    /// Appends samples and forgets what no longer fits the capacity, oldest first.
    pub open spec fn pushed(self, samples: Seq<i16>) -> Self {
        RingView { history: tail(self.history + samples, self.capacity), ..self }
    }

    /// Sets the retention, clamped to what the ring can hold.
    pub open spec fn with_retention(self, frames: nat) -> Self {
        let retention = if frames < 1 {
            1
        } else if frames > self.capacity {
            self.capacity
        } else {
            frames
        };
        RingView { retention, ..self }
    }

    /// Forgets everything held.
    pub open spec fn cleared(self) -> Self {
        RingView { history: Seq::empty(), ..self }
    }

    /// Length of `frames` frames in whole milliseconds. A rate of zero counts as one.
    pub open spec fn millis(self, frames: nat) -> nat {
        let rate = if self.rate < 1 { 1 } else { self.rate };
        (frames * 1000) / rate
    }

    /// Whole frames that fit into `ms` milliseconds.
    pub open spec fn frames(self, ms: nat) -> nat {
        (ms * self.rate) / 1000
    }
}

/// A ring of the newest mono samples. Offsets into it run from the oldest frame exposed.
pub struct RetentionRing {
    buf: Vec<i16>,
    /// Frames the ring can physically hold. Fixed for the ring's life.
    capacity: usize,
    /// Frames to expose. Adjustable at runtime.
    retention: usize,
    /// Next write index.
    write: usize,
    /// Frames physically written, saturating at `capacity`.
    filled: usize,
    rate: u32,
}

/// Physical index of the position `p`, which may lie up to one lap before the first slot.
spec fn slot(p: int, capacity: int) -> int {
    if p < 0 {
        p + capacity
    } else {
        p
    }
}

impl View for RetentionRing {
    type V = RingView;

    closed spec fn view(&self) -> RingView {
        RingView {
            rate: self.rate as nat,
            capacity: self.capacity as nat,
            retention: self.retention as nat,
            history: Seq::new(
                self.filled as nat,
                |i: int| self.buf@[slot(self.write - self.filled + i, self.capacity as int)],
            ),
        }
    }
}

impl RetentionRing {
    /// The ring's invariant.
    pub closed spec fn wf(self) -> bool {
        &&& self.buf@.len() == self.capacity
        &&& 1 <= self.retention <= self.capacity
        &&& self.capacity <= isize::MAX / 2
        &&& self.write < self.capacity
        &&& self.filled <= self.capacity
    }

    /// Every well-formed ring keeps the limits of its view.
    pub proof fn lemma_wf_valid(self)
        requires
            self.wf(),
        ensures
            self@.valid(),
            self@.rate <= u32::MAX,
            2 * self@.capacity <= isize::MAX,
    {
    }

    /// An empty ring. The ceiling is at least one frame; the retention is clamped to it.
    pub fn new(rate: u32, ceiling_frames: usize, retention_frames: usize) -> (ring: Self)
        requires
            2 * ceiling_frames <= isize::MAX,
        ensures
            ring.wf(),
            ring@ == RingView::empty(rate as nat, ceiling_frames as nat, retention_frames as nat),
    {
        let capacity: usize = if ceiling_frames < 1 { 1 } else { ceiling_frames };
        let retention: usize = if retention_frames < 1 {
            1
        } else if retention_frames > capacity {
            capacity
        } else {
            retention_frames
        };
        let ring = Self { buf: vec![0; capacity], capacity, retention, write: 0, filled: 0, rate };
        assert(ring@.history =~= Seq::empty());
        ring
    }

    pub fn rate(&self) -> (rate: u32)
        ensures
            rate == self@.rate,
    {
        self.rate
    }

    /// Changes how many frames are exposed, within what the ring can hold.
    pub fn set_retention_frames(&mut self, frames: usize)
        requires
            old(self).wf(),
        ensures
            final(self).wf(),
            final(self)@ == old(self)@.with_retention(frames as nat),
    {
        self.retention = if frames < 1 {
            1
        } else if frames > self.capacity {
            self.capacity
        } else {
            frames
        };
        assert(self@.history =~= old(self)@.history);
    }

    pub fn retention_frames(&self) -> (frames: usize)
        ensures
            frames == self@.retention,
    {
        self.retention
    }

    /// Frames visible: everything written, capped by retention. Lowering retention hides older
    /// frames without discarding them.
    pub fn window_frames(&self) -> (frames: usize)
        ensures
            frames == self@.window().len(),
    {
        if self.filled < self.retention {
            self.filled
        } else {
            self.retention
        }
    }

    /// Length of the visible window in milliseconds, reduced to the width of the result.
    pub fn window_ms(&self) -> (ms: u32)
        ensures
            ms == self@.millis(self@.window().len()) as u32,
    {
        let rate: u32 = if self.rate < 1 { 1 } else { self.rate };
        let frames: u128 = self.window_frames() as u128;
        #[verifier::truncate] (((frames * 1000) / rate as u128) as u32)
    }

    /// Appends samples, overwriting the oldest. A push larger than the ring leaves only its own
    /// newest part.
    pub fn push(&mut self, samples: &[i16])
        requires
            old(self).wf(),
        ensures
            final(self).wf(),
            final(self)@ == old(self)@.pushed(samples@),
    {
        let capacity: usize = self.capacity;
        let skip: usize = if samples.len() > capacity { samples.len() - capacity } else { 0 };
        let count: usize = samples.len() - skip;
        let start: usize = self.write;

        let mut i: usize = 0;
        while i < count
            invariant
                i <= count <= capacity,
                skip + count == samples.len(),
                start < capacity,
                2 * capacity <= isize::MAX,
                self.buf@.len() == capacity,
                self.capacity == capacity,
                self.retention == old(self).retention,
                self.write == old(self).write,
                self.filled == old(self).filled,
                self.rate == old(self).rate,
                forall|p: int|
                    0 <= p < capacity ==> {
                        let d = slot(p - start, capacity as int);
                        #[trigger] self.buf@[p] == if d < i {
                            samples@[skip + d]
                        } else {
                            old(self).buf@[p]
                        }
                    },
            decreases count - i,
        {
            let ahead: usize = start + i;
            let at: usize = if ahead < capacity { ahead } else { ahead - capacity };
            self.buf.set(at, samples[skip + i]);
            i += 1;
        }

        let ahead: usize = start + count;
        self.write = if ahead < capacity { ahead } else { ahead - capacity };
        let total: usize = self.filled + count;
        self.filled = if total < capacity { total } else { capacity };

        proof {
            let before = old(self)@;
            let all = before.history + samples@;
            let expected = before.pushed(samples@).history;
            assert(self@.history.len() == expected.len());
            assert forall|j: int| 0 <= j < expected.len() implies self@.history[j] == expected[j] by {
                // Position of frame `j` among everything ever offered.
                let k = j + all.len() - expected.len();
                assert(expected[j] == all[k]);
                let p = slot(self.write - self.filled + j, capacity as int);
                let d = slot(p - start, capacity as int);
                assert(self.buf@[p] == if d < count {
                    samples@[skip + d]
                } else {
                    old(self).buf@[p]
                });
            }
            assert(self@.history =~= expected);
        }
    }

    /// Index of the oldest visible frame.
    fn window_start(&self) -> (start: usize)
        requires
            self.wf(),
        ensures
            start == slot(self.write - self@.window().len(), self.capacity as int),
    {
        let window: usize = self.window_frames();
        if self.write < window {
            self.write + self.capacity - window
        } else {
            self.write - window
        }
    }

    /// The frame at offset `i` of the visible window that begins at the slot `base`.
    fn frame(&self, base: usize, i: usize) -> (sample: i16)
        requires
            self.wf(),
            base == slot(self.write - self@.window().len(), self.capacity as int),
            i < self@.window().len(),
        ensures
            sample == self@.window()[i as int],
    {
        let ahead: usize = base + i;
        let at: usize = if ahead < self.capacity { ahead } else { ahead - self.capacity };
        self.buf[at]
    }

    /// Copies a frame range out. Offsets are relative to the oldest visible frame and clamp.
    pub fn read_frames(&self, start: usize, end: usize) -> (out: Vec<i16>)
        requires
            self.wf(),
        ensures
            out@ == clip(self@.window(), start as nat, end as nat),
    {
        let window: usize = self.window_frames();
        let from: usize = if start < window { start } else { window };
        let to: usize = if end < window { end } else { window };
        if to <= from {
            return Vec::new();
        }
        let mut out: Vec<i16> = Vec::with_capacity(to - from);
        let base: usize = self.window_start();
        let mut i: usize = from;
        while i < to
            invariant
                self.wf(),
                from <= i <= to <= self@.window().len(),
                base == slot(self.write - self@.window().len(), self.capacity as int),
                out@ == self@.window().subrange(from as int, i as int),
            decreases to - i,
        {
            let sample: i16 = self.frame(base, i);
            out.push(sample);
            i += 1;
        }
        out
    }

    /// Whole frames in `ms` milliseconds, as far as the machine's word reaches.
    pub fn ms_to_frames(&self, ms: u32) -> (frames: usize)
        ensures
            frames == if self@.frames(ms as nat) <= usize::MAX {
                self@.frames(ms as nat)
            } else {
                usize::MAX as nat
            },
    {
        assert(ms * self.rate <= u32::MAX * u32::MAX) by (nonlinear_arith)
            requires
                ms <= u32::MAX,
                self.rate <= u32::MAX,
        ;
        let frames: u64 = (ms as u64 * self.rate as u64) / 1000;
        if frames <= usize::MAX as u64 {
            frames as usize
        } else {
            usize::MAX
        }
    }

    /// Smallest and largest sample of the visible window between the frames `from` and `to`.
    fn extent(&self, base: usize, from: usize, to: usize) -> (range: (i16, i16))
        requires
            self.wf(),
            base == slot(self.write - self@.window().len(), self.capacity as int),
            from < to <= self@.window().len(),
        ensures
            range.0 == lowest(self@.window().subrange(from as int, to as int)),
            range.1 == highest(self@.window().subrange(from as int, to as int)),
    {
        let first: i16 = self.frame(base, from);
        let mut lo: i16 = first;
        let mut hi: i16 = first;
        let mut i: usize = from + 1;
        while i < to
            invariant
                self.wf(),
                base == slot(self.write - self@.window().len(), self.capacity as int),
                from < i <= to <= self@.window().len(),
                lo == lowest(self@.window().subrange(from as int, i as int)),
                hi == highest(self@.window().subrange(from as int, i as int)),
            decreases to - i,
        {
            let sample: i16 = self.frame(base, i);
            assert(self@.window().subrange(from as int, i + 1).drop_last()
                =~= self@.window().subrange(from as int, i as int));
            if sample < lo {
                lo = sample;
            }
            if sample > hi {
                hi = sample;
            }
            i += 1;
        }
        (lo, hi)
    }

    /// Smallest and largest sample per bucket over the visible window, interleaved as
    /// `[min0, max0, min1, max1, ...]`, in units of 1/32768 of full scale: dividing by 32768
    /// maps both bounds of `i16` into -1..=1. No buckets counts as one bucket.
    pub fn peaks(&self, buckets: usize) -> (out: Vec<i16>)
        requires
            self.wf(),
            2 * buckets <= usize::MAX,
            buckets * self@.window().len() <= usize::MAX,
        ensures
            out@ == envelope(self@.window(), if buckets < 1 { 1 } else { buckets as nat }),
    {
        let buckets: usize = if buckets < 1 { 1 } else { buckets };
        let window: usize = self.window_frames();
        if window == 0 {
            let out: Vec<i16> = vec![0; buckets * 2];
            assert(out@ =~= envelope(self@.window(), buckets as nat));
            return out;
        }
        let mut out: Vec<i16> = Vec::with_capacity(buckets * 2);
        let base: usize = self.window_start();
        let mut b: usize = 0;
        while b < buckets
            invariant
                self.wf(),
                0 < window == self@.window().len(),
                b <= buckets,
                1 <= buckets,
                2 * buckets <= usize::MAX,
                buckets * window <= usize::MAX,
                base == slot(self.write - self@.window().len(), self.capacity as int),
                out@ == envelope(self@.window(), buckets as nat).subrange(0, 2 * b as int),
            decreases buckets - b,
        {
            proof {
                lemma_bucket_range(b as int, buckets as int, window as int);
            }
            let from: usize = (b * window) / buckets;
            let next: usize = ((b + 1) * window) / buckets;
            let past: usize = if next > from + 1 { next } else { from + 1 };
            let to: usize = if past < window { past } else { window };
            let (lo, hi) = self.extent(base, from, to);
            out.push(lo);
            out.push(hi);
            assert(out@ =~= envelope(self@.window(), buckets as nat).subrange(0, 2 * (b + 1)));
            b += 1;
        }
        assert(out@ =~= envelope(self@.window(), buckets as nat));
        out
    }

    /// Forgets the contents. The allocation and the retention stay.
    pub fn clear(&mut self)
        requires
            old(self).wf(),
        ensures
            final(self).wf(),
            final(self)@ == old(self)@.cleared(),
    {
        self.write = 0;
        self.filled = 0;
        assert(self@.history =~= Seq::empty());
    }
}

/// A bucket covers at least one frame, lies inside the window, and its bounds are computed
/// without leaving the range of `buckets * window`.
proof fn lemma_bucket_range(b: int, buckets: int, window: int)
    requires
        0 <= b < buckets,
        0 < window,
    ensures
        0 <= b * window <= (b + 1) * window <= buckets * window,
        0 <= bucket_from(b, buckets, window) < bucket_to(b, buckets, window) <= window,
        bucket_from(b, buckets, window) <= bucket_from(b + 1, buckets, window) <= window,
        b + 1 < buckets ==> bucket_from(b + 1, buckets, window) < window,
{
    assert(0 <= b * window <= (b + 1) * window <= buckets * window) by (nonlinear_arith)
        requires
            0 <= b < buckets,
            0 < window,
    ;
    assert((b * window) / buckets < window) by (nonlinear_arith)
        requires
            0 <= b < buckets,
            0 < window,
    ;
    assert(((b + 1) * window) / buckets <= window) by (nonlinear_arith)
        requires
            0 <= b < buckets,
            0 < window,
    ;
    assert(0 <= (b * window) / buckets <= ((b + 1) * window) / buckets) by (nonlinear_arith)
        requires
            0 <= b < buckets,
            0 < window,
    ;
    if b + 1 < buckets {
        assert(((b + 1) * window) / buckets < window) by (nonlinear_arith)
            requires
                0 <= b + 1 < buckets,
                0 < window,
        ;
    }
}

/// Law: however a stream of samples is cut into pushes, the ring holds the same in the end.
pub proof fn law_push_in_pieces(ring: RingView, a: Seq<i16>, b: Seq<i16>)
    requires
        ring.valid(),
    ensures
        ring.pushed(a).pushed(b) == ring.pushed(a + b),
{
    assert(ring.pushed(a).pushed(b).history =~= ring.pushed(a + b).history);
}

/// Law: what was just pushed is read back from the end of the window, sample for sample; of a
/// push longer than the retention, its newest part is the whole window.
pub proof fn law_push_then_read(ring: RingView, samples: Seq<i16>)
    requires
        ring.valid(),
    ensures
        ({
            let window = ring.pushed(samples).window();
            if samples.len() <= ring.retention {
                &&& samples.len() <= window.len()
                &&& clip(window, (window.len() - samples.len()) as nat, window.len()) == samples
            } else {
                window == tail(samples, ring.retention)
            }
        }),
{
    let window = ring.pushed(samples).window();
    if samples.len() <= ring.retention {
        assert(clip(window, (window.len() - samples.len()) as nat, window.len()) =~= samples);
    } else {
        assert(window =~= tail(samples, ring.retention));
    }
}

/// Law: a push leaves the older frames that stay visible in place: the window is the end of the
/// old window followed by the new samples.
pub proof fn law_push_keeps_older_frames(ring: RingView, samples: Seq<i16>)
    requires
        ring.valid(),
    ensures
        ring.pushed(samples).window() == tail(ring.window() + samples, ring.retention),
{
    assert(ring.pushed(samples).window() =~= tail(ring.window() + samples, ring.retention));
}

/// Law: lowering the retention only hides. The shorter window is the end of the longer one, and
/// raising the retention back reveals whatever is still physically held.
pub proof fn law_retention_hides_and_reveals(ring: RingView, low: nat, high: nat)
    requires
        ring.valid(),
        low <= high,
    ensures
        ring.with_retention(low).with_retention(high) == ring.with_retention(high),
        ring.with_retention(low).history == ring.history,
        ring.with_retention(low).window() == tail(
            ring.with_retention(high).window(),
            ring.with_retention(low).retention,
        ),
        ring.with_retention(ring.capacity).window() == ring.history,
{
    assert(ring.with_retention(low).window() =~= tail(
        ring.with_retention(high).window(),
        ring.with_retention(low).retention,
    ));
}

/// Law: no operation moves the rate or the ceiling, none leaves the limits, and only a change of
/// retention changes the retention.
pub proof fn law_limits_are_kept(ring: RingView, samples: Seq<i16>, frames: nat)
    requires
        ring.valid(),
    ensures
        ring.pushed(samples).valid(),
        ring.with_retention(frames).valid(),
        ring.cleared().valid(),
        ring.pushed(samples).capacity == ring.capacity,
        ring.with_retention(frames).capacity == ring.capacity,
        ring.cleared().capacity == ring.capacity,
        ring.pushed(samples).rate == ring.rate,
        ring.with_retention(frames).rate == ring.rate,
        ring.cleared().rate == ring.rate,
        ring.pushed(samples).retention == ring.retention,
        ring.cleared().retention == ring.retention,
        ring.cleared().window().len() == 0,
{
}

/// Law: reads are contiguous. Two reads that meet give the same frames as one read across both.
pub proof fn law_adjacent_reads_join(ring: RingView, start: nat, middle: nat, end: nat)
    requires
        start <= middle <= end,
    ensures
        clip(ring.window(), start, middle) + clip(ring.window(), middle, end) == clip(
            ring.window(),
            start,
            end,
        ),
{
    assert(clip(ring.window(), start, middle) + clip(ring.window(), middle, end) =~= clip(
        ring.window(),
        start,
        end,
    ));
}

/// Law: offsets past the end clamp. A read from offset zero that reaches past the end gives the
/// whole window, and one that starts there gives nothing.
pub proof fn law_reads_clamp(ring: RingView, start: nat, end: nat)
    requires
        end >= ring.window().len(),
    ensures
        clip(ring.window(), 0, end) == ring.window(),
        clip(ring.window(), start, end) == clip(ring.window(), start, ring.window().len()),
        clip(ring.window(), end, start).len() == 0,
{
    assert(clip(ring.window(), 0, end) =~= ring.window());
}

/// Law: the length in milliseconds, taken as an offset, addresses the end of the window: never
/// past it, and short of it by less than one millisecond and one frame.
pub proof fn law_filled_ms_addresses_the_end(ring: RingView, frames: nat)
    requires
        ring.rate > 0,
    ensures
        ring.frames(ring.millis(frames)) <= frames,
        1000 * (frames - ring.frames(ring.millis(frames)) - 1) < ring.rate,
{
    let rate = ring.rate as int;
    let ms = ring.millis(frames) as int;
    vstd::arithmetic::div_mod::lemma_fundamental_div_mod((frames * 1000) as int, rate);
    vstd::arithmetic::mul::lemma_mul_is_commutative(rate, ms);
    let product = ms * rate;
    assert(frames * 1000 - rate < product <= frames * 1000);
}

/// Law: the smallest and largest element of a non-empty sequence occur in it and bound it.
pub proof fn law_extremes(s: Seq<i16>)
    requires
        s.len() > 0,
    ensures
        s.contains(lowest(s)),
        s.contains(highest(s)),
        forall|i: int| 0 <= i < s.len() ==> lowest(s) <= #[trigger] s[i] <= highest(s),
    decreases s.len(),
{
    if s.len() == 1 {
        assert(s[0] == lowest(s));
    } else {
        let rest = s.drop_last();
        law_extremes(rest);
        let lo = choose|i: int| 0 <= i < rest.len() && rest[i] == lowest(rest);
        let hi = choose|i: int| 0 <= i < rest.len() && rest[i] == highest(rest);
        assert(s[lo] == lowest(rest));
        assert(s[hi] == highest(rest));
        assert(s[s.len() - 1] == s.last());
        assert forall|i: int| 0 <= i < s.len() implies lowest(s) <= #[trigger] s[i] <= highest(s) by {
            if i < rest.len() {
                assert(rest[i] == s[i]);
            }
        }
    }
}

/// With at least as many buckets as frames, one of them begins at frame `i`.
proof fn lemma_own_bucket(i: int, buckets: int, window: int) -> (c: int)
    requires
        0 <= i < window <= buckets,
    ensures
        0 <= c < buckets,
        bucket_from(c, buckets, window) == i,
{
    let c = (i * buckets + window - 1) / window;
    vstd::arithmetic::div_mod::lemma_fundamental_div_mod(i * buckets + window - 1, window);
    vstd::arithmetic::mul::lemma_mul_is_commutative(window, c);
    let at = c * window;
    assert(i * buckets <= at < i * buckets + window);
    assert(0 <= i * buckets <= (window - 1) * buckets) by (nonlinear_arith)
        requires
            0 <= i <= window - 1,
            0 < buckets,
    ;
    assert((window - 1) * buckets == window * buckets - buckets) by (nonlinear_arith);
    assert(0 <= c < buckets) by (nonlinear_arith)
        requires
            0 <= c * window < window * buckets,
            window > 0,
    ;
    assert((i + 1) * buckets == i * buckets + buckets) by (nonlinear_arith);
    assert(at / buckets == i) by (nonlinear_arith)
        requires
            i * buckets <= at < (i + 1) * buckets,
            buckets > 0,
    ;
    c
}

/// Finds the bucket among the first `b` that covers frame `i`.
proof fn lemma_covering_bucket(i: int, b: int, buckets: int, window: int) -> (c: int)
    requires
        0 < window,
        0 <= b <= buckets,
        0 < buckets <= window,
        0 <= i < bucket_from(b, buckets, window),
    ensures
        0 <= c < b,
        bucket_from(c, buckets, window) <= i < bucket_to(c, buckets, window),
    decreases b,
{
    assert(bucket_from(0, buckets, window) == 0) by (nonlinear_arith)
        requires
            buckets > 0,
    ;
    let prev = b - 1;
    lemma_bucket_range(prev, buckets, window);
    if bucket_from(prev, buckets, window) <= i {
        prev
    } else {
        lemma_covering_bucket(i, prev, buckets, window)
    }
}

/// Law: the envelope brackets the signal. The bounds of a bucket are samples of the window, the
/// lower one no larger than the upper one, and every frame lies inside the bounds of some bucket.
pub proof fn law_peaks_bracket_signal(window: Seq<i16>, buckets: nat)
    requires
        window.len() > 0,
        buckets > 0,
    ensures
        forall|b: int|
            #![trigger bucket_low(window, buckets, b)]
            #![trigger bucket_high(window, buckets, b)]
            0 <= b < buckets ==> {
                &&& bucket_low(window, buckets, b) <= bucket_high(window, buckets, b)
                &&& window.contains(bucket_low(window, buckets, b))
                &&& window.contains(bucket_high(window, buckets, b))
            },
        forall|i: int| 0 <= i < window.len() ==> #[trigger] bracketed(window, buckets, i),
{
    let n = window.len() as int;
    assert forall|b: int|
        #![trigger bucket_low(window, buckets, b)]
        #![trigger bucket_high(window, buckets, b)]
        0 <= b < buckets implies {
        &&& bucket_low(window, buckets, b) <= bucket_high(window, buckets, b)
        &&& window.contains(bucket_low(window, buckets, b))
        &&& window.contains(bucket_high(window, buckets, b))
    } by {
        lemma_bucket_range(b, buckets as int, n);
        let from = bucket_from(b, buckets as int, n);
        let part = bucket(window, buckets, b);
        law_extremes(part);
        let lo = choose|i: int| 0 <= i < part.len() && part[i] == lowest(part);
        let hi = choose|i: int| 0 <= i < part.len() && part[i] == highest(part);
        assert(lowest(part) <= part[lo] <= highest(part));
        assert(window[from + lo] == lowest(part));
        assert(window[from + hi] == highest(part));
    }
    assert forall|i: int| 0 <= i < n implies #[trigger] bracketed(window, buckets, i) by {
        assert(bucket_from(buckets as int, buckets as int, n) == n) by (nonlinear_arith)
            requires
                buckets > 0,
        ;
        let b = if buckets <= n {
            lemma_covering_bucket(i, buckets as int, buckets as int, n)
        } else {
            lemma_own_bucket(i, buckets as int, n)
        };
        let from = bucket_from(b, buckets as int, n);
        lemma_bucket_range(b, buckets as int, n);
        let part = bucket(window, buckets, b);
        law_extremes(part);
        assert(part[i - from] == window[i]);
        assert(brackets(window, buckets, b, i));
    }
}

/// Law: a window that holds nothing is drawn flat.
pub proof fn law_empty_peaks_are_flat(buckets: nat)
    ensures
        envelope(Seq::empty(), buckets) == Seq::new(2 * buckets, |k: int| 0i16),
{
    assert(envelope(Seq::empty(), buckets) =~= Seq::new(2 * buckets, |k: int| 0i16));
}

/// Law: a read gives the frames of its range and nothing else. It is as long as the range is after
/// both offsets are cut to what is held, and its frame `i` is the frame `i` behind the start.
pub proof fn law_reads_are_exact(window: Seq<i16>, start: nat, end: nat, i: int)
    ensures
        ({
            let n = window.len() as int;
            let from = if start < n {
                start as int
            } else {
                n
            };
            let to = if end < n {
                end as int
            } else {
                n
            };
            let read = clip(window, start, end);
            &&& read.len() == if from < to {
                to - from
            } else {
                0
            }
            &&& 0 <= i < to - from ==> read[i] == window[from + i]
        }),
{
}

/// Law: the window shows the newest frames. It is as long as the retention, or as what is held when
/// that is shorter, and counted from the end it is the history.
pub proof fn law_window_shows_the_newest(ring: RingView, k: int)
    ensures
        ({
            let (held, shown) = (ring.history.len(), ring.window().len());
            &&& shown == if held < ring.retention {
                held
            } else {
                ring.retention
            }
            &&& 0 <= k < shown ==> ring.window()[shown - 1 - k] == ring.history[held - 1 - k]
        }),
{
}

/// Law: a push appends and forgets only from the front, only what exceeds the capacity. Counted
/// from the end, the ring holds the pushed samples and then what it held before.
pub proof fn law_push_appends(ring: RingView, samples: Seq<i16>, k: int)
    ensures
        ({
            let after = ring.pushed(samples);
            let (old_len, new_len) = (ring.history.len(), after.history.len());
            let offered = old_len + samples.len();
            &&& new_len == if offered < ring.capacity {
                offered
            } else {
                ring.capacity
            }
            &&& 0 <= k < new_len ==> after.history[new_len - 1 - k] == if k < samples.len() {
                samples[samples.len() - 1 - k]
            } else {
                ring.history[old_len - 1 - (k - samples.len())]
            }
            &&& after == (RingView { history: after.history, ..ring })
        }),
{
}

/// Law: the last `n` frames of a sequence are its end, frame for frame.
pub proof fn law_tail_is_the_end(frames: Seq<i16>, n: nat, k: int)
    ensures
        ({
            let end = tail(frames, n);
            &&& end.len() == if frames.len() < n {
                frames.len()
            } else {
                n
            }
            &&& 0 <= k < end.len() ==> end[end.len() - 1 - k] == frames[frames.len() - 1 - k]
        }),
{
}

/// Law: a retention within the ceiling is taken as given. Less than a frame counts as one, more
/// than the ceiling as the ceiling, and nothing else changes.
pub proof fn law_retention_is_taken_as_given(ring: RingView, frames: nat)
    requires
        ring.capacity >= 1,
    ensures
        ({
            let after = ring.with_retention(frames);
            &&& 1 <= frames <= ring.capacity ==> after.retention == frames
            &&& frames < 1 ==> after.retention == 1
            &&& frames > ring.capacity ==> after.retention == ring.capacity
            &&& after == (RingView { retention: after.retention, ..ring })
        }),
{
}

/// Law: a new ring holds nothing and has room for all of its ceiling, one frame at least. Its
/// retention is the one asked for, one frame at least and no more than there is room for.
pub proof fn law_new_ring_has_its_limits(rate: nat, ceiling: nat, retention: nat)
    ensures
        ({
            let ring = RingView::empty(rate, ceiling, retention);
            &&& ring.rate == rate
            &&& ring.history.len() == 0
            &&& ceiling >= 1 ==> ring.capacity == ceiling
            &&& ceiling < 1 ==> ring.capacity == 1
            &&& 1 <= retention <= ring.capacity ==> ring.retention == retention
            &&& retention < 1 ==> ring.retention == 1
            &&& retention > ring.capacity ==> ring.retention == ring.capacity
        }),
{
}

/// Law: clearing forgets every frame and nothing else.
pub proof fn law_clearing_only_forgets(ring: RingView)
    ensures
        ring.cleared() == (RingView { history: Seq::empty(), ..ring }),
{
}

/// Law: lengths and offsets are true to the rate. A number of frames lasts at least its
/// milliseconds and less than one more, and an offset reaches at least its frames and less than one
/// more.
pub proof fn law_milliseconds_are_true_to_the_rate(ring: RingView, frames: nat, ms: nat)
    requires
        ring.rate > 0,
    ensures
        ring.millis(frames) * ring.rate <= frames * 1000 < (ring.millis(frames) + 1) * ring.rate,
        ring.frames(ms) * 1000 <= ms * ring.rate < (ring.frames(ms) + 1) * 1000,
        (RingView { rate: 0, ..ring }).millis(frames) == frames * 1000,
        (RingView { rate: 0, ..ring }).frames(ms) == 0,
{
    let (rate, whole) = (ring.rate as int, ring.millis(frames) as int);
    vstd::arithmetic::div_mod::lemma_fundamental_div_mod((frames * 1000) as int, rate);
    vstd::arithmetic::mul::lemma_mul_is_commutative(rate, whole);
    assert((whole + 1) * rate == whole * rate + rate) by (nonlinear_arith);
}

/// Law: with at most as many buckets as frames the buckets partition the window. The first begins
/// at its start, the last ends at its end, each ends where the next begins, and no frame lies in
/// two of them.
pub proof fn law_buckets_partition_the_window(buckets: int, window: int, b: int, c: int)
    requires
        0 < buckets <= window,
        0 <= b < c < buckets,
    ensures
        bucket_from(0, buckets, window) == 0,
        bucket_to(buckets - 1, buckets, window) == window,
        bucket_to(b, buckets, window) == bucket_from(b + 1, buckets, window),
        bucket_from(b, buckets, window) < bucket_to(b, buckets, window) <= bucket_from(
            c,
            buckets,
            window,
        ),
{
    assert((0 * window) / buckets == 0) by (nonlinear_arith)
        requires
            buckets > 0,
    ;
    assert((buckets * window) / buckets == window) by (nonlinear_arith)
        requires
            buckets > 0,
    ;
    lemma_bucket_range(b, buckets, window);
    lemma_bucket_range(buckets - 1, buckets, window);
    assert((b + 1) * window == b * window + window) by (nonlinear_arith);
    vstd::arithmetic::div_mod::lemma_div_is_ordered(
        b * window + buckets,
        (b + 1) * window,
        buckets,
    );
    assert((b * window + buckets) / buckets == (b * window) / buckets + 1) by (nonlinear_arith)
        requires
            buckets > 0,
    ;
    assert((b + 1) * window <= c * window) by (nonlinear_arith)
        requires
            b + 1 <= c,
            window > 0,
    ;
    vstd::arithmetic::div_mod::lemma_div_is_ordered((b + 1) * window, c * window, buckets);
}

/// Law: a bar of the waveform shows its own share of the audio. The two bounds of bucket `b` hold
/// every frame between its share's ends, and both are frames of that share: `b` to `b + 1` parts of
/// all that is held, or the single frame there where a share is shorter than a frame.
pub proof fn law_peaks_show_their_own_share(window: Seq<i16>, buckets: nat, b: int)
    requires
        window.len() > 0,
        0 <= b < buckets,
    ensures
        ({
            let n = window.len() as int;
            let from = (b * n) / buckets as int;
            let next = ((b + 1) * n) / buckets as int;
            let to = if next > from {
                next
            } else {
                from + 1
            };
            let (low, high) = (
                envelope(window, buckets)[2 * b],
                envelope(window, buckets)[2 * b + 1],
            );
            &&& envelope(window, buckets).len() == 2 * buckets
            &&& 0 <= from < to <= n
            &&& forall|i: int| from <= i < to ==> low <= #[trigger] window[i] <= high
            &&& exists|i: int| from <= i < to && #[trigger] window[i] == low
            &&& exists|i: int| from <= i < to && #[trigger] window[i] == high
        }),
{
    let n = window.len() as int;
    let k = buckets as int;
    lemma_bucket_range(b, k, n);
    let from = bucket_from(b, k, n);
    let to = bucket_to(b, k, n);
    let part = bucket(window, buckets, b);
    law_extremes(part);
    assert((2 * b) / 2 == b && (2 * b) % 2 == 0);
    assert((2 * b + 1) / 2 == b && (2 * b + 1) % 2 == 1);
    let (low, high) = (envelope(window, buckets)[2 * b], envelope(window, buckets)[2 * b + 1]);
    assert forall|i: int| from <= i < to implies low <= #[trigger] window[i] <= high by {
        assert(part[i - from] == window[i]);
    }
    let lo = choose|i: int| 0 <= i < part.len() && part[i] == lowest(part);
    let hi = choose|i: int| 0 <= i < part.len() && part[i] == highest(part);
    assert(window[from + lo] == low);
    assert(window[from + hi] == high);
}

} // verus!
