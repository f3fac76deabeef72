//! Native-rate mono `f32` in, target-rate mono `i16` out.
//!
//! Samples travel as the bit patterns of IEEE 754 single-precision numbers. The rate conversion
//! itself is done by an engine that takes whole chunks; this module decides when a chunk is
//! ready, what happens to a chunk the engine refuses, and how samples become integers.
use vstd::prelude::*;
use vstd::arithmetic::power2::{lemma2_to64, lemma2_to64_rest, lemma_pow2_pos, lemma_pow2_strictly_increases, pow2};
use crate::error::Error;

verus! {

/// Full scale of an `i16` sample.
pub const FULL_SCALE: u64 = 32767;

/// The sign bit is set.
pub open spec fn is_negative(bits: u32) -> bool {
    bits >= 0x8000_0000
}

/// The biased exponent field.
pub open spec fn exponent(bits: u32) -> nat {
    (bits as nat / 0x80_0000) % 256
}

/// The fraction field.
pub open spec fn fraction(bits: u32) -> nat {
    bits as nat % 0x80_0000
}

/// The number is not a number.
pub open spec fn is_nan(bits: u32) -> bool {
    exponent(bits) == 255 && fraction(bits) != 0
}

/// The magnitude is one or more, infinity included.
pub open spec fn reaches_full_scale(bits: u32) -> bool {
    exponent(bits) >= 127 && !is_nan(bits)
}

/// The integer `m` of a finite number's magnitude `m / 2^scale`.
pub open spec fn significand(bits: u32) -> nat {
    if exponent(bits) == 0 {
        fraction(bits)
    } else {
        fraction(bits) + 0x80_0000
    }
}

/// The exponent `scale` of a finite number's magnitude `m / 2^scale`, for magnitudes below one.
pub open spec fn scale(bits: u32) -> nat {
    if exponent(bits) <= 1 {
        149
    } else {
        (150 - exponent(bits)) as nat
    }
}

/// Distance between neighbouring numbers of 24 significant bits around `p`.
pub open spec fn spacing(p: nat) -> nat
    decreases p,
{
    if p < 0x100_0000 {
        1
    } else {
        2 * spacing(p / 2)
    }
}

/// The multiple of `step` nearest to `p`, and of two equally near ones the even multiple.
pub open spec fn round_half_even(p: nat, step: nat) -> nat {
    let below = p / step;
    let rest = p % step;
    if 2 * rest < step || (2 * rest == step && below % 2 == 0) {
        below * step
    } else {
        (below + 1) * step
    }
}

/// `p` rounded to 24 significant bits, the way single-precision arithmetic rounds.
pub open spec fn rounded(p: nat) -> nat {
    round_half_even(p, spacing(p))
}

/// Magnitude of the integer sample: the number clamped to one, times full scale in single
/// precision, cut to an integer.
pub open spec fn magnitude(bits: u32) -> nat {
    if reaches_full_scale(bits) {
        FULL_SCALE as nat
    } else {
        rounded(significand(bits) * FULL_SCALE as nat) / pow2(scale(bits))
    }
}

/// The integer sample of a single-precision number. What is not a number becomes silence.
pub open spec fn quantised(bits: u32) -> int {
    if is_nan(bits) {
        0
    } else if is_negative(bits) {
        -magnitude(bits)
    } else {
        magnitude(bits) as int
    }
}

/// The integer samples of a sequence of single-precision numbers.
pub open spec fn quantised_all(samples: Seq<u32>) -> Seq<i16> {
    samples.map_values(|bits: u32| quantised(bits) as i16)
}

proof fn lemma_spacing_small(p: nat)
    ensures
        1 <= spacing(p),
        spacing(p) <= p || p == 0,
    decreases p,
{
    if p >= 0x100_0000 {
        lemma_spacing_small(p / 2);
    }
}

proof fn lemma_spacing_of_products(p: nat)
    requires
        0x20_0000_0000 <= p < 0x80_0000_0000,
    ensures
        spacing(p) == if p < 0x40_0000_0000 {
            0x4000nat
        } else {
            0x8000nat
        },
{
    reveal_with_fuel(spacing, 17);
}

/// Rounding moves a number by at most half a step.
proof fn lemma_round_half_even(p: nat, step: nat)
    requires
        step > 0,
    ensures
        2 * round_half_even(p, step) <= 2 * p + step,
        2 * p <= 2 * round_half_even(p, step) + step,
{
    let below = p / step;
    vstd::arithmetic::div_mod::lemma_fundamental_div_mod(p as int, step as int);
    vstd::arithmetic::mul::lemma_mul_is_commutative(step as int, below as int);
    vstd::arithmetic::mul::lemma_mul_is_distributive_add_other_way(step as int, below as int, 1);
}

/// The magnitude of a sample below 2^-16 is zero.
proof fn lemma_tiny(bits: u32)
    requires
        exponent(bits) < 111,
    ensures
        magnitude(bits) == 0,
{
    let p = significand(bits) * FULL_SCALE as nat;
    lemma_spacing_small(p);
    lemma_round_half_even(p, spacing(p));
    lemma2_to64_rest();
    if scale(bits) > 40 {
        lemma_pow2_strictly_increases(40, scale(bits));
    }
    vstd::arithmetic::div_mod::lemma_basic_div(rounded(p) as int, pow2(scale(bits)) as int);
}

/// Clamps first: resampling can overshoot past 1.0 even when the input did not, and wrapping would
/// be audible as a click.
pub fn to_i16(bits: u32) -> (sample: i16)
    ensures
        sample == quantised(bits),
{
    let negative: bool = bits >= 0x8000_0000;
    let biased: u32 = (bits / 0x80_0000) % 256;
    let mantissa: u32 = bits % 0x80_0000;
    if biased == 255 && mantissa != 0 {
        return 0;
    }
    let size: i16 = if biased >= 127 {
        32767
    } else if biased < 111 {
        proof {
            lemma_tiny(bits);
        }
        0
    } else {
        let product: u64 = (mantissa as u64 + 0x80_0000) * FULL_SCALE;
        let step: u64 = if product < 0x40_0000_0000 { 0x4000 } else { 0x8000 };
        let below: u64 = product / step;
        let rest: u64 = product % step;
        let near: u64 = if 2 * rest < step || (2 * rest == step && below % 2 == 0) {
            below * step
        } else {
            (below + 1) * step
        };
        let shift: u64 = 150 - biased as u64;
        proof {
            lemma_spacing_of_products(product as nat);
            lemma_round_half_even(product as nat, step as nat);
            assert(near == rounded(significand(bits) * FULL_SCALE as nat));
            vstd::bits::lemma_u64_shr_is_div(near, shift);
            lemma2_to64();
            if shift > 24 {
                lemma_pow2_strictly_increases(24, shift as nat);
            }
            assert(near as nat / pow2(shift as nat) <= 32767) by (nonlinear_arith)
                requires
                    near < 32768 * 0x100_0000,
                    pow2(shift as nat) >= 0x100_0000,
            ;
        }
        (near >> shift) as i16
    };
    if negative {
        -size
    } else {
        size
    }
}

/// Input frames requested per call. An engine may round it to fit its ratio.
pub const CHUNK_IN: usize = 2048;

/// What a resampler holds, as mathematics.
#[verifier::ext_equal]
pub struct ResamplerView {
    pub in_rate: u32,
    pub out_rate: u32,
    /// Input frames the engine wants next.
    pub chunk_in: nat,
    /// Input that does not fill a chunk yet.
    pub pending: Seq<u32>,
    /// Chunks the engine refused.
    pub dropped: nat,
}

impl ResamplerView {
    /// A resampler that has seen nothing.
    pub open spec fn fresh(in_rate: u32, out_rate: u32) -> Self {
        ResamplerView {
            in_rate,
            out_rate,
            chunk_in: CHUNK_IN as nat,
            pending: Seq::empty(),
            dropped: 0,
        }
    }

    /// The device already runs at the target rate, so nothing is converted.
    pub open spec fn passes_through(self) -> bool {
        self.in_rate == self.out_rate
    }

    /// After more input. What passes through is not held.
    pub open spec fn pushed(self, input: Seq<u32>) -> Self {
        if self.passes_through() {
            self
        } else {
            ResamplerView { pending: self.pending + input, ..self }
        }
    }

    /// The samples that input yields at once.
    pub open spec fn immediate(self, input: Seq<u32>) -> Seq<i16> {
        if self.passes_through() {
            quantised_all(input)
        } else {
            Seq::empty()
        }
    }

    /// Enough input is held for the engine.
    pub open spec fn chunk_ready(self) -> bool {
        !self.passes_through() && self.pending.len() >= self.chunk_in
    }

    /// The chunk the engine gets next.
    pub open spec fn chunk(self) -> Seq<u32> {
        self.pending.subrange(0, self.chunk_in as int)
    }

    /// After the next chunk was handed out.
    pub open spec fn chunk_taken(self) -> Self {
        ResamplerView {
            pending: self.pending.subrange(self.chunk_in as int, self.pending.len() as int),
            ..self
        }
    }

    /// After the engine answered with its channels, or refused, and asked for `next` frames.
    pub open spec fn chunk_finished(self, produced: Option<Vec<Vec<u32>>>, next: nat) -> Self {
        ResamplerView {
            chunk_in: next,
            dropped: if converted(produced) is Some {
                self.dropped
            } else {
                self.dropped + 1
            },
            ..self
        }
    }
}

/// The mono output in an engine's answer: its first channel, where there is one.
pub open spec fn converted(produced: Option<Vec<Vec<u32>>>) -> Option<Seq<u32>> {
    match produced {
        Some(channels) => if channels@.len() > 0 {
            Some(channels@[0]@)
        } else {
            None
        },
        None => None,
    }
}

/// The samples in an engine's answer. A refused chunk yields none.
pub open spec fn converted_samples(produced: Option<Vec<Vec<u32>>>) -> Seq<i16> {
    match converted(produced) {
        Some(mono) => quantised_all(mono),
        None => Seq::empty(),
    }
}

/// Collects native-rate input into chunks for a conversion engine, or lets it pass when no
/// conversion is needed.
pub struct Resampler {
    in_rate: u32,
    out_rate: u32,
    chunk_in: usize,
    pending: Vec<u32>,
    dropped_chunks: u64,
}

impl View for Resampler {
    type V = ResamplerView;

    closed spec fn view(&self) -> ResamplerView {
        ResamplerView {
            in_rate: self.in_rate,
            out_rate: self.out_rate,
            chunk_in: self.chunk_in as nat,
            pending: self.pending@,
            dropped: self.dropped_chunks as nat,
        }
    }
}

/// Converts samples one for one.
fn to_i16_all(input: &[u32]) -> (out: Vec<i16>)
    ensures
        out@ == quantised_all(input@),
{
    let mut out: Vec<i16> = Vec::with_capacity(input.len());
    let mut i: usize = 0;
    while i < input.len()
        invariant
            i <= input@.len(),
            out@ == quantised_all(input@.subrange(0, i as int)),
        decreases input.len() - i,
    {
        let sample: i16 = to_i16(input[i]);
        out.push(sample);
        assert(out@ =~= quantised_all(input@.subrange(0, i + 1)));
        i += 1;
    }
    assert(input@.subrange(0, input@.len() as int) =~= input@);
    out
}

impl Resampler {
    /// The resampler's invariant: a chunk is never empty, so the input runs out.
    pub open spec fn wf(self) -> bool {
        &&& self@.in_rate > 0
        &&& self@.out_rate > 0
        &&& self@.chunk_in > 0
        &&& self@.passes_through() ==> self@.pending.len() == 0
        &&& self@.dropped <= u64::MAX
    }

    /// A resampler between two rates, neither of which may be zero. One that converts still needs
    /// its engine attached.
    pub fn new(in_rate: u32, out_rate: u32) -> (result: Result<Self, Error>)
        ensures
            result is Err <==> in_rate == 0 || out_rate == 0,
            result matches Err(e) ==> e == Error::ZeroSampleRate,
            result matches Ok(resampler) ==> {
                &&& resampler.wf()
                &&& resampler@ == ResamplerView::fresh(in_rate, out_rate)
            },
    {
        if in_rate == 0 || out_rate == 0 {
            return Err(Error::ZeroSampleRate);
        }
        let resampler = Self {
            in_rate,
            out_rate,
            chunk_in: CHUNK_IN,
            pending: Vec::new(),
            dropped_chunks: 0,
        };
        assert(resampler@ =~= ResamplerView::fresh(in_rate, out_rate));
        Ok(resampler)
    }

    /// Whether the rates differ, so that an engine has to convert.
    pub fn needs_engine(&self) -> (needed: bool)
        ensures
            needed == !self@.passes_through(),
    {
        self.in_rate != self.out_rate
    }

    /// Takes the outcome of building an engine: the input frames it wants first, or why the ratio
    /// was rejected.
    pub fn attach(&mut self, built: Result<usize, Vec<String>>) -> (result: Result<(), Error>)
        requires
            old(self).wf(),
            built matches Ok(chunk_in) ==> chunk_in > 0,
        ensures
            final(self).wf(),
            result is Ok <==> built is Ok,
            built matches Ok(chunk_in) ==> final(self)@ == (ResamplerView {
                chunk_in: chunk_in as nat,
                ..old(self)@
            }),
            built matches Err(source) ==> {
                &&& final(self)@ == old(self)@
                &&& result == Err::<(), Error>(
                    Error::Resampler { from: old(self)@.in_rate, to: old(self)@.out_rate, source },
                )
            },
    {
        match built {
            Ok(chunk_in) => {
                self.chunk_in = chunk_in;
                Ok(())
            },
            Err(source) => Err(Error::Resampler { from: self.in_rate, to: self.out_rate, source }),
        }
    }

    /// Feeds native-rate mono samples; gives back the target-rate samples that are ready without
    /// the engine. Input that doesn't fill a whole chunk is held for next time, so calling this
    /// with tiny buffers is fine.
    pub fn push(&mut self, input: &[u32]) -> (out: Vec<i16>)
        requires
            old(self).wf(),
        ensures
            final(self).wf(),
            final(self)@ == old(self)@.pushed(input@),
            out@ == old(self)@.immediate(input@),
    {
        if self.in_rate == self.out_rate {
            return to_i16_all(input);
        }
        self.pending.extend_from_slice(input);
        assert(self.pending@ =~= old(self).pending@ + input@);
        Vec::new()
    }

    /// Hands out the next whole chunk for the engine, if enough input is held.
    pub fn next_chunk(&mut self) -> (chunk: Option<Vec<u32>>)
        requires
            old(self).wf(),
        ensures
            final(self).wf(),
            chunk is Some <==> old(self)@.chunk_ready(),
            chunk matches Some(frames) ==> {
                &&& frames@ == old(self)@.chunk()
                &&& final(self)@ == old(self)@.chunk_taken()
            },
            chunk is None ==> final(self)@ == old(self)@,
    {
        if self.in_rate == self.out_rate || self.pending.len() < self.chunk_in {
            return None;
        }
        let mut chunk = self.pending.split_off(self.chunk_in);
        std::mem::swap(&mut self.pending, &mut chunk);
        Some(chunk)
    }

    /// Takes the engine's answer to a chunk, and how many frames it wants next. A refused chunk is
    /// dropped and counted rather than ending the stream: tearing down loses a buffer the caller
    /// may be minutes into.
    pub fn finish_chunk(&mut self, produced: Option<Vec<Vec<u32>>>, next: usize) -> (out: Vec<i16>)
        requires
            old(self).wf(),
            next > 0,
            old(self)@.dropped < u64::MAX,
        ensures
            final(self).wf(),
            final(self)@ == old(self)@.chunk_finished(produced, next as nat),
            out@ == converted_samples(produced),
    {
        self.chunk_in = next;
        if let Some(channels) = &produced {
            if channels.len() > 0 {
                return to_i16_all(channels[0].as_slice());
            }
        }
        self.dropped_chunks = self.dropped_chunks + 1;
        Vec::new()
    }

    /// Input frames held until they fill a chunk.
    pub fn held(&self) -> (frames: usize)
        ensures
            frames == self@.pending.len(),
    {
        self.pending.len()
    }

    /// Chunks refused since construction. Nonzero means the output is shorter than the input
    /// accounts for.
    pub fn dropped_chunks(&self) -> (dropped: u64)
        ensures
            dropped == self@.dropped,
    {
        self.dropped_chunks
    }
}

/// Law: a sample never leaves the range of full scale to either side, whatever the number is.
pub proof fn law_samples_stay_in_range(bits: u32)
    ensures
        -32767 <= quantised(bits) <= 32767,
        magnitude(bits) <= 32767 || is_nan(bits),
{
    if !is_nan(bits) && exponent(bits) < 127 {
        if exponent(bits) < 111 {
            lemma_tiny(bits);
        } else {
            lemma_in_range(bits);
        }
    }
}

proof fn lemma_in_range(bits: u32)
    requires
        111 <= exponent(bits) < 127,
    ensures
        magnitude(bits) <= 32767,
{
    let p = significand(bits) * FULL_SCALE as nat;
    lemma_spacing_of_products(p);
    lemma_round_half_even(p, spacing(p));
    lemma2_to64();
    if scale(bits) > 24 {
        lemma_pow2_strictly_increases(24, scale(bits));
    }
    assert(rounded(p) / pow2(scale(bits)) <= 32767) by (nonlinear_arith)
        requires
            rounded(p) < 32768 * 0x100_0000,
            pow2(scale(bits)) >= 0x100_0000,
    ;
}

/// Law: what overshoots is clamped, never wrapped: a number of one or more becomes full scale with
/// its own sign.
pub proof fn law_overshoot_clamps(bits: u32)
    requires
        reaches_full_scale(bits),
    ensures
        quantised(bits) == if is_negative(bits) {
            -32767int
        } else {
            32767int
        },
{
}

/// Law: the two signs of a number become the two signs of a sample.
pub proof fn law_quantising_is_symmetric(bits: u32)
    requires
        !is_negative(bits),
    ensures
        quantised((bits + 0x8000_0000) as u32) == -quantised(bits),
{
    let other = (bits + 0x8000_0000) as u32;
    assert(other as nat / 0x80_0000 == bits as nat / 0x80_0000 + 256);
}

/// A number lies less than 2^24 steps from zero, and at least 2^23 of them unless it is small.
proof fn lemma_spacing_bounds(p: nat)
    ensures
        spacing(p) >= 1,
        p < spacing(p) * 0x100_0000,
        p >= 0x80_0000 ==> spacing(p) * 0x80_0000 <= p,
    decreases p,
{
    if p >= 0x100_0000 {
        lemma_spacing_bounds(p / 2);
    }
}

/// Steps only grow, and only by whole powers of two.
proof fn lemma_spacing_grows(p: nat, q: nat) -> (ratio: nat)
    requires
        p <= q,
    ensures
        spacing(q) == ratio * spacing(p),
        ratio == 1 || ratio >= 2,
        ratio >= 2 ==> q >= 0x100_0000,
    decreases q,
{
    lemma_spacing_bounds(q);
    if p < 0x100_0000 {
        assert(spacing(q) * 1 == spacing(q));
        spacing(q)
    } else {
        let ratio = lemma_spacing_grows(p / 2, q / 2);
        assert(2 * (ratio * spacing(p / 2)) == ratio * (2 * spacing(p / 2))) by (nonlinear_arith);
        ratio
    }
}

/// Rounding to one grid keeps the order.
proof fn lemma_grid_keeps_order(p: nat, q: nat, step: nat)
    requires
        p <= q,
        step > 0,
    ensures
        (p / step) * step <= round_half_even(p, step) <= (p / step + 1) * step,
        round_half_even(p, step) <= round_half_even(q, step),
{
    let (a, b) = (p / step, q / step);
    vstd::arithmetic::div_mod::lemma_div_is_ordered(p as int, q as int, step as int);
    vstd::arithmetic::div_mod::lemma_fundamental_div_mod(p as int, step as int);
    vstd::arithmetic::div_mod::lemma_fundamental_div_mod(q as int, step as int);
    assert(a * step <= (a + 1) * step && b * step <= (b + 1) * step) by (nonlinear_arith)
        requires
            step > 0,
    ;
    if a < b {
        assert((a + 1) * step <= b * step) by (nonlinear_arith)
            requires
                a + 1 <= b,
                step > 0,
        ;
    } else {
        assert(p % step <= q % step);
    }
}

/// Rounding to 24 significant bits keeps the order.
proof fn lemma_rounding_keeps_order(p: nat, q: nat)
    requires
        p <= q,
    ensures
        rounded(p) <= rounded(q),
{
    lemma_spacing_bounds(p);
    lemma_spacing_bounds(q);
    let ratio = lemma_spacing_grows(p, q);
    let (fine, coarse) = (spacing(p), spacing(q));
    if ratio == 1 {
        lemma_grid_keeps_order(p, q, fine);
    } else {
        // A power of two lies between, and both grids meet it.
        let between = coarse * 0x80_0000;
        let count = ratio * 0x80_0000;
        assert(between == count * fine) by (nonlinear_arith)
            requires
                between == coarse * 0x80_0000,
                count == ratio * 0x80_0000,
                coarse == ratio * fine,
        ;
        assert(fine * 0x100_0000 <= between) by (nonlinear_arith)
            requires
                between == count * fine,
                count >= 0x100_0000,
                fine > 0,
        ;
        lemma_grid_keeps_order(p, p, fine);
        lemma_grid_keeps_order(q, q, coarse);
        vstd::arithmetic::div_mod::lemma_fundamental_div_mod(p as int, fine as int);
        assert(p / fine + 1 <= count) by (nonlinear_arith)
            requires
                p < count * fine,
                fine > 0,
        ;
        assert((p / fine + 1) * fine <= count * fine) by (nonlinear_arith)
            requires
                p / fine + 1 <= count,
                fine > 0,
        ;
        assert(q / coarse >= 0x80_0000) by (nonlinear_arith)
            requires
                coarse * 0x80_0000 <= q,
                coarse > 0,
        ;
        assert((q / coarse) * coarse >= between) by (nonlinear_arith)
            requires
                q / coarse >= 0x80_0000,
                between == coarse * 0x80_0000,
                coarse > 0,
        ;
    }
}

/// Rounding does not see factors of two, once all 24 bits are in use.
proof fn lemma_rounding_scales(p: nat, k: nat)
    requires
        p >= 0x80_0000,
    ensures
        rounded(p * pow2(k)) == rounded(p) * pow2(k),
    decreases k,
{
    if k == 0 {
        lemma2_to64();
        assert(p * 1 == p && rounded(p) * 1 == rounded(p));
    } else {
        let less = (k - 1) as nat;
        let half = p * pow2(less);
        lemma_rounding_scales(p, less);
        lemma_pow2_pos(less);
        vstd::arithmetic::power2::lemma_pow2_unfold(k);
        assert(p * pow2(k) == 2 * half) by (nonlinear_arith)
            requires
                half == p * pow2(less),
                pow2(k) == 2 * pow2(less),
        ;
        assert(half >= p) by (nonlinear_arith)
            requires
                half == p * pow2(less),
                pow2(less) >= 1,
        ;
        let step = spacing(half);
        lemma_spacing_bounds(half);
        assert((2 * half) / 2 == half);
        assert(spacing(2 * half) == 2 * step);
        vstd::arithmetic::div_mod::lemma_div_multiples_vanish_quotient(2, half as int, step as int);
        vstd::arithmetic::div_mod::lemma_truncate_middle(half as int, 2, step as int);
        let below = half / step;
        assert(below * (2 * step) == 2 * (below * step)) by (nonlinear_arith);
        assert((below + 1) * (2 * step) == 2 * ((below + 1) * step)) by (nonlinear_arith);
        assert(rounded(2 * half) == 2 * rounded(half));
        assert(2 * (rounded(p) * pow2(less)) == rounded(p) * pow2(k)) by (nonlinear_arith)
            requires
                pow2(k) == 2 * pow2(less),
        ;
    }
}

/// Law: louder never becomes quieter. Of two numbers of the same sign, the one of larger magnitude
/// becomes a sample of at least the magnitude of the other's.
pub proof fn law_quantising_keeps_order(a: u32, b: u32)
    requires
        a <= b,
        !is_negative(b),
        !is_nan(a),
        !is_nan(b),
    ensures
        0 <= quantised(a) <= quantised(b),
{
    law_samples_stay_in_range(a);
    if !reaches_full_scale(b) {
        let k = (scale(a) - scale(b)) as nat;
        let (pa, pb) = (
            significand(a) * FULL_SCALE as nat,
            significand(b) * FULL_SCALE as nat,
        );
        lemma_pow2_pos(scale(a));
        lemma_pow2_pos(scale(b));
        lemma_pow2_pos(k);
        vstd::arithmetic::power2::lemma_pow2_adds(k, scale(b));
        if k == 0 {
            lemma2_to64();
            lemma_rounding_keeps_order(pa, pb);
        } else {
            vstd::arithmetic::power2::lemma_pow2_unfold(k);
            lemma_pow2_pos((k - 1) as nat);
            assert(pa <= pb * pow2(k)) by (nonlinear_arith)
                requires
                    pa <= 2 * pb,
                    pow2(k) >= 2,
                    pb >= 0,
            ;
            lemma_rounding_keeps_order(pa, pb * pow2(k));
            lemma_rounding_scales(pb, k);
        }
        let (low, high) = (rounded(pa) as int, rounded(pb) as int);
        let (c, d) = (pow2(k) as int, pow2(scale(b)) as int);
        assert(low <= c * high) by (nonlinear_arith)
            requires
                low <= high * c,
        ;
        vstd::arithmetic::div_mod::lemma_div_multiples_vanish_quotient(c, high, d);
        vstd::arithmetic::div_mod::lemma_div_is_ordered(low, c * high, c * d);
    }
}

/// Law: silence stays silent. Zero of either sign becomes zero, and so does what is not a number.
pub proof fn law_silence_stays_silent(bits: u32)
    ensures
        quantised(0) == 0,
        quantised(0x8000_0000) == 0,
        is_nan(bits) ==> quantised(bits) == 0,
{
    lemma_tiny(0);
    lemma_tiny(0x8000_0000);
}

/// Law: samples are converted one for one, in order, however the input is cut.
pub proof fn law_quantising_in_pieces(a: Seq<u32>, b: Seq<u32>)
    ensures
        quantised_all(a + b) == quantised_all(a) + quantised_all(b),
        quantised_all(a).len() == a.len(),
{
    assert(quantised_all(a + b) =~= quantised_all(a) + quantised_all(b));
}

/// Law: tiny writes are fine. However the input is cut into pushes, the same input is held and the
/// same samples come out.
pub proof fn law_small_writes_accumulate(resampler: ResamplerView, a: Seq<u32>, b: Seq<u32>)
    ensures
        resampler.pushed(a).pushed(b) == resampler.pushed(a + b),
        resampler.immediate(a) + resampler.pushed(a).immediate(b) == resampler.immediate(a + b),
{
    law_quantising_in_pieces(a, b);
    assert(resampler.pushed(a).pushed(b) =~= resampler.pushed(a + b));
    assert(resampler.immediate(a) + resampler.pushed(a).immediate(b) =~= resampler.immediate(
        a + b,
    ));
}

/// Law: no input is lost on the way to the engine. The chunk handed out and what is held after it
/// make up what was held before, and the chunk is exactly as long as the engine asked for.
pub proof fn law_chunks_lose_nothing(resampler: ResamplerView)
    requires
        resampler.chunk_ready(),
    ensures
        resampler.chunk() + resampler.chunk_taken().pending == resampler.pending,
        resampler.chunk().len() == resampler.chunk_in,
{
    assert(resampler.chunk() + resampler.chunk_taken().pending =~= resampler.pending);
}

impl ResamplerView {
    /// After every chunk that is ready was taken, by an engine that keeps asking for as much.
    pub open spec fn drained(self) -> Self
        decreases self.pending.len(),
    {
        if self.chunk_ready() && self.chunk_in > 0 {
            self.chunk_taken().drained()
        } else {
            self
        }
    }

    /// The chunks that are handed out on the way there, in order.
    pub open spec fn chunks(self) -> Seq<Seq<u32>>
        decreases self.pending.len(),
    {
        if self.chunk_ready() && self.chunk_in > 0 {
            seq![self.chunk()] + self.chunk_taken().chunks()
        } else {
            Seq::empty()
        }
    }
}

/// Law: an engine sees the same chunks however the input is cut. Pushing, handing out what is
/// ready, pushing more and handing out again gives the chunks of one push, in the same order, and
/// leaves the same input held.
pub proof fn law_interleaved_pushes_give_the_same_chunks(
    resampler: ResamplerView,
    a: Seq<u32>,
    b: Seq<u32>,
)
    ensures
        resampler.pushed(a).chunks() + resampler.pushed(a).drained().pushed(b).chunks()
            == resampler.pushed(a + b).chunks(),
        resampler.pushed(a).drained().pushed(b).drained() == resampler.pushed(a + b).drained(),
{
    law_small_writes_accumulate(resampler, a, b);
    lemma_draining_first(resampler.pushed(a), b);
}

/// Handing out what is ready before more input comes changes nothing.
proof fn lemma_draining_first(resampler: ResamplerView, more: Seq<u32>)
    ensures
        resampler.chunks() + resampler.drained().pushed(more).chunks() == resampler.pushed(
            more,
        ).chunks(),
        resampler.drained().pushed(more).drained() == resampler.pushed(more).drained(),
    decreases resampler.pending.len(),
{
    let later = resampler.pushed(more);
    if resampler.chunk_ready() && resampler.chunk_in > 0 {
        let rest = resampler.chunk_taken();
        lemma_draining_first(rest, more);
        assert(later.chunk() =~= resampler.chunk());
        assert(later.chunk_taken() =~= rest.pushed(more));
        assert(resampler.chunks() + rest.drained().pushed(more).chunks() =~= seq![
            resampler.chunk(),
        ] + (rest.chunks() + rest.drained().pushed(more).chunks()));
    } else {
        assert(resampler.chunks() + later.chunks() =~= later.chunks());
    }
}

/// Law: only what does not fill a whole chunk is held for next time. An engine that keeps asking
/// for as much leaves the remainder of the division by the chunk, and it is the newest input.
pub proof fn law_only_a_partial_chunk_is_held(resampler: ResamplerView)
    requires
        resampler.chunk_in > 0,
        !resampler.passes_through(),
    ensures
        resampler.drained().pending.len() == resampler.pending.len() % resampler.chunk_in,
        resampler.drained().pending == resampler.pending.subrange(
            resampler.pending.len() - resampler.drained().pending.len(),
            resampler.pending.len() as int,
        ),
        resampler.drained().dropped == resampler.dropped,
    decreases resampler.pending.len(),
{
    let held = resampler.pending.len() as int;
    let chunk = resampler.chunk_in as int;
    if resampler.chunk_ready() {
        let rest = resampler.chunk_taken();
        law_only_a_partial_chunk_is_held(rest);
        vstd::arithmetic::div_mod::lemma_mod_sub_multiples_vanish(held, chunk);
        assert(rest.drained().pending =~= resampler.pending.subrange(
            held - rest.drained().pending.len(),
            held,
        ));
    } else {
        vstd::arithmetic::div_mod::lemma_small_mod(held as nat, chunk as nat);
        assert(resampler.pending.subrange(0, held) =~= resampler.pending);
    }
}

/// Law: a chunk is either converted or counted as refused, never both and never neither, and a
/// refused one leaves no samples.
pub proof fn law_refused_chunks_are_counted(
    resampler: ResamplerView,
    produced: Option<Vec<Vec<u32>>>,
    next: nat,
)
    ensures
        resampler.chunk_finished(produced, next).dropped == resampler.dropped + if converted(
            produced,
        ) is Some {
            0int
        } else {
            1int
        },
        converted(produced) is None ==> converted_samples(produced).len() == 0,
        resampler.chunk_finished(produced, next).pending == resampler.pending,
{
}

/// Law: every sample the engine gives is kept. The output is as long as the first channel of the
/// answer, however long that is, and its sample `i` is the quantised number `i` of that channel.
/// An answer without a channel, and no answer, give nothing.
pub proof fn law_engine_output_is_kept(produced: Option<Vec<Vec<u32>>>, i: int)
    ensures
        produced matches Some(channels) ==> channels@.len() > 0 ==> {
            let mono = channels@[0]@;
            &&& converted(produced) == Some(mono)
            &&& converted_samples(produced).len() == mono.len()
            &&& 0 <= i < mono.len() ==> converted_samples(produced)[i] == quantised(mono[i])
        },
        produced matches Some(channels) ==> channels@.len() == 0 ==> converted(produced) is None,
        produced is None ==> converted(produced) is None,
        converted(produced) is None ==> converted_samples(produced).len() == 0,
{
    if let Some(mono) = converted(produced) {
        law_samples_are_quantised_one_by_one(mono, i);
    }
}

/// Law: samples are quantised one by one. There are as many as numbers, and each is its own
/// number's, whatever stands around it.
pub proof fn law_samples_are_quantised_one_by_one(numbers: Seq<u32>, i: int)
    ensures
        quantised_all(numbers).len() == numbers.len(),
        0 <= i < numbers.len() ==> quantised_all(numbers)[i] == quantised(numbers[i]),
{
    if 0 <= i < numbers.len() {
        law_samples_stay_in_range(numbers[i]);
    }
}

/// Law: nothing is converted between equal rates. What is pushed comes out at once, number for
/// number, and nothing is held; between different rates nothing comes out at once and everything is
/// held, in order, behind what is held already.
pub proof fn law_pushed_input_comes_out_or_is_held(resampler: ResamplerView, input: Seq<u32>, i: int)
    ensures
        resampler.passes_through() <==> resampler.in_rate == resampler.out_rate,
        resampler.in_rate == resampler.out_rate ==> {
            let out = resampler.immediate(input);
            &&& resampler.pushed(input) == resampler
            &&& out.len() == input.len()
            &&& 0 <= i < input.len() ==> out[i] == quantised(input[i])
        },
        resampler.in_rate != resampler.out_rate ==> {
            let after = resampler.pushed(input);
            let held = resampler.pending.len();
            &&& resampler.immediate(input).len() == 0
            &&& after == (ResamplerView { pending: after.pending, ..resampler })
            &&& after.pending.len() == held + input.len()
            &&& 0 <= i < held ==> after.pending[i] == resampler.pending[i]
            &&& 0 <= i < input.len() ==> after.pending[held + i] == input[i]
        },
{
    law_samples_are_quantised_one_by_one(input, i);
}

/// Law: a chunk goes out exactly when the engine's wish can be met. It is the oldest input, as much
/// as was asked for, and only that leaves.
pub proof fn law_chunk_is_the_oldest_input(resampler: ResamplerView, i: int)
    ensures
        resampler.chunk_ready() <==> resampler.in_rate != resampler.out_rate
            && resampler.pending.len() >= resampler.chunk_in,
        resampler.chunk_ready() ==> {
            let (chunk, after) = (resampler.chunk(), resampler.chunk_taken());
            let wanted = resampler.chunk_in as int;
            &&& chunk.len() == wanted
            &&& after == (ResamplerView { pending: after.pending, ..resampler })
            &&& after.pending.len() == resampler.pending.len() - wanted
            &&& 0 <= i < wanted ==> chunk[i] == resampler.pending[i]
            &&& wanted <= i < resampler.pending.len() ==> after.pending[i - wanted]
                == resampler.pending[i]
        },
{
}

/// Law: after an answer the engine's next wish counts, a refusal is one more refused chunk, and the
/// held input and the rates stay.
pub proof fn law_answers_change_only_the_counts(
    resampler: ResamplerView,
    produced: Option<Vec<Vec<u32>>>,
    next: nat,
)
    ensures
        ({
            let after = resampler.chunk_finished(produced, next);
            let refused = match produced {
                Some(channels) => channels@.len() == 0,
                None => true,
            };
            after == (ResamplerView {
                chunk_in: next,
                dropped: if refused {
                    resampler.dropped + 1
                } else {
                    resampler.dropped
                },
                ..resampler
            })
        }),
{
}

/// Law: a new resampler has its two rates, holds nothing, refused nothing, and asks for 2048
/// frames until an engine says otherwise.
pub proof fn law_new_resampler_is_empty(in_rate: u32, out_rate: u32)
    ensures
        ResamplerView::fresh(in_rate, out_rate) == (ResamplerView {
            in_rate,
            out_rate,
            chunk_in: 2048,
            pending: Seq::empty(),
            dropped: 0,
        }),
{
}

/// Law: rounding goes to the nearest number of 24 significant bits, of two equally near ones to the
/// even one. For a number between `2^23` and `2^24` steps of `2^k`, the result is a multiple of the
/// step no further than half a step away.
pub proof fn law_rounding_goes_to_the_nearest(p: nat, k: nat)
    requires
        pow2(k) * 0x80_0000 <= p < pow2(k) * 0x100_0000,
    ensures
        rounded(p) % pow2(k) == 0,
        -(pow2(k) as int) <= 2 * (rounded(p) - p) <= pow2(k),
        2 * (rounded(p) - p) == pow2(k) || 2 * (p - rounded(p)) == pow2(k) ==> (rounded(p) / pow2(
            k,
        )) % 2 == 0,
{
    lemma_spacing_is_power(p, k);
    let step = pow2(k);
    lemma_pow2_pos(k);
    let (below, rest) = (p / step, p % step);
    vstd::arithmetic::div_mod::lemma_fundamental_div_mod(p as int, step as int);
    vstd::arithmetic::mul::lemma_mul_is_commutative(step as int, below as int);
    assert((below + 1) * step == below * step + step) by (nonlinear_arith);
    vstd::arithmetic::div_mod::lemma_mod_multiples_basic(below as int, step as int);
    vstd::arithmetic::div_mod::lemma_mod_multiples_basic((below + 1) as int, step as int);
    vstd::arithmetic::div_mod::lemma_div_multiples_vanish(below as int, step as int);
    vstd::arithmetic::div_mod::lemma_div_multiples_vanish((below + 1) as int, step as int);
    vstd::arithmetic::mul::lemma_mul_is_commutative(step as int, (below + 1) as int);
}

/// The spacing is the power of two that leaves 24 significant bits.
proof fn lemma_spacing_is_power(p: nat, k: nat)
    requires
        pow2(k) * 0x80_0000 <= p < pow2(k) * 0x100_0000,
    ensures
        spacing(p) == pow2(k),
    decreases k,
{
    lemma2_to64();
    if k > 0 {
        let less = (k - 1) as nat;
        vstd::arithmetic::power2::lemma_pow2_unfold(k);
        lemma_pow2_pos(less);
        lemma_spacing_is_power(p / 2, less);
    }
}

/// Law: a sample is the number times 32767, cut towards zero. With the significand `m` and the
/// exponent `e` of a normal number below one, the product is rounded once, and the sample is its
/// whole part.
pub proof fn law_sample_is_the_scaled_number(bits: u32)
    requires
        1 <= (bits as nat / 0x80_0000) % 256 < 127,
    ensures
        ({
            let e = (bits as nat / 0x80_0000) % 256;
            let m = bits as nat % 0x80_0000 + 0x80_0000;
            let unit = pow2((150 - e) as nat);
            let size = if bits >= 0x8000_0000 {
                -quantised(bits)
            } else {
                quantised(bits)
            };
            &&& 0 <= size
            &&& size * unit <= rounded(m * 32767) < (size + 1) * unit
        }),
{
    let e = (bits as nat / 0x80_0000) % 256;
    let m = bits as nat % 0x80_0000 + 0x80_0000;
    let (unit, r) = (pow2((150 - e) as nat) as int, rounded(m * 32767) as int);
    lemma_pow2_pos((150 - e) as nat);
    vstd::arithmetic::div_mod::lemma_fundamental_div_mod(r, unit);
    vstd::arithmetic::mul::lemma_mul_is_commutative(unit, r / unit);
    assert((r / unit + 1) * unit == (r / unit) * unit + unit) by (nonlinear_arith);
    assert(r / unit >= 0) by (nonlinear_arith)
        requires
            r >= 0,
            unit > 0,
    ;
}

/// Law: what no sample can show. Numbers of one or more, infinity included, become full scale with
/// their sign; numbers too small to scale to one, zeros included, and what is not a number become
/// zero.
pub proof fn law_extreme_numbers(bits: u32)
    ensures
        ({
            let e = (bits as nat / 0x80_0000) % 256;
            let f = bits as nat % 0x80_0000;
            &&& 127 <= e < 255 || (e == 255 && f == 0) ==> quantised(bits) == if bits
                >= 0x8000_0000 {
                -32767int
            } else {
                32767int
            }
            &&& e == 255 && f != 0 ==> quantised(bits) == 0
            &&& e < 111 ==> quantised(bits) == 0
        }),
{
    if exponent(bits) < 111 {
        lemma_tiny(bits);
    }
}

} // verus!
