use node_system_audio::resample::{to_i16, Resampler, CHUNK_IN};
use node_system_audio::Error;
use rubato::{FftFixedIn, Resampler as _};

/// A resampler together with the engine that converts for it.
struct Pair {
    resampler: Resampler,
    engine: Option<FftFixedIn<f32>>,
}

impl Pair {
    fn new(in_rate: u32, out_rate: u32) -> Result<Pair, Error> {
        let mut resampler = Resampler::new(in_rate, out_rate)?;
        if !resampler.needs_engine() {
            return Ok(Pair { resampler, engine: None });
        }
        match FftFixedIn::<f32>::new(in_rate as usize, out_rate as usize, CHUNK_IN, 2, 1) {
            Ok(engine) => {
                resampler.attach(Ok(engine.input_frames_next()))?;
                Ok(Pair { resampler, engine: Some(engine) })
            }
            Err(e) => {
                resampler.attach(Err(vec![e.to_string()]))?;
                unreachable!()
            }
        }
    }

    fn push(&mut self, input: &[f32]) -> Vec<i16> {
        let mut out = self.resampler.push(&bits(input));
        while let Some(chunk) = self.resampler.next_chunk() {
            let engine = self.engine.as_mut().unwrap();
            let frames: Vec<f32> = chunk.iter().map(|&b| f32::from_bits(b)).collect();
            let produced = engine
                .process(&[frames], None)
                .ok()
                .map(|channels| channels.iter().map(|c| bits(c)).collect());
            out.extend(self.resampler.finish_chunk(produced, engine.input_frames_next()));
        }
        out
    }
}

fn bits(samples: &[f32]) -> Vec<u32> {
    samples.iter().map(|s| s.to_bits()).collect()
}

/// The conversion in floating point.
fn reference(sample: f32) -> i16 {
    (sample.clamp(-1.0, 1.0) * i16::MAX as f32) as i16
}

#[test]
fn equal_rates_pass_through() {
    let mut r = Pair::new(16_000, 16_000).unwrap();
    let out = r.push(&[0.0, 0.5, -0.5, 1.0]);
    assert_eq!(out, vec![0, 16383, -16383, 32767]);
}

#[test]
fn downsamples_by_rate_ratio() {
    let mut r = Pair::new(48_000, 16_000).unwrap();

    // 1s at 48 kHz yields ~1s at 16 kHz, less the final partial chunk.
    let input: Vec<f32> = (0..48_000)
        .map(|i| ((i as f32 / 48_000.0) * std::f32::consts::TAU * 440.0).sin() * 0.5)
        .collect();

    let out = r.push(&input);
    let ratio = out.len() as f32 / 16_000.0;
    assert!(ratio > 0.9 && ratio <= 1.0, "got {} samples", out.len());
}

#[test]
fn small_writes_accumulate() {
    let mut r = Pair::new(48_000, 16_000).unwrap();
    let mut total = 0;
    for _ in 0..1000 {
        total += r.push(&[0.1; 128]).len();
    }
    assert!(total > 0, "128-sample writes produced nothing");
}

#[test]
fn clamps_out_of_range() {
    let mut r = Pair::new(16_000, 16_000).unwrap();
    assert_eq!(r.push(&[9.0, -9.0]), vec![32767, -32767]);
}

#[test]
fn rejects_zero_rate() {
    assert!(Pair::new(0, 16_000).is_err());
    assert!(Pair::new(48_000, 0).is_err());
    assert!(matches!(Resampler::new(0, 0), Err(Error::ZeroSampleRate)));
}

#[test]
fn small_writes_equal_one_write() {
    let input: Vec<f32> = (0..20_000).map(|i| (i as f32 * 0.01).sin() * 0.8).collect();
    let mut whole = Pair::new(44_100, 16_000).unwrap();
    let expected = whole.push(&input);
    let mut pieces = Pair::new(44_100, 16_000).unwrap();
    let mut out = Vec::new();
    for piece in input.chunks(333) {
        out.extend(pieces.push(piece));
    }
    assert_eq!(out, expected);
    assert_eq!(pieces.resampler.dropped_chunks(), 0);
}

#[test]
fn samples_match_floating_point() {
    let mut bits: u32 = 0;
    loop {
        let sample = f32::from_bits(bits);
        assert_eq!(to_i16(bits), reference(sample), "{sample} ({bits:#x})");
        match bits.checked_add(1_571) {
            Some(next) => bits = next,
            None => break,
        }
    }
}

#[test]
fn samples_near_a_step_match_floating_point() {
    for n in -32_767i32..=32_767 {
        let near = (n as f32 / 32_767.0).to_bits();
        for offset in 0..7 {
            let bits = near.wrapping_add(offset).wrapping_sub(3);
            assert_eq!(to_i16(bits), reference(f32::from_bits(bits)), "{bits:#x}");
        }
    }
}

#[test]
fn special_numbers() {
    assert_eq!(to_i16(f32::NAN.to_bits()), 0);
    assert_eq!(to_i16((-f32::NAN).to_bits()), 0);
    assert_eq!(to_i16(f32::INFINITY.to_bits()), 32767);
    assert_eq!(to_i16(f32::NEG_INFINITY.to_bits()), -32767);
    assert_eq!(to_i16(0.0f32.to_bits()), 0);
    assert_eq!(to_i16((-0.0f32).to_bits()), 0);
    assert_eq!(to_i16(f32::MIN_POSITIVE.to_bits()), 0);
    assert_eq!(to_i16(1), 0);
    assert_eq!(to_i16((-1.0f32).to_bits()), -32767);
    assert_eq!(to_i16(0.999_999_94f32.to_bits()), 32766);
}

#[test]
fn order_is_kept() {
    let mut last = 0;
    for bits in (0..=f32::INFINITY.to_bits()).step_by(9_973) {
        let sample = to_i16(bits);
        assert!(sample >= last);
        assert_eq!(to_i16(bits | 0x8000_0000), -sample);
        last = sample;
    }
    assert_eq!(last, 32767);
}

#[test]
fn chunks_come_whole_and_in_order() {
    let mut r = Resampler::new(48_000, 16_000).unwrap();
    r.attach(Ok(3)).unwrap();
    assert!(r.push(&[1, 2]).is_empty());
    assert!(r.next_chunk().is_none());
    assert!(r.push(&[3, 4, 5, 6, 7, 8]).is_empty());
    assert_eq!(r.next_chunk(), Some(vec![1, 2, 3]));
    // The engine asks for two frames next.
    assert_eq!(r.finish_chunk(Some(vec![bits(&[0.5])]), 2), vec![16383]);
    assert_eq!(r.next_chunk(), Some(vec![4, 5]));
    assert!(r.finish_chunk(None, 4).is_empty());
    assert!(r.next_chunk().is_none());
    assert_eq!(r.dropped_chunks(), 1);
    r.push(&[9]);
    assert_eq!(r.next_chunk(), Some(vec![6, 7, 8, 9]));
}

#[test]
fn interleaved_pushes_give_the_same_chunks() {
    fn drain(r: &mut Resampler, chunks: &mut Vec<Vec<u32>>) {
        while let Some(chunk) = r.next_chunk() {
            chunks.push(chunk);
            r.finish_chunk(Some(vec![Vec::new()]), 5);
        }
    }
    let input: Vec<u32> = (0..33).collect();
    let mut whole = Resampler::new(48_000, 16_000).unwrap();
    whole.attach(Ok(5)).unwrap();
    whole.push(&input);
    let mut expected = Vec::new();
    drain(&mut whole, &mut expected);
    assert_eq!(expected.len(), 6);
    assert_eq!(whole.held(), 3);
    for cut in 0..=input.len() {
        let mut pieces = Resampler::new(48_000, 16_000).unwrap();
        pieces.attach(Ok(5)).unwrap();
        let mut chunks = Vec::new();
        pieces.push(&input[..cut]);
        drain(&mut pieces, &mut chunks);
        pieces.push(&input[cut..]);
        drain(&mut pieces, &mut chunks);
        assert_eq!(chunks, expected);
        assert_eq!(pieces.held(), 3);
    }
}

#[test]
fn refused_chunks_are_counted() {
    let mut r = Resampler::new(48_000, 16_000).unwrap();
    r.attach(Ok(1)).unwrap();
    r.push(&[0, 0, 0]);
    r.next_chunk().unwrap();
    assert!(r.finish_chunk(None, 1).is_empty());
    r.next_chunk().unwrap();
    // An answer without channels is no answer.
    assert!(r.finish_chunk(Some(Vec::new()), 1).is_empty());
    r.next_chunk().unwrap();
    // Only the first channel counts.
    assert_eq!(
        r.finish_chunk(Some(vec![bits(&[1.0]), bits(&[0.0])]), 1),
        vec![32767]
    );
    assert_eq!(r.dropped_chunks(), 2);
}

#[test]
fn an_unbuildable_engine_names_the_rates() {
    let mut r = Resampler::new(44_100, 16_000).unwrap();
    let error = r.attach(Err(vec!["bad ratio".to_string()])).unwrap_err();
    assert_eq!(
        error.message_chain(),
        "could not build a resampler for 44100 Hz to 16000 Hz: bad ratio"
    );
}
