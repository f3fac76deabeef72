use node_system_audio::wav::mono_pcm16;

#[test]
fn starts_with_riff_wave() {
    let w = mono_pcm16(&[0, 1, -1], 16_000);
    assert_eq!(&w[0..4], b"RIFF");
    assert_eq!(&w[8..12], b"WAVE");
}

#[test]
fn header_is_44_bytes() {
    let samples = [0i16; 100];
    let w = mono_pcm16(&samples, 16_000);
    assert_eq!(w.len(), 44 + 200);

    let riff_size = u32::from_le_bytes(w[4..8].try_into().unwrap());
    assert_eq!(riff_size as usize, w.len() - 8);

    let data_size = u32::from_le_bytes(w[40..44].try_into().unwrap());
    assert_eq!(data_size, 200);
}

#[test]
fn declares_mono_16bit() {
    let w = mono_pcm16(&[0], 16_000);
    assert_eq!(u16::from_le_bytes(w[20..22].try_into().unwrap()), 1); // PCM
    assert_eq!(u16::from_le_bytes(w[22..24].try_into().unwrap()), 1); // channels
    assert_eq!(u32::from_le_bytes(w[24..28].try_into().unwrap()), 16_000);
    assert_eq!(u32::from_le_bytes(w[28..32].try_into().unwrap()), 32_000); // byte rate
    assert_eq!(u16::from_le_bytes(w[32..34].try_into().unwrap()), 2); // block align
    assert_eq!(u16::from_le_bytes(w[34..36].try_into().unwrap()), 16); // bit depth
}

#[test]
fn samples_are_little_endian() {
    let w = mono_pcm16(&[0x0102], 16_000);
    assert_eq!(&w[44..46], &[0x02, 0x01]);
}

#[test]
fn empty_clip_is_valid() {
    let w = mono_pcm16(&[], 16_000);
    assert_eq!(w.len(), 44);
    assert_eq!(u32::from_le_bytes(w[40..44].try_into().unwrap()), 0);
}

#[test]
fn every_sample_round_trips() {
    let samples: Vec<i16> = (i16::MIN..=i16::MAX).collect();
    let w = mono_pcm16(&samples, 44_100);
    let back: Vec<i16> = w[44..].chunks(2).map(|b| i16::from_le_bytes([b[0], b[1]])).collect();
    assert_eq!(back, samples);
}

#[test]
fn chunk_tags_stand_in_place() {
    let w = mono_pcm16(&[1], 8_000);
    assert_eq!(&w[12..16], b"fmt ");
    assert_eq!(&w[16..20], &[16, 0, 0, 0]);
    assert_eq!(&w[36..40], b"data");
}
