//! Minimal canonical WAV writer: mono, 16-bit PCM.
//!
//! A container rather than bare PCM so format sniffers accept it and the bytes play in an
//! `<audio>` element unchanged.
use vstd::prelude::*;

verus! {

/// Bytes of the header that the RIFF size field counts.
pub const HEADER_BYTES: u32 = 36;

/// A 16-bit value, least significant byte first.
pub open spec fn le16(v: nat) -> Seq<u8> {
    seq![(v % 256) as u8, (v / 256 % 256) as u8]
}

/// A 32-bit value, least significant byte first.
pub open spec fn le32(v: nat) -> Seq<u8> {
    seq![
        (v % 256) as u8,
        (v / 256 % 256) as u8,
        (v / 65536 % 256) as u8,
        (v / 16777216 % 256) as u8,
    ]
}

/// The value that two bytes encode, least significant first.
pub open spec fn from_le16(low: u8, high: u8) -> nat {
    (low + 256 * high) as nat
}

/// The value that the four bytes of `s` at `at` encode, least significant first.
pub open spec fn from_le32(s: Seq<u8>, at: int) -> nat {
    (s[at] + 256 * s[at + 1] + 65536 * s[at + 2] + 16777216 * s[at + 3]) as nat
}

/// Two's complement of a sample in 16 bits.
pub open spec fn twos_complement(sample: i16) -> nat {
    if sample < 0 {
        (sample + 65536) as nat
    } else {
        sample as nat
    }
}

/// The sample that two bytes encode, least significant first.
pub open spec fn decoded(low: u8, high: u8) -> int {
    let v = from_le16(low, high) as int;
    if v < 32768 {
        v
    } else {
        v - 65536
    }
}

/// Bytes of sample data, as the 32-bit size field holds them.
pub open spec fn data_size(samples: nat) -> nat {
    (2 * samples) % 0x1_0000_0000
}

/// Whether the sizes and the byte rate of a clip fit their header fields.
pub open spec fn encodable(samples: nat, rate: nat) -> bool {
    &&& HEADER_BYTES + data_size(samples) <= u32::MAX
    &&& 2 * rate <= u32::MAX
}

/// The 44 header bytes of a mono 16-bit PCM clip.
#[verifier::opaque]
pub open spec fn header(samples: nat, rate: nat) -> Seq<u8> {
    // "RIFF", what follows the size field, "WAVE"
    seq![0x52u8, 0x49u8, 0x46u8, 0x46u8] + le32(HEADER_BYTES as nat + data_size(samples)) + seq![
        0x57u8,
        0x41u8,
        0x56u8,
        0x45u8,
    ]
    // "fmt ", 16 bytes of it: PCM, one channel, rate, byte rate, block align, bits per sample
     + seq![0x66u8, 0x6du8, 0x74u8, 0x20u8] + le32(16) + le16(1) + le16(1) + le32(rate) + le32(
        2 * rate,
    ) + le16(2) + le16(16)
    // "data" and its size
     + seq![0x64u8, 0x61u8, 0x74u8, 0x61u8] + le32(data_size(samples))
}

/// The sample data of a clip.
pub open spec fn payload(samples: Seq<i16>) -> Seq<u8> {
    Seq::new(2 * samples.len(), |k: int| le16(twos_complement(samples[k / 2]))[k % 2])
}

/// Whether the sizes and the byte rate of a clip fit their header fields.
pub fn fits_header(samples: usize, rate: u32) -> (fits: bool)
    ensures
        fits == encodable(samples as nat, rate as nat),
{
    let data_bytes: u64 = ((samples as u64) % 0x8000_0000) * 2;
    HEADER_BYTES as u64 + data_bytes <= u32::MAX as u64 && 2 * rate as u64 <= u32::MAX as u64
}

fn push_u16(out: &mut Vec<u8>, v: u16)
    ensures
        final(out)@ == old(out)@ + le16(v as nat),
{
    out.push((v % 256) as u8);
    out.push((v / 256 % 256) as u8);
    assert(out@ =~= old(out)@ + le16(v as nat));
}

fn push_u32(out: &mut Vec<u8>, v: u32)
    ensures
        final(out)@ == old(out)@ + le32(v as nat),
{
    out.push((v % 256) as u8);
    out.push((v / 256 % 256) as u8);
    out.push((v / 65536 % 256) as u8);
    out.push((v / 16777216 % 256) as u8);
    assert(out@ =~= old(out)@ + le32(v as nat));
}

fn push_tag(out: &mut Vec<u8>, a: u8, b: u8, c: u8, d: u8)
    ensures
        final(out)@ == old(out)@ + seq![a, b, c, d],
{
    out.push(a);
    out.push(b);
    out.push(c);
    out.push(d);
    assert(out@ =~= old(out)@ + seq![a, b, c, d]);
}

/// A mono 16-bit WAV file that holds `samples` at `rate`.
#[verifier::spinoff_prover]
pub fn mono_pcm16(samples: &[i16], rate: u32) -> (out: Vec<u8>)
    requires
        encodable(samples@.len(), rate as nat),
    ensures
        out@ == header(samples@.len(), rate as nat) + payload(samples@),
{
    let data_bytes: u32 = (((samples.len() as u64) % 0x8000_0000) * 2) as u32;
    assert(data_bytes == data_size(samples@.len()));
    let mut out: Vec<u8> = Vec::new();

    // RIFF chunk. The magic is what format sniffers key on.
    push_tag(&mut out, 0x52, 0x49, 0x46, 0x46);
    push_u32(&mut out, HEADER_BYTES + data_bytes);
    push_tag(&mut out, 0x57, 0x41, 0x56, 0x45);

    // fmt subchunk: PCM (1), 1 channel, 16 bits per sample.
    push_tag(&mut out, 0x66, 0x6d, 0x74, 0x20);
    push_u32(&mut out, 16);
    push_u16(&mut out, 1);
    push_u16(&mut out, 1);
    push_u32(&mut out, rate);
    push_u32(&mut out, rate * 2);
    push_u16(&mut out, 2);
    push_u16(&mut out, 16);

    push_tag(&mut out, 0x64, 0x61, 0x74, 0x61);
    push_u32(&mut out, data_bytes);
    proof {
        reveal(header);
    }
    assert(out@ =~= header(samples@.len(), rate as nat));

    let mut i: usize = 0;
    while i < samples.len()
        invariant
            i <= samples@.len(),
            out@ == header(samples@.len(), rate as nat) + payload(samples@.subrange(0, i as int)),
        decreases samples.len() - i,
    {
        let s: i16 = samples[i];
        let v: u16 = if s < 0 { (s as i32 + 65536) as u16 } else { s as u16 };
        push_u16(&mut out, v);
        assert(payload(samples@.subrange(0, i + 1)) =~= payload(samples@.subrange(0, i as int))
            + le16(twos_complement(s)));
        assert(out@ =~= header(samples@.len(), rate as nat) + payload(
            samples@.subrange(0, i + 1),
        ));
        i += 1;
    }
    assert(samples@.subrange(0, samples@.len() as int) =~= samples@);
    out
}

/// Law: the header is 44 bytes long, begins with the magic that sniffers key on, and declares
/// uncompressed mono at 16 bits with the given rate.
#[verifier::spinoff_prover]
pub proof fn law_header_layout(samples: nat, rate: nat)
    requires
        encodable(samples, rate),
    ensures
        header(samples, rate).len() == 44,
        header(samples, rate).subrange(0, 4) == seq![0x52u8, 0x49u8, 0x46u8, 0x46u8],
        header(samples, rate).subrange(8, 12) == seq![0x57u8, 0x41u8, 0x56u8, 0x45u8],
        from_le16(header(samples, rate)[20], header(samples, rate)[21]) == 1,
        from_le16(header(samples, rate)[22], header(samples, rate)[23]) == 1,
        from_le32(header(samples, rate), 24) == rate,
        from_le32(header(samples, rate), 28) == 2 * rate,
        from_le16(header(samples, rate)[32], header(samples, rate)[33]) == 2,
        from_le16(header(samples, rate)[34], header(samples, rate)[35]) == 16,
{
    reveal(header);
    let h = header(samples, rate);
    assert(h.subrange(0, 4) =~= seq![0x52u8, 0x49u8, 0x46u8, 0x46u8]);
    assert(h.subrange(8, 12) =~= seq![0x57u8, 0x41u8, 0x56u8, 0x45u8]);
    assert(h.subrange(24, 28) =~= le32(rate));
    assert(h.subrange(28, 32) =~= le32(2 * rate));
    lemma_le32_at(h, 24, rate);
    lemma_le32_at(h, 28, 2 * rate);
}

/// Law: while the sample data is shorter than 4 GiB, the declared sizes are the real ones. The
/// RIFF size counts everything behind its own field, the data size all sample bytes.
pub proof fn law_declared_sizes(samples: Seq<i16>, rate: nat)
    requires
        encodable(samples.len(), rate),
        2 * samples.len() <= u32::MAX,
    ensures
        ({
            let file = header(samples.len(), rate) + payload(samples);
            &&& from_le32(file, 4) == file.len() - 8
            &&& from_le32(file, 40) == file.len() - 44
            &&& file.len() == 44 + 2 * samples.len()
        }),
{
    let h = header(samples.len(), rate);
    let size = data_size(samples.len());
    lemma_size_fields(samples.len(), rate);
    lemma_le32_at(h, 4, HEADER_BYTES as nat + size);
    lemma_le32_at(h, 40, size);
    lemma_field_of_prefix(h, payload(samples), 4);
    lemma_field_of_prefix(h, payload(samples), 40);
}

/// Where the two sizes stand in the header.
#[verifier::spinoff_prover]
proof fn lemma_size_fields(samples: nat, rate: nat)
    ensures
        header(samples, rate).len() == 44,
        header(samples, rate).subrange(4, 8) == le32(HEADER_BYTES as nat + data_size(samples)),
        header(samples, rate).subrange(40, 44) == le32(data_size(samples)),
{
    reveal(header);
    let h = header(samples, rate);
    assert(h.subrange(4, 8) =~= le32(HEADER_BYTES as nat + data_size(samples)));
    assert(h.subrange(40, 44) =~= le32(data_size(samples)));
}

/// What follows a header does not move its fields.
proof fn lemma_field_of_prefix(h: Seq<u8>, rest: Seq<u8>, at: int)
    requires
        0 <= at,
        at + 4 <= h.len(),
    ensures
        from_le32(h + rest, at) == from_le32(h, at),
{
}

/// Law: the file gives every sample back. Decoding the data section at any sample's place yields
/// the sample that was written.
pub proof fn law_samples_round_trip(samples: Seq<i16>, rate: nat, i: int)
    requires
        0 <= i < samples.len(),
    ensures
        ({
            let file = header(samples.len(), rate) + payload(samples);
            &&& file.len() == 44 + 2 * samples.len()
            &&& decoded(file[44 + 2 * i], file[45 + 2 * i]) == samples[i]
        }),
{
    let h = header(samples.len(), rate);
    lemma_size_fields(samples.len(), rate);
    lemma_sample_bytes(samples, i);
    lemma_sample_decodes(samples[i]);
    lemma_byte_behind(h, payload(samples), 2 * i);
    lemma_byte_behind(h, payload(samples), 2 * i + 1);
}

/// The bytes behind a header keep their order.
proof fn lemma_byte_behind(h: Seq<u8>, data: Seq<u8>, k: int)
    requires
        0 <= k < data.len(),
    ensures
        (h + data)[h.len() + k] == data[k],
{
}

/// The two bytes of a sample decode to it.
proof fn lemma_sample_decodes(sample: i16)
    ensures
        ({
            let bytes = le16(twos_complement(sample));
            decoded(bytes[0], bytes[1]) == sample
        }),
{
    let v = twos_complement(sample);
    assert(v < 65536);
    assert(v % 256 + 256 * (v / 256 % 256) == v);
}

/// Where the bytes of a sample stand in the data.
proof fn lemma_sample_bytes(samples: Seq<i16>, i: int)
    requires
        0 <= i < samples.len(),
    ensures
        payload(samples).len() == 2 * samples.len(),
        payload(samples)[2 * i] == le16(twos_complement(samples[i]))[0],
        payload(samples)[2 * i + 1] == le16(twos_complement(samples[i]))[1],
{
    assert((2 * i) / 2 == i && (2 * i) % 2 == 0);
    assert((2 * i + 1) / 2 == i && (2 * i + 1) % 2 == 1);
}

/// Reading a 32-bit field gives the value written into it.
proof fn lemma_le32_at(s: Seq<u8>, at: int, v: nat)
    requires
        0 <= at,
        at + 4 <= s.len(),
        s.subrange(at, at + 4) == le32(v),
        v <= u32::MAX,
    ensures
        from_le32(s, at) == v,
{
    let field = s.subrange(at, at + 4);
    assert(field[0] == s[at]);
    assert(field[1] == s[at + 1]);
    assert(field[2] == s[at + 2]);
    assert(field[3] == s[at + 3]);
}

/// Law: a player finds the audio. From byte 12 the subchunks follow one another by their declared
/// sizes: the format, 16 bytes of it, then the data, which reach to the end of the file; and the
/// whole is declared too.
#[verifier::spinoff_prover]
pub proof fn law_subchunks_lead_to_the_data(samples: Seq<i16>, rate: nat)
    requires
        encodable(samples.len(), rate),
        2 * samples.len() <= u32::MAX,
    ensures
        ({
            let file = header(samples.len(), rate) + payload(samples);
            let total = file[4] + 256 * file[5] + 65536 * file[6] + 16777216 * file[7];
            let format = file[16] + 256 * file[17] + 65536 * file[18] + 16777216 * file[19];
            let data = file[40] + 256 * file[41] + 65536 * file[42] + 16777216 * file[43];
            // "RIFF", "WAVE", "fmt ", "data"
            &&& (file[0], file[1], file[2], file[3]) == (0x52u8, 0x49u8, 0x46u8, 0x46u8)
            &&& (file[8], file[9], file[10], file[11]) == (0x57u8, 0x41u8, 0x56u8, 0x45u8)
            &&& (file[12], file[13], file[14], file[15]) == (0x66u8, 0x6du8, 0x74u8, 0x20u8)
            &&& (file[36], file[37], file[38], file[39]) == (0x64u8, 0x61u8, 0x74u8, 0x61u8)
            &&& format == 16
            &&& 12 + 8 + format == 36
            &&& 36 + 8 + data == file.len()
            &&& 8 + total == file.len()
            &&& file.len() == 44 + 2 * samples.len()
        }),
{
    let h = header(samples.len(), rate);
    let rest = payload(samples);
    law_declared_sizes(samples, rate);
    lemma_tags(samples.len(), rate);
    lemma_prefix_bytes(h, rest);
}

/// Law: the format is mono, 16 bits, uncompressed, at the given rate, in the fields where players
/// read it: two bytes make a frame and twice the rate a second.
#[verifier::spinoff_prover]
pub proof fn law_format_is_declared(samples: nat, rate: nat)
    requires
        encodable(samples, rate),
    ensures
        ({
            let h = header(samples, rate);
            &&& h.len() == 44
            &&& h[20] + 256 * h[21] == 1
            &&& h[22] + 256 * h[23] == 1
            &&& h[24] + 256 * h[25] + 65536 * h[26] + 16777216 * h[27] == rate
            &&& h[28] + 256 * h[29] + 65536 * h[30] + 16777216 * h[31] == 2 * rate
            &&& h[32] + 256 * h[33] == 2
            &&& h[34] + 256 * h[35] == 16
        }),
{
    law_header_layout(samples, rate);
}

/// Law: samples stand in the file in order, two bytes each, the lower one first, negative ones
/// counted down from 65536.
pub proof fn law_samples_are_little_endian(samples: Seq<i16>, rate: nat, i: int)
    requires
        0 <= i < samples.len(),
    ensures
        ({
            let file = header(samples.len(), rate) + payload(samples);
            file[44 + 2 * i] + 256 * file[45 + 2 * i] == if samples[i] < 0 {
                samples[i] + 65536
            } else {
                samples[i] as int
            }
        }),
{
    law_samples_round_trip(samples, rate, i);
}

/// Law: every clip whose sizes fit their fields can be written: any whose data and the 36 bytes
/// before it stay below 4 GiB, at any rate whose double fits 32 bits.
pub proof fn law_short_clips_are_encodable(samples: nat, rate: nat)
    ensures
        2 * samples + 36 <= 0xffff_ffff && 2 * rate <= 0xffff_ffff ==> encodable(samples, rate),
        2 * rate > 0xffff_ffff ==> !encodable(samples, rate),
        encodable(samples, rate) <==> encodable(samples + 0x8000_0000, rate),
        0xffff_ffff - 36 < 2 * samples <= 0xffff_ffff ==> !encodable(samples, rate),
{
}

/// Law: a clip too long for its size fields declares what is left of its size in 32 bits, and
/// nothing else of the header depends on the length.
pub proof fn law_sizes_wrap_at_32_bits(samples: nat, rate: nat)
    ensures
        header(samples + 0x8000_0000, rate) == header(samples, rate),
{
    reveal(header);
    assert((2 * (samples + 0x8000_0000)) % 0x1_0000_0000 == (2 * samples) % 0x1_0000_0000);
}

#[verifier::spinoff_prover]
proof fn lemma_tags(samples: nat, rate: nat)
    ensures
        ({
            let h = header(samples, rate);
            &&& h.len() == 44
            &&& (h[0], h[1], h[2], h[3]) == (0x52u8, 0x49u8, 0x46u8, 0x46u8)
            &&& (h[8], h[9], h[10], h[11]) == (0x57u8, 0x41u8, 0x56u8, 0x45u8)
            &&& (h[12], h[13], h[14], h[15]) == (0x66u8, 0x6du8, 0x74u8, 0x20u8)
            &&& (h[16], h[17], h[18], h[19]) == (16u8, 0u8, 0u8, 0u8)
            &&& (h[36], h[37], h[38], h[39]) == (0x64u8, 0x61u8, 0x74u8, 0x61u8)
        }),
{
    reveal(header);
}

proof fn lemma_prefix_bytes(h: Seq<u8>, rest: Seq<u8>)
    ensures
        forall|k: int| 0 <= k < h.len() ==> #[trigger] (h + rest)[k] == h[k],
{
}

} // verus!
