//! The WAV container: writing recorded PCM through hound, and reading the
//! canonical 16-bit PCM layout back.
use vstd::prelude::*;
use crate::pcm::{bytes_to_samples, decode_samples, le_samples, pcm_bytes, pcm_samples, lemma_le_samples_round_trip};

verus! {

#[verifier::external_type_specification]
#[verifier::external_body]
pub struct ExHoundError(hound::Error);

/// Channels of a recording.
pub const WAV_CHANNELS: u16 = 2;

/// Sample rate of a recording, in Hz.
pub const WAV_SAMPLE_RATE: u32 = 48000;

/// Bits per sample of a recording.
pub const WAV_BITS: u16 = 16;

/// Bytes before the sample payload in the canonical layout.
pub const WAV_HEADER_LEN: usize = 44;

/// Little-endian bytes of the low 16 bits of `x`.
pub open spec fn le16(x: int) -> Seq<u8> {
    seq![(x % 256) as u8, (x / 256 % 256) as u8]
}

/// Little-endian bytes of the low 32 bits of `x`.
pub open spec fn le32(x: int) -> Seq<u8> {
    seq![
        (x % 256) as u8,
        (x / 256 % 256) as u8,
        (x / 65536 % 256) as u8,
        (x / 16777216 % 256) as u8,
    ]
}

/// The 16-bit little-endian value at offset `i`.
pub open spec fn u16_at(b: Seq<u8>, i: int) -> int {
    b[i] + 256 * b[i + 1]
}

/// The 32-bit little-endian value at offset `i`.
pub open spec fn u32_at(b: Seq<u8>, i: int) -> int {
    b[i] + 256 * b[i + 1] + 65536 * b[i + 2] + 16777216 * b[i + 3]
}

/// The four ASCII bytes of a chunk tag.
pub open spec fn tag(a: u8, b: u8, c: u8, d: u8) -> Seq<u8> {
    seq![a, b, c, d]
}

/// The 44-byte header of a 16-bit integer PCM file in the PCMWAVEFORMAT
/// layout, for `data_len` payload bytes.
pub open spec fn wav_header(channels: int, rate: int, data_len: int) -> Seq<u8> {
    tag(0x52, 0x49, 0x46, 0x46) + le32(36 + data_len) + tag(0x57, 0x41, 0x56, 0x45) + tag(
        0x66,
        0x6d,
        0x74,
        0x20,
    ) + le32(16) + le16(1) + le16(channels) + le32(rate) + le32(rate * 2 * channels) + le16(
        2 * channels,
    ) + le16(16) + tag(0x64, 0x61, 0x74, 0x61) + le32(data_len)
}

/// A whole 16-bit PCM file: header, then each sample as two little-endian bytes.
pub open spec fn wav_file(channels: int, rate: int, samples: Seq<i16>) -> Seq<u8> {
    wav_header(channels, rate, 2 * samples.len() as int) + pcm_bytes(samples)
}

/// Whether `n` samples fit the 32-bit size fields of a WAV file.
pub open spec fn fits_wav(n: int) -> bool {
    2 * n + 36 <= u32::MAX
}

/// Relies on hound's `WavWriter` (`new`, `write_sample`, `finalize`) over an
/// in-memory cursor: for 16-bit integer samples and at most two channels it
/// writes the 44-byte PCMWAVEFORMAT header, then each sample as two
/// little-endian bytes, and `finalize` patches the two size fields. Writes and
/// seeks on the in-memory cursor do not fail, the bit depth is supported and
/// the sample count is a multiple of the channel count, so no call fails.
#[verifier::external_body]
fn hound_write_pcm16(channels: u16, sample_rate: u32, bits: u16, samples: &Vec<i16>) -> (r: Result<
    Vec<u8>,
    hound::Error,
>)
    requires
        1 <= channels <= 2,
        bits == 16,
        1 <= sample_rate,
        4 * sample_rate <= u32::MAX,
        samples@.len() % (channels as nat) == 0,
        fits_wav(samples@.len() as int),
    ensures
        r is Ok,
        r matches Ok(b) ==> b@ == wav_file(channels as int, sample_rate as int, samples@),
{
    let mut bytes: Vec<u8> = Vec::new();
    let spec = hound::WavSpec {
        channels,
        sample_rate,
        bits_per_sample: bits,
        sample_format: hound::SampleFormat::Int,
    };
    let mut writer = hound::WavWriter::new(std::io::Cursor::new(&mut bytes), spec)?;
    for s in samples.iter() {
        writer.write_sample(*s)?;
    }
    writer.finalize()?;
    Ok(bytes)
}

/// Failure to build a WAV file.
#[derive(Clone, Copy, Debug, PartialEq, Eq, Structural)]
pub enum WavError {
    /// The payload does not fit the 32-bit size fields.
    TooLarge,
    /// The writer reported an error.
    Encoding,
}

/// Encodes raw PCM bytes (little-endian 16-bit stereo, trailing partial pair
/// dropped) as a 2-channel, 48000 Hz, 16-bit WAV file.
pub fn create_wav(pcm_data: &Vec<u8>) -> (r: Result<Vec<u8>, WavError>)
    ensures
        !fits_wav(pcm_samples(pcm_data@).len() as int) <==> r == Err::<Vec<u8>, WavError>(
            WavError::TooLarge,
        ),
        fits_wav(pcm_samples(pcm_data@).len() as int) ==> r is Ok,
        r matches Ok(w) ==> w@ == wav_file(2, 48000, pcm_samples(pcm_data@)),
{
    let samples = bytes_to_samples(pcm_data);
    if samples.len() > (u32::MAX as usize - 36) / 2 {
        return Err(WavError::TooLarge);
    }
    assert(samples@.len() % 2 == 0) by {
        let n = pcm_data@.len() / 4;
        assert(n * 2 % 2 == 0) by (nonlinear_arith);
    }
    match hound_write_pcm16(WAV_CHANNELS, WAV_SAMPLE_RATE, WAV_BITS, &samples) {
        Ok(w) => Ok(w),
        Err(_) => Err(WavError::Encoding),
    }
}

/// What a canonical 16-bit PCM WAV file holds.
pub struct WavData {
    pub channels: u16,
    pub sample_rate: u32,
    pub bits_per_sample: u16,
    pub samples: Vec<i16>,
}

/// Whether `b` is a 16-bit integer PCM file in the canonical 44-byte header
/// layout, with at least one channel, a whole number of samples and sizes that
/// agree with its length.
pub open spec fn is_canonical_wav(b: Seq<u8>) -> bool {
    &&& b.len() >= 44
    &&& b.len() - 8 <= u32::MAX
    &&& (b.len() - 44) % 2 == 0
    &&& u16_at(b, 22) >= 1
    &&& b.subrange(0, 44) == wav_header(u16_at(b, 22), u32_at(b, 24), b.len() - 44)
}

/// Appends the little-endian bytes of the low 16 bits of `x`.
fn push_le16(out: &mut Vec<u8>, x: u64)
    ensures
        final(out)@ == old(out)@ + le16(x as int),
{
    out.push((x % 256) as u8);
    out.push((x / 256 % 256) as u8);
    assert(final(out)@ =~= old(out)@ + le16(x as int));
}

/// Appends the little-endian bytes of the low 32 bits of `x`.
fn push_le32(out: &mut Vec<u8>, x: u64)
    ensures
        final(out)@ == old(out)@ + le32(x as int),
{
    out.push((x % 256) as u8);
    out.push((x / 256 % 256) as u8);
    out.push((x / 65536 % 256) as u8);
    out.push((x / 16777216 % 256) as u8);
    assert(final(out)@ =~= old(out)@ + le32(x as int));
}

/// Appends a four-byte chunk tag.
fn push_tag(out: &mut Vec<u8>, a: u8, b: u8, c: u8, d: u8)
    ensures
        final(out)@ == old(out)@ + tag(a, b, c, d),
{
    out.push(a);
    out.push(b);
    out.push(c);
    out.push(d);
    assert(final(out)@ =~= old(out)@ + tag(a, b, c, d));
}

/// The canonical header for the given channels, rate and payload length.
pub fn wav_header_bytes(channels: u16, sample_rate: u32, data_len: u32) -> (r: Vec<u8>)
    ensures
        r@ == wav_header(channels as int, sample_rate as int, data_len as int),
        r@.len() == WAV_HEADER_LEN,
{
    let ch: u64 = channels as u64;
    let rate: u64 = sample_rate as u64;
    let mut out: Vec<u8> = Vec::new();
    push_tag(&mut out, 0x52, 0x49, 0x46, 0x46);
    push_le32(&mut out, 36 + data_len as u64);
    push_tag(&mut out, 0x57, 0x41, 0x56, 0x45);
    push_tag(&mut out, 0x66, 0x6d, 0x74, 0x20);
    push_le32(&mut out, 16);
    push_le16(&mut out, 1);
    push_le16(&mut out, ch);
    push_le32(&mut out, rate);
    assert(rate * 2 * ch <= 0xffff_ffff * 2 * 0xffff) by (nonlinear_arith)
        requires
            rate <= 0xffff_ffff,
            ch <= 0xffff,
    ;
    push_le32(&mut out, rate * 2 * ch);
    push_le16(&mut out, 2 * ch);
    push_le16(&mut out, 16);
    push_tag(&mut out, 0x64, 0x61, 0x74, 0x61);
    push_le32(&mut out, data_len as u64);
    out
}

/// Whether `bytes` begins with all of `prefix`.
fn starts_with(bytes: &Vec<u8>, prefix: &Vec<u8>) -> (r: bool)
    requires
        prefix@.len() <= bytes@.len(),
    ensures
        r == (bytes@.subrange(0, prefix@.len() as int) == prefix@),
{
    let mut j: usize = 0;
    while j < prefix.len()
        invariant
            j <= prefix@.len() <= bytes@.len(),
            forall|t: int| 0 <= t < j ==> bytes@[t] == prefix@[t],
        decreases prefix@.len() - j,
    {
        if bytes[j] != prefix[j] {
            assert(bytes@.subrange(0, prefix@.len() as int)[j as int] != prefix@[j as int]);
            return false;
        }
        j = j + 1;
    }
    assert(bytes@.subrange(0, prefix@.len() as int) =~= prefix@);
    true
}

/// Reads a canonical 16-bit PCM WAV file; `None` for anything else.
pub fn parse_wav(bytes: &Vec<u8>) -> (r: Option<WavData>)
    ensures
        r is Some <==> is_canonical_wav(bytes@),
        r matches Some(w) ==> {
            &&& w.channels as int == u16_at(bytes@, 22)
            &&& w.sample_rate as int == u32_at(bytes@, 24)
            &&& w.bits_per_sample == 16
            &&& w.samples@ == le_samples(bytes@.subrange(44, bytes@.len() as int))
        },
{
    let len: usize = bytes.len();
    if len < WAV_HEADER_LEN || (len - 8) as u64 > u32::MAX as u64 || (len - WAV_HEADER_LEN) % 2
        != 0 {
        return None;
    }
    let channels: u16 = bytes[22] as u16 + 256 * bytes[23] as u16;
    let sample_rate: u32 = bytes[24] as u32 + 256 * bytes[25] as u32 + 65536 * bytes[26] as u32
        + 16777216 * bytes[27] as u32;
    if channels == 0 {
        return None;
    }
    let data_len: u32 = (len - WAV_HEADER_LEN) as u32;
    let expected = wav_header_bytes(channels, sample_rate, data_len);
    if !starts_with(bytes, &expected) {
        return None;
    }
    let n: usize = (len - WAV_HEADER_LEN) / 2;
    let samples = decode_samples(bytes, WAV_HEADER_LEN, n);
    Some(WavData { channels, sample_rate, bits_per_sample: WAV_BITS, samples })
}

/// Encoding whole stereo sample pairs as a WAV file and reading it back gives
/// 2 channels, 48000 Hz and the same samples in the same order.
pub proof fn lemma_wav_round_trip(samples: Seq<i16>)
    requires
        samples.len() % 2 == 0,
        fits_wav(samples.len() as int),
    ensures
        is_canonical_wav(wav_file(2, 48000, samples)),
        u16_at(wav_file(2, 48000, samples), 22) == 2,
        u32_at(wav_file(2, 48000, samples), 24) == 48000,
        le_samples(
            wav_file(2, 48000, samples).subrange(44, wav_file(2, 48000, samples).len() as int),
        ) == samples,
{
    let h = wav_header(2, 48000, 2 * samples.len() as int);
    let b = wav_file(2, 48000, samples);
    assert(h.len() == 44);
    assert(b[22] == 2 && b[23] == 0);
    assert(b[24] == 128 && b[25] == 187 && b[26] == 0 && b[27] == 0);
    assert(b.subrange(0, 44) =~= h);
    assert(b.subrange(44, b.len() as int) =~= pcm_bytes(samples));
    lemma_le_samples_round_trip(samples);
}

} // verus!
