use parser_commands::pcm::samples_to_bytes;
use parser_commands::wav::{create_wav, parse_wav, wav_header_bytes, WavError};

fn expected_header(data_len: u32) -> Vec<u8> {
    let mut h = Vec::new();
    h.extend_from_slice(b"RIFF");
    h.extend_from_slice(&(36 + data_len).to_le_bytes());
    h.extend_from_slice(b"WAVEfmt ");
    h.extend_from_slice(&16u32.to_le_bytes());
    h.extend_from_slice(&1u16.to_le_bytes());
    h.extend_from_slice(&2u16.to_le_bytes());
    h.extend_from_slice(&48000u32.to_le_bytes());
    h.extend_from_slice(&192000u32.to_le_bytes());
    h.extend_from_slice(&4u16.to_le_bytes());
    h.extend_from_slice(&16u16.to_le_bytes());
    h.extend_from_slice(b"data");
    h.extend_from_slice(&data_len.to_le_bytes());
    h
}

#[test]
fn header_bytes_match_the_canonical_layout() {
    assert_eq!(wav_header_bytes(2, 48000, 8), expected_header(8));
}

#[test]
fn create_wav_writes_header_then_payload() {
    let pcm = vec![1, 0, 2, 0, 0xff, 0xff, 0x00, 0x80];
    let wav = create_wav(&pcm).unwrap();
    let mut expected = expected_header(8);
    expected.extend_from_slice(&pcm);
    assert_eq!(wav, expected);
}

#[test]
fn create_wav_drops_a_trailing_partial_pair() {
    let pcm = vec![1, 0, 2, 0, 9, 9, 9];
    let wav = create_wav(&pcm).unwrap();
    let mut expected = expected_header(4);
    expected.extend_from_slice(&[1, 0, 2, 0]);
    assert_eq!(wav, expected);
}

#[test]
fn create_wav_of_nothing_is_a_bare_header() {
    assert_eq!(create_wav(&Vec::new()).unwrap(), expected_header(0));
}

#[test]
fn wav_round_trip_keeps_samples_and_format() {
    let samples: Vec<i16> = (0..200).map(|i| (i * 331 - 30000) as i16).collect();
    let wav = create_wav(&samples_to_bytes(&samples)).unwrap();
    let parsed = parse_wav(&wav).unwrap();
    assert_eq!(parsed.channels, 2);
    assert_eq!(parsed.sample_rate, 48000);
    assert_eq!(parsed.bits_per_sample, 16);
    assert_eq!(parsed.samples, samples);
}

#[test]
fn hound_reads_what_create_wav_writes() {
    let samples: Vec<i16> = vec![0, 1, -1, 32767, -32768, 1000];
    let wav = create_wav(&samples_to_bytes(&samples)).unwrap();
    let mut reader = hound::WavReader::new(std::io::Cursor::new(wav)).unwrap();
    let spec = reader.spec();
    assert_eq!(spec.channels, 2);
    assert_eq!(spec.sample_rate, 48000);
    assert_eq!(spec.bits_per_sample, 16);
    assert_eq!(spec.sample_format, hound::SampleFormat::Int);
    let read: Vec<i16> = reader.samples::<i16>().map(|s| s.unwrap()).collect();
    assert_eq!(read, samples);
}

#[test]
fn parse_rejects_what_is_not_canonical() {
    assert!(parse_wav(&Vec::new()).is_none());
    assert!(parse_wav(&vec![0; 44]).is_none());
    let mut wav = create_wav(&vec![1, 0, 2, 0]).unwrap();
    wav.push(0);
    assert!(parse_wav(&wav).is_none());
    let mut wav = create_wav(&vec![1, 0, 2, 0]).unwrap();
    wav[40] = 9;
    assert!(parse_wav(&wav).is_none());
}

#[test]
fn wav_errors_are_distinct() {
    assert_ne!(WavError::TooLarge, WavError::Encoding);
}

#[test]
fn create_wav_keeps_extreme_samples() {
    let pcm = vec![0x01, 0x00, 0xFF, 0xFF, 0x00, 0x80, 0xFF, 0x7F];
    let parsed = parse_wav(&create_wav(&pcm).unwrap()).unwrap();
    assert_eq!(parsed.samples, vec![1, -1, -32768, 32767]);
}

#[test]
fn create_wav_of_one_and_a_half_pairs_keeps_one_pair() {
    let wav = create_wav(&vec![0x01, 0x00, 0x02, 0x00, 0x03, 0x00]).unwrap();
    assert_eq!(wav.len(), 48);
    assert_eq!(parse_wav(&wav).unwrap().samples, vec![1, 2]);
}

#[test]
fn create_wav_is_deterministic() {
    let pcm: Vec<u8> = (0..400u32).map(|i| (i * 7 % 256) as u8).collect();
    assert_eq!(create_wav(&pcm).unwrap(), create_wav(&pcm.clone()).unwrap());
}
