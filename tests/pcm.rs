use parser_commands::pcm::{bytes_to_samples, decode_samples, samples_to_bytes};

#[test]
fn samples_become_little_endian_bytes() {
    let bytes = samples_to_bytes(&vec![1, -1, 0x1234, -32768]);
    assert_eq!(bytes, vec![0x01, 0x00, 0xff, 0xff, 0x34, 0x12, 0x00, 0x80]);
}

#[test]
fn bytes_become_samples_in_whole_pairs() {
    let bytes = vec![0x01, 0x00, 0xff, 0xff, 0x34, 0x12, 0x00, 0x80, 0x07, 0x00, 0x09];
    assert_eq!(bytes_to_samples(&bytes), vec![1, -1, 0x1234, -32768]);
}

#[test]
fn too_few_bytes_give_no_samples() {
    assert!(bytes_to_samples(&vec![1, 2, 3]).is_empty());
    assert!(bytes_to_samples(&Vec::new()).is_empty());
}

#[test]
fn samples_survive_bytes_round_trip() {
    let samples: Vec<i16> = vec![i16::MIN, -12345, -1, 0, 1, 12345, i16::MAX, 42];
    assert_eq!(bytes_to_samples(&samples_to_bytes(&samples)), samples);
}

#[test]
fn decode_samples_reads_from_an_offset() {
    let bytes = vec![9, 0x02, 0x00, 0xfe, 0xff, 7];
    assert_eq!(decode_samples(&bytes, 1, 2), vec![2, -2]);
    assert!(decode_samples(&bytes, 6, 0).is_empty());
}
