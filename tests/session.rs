use parser_commands::mixer::FRAME_LEN;
use parser_commands::session::{SessionBuffer, VoiceHandler};

#[test]
fn buffer_appends_in_order_until_drained() {
    let mut b = SessionBuffer::new();
    assert!(b.append(vec![1, 2]));
    assert!(b.append(vec![3]));
    assert_eq!(b.drain_all(), vec![1, 2, 3]);
    assert!(!b.append(vec![4]));
    assert_eq!(b.drain_all(), Vec::<u8>::new());
}

#[test]
fn handler_writes_mixed_frames_as_bytes() {
    let mut h = VoiceHandler::new(42);
    assert_eq!(h.channel_id(), 42);
    assert!(h.act(&vec![Some(vec![-2; FRAME_LEN])]));
    let pcm = h.finish();
    assert_eq!(pcm.len(), 2 * FRAME_LEN);
    assert_eq!(&pcm[..4], &[0xfe, 0xff, 0xfe, 0xff]);
    assert!(!h.act(&vec![Some(vec![1; FRAME_LEN])]));
}
