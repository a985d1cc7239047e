use parser_commands::mixer::FRAME_LEN;
use parser_commands::state::{RecordError, State};
use parser_commands::wav::parse_wav;

#[test]
fn start_twice_is_already_active() {
    let mut state = State::new();
    assert_eq!(state.start(7, 10, true), Ok(()));
    assert_eq!(state.start(7, 11, true), Err(RecordError::AlreadyActive));
    assert!(state.is_recording(7));
    // the first recording is still the one in place
    let wav = state.stop(7).unwrap();
    assert_eq!(parse_wav(&wav).unwrap().samples.len(), 0);
    assert_eq!(state.stop(7), Err(RecordError::NotActive));
}

#[test]
fn stop_without_session_is_not_active() {
    let mut state = State::new();
    assert_eq!(state.stop(3), Err(RecordError::NotActive));
    assert!(!state.is_recording(3));
    state.start(4, 1, true).unwrap();
    assert_eq!(state.stop(3), Err(RecordError::NotActive));
    assert!(state.is_recording(4));
}

#[test]
fn failed_join_registers_nothing() {
    let mut state = State::new();
    assert_eq!(state.start(5, 1, false), Err(RecordError::ConnectionFailure));
    assert!(!state.is_recording(5));
    assert_eq!(state.start(5, 1, true), Ok(()));
    assert!(state.is_recording(5));
}

#[test]
fn ticks_for_idle_rooms_are_ignored() {
    let mut state = State::new();
    assert!(!state.record_tick(9, &vec![Some(vec![1; FRAME_LEN])]));
    assert!(!state.is_recording(9));
}

#[test]
fn rooms_record_independently() {
    let mut state = State::new();
    state.start(1, 10, true).unwrap();
    state.start(2, 20, true).unwrap();
    assert!(state.record_tick(1, &vec![Some(vec![3; FRAME_LEN])]));
    let two = parse_wav(&state.stop(2).unwrap()).unwrap();
    assert!(two.samples.is_empty());
    let one = parse_wav(&state.stop(1).unwrap()).unwrap();
    assert_eq!(one.samples, vec![3; FRAME_LEN]);
}

#[test]
fn end_to_end_recording() {
    let mut state = State::new();
    assert_eq!(state.start(1, 10, true), Ok(()));
    assert!(state.record_tick(1, &vec![Some(vec![100; FRAME_LEN])]));
    assert!(state.record_tick(1, &vec![Some(vec![50; FRAME_LEN]), Some(vec![50; FRAME_LEN])]));
    let wav = state.stop(1).unwrap();
    assert!(!state.is_recording(1));
    let parsed = parse_wav(&wav).unwrap();
    assert_eq!(parsed.channels, 2);
    assert_eq!(parsed.sample_rate, 48000);
    assert_eq!(parsed.bits_per_sample, 16);
    assert_eq!(parsed.samples.len(), 2 * FRAME_LEN);
    // the second tick sums to 100, divisor 1
    assert!(parsed.samples.iter().all(|&s| s == 100));
}

#[test]
fn silent_ticks_record_silence() {
    let mut state = State::new();
    state.start(8, 1, true).unwrap();
    assert!(state.record_tick(8, &Vec::new()));
    let parsed = parse_wav(&state.stop(8).unwrap()).unwrap();
    assert_eq!(parsed.samples, vec![0; FRAME_LEN]);
}
