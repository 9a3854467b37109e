use sysmon::audio::{chunk_range, frame_count, keep_latest, last_samples, phase_label, StreamPhase, MAX_BUFFERED_SAMPLES};

#[test]
fn test_take_samples_sufficient_data() {
    let buffer = vec![1.0_f32, 2.0, 3.0, 4.0, 5.0];
    assert_eq!(last_samples(&buffer, 3), vec![3.0, 4.0, 5.0]);
}

#[test]
fn test_take_samples_insufficient_data() {
    let buffer = vec![1.0_f32, 2.0];
    assert_eq!(last_samples(&buffer, 10), vec![1.0, 2.0]);
}

#[test]
fn test_take_samples_empty_buffer() {
    let buffer = Vec::<f32>::new();
    assert!(last_samples(&buffer, 1024).is_empty());
}

#[test]
fn test_take_samples_exact_count() {
    let buffer = vec![10.0_f32, 20.0, 30.0];
    assert_eq!(last_samples(&buffer, 3), vec![10.0, 20.0, 30.0]);
}

#[test]
fn chunk_range_cuts_at_the_data_end() {
    assert_eq!(chunk_range(0, 64, 128), Some((0, 64)));
    assert_eq!(chunk_range(64, 128, 100), Some((64, 100)));
    assert_eq!(chunk_range(100, 10, 100), None);
    assert_eq!(chunk_range(5, 0, 100), None);
}

#[test]
fn frames_hold_one_float_per_channel() {
    assert_eq!(frame_count(64, 2), Some(8));
    assert_eq!(frame_count(70, 2), Some(8));
    assert_eq!(frame_count(64, 0), None);
}

#[test]
fn buffer_keeps_the_latest_second() {
    let mut buf: Vec<u32> = (0..50_000).collect();
    keep_latest(&mut buf, MAX_BUFFERED_SAMPLES);
    assert_eq!(buf.len(), 48_000);
    assert_eq!(buf[0], 2_000);
    let mut small: Vec<u32> = vec![1, 2, 3];
    keep_latest(&mut small, MAX_BUFFERED_SAMPLES);
    assert_eq!(small, vec![1, 2, 3]);
}

#[test]
fn stream_states_are_labelled() {
    assert_eq!(phase_label(StreamPhase::Streaming), "streaming");
    assert_eq!(phase_label(StreamPhase::Unconnected), "unconnected");
    assert_eq!(phase_label(StreamPhase::Error), "error");
}
