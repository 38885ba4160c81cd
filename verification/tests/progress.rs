use colink::runtime::progress::{
    acknowledged_file_bytes, should_send_file_ack, FILE_ACK_INTERVAL_CHUNKS, FILE_CHUNK_SIZE, OutgoingAckState, ProgressReport};

#[test]
fn calculates_acknowledged_file_bytes_without_exceeding_file_size() {
    let file_size = FILE_CHUNK_SIZE * 2 + 128;
    assert_eq!(acknowledged_file_bytes(file_size, 3, 2), FILE_CHUNK_SIZE * 2);
    assert_eq!(acknowledged_file_bytes(file_size, 3, 3), file_size);
    assert_eq!(acknowledged_file_bytes(file_size, 3, 10), file_size);
}

#[test]
fn ignores_invalid_acknowledged_byte_inputs() {
    assert_eq!(acknowledged_file_bytes(0, 3, 1), 0);
    assert_eq!(acknowledged_file_bytes(100, 0, 1), 0);
    assert_eq!(acknowledged_file_bytes(100, 3, 0), 0);
}

#[test]
fn sends_file_ack_at_interval_and_finish() {
    assert!(should_send_file_ack(FILE_ACK_INTERVAL_CHUNKS, 20));
    assert!(should_send_file_ack(20, 20));
    assert!(!should_send_file_ack(FILE_ACK_INTERVAL_CHUNKS - 1, 20));
    assert!(!should_send_file_ack(1, 0));
}

#[test]
fn acknowledged_bytes_saturate_for_huge_chunk_counts() {
    assert_eq!(acknowledged_file_bytes(i64::MAX, i64::MAX, i64::MAX), i64::MAX);
    assert_eq!(acknowledged_file_bytes(1_000, i64::MAX, 1), 1_000);
}

#[test]
fn acks_every_interval_multiple() {
    assert!(should_send_file_ack(FILE_ACK_INTERVAL_CHUNKS * 3, 100));
    assert!(!should_send_file_ack(FILE_ACK_INTERVAL_CHUNKS * 3 + 1, 100));
    assert!(!should_send_file_ack(0, 0));
}

fn ack_state(file_size: i64, total_chunks: i64) -> OutgoingAckState {
    OutgoingAckState {
        file_size,
        total_chunks,
        acknowledged_chunks: 0,
        transferred_bytes: 0,
        last_reported_bytes: 0,
        last_progress_at: 1_000,
    }
}

#[test]
fn acknowledgements_move_progress_forward_only() {
    let mut state = ack_state(200_000, 4);
    let first = state.apply_ack(2, 1_100).unwrap();
    assert_eq!(first.transferred_bytes, 131_072);
    assert!(!first.finished);
    assert_eq!(first.report, None);
    assert_eq!(state.acknowledged_chunks, 2);
    assert_eq!(state.last_progress_at, 1_000);
    assert_eq!(state.apply_ack(1, 1_200), None);
    assert_eq!(state.acknowledged_chunks, 2);
    let last = state.apply_ack(99, 1_300).unwrap();
    assert_eq!(last.transferred_bytes, 200_000);
    assert!(last.finished);
    assert_eq!(last.report, Some(ProgressReport { delta_bytes: 200_000, duration_ms: 300 }));
    assert_eq!(state.acknowledged_chunks, 4);
    assert_eq!(state.last_reported_bytes, 200_000);
    assert_eq!(state.last_progress_at, 1_300);
    assert_eq!(state.apply_ack(4, 1_400), None);
}

#[test]
fn acknowledgements_report_after_the_interval() {
    let mut state = ack_state(1_000_000, 16);
    let early = state.apply_ack(1, 1_499).unwrap();
    assert_eq!(early.report, None);
    let due = state.apply_ack(3, 1_500).unwrap();
    assert_eq!(due.report, Some(ProgressReport { delta_bytes: 196_608, duration_ms: 500 }));
    assert_eq!(state.apply_ack(-5, 1_600), None);
}
