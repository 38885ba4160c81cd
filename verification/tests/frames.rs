use colink::protocol::frames::{CameraDataFrame, FileDataFrame, FileDataFrameKind};

#[test]
fn encodes_and_decodes_file_data_frame() {
    let frame = FileDataFrame::chunk(7, vec![1, 2, 3]);
    let encoded = frame.encode();

    assert_eq!(encoded[..8], [1, 1, 0, 0, 0, 0, 0, 7]);
    assert_eq!(FileDataFrame::decode(&encoded), Some(frame));
}

#[test]
fn rejects_invalid_file_data_frame() {
    assert_eq!(FileDataFrame::decode(&[2, 1, 0, 0, 0, 0, 0, 1]), None);
    assert_eq!(FileDataFrame::decode(&[1, 9, 0, 0, 0, 0, 0, 1]), None);
    assert_eq!(FileDataFrame::decode(&[1, 1, 0]), None);
}

#[test]
fn builds_control_frames() {
    assert_eq!(FileDataFrame::ack(3).kind, FileDataFrameKind::Ack);
    assert_eq!(FileDataFrame::finish(4).index, 4);
    assert_eq!(FileDataFrame::cancel("stop").payload, b"stop");
}

#[test]
fn encodes_and_decodes_camera_data_frame() {
    let frame = CameraDataFrame::new("h264", true, 42, 1_400, vec![0, 0, 0, 1, 0x65])
        .expect("supported codec");
    assert_eq!(CameraDataFrame::decode(&frame.encode()), Some(frame));
}

#[test]
fn file_frame_index_is_big_endian() {
    let frame = FileDataFrame::retransmit(0x0102_0304);
    assert_eq!(frame.encode(), vec![1, 4, 0, 0, 1, 2, 3, 4]);
    let decoded = FileDataFrame::decode(&[1, 5, 9, 9, 0, 0, 1, 0, 7]).unwrap();
    assert_eq!(decoded.kind, FileDataFrameKind::Cancel);
    assert_eq!(decoded.index, 256);
    assert_eq!(decoded.payload, vec![7]);
}

#[test]
fn camera_frame_rejects_unknown_codec_and_bad_length() {
    assert!(CameraDataFrame::new("vp9", false, 1, 1, vec![]).is_none());
    let frame = CameraDataFrame::new("jpeg", false, u64::MAX, 5, vec![9, 8]).unwrap();
    assert_eq!(frame.sequence, u32::MAX);
    let mut bytes = frame.encode();
    assert_eq!(bytes[..4], [1, 1, 1, 0]);
    bytes.push(0);
    assert!(CameraDataFrame::decode(&bytes).is_none());
}
