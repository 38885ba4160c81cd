use colink::runtime::reassembly::{ChunkReassembly, ChunkReceipt, DeliveryFollowUp, FinishStep};

fn chunk(i: u8) -> Vec<u8> {
    vec![i, i, i]
}

fn delivered(receipt: ChunkReceipt) -> Vec<Vec<u8>> {
    match receipt {
        ChunkReceipt::Deliver(chunks) => chunks,
        other => panic!("expected a delivery, got {other:?}"),
    }
}

#[test]
fn relayed_chunks_are_appended_in_order() {
    let mut stream = ChunkReassembly::new(0, true, 4);
    assert_eq!(delivered(stream.receive_chunk(0, chunk(0), 1).unwrap()), vec![chunk(0)]);
    assert!(matches!(stream.receive_chunk(2, chunk(2), 2).unwrap(), ChunkReceipt::Ahead { held: true }));
    assert!(matches!(stream.receive_chunk(3, chunk(3), 3).unwrap(), ChunkReceipt::Ahead { held: true }));
    assert_eq!(stream.received_chunks(), 1);
    assert_eq!(
        delivered(stream.receive_chunk(1, chunk(1), 4).unwrap()),
        vec![chunk(1), chunk(2), chunk(3)]
    );
    assert_eq!(stream.received_chunks(), 4);
    assert!(matches!(stream.receive_chunk(2, chunk(2), 5).unwrap(), ChunkReceipt::Duplicate));
    assert!(matches!(stream.receive_chunk(9, chunk(9), 6).unwrap(), ChunkReceipt::Ahead { held: false }));
    assert_eq!(delivered(stream.receive_chunk(4, chunk(4), 7).unwrap()), vec![chunk(4)]);
}

#[test]
fn a_resent_held_chunk_replaces_the_held_copy() {
    let mut stream = ChunkReassembly::new(0, true, 2);
    assert!(matches!(stream.receive_chunk(2, vec![9], 1).unwrap(), ChunkReceipt::Ahead { held: true }));
    assert!(matches!(stream.receive_chunk(2, chunk(2), 2).unwrap(), ChunkReceipt::Ahead { held: true }));
    assert!(matches!(stream.receive_chunk(1, chunk(1), 3).unwrap(), ChunkReceipt::Ahead { held: true }));
    assert_eq!(
        delivered(stream.receive_chunk(0, chunk(0), 4).unwrap()),
        vec![chunk(0), chunk(1), chunk(2)]
    );
}

#[test]
fn bad_chunk_indexes_are_refused() {
    let mut stream = ChunkReassembly::new(2, false, 0);
    assert_eq!(stream.receive_chunk(-1, chunk(0), 1).unwrap_err().message, "file chunk index is negative");
    assert_eq!(stream.lan_finish(), FinishStep::Retransmit);
    assert_eq!(
        stream.receive_chunk(2, chunk(2), 1).unwrap_err().message,
        "file chunk exceeds announced total"
    );
    assert_eq!(stream.received_chunks(), 0);
}

#[test]
fn lan_streams_ask_again_for_missing_chunks() {
    let mut stream = ChunkReassembly::new(3, false, 0);
    delivered(stream.receive_chunk(0, chunk(0), 1).unwrap());
    assert_eq!(stream.after_delivery(false), DeliveryFollowUp::Continue);
    assert!(matches!(stream.receive_chunk(2, chunk(2), 1).unwrap(), ChunkReceipt::Ahead { held: false }));
    assert_eq!(stream.lan_finish(), FinishStep::Retransmit);
    delivered(stream.receive_chunk(1, chunk(1), 1).unwrap());
    assert_eq!(stream.after_delivery(false), DeliveryFollowUp::Retransmit);
    delivered(stream.receive_chunk(2, chunk(2), 1).unwrap());
    assert_eq!(stream.after_delivery(false), DeliveryFollowUp::Finish);
    assert_eq!(stream.lan_finish(), FinishStep::Finish);
}

#[test]
fn relayed_v2_streams_finish_when_complete() {
    let mut stream = ChunkReassembly::new(2, false, 0);
    delivered(stream.receive_chunk(0, chunk(0), 1).unwrap());
    assert_eq!(stream.after_delivery(true), DeliveryFollowUp::Continue);
    delivered(stream.receive_chunk(1, chunk(1), 1).unwrap());
    assert_eq!(stream.after_delivery(true), DeliveryFollowUp::Finish);
}

#[test]
fn v3_finishes_announce_the_total() {
    let mut stream = ChunkReassembly::new(0, true, 4);
    delivered(stream.receive_chunk(0, chunk(0), 1).unwrap());
    assert_eq!(
        stream.v3_finish(-1, 2).unwrap_err().message,
        "file.v3.finish has a negative chunk count"
    );
    assert_eq!(stream.v3_finish(3, 2).unwrap(), FinishStep::Wait);
    assert_eq!(
        stream.v3_finish(4, 2).unwrap_err().message,
        "file.v3.finish total chunk count changed"
    );
    delivered(stream.receive_chunk(1, chunk(1), 3).unwrap());
    assert_eq!(stream.after_delivery(false), DeliveryFollowUp::Continue);
    delivered(stream.receive_chunk(2, chunk(2), 3).unwrap());
    assert_eq!(stream.after_delivery(false), DeliveryFollowUp::Finish);
    assert_eq!(stream.v3_finish(3, 4).unwrap(), FinishStep::Finish);

    let mut over = ChunkReassembly::new(0, true, 4);
    delivered(over.receive_chunk(0, chunk(0), 1).unwrap());
    delivered(over.receive_chunk(1, chunk(1), 1).unwrap());
    assert_eq!(
        over.v3_finish(1, 2).unwrap_err().message,
        "file.v3.finish excludes already received chunks"
    );
}
