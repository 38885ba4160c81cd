use colink::runtime::dispatch::{business_message_kind, BusinessMessageKind};
use colink::runtime::route::TransferRoute;
use colink::runtime::transfer::{generate_file_v3_transfer_token, FileTransferProtocol};
use colink::runtime::transfer_flow::{
    file_accept_plan, file_offer_disposition, file_v3_accept_action, file_v3_ready_action,
    offer_file_size, offer_protocol, offer_route, partial_file_name, receive_verdict, AcceptChannel,
    AcceptToken, FileTransferRecord, ReceiveFailure,
    FileOfferDisposition, FileV3AcceptAction, FileV3Failure, FileV3ReadyAction,
    IncomingTransferStatus, OutgoingTransferStatus,
};

#[test]
fn offers_with_uncheckable_checksums_are_rejected_first() {
    assert_eq!(file_offer_disposition(false, true, true, true), FileOfferDisposition::Reject);
    assert_eq!(file_offer_disposition(true, true, false, false), FileOfferDisposition::Accept);
    assert_eq!(file_offer_disposition(true, false, true, false), FileOfferDisposition::Accept);
    assert_eq!(file_offer_disposition(true, false, false, true), FileOfferDisposition::Accept);
    assert_eq!(file_offer_disposition(true, false, false, false), FileOfferDisposition::Ask);
}

#[test]
fn offer_sizes_round_chunks_up() {
    assert_eq!(offer_file_size(0).unwrap(), (0, 0));
    assert_eq!(offer_file_size(1).unwrap(), (1, 1));
    assert_eq!(offer_file_size(65536).unwrap(), (65536, 1));
    assert_eq!(offer_file_size(65537).unwrap(), (65537, 2));
    assert_eq!(offer_file_size(i64::MAX as u64).unwrap(), (i64::MAX, 140737488355328));
    assert_eq!(
        offer_file_size(i64::MAX as u64 + 1).unwrap_err().message,
        "file is too large to transfer"
    );
}

#[test]
fn offers_use_v3_from_protocol_1_15() {
    assert_eq!(offer_protocol(None), FileTransferProtocol::V2);
    assert_eq!(offer_protocol(Some("1.14.9")), FileTransferProtocol::V2);
    assert_eq!(offer_protocol(Some("1.15.0")), FileTransferProtocol::V3);
    assert_eq!(offer_protocol(Some("1.16.0")), FileTransferProtocol::V3);
    assert_eq!(offer_protocol(Some("2.0.0")), FileTransferProtocol::V2);
    assert_eq!(offer_protocol(Some("garbage")), FileTransferProtocol::V2);
}

#[test]
fn offer_routes_prefer_the_lan() {
    let v3 = FileTransferProtocol::V3;
    let v2 = FileTransferProtocol::V2;
    assert_eq!(offer_route(v3, true, false, false), Some(TransferRoute::Lan));
    assert_eq!(offer_route(v3, false, true, true), Some(TransferRoute::Cloud));
    assert_eq!(offer_route(v3, false, true, false), None);
    assert_eq!(offer_route(v2, false, true, false), Some(TransferRoute::Lan));
    assert_eq!(offer_route(v2, true, false, false), Some(TransferRoute::Cloud));
}

#[test]
fn acceptances_depend_on_protocol_and_route() {
    let v2 = file_accept_plan(FileTransferProtocol::V2, "lan");
    assert_eq!(v2.token, AcceptToken::Registered);
    assert_eq!(v2.channel, AcceptChannel::Business);
    assert!(!v2.watch_relay);
    let lan = file_accept_plan(FileTransferProtocol::V3, "lan");
    assert_eq!(lan.token, AcceptToken::Generated);
    assert_eq!(lan.channel, AcceptChannel::Lan);
    assert!(!lan.watch_relay);
    let cloud = file_accept_plan(FileTransferProtocol::V3, "cloud");
    assert_eq!(cloud.token, AcceptToken::Absent);
    assert_eq!(cloud.channel, AcceptChannel::Relay);
    assert!(cloud.watch_relay);
}

#[test]
fn partial_names_are_sanitised() {
    assert_eq!(partial_file_name("report.pdf", false), "report.pdf.part");
    assert_eq!(partial_file_name("a/b:c.txt", false), "abc.txt.part");
}

fn outgoing(protocol: FileTransferProtocol, offered: bool, route: &str) -> OutgoingTransferStatus {
    OutgoingTransferStatus { protocol, offered, route: route.to_string() }
}

fn cancel_of(action: FileV3AcceptAction) -> (String, FileV3Failure) {
    match action {
        FileV3AcceptAction::Cancel { route, failure } => (route, failure),
        other => panic!("expected a cancel, got {other:?}"),
    }
}

#[test]
fn v3_acceptances_are_checked_against_the_offer() {
    let token = generate_file_v3_transfer_token().unwrap();
    assert!(matches!(file_v3_accept_action(None, "lan", None, true), FileV3AcceptAction::Unknown));
    let v2 = outgoing(FileTransferProtocol::V2, true, "lan");
    assert!(matches!(
        file_v3_accept_action(Some(&v2), "lan", Some(&token), true),
        FileV3AcceptAction::ProtocolMismatch
    ));
    let started = outgoing(FileTransferProtocol::V3, false, "lan");
    assert!(matches!(
        file_v3_accept_action(Some(&started), "lan", Some(&token), true),
        FileV3AcceptAction::AlreadyStarted
    ));
    let lan = outgoing(FileTransferProtocol::V3, true, "lan");
    assert_eq!(
        cancel_of(file_v3_accept_action(Some(&lan), "cloud", None, true)),
        ("lan".to_string(), FileV3Failure::RouteMismatch)
    );
    assert_eq!(
        cancel_of(file_v3_accept_action(Some(&lan), "lan", Some("short"), true)),
        ("lan".to_string(), FileV3Failure::Generic)
    );
    assert_eq!(
        cancel_of(file_v3_accept_action(Some(&lan), "lan", None, true)),
        ("lan".to_string(), FileV3Failure::Generic)
    );
    assert_eq!(
        cancel_of(file_v3_accept_action(Some(&lan), "lan", Some(&token), false)),
        ("lan".to_string(), FileV3Failure::LanFailed)
    );
    assert!(matches!(
        file_v3_accept_action(Some(&lan), "lan", Some(&token), true),
        FileV3AcceptAction::ServeLan
    ));
    let cloud = outgoing(FileTransferProtocol::V3, true, "cloud");
    assert_eq!(
        cancel_of(file_v3_accept_action(Some(&cloud), "cloud", Some(&token), true)),
        ("cloud".to_string(), FileV3Failure::Generic)
    );
    assert!(matches!(
        file_v3_accept_action(Some(&cloud), "cloud", None, false),
        FileV3AcceptAction::SendRelay
    ));
}

fn incoming(route: &str, ready_received: bool, has_token: bool, has_temp_path: bool) -> IncomingTransferStatus {
    IncomingTransferStatus {
        protocol: FileTransferProtocol::V3,
        device_id: "peer".to_string(),
        route: route.to_string(),
        ready_received,
        has_token,
        has_temp_path,
    }
}

#[test]
fn v3_readiness_applies_once_to_lan_transfers_of_the_sender() {
    let ready = incoming("lan", false, true, true);
    assert_eq!(file_v3_ready_action("peer", "cloud", Some(&ready), true), FileV3ReadyAction::Ignore);
    assert_eq!(file_v3_ready_action("peer", "lan", None, true), FileV3ReadyAction::Unknown);
    assert_eq!(file_v3_ready_action("other", "lan", Some(&ready), true), FileV3ReadyAction::Ignore);
    let relayed = incoming("cloud", false, true, true);
    assert_eq!(file_v3_ready_action("peer", "lan", Some(&relayed), true), FileV3ReadyAction::Ignore);
    let seen = incoming("lan", true, true, true);
    assert_eq!(file_v3_ready_action("peer", "lan", Some(&seen), true), FileV3ReadyAction::Ignore);
    let mut v2 = incoming("lan", false, true, true);
    v2.protocol = FileTransferProtocol::V2;
    assert_eq!(file_v3_ready_action("peer", "lan", Some(&v2), true), FileV3ReadyAction::Ignore);
    let tokenless = incoming("lan", false, false, true);
    assert_eq!(
        file_v3_ready_action("peer", "lan", Some(&tokenless), true),
        FileV3ReadyAction::Fail(FileV3Failure::LanFailed)
    );
    let no_file = incoming("lan", false, true, false);
    assert_eq!(
        file_v3_ready_action("peer", "lan", Some(&no_file), true),
        FileV3ReadyAction::Fail(FileV3Failure::Generic)
    );
    assert_eq!(
        file_v3_ready_action("peer", "lan", Some(&ready), false),
        FileV3ReadyAction::Fail(FileV3Failure::LanFailed)
    );
    assert_eq!(file_v3_ready_action("peer", "lan", Some(&ready), true), FileV3ReadyAction::Download);
}

#[test]
fn business_messages_go_to_their_handlers() {
    assert_eq!(business_message_kind("message.v1.text"), BusinessMessageKind::TextMessage);
    assert_eq!(business_message_kind("file.v2.offer"), BusinessMessageKind::FileOffer);
    assert_eq!(business_message_kind("file.v2.retransmit"), BusinessMessageKind::FileRetransmit);
    assert_eq!(business_message_kind("clipboard.v1.sync"), BusinessMessageKind::ClipboardSync);
    assert_eq!(business_message_kind("fs.v1.download"), BusinessMessageKind::FilesystemRequest);
    assert_eq!(business_message_kind("fs.v1.stat"), BusinessMessageKind::FilesystemRequest);
    assert_eq!(business_message_kind("fs.v1.list-result"), BusinessMessageKind::FilesystemResult);
    assert_eq!(business_message_kind("fs.v1.error"), BusinessMessageKind::FilesystemError);
    assert_eq!(business_message_kind("fs.v1.upload"), BusinessMessageKind::Ignored);
    assert_eq!(business_message_kind("unknown.v1.type"), BusinessMessageKind::Ignored);
}

#[test]
fn received_files_are_kept_only_when_intact_and_placed() {
    let kept = receive_verdict(true, true, Ok(()));
    assert!(kept.success);
    assert!(kept.reason.is_none());
    assert!(kept.failure.is_none());
    let unplaced = receive_verdict(true, true, Err("disk full".to_string()));
    assert!(!unplaced.success);
    assert_eq!(unplaced.reason, Some("colink:transfer.generic.v1"));
    assert!(matches!(unplaced.failure, Some(ReceiveFailure::Commit(ref m)) if m == "disk full"));
    let corrupt = receive_verdict(false, true, Ok(()));
    assert_eq!(corrupt.reason, Some("colink:transfer.checksum_mismatch.v1"));
    assert!(matches!(corrupt.failure, Some(ReceiveFailure::ChecksumMismatch)));
    let short = receive_verdict(false, false, Ok(()));
    assert!(!short.success);
    assert_eq!(short.reason, Some("colink:transfer.generic.v1"));
    assert!(matches!(short.failure, Some(ReceiveFailure::SizeMismatch)));
}

fn offered_record() -> FileTransferRecord {
    FileTransferRecord::outgoing_offer(
        "f1".to_string(),
        "peer".to_string(),
        "a.txt".to_string(),
        100,
        1,
        "blake3:abc".to_string(),
        "lan".to_string(),
        "/home/u/a.txt".to_string(),
        5,
    )
}

#[test]
fn transfer_records_start_and_end_as_the_transfer_does() {
    let mut record = offered_record();
    assert_eq!(record.direction, "outbound");
    assert_eq!(record.status, "offered");
    assert_eq!(record.final_path.as_deref(), Some("/home/u/a.txt"));
    assert!(record.peer_cancel_applies());
    record.finish_outgoing("completed", None, None, 9);
    assert_eq!(record.status, "completed");
    assert_eq!(record.transferred_bytes, 100);
    assert_eq!(record.final_path.as_deref(), Some("/home/u/a.txt"));
    assert_eq!(record.updated_at, 9);
    assert!(!record.peer_cancel_applies());

    let mut failed = offered_record();
    failed.finish_outgoing("failed", Some("Transfer failed: boom".to_string()), None, 9);
    assert_eq!(failed.transferred_bytes, 0);
    assert_eq!(failed.error.as_deref(), Some("Transfer failed: boom"));

    let mut incoming = FileTransferRecord::incoming_accept(
        "f2".to_string(),
        "peer".to_string(),
        "b.txt".to_string(),
        10,
        1,
        "none:none".to_string(),
        "cloud".to_string(),
        "/tmp/b.txt.part".to_string(),
        6,
    );
    assert_eq!(incoming.direction, "inbound");
    assert_eq!(incoming.status, "receiving");
    assert_eq!(incoming.temp_path.as_deref(), Some("/tmp/b.txt.part"));
    incoming.abort("cancelled", Some("Transfer cancelled".to_string()), false, 7);
    assert_eq!(incoming.temp_path.as_deref(), Some("/tmp/b.txt.part"));
    incoming.abort("failed", None, true, 8);
    assert_eq!(incoming.status, "failed");
    assert!(incoming.error.is_none());
    assert!(incoming.temp_path.is_none());
}

#[test]
fn partial_names_follow_the_target_file_name_rules() {
    assert_eq!(partial_file_name("CON.txt", false), "CON.txt.part");
    assert_eq!(partial_file_name("CON.txt", true), ".part");
    assert_eq!(partial_file_name("name. ", true), "name.part");
    assert_eq!(partial_file_name("name. ", false), "name. .part");
}
