use colink::runtime::transfer::{
    file_checksum_allowed_for_peer, format_generic_transfer_error, generate_file_v3_transfer_token,
    is_valid_file_v3_transfer_token, select_file_checksum_algorithm, transfer_error_from_peer,
    transfer_error_text_key, FileTransferProtocol, TextKey, REASON_TRANSFER_CHECKSUM_MISMATCH,
    REASON_TRANSFER_GENERIC, REASON_TRANSFER_STORAGE_FULL, REASON_TRANSFER_USER_CANCELLED,
    REASON_TRANSFER_USER_REJECTED,
};
use colink::runtime::utils::FileChecksumAlgorithm;

#[test]
fn maps_all_defined_transfer_reason_codes() {
    let cases = [
        (REASON_TRANSFER_USER_CANCELLED, "Transfer cancelled"),
        (REASON_TRANSFER_USER_REJECTED, "Recipient rejected the transfer"),
        (REASON_TRANSFER_CHECKSUM_MISMATCH, "File checksum verification failed"),
        (REASON_TRANSFER_STORAGE_FULL, "Storage full at destination"),
        (REASON_TRANSFER_GENERIC, "Transfer failed"),
    ];

    for (reason, expected) in cases {
        let key = transfer_error_text_key(reason).expect("defined transfer reason");
        assert_eq!(key.english(), expected);
    }
}

#[test]
fn preserves_unknown_reason_codes_for_forward_compatibility() {
    assert!(transfer_error_text_key("colink:transfer.future_reason.v1").is_none());
}

#[test]
fn message_types_follow_the_protocol_generation() {
    assert_eq!(FileTransferProtocol::V2.offer_type(), "file.v2.offer");
    assert_eq!(FileTransferProtocol::V3.accept_type(), "file.v3.accept");
    assert_eq!(FileTransferProtocol::V3.reject_type(), "file.v3.reject");
    assert_eq!(FileTransferProtocol::V2.cancel_type(), "file.v2.cancel");
    assert_eq!(FileTransferProtocol::V3.done_type(), "file.v3.done");
    assert_eq!(TextKey::TransferGeneric.english(), "Transfer failed");
}

#[test]
fn peer_errors_prefer_codes_and_detail() {
    let generic = "Transfer failed";
    assert_eq!(
        transfer_error_from_peer(generic, Some(REASON_TRANSFER_GENERIC), Some("disk gone")),
        Some("Transfer failed: disk gone".to_string())
    );
    assert_eq!(
        transfer_error_from_peer(generic, Some(REASON_TRANSFER_GENERIC), Some("  ")),
        Some("Transfer failed".to_string())
    );
    assert_eq!(
        transfer_error_from_peer(generic, Some(REASON_TRANSFER_STORAGE_FULL), Some("x")),
        Some(REASON_TRANSFER_STORAGE_FULL.to_string())
    );
    assert_eq!(
        transfer_error_from_peer(generic, Some("legacy"), Some("detail")),
        Some("detail".to_string())
    );
    assert_eq!(transfer_error_from_peer(generic, Some("legacy"), None), Some("legacy".to_string()));
    assert_eq!(transfer_error_from_peer(generic, None, Some(" ")), None);
    assert_eq!(format_generic_transfer_error(generic, ""), "Transfer failed");
}

#[test]
fn checksum_algorithm_depends_on_peer_version() {
    assert_eq!(select_file_checksum_algorithm(None).ok(), Some(FileChecksumAlgorithm::Blake3));
    assert_eq!(select_file_checksum_algorithm(Some("1.3.0")).ok(), Some(FileChecksumAlgorithm::Disabled));
    assert_eq!(select_file_checksum_algorithm(Some("1.2.5")).ok(), Some(FileChecksumAlgorithm::Blake3));
    assert_eq!(
        select_file_checksum_algorithm(Some("1.1.0")).unwrap_err().message,
        "peer does not support any file checksum algorithm"
    );
}

#[test]
fn unchecked_transfers_only_from_recent_peers() {
    assert!(file_checksum_allowed_for_peer("blake3:abcd", None));
    assert!(!file_checksum_allowed_for_peer("none:none", None));
    assert!(!file_checksum_allowed_for_peer("none:none", Some("1.2.0")));
    assert!(file_checksum_allowed_for_peer("NONE:none", Some("1.3.0")));
    assert!(!file_checksum_allowed_for_peer("md5:abcd", Some("1.3.0")));
    assert!(!file_checksum_allowed_for_peer("none:abcd", Some("1.3.0")));
}

#[test]
fn generated_transfer_tokens_are_valid() {
    let token = generate_file_v3_transfer_token().expect("token");
    assert_eq!(token.len(), 43);
    assert!(is_valid_file_v3_transfer_token(&token));
    assert_ne!(token, generate_file_v3_transfer_token().unwrap());
}

#[test]
fn rejects_malformed_transfer_tokens() {
    assert!(!is_valid_file_v3_transfer_token("short"));
    assert!(!is_valid_file_v3_transfer_token(&"a".repeat(42)));
    let mut token = "A".repeat(42);
    token.push('+');
    assert!(!is_valid_file_v3_transfer_token(&token));
    // 43 characters whose last one carries bits past the 32 bytes
    assert!(!is_valid_file_v3_transfer_token(&"B".repeat(43)));
    assert!(is_valid_file_v3_transfer_token(&format!("{}A", "B".repeat(42))));
}
