use colink::notes::api::sha256_hex;
use colink::protocol::payloads::ClipboardSyncPayload;
use colink::runtime::clipboard::hash_clipboard_payload;
use colink::runtime::route::device_route;
use colink::runtime::utils::{download_candidate, safe_download_name};
use colink::state::{app_data_dir_name, PendingShareFiles};

#[test]
fn download_candidates_number_the_stem() {
    assert_eq!(download_candidate("report.txt", 0).unwrap(), "report.txt");
    assert_eq!(download_candidate("report.txt", 1).unwrap(), "report (2).txt");
    assert_eq!(download_candidate("report.txt", 2).unwrap(), "report (3).txt");
    assert_eq!(download_candidate("archive.tar.gz", 1).unwrap(), "archive.tar (2).gz");
    assert_eq!(download_candidate(".bashrc", 1).unwrap(), ".bashrc (2)");
    assert_eq!(download_candidate("README", 998).unwrap(), "README (999)");
    assert_eq!(download_candidate("", 1).unwrap(), "file (2)");
    assert_eq!(download_candidate("a.", 1).unwrap(), "a (2).");
    assert_eq!(download_candidate("report.txt", 999), None);
}

#[test]
fn unsafe_file_names_are_sanitized() {
    let safe = safe_download_name("../safe.txt", false);
    assert!(!safe.contains('/'));
    assert!(!safe.contains('\\'));
    assert_eq!(safe_download_name("plain.txt", false), "plain.txt");
}

#[test]
fn clipboard_fingerprint_covers_type_content_and_data() {
    let text = ClipboardSyncPayload {
        content_type: "text/plain".to_string(),
        content: Some("hi".to_string()),
        data: None,
    };
    assert_eq!(hash_clipboard_payload(&text), sha256_hex(b"text/plainhi"));
    let image = ClipboardSyncPayload {
        content_type: "image/png".to_string(),
        content: None,
        data: Some("AAAA".to_string()),
    };
    assert_eq!(hash_clipboard_payload(&image), sha256_hex(b"image/pngAAAA"));
}

#[test]
fn device_routes_encode_the_device_id() {
    assert_eq!(device_route("/devices", "abc-1"), "/devices?deviceId=abc-1");
    assert_eq!(device_route("/chat", "a b&c"), "/chat?deviceId=a+b%26c");
}

#[test]
fn shared_files_skip_blank_paths_and_are_taken_once() {
    let mut pending = PendingShareFiles::new();
    pending.queue_share_files(vec!["/a".to_string(), "  ".to_string(), "/b".to_string()]);
    pending.queue_share_files(vec!["/c".to_string()]);
    assert_eq!(pending.take_share_files(), vec!["/a", "/b", "/c"]);
    assert!(pending.take_share_files().is_empty());
}

#[test]
fn debug_builds_use_a_separate_data_directory() {
    assert_eq!(app_data_dir_name("dev.colink.desktop", true), "dev.colink.desktop.debug");
    assert_eq!(app_data_dir_name("dev.colink.desktop.debug", true), "dev.colink.desktop.debug");
    assert_eq!(app_data_dir_name("dev.colink.desktop", false), "dev.colink.desktop");
}
