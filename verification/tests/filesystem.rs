use colink::protocol::payloads::{FsEntry, FsErrorPayload};
use colink::runtime::filesystem::{
    compare_filesystem_entries, filesystem_error_token, filesystem_request_kind, paginate_listing,
    hidden_by_name, listing_entry, sort_filesystem_entries, volume_label_from_utf16, FilesystemError, FilesystemRequestKind,
    FilesystemUploadDestination, IoFailure, PendingFilesystemUploads,
};

fn entry(name: &str, kind: &str, modified: Option<i64>) -> FsEntry {
    FsEntry {
        name: name.to_string(),
        kind: kind.to_string(),
        size: None,
        modified,
        created: None,
        readonly: false,
        hidden: false,
    }
}

#[test]
fn decodes_nonempty_utf16_volume_labels() {
    let encoded = |label: &str| {
        label
            .encode_utf16()
            .chain(std::iter::once(0))
            .collect::<Vec<_>>()
    };

    assert_eq!(volume_label_from_utf16(&encoded("Data")), Some("Data".to_string()));
    assert_eq!(volume_label_from_utf16(&encoded("系统")), Some("系统".to_string()));
    assert_eq!(volume_label_from_utf16(&encoded("   ")), None);
}

#[test]
fn sorts_directories_and_files_by_modified_time_descending() {
    let mut entries = vec![
        entry("folder-old", "directory", Some(10)),
        entry("folder-alpha", "directory", Some(10)),
        entry("file-unknown", "file", None),
        entry("file-alpha", "file", None),
        entry("file-new", "file", Some(40)),
        entry("folder-new", "directory", Some(30)),
        entry("file-old", "file", Some(20)),
    ];
    let sorted = sort_filesystem_entries(entries.clone());

    entries.sort_by(compare_filesystem_entries);

    let expected = [
        "folder-new",
        "folder-alpha",
        "folder-old",
        "file-new",
        "file-old",
        "file-alpha",
        "file-unknown",
    ];
    assert_eq!(entries.into_iter().map(|entry| entry.name).collect::<Vec<_>>(), expected);
    assert_eq!(sorted.into_iter().map(|entry| entry.name).collect::<Vec<_>>(), expected);
}

#[test]
fn filesystem_errors_prefer_structured_codes() {
    assert_eq!(
        filesystem_error_token(FsErrorPayload {
            reason: "permission_denied".to_string(),
            message: "internal path must not be exposed".to_string(),
            details: None,
        }),
        "colink:fs.permission_denied.v1",
    );
    assert_eq!(
        filesystem_error_token(FsErrorPayload {
            reason: "general".to_string(),
            message: "remote filesystem request failed".to_string(),
            details: None,
        }),
        "remote filesystem request failed",
    );
}

#[test]
fn names_compare_case_insensitively_before_exact_case() {
    let upper = entry("B", "file", None);
    let lower = entry("a", "file", None);
    assert_eq!(compare_filesystem_entries(&lower, &upper), std::cmp::Ordering::Less);
    let a_upper = entry("A", "file", None);
    let a_lower = entry("a", "file", None);
    assert_eq!(compare_filesystem_entries(&a_upper, &a_lower), std::cmp::Ordering::Less);
    assert_eq!(compare_filesystem_entries(&a_lower, &a_lower), std::cmp::Ordering::Equal);
}

#[test]
fn pages_listings_with_clamped_offset_and_limit() {
    let entries: Vec<FsEntry> = (0..5).map(|i| entry(&format!("f{i}"), "file", None)).collect();
    let page = paginate_listing("/x".to_string(), entries.clone(), Some(1), Some(2));
    assert_eq!(page.total, 5);
    assert_eq!(page.offset, 1);
    assert!(page.has_more);
    assert_eq!(page.entries.iter().map(|e| e.name.as_str()).collect::<Vec<_>>(), ["f1", "f2"]);

    let page = paginate_listing("/x".to_string(), entries.clone(), Some(99), None);
    assert_eq!(page.offset, 5);
    assert!(page.entries.is_empty());
    assert!(!page.has_more);

    let page = paginate_listing("/x".to_string(), entries, Some(-3), Some(0));
    assert_eq!(page.offset, 0);
    assert_eq!(page.entries.len(), 1);
    assert!(page.has_more);
}

#[test]
fn io_failures_map_to_protocol_reasons() {
    assert_eq!(FilesystemError::from_io(IoFailure::NotFound, "x").reason, "not_found");
    assert_eq!(FilesystemError::from_io(IoFailure::PermissionDenied, "x").reason, "permission_denied");
    assert_eq!(FilesystemError::from_io(IoFailure::Other, "x").reason, "io_error");
    assert_eq!(FilesystemError::generic("path must be absolute").reason, "generic");
}

#[test]
fn dispatches_filesystem_requests_by_type() {
    assert_eq!(filesystem_request_kind("fs.v1.list"), Some(FilesystemRequestKind::List));
    assert_eq!(filesystem_request_kind("fs.v1.upload"), Some(FilesystemRequestKind::Upload));
    assert_eq!(filesystem_request_kind("fs.v1.unknown"), None);
    assert_eq!(FilesystemRequestKind::List.response_type(), Some("fs.v1.list-result"));
    assert_eq!(FilesystemRequestKind::Download.response_type(), None);
    assert_eq!(FilesystemRequestKind::Upload.response_type(), Some("fs.v1.upload-ready"));
}

fn destination(target: &str) -> FilesystemUploadDestination {
    FilesystemUploadDestination { parent: "/tmp".to_string(), target: target.to_string() }
}

#[test]
fn an_upload_destination_is_reserved_once() {
    let mut uploads = PendingFilesystemUploads::new();
    assert!(uploads.reserve("peer", "lan", "r1", destination("/tmp/a")));
    assert!(!uploads.reserve("other", "cloud", "r2", destination("/tmp/a")));
    assert!(uploads.reserve("peer", "lan", "r2", destination("/tmp/b")));
    assert!(uploads.consume("other", Some("r1")).is_none());
    assert!(uploads.consume("peer", None).is_none());
    assert_eq!(uploads.consume("peer", Some("r1")).unwrap().target, "/tmp/a");
    assert!(uploads.consume("peer", Some("r1")).is_none());
    assert!(uploads.reserve("other", "cloud", "r3", destination("/tmp/a")));
    uploads.clear("peer", "lan");
    assert!(uploads.consume("peer", Some("r2")).is_none());
    uploads.clear_for_route("cloud");
    assert!(uploads.consume("other", Some("r3")).is_none());
    uploads.remove("missing");
}

#[test]
fn equally_ordered_entries_keep_their_positions() {
    let mut first = entry("same", "file", Some(5));
    first.size = Some(1);
    let mut second = entry("same", "file", Some(5));
    second.size = Some(2);
    let mut third = entry("same", "file", Some(5));
    third.size = Some(3);
    let sorted = sort_filesystem_entries(vec![
        first,
        entry("dir", "directory", None),
        second,
        entry("newer", "file", Some(9)),
        third,
    ]);
    let sizes: Vec<Option<i64>> =
        sorted.iter().filter(|e| e.name == "same").map(|e| e.size).collect();
    assert_eq!(sizes, vec![Some(1), Some(2), Some(3)]);
    assert_eq!(sorted[0].name, "dir");
    assert_eq!(sorted[1].name, "newer");
}

#[test]
fn listing_entries_classify_and_size_objects() {
    let file = listing_entry("a.txt".to_string(), false, false, true, 7, Some(1), None, true, false);
    assert_eq!(file.kind, "file");
    assert_eq!(file.size, Some(7));
    let link = listing_entry("l".to_string(), true, true, false, 7, None, None, false, false);
    assert_eq!(link.kind, "symlink");
    assert_eq!(link.size, None);
    let dir = listing_entry("d".to_string(), false, true, false, 4096, None, None, false, true);
    assert_eq!(dir.kind, "directory");
    assert_eq!(dir.size, None);
    let huge = listing_entry("h".to_string(), false, false, true, u64::MAX, None, None, false, false);
    assert_eq!(huge.size, None);
    assert_eq!(listing_entry("o".to_string(), false, false, false, 0, None, None, false, false).kind, "other");
    assert!(hidden_by_name(".profile"));
    assert!(!hidden_by_name("profile"));
    assert!(!hidden_by_name(""));
}
