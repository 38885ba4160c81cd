use colink::notes::api::{
    delete_path, endpoint, infer_media_type, item_path, url_query, AttachmentDto, NoteDto,
};
use colink::notes::service::{
    attachment_ids_of, new_note_id, normalize_id_list, outcome_from, parse_timestamp_millis,
    validate_delete_response, NotesSyncOutcome, SyncCounters,
};

fn attachment(id: &str) -> AttachmentDto {
    AttachmentDto {
        attachment_id: id.to_string(),
        kind: "image".to_string(),
        file_name: "a.png".to_string(),
        media_type: "image/png".to_string(),
        size: 1,
        sha256: String::new(),
        created_at: String::new(),
    }
}

#[test]
fn infers_media_types_from_extensions_and_kind() {
    assert_eq!(infer_media_type("photo.JPG", "file"), "image/jpeg");
    assert_eq!(infer_media_type("archive.tar.zip", "file"), "application/zip");
    assert_eq!(infer_media_type("README", "image"), "image/png");
    assert_eq!(infer_media_type("notes.", "file"), "application/octet-stream");
    assert_eq!(infer_media_type("song.mp3", "audio"), "audio/mpeg");
}

#[test]
fn normalizes_id_lists_to_sorted_unique_ids() {
    let ids = vec!["b".to_string(), "a".to_string(), "b".to_string(), "C".to_string()];
    assert_eq!(normalize_id_list(ids), vec!["C", "a", "b"]);
    assert!(normalize_id_list(Vec::new()).is_empty());
}

#[test]
fn sorts_attachment_ids_of_cloud_notes() {
    let dto = NoteDto {
        note_id: "n".to_string(),
        title: String::new(),
        markdown: String::new(),
        tag_ids: Vec::new(),
        attachments: vec![attachment("z"), attachment("m"), attachment("a"), attachment("m")],
        revision: 1,
        created_at: String::new(),
        updated_at: String::new(),
    };
    assert_eq!(attachment_ids_of(&dto), vec!["a", "m", "m", "z"]);
}

#[test]
fn delete_responses_must_match_and_advance() {
    assert_eq!(
        validate_delete_response("note", "x", 5, None, "y", 1).unwrap_err().message,
        "note delete response id mismatch"
    );
    assert_eq!(
        validate_delete_response("tag", "x", 1, Some("2024-01-01T00:00:00Z"), "x", 1).unwrap_err().message,
        "tag delete response revision did not advance"
    );
    assert!(validate_delete_response("tag", "x", 2, None, "x", 1).is_ok());
}

#[test]
fn parses_cloud_timestamps_with_fallback() {
    assert_eq!(parse_timestamp_millis("1970-01-01T00:00:01.500Z", 7), 1500);
    assert_eq!(parse_timestamp_millis("2024-01-01T08:00:00+08:00", 7), 1_704_067_200_000);
    assert_eq!(parse_timestamp_millis("yesterday", 7), 7);
}

#[test]
fn builds_sync_outcomes() {
    let offline = NotesSyncOutcome::offline();
    assert_eq!(offline.status, "offline");
    assert_eq!(offline.pushed_notes, 0);
    let mut counters = SyncCounters::new();
    counters.pushed_tags = 2;
    counters.count_conflict();
    let outcome = outcome_from(&counters);
    assert_eq!(outcome.status, "ok");
    assert_eq!((outcome.pushed_tags, outcome.conflicts), (2, 1));
}

#[test]
fn note_ids_are_hyphenated_uuids() {
    let id = new_note_id().unwrap();
    assert_eq!(id.len(), 36);
    assert_ne!(id, new_note_id().unwrap());
    assert_eq!(id, id.to_lowercase());
    assert_eq!(&id[14..15], "4");
    for (i, c) in id.chars().enumerate() {
        if [8, 13, 18, 23].contains(&i) {
            assert_eq!(c, '-');
        } else {
            assert!(c.is_ascii_hexdigit());
        }
    }
}

#[test]
fn endpoints_resolve_paths_against_the_base() {
    assert_eq!(
        endpoint("https://api.example.com/", "/api/v1/notes").unwrap(),
        "https://api.example.com/api/v1/notes"
    );
    assert!(endpoint("not a url", "/api/v1/notes").is_err());
}

#[test]
fn delete_paths_carry_the_base_revision() {
    assert_eq!(item_path("/api/v1/notes", "n1"), "/api/v1/notes/n1");
    assert_eq!(delete_path("/api/v1/notes", "n1", 7), "/api/v1/notes/n1?baseRevision=7");
    assert_eq!(delete_path("/api/v1/note-tags", "t", 0), "/api/v1/note-tags/t?baseRevision=0");
    assert_eq!(delete_path("/x", "t", -12), "/x/t?baseRevision=-12");
    assert_eq!(
        delete_path("/x", "t", i64::MIN),
        format!("/x/t?baseRevision={}", i64::MIN)
    );
}

#[test]
fn query_urls_replace_the_path_and_append_pairs() {
    assert_eq!(
        url_query(
            "https://api.example.com/base/",
            "/api/v1/notes/snapshot",
            &[("limit", "200"), ("pageToken", "a b&c")],
        )
        .unwrap(),
        "https://api.example.com/api/v1/notes/snapshot?limit=200&pageToken=a+b%26c"
    );
    assert!(url_query("not a url", "/x", &[("limit", "1")]).is_err());
}
