use colink::notes::api::{AttachmentDto, NoteDto, TagDto};
use colink::notes::service::{ConflictResolutionPayload, SyncCounters};
use colink::notes::sync::{
    apply_tag_upsert, checked_tag_name, cloud_to_record, note_push_failure, note_refetch_step,
    push_action, tag_push_failure, tag_refetch_step, validate_reference_ids, CloudFetch,
    ConflictKind, ConflictOutcome, NoteChange, NoteContent, NoteSyncRecord, NoteSyncState,
    NoteTagRecord, PushAction, PushFailureStep, RecoveryStep, RefetchStep,
};
use colink::notes::sync::{
    attachment_delete_refusal, attachment_removal_reaches_cloud, checked_attachment_kind, recovery_step,
};

const JAN_1_2024: &str = "2024-01-01T00:00:00Z";
const JAN_1_2024_MS: i64 = 1704067200000;

fn strings(items: &[&str]) -> Vec<String> {
    items.iter().map(|s| s.to_string()).collect()
}

fn content(title: &str, markdown: &str, tags: &[&str]) -> NoteContent {
    NoteContent {
        title: title.to_string(),
        markdown: markdown.to_string(),
        tag_ids: strings(tags),
        attachment_ids: Vec::new(),
    }
}

fn note(state: NoteSyncState) -> NoteSyncRecord {
    NoteSyncRecord {
        id: "note".to_string(),
        content: content("local title", "local\n", &["a"]),
        revision: 3,
        base_revision: 3,
        sync_state: state,
        ancestor: content("old title", "old\n", &["a"]),
        ancestor_revision: 3,
        conflict_kind: None,
        conflict_title: None,
        conflict_markdown: None,
        conflict_tag_ids: None,
        conflict_attachment_ids: None,
        conflict_revision: None,
        created_at: 10,
        updated_at: 20,
    }
}

fn conflicted(kind: ConflictKind) -> NoteSyncRecord {
    let mut record = note(NoteSyncState::Conflict);
    record.conflict_kind = Some(kind);
    record.conflict_title = Some("cloud title".to_string());
    record.conflict_markdown = Some("cloud\n".to_string());
    record.conflict_tag_ids = Some(strings(&["b"]));
    record.conflict_attachment_ids = Some(strings(&["x"]));
    record.conflict_revision = Some(7);
    record
}

fn resolution(name: &str) -> ConflictResolutionPayload {
    ConflictResolutionPayload {
        note_id: "note".to_string(),
        resolution: name.to_string(),
        title: None,
        markdown: None,
        tag_ids: None,
        attachment_ids: None,
    }
}

fn assert_no_conflict(record: &NoteSyncRecord) {
    assert!(record.conflict_kind.is_none());
    assert!(record.conflict_title.is_none());
    assert!(record.conflict_markdown.is_none());
    assert!(record.conflict_tag_ids.is_none());
    assert!(record.conflict_attachment_ids.is_none());
    assert!(record.conflict_revision.is_none());
}

#[test]
fn keeping_the_local_side_rebases_it_on_the_cloud_revision() {
    let mut record = conflicted(ConflictKind::Edit);
    let outcome = record.resolve_conflict(&resolution("local"), 99).unwrap();
    assert!(matches!(outcome, ConflictOutcome::Saved));
    assert_eq!(record.sync_state, NoteSyncState::Pending);
    assert_eq!(record.base_revision, 7);
    assert_eq!(record.revision, 3);
    assert_eq!(record.content.title, "local title");
    assert_eq!(record.updated_at, 99);
    assert_no_conflict(&record);
    let err = record.resolve_conflict(&resolution("local"), 100).unwrap_err();
    assert_eq!(err.message, "note has no conflict");
}

#[test]
fn keeping_a_note_the_cloud_deleted_makes_a_new_one() {
    let mut record = conflicted(ConflictKind::CloudDeleted);
    let before = record.clone();
    match record.resolve_conflict(&resolution("local"), 99).unwrap() {
        ConflictOutcome::Replaced(kept) => {
            assert_eq!(kept.title, "local title");
            assert_eq!(kept.markdown, "local\n");
            assert_eq!(kept.tag_ids, strings(&["a"]));
        }
        other => panic!("unexpected {other:?}"),
    }
    assert_eq!(record.sync_state, before.sync_state);
    assert_eq!(record.updated_at, before.updated_at);
    assert!(matches!(
        record.resolve_conflict(&resolution("cloud"), 99).unwrap(),
        ConflictOutcome::Removed
    ));
}

#[test]
fn taking_the_cloud_side_adopts_its_revision() {
    let mut record = conflicted(ConflictKind::Edit);
    assert!(matches!(record.resolve_conflict(&resolution("cloud"), 50).unwrap(), ConflictOutcome::Saved));
    assert_eq!(record.content.title, "cloud title");
    assert_eq!(record.content.markdown, "cloud\n");
    assert_eq!(record.content.tag_ids, strings(&["b"]));
    assert_eq!(record.content.attachment_ids, strings(&["x"]));
    assert_eq!(record.ancestor.title, "cloud title");
    assert_eq!(record.revision, 7);
    assert_eq!(record.base_revision, 7);
    assert_eq!(record.ancestor_revision, 7);
    assert_eq!(record.sync_state, NoteSyncState::Synced);
    assert_no_conflict(&record);
}

#[test]
fn a_merged_resolution_uses_the_given_parts() {
    let mut payload = resolution("merged");
    payload.title = Some("merged title".to_string());
    payload.tag_ids = Some(strings(&["a", "b"]));
    let mut record = conflicted(ConflictKind::Edit);
    assert!(matches!(record.resolve_conflict(&payload, 5).unwrap(), ConflictOutcome::Saved));
    assert_eq!(record.content.title, "merged title");
    assert_eq!(record.content.markdown, "local\n");
    assert_eq!(record.content.tag_ids, strings(&["a", "b"]));
    assert_eq!(record.sync_state, NoteSyncState::Pending);
    assert_eq!(record.base_revision, 7);

    let mut deleted = conflicted(ConflictKind::CloudDeleted);
    match deleted.resolve_conflict(&payload, 5).unwrap() {
        ConflictOutcome::Replaced(kept) => assert_eq!(kept.title, "merged title"),
        other => panic!("unexpected {other:?}"),
    }
}

#[test]
fn delete_conflicts_are_confirmed_or_cancelled() {
    let mut confirm = conflicted(ConflictKind::Delete);
    confirm.sync_state = NoteSyncState::ConflictDelete;
    confirm.resolve_conflict(&resolution("confirm_delete"), 8).unwrap();
    assert_eq!(confirm.sync_state, NoteSyncState::PendingDelete);
    assert_eq!(confirm.base_revision, 7);
    assert_no_conflict(&confirm);

    let mut cancel = conflicted(ConflictKind::Delete);
    cancel.sync_state = NoteSyncState::ConflictDelete;
    cancel.conflict_markdown = None;
    cancel.resolve_conflict(&resolution("cancel_delete"), 8).unwrap();
    assert_eq!(cancel.content.title, "cloud title");
    assert_eq!(cancel.content.markdown, "local\n");
    assert_eq!(cancel.sync_state, NoteSyncState::Synced);
    assert_eq!(cancel.revision, 7);
}

#[test]
fn unknown_resolutions_are_refused() {
    let mut record = conflicted(ConflictKind::Edit);
    let err = record.resolve_conflict(&resolution("bogus"), 1).unwrap_err();
    assert_eq!(err.message, "unknown resolution: bogus");
    assert_eq!(record.sync_state, NoteSyncState::Conflict);
    let mut synced = note(NoteSyncState::Synced);
    let err = synced.resolve_conflict(&resolution("local"), 1).unwrap_err();
    assert_eq!(err.message, "note has no conflict");
}

#[test]
fn pushes_follow_the_sync_state() {
    assert_eq!(push_action(true, NoteSyncState::Pending, 0), PushAction::Skip);
    assert_eq!(push_action(false, NoteSyncState::PendingDelete, 4), PushAction::Delete);
    assert_eq!(push_action(false, NoteSyncState::Pending, 0), PushAction::Create);
    assert_eq!(push_action(false, NoteSyncState::Pending, 4), PushAction::Update);
    assert_eq!(push_action(false, NoteSyncState::Synced, 4), PushAction::Skip);
    assert_eq!(push_action(false, NoteSyncState::Conflict, 4), PushAction::Skip);
}

fn tag_dto(name: &str, revision: i64) -> TagDto {
    TagDto {
        tag_id: "tag".to_string(),
        name: name.to_string(),
        revision,
        created_at: JAN_1_2024.to_string(),
        updated_at: "not a time".to_string(),
    }
}

fn tag(name: &str, state: NoteSyncState, revision: i64) -> NoteTagRecord {
    NoteTagRecord {
        id: "tag".to_string(),
        name: name.to_string(),
        revision,
        base_revision: revision,
        sync_state: state,
        deleted: false,
        created_at: 1,
        updated_at: 2,
    }
}

#[test]
fn cloud_tags_are_pulled_settled_or_put_in_conflict() {
    let mut counters = SyncCounters::new();
    let fresh = apply_tag_upsert(None, &tag_dto("Work", 4), 77, &mut counters).unwrap();
    assert_eq!(fresh.name, "Work");
    assert_eq!(fresh.revision, 4);
    assert_eq!(fresh.base_revision, 4);
    assert_eq!(fresh.sync_state, NoteSyncState::Synced);
    assert_eq!(fresh.created_at, JAN_1_2024_MS);
    assert_eq!(fresh.updated_at, 77);
    assert_eq!(counters.pulled_tags, 1);

    assert!(apply_tag_upsert(Some(tag("Old", NoteSyncState::Synced, 4)), &tag_dto("Work", 4), 77, &mut counters).is_none());
    let newer = apply_tag_upsert(Some(tag("Old", NoteSyncState::Synced, 3)), &tag_dto("Work", 4), 77, &mut counters).unwrap();
    assert_eq!(newer.name, "Work");
    assert_eq!(newer.created_at, 1);
    assert_eq!(counters.pulled_tags, 2);

    let same = apply_tag_upsert(Some(tag("Work", NoteSyncState::Pending, 3)), &tag_dto("Work", 4), 77, &mut counters).unwrap();
    assert_eq!(same.sync_state, NoteSyncState::Synced);
    assert_eq!(same.created_at, JAN_1_2024_MS);
    let clash = apply_tag_upsert(Some(tag("Home", NoteSyncState::Pending, 3)), &tag_dto("Work", 4), 77, &mut counters).unwrap();
    assert_eq!(clash.sync_state, NoteSyncState::Conflict);
    assert_eq!(clash.name, "Home");
    assert_eq!(clash.revision, 4);
    assert_eq!(counters.conflicts, 1);
    assert_eq!(counters.pulled_tags, 2);
    assert!(apply_tag_upsert(Some(tag("Home", NoteSyncState::Pending, 4)), &tag_dto("Work", 4), 77, &mut counters).is_none());
}

#[test]
fn raced_renames_keep_the_cloud_name() {
    let mut counters = SyncCounters::new();
    let mut same = tag("Work", NoteSyncState::Pending, 3);
    same.settle_rename_race(&tag_dto("Work", 5), 9, &mut counters);
    assert_eq!(same.sync_state, NoteSyncState::Synced);
    assert_eq!(same.revision, 5);
    assert_eq!(counters.pushed_tags, 1);
    let mut other = tag("Home", NoteSyncState::Pending, 3);
    other.settle_rename_race(&tag_dto("Work", 5), 9, &mut counters);
    assert_eq!(other.name, "Work");
    assert_eq!(other.updated_at, 9);
    assert_eq!(counters.conflicts, 1);
    assert_eq!(counters.pushed_tags, 1);
}

fn attachment(id: &str) -> AttachmentDto {
    AttachmentDto {
        attachment_id: id.to_string(),
        kind: "file".to_string(),
        file_name: "f.txt".to_string(),
        media_type: "text/plain".to_string(),
        size: 1,
        sha256: String::new(),
        created_at: JAN_1_2024.to_string(),
    }
}

fn note_dto(title: &str, markdown: &str, revision: i64) -> NoteDto {
    NoteDto {
        note_id: "note".to_string(),
        title: title.to_string(),
        markdown: markdown.to_string(),
        tag_ids: strings(&["b", "a", "b"]),
        attachments: vec![attachment("y"), attachment("x")],
        revision,
        created_at: JAN_1_2024.to_string(),
        updated_at: "bad".to_string(),
    }
}

#[test]
fn cloud_notes_are_taken_normalised() {
    let record = cloud_to_record(&note_dto("T", "M\n", 4), 5, 6);
    assert_eq!(record.content.tag_ids, strings(&["a", "b"]));
    assert_eq!(record.content.attachment_ids, strings(&["x", "y"]));
    assert_eq!(record.ancestor.tag_ids, strings(&["a", "b"]));
    assert_eq!(record.revision, 4);
    assert_eq!(record.base_revision, 4);
    assert_eq!(record.sync_state, NoteSyncState::Synced);
    assert_eq!(record.created_at, JAN_1_2024_MS);
    assert_eq!(record.updated_at, 6);
}

#[test]
fn pulled_notes_merge_or_conflict() {
    let mut counters = SyncCounters::new();
    let mut queued = note(NoteSyncState::PendingDelete);
    assert_eq!(queued.apply_note_upsert(&note_dto("T", "M\n", 3), 1, &mut counters), NoteChange::Unchanged);
    assert_eq!(queued.apply_note_upsert(&note_dto("T", "M\n", 4), 1, &mut counters), NoteChange::Saved);
    assert_eq!(queued.sync_state, NoteSyncState::ConflictDelete);
    assert_eq!(queued.conflict_kind, Some(ConflictKind::Delete));
    assert_eq!(queued.conflict_tag_ids, Some(strings(&["a", "b"])));
    assert_eq!(queued.conflict_revision, Some(4));
    assert_eq!(counters.conflicts, 1);

    let mut synced = note(NoteSyncState::Synced);
    assert_eq!(synced.apply_note_upsert(&note_dto("T", "M\n", 3), 1, &mut counters), NoteChange::Unchanged);
    assert_eq!(synced.apply_note_upsert(&note_dto("T", "M\n", 4), 1, &mut counters), NoteChange::Saved);
    assert_eq!(synced.content.title, "T");
    assert_eq!(synced.created_at, JAN_1_2024_MS);
    assert_eq!(counters.pulled_notes, 1);
    assert_eq!(synced.apply_note_upsert(&note_dto("T", "M\n", 4), 1, &mut counters), NoteChange::Unchanged);

    // Local title edit, cloud Markdown edit: both kept.
    let mut pending = note(NoteSyncState::Pending);
    pending.content.markdown = "old\n".to_string();
    let dto = note_dto("old title", "cloud\n", 5);
    assert_eq!(pending.apply_note_upsert(&dto, 2, &mut counters), NoteChange::Saved);
    assert_eq!(pending.content.title, "local title");
    assert_eq!(pending.content.markdown, "cloud\n");
    assert_eq!(pending.content.tag_ids, strings(&["a", "b"]));
    assert_eq!(pending.content.attachment_ids, strings(&["x", "y"]));
    assert_eq!(pending.base_revision, 5);
    assert_eq!(pending.ancestor.title, "old title");
    assert_eq!(pending.sync_state, NoteSyncState::Pending);
    assert_eq!(counters.pulled_notes, 2);
    assert_eq!(pending.apply_note_upsert(&dto, 2, &mut counters), NoteChange::Unchanged);

    // Both sides changed the title: conflict.
    let mut clash = note(NoteSyncState::Pending);
    assert_eq!(clash.apply_note_upsert(&note_dto("cloud title", "old\n", 5), 2, &mut counters), NoteChange::Saved);
    assert_eq!(clash.sync_state, NoteSyncState::Conflict);
    assert_eq!(clash.conflict_kind, Some(ConflictKind::Edit));
    assert_eq!(clash.conflict_title.as_deref(), Some("cloud title"));
    assert_eq!(counters.conflicts, 2);
}

#[test]
fn cloud_deletions_keep_local_edits_in_conflict() {
    let mut counters = SyncCounters::new();
    let mut edited = note(NoteSyncState::Pending);
    assert_eq!(edited.apply_note_delete(4, 9, &mut counters), NoteChange::Saved);
    assert_eq!(edited.sync_state, NoteSyncState::Conflict);
    assert_eq!(edited.conflict_kind, Some(ConflictKind::CloudDeleted));
    assert_eq!(edited.conflict_revision, Some(4));
    assert_eq!(counters.conflicts, 1);
    let mut older = note(NoteSyncState::Pending);
    assert_eq!(older.apply_note_delete(3, 9, &mut counters), NoteChange::Unchanged);
    let mut queued = note(NoteSyncState::PendingDelete);
    assert_eq!(queued.apply_note_delete(4, 9, &mut counters), NoteChange::Removed);
    assert_eq!(counters.pulled_notes, 0);
    let mut synced = note(NoteSyncState::Synced);
    assert_eq!(synced.apply_note_delete(4, 9, &mut counters), NoteChange::Removed);
    assert_eq!(counters.pulled_notes, 1);
}

const UUID_A: &str = "6f9619ff-8b86-d011-b42d-00c04fc964ff";
const UUID_B: &str = "0b0b0b0b-1111-4222-8333-444444444444";

#[test]
fn references_must_be_uuids() {
    assert!(validate_reference_ids(&strings(&[UUID_A]), &strings(&[UUID_B])).is_ok());
    assert!(validate_reference_ids(&Vec::new(), &Vec::new()).is_ok());
    let err = validate_reference_ids(&strings(&[UUID_A, "tag-1"]), &Vec::new()).unwrap_err();
    assert_eq!(err.message, "invalid reference id");
    assert!(validate_reference_ids(&Vec::new(), &strings(&["x"])).is_err());
}

#[test]
fn local_edits_are_queued_unless_in_conflict() {
    let mut record = note(NoteSyncState::Synced);
    let edit = NoteContent {
        title: "new".to_string(),
        markdown: "body\n".to_string(),
        tag_ids: strings(&[UUID_B, UUID_A, UUID_B]),
        attachment_ids: strings(&[UUID_B, UUID_A]),
    };
    record.upsert_note(edit.clone(), 40).unwrap();
    assert_eq!(record.content.title, "new");
    assert_eq!(record.content.tag_ids, strings(&[UUID_B, UUID_A]));
    assert_eq!(record.content.attachment_ids, strings(&[UUID_B, UUID_A]));
    assert_eq!(record.sync_state, NoteSyncState::Pending);
    assert_eq!(record.updated_at, 40);
    assert_eq!(record.ancestor.title, "old title");

    let mut conflict = conflicted(ConflictKind::Edit);
    let err = conflict.upsert_note(edit, 41).unwrap_err();
    assert_eq!(err.message, "resolve the conflict before editing this note");
    assert_eq!(conflict.content.title, "local title");
}

#[test]
fn local_edits_refuse_ids_that_are_not_uuids() {
    let mut record = note(NoteSyncState::Synced);
    let edit = NoteContent {
        title: "new".to_string(),
        markdown: "body\n".to_string(),
        tag_ids: strings(&[UUID_A, "x"]),
        attachment_ids: Vec::new(),
    };
    let err = record.upsert_note(edit.clone(), 40).unwrap_err();
    assert_eq!(err.message, "invalid reference id");
    assert_eq!(record.content.title, "local title");
    assert_eq!(record.sync_state, NoteSyncState::Synced);
    let mut conflict = conflicted(ConflictKind::Edit);
    assert_eq!(conflict.upsert_note(edit, 41).unwrap_err().message, "invalid reference id");
}

#[test]
fn fresh_tag_ids_pass_the_reference_check() {
    let created = NoteTagRecord::create_tag("Work".to_string(), 12).unwrap();
    assert!(validate_reference_ids(&vec![created.id.clone()], &Vec::new()).is_ok());
    assert_eq!(&created.id[14..15], "4");
    assert!(matches!(&created.id[19..20], "8" | "9" | "a" | "b"));
}

#[test]
fn local_deletions_drop_unpushed_notes() {
    let mut fresh = note(NoteSyncState::Pending);
    fresh.revision = 0;
    assert_eq!(fresh.delete_note_locally(5), NoteChange::Removed);
    assert_eq!(fresh.sync_state, NoteSyncState::Pending);
    let mut pushed = note(NoteSyncState::Synced);
    assert_eq!(pushed.delete_note_locally(5), NoteChange::Saved);
    assert_eq!(pushed.sync_state, NoteSyncState::PendingDelete);
    assert_eq!(pushed.updated_at, 5);
}

#[test]
fn tag_references_are_retargeted_and_removed() {
    let mut record = note(NoteSyncState::Synced);
    record.content.tag_ids = strings(&["a", "b", "a"]);
    record.ancestor.tag_ids = strings(&["b"]);
    assert!(record.retarget_tag_references("a", "x"));
    assert_eq!(record.content.tag_ids, strings(&["x", "b", "a"]));
    assert_eq!(record.ancestor.tag_ids, strings(&["b"]));
    assert!(!record.retarget_tag_references("q", "x"));
    assert!(record.remove_tag_references("b"));
    assert_eq!(record.content.tag_ids, strings(&["x", "a"]));
    assert!(record.ancestor.tag_ids.is_empty());
    assert!(!record.remove_tag_references("b"));
}

#[test]
fn local_tags_are_created_renamed_and_deleted() {
    assert_eq!(checked_tag_name("  Work  ").unwrap(), "Work");
    assert_eq!(checked_tag_name(" \t ").unwrap_err().message, "tag name must not be empty");
    let mut created = NoteTagRecord::create_tag("Work".to_string(), 12).unwrap();
    assert_eq!(created.id.len(), 36);
    assert_eq!(created.revision, 0);
    assert_eq!(created.sync_state, NoteSyncState::Pending);
    assert_eq!(created.created_at, 12);
    created.rename_tag("Home".to_string(), 13);
    assert_eq!(created.name, "Home");
    assert_eq!(created.updated_at, 13);
    assert_eq!(created.delete_tag_locally(14), NoteChange::Removed);
    let mut pushed = tag("Work", NoteSyncState::Synced, 3);
    assert_eq!(pushed.delete_tag_locally(14), NoteChange::Saved);
    assert_eq!(pushed.sync_state, NoteSyncState::PendingDelete);
}

#[test]
fn pushed_notes_take_the_cloud_answer() {
    let mut record = note(NoteSyncState::Pending);
    record.id = "local-id".to_string();
    record.conflict_kind = Some(ConflictKind::Edit);
    record.mark_note_synced(&note_dto("T", "M\n", 9), 3);
    assert_eq!(record.id, "local-id");
    assert_eq!(record.content.title, "T");
    assert_eq!(record.content.tag_ids, strings(&["a", "b"]));
    assert_eq!(record.revision, 9);
    assert_eq!(record.base_revision, 9);
    assert_eq!(record.ancestor.markdown, "M\n");
    assert_eq!(record.sync_state, NoteSyncState::Synced);
    assert!(record.conflict_kind.is_none());
    assert_eq!(record.created_at, JAN_1_2024_MS);
    assert_eq!(record.updated_at, 3);
}

#[test]
fn cloud_tag_deletions_spare_local_changes() {
    let mut synced = note(NoteSyncState::Synced);
    synced.content.tag_ids = strings(&["a", "b"]);
    assert!(synced.remove_tag_if_synced("a"));
    assert_eq!(synced.content.tag_ids, strings(&["b"]));
    let mut pending = note(NoteSyncState::Pending);
    assert!(!pending.remove_tag_if_synced("a"));
    assert_eq!(pending.content.tag_ids, strings(&["a"]));

    assert!(tag("t", NoteSyncState::Synced, 1).removed_by_cloud_delete());
    assert!(tag("t", NoteSyncState::PendingDelete, 1).removed_by_cloud_delete());
    assert!(!tag("t", NoteSyncState::Pending, 1).removed_by_cloud_delete());
    assert!(!tag("t", NoteSyncState::Conflict, 1).removed_by_cloud_delete());

    assert!(tag("t", NoteSyncState::Synced, 1).dropped_by_snapshot(false));
    assert!(!tag("t", NoteSyncState::Synced, 1).dropped_by_snapshot(true));
    assert!(!tag("t", NoteSyncState::Pending, 1).dropped_by_snapshot(false));
    assert!(!tag("t", NoteSyncState::Conflict, 1).dropped_by_snapshot(false));
    let mut gone = tag("t", NoteSyncState::Synced, 1);
    gone.deleted = true;
    assert!(!gone.dropped_by_snapshot(false));
}

#[test]
fn refused_pushes_merge_with_the_cloud_or_conflict() {
    let mut counters = SyncCounters::new();
    let mut pending = note(NoteSyncState::Pending);
    pending.content.markdown = "old\n".to_string();
    assert!(pending.merge_for_push(&note_dto("old title", "cloud\n", 6), 11, &mut counters));
    assert_eq!(counters.conflicts, 0);
    assert_eq!(pending.content.title, "local title");
    assert_eq!(pending.content.markdown, "cloud\n");
    assert_eq!(pending.content.tag_ids, strings(&["a", "b"]));
    assert_eq!(pending.content.attachment_ids, strings(&["x", "y"]));
    assert_eq!(pending.base_revision, 6);
    assert_eq!(pending.ancestor.title, "old title");
    assert_eq!(pending.ancestor_revision, 3);
    assert_eq!(pending.sync_state, NoteSyncState::Pending);
    assert_eq!(pending.updated_at, 11);

    let mut clash = note(NoteSyncState::Pending);
    assert!(!clash.merge_for_push(&note_dto("cloud title", "old\n", 6), 12, &mut counters));
    assert_eq!(counters.conflicts, 1);
    assert_eq!(clash.sync_state, NoteSyncState::Conflict);
    assert_eq!(clash.conflict_kind, Some(ConflictKind::Edit));
    assert_eq!(clash.conflict_revision, Some(6));
}

#[test]
fn replacing_an_attachment_rewrites_links_and_ids() {
    let mut record = note(NoteSyncState::Synced);
    record.content.markdown =
        "![a](colink-attachment://old) and [b](colink-attachment://old)\n".to_string();
    record.content.attachment_ids = strings(&["zz", "old"]);
    assert!(record.replace_attachment_references("old", "new", 99));
    assert_eq!(
        record.content.markdown,
        "![a](colink-attachment://new) and [b](colink-attachment://new)\n"
    );
    assert_eq!(record.content.attachment_ids, strings(&["new", "zz"]));
    assert_eq!(record.sync_state, NoteSyncState::Pending);
    assert_eq!(record.updated_at, 99);
    assert_eq!(record.content.title, "local title");
}

#[test]
fn replacing_an_attachment_by_link_alone_applies() {
    let mut record = note(NoteSyncState::Conflict);
    record.content.markdown = "see colink-attachment://old".to_string();
    assert!(record.replace_attachment_references("old", "new", 5));
    assert_eq!(record.content.markdown, "see colink-attachment://new");
    assert!(record.content.attachment_ids.is_empty());
    assert_eq!(record.sync_state, NoteSyncState::Conflict);
}

#[test]
fn replacing_an_unreferenced_attachment_leaves_the_note() {
    let mut record = note(NoteSyncState::Synced);
    record.content.markdown = "colink-attachment://older".to_string();
    record.content.attachment_ids = strings(&["other"]);
    assert!(!record.replace_attachment_references("elder", "new", 5));
    assert_eq!(record.content.markdown, "colink-attachment://older");
    assert_eq!(record.sync_state, NoteSyncState::Synced);
    assert_eq!(record.updated_at, 20);
}

#[test]
fn removing_an_attachment_strips_its_links_and_blank_lines() {
    let mut record = note(NoteSyncState::Synced);
    record.content.markdown =
        "intro\n\n![img](colink-attachment://a1)\n\nnext [doc](colink-attachment://a1) end [k](colink-attachment://a12)"
            .to_string();
    record.content.attachment_ids = strings(&["a1", "a12"]);
    assert!(record.remove_attachment_references("a1", 77));
    assert_eq!(
        record.content.markdown,
        "intro\n\nnext  end [k](colink-attachment://a12)"
    );
    assert_eq!(record.content.attachment_ids, strings(&["a12"]));
    assert_eq!(record.sync_state, NoteSyncState::Pending);
    assert_eq!(record.updated_at, 77);
}

#[test]
fn removing_an_attachment_follows_the_link_grammar() {
    let mut record = note(NoteSyncState::Pending);
    record.content.markdown = "[[x](colink-attachment://a1) and [a]b](colink-attachment://a1)".to_string();
    assert!(record.remove_attachment_references("a1", 3));
    assert_eq!(record.content.markdown, " and [a]b](colink-attachment://a1)");
    assert_eq!(record.sync_state, NoteSyncState::Pending);
}

#[test]
fn removing_an_unreferenced_attachment_leaves_the_note() {
    let mut record = note(NoteSyncState::Synced);
    record.content.markdown = "text\n\n\n\nmore".to_string();
    assert!(!record.remove_attachment_references("a1", 3));
    assert_eq!(record.content.markdown, "text\n\n\n\nmore");
    assert_eq!(record.updated_at, 20);
}

#[test]
fn refused_note_pushes_pick_their_next_step() {
    assert_eq!(note_push_failure(PushAction::Create, Some(4002), true), PushFailureStep::FetchCloud);
    assert_eq!(note_push_failure(PushAction::Create, Some(6002), true), PushFailureStep::Fail);
    assert_eq!(note_push_failure(PushAction::Update, Some(6002), true), PushFailureStep::FetchCloud);
    assert_eq!(
        note_push_failure(PushAction::Update, Some(6001), true),
        PushFailureStep::CloudDeletedConflict
    );
    assert_eq!(note_push_failure(PushAction::Delete, Some(6001), true), PushFailureStep::Forget);
    assert_eq!(
        note_push_failure(PushAction::Create, Some(6008), true),
        PushFailureStep::RecoverReferences
    );
    assert_eq!(note_push_failure(PushAction::Update, Some(6008), false), PushFailureStep::Fail);
    assert_eq!(note_push_failure(PushAction::Delete, Some(6008), true), PushFailureStep::Fail);
    assert_eq!(note_push_failure(PushAction::Update, None, true), PushFailureStep::Fail);
}

#[test]
fn refetched_notes_pick_their_next_step() {
    assert_eq!(note_refetch_step(PushAction::Create, CloudFetch::Found, true), RefetchStep::MarkSynced);
    assert_eq!(note_refetch_step(PushAction::Create, CloudFetch::Found, false), RefetchStep::EditConflict);
    assert_eq!(note_refetch_step(PushAction::Update, CloudFetch::Found, false), RefetchStep::MergedPush);
    assert_eq!(note_refetch_step(PushAction::Delete, CloudFetch::Found, true), RefetchStep::DeleteConflict);
    assert_eq!(note_refetch_step(PushAction::Create, CloudFetch::NotFound, false), RefetchStep::RetryCreate);
    assert_eq!(note_refetch_step(PushAction::Delete, CloudFetch::NotFound, false), RefetchStep::Forget);
    assert_eq!(note_refetch_step(PushAction::Update, CloudFetch::NotFound, false), RefetchStep::Fail);
    assert_eq!(note_refetch_step(PushAction::Update, CloudFetch::Failed, true), RefetchStep::Fail);
}

#[test]
fn refused_tag_pushes_pick_their_next_step() {
    assert_eq!(tag_push_failure(PushAction::Create, Some(6004)), PushFailureStep::ResolveNameClash);
    assert_eq!(tag_push_failure(PushAction::Create, Some(4002)), PushFailureStep::ResolveNameClash);
    assert_eq!(tag_push_failure(PushAction::Create, Some(6003)), PushFailureStep::Fail);
    assert_eq!(tag_push_failure(PushAction::Update, Some(6002)), PushFailureStep::FetchCloud);
    assert_eq!(tag_push_failure(PushAction::Delete, Some(6003)), PushFailureStep::Forget);
    assert_eq!(tag_push_failure(PushAction::Delete, None), PushFailureStep::Fail);
    assert_eq!(tag_refetch_step(PushAction::Delete, CloudFetch::Found, None), RefetchStep::DeleteConflict);
    assert_eq!(tag_refetch_step(PushAction::Update, CloudFetch::Found, None), RefetchStep::SettleRename);
    assert_eq!(tag_refetch_step(PushAction::Delete, CloudFetch::NotFound, None), RefetchStep::Forget);
    assert_eq!(tag_refetch_step(PushAction::Update, CloudFetch::Failed, Some(6003)), RefetchStep::Forget);
    assert_eq!(tag_refetch_step(PushAction::Delete, CloudFetch::Failed, Some(6003)), RefetchStep::Fail);
}

#[test]
fn notes_match_the_cloud_by_normalised_content() {
    let record = cloud_to_record(&note_dto("T", "M\n", 4), 5, 6);
    assert!(record.matches_cloud(&note_dto("T", "M\n", 9)));
    assert!(!record.matches_cloud(&note_dto("T", "other\n", 9)));
    let mut other = note_dto("T", "M\n", 9);
    other.tag_ids = strings(&["a"]);
    assert!(!record.matches_cloud(&other));
}

#[test]
fn cloud_deleted_conflicts_keep_the_content() {
    let mut record = note(NoteSyncState::Pending);
    record.enter_cloud_deleted_conflict(50);
    assert_eq!(record.sync_state, NoteSyncState::Conflict);
    assert_eq!(record.conflict_kind, Some(ConflictKind::CloudDeleted));
    assert_eq!(record.updated_at, 50);
    assert_eq!(record.content.title, "local title");
}

#[test]
fn pushed_tags_take_the_cloud_revision() {
    let mut counters = SyncCounters::new();
    let mut created = tag("mine", NoteSyncState::Pending, 0);
    created.mark_tag_pushed(&tag_dto("theirs", 4), PushAction::Create, 9, &mut counters);
    assert_eq!(created.name, "mine");
    assert_eq!(created.revision, 4);
    assert_eq!(created.base_revision, 4);
    assert_eq!(created.sync_state, NoteSyncState::Synced);
    assert_eq!(created.created_at, JAN_1_2024_MS);
    assert_eq!(created.updated_at, 9);
    let mut renamed = tag("mine", NoteSyncState::Pending, 2);
    renamed.mark_tag_pushed(&tag_dto("theirs", 5), PushAction::Update, 9, &mut counters);
    assert_eq!(renamed.name, "theirs");
    assert_eq!(counters.pushed_tags, 2);
}

#[test]
fn refused_tag_deletions_enter_conflict() {
    let mut counters = SyncCounters::new();
    let mut record = tag("mine", NoteSyncState::PendingDelete, 2);
    record.enter_delete_conflict(&tag_dto("theirs", 6), 9, &mut counters);
    assert_eq!(record.name, "theirs");
    assert_eq!(record.revision, 6);
    assert_eq!(record.sync_state, NoteSyncState::Conflict);
    assert_eq!(counters.conflicts, 1);
}

#[test]
fn reissued_tags_start_over_under_a_new_id() {
    let record = tag("mine", NoteSyncState::Pending, 0);
    let fresh = record.reissued(33).unwrap();
    assert_ne!(fresh.id, record.id);
    assert_eq!(fresh.id.len(), 36);
    assert_eq!(fresh.name, "mine");
    assert_eq!(fresh.revision, 0);
    assert_eq!(fresh.sync_state, NoteSyncState::Pending);
    assert_eq!(fresh.created_at, 1);
    assert_eq!(fresh.updated_at, 33);
}

#[test]
fn only_live_tags_stay_on_a_note() {
    let mut record = note(NoteSyncState::Pending);
    record.content.tag_ids = strings(&["a", "b", "c", "d"]);
    let mut b = tag("b", NoteSyncState::Synced, 1);
    b.id = "b".to_string();
    let mut c = tag("c", NoteSyncState::PendingDelete, 1);
    c.id = "c".to_string();
    let mut d = tag("d", NoteSyncState::Pending, 1);
    d.id = "d".to_string();
    d.deleted = true;
    record.keep_live_tags(&[b, c, d]);
    assert_eq!(record.content.tag_ids, strings(&["b"]));
    assert_eq!(record.ancestor.tag_ids, strings(&["a"]));
}

#[test]
fn repaired_notes_are_resubmitted_once() {
    assert_eq!(recovery_step(0, CloudFetch::Failed, 0), RecoveryStep::CreateAgain);
    assert_eq!(recovery_step(4, CloudFetch::Found, 4), RecoveryStep::UpdateAgain);
    assert_eq!(recovery_step(4, CloudFetch::Found, 6), RecoveryStep::MergeThenUpdate);
    assert_eq!(recovery_step(4, CloudFetch::NotFound, 0), RecoveryStep::CloudDeletedConflict);
    assert_eq!(recovery_step(4, CloudFetch::Failed, 0), RecoveryStep::Fail);
    assert_eq!(note_push_failure(PushAction::Update, Some(6008), false), PushFailureStep::Fail);
}

#[test]
fn attachment_kinds_and_removals_follow_their_rules() {
    assert!(checked_attachment_kind("image").is_ok());
    assert!(checked_attachment_kind("file").is_ok());
    assert_eq!(checked_attachment_kind("video").unwrap_err().message, "invalid attachment kind");
    assert!(attachment_removal_reaches_cloud(NoteSyncState::Synced, true));
    assert!(!attachment_removal_reaches_cloud(NoteSyncState::Pending, true));
    assert!(!attachment_removal_reaches_cloud(NoteSyncState::Synced, false));
    assert_eq!(
        attachment_delete_refusal(Some(6006)).unwrap().message,
        "attachment is still referenced by a note"
    );
    assert!(attachment_delete_refusal(Some(6005)).is_none());
    assert!(attachment_delete_refusal(None).is_none());
}
