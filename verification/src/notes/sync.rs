//! The synchronisation state of notes and tags, and the transitions the
//! synchronisation and the user's conflict resolutions make on it.
use vstd::prelude::*;

use crate::error::AppError;
use crate::notes::api::{
    AttachmentDto, NoteDto, TagDto, CODE_INVALID_NOTE_REFERENCE, CODE_NOTE_NOT_FOUND,
    CODE_REVISION_CONFLICT, CODE_TAG_NOT_FOUND,
};
use crate::notes::links::{
    has_link, squeeze_blank_lines, squeeze_blank_lines_chars, strip_links, strip_links_chars,
};
use crate::notes::merge::{
    field_merge, keeps_id, lemma_strictly_sorted_unique, markdown_merge, merge_field,
    merge_markdown, merge_set, strictly_sorted, string_views, strings_eq, FieldMerge,
};
use crate::notes::service::{
    attachment_ids_of, lemma_sorted_texts_unique, normalize_id_list, parse_timestamp_millis,
    rfc3339_millis, sorted_texts, ConflictResolutionPayload, SyncCounters, CODE_ATTACHMENT_IN_USE,
    CODE_TAG_NAME_CONFLICT,
};
use crate::notes::service::{new_note_id, uuid_layout, v4_uuid_text};
use crate::text::{
    chars_of, contains_chars, occurs_in, replace_all, replace_chars, str_eq, string_of, trim,
    trim_chars,
};
use vstd::string::StringExecFns;

verus! {

// ---------------------------------------------------------------------------
// States
// ---------------------------------------------------------------------------

/// Where a note or tag stands with the cloud.
#[derive(Clone, Copy, Debug, PartialEq, Eq, Structural)]
pub enum NoteSyncState {
    /// Same as the cloud's revision.
    Synced,
    /// Local changes wait to be pushed.
    Pending,
    /// A local deletion waits to be pushed.
    PendingDelete,
    /// Local and cloud changes clash; the user decides.
    Conflict,
    /// A local deletion clashes with a cloud change; the user decides.
    ConflictDelete,
}

/// What a note's conflict is about.
#[derive(Clone, Copy, Debug, PartialEq, Eq, Structural)]
pub enum ConflictKind {
    /// Both sides edited.
    Edit,
    /// Deleted here, edited in the cloud.
    Delete,
    /// Edited here, deleted in the cloud.
    CloudDeleted,
}

// ---------------------------------------------------------------------------
// Notes
// ---------------------------------------------------------------------------

/// What a note says.
#[derive(Clone, Debug)]
pub struct NoteContent {
    pub title: String,
    pub markdown: String,
    pub tag_ids: Vec<String>,
    pub attachment_ids: Vec<String>,
}

/// A note's content as values.
pub struct NoteContentView {
    pub title: Seq<char>,
    pub markdown: Seq<char>,
    pub tag_ids: Seq<Seq<char>>,
    pub attachment_ids: Seq<Seq<char>>,
}

impl View for NoteContent {
    type V = NoteContentView;

    open spec fn view(&self) -> NoteContentView {
        NoteContentView {
            title: self.title@,
            markdown: self.markdown@,
            tag_ids: string_views(self.tag_ids@),
            attachment_ids: string_views(self.attachment_ids@),
        }
    }
}

/// A note as its synchronisation sees it: its content, the content last
/// agreed with the cloud (the ancestor of a three-way merge), its revisions
/// and, while it is in conflict, the cloud's side of the conflict.
#[derive(Clone, Debug)]
pub struct NoteSyncRecord {
    pub id: String,
    pub content: NoteContent,
    pub revision: i64,
    /// The cloud revision local changes were made on.
    pub base_revision: i64,
    pub sync_state: NoteSyncState,
    pub ancestor: NoteContent,
    pub ancestor_revision: i64,
    pub conflict_kind: Option<ConflictKind>,
    pub conflict_title: Option<String>,
    pub conflict_markdown: Option<String>,
    pub conflict_tag_ids: Option<Vec<String>>,
    pub conflict_attachment_ids: Option<Vec<String>>,
    pub conflict_revision: Option<i64>,
    pub created_at: i64,
    pub updated_at: i64,
}

/// A note's synchronisation record as values.
pub struct NoteSyncView {
    pub id: Seq<char>,
    pub content: NoteContentView,
    pub revision: i64,
    pub base_revision: i64,
    pub sync_state: NoteSyncState,
    pub ancestor: NoteContentView,
    pub ancestor_revision: i64,
    pub conflict_kind: Option<ConflictKind>,
    pub conflict_title: Option<Seq<char>>,
    pub conflict_markdown: Option<Seq<char>>,
    pub conflict_tag_ids: Option<Seq<Seq<char>>>,
    pub conflict_attachment_ids: Option<Seq<Seq<char>>>,
    pub conflict_revision: Option<i64>,
    pub created_at: i64,
    pub updated_at: i64,
}

/// The text of an optional string.
pub open spec fn opt_string(s: Option<String>) -> Option<Seq<char>> {
    match s {
        Some(v) => Some(v@),
        None => None,
    }
}

/// The texts of an optional list of strings.
pub open spec fn opt_strings(s: Option<Vec<String>>) -> Option<Seq<Seq<char>>> {
    match s {
        Some(v) => Some(string_views(v@)),
        None => None,
    }
}

impl View for NoteSyncRecord {
    type V = NoteSyncView;

    open spec fn view(&self) -> NoteSyncView {
        NoteSyncView {
            id: self.id@,
            content: self.content@,
            revision: self.revision,
            base_revision: self.base_revision,
            sync_state: self.sync_state,
            ancestor: self.ancestor@,
            ancestor_revision: self.ancestor_revision,
            conflict_kind: self.conflict_kind,
            conflict_title: opt_string(self.conflict_title),
            conflict_markdown: opt_string(self.conflict_markdown),
            conflict_tag_ids: opt_strings(self.conflict_tag_ids),
            conflict_attachment_ids: opt_strings(self.conflict_attachment_ids),
            conflict_revision: self.conflict_revision,
            created_at: self.created_at,
            updated_at: self.updated_at,
        }
    }
}

/// `o`'s value, or `d` without one.
pub open spec fn or_else<T>(o: Option<T>, d: T) -> T {
    match o {
        Some(v) => v,
        None => d,
    }
}

/// The note with its conflict forgotten.
pub open spec fn conflict_cleared(v: NoteSyncView) -> NoteSyncView {
    NoteSyncView {
        conflict_kind: None,
        conflict_title: None,
        conflict_markdown: None,
        conflict_tag_ids: None,
        conflict_attachment_ids: None,
        conflict_revision: None,
        ..v
    }
}

/// Whether a note waits for the user to resolve a conflict.
pub open spec fn in_conflict(v: NoteSyncView) -> bool {
    v.sync_state == NoteSyncState::Conflict || v.sync_state == NoteSyncState::ConflictDelete
}

// ---------------------------------------------------------------------------
// Conflict resolution
// ---------------------------------------------------------------------------

/// How the user resolves a conflict.
#[derive(Clone, Copy, Debug, PartialEq, Eq, Structural)]
pub enum ConflictResolution {
    /// Keep the local side.
    Local,
    /// Take the cloud side.
    Cloud,
    /// Keep a content the user merged.
    Merged,
    /// Go on with the local deletion.
    ConfirmDelete,
    /// Drop the local deletion and take the cloud side.
    CancelDelete,
}

/// The resolution a payload's `resolution` names.
pub open spec fn resolution_of(name: Seq<char>) -> Option<ConflictResolution> {
    if name == "local"@ {
        Some(ConflictResolution::Local)
    } else if name == "cloud"@ {
        Some(ConflictResolution::Cloud)
    } else if name == "merged"@ {
        Some(ConflictResolution::Merged)
    } else if name == "confirm_delete"@ {
        Some(ConflictResolution::ConfirmDelete)
    } else if name == "cancel_delete"@ {
        Some(ConflictResolution::CancelDelete)
    } else {
        None
    }
}

/// What a resolution comes to besides the change of the note itself.
#[derive(Clone, Debug)]
pub enum ConflictOutcome {
    /// The note's row is removed; a new pending note with this content
    /// takes its place under a fresh id.
    Replaced(NoteContent),
    /// The note's row is removed.
    Removed,
    /// The note, as changed, is saved.
    Saved,
}

/// A conflict outcome as values.
pub enum ConflictOutcomeView {
    Replaced(NoteContentView),
    Removed,
    Saved,
}

/// The values of a conflict outcome.
pub open spec fn outcome_view(o: ConflictOutcome) -> ConflictOutcomeView {
    match o {
        ConflictOutcome::Replaced(c) => ConflictOutcomeView::Replaced(c@),
        ConflictOutcome::Removed => ConflictOutcomeView::Removed,
        ConflictOutcome::Saved => ConflictOutcomeView::Saved,
    }
}

/// The content the user merged: each part as the payload gives it, else as
/// the note has it.
pub open spec fn merged_content(v: NoteSyncView, payload: ConflictResolutionPayload) -> NoteContentView {
    NoteContentView {
        title: or_else(opt_string(payload.title), v.content.title),
        markdown: or_else(opt_string(payload.markdown), v.content.markdown),
        tag_ids: or_else(opt_strings(payload.tag_ids), v.content.tag_ids),
        attachment_ids: or_else(opt_strings(payload.attachment_ids), v.content.attachment_ids),
    }
}

/// The cloud side of a conflict: each part as the cloud had it, else
/// `fallback`'s.
pub open spec fn cloud_side(v: NoteSyncView, fallback: NoteContentView) -> NoteContentView {
    NoteContentView {
        title: or_else(v.conflict_title, fallback.title),
        markdown: or_else(v.conflict_markdown, fallback.markdown),
        tag_ids: or_else(v.conflict_tag_ids, fallback.tag_ids),
        attachment_ids: or_else(v.conflict_attachment_ids, fallback.attachment_ids),
    }
}

/// The empty content.
pub open spec fn empty_content() -> NoteContentView {
    NoteContentView {
        title: Seq::empty(),
        markdown: Seq::empty(),
        tag_ids: Seq::empty(),
        attachment_ids: Seq::empty(),
    }
}

/// Whether the cloud deleted the note the conflict is about.
pub open spec fn cloud_deleted(v: NoteSyncView) -> bool {
    v.conflict_kind == Some(ConflictKind::CloudDeleted)
}

/// The note adopting `content` at the cloud's revision as agreed with it.
pub open spec fn adopted(v: NoteSyncView, content: NoteContentView, now: i64) -> NoteSyncView {
    let revision = or_else(v.conflict_revision, v.revision);
    conflict_cleared(
        NoteSyncView {
            content: content,
            revision: revision,
            base_revision: revision,
            ancestor: content,
            ancestor_revision: revision,
            sync_state: NoteSyncState::Synced,
            updated_at: now,
            ..v
        },
    )
}

/// The note rebased on the cloud's revision in `state`, with `content`.
pub open spec fn rebased(v: NoteSyncView, content: NoteContentView, state: NoteSyncState, now: i64) -> NoteSyncView {
    conflict_cleared(
        NoteSyncView {
            content: content,
            base_revision: or_else(v.conflict_revision, v.revision),
            sync_state: state,
            updated_at: now,
            ..v
        },
    )
}

/// The note after `resolution` of its conflict at `now`, and what else
/// comes of it. A note the cloud deleted is kept by replacing it with a new
/// note, or dropped; otherwise the local or merged side is rebased on the
/// cloud's revision, or the cloud side is adopted.
pub open spec fn resolved(
    v: NoteSyncView,
    resolution: ConflictResolution,
    payload: ConflictResolutionPayload,
    now: i64,
) -> (NoteSyncView, ConflictOutcomeView) {
    match resolution {
        ConflictResolution::Local => if cloud_deleted(v) {
            (v, ConflictOutcomeView::Replaced(v.content))
        } else {
            (rebased(v, v.content, NoteSyncState::Pending, now), ConflictOutcomeView::Saved)
        },
        ConflictResolution::Cloud => if cloud_deleted(v) {
            (v, ConflictOutcomeView::Removed)
        } else {
            (adopted(v, cloud_side(v, empty_content()), now), ConflictOutcomeView::Saved)
        },
        ConflictResolution::Merged => if cloud_deleted(v) {
            (v, ConflictOutcomeView::Replaced(merged_content(v, payload)))
        } else {
            (rebased(v, merged_content(v, payload), NoteSyncState::Pending, now), ConflictOutcomeView::Saved)
        },
        ConflictResolution::ConfirmDelete => (
            rebased(v, v.content, NoteSyncState::PendingDelete, now),
            ConflictOutcomeView::Saved,
        ),
        ConflictResolution::CancelDelete => (
            adopted(v, cloud_side(v, v.content), now),
            ConflictOutcomeView::Saved,
        ),
    }
}

fn copy_ids(ids: &Vec<String>) -> (r: Vec<String>)
    ensures
        string_views(r@) == string_views(ids@),
{
    let mut out: Vec<String> = Vec::new();
    let mut i: usize = 0;
    while i < ids.len()
        invariant
            i <= ids@.len(),
            string_views(out@) == string_views(ids@.take(i as int)),
        decreases ids@.len() - i,
    {
        let id = ids[i].clone();
        proof {
            assert(string_views(ids@.take(i + 1)) =~= string_views(ids@.take(i as int)).push(id@));
        }
        out.push(id);
        proof {
            assert(string_views(out@) =~= string_views(ids@.take(i as int)).push(id@));
        }
        i = i + 1;
    }
    proof {
        assert(ids@.take(ids@.len() as int) =~= ids@);
    }
    out
}

fn copy_content(c: &NoteContent) -> (r: NoteContent)
    ensures
        r@ == c@,
{
    NoteContent {
        title: c.title.clone(),
        markdown: c.markdown.clone(),
        tag_ids: copy_ids(&c.tag_ids),
        attachment_ids: copy_ids(&c.attachment_ids),
    }
}

fn text_or(o: &Option<String>, d: &String) -> (r: String)
    ensures
        r@ == or_else(opt_string(*o), d@),
{
    match o {
        Some(v) => v.clone(),
        None => d.clone(),
    }
}

fn ids_or(o: &Option<Vec<String>>, d: &Vec<String>) -> (r: Vec<String>)
    ensures
        string_views(r@) == or_else(opt_strings(*o), string_views(d@)),
{
    match o {
        Some(v) => copy_ids(v),
        None => copy_ids(d),
    }
}

fn clear_conflict(record: &mut NoteSyncRecord)
    ensures
        final(record)@ == conflict_cleared(old(record)@),
{
    record.conflict_kind = None;
    record.conflict_title = None;
    record.conflict_markdown = None;
    record.conflict_tag_ids = None;
    record.conflict_attachment_ids = None;
    record.conflict_revision = None;
}

impl NoteSyncRecord {
    /// Resolves the note's conflict as `payload` says, at `now_ms`. Refused
    /// when the note has no conflict or the resolution is unknown; the note
    /// is then left as it is.
    pub fn resolve_conflict(&mut self, payload: &ConflictResolutionPayload, now_ms: i64) -> (r: Result<
        ConflictOutcome,
        AppError,
    >)
        ensures
            !in_conflict(old(self)@) ==> (r matches Err(e) && e.message@ == "note has no conflict"@)
                && final(self)@ == old(self)@,
            in_conflict(old(self)@) && resolution_of(payload.resolution@) is None ==> (r matches Err(e)
                && e.message@ == "unknown resolution: "@ + payload.resolution@) && final(self)@ == old(
            self)@,
            in_conflict(old(self)@) ==> (resolution_of(payload.resolution@) matches Some(res) ==> (r matches Ok(
                o) && (final(self)@, outcome_view(o)) == resolved(old(self)@, res, *payload, now_ms))),
    {
        proof {
            reveal_strlit("local");
            reveal_strlit("cloud");
            reveal_strlit("merged");
            reveal_strlit("confirm_delete");
            reveal_strlit("cancel_delete");
        }
        if self.sync_state != NoteSyncState::Conflict && self.sync_state != NoteSyncState::ConflictDelete {
            return Err(AppError::message("note has no conflict"));
        }
        let cloud_deleted = match self.conflict_kind {
            Some(ConflictKind::CloudDeleted) => true,
            _ => false,
        };
        let cloud_revision = match self.conflict_revision {
            Some(v) => v,
            None => self.revision,
        };
        let resolution = payload.resolution.as_str();
        if str_eq(resolution, "local") {
            if cloud_deleted {
                return Ok(ConflictOutcome::Replaced(copy_content(&self.content)));
            }
            self.base_revision = cloud_revision;
            self.sync_state = NoteSyncState::Pending;
            clear_conflict(self);
            self.updated_at = now_ms;
            Ok(ConflictOutcome::Saved)
        } else if str_eq(resolution, "cloud") {
            if cloud_deleted {
                return Ok(ConflictOutcome::Removed);
            }
            let empty = NoteContent {
                title: String::new(),
                markdown: String::new(),
                tag_ids: Vec::new(),
                attachment_ids: Vec::new(),
            };
            proof {
                assert(empty.title@ =~= Seq::<char>::empty());
                assert(empty.markdown@ =~= Seq::<char>::empty());
                assert(string_views(empty.tag_ids@) =~= Seq::<Seq<char>>::empty());
                assert(string_views(empty.attachment_ids@) =~= Seq::<Seq<char>>::empty());
                assert(empty@ == empty_content());
            }
            self.adopt_cloud_side(&empty, now_ms);
            Ok(ConflictOutcome::Saved)
        } else if str_eq(resolution, "merged") {
            let merged = NoteContent {
                title: text_or(&payload.title, &self.content.title),
                markdown: text_or(&payload.markdown, &self.content.markdown),
                tag_ids: ids_or(&payload.tag_ids, &self.content.tag_ids),
                attachment_ids: ids_or(&payload.attachment_ids, &self.content.attachment_ids),
            };
            if cloud_deleted {
                return Ok(ConflictOutcome::Replaced(merged));
            }
            self.content = merged;
            self.base_revision = cloud_revision;
            self.sync_state = NoteSyncState::Pending;
            clear_conflict(self);
            self.updated_at = now_ms;
            Ok(ConflictOutcome::Saved)
        } else if str_eq(resolution, "confirm_delete") {
            self.base_revision = cloud_revision;
            self.sync_state = NoteSyncState::PendingDelete;
            clear_conflict(self);
            self.updated_at = now_ms;
            Ok(ConflictOutcome::Saved)
        } else if str_eq(resolution, "cancel_delete") {
            let current = copy_content(&self.content);
            self.adopt_cloud_side(&current, now_ms);
            Ok(ConflictOutcome::Saved)
        } else {
            let mut message = "unknown resolution: ".to_owned();
            message.append(resolution);
            Err(AppError { message })
        }
    }

    /// Takes the cloud side of the conflict (with `fallback`'s parts where
    /// the cloud gave none) at the cloud's revision, as agreed with it.
    fn adopt_cloud_side(&mut self, fallback: &NoteContent, now_ms: i64)
        ensures
            final(self)@ == adopted(old(self)@, cloud_side(old(self)@, fallback@), now_ms),
    {
        let content = NoteContent {
            title: text_or(&self.conflict_title, &fallback.title),
            markdown: text_or(&self.conflict_markdown, &fallback.markdown),
            tag_ids: ids_or(&self.conflict_tag_ids, &fallback.tag_ids),
            attachment_ids: ids_or(&self.conflict_attachment_ids, &fallback.attachment_ids),
        };
        let revision = match self.conflict_revision {
            Some(v) => v,
            None => self.revision,
        };
        self.ancestor = copy_content(&content);
        self.content = content;
        self.revision = revision;
        self.base_revision = revision;
        self.ancestor_revision = revision;
        self.sync_state = NoteSyncState::Synced;
        clear_conflict(self);
        self.updated_at = now_ms;
    }
}

// ---------------------------------------------------------------------------
// Pushing
// ---------------------------------------------------------------------------

/// What a push does with a local note or tag.
#[derive(Clone, Copy, Debug, PartialEq, Eq, Structural)]
pub enum PushAction {
    /// Nothing: it is deleted already, or has nothing to push.
    Skip,
    /// Delete it in the cloud.
    Delete,
    /// Create it in the cloud (it was never pushed).
    Create,
    /// Update it in the cloud.
    Update,
}

/// What a push does with an item in `state` on cloud revision
/// `base_revision`: a pending deletion is pushed as one; a pending change
/// creates the item when it was never pushed (base revision 0) and updates
/// it otherwise; deleted rows and all other states are left alone.
pub fn push_action(deleted: bool, state: NoteSyncState, base_revision: i64) -> (r: PushAction)
    ensures
        r == (if deleted {
            PushAction::Skip
        } else if state == NoteSyncState::PendingDelete {
            PushAction::Delete
        } else if state == NoteSyncState::Pending {
            if base_revision == 0 {
                PushAction::Create
            } else {
                PushAction::Update
            }
        } else {
            PushAction::Skip
        }),
{
    if deleted {
        PushAction::Skip
    } else {
        match state {
            NoteSyncState::PendingDelete => PushAction::Delete,
            NoteSyncState::Pending => if base_revision == 0 {
                PushAction::Create
            } else {
                PushAction::Update
            },
            _ => PushAction::Skip,
        }
    }
}

// ---------------------------------------------------------------------------
// Tags
// ---------------------------------------------------------------------------

/// A local tag.
#[derive(Clone, Debug)]
pub struct NoteTagRecord {
    pub id: String,
    pub name: String,
    pub revision: i64,
    pub base_revision: i64,
    pub sync_state: NoteSyncState,
    pub deleted: bool,
    pub created_at: i64,
    pub updated_at: i64,
}

/// A local tag as values.
pub struct NoteTagView {
    pub id: Seq<char>,
    pub name: Seq<char>,
    pub revision: i64,
    pub base_revision: i64,
    pub sync_state: NoteSyncState,
    pub deleted: bool,
    pub created_at: i64,
    pub updated_at: i64,
}

impl View for NoteTagRecord {
    type V = NoteTagView;

    open spec fn view(&self) -> NoteTagView {
        NoteTagView {
            id: self.id@,
            name: self.name@,
            revision: self.revision,
            base_revision: self.base_revision,
            sync_state: self.sync_state,
            deleted: self.deleted,
            created_at: self.created_at,
            updated_at: self.updated_at,
        }
    }
}

/// The time of a cloud timestamp, or `fallback` when it does not parse.
pub open spec fn cloud_time(raw: Seq<char>, fallback: i64) -> i64 {
    match rfc3339_millis(raw) {
        Some(t) => t,
        None => fallback,
    }
}

/// What a tag the cloud sent does to the local tag `local`, at `now`: the
/// tag to save, if any. An unknown tag is taken as it is; a synced tag
/// takes a newer cloud revision; a pending rename the cloud overtook is
/// settled (same name) or put in conflict (another name); anything else is
/// left as it is.
pub open spec fn upserted_tag(local: Option<NoteTagView>, cloud: TagDto, now: i64) -> Option<NoteTagView> {
    match local {
        None => Some(
            NoteTagView {
                id: cloud.tag_id@,
                name: cloud.name@,
                revision: cloud.revision,
                base_revision: cloud.revision,
                sync_state: NoteSyncState::Synced,
                deleted: false,
                created_at: cloud_time(cloud.created_at@, now),
                updated_at: cloud_time(cloud.updated_at@, now),
            },
        ),
        Some(l) => if l.sync_state == NoteSyncState::Synced {
            if l.revision >= cloud.revision {
                None
            } else {
                Some(
                    NoteTagView {
                        name: cloud.name@,
                        revision: cloud.revision,
                        base_revision: cloud.revision,
                        updated_at: cloud_time(cloud.updated_at@, now),
                        ..l
                    },
                )
            }
        } else if l.sync_state == NoteSyncState::Pending && cloud.revision > l.base_revision {
            Some(
                NoteTagView {
                    revision: cloud.revision,
                    base_revision: cloud.revision,
                    sync_state: if l.name == cloud.name@ {
                        NoteSyncState::Synced
                    } else {
                        NoteSyncState::Conflict
                    },
                    created_at: cloud_time(cloud.created_at@, l.created_at),
                    updated_at: cloud_time(cloud.updated_at@, now),
                    ..l
                },
            )
        } else {
            None
        },
    }
}

/// The values of an optional tag.
pub open spec fn opt_tag(t: Option<NoteTagRecord>) -> Option<NoteTagView> {
    match t {
        Some(v) => Some(v@),
        None => None,
    }
}

/// Applies a tag the cloud sent to the local tag `local` at `now_ms`: the
/// tag to save, if any. A tag taken from the cloud counts as pulled, a
/// rename that clashes as a conflict.
pub fn apply_tag_upsert(local: Option<NoteTagRecord>, cloud: &TagDto, now_ms: i64, counters: &mut SyncCounters) -> (r:
    Option<NoteTagRecord>)
    requires
        old(counters).pulled_tags < u32::MAX,
        old(counters).conflicts < u32::MAX,
    ensures
        opt_tag(r) == upserted_tag(opt_tag(local), *cloud, now_ms),
        *final(counters) == (match local {
            None => SyncCounters { pulled_tags: (old(counters).pulled_tags + 1) as u32, ..*old(counters) },
            Some(l) => if l.sync_state == NoteSyncState::Synced && l.revision < cloud.revision {
                SyncCounters { pulled_tags: (old(counters).pulled_tags + 1) as u32, ..*old(counters) }
            } else if l.sync_state == NoteSyncState::Pending && cloud.revision > l.base_revision
                && l.name@ != cloud.name@ {
                SyncCounters { conflicts: (old(counters).conflicts + 1) as u32, ..*old(counters) }
            } else {
                *old(counters)
            },
        }),
{
    let mut tag = match local {
        None => {
            counters.pulled_tags = counters.pulled_tags + 1;
            return Some(
                NoteTagRecord {
                    id: cloud.tag_id.clone(),
                    name: cloud.name.clone(),
                    revision: cloud.revision,
                    base_revision: cloud.revision,
                    sync_state: NoteSyncState::Synced,
                    deleted: false,
                    created_at: parse_timestamp_millis(cloud.created_at.as_str(), now_ms),
                    updated_at: parse_timestamp_millis(cloud.updated_at.as_str(), now_ms),
                },
            );
        },
        Some(t) => t,
    };
    if tag.sync_state == NoteSyncState::Synced {
        if tag.revision >= cloud.revision {
            return None;
        }
        tag.name = cloud.name.clone();
        tag.revision = cloud.revision;
        tag.base_revision = cloud.revision;
        tag.updated_at = parse_timestamp_millis(cloud.updated_at.as_str(), now_ms);
        counters.pulled_tags = counters.pulled_tags + 1;
        return Some(tag);
    }
    if tag.sync_state == NoteSyncState::Pending && cloud.revision > tag.base_revision {
        if str_eq(tag.name.as_str(), cloud.name.as_str()) {
            tag.sync_state = NoteSyncState::Synced;
        } else {
            tag.sync_state = NoteSyncState::Conflict;
            counters.count_conflict();
        }
        tag.revision = cloud.revision;
        tag.base_revision = cloud.revision;
        tag.created_at = parse_timestamp_millis(cloud.created_at.as_str(), tag.created_at);
        tag.updated_at = parse_timestamp_millis(cloud.updated_at.as_str(), now_ms);
        return Some(tag);
    }
    None
}

impl NoteTagRecord {
    /// Settles a rename the cloud refused because the tag moved on there,
    /// with the cloud's tag at `now_ms`: the tag takes the cloud's name and
    /// revision and is synced. The same final name counts as pushed; two
    /// different renames count as a conflict, the cloud's name winning.
    pub fn settle_rename_race(&mut self, cloud: &TagDto, now_ms: i64, counters: &mut SyncCounters)
        requires
            old(counters).pushed_tags < u32::MAX,
            old(counters).conflicts < u32::MAX,
        ensures
            final(self)@ == (NoteTagView {
                name: cloud.name@,
                revision: cloud.revision,
                base_revision: cloud.revision,
                sync_state: NoteSyncState::Synced,
                created_at: cloud_time(cloud.created_at@, old(self).created_at),
                updated_at: cloud_time(cloud.updated_at@, now_ms),
                ..old(self)@
            }),
            *final(counters) == (if old(self).name@ == cloud.name@ {
                SyncCounters { pushed_tags: (old(counters).pushed_tags + 1) as u32, ..*old(counters) }
            } else {
                SyncCounters { conflicts: (old(counters).conflicts + 1) as u32, ..*old(counters) }
            }),
    {
        if str_eq(self.name.as_str(), cloud.name.as_str()) {
            counters.pushed_tags = counters.pushed_tags + 1;
        } else {
            self.name = cloud.name.clone();
            counters.count_conflict();
        }
        self.revision = cloud.revision;
        self.base_revision = cloud.revision;
        self.sync_state = NoteSyncState::Synced;
        self.created_at = parse_timestamp_millis(cloud.created_at.as_str(), self.created_at);
        self.updated_at = parse_timestamp_millis(cloud.updated_at.as_str(), now_ms);
    }
}

// ---------------------------------------------------------------------------
// Pulling notes
// ---------------------------------------------------------------------------

/// `r` is `ids` sorted, each once.
pub open spec fn normalized_ids(r: Seq<Seq<char>>, ids: Seq<Seq<char>>) -> bool {
    strictly_sorted(r) && forall|x: Seq<char>| r.contains(x) <==> ids.contains(x)
}

/// `r` is the attachment ids of `dto`, sorted.
pub open spec fn cloud_attachment_ids(r: Seq<Seq<char>>, dto: NoteDto) -> bool {
    sorted_texts(r) && r.to_multiset() == dto.attachments@.map_values(
        |a: AttachmentDto| a.attachment_id@,
    ).to_multiset()
}

/// `c` is the content of the cloud note `dto`.
pub open spec fn cloud_content(c: NoteContentView, dto: NoteDto) -> bool {
    &&& c.title == dto.title@
    &&& c.markdown == dto.markdown@
    &&& normalized_ids(c.tag_ids, string_views(dto.tag_ids@))
    &&& cloud_attachment_ids(c.attachment_ids, dto)
}

/// `v` is the cloud note `dto` taken as it is at `now`: synced at its
/// revision, agreed with the cloud, without conflict; its creation time
/// the cloud's, else `created_fallback`.
pub open spec fn taken_from_cloud(v: NoteSyncView, dto: NoteDto, created_fallback: i64, now: i64) -> bool {
    &&& v.id == dto.note_id@
    &&& cloud_content(v.content, dto)
    &&& v.ancestor == v.content
    &&& v.revision == dto.revision
    &&& v.base_revision == dto.revision
    &&& v.ancestor_revision == dto.revision
    &&& v.sync_state == NoteSyncState::Synced
    &&& v == conflict_cleared(v)
    &&& v.created_at == cloud_time(dto.created_at@, created_fallback)
    &&& v.updated_at == cloud_time(dto.updated_at@, now)
}

/// `n` is `v` put in a conflict of `kind` with the cloud note `dto`, in
/// `state`, at `now`.
pub open spec fn conflicted_with(
    n: NoteSyncView,
    v: NoteSyncView,
    dto: NoteDto,
    kind: ConflictKind,
    state: NoteSyncState,
    now: i64,
) -> bool {
    &&& n.conflict_title == Some(dto.title@)
    &&& n.conflict_markdown == Some(dto.markdown@)
    &&& n.conflict_tag_ids matches Some(t) && normalized_ids(t, string_views(dto.tag_ids@))
    &&& n.conflict_attachment_ids matches Some(a) && cloud_attachment_ids(a, dto)
    &&& n == NoteSyncView {
        sync_state: state,
        conflict_kind: Some(kind),
        conflict_title: n.conflict_title,
        conflict_markdown: n.conflict_markdown,
        conflict_tag_ids: n.conflict_tag_ids,
        conflict_attachment_ids: n.conflict_attachment_ids,
        conflict_revision: Some(dto.revision),
        updated_at: now,
        ..v
    }
}

/// `r` is the three-way merge of the id sets `ancestor`, `local`, `cloud`.
pub open spec fn merged_ids(
    r: Seq<Seq<char>>,
    ancestor: Seq<Seq<char>>,
    local: Seq<Seq<char>>,
    cloud: Seq<Seq<char>>,
) -> bool {
    strictly_sorted(r) && forall|id: Seq<char>| r.contains(id) <==> keeps_id(ancestor, local, cloud, id)
}

/// Whether the local edits of `v` merge with the cloud note `dto` without
/// a decision of the user: both the title and the Markdown merge.
pub open spec fn merges_cleanly(v: NoteSyncView, dto: NoteDto) -> bool {
    field_merge(v.ancestor.title, v.content.title, dto.title@) is Some && markdown_merge(
        v.ancestor.markdown,
        v.content.markdown,
        dto.markdown@,
    ) is Some
}

/// `n` is `v` with its local edits merged with the cloud note `dto` at
/// `now`, now based on the cloud's revision, whose content becomes the
/// ancestor.
pub open spec fn merged_with(n: NoteSyncView, v: NoteSyncView, dto: NoteDto, now: i64) -> bool {
    &&& n.content.title == field_merge(v.ancestor.title, v.content.title, dto.title@)->0
    &&& n.content.markdown == markdown_merge(v.ancestor.markdown, v.content.markdown, dto.markdown@)->0
    &&& merged_ids(n.content.tag_ids, v.ancestor.tag_ids, v.content.tag_ids, string_views(dto.tag_ids@))
    &&& merged_ids(
        n.content.attachment_ids,
        v.ancestor.attachment_ids,
        v.content.attachment_ids,
        n.ancestor.attachment_ids,
    )
    &&& cloud_content(n.ancestor, dto)
    &&& n == NoteSyncView {
        content: n.content,
        base_revision: dto.revision,
        ancestor: n.ancestor,
        ancestor_revision: dto.revision,
        updated_at: now,
        ..v
    }
}

/// Whether the cloud note `dto` leaves the local note `v` as it is: a
/// queued deletion the cloud did not move past, a synced note at least as
/// new, local edits on a base at least as new.
pub open spec fn pull_leaves_unchanged(v: NoteSyncView, dto: NoteDto) -> bool {
    if v.sync_state == NoteSyncState::PendingDelete {
        dto.revision == v.base_revision
    } else if v.sync_state == NoteSyncState::Synced {
        v.revision >= dto.revision
    } else {
        dto.revision <= v.base_revision
    }
}

/// What a pulled change did to a local note.
#[derive(Clone, Copy, Debug, PartialEq, Eq, Structural)]
pub enum NoteChange {
    /// Nothing: the note stays as it was.
    Unchanged,
    /// The note, as changed, is saved.
    Saved,
    /// The note's row is removed.
    Removed,
}

fn content_from_cloud(dto: &NoteDto) -> (r: NoteContent)
    ensures
        cloud_content(r@, *dto),
{
    let tag_ids = copy_ids(&dto.tag_ids);
    NoteContent {
        title: dto.title.clone(),
        markdown: dto.markdown.clone(),
        tag_ids: normalize_id_list(tag_ids),
        attachment_ids: attachment_ids_of(dto),
    }
}

/// The note the cloud note `dto` makes, taken as it is at `now_ms`; its
/// creation time is the cloud's, else `created_at`.
pub fn cloud_to_record(dto: &NoteDto, created_at: i64, now_ms: i64) -> (r: NoteSyncRecord)
    ensures
        taken_from_cloud(r@, *dto, created_at, now_ms),
{
    let content = content_from_cloud(dto);
    NoteSyncRecord {
        id: dto.note_id.clone(),
        ancestor: copy_content(&content),
        content,
        revision: dto.revision,
        base_revision: dto.revision,
        sync_state: NoteSyncState::Synced,
        ancestor_revision: dto.revision,
        conflict_kind: None,
        conflict_title: None,
        conflict_markdown: None,
        conflict_tag_ids: None,
        conflict_attachment_ids: None,
        conflict_revision: None,
        created_at: parse_timestamp_millis(dto.created_at.as_str(), created_at),
        updated_at: parse_timestamp_millis(dto.updated_at.as_str(), now_ms),
    }
}

impl NoteSyncRecord {
    /// Puts the note in a conflict of `kind` with the cloud note `dto`, in
    /// `state`, at `now_ms`.
    pub fn enter_conflict(&mut self, dto: &NoteDto, kind: ConflictKind, state: NoteSyncState, now_ms: i64)
        ensures
            conflicted_with(final(self)@, old(self)@, *dto, kind, state, now_ms),
    {
        let cloud = content_from_cloud(dto);
        self.sync_state = state;
        self.conflict_kind = Some(kind);
        self.conflict_title = Some(cloud.title);
        self.conflict_markdown = Some(cloud.markdown);
        self.conflict_tag_ids = Some(cloud.tag_ids);
        self.conflict_attachment_ids = Some(cloud.attachment_ids);
        self.conflict_revision = Some(dto.revision);
        self.updated_at = now_ms;
    }

    /// Records that the cloud accepted this note as the cloud note `dto`,
    /// at `now_ms`: the note keeps its id and takes everything else from the
    /// cloud, as `cloud_to_record` does.
    pub fn mark_note_synced(&mut self, dto: &NoteDto, now_ms: i64)
        ensures
            final(self)@.id == old(self)@.id,
            taken_from_cloud(
                NoteSyncView { id: dto.note_id@, ..final(self)@ },
                *dto,
                old(self).created_at,
                now_ms,
            ),
    {
        let mut synced = cloud_to_record(dto, self.created_at, now_ms);
        synced.id = self.id.clone();
        *self = synced;
    }

    /// Applies the cloud note `dto` to this local note of the same id at
    /// `now_ms`. A pending deletion is kept while the cloud did not move and
    /// conflicts otherwise; a synced note takes a newer cloud revision as it
    /// is; local edits on an older base are merged three-way with it, or put
    /// in conflict when the title or the Markdown clash. Pulled notes and
    /// conflicts are counted.
    pub fn apply_note_upsert(&mut self, dto: &NoteDto, now_ms: i64, counters: &mut SyncCounters) -> (r:
        NoteChange)
        requires
            old(counters).pulled_notes < u32::MAX,
            old(counters).conflicts < u32::MAX,
        ensures
            r == NoteChange::Unchanged <==> pull_leaves_unchanged(old(self)@, *dto),
            ({
                let v = old(self)@;
                let n = final(self)@;
                let pulled = SyncCounters {
                    pulled_notes: (old(counters).pulled_notes + 1) as u32,
                    ..*old(counters)
                };
                let conflict = SyncCounters { conflicts: (old(counters).conflicts + 1) as u32, ..*old(counters) };
                if v.sync_state == NoteSyncState::PendingDelete {
                    if dto.revision == v.base_revision {
                        r == NoteChange::Unchanged && n == v && *final(counters) == *old(counters)
                    } else {
                        r == NoteChange::Saved && conflicted_with(
                            n,
                            v,
                            *dto,
                            ConflictKind::Delete,
                            NoteSyncState::ConflictDelete,
                            now_ms,
                        ) && *final(counters) == conflict
                    }
                } else if v.sync_state == NoteSyncState::Synced {
                    if v.revision >= dto.revision {
                        r == NoteChange::Unchanged && n == v && *final(counters) == *old(counters)
                    } else {
                        r == NoteChange::Saved && taken_from_cloud(n, *dto, v.created_at, now_ms)
                            && *final(counters) == pulled
                    }
                } else if dto.revision <= v.base_revision {
                    r == NoteChange::Unchanged && n == v && *final(counters) == *old(counters)
                } else if merges_cleanly(v, *dto) {
                    r == NoteChange::Saved && merged_with(n, v, *dto, now_ms) && *final(counters) == pulled
                } else {
                    r == NoteChange::Saved && conflicted_with(
                        n,
                        v,
                        *dto,
                        ConflictKind::Edit,
                        NoteSyncState::Conflict,
                        now_ms,
                    ) && *final(counters) == conflict
                }
            }),
    {
        if self.sync_state == NoteSyncState::PendingDelete {
            if dto.revision == self.base_revision {
                return NoteChange::Unchanged;
            }
            self.enter_conflict(dto, ConflictKind::Delete, NoteSyncState::ConflictDelete, now_ms);
            counters.count_conflict();
            return NoteChange::Saved;
        }
        if self.sync_state == NoteSyncState::Synced {
            if self.revision >= dto.revision {
                return NoteChange::Unchanged;
            }
            *self = cloud_to_record(dto, self.created_at, now_ms);
            counters.pulled_notes = counters.pulled_notes + 1;
            return NoteChange::Saved;
        }
        if dto.revision <= self.base_revision {
            return NoteChange::Unchanged;
        }
        let title = merge_field(self.ancestor.title.as_str(), self.content.title.as_str(), dto.title.as_str());
        let markdown = merge_markdown(
            self.ancestor.markdown.as_str(),
            self.content.markdown.as_str(),
            dto.markdown.as_str(),
        );
        match (title, markdown) {
            (FieldMerge::Resolved(title), Some(markdown)) => {
                let cloud = content_from_cloud(dto);
                let tag_ids = merge_set(
                    self.ancestor.tag_ids.as_slice(),
                    self.content.tag_ids.as_slice(),
                    dto.tag_ids.as_slice(),
                );
                let attachment_ids = merge_set(
                    self.ancestor.attachment_ids.as_slice(),
                    self.content.attachment_ids.as_slice(),
                    cloud.attachment_ids.as_slice(),
                );
                self.content = NoteContent { title, markdown, tag_ids, attachment_ids };
                self.base_revision = dto.revision;
                self.ancestor = cloud;
                self.ancestor_revision = dto.revision;
                self.updated_at = now_ms;
                counters.pulled_notes = counters.pulled_notes + 1;
                NoteChange::Saved
            },
            _ => {
                self.enter_conflict(dto, ConflictKind::Edit, NoteSyncState::Conflict, now_ms);
                counters.count_conflict();
                NoteChange::Saved
            },
        }
    }

    /// Merges the note's local edits with the cloud note `dto` that refused
    /// its push as out of date, at `now_ms`, for pushing again: when the
    /// title and Markdown merge, the note takes the merged content on the
    /// cloud's revision (its ancestor stays, as nothing was agreed yet);
    /// otherwise it is put in an edit conflict, which counts as a conflict.
    /// Returns whether it merged.
    pub fn merge_for_push(&mut self, dto: &NoteDto, now_ms: i64, counters: &mut SyncCounters) -> (r: bool)
        requires
            old(counters).conflicts < u32::MAX,
        ensures
            r == merges_cleanly(old(self)@, *dto),
            *final(counters) == (if r {
                *old(counters)
            } else {
                SyncCounters { conflicts: (old(counters).conflicts + 1) as u32, ..*old(counters) }
            }),
            r ==> ({
                let v = old(self)@;
                let n = final(self)@;
                &&& n.content.title == field_merge(v.ancestor.title, v.content.title, dto.title@)->0
                &&& n.content.markdown == markdown_merge(
                    v.ancestor.markdown,
                    v.content.markdown,
                    dto.markdown@,
                )->0
                &&& merged_ids(n.content.tag_ids, v.ancestor.tag_ids, v.content.tag_ids, string_views(dto.tag_ids@))
                &&& exists|cloud_attachments: Seq<Seq<char>>|
                    cloud_attachment_ids(cloud_attachments, *dto) && merged_ids(
                        n.content.attachment_ids,
                        v.ancestor.attachment_ids,
                        v.content.attachment_ids,
                        cloud_attachments,
                    )
                &&& n == NoteSyncView { content: n.content, base_revision: dto.revision, updated_at: now_ms, ..v }
            }),
            !r ==> conflicted_with(
                final(self)@,
                old(self)@,
                *dto,
                ConflictKind::Edit,
                NoteSyncState::Conflict,
                now_ms,
            ),
    {
        let title = merge_field(self.ancestor.title.as_str(), self.content.title.as_str(), dto.title.as_str());
        let markdown = merge_markdown(
            self.ancestor.markdown.as_str(),
            self.content.markdown.as_str(),
            dto.markdown.as_str(),
        );
        match (title, markdown) {
            (FieldMerge::Resolved(title), Some(markdown)) => {
                let cloud_attachments = attachment_ids_of(dto);
                let tag_ids = merge_set(
                    self.ancestor.tag_ids.as_slice(),
                    self.content.tag_ids.as_slice(),
                    dto.tag_ids.as_slice(),
                );
                let attachment_ids = merge_set(
                    self.ancestor.attachment_ids.as_slice(),
                    self.content.attachment_ids.as_slice(),
                    cloud_attachments.as_slice(),
                );
                let ghost cloud_view = string_views(cloud_attachments@);
                self.content = NoteContent { title, markdown, tag_ids, attachment_ids };
                self.base_revision = dto.revision;
                self.updated_at = now_ms;
                proof {
                    assert(cloud_attachment_ids(cloud_view, *dto));
                }
                true
            },
            _ => {
                self.enter_conflict(dto, ConflictKind::Edit, NoteSyncState::Conflict, now_ms);
                counters.count_conflict();
                false
            },
        }
    }

    /// Applies the cloud's deletion at `revision` of this local note at
    /// `now_ms`. Local edits the deletion overtook are kept in a conflict
    /// for the user; older ones are left alone; any other note is removed,
    /// and counts as pulled unless its deletion was queued here.
    pub fn apply_note_delete(&mut self, revision: i64, now_ms: i64, counters: &mut SyncCounters) -> (r:
        NoteChange)
        requires
            old(counters).pulled_notes < u32::MAX,
            old(counters).conflicts < u32::MAX,
        ensures
            ({
                let v = old(self)@;
                let n = final(self)@;
                if v.sync_state == NoteSyncState::Pending || v.sync_state == NoteSyncState::Conflict {
                    if revision > v.base_revision {
                        r == NoteChange::Saved && n == NoteSyncView {
                            sync_state: NoteSyncState::Conflict,
                            conflict_kind: Some(ConflictKind::CloudDeleted),
                            conflict_revision: Some(revision),
                            updated_at: now_ms,
                            ..v
                        } && *final(counters) == SyncCounters {
                            conflicts: (old(counters).conflicts + 1) as u32,
                            ..*old(counters)
                        }
                    } else {
                        r == NoteChange::Unchanged && n == v && *final(counters) == *old(counters)
                    }
                } else if v.sync_state == NoteSyncState::PendingDelete {
                    r == NoteChange::Removed && n == v && *final(counters) == *old(counters)
                } else {
                    r == NoteChange::Removed && n == v && *final(counters) == SyncCounters {
                        pulled_notes: (old(counters).pulled_notes + 1) as u32,
                        ..*old(counters)
                    }
                }
            }),
    {
        match self.sync_state {
            NoteSyncState::Pending | NoteSyncState::Conflict => {
                if revision > self.base_revision {
                    self.sync_state = NoteSyncState::Conflict;
                    self.conflict_kind = Some(ConflictKind::CloudDeleted);
                    self.conflict_revision = Some(revision);
                    self.updated_at = now_ms;
                    counters.count_conflict();
                    NoteChange::Saved
                } else {
                    NoteChange::Unchanged
                }
            },
            NoteSyncState::PendingDelete => NoteChange::Removed,
            _ => {
                counters.pulled_notes = counters.pulled_notes + 1;
                NoteChange::Removed
            },
        }
    }
}

// ---------------------------------------------------------------------------
// Local edits
// ---------------------------------------------------------------------------

/// Whether `uuid::Uuid::parse_str` accepts `text`.
pub uninterp spec fn uuid_text(text: Seq<char>) -> bool;

/// Calls `uuid::Uuid::parse_str`. Claims: it succeeds exactly when
/// `uuid_text` holds of the text, and it accepts the hyphenated lowercase
/// form (`uuid_layout`), which its parser reads as 32 hexadecimal digits in
/// groups of 8, 4, 4, 4 and 12.
#[verifier::external_body]
fn parses_as_uuid(text: &str) -> (r: bool)
    ensures
        r == uuid_text(text@),
        uuid_layout(text@) ==> r,
{
    uuid::Uuid::parse_str(text).is_ok()
}

/// Whether every id of `ids` is a UUID.
pub open spec fn all_uuids(ids: Seq<Seq<char>>) -> bool {
    forall|i: int| 0 <= i < ids.len() ==> uuid_text(#[trigger] ids[i])
}

/// Whether every id of `ids` is laid out as a hyphenated lowercase UUID.
pub open spec fn all_uuid_layouts(ids: Seq<Seq<char>>) -> bool {
    forall|i: int| 0 <= i < ids.len() ==> uuid_layout(#[trigger] ids[i])
}

/// Checks that the tags and attachments a note refers to are named by
/// UUIDs; refused otherwise.
pub fn validate_reference_ids(tag_ids: &Vec<String>, attachment_ids: &Vec<String>) -> (r: Result<(), AppError>)
    ensures
        r is Ok <==> all_uuids(string_views(tag_ids@)) && all_uuids(string_views(attachment_ids@)),
        r matches Err(e) ==> e.message@ == "invalid reference id"@,
        all_uuid_layouts(string_views(tag_ids@)) && all_uuid_layouts(string_views(attachment_ids@)) ==> r is Ok,
{
    let mut i: usize = 0;
    while i < tag_ids.len()
        invariant
            i <= tag_ids@.len(),
            forall|j: int| 0 <= j < i ==> uuid_text(#[trigger] string_views(tag_ids@)[j]),
        decreases tag_ids@.len() - i,
    {
        if !parses_as_uuid(tag_ids[i].as_str()) {
            proof {
                assert(!uuid_text(string_views(tag_ids@)[i as int]));
            }
            proof {
                assert(!uuid_layout(string_views(tag_ids@)[i as int]));
            }
            return Err(AppError::message("invalid reference id"));
        }
        i = i + 1;
    }
    let mut k: usize = 0;
    while k < attachment_ids.len()
        invariant
            k <= attachment_ids@.len(),
            all_uuids(string_views(tag_ids@)),
            forall|j: int| 0 <= j < k ==> uuid_text(#[trigger] string_views(attachment_ids@)[j]),
        decreases attachment_ids@.len() - k,
    {
        if !parses_as_uuid(attachment_ids[k].as_str()) {
            proof {
                assert(!uuid_text(string_views(attachment_ids@)[k as int]));
            }
            proof {
                assert(!uuid_layout(string_views(attachment_ids@)[k as int]));
            }
            return Err(AppError::message("invalid reference id"));
        }
        k = k + 1;
    }
    Ok(())
}

impl NoteSyncRecord {
    /// Replaces the note's content with what the user wrote at `now_ms`
    /// (tag and attachment ids sorted, each once) and queues it for the
    /// push. Tag and attachment ids must be UUIDs; a note in conflict must be
    /// resolved first. A refused edit leaves the note as it is.
    pub fn upsert_note(&mut self, content: NoteContent, now_ms: i64) -> (r: Result<(), AppError>)
        ensures
            !(all_uuids(content@.tag_ids) && all_uuids(content@.attachment_ids)) ==> (r matches Err(e)
                && e.message@ == "invalid reference id"@) && final(self)@ == old(self)@,
            all_uuids(content@.tag_ids) && all_uuids(content@.attachment_ids) && in_conflict(old(self)@)
                ==> (r matches Err(e) && e.message@ == "resolve the conflict before editing this note"@)
                && final(self)@ == old(self)@,
            all_uuids(content@.tag_ids) && all_uuids(content@.attachment_ids) && !in_conflict(old(self)@)
                ==> (r is Ok) && final(self)@.content.title == content.title@
                && final(self)@.content.markdown == content.markdown@ && normalized_ids(
                final(self)@.content.tag_ids,
                content@.tag_ids,
            ) && normalized_ids(final(self)@.content.attachment_ids, content@.attachment_ids)
                && final(self)@ == (NoteSyncView {
                content: final(self)@.content,
                sync_state: NoteSyncState::Pending,
                updated_at: now_ms,
                ..old(self)@
            }),
    {
        if let Err(e) = validate_reference_ids(&content.tag_ids, &content.attachment_ids) {
            return Err(e);
        }
        if self.sync_state == NoteSyncState::Conflict || self.sync_state == NoteSyncState::ConflictDelete {
            return Err(AppError::message("resolve the conflict before editing this note"));
        }
        let NoteContent { title, markdown, tag_ids, attachment_ids } = content;
        self.content = NoteContent {
            title,
            markdown,
            tag_ids: normalize_id_list(tag_ids),
            attachment_ids: normalize_id_list(attachment_ids),
        };
        self.sync_state = NoteSyncState::Pending;
        self.updated_at = now_ms;
        Ok(())
    }

    /// Deletes the note locally at `now_ms`: a note the cloud never saw
    /// (revision 0) is removed at once; any other is queued for deletion.
    pub fn delete_note_locally(&mut self, now_ms: i64) -> (r: NoteChange)
        ensures
            old(self).revision == 0 ==> r == NoteChange::Removed && final(self)@ == old(self)@,
            old(self).revision != 0 ==> r == NoteChange::Saved && final(self)@ == (NoteSyncView {
                sync_state: NoteSyncState::PendingDelete,
                updated_at: now_ms,
                ..old(self)@
            }),
    {
        if self.revision == 0 {
            return NoteChange::Removed;
        }
        self.sync_state = NoteSyncState::PendingDelete;
        self.updated_at = now_ms;
        NoteChange::Saved
    }

    /// Points the note's references to the tag `from` (current and
    /// ancestor, the first of each) at the tag `to`. Returns whether
    /// anything changed.
    pub fn retarget_tag_references(&mut self, from: &str, to: &str) -> (r: bool)
        ensures
            final(self)@.content.tag_ids == retargeted(old(self)@.content.tag_ids, from@, to@),
            final(self)@.ancestor.tag_ids == retargeted(old(self)@.ancestor.tag_ids, from@, to@),
            final(self)@ == (NoteSyncView {
                content: NoteContentView { tag_ids: final(self)@.content.tag_ids, ..old(self)@.content },
                ancestor: NoteContentView { tag_ids: final(self)@.ancestor.tag_ids, ..old(self)@.ancestor },
                ..old(self)@
            }),
            r == (old(self)@.content.tag_ids.contains(from@) || old(self)@.ancestor.tag_ids.contains(from@)),
    {
        let a = retarget_first(&mut self.content.tag_ids, from, to);
        let b = retarget_first(&mut self.ancestor.tag_ids, from, to);
        a || b
    }

    /// Drops the tag `tag_id` from the note's current and ancestor tags.
    /// Returns whether the current tags held it.
    pub fn remove_tag_references(&mut self, tag_id: &str) -> (r: bool)
        ensures
            final(self)@.content.tag_ids == old(self)@.content.tag_ids.filter(|id: Seq<char>| id != tag_id@),
            final(self)@.ancestor.tag_ids == old(self)@.ancestor.tag_ids.filter(
                |id: Seq<char>| id != tag_id@,
            ),
            final(self)@ == (NoteSyncView {
                content: NoteContentView { tag_ids: final(self)@.content.tag_ids, ..old(self)@.content },
                ancestor: NoteContentView { tag_ids: final(self)@.ancestor.tag_ids, ..old(self)@.ancestor },
                ..old(self)@
            }),
            r == old(self)@.content.tag_ids.contains(tag_id@),
    {
        let r = remove_all(&mut self.content.tag_ids, tag_id);
        remove_all(&mut self.ancestor.tag_ids, tag_id);
        r
    }
}

impl NoteSyncRecord {
    /// Drops the tag `tag_id`, which the cloud deleted, from the note when
    /// the note is synced; notes with local changes keep their references
    /// until they are pushed. Returns whether the current tags changed.
    pub fn remove_tag_if_synced(&mut self, tag_id: &str) -> (r: bool)
        ensures
            old(self).sync_state == NoteSyncState::Synced ==> final(self)@.content.tag_ids == old(
                self,
            )@.content.tag_ids.filter(|id: Seq<char>| id != tag_id@) && final(self)@.ancestor.tag_ids
                == old(self)@.ancestor.tag_ids.filter(|id: Seq<char>| id != tag_id@) && final(self)@
                == (NoteSyncView {
                content: NoteContentView { tag_ids: final(self)@.content.tag_ids, ..old(self)@.content },
                ancestor: NoteContentView { tag_ids: final(self)@.ancestor.tag_ids, ..old(self)@.ancestor },
                ..old(self)@
            }) && r == old(self)@.content.tag_ids.contains(tag_id@),
            old(self).sync_state != NoteSyncState::Synced ==> final(self)@ == old(self)@ && !r,
    {
        if self.sync_state != NoteSyncState::Synced {
            return false;
        }
        self.remove_tag_references(tag_id)
    }
}

impl NoteTagRecord {
    /// Whether the cloud's deletion of this tag removes the local row: only
    /// when nothing about it waits to be pushed but its own deletion.
    pub fn removed_by_cloud_delete(&self) -> (r: bool)
        ensures
            r == (self.sync_state == NoteSyncState::PendingDelete || self.sync_state == NoteSyncState::Synced),
    {
        self.sync_state == NoteSyncState::PendingDelete || self.sync_state == NoteSyncState::Synced
    }

    /// Whether a full snapshot from the cloud that did (`seen`) or did not
    /// list this tag removes it: a live tag the snapshot lacks goes unless
    /// it has changes waiting to be pushed or is in conflict.
    pub fn dropped_by_snapshot(&self, seen: bool) -> (r: bool)
        ensures
            r == (!self.deleted && !seen && self.sync_state != NoteSyncState::Pending && self.sync_state
                != NoteSyncState::PendingDelete && self.sync_state != NoteSyncState::Conflict),
    {
        !self.deleted && !seen && self.sync_state != NoteSyncState::Pending && self.sync_state
            != NoteSyncState::PendingDelete && self.sync_state != NoteSyncState::Conflict
    }
}

/// `ids` with the first `from` replaced by `to`.
pub open spec fn retargeted(ids: Seq<Seq<char>>, from: Seq<char>, to: Seq<char>) -> Seq<Seq<char>> {
    if ids.contains(from) {
        ids.update(ids.index_of_first(from)->0, to)
    } else {
        ids
    }
}

fn retarget_first(ids: &mut Vec<String>, from: &str, to: &str) -> (r: bool)
    ensures
        string_views(final(ids)@) == retargeted(string_views(old(ids)@), from@, to@),
        r == string_views(old(ids)@).contains(from@),
{
    let ghost before = string_views(ids@);
    let mut i: usize = 0;
    while i < ids.len()
        invariant
            ids@ == old(ids)@,
            before == string_views(ids@),
            i <= ids@.len(),
            forall|j: int| 0 <= j < i ==> before[j] != from@,
        decreases ids@.len() - i,
    {
        if str_eq(ids[i].as_str(), from) {
            proof {
                assert(before[i as int] == from@);
                before.index_of_first_ensures(from@);
                assert(before.index_of_first(from@) == Some(i as int)) by {
                    let k = before.index_of_first(from@)->0;
                    assert(before.contains(from@));
                    if k < i {
                        assert(before[k] == from@);
                    } else if k > i {
                        assert(before[i as int] == from@);
                    }
                }
            }
            ids.set(i, to.to_owned());
            proof {
                assert(string_views(ids@) =~= before.update(i as int, to@));
            }
            return true;
        }
        i = i + 1;
    }
    proof {
        assert(!before.contains(from@));
    }
    false
}

fn remove_all(ids: &mut Vec<String>, tag_id: &str) -> (r: bool)
    ensures
        string_views(final(ids)@) == string_views(old(ids)@).filter(|id: Seq<char>| id != tag_id@),
        r == string_views(old(ids)@).contains(tag_id@),
{
    let ghost before = string_views(ids@);
    let ghost keep = |id: Seq<char>| id != tag_id@;
    let mut kept: Vec<String> = Vec::new();
    let mut found = false;
    let mut i: usize = 0;
    while i < ids.len()
        invariant
            ids@ == old(ids)@,
            before == string_views(ids@),
            keep == (|id: Seq<char>| id != tag_id@),
            i <= ids@.len(),
            string_views(kept@) == before.take(i as int).filter(keep),
            found == before.take(i as int).contains(tag_id@),
        decreases ids@.len() - i,
    {
        let id = ids[i].clone();
        let ghost prefix = before.take(i as int);
        let ghost next = before.take(i + 1);
        proof {
            reveal(Seq::filter);
            assert(next.drop_last() =~= prefix);
            assert(next.last() == id@);
        }
        if str_eq(id.as_str(), tag_id) {
            found = true;
            proof {
                assert(next.filter(keep) =~= prefix.filter(keep));
                assert(next[i as int] == tag_id@);
            }
        } else {
            kept.push(id);
            proof {
                assert(string_views(kept@) =~= prefix.filter(keep).push(id@));
                if next.contains(tag_id@) {
                    let j = choose|j: int| 0 <= j < next.len() && #[trigger] next[j] == tag_id@;
                    if j < i {
                        assert(prefix[j] == tag_id@);
                    }
                }
            }
        }
        proof {
            if prefix.contains(tag_id@) {
                let j = choose|j: int| 0 <= j < prefix.len() && #[trigger] prefix[j] == tag_id@;
                assert(next[j] == tag_id@);
            }
        }
        i = i + 1;
    }
    proof {
        assert(before.take(ids@.len() as int) =~= before);
    }
    *ids = kept;
    found
}

impl NoteTagRecord {
    /// A new tag named `name`, queued for the push, at `now_ms`; it gets a
    /// fresh id, the text of a random UUID. Refused when the system's random
    /// source fails.
    pub fn create_tag(name: String, now_ms: i64) -> (r: Result<Self, AppError>)
        ensures
            match r {
                Ok(t) => v4_uuid_text(t.id@) && t@ == (NoteTagView {
                    id: t.id@,
                    name: name@,
                    revision: 0,
                    base_revision: 0,
                    sync_state: NoteSyncState::Pending,
                    deleted: false,
                    created_at: now_ms,
                    updated_at: now_ms,
                }),
                Err(e) => e.message@ == "system random source failed"@,
            },
    {
        let id = new_note_id()?;
        Ok(
            NoteTagRecord {
                id,
                name,
                revision: 0,
                base_revision: 0,
                sync_state: NoteSyncState::Pending,
                deleted: false,
                created_at: now_ms,
                updated_at: now_ms,
            },
        )
    }

    /// Renames the tag to `name` at `now_ms` and queues it for the push.
    pub fn rename_tag(&mut self, name: String, now_ms: i64)
        ensures
            final(self)@ == (NoteTagView {
                name: name@,
                sync_state: NoteSyncState::Pending,
                updated_at: now_ms,
                ..old(self)@
            }),
    {
        self.name = name;
        self.sync_state = NoteSyncState::Pending;
        self.updated_at = now_ms;
    }

    /// Deletes the tag locally at `now_ms`: a tag the cloud never saw
    /// (revision 0) is removed at once, with every reference to it; any
    /// other is queued for deletion.
    pub fn delete_tag_locally(&mut self, now_ms: i64) -> (r: NoteChange)
        ensures
            old(self).revision == 0 ==> r == NoteChange::Removed && final(self)@ == old(self)@,
            old(self).revision != 0 ==> r == NoteChange::Saved && final(self)@ == (NoteTagView {
                sync_state: NoteSyncState::PendingDelete,
                updated_at: now_ms,
                ..old(self)@
            }),
    {
        if self.revision == 0 {
            return NoteChange::Removed;
        }
        self.sync_state = NoteSyncState::PendingDelete;
        self.updated_at = now_ms;
        NoteChange::Saved
    }
}

/// A tag name as the user typed it, trimmed; refused when nothing is left.
pub fn checked_tag_name(name: &str) -> (r: Result<String, AppError>)
    ensures
        trim(name@).len() == 0 ==> (r matches Err(e) && e.message@ == "tag name must not be empty"@),
        trim(name@).len() != 0 ==> (r matches Ok(t) && t@ == trim(name@)),
{
    let chars = chars_of(name);
    let trimmed = trim_chars(chars.as_slice());
    if trimmed.len() == 0 {
        return Err(AppError::message("tag name must not be empty"));
    }
    Ok(string_of(trimmed.as_slice()))
}

// ---------------------------------------------------------------------------
// Laws
// ---------------------------------------------------------------------------

/// A resolved conflict is settled: a resolution that keeps the note leaves
/// it out of conflict with no trace of the cloud side, so resolving it again
/// is refused; one that drops or replaces the note leaves it as it was.
pub proof fn lemma_resolution_settles(
    v: NoteSyncView,
    resolution: ConflictResolution,
    payload: ConflictResolutionPayload,
    now: i64,
)
    requires
        in_conflict(v),
    ensures
        ({
            let (n, o) = resolved(v, resolution, payload, now);
            &&& o is Saved ==> !in_conflict(n) && n == conflict_cleared(n)
            &&& !(o is Saved) ==> n == v
        }),
{
}

/// Taking the cloud side of a conflict, whether by choosing it or by
/// dropping a local deletion, leaves the note agreed with the cloud: synced,
/// on the cloud's revision, its ancestor its content.
pub proof fn lemma_cloud_side_agrees(
    v: NoteSyncView,
    resolution: ConflictResolution,
    payload: ConflictResolutionPayload,
    now: i64,
)
    requires
        in_conflict(v),
        resolution == ConflictResolution::CancelDelete || (resolution == ConflictResolution::Cloud
            && !cloud_deleted(v)),
    ensures
        ({
            let (n, o) = resolved(v, resolution, payload, now);
            &&& o is Saved
            &&& n.sync_state == NoteSyncState::Synced
            &&& n.revision == or_else(v.conflict_revision, v.revision)
            &&& n.base_revision == n.revision && n.ancestor_revision == n.revision
            &&& n.ancestor == n.content
        }),
{
}

/// Pulling is settled by what it takes: once a note took a cloud revision
/// as it is, or merged its local edits with it, the same revision pulled
/// again leaves it unchanged.
pub proof fn lemma_pulled_revision_settles(
    v: NoteSyncView,
    n: NoteSyncView,
    dto: NoteDto,
    created: i64,
    now: i64,
)
    requires
        taken_from_cloud(n, dto, created, now) || (merged_with(n, v, dto, now) && v.sync_state
            != NoteSyncState::PendingDelete && v.sync_state != NoteSyncState::Synced),
    ensures
        pull_leaves_unchanged(n, dto),
{
}

/// A tag the cloud sent is settled by what it did: the tag it saved, sent
/// again, is left as it is, unless the save put a rename in conflict.
pub proof fn lemma_upserted_tag_settles(local: Option<NoteTagView>, cloud: TagDto, now: i64)
    requires
        upserted_tag(local, cloud, now) matches Some(t) && t.sync_state != NoteSyncState::Conflict,
    ensures
        upserted_tag(upserted_tag(local, cloud, now), cloud, now) is None,
{
}

// ---------------------------------------------------------------------------
// Attachment references
// ---------------------------------------------------------------------------

/// The markdown link target of the attachment `id`.
pub open spec fn attachment_link(id: Seq<char>) -> Seq<char> {
    "colink-attachment://"@ + id
}

/// `ids` with every `from` replaced by `to`.
pub open spec fn replaced_ids(ids: Seq<Seq<char>>, from: Seq<char>, to: Seq<char>) -> Seq<Seq<char>> {
    ids.map_values(|id: Seq<char>| if id == from { to } else { id })
}

fn attachment_link_of(id: &str) -> (r: Vec<char>)
    ensures
        r@ == attachment_link(id@),
        r@.len() > 0,
{
    let mut link = "colink-attachment://".to_owned();
    link.append(id);
    proof {
        reveal_strlit("colink-attachment://");
    }
    chars_of(link.as_str())
}

fn replace_every(ids: &mut Vec<String>, from: &str, to: &str)
    ensures
        string_views(final(ids)@) == replaced_ids(string_views(old(ids)@), from@, to@),
{
    let ghost before = string_views(ids@);
    let mut i: usize = 0;
    while i < ids.len()
        invariant
            before == string_views(old(ids)@),
            ids@.len() == before.len(),
            i <= ids@.len(),
            forall|j: int| 0 <= j < i ==> #[trigger] string_views(ids@)[j] == replaced_ids(before, from@, to@)[j],
            forall|j: int| i <= j < ids@.len() ==> #[trigger] string_views(ids@)[j] == before[j],
        decreases ids@.len() - i,
    {
        let ghost cur = string_views(ids@);
        assert(replaced_ids(before, from@, to@)[i as int] == (if before[i as int] == from@ {
            to@
        } else {
            before[i as int]
        }));
        assert(cur[i as int] == before[i as int]);
        if str_eq(ids[i].as_str(), from) {
            ids.set(i, to.to_owned());
            proof {
                assert(string_views(ids@) =~= cur.update(i as int, to@));
            }
        } else {
            assert(cur[i as int] == ids@[i as int]@);
        }
        assert(string_views(ids@)[i as int] == replaced_ids(before, from@, to@)[i as int]);
        i = i + 1;
    }
    proof {
        assert(string_views(ids@) =~= replaced_ids(before, from@, to@));
    }
}

impl NoteSyncRecord {
    /// Points the note's references to the attachment `from` at `to`: its
    /// attachment list and the links in its markdown. It applies when the
    /// note lists `from` or its markdown links to it; the note then becomes
    /// pending if it was synced and is stamped with `now`. Returns whether it
    /// applied; otherwise the note is unchanged.
    pub fn replace_attachment_references(&mut self, from: &str, to: &str, now: i64) -> (r: bool)
        ensures
            r == (old(self)@.content.attachment_ids.contains(from@) || occurs_in(
                old(self)@.content.markdown,
                attachment_link(from@),
            )),
            r ==> final(self)@.content.markdown == replace_all(
                old(self)@.content.markdown,
                attachment_link(from@),
                attachment_link(to@),
            ),
            r ==> normalized_ids(
                final(self)@.content.attachment_ids,
                replaced_ids(old(self)@.content.attachment_ids, from@, to@),
            ),
            r ==> final(self)@ == (NoteSyncView {
                content: NoteContentView {
                    markdown: final(self)@.content.markdown,
                    attachment_ids: final(self)@.content.attachment_ids,
                    ..old(self)@.content
                },
                sync_state: if old(self)@.sync_state == NoteSyncState::Synced {
                    NoteSyncState::Pending
                } else {
                    old(self)@.sync_state
                },
                updated_at: now,
                ..old(self)@
            }),
            !r ==> final(self)@ == old(self)@,
    {
        let from_link = attachment_link_of(from);
        let to_link = attachment_link_of(to);
        let markdown = chars_of(self.content.markdown.as_str());
        let mut listed = false;
        let mut i: usize = 0;
        while i < self.content.attachment_ids.len()
            invariant
                i <= self.content.attachment_ids@.len(),
                listed == exists|j: int| 0 <= j < i && #[trigger] string_views(self.content.attachment_ids@)[j] == from@,
            decreases self.content.attachment_ids@.len() - i,
        {
            let ghost ids = string_views(self.content.attachment_ids@);
            if str_eq(self.content.attachment_ids[i].as_str(), from) {
                listed = true;
                assert(ids[i as int] == from@);
            } else {
                assert(ids[i as int] != from@);
            }
            i = i + 1;
            assert(listed == exists|j: int| 0 <= j < i && #[trigger] ids[j] == from@) by {
                if listed {
                    if ids[i - 1] != from@ {
                        let k = choose|k: int| 0 <= k < i - 1 && #[trigger] ids[k] == from@;
                        assert(ids[k] == from@);
                    }
                }
            }
        }
        proof {
            let ids = string_views(self.content.attachment_ids@);
            if listed {
                let j = choose|j: int| 0 <= j < i && #[trigger] ids[j] == from@;
                assert(ids.contains(from@));
            }
            if ids.contains(from@) {
                let j = choose|j: int| 0 <= j < ids.len() && ids[j] == from@;
                assert(ids[j] == from@);
            }
        }
        if !listed && !contains_chars(markdown.as_slice(), from_link.as_slice()) {
            return false;
        }
        let replaced = replace_chars(markdown.as_slice(), from_link.as_slice(), to_link.as_slice());
        self.content.markdown = string_of(replaced.as_slice());
        let mut ids = Vec::new();
        std::mem::swap(&mut ids, &mut self.content.attachment_ids);
        replace_every(&mut ids, from, to);
        self.content.attachment_ids = normalize_id_list(ids);
        if self.sync_state == NoteSyncState::Synced {
            self.sync_state = NoteSyncState::Pending;
        }
        self.updated_at = now;
        true
    }
}


/// The end of a markdown link to the attachment `id`: `](` and its link,
/// then `)`.
pub open spec fn attachment_link_tail(id: Seq<char>) -> Seq<char> {
    "]("@ + attachment_link(id) + ")"@
}

fn attachment_link_tail_of(id: &str) -> (r: Vec<char>)
    ensures
        r@ == attachment_link_tail(id@),
{
    let mut tail = "](colink-attachment://".to_owned();
    tail.append(id);
    tail.append(")");
    proof {
        reveal_strlit("](colink-attachment://");
        reveal_strlit("colink-attachment://");
        reveal_strlit("](");
        reveal_strlit(")");
        assert(tail@ =~= attachment_link_tail(id@));
    }
    chars_of(tail.as_str())
}

impl NoteSyncRecord {
    /// Takes the attachment `attachment_id` out of the note: out of its
    /// attachment list, and every markdown link or image that points at it
    /// out of its markdown, cutting the blank lines left behind to one. It
    /// applies when the note lists the attachment or links to it; the note
    /// then becomes pending if it was synced and is stamped with `now`.
    /// Returns whether it applied; otherwise the note is unchanged.
    pub fn remove_attachment_references(&mut self, attachment_id: &str, now: i64) -> (r: bool)
        ensures
            r == (old(self)@.content.attachment_ids.contains(attachment_id@) || has_link(
                old(self)@.content.markdown,
                attachment_link_tail(attachment_id@),
            )),
            r ==> final(self)@ == (NoteSyncView {
                content: NoteContentView {
                    markdown: squeeze_blank_lines(
                        strip_links(old(self)@.content.markdown, attachment_link_tail(attachment_id@)),
                    ),
                    attachment_ids: old(self)@.content.attachment_ids.filter(
                        |id: Seq<char>| id != attachment_id@,
                    ),
                    ..old(self)@.content
                },
                sync_state: if old(self)@.sync_state == NoteSyncState::Synced {
                    NoteSyncState::Pending
                } else {
                    old(self)@.sync_state
                },
                updated_at: now,
                ..old(self)@
            }),
            !r ==> final(self)@ == old(self)@,
    {
        let tail = attachment_link_tail_of(attachment_id);
        let markdown = chars_of(self.content.markdown.as_str());
        let (stripped, linked) = strip_links_chars(markdown.as_slice(), tail.as_slice());
        let mut ids = copy_ids(&self.content.attachment_ids);
        let listed = remove_all(&mut ids, attachment_id);
        if !listed && !linked {
            return false;
        }
        self.content.attachment_ids = ids;
        let squeezed = squeeze_blank_lines_chars(stripped.as_slice());
        self.content.markdown = string_of(squeezed.as_slice());
        if self.sync_state == NoteSyncState::Synced {
            self.sync_state = NoteSyncState::Pending;
        }
        self.updated_at = now;
        true
    }
}

// ---------------------------------------------------------------------------
// Push responses
// ---------------------------------------------------------------------------

/// The code with which the cloud reports a conflicting write whose outcome
/// is uncertain: a create it may or may not have taken.
pub const CODE_UNCERTAIN_WRITE: i32 = 4002;

/// What a push does after the cloud refused it.
#[derive(Clone, Copy, Debug, PartialEq, Eq, Structural)]
pub enum PushFailureStep {
    /// Fetch the cloud's copy and decide on it.
    FetchCloud,
    /// The item is gone in the cloud: forget the local copy.
    Forget,
    /// The cloud deleted the note under local edits: put it in conflict.
    CloudDeletedConflict,
    /// The note refers to tags or attachments the cloud does not know:
    /// repair the references.
    RecoverReferences,
    /// Another tag has the name: settle the clash.
    ResolveNameClash,
    /// Give up with the error.
    Fail,
}

/// What a note push that did `action` does when the cloud refused it with
/// protocol code `code` (`None` for any other failure); references are
/// repaired only when `allow_reference_recovery` holds.
pub fn note_push_failure(action: PushAction, code: Option<i32>, allow_reference_recovery: bool) -> (r:
    PushFailureStep)
    requires
        action != PushAction::Skip,
    ensures
        r == (match code {
            None => PushFailureStep::Fail,
            Some(c) => if action == PushAction::Create && c == CODE_UNCERTAIN_WRITE {
                PushFailureStep::FetchCloud
            } else if action != PushAction::Create && c == CODE_REVISION_CONFLICT {
                PushFailureStep::FetchCloud
            } else if action == PushAction::Update && c == CODE_NOTE_NOT_FOUND {
                PushFailureStep::CloudDeletedConflict
            } else if action == PushAction::Delete && c == CODE_NOTE_NOT_FOUND {
                PushFailureStep::Forget
            } else if action != PushAction::Delete && c == CODE_INVALID_NOTE_REFERENCE
                && allow_reference_recovery {
                PushFailureStep::RecoverReferences
            } else {
                PushFailureStep::Fail
            },
        }),
{
    let c = match code {
        None => return PushFailureStep::Fail,
        Some(c) => c,
    };
    match action {
        PushAction::Create => if c == CODE_UNCERTAIN_WRITE {
            PushFailureStep::FetchCloud
        } else if c == CODE_INVALID_NOTE_REFERENCE && allow_reference_recovery {
            PushFailureStep::RecoverReferences
        } else {
            PushFailureStep::Fail
        },
        PushAction::Update => if c == CODE_REVISION_CONFLICT {
            PushFailureStep::FetchCloud
        } else if c == CODE_NOTE_NOT_FOUND {
            PushFailureStep::CloudDeletedConflict
        } else if c == CODE_INVALID_NOTE_REFERENCE && allow_reference_recovery {
            PushFailureStep::RecoverReferences
        } else {
            PushFailureStep::Fail
        },
        _ => if c == CODE_REVISION_CONFLICT {
            PushFailureStep::FetchCloud
        } else if c == CODE_NOTE_NOT_FOUND {
            PushFailureStep::Forget
        } else {
            PushFailureStep::Fail
        },
    }
}

/// What a tag push that did `action` does when the cloud refused it with
/// protocol code `code` (`None` for any other failure).
pub fn tag_push_failure(action: PushAction, code: Option<i32>) -> (r: PushFailureStep)
    requires
        action != PushAction::Skip,
    ensures
        r == (match code {
            None => PushFailureStep::Fail,
            Some(c) => if action == PushAction::Create {
                if c == CODE_TAG_NAME_CONFLICT || c == CODE_UNCERTAIN_WRITE {
                    PushFailureStep::ResolveNameClash
                } else {
                    PushFailureStep::Fail
                }
            } else if c == CODE_REVISION_CONFLICT {
                PushFailureStep::FetchCloud
            } else if c == CODE_TAG_NOT_FOUND {
                PushFailureStep::Forget
            } else {
                PushFailureStep::Fail
            },
        }),
{
    let c = match code {
        None => return PushFailureStep::Fail,
        Some(c) => c,
    };
    if action == PushAction::Create {
        if c == CODE_TAG_NAME_CONFLICT || c == CODE_UNCERTAIN_WRITE {
            PushFailureStep::ResolveNameClash
        } else {
            PushFailureStep::Fail
        }
    } else if c == CODE_REVISION_CONFLICT {
        PushFailureStep::FetchCloud
    } else if c == CODE_TAG_NOT_FOUND {
        PushFailureStep::Forget
    } else {
        PushFailureStep::Fail
    }
}

/// How fetching the cloud's copy after a refused push went.
#[derive(Clone, Copy, Debug, PartialEq, Eq, Structural)]
pub enum CloudFetch {
    /// The cloud has the item.
    Found,
    /// The cloud answered that it does not have the item.
    NotFound,
    /// The fetch failed otherwise.
    Failed,
}

/// What a push does once it fetched the cloud's copy.
#[derive(Clone, Copy, Debug, PartialEq, Eq, Structural)]
pub enum RefetchStep {
    /// The cloud has this content already: the note is synced to it.
    MarkSynced,
    /// The cloud has other content: the note goes into an edit conflict.
    EditConflict,
    /// Merge with the cloud's content and push again.
    MergedPush,
    /// The id is free: send the create once more.
    RetryCreate,
    /// The cloud changed the item that was to be deleted: it goes into a
    /// delete conflict.
    DeleteConflict,
    /// Two renames raced: settle on the cloud's tag.
    SettleRename,
    /// The item is gone in the cloud: forget the local copy.
    Forget,
    /// Give up with the error.
    Fail,
}

/// What a note push that did `action` does once it fetched the cloud's
/// copy: `fetch` is `Found` when the cloud returned it, `NotFound` when the
/// cloud answered that it has no such note, `Failed` otherwise; `matches`
/// tells whether the cloud's content is the note's own.
pub fn note_refetch_step(action: PushAction, fetch: CloudFetch, matches: bool) -> (r: RefetchStep)
    requires
        action != PushAction::Skip,
    ensures
        r == (match fetch {
            CloudFetch::Found => if action == PushAction::Delete {
                RefetchStep::DeleteConflict
            } else if matches {
                RefetchStep::MarkSynced
            } else if action == PushAction::Create {
                RefetchStep::EditConflict
            } else {
                RefetchStep::MergedPush
            },
            CloudFetch::NotFound => if action == PushAction::Create {
                RefetchStep::RetryCreate
            } else if action == PushAction::Delete {
                RefetchStep::Forget
            } else {
                RefetchStep::Fail
            },
            CloudFetch::Failed => RefetchStep::Fail,
        }),
{
    match fetch {
        CloudFetch::Found => match action {
            PushAction::Delete => RefetchStep::DeleteConflict,
            PushAction::Create => if matches {
                RefetchStep::MarkSynced
            } else {
                RefetchStep::EditConflict
            },
            _ => if matches {
                RefetchStep::MarkSynced
            } else {
                RefetchStep::MergedPush
            },
        },
        CloudFetch::NotFound => match action {
            PushAction::Create => RefetchStep::RetryCreate,
            PushAction::Delete => RefetchStep::Forget,
            _ => RefetchStep::Fail,
        },
        CloudFetch::Failed => RefetchStep::Fail,
    }
}

/// What a tag push that did `action` (a delete or a rename) does once it
/// fetched the cloud's tags: `fetch` is `Found` when the list holds the tag,
/// `NotFound` when it does not, and `Failed` when the request failed, with
/// protocol code `failure_code` (`None` for any other failure). A tag the
/// cloud still has goes into conflict (delete) or settles the race
/// (rename); a missing one is forgotten, as is the tag of a rename when the
/// cloud answers that it does not know it.
pub fn tag_refetch_step(action: PushAction, fetch: CloudFetch, failure_code: Option<i32>) -> (r: RefetchStep)
    requires
        action == PushAction::Delete || action == PushAction::Update,
    ensures
        r == (match fetch {
            CloudFetch::Found => if action == PushAction::Delete {
                RefetchStep::DeleteConflict
            } else {
                RefetchStep::SettleRename
            },
            CloudFetch::NotFound => RefetchStep::Forget,
            CloudFetch::Failed => if action == PushAction::Update && failure_code == Some(CODE_TAG_NOT_FOUND) {
                RefetchStep::Forget
            } else {
                RefetchStep::Fail
            },
        }),
{
    match fetch {
        CloudFetch::Found => if action == PushAction::Delete {
            RefetchStep::DeleteConflict
        } else {
            RefetchStep::SettleRename
        },
        CloudFetch::NotFound => RefetchStep::Forget,
        CloudFetch::Failed => {
            let not_found = match failure_code {
                Some(c) => c == CODE_TAG_NOT_FOUND,
                None => false,
            };
            if action == PushAction::Update && not_found {
                RefetchStep::Forget
            } else {
                RefetchStep::Fail
            }
        },
    }
}

impl NoteSyncRecord {
    /// Whether the note's content is the content of the cloud note `dto`.
    pub fn matches_cloud(&self, dto: &NoteDto) -> (r: bool)
        ensures
            r == cloud_content(self@.content, *dto),
    {
        let cloud = content_from_cloud(dto);
        let r = str_eq(self.content.title.as_str(), cloud.title.as_str()) && str_eq(
            self.content.markdown.as_str(),
            cloud.markdown.as_str(),
        ) && strings_eq(&self.content.tag_ids, &cloud.tag_ids) && strings_eq(
            &self.content.attachment_ids,
            &cloud.attachment_ids,
        );
        proof {
            if cloud_content(self@.content, *dto) {
                lemma_strictly_sorted_unique(self@.content.tag_ids, cloud@.tag_ids);
                lemma_sorted_texts_unique(self@.content.attachment_ids, cloud@.attachment_ids);
            }
        }
        r
    }

    /// Puts the note, which has local edits, into conflict because the
    /// cloud deleted it, at `now_ms`.
    pub fn enter_cloud_deleted_conflict(&mut self, now_ms: i64)
        ensures
            final(self)@ == (NoteSyncView {
                sync_state: NoteSyncState::Conflict,
                conflict_kind: Some(ConflictKind::CloudDeleted),
                updated_at: now_ms,
                ..old(self)@
            }),
    {
        self.sync_state = NoteSyncState::Conflict;
        self.conflict_kind = Some(ConflictKind::CloudDeleted);
        self.updated_at = now_ms;
    }
}

impl NoteTagRecord {
    /// Records that the cloud accepted the tag's create (`action` is
    /// `Create`) or rename (`Update`) as `dto`, at `now_ms`: the tag takes
    /// the cloud's revision and timestamps, and after a rename the cloud's
    /// name, and is synced. It counts as pushed.
    pub fn mark_tag_pushed(&mut self, dto: &TagDto, action: PushAction, now_ms: i64, counters: &mut SyncCounters)
        requires
            action == PushAction::Create || action == PushAction::Update,
            old(counters).pushed_tags < u32::MAX,
        ensures
            final(self)@ == (NoteTagView {
                name: if action == PushAction::Update {
                    dto.name@
                } else {
                    old(self)@.name
                },
                revision: dto.revision,
                base_revision: dto.revision,
                sync_state: NoteSyncState::Synced,
                created_at: cloud_time(dto.created_at@, old(self).created_at),
                updated_at: cloud_time(dto.updated_at@, now_ms),
                ..old(self)@
            }),
            *final(counters) == (SyncCounters {
                pushed_tags: (old(counters).pushed_tags + 1) as u32,
                ..*old(counters)
            }),
    {
        if action == PushAction::Update {
            self.name = dto.name.clone();
        }
        self.revision = dto.revision;
        self.base_revision = dto.revision;
        self.sync_state = NoteSyncState::Synced;
        self.created_at = parse_timestamp_millis(dto.created_at.as_str(), self.created_at);
        self.updated_at = parse_timestamp_millis(dto.updated_at.as_str(), now_ms);
        counters.pushed_tags = counters.pushed_tags + 1;
    }

    /// Puts the tag, whose deletion the cloud refused because the tag moved
    /// on there, into conflict with the cloud's tag `cloud` at `now_ms`. It
    /// counts as a conflict.
    pub fn enter_delete_conflict(&mut self, cloud: &TagDto, now_ms: i64, counters: &mut SyncCounters)
        requires
            old(counters).conflicts < u32::MAX,
        ensures
            final(self)@ == (NoteTagView {
                name: cloud.name@,
                revision: cloud.revision,
                base_revision: cloud.revision,
                sync_state: NoteSyncState::Conflict,
                created_at: cloud_time(cloud.created_at@, old(self).created_at),
                updated_at: cloud_time(cloud.updated_at@, now_ms),
                ..old(self)@
            }),
            *final(counters) == (SyncCounters { conflicts: (old(counters).conflicts + 1) as u32, ..*old(counters) }),
    {
        self.name = cloud.name.clone();
        self.revision = cloud.revision;
        self.base_revision = cloud.revision;
        self.sync_state = NoteSyncState::Conflict;
        self.created_at = parse_timestamp_millis(cloud.created_at.as_str(), self.created_at);
        self.updated_at = parse_timestamp_millis(cloud.updated_at.as_str(), now_ms);
        counters.count_conflict();
    }
}

impl NoteTagRecord {
    /// The tag under a fresh id, the text of a random UUID, queued to be
    /// created anew at `now_ms`: used when the cloud keeps its id for another
    /// tag. Name and creation time stay. Refused when the system's random
    /// source fails.
    pub fn reissued(&self, now_ms: i64) -> (r: Result<Self, AppError>)
        ensures
            match r {
                Ok(t) => v4_uuid_text(t.id@) && t@ == (NoteTagView {
                    id: t.id@,
                    revision: 0,
                    base_revision: 0,
                    sync_state: NoteSyncState::Pending,
                    updated_at: now_ms,
                    ..self@
                }),
                Err(e) => e.message@ == "system random source failed"@,
            },
    {
        let id = new_note_id()?;
        Ok(
            NoteTagRecord {
                id,
                name: self.name.clone(),
                revision: 0,
                base_revision: 0,
                sync_state: NoteSyncState::Pending,
                deleted: self.deleted,
                created_at: self.created_at,
                updated_at: now_ms,
            },
        )
    }
}

/// Whether `tags` holds a live tag with id `id`: not deleted and not
/// waiting to be deleted.
pub open spec fn is_live_tag(tags: Seq<NoteTagRecord>, id: Seq<char>) -> bool {
    exists|k: int|
        0 <= k < tags.len() && (#[trigger] tags[k]).id@ == id && !tags[k].deleted && tags[k].sync_state
            != NoteSyncState::PendingDelete
}

fn live_tag_in(tags: &[NoteTagRecord], id: &str) -> (r: bool)
    ensures
        r == is_live_tag(tags@, id@),
{
    let mut k: usize = 0;
    while k < tags.len()
        invariant
            k <= tags@.len(),
            forall|j: int|
                0 <= j < k ==> !((#[trigger] tags@[j]).id@ == id@ && !tags@[j].deleted && tags@[j].sync_state
                    != NoteSyncState::PendingDelete),
        decreases tags@.len() - k,
    {
        let tag = &tags[k];
        if !tag.deleted && tag.sync_state != NoteSyncState::PendingDelete && str_eq(tag.id.as_str(), id) {
            return true;
        }
        k = k + 1;
    }
    false
}

impl NoteSyncRecord {
    /// Keeps only the note's tags that are live among `tags`, before the
    /// note is pushed again after the cloud refused its references.
    pub fn keep_live_tags(&mut self, tags: &[NoteTagRecord])
        ensures
            final(self)@ == (NoteSyncView {
                content: NoteContentView {
                    tag_ids: old(self)@.content.tag_ids.filter(|id: Seq<char>| is_live_tag(tags@, id)),
                    ..old(self)@.content
                },
                ..old(self)@
            }),
    {
        let ghost before = string_views(self.content.tag_ids@);
        let ghost keep = |id: Seq<char>| is_live_tag(tags@, id);
        let mut kept: Vec<String> = Vec::new();
        let n = self.content.tag_ids.len();
        let mut i: usize = 0;
        while i < n
            invariant
                n == self.content.tag_ids@.len(),
                before == string_views(self.content.tag_ids@),
                self@ == old(self)@,
                keep == (|id: Seq<char>| is_live_tag(tags@, id)),
                i <= n,
                string_views(kept@) == before.take(i as int).filter(keep),
            decreases n - i,
        {
            let id = self.content.tag_ids[i].clone();
            let ghost prefix = before.take(i as int);
            let ghost next = before.take(i + 1);
            proof {
                reveal(Seq::filter);
                assert(next.drop_last() =~= prefix);
                assert(next.last() == id@);
            }
            if live_tag_in(tags, id.as_str()) {
                kept.push(id);
                proof {
                    assert(string_views(kept@) =~= prefix.filter(keep).push(id@));
                }
            } else {
                proof {
                    assert(next.filter(keep) =~= prefix.filter(keep));
                }
            }
            i = i + 1;
        }
        proof {
            assert(before.take(n as int) =~= before);
        }
        self.content.tag_ids = kept;
    }
}

/// What the push of a note whose references the cloud refused does once the
/// references are repaired.
#[derive(Clone, Copy, Debug, PartialEq, Eq, Structural)]
pub enum RecoveryStep {
    /// Send the create again.
    CreateAgain,
    /// Send the update again, on the base revision the note has.
    UpdateAgain,
    /// The cloud moved on: merge with its note (`merge_for_push`, stamped
    /// with the note's own time) and, when that merges, send the update.
    MergeThenUpdate,
    /// The cloud deleted the note: put it in conflict.
    CloudDeletedConflict,
    /// Give up with the error.
    Fail,
}

/// What the push of a note on cloud revision `base_revision` does after its
/// references were repaired: a note the cloud never saw is created again;
/// any other is checked against the cloud's note, fetched as `fetch` (at
/// `cloud_revision` when found). The push that follows is sent without
/// another repair, so a note is resubmitted once (`note_push_failure` with
/// `allow_reference_recovery` false).
pub fn recovery_step(base_revision: i64, fetch: CloudFetch, cloud_revision: i64) -> (r: RecoveryStep)
    ensures
        r == (if base_revision == 0 {
            RecoveryStep::CreateAgain
        } else {
            match fetch {
                CloudFetch::Found => if cloud_revision == base_revision {
                    RecoveryStep::UpdateAgain
                } else {
                    RecoveryStep::MergeThenUpdate
                },
                CloudFetch::NotFound => RecoveryStep::CloudDeletedConflict,
                CloudFetch::Failed => RecoveryStep::Fail,
            }
        }),
{
    if base_revision == 0 {
        return RecoveryStep::CreateAgain;
    }
    match fetch {
        CloudFetch::Found => if cloud_revision == base_revision {
            RecoveryStep::UpdateAgain
        } else {
            RecoveryStep::MergeThenUpdate
        },
        CloudFetch::NotFound => RecoveryStep::CloudDeletedConflict,
        CloudFetch::Failed => RecoveryStep::Fail,
    }
}

// ---------------------------------------------------------------------------
// Attachments
// ---------------------------------------------------------------------------

/// Checks the kind of an attachment being added: `image` or `file`;
/// refused otherwise.
pub fn checked_attachment_kind(kind: &str) -> (r: Result<(), AppError>)
    ensures
        r is Ok <==> (kind@ == "image"@ || kind@ == "file"@),
        r matches Err(e) ==> e.message@ == "invalid attachment kind"@,
{
    if str_eq(kind, "image") || str_eq(kind, "file") {
        Ok(())
    } else {
        Err(AppError::message("invalid attachment kind"))
    }
}

/// Whether removing an attachment in `state` deletes it in the cloud as
/// well: when it was uploaded (it is not waiting for its upload) and the
/// user is signed in.
pub fn attachment_removal_reaches_cloud(state: NoteSyncState, signed_in: bool) -> (r: bool)
    ensures
        r == (state != NoteSyncState::Pending && signed_in),
{
    state != NoteSyncState::Pending && signed_in
}

/// The error a refused cloud deletion of an attachment is reported with,
/// given its protocol code (`None` for any other failure): an attachment a
/// note still uses gets its own message; `None` means the failure is
/// reported as it came.
pub fn attachment_delete_refusal(code: Option<i32>) -> (r: Option<AppError>)
    ensures
        code == Some(CODE_ATTACHMENT_IN_USE) ==> (r matches Some(e) && e.message@
            == "attachment is still referenced by a note"@),
        code != Some(CODE_ATTACHMENT_IN_USE) ==> r is None,
{
    match code {
        Some(c) => if c == CODE_ATTACHMENT_IN_USE {
            Some(AppError::message("attachment is still referenced by a note"))
        } else {
            None
        },
        None => None,
    }
}

} // verus!
