//! Notes synchronisation: outcomes, payloads, and the checks and
//! normalisations applied to what the cloud sends back.
use vstd::prelude::*;

use crate::error::AppError;
use crate::notes::api::{AttachmentDto, NoteDto};
use crate::notes::merge::{
    chars_lt, contains_string, insert_sorted, lemma_chars_lt_irreflexive, lemma_chars_lt_total,
    lemma_chars_lt_transitive, strictly_sorted, string_lt, string_views,
};
use crate::text::str_eq;
use vstd::string::StringExecFns;
use rand::RngCore;

verus! {

/// Event that tells the interface the notes changed.
pub const NOTES_UPDATED_EVENT: &'static str = "notes-updated";

/// Entries fetched per page while pulling.
pub const SYNC_PAGE_LIMIT: u32 = 200;

/// Attempts to upload an attachment under a fresh id when its id is taken.
pub const MAX_ATTACHMENT_REKEY_ATTEMPTS: usize = 3;

/// The cloud refused a tag name that another tag has.
pub const CODE_TAG_NAME_CONFLICT: i32 = 6004;

/// The cloud refused to delete an attachment a note still uses.
pub const CODE_ATTACHMENT_IN_USE: i32 = 6006;

/// What one synchronisation did.
#[derive(Debug, Clone)]
pub struct NotesSyncOutcome {
    pub status: String,
    pub message: Option<String>,
    pub pushed_notes: u32,
    pub pushed_tags: u32,
    pub pushed_attachments: u32,
    pub pulled_notes: u32,
    pub pulled_tags: u32,
    pub conflicts: u32,
    pub repaired_references: u32,
}

/// The counts a synchronisation keeps as it runs.
#[derive(Debug, Clone, Copy)]
pub struct SyncCounters {
    pub pushed_notes: u32,
    pub pushed_tags: u32,
    pub pushed_attachments: u32,
    pub pulled_notes: u32,
    pub pulled_tags: u32,
    pub conflicts: u32,
    pub repaired_references: u32,
}

impl NotesSyncOutcome {
    /// An outcome with `status` in which nothing happened.
    pub fn empty(status: &str) -> (r: Self)
        ensures
            r.status@ == status@,
            r.message is None,
            r.pushed_notes == 0 && r.pushed_tags == 0 && r.pushed_attachments == 0,
            r.pulled_notes == 0 && r.pulled_tags == 0,
            r.conflicts == 0 && r.repaired_references == 0,
    {
        NotesSyncOutcome {
            status: status.to_owned(),
            message: None,
            pushed_notes: 0,
            pushed_tags: 0,
            pushed_attachments: 0,
            pulled_notes: 0,
            pulled_tags: 0,
            conflicts: 0,
            repaired_references: 0,
        }
    }

    /// The outcome when there is no cloud session.
    pub fn offline() -> (r: Self)
        ensures
            r.status@ == "offline"@,
            r.message is None,
            r.pushed_notes == 0 && r.pushed_tags == 0 && r.pushed_attachments == 0,
            r.pulled_notes == 0 && r.pulled_tags == 0,
            r.conflicts == 0 && r.repaired_references == 0,
    {
        Self::empty("offline")
    }
}

impl SyncCounters {
    /// Nothing counted yet.
    pub fn new() -> (r: Self)
        ensures
            r.pushed_notes == 0 && r.pushed_tags == 0 && r.pushed_attachments == 0,
            r.pulled_notes == 0 && r.pulled_tags == 0,
            r.conflicts == 0 && r.repaired_references == 0,
    {
        SyncCounters {
            pushed_notes: 0,
            pushed_tags: 0,
            pushed_attachments: 0,
            pulled_notes: 0,
            pulled_tags: 0,
            conflicts: 0,
            repaired_references: 0,
        }
    }

    /// Counts one more conflict.
    pub fn count_conflict(&mut self)
        requires
            old(self).conflicts < u32::MAX,
        ensures
            *final(self) == (SyncCounters { conflicts: (old(self).conflicts + 1) as u32, ..*old(self) }),
    {
        self.conflicts = self.conflicts + 1;
    }
}

/// The outcome of a successful synchronisation with `counters`.
pub fn outcome_from(counters: &SyncCounters) -> (r: NotesSyncOutcome)
    ensures
        r.status@ == "ok"@,
        r.message is None,
        r.pushed_notes == counters.pushed_notes,
        r.pushed_tags == counters.pushed_tags,
        r.pushed_attachments == counters.pushed_attachments,
        r.pulled_notes == counters.pulled_notes,
        r.pulled_tags == counters.pulled_tags,
        r.conflicts == counters.conflicts,
        r.repaired_references == counters.repaired_references,
{
    NotesSyncOutcome {
        status: "ok".to_owned(),
        message: None,
        pushed_notes: counters.pushed_notes,
        pushed_tags: counters.pushed_tags,
        pushed_attachments: counters.pushed_attachments,
        pulled_notes: counters.pulled_notes,
        pulled_tags: counters.pulled_tags,
        conflicts: counters.conflicts,
        repaired_references: counters.repaired_references,
    }
}

/// A note as the editor saves it.
#[derive(Debug, Clone)]
pub struct NoteUpsertPayload {
    pub id: Option<String>,
    pub title: String,
    pub markdown: String,
    pub tag_ids: Vec<String>,
    pub attachment_ids: Vec<String>,
}

/// How the user resolved a conflict.
#[derive(Debug, Clone)]
pub struct ConflictResolutionPayload {
    pub note_id: String,
    pub resolution: String,
    pub title: Option<String>,
    pub markdown: Option<String>,
    pub tag_ids: Option<Vec<String>>,
    pub attachment_ids: Option<Vec<String>>,
}

/// A file to attach.
#[derive(Debug, Clone)]
pub struct AttachmentUploadPayload {
    pub path: String,
    pub kind: String,
}

/// Storage use and limits of the notes of an account.
#[derive(Debug, Clone)]
pub struct NotesStorageInfo {
    pub used_bytes: i64,
    pub limit_bytes: i64,
    pub remaining_bytes: i64,
    pub attachment_bytes: i64,
    pub markdown_bytes: i64,
    pub max_attachment_bytes: i64,
    pub max_markdown_bytes: i64,
}

/// Checks the cloud's answer to deleting `resource` `expected_id` at
/// `base_revision`: it must name that resource and a later revision.
pub fn validate_delete_response(
    resource: &str,
    actual_id: &str,
    revision: i64,
    deleted_at: Option<&str>,
    expected_id: &str,
    base_revision: i64,
) -> (r: Result<(), AppError>)
    ensures
        actual_id@ != expected_id@ ==> (r matches Err(e) && e.message@ == resource@
            + " delete response id mismatch"@),
        actual_id@ == expected_id@ && revision <= base_revision ==> (r matches Err(e) && e.message@
            == resource@ + " delete response revision did not advance"@),
        actual_id@ == expected_id@ && revision > base_revision ==> r is Ok,
{
    if !str_eq(actual_id, expected_id) {
        let mut message = resource.to_owned();
        message.append(" delete response id mismatch");
        return Err(AppError { message });
    }
    if revision <= base_revision {
        let mut message = resource.to_owned();
        message.append(" delete response revision did not advance");
        return Err(AppError { message });
    }
    Ok(())
}

/// Ids sorted and without repeats.
pub fn normalize_id_list(ids: Vec<String>) -> (r: Vec<String>)
    ensures
        strictly_sorted(string_views(r@)),
        forall|x: Seq<char>| string_views(r@).contains(x) <==> string_views(ids@).contains(x),
{
    let mut out: Vec<String> = Vec::new();
    let n = ids.len();
    let mut i: usize = 0;
    while i < n
        invariant
            n == ids@.len(),
            i <= n,
            strictly_sorted(string_views(out@)),
            forall|x: Seq<char>|
                string_views(out@).contains(x) <==> string_views(ids@.take(i as int)).contains(x),
        decreases n - i,
    {
        let id = ids[i].clone();
        proof {
            assert(string_views(ids@.take(i + 1)) =~= string_views(ids@.take(i as int)).push(ids@[i as int]@));
        }
        let ghost prev = string_views(out@);
        let ghost seen = string_views(ids@.take(i as int));
        let ghost v = id@;
        if !contains_string(out.as_slice(), &id) {
            insert_sorted(&mut out, id);
        }
        proof {
            assert forall|x: Seq<char>| string_views(out@).contains(x) <==> seen.push(v).contains(x) by {
                if seen.push(v).contains(x) {
                    let j = choose|j: int| 0 <= j < seen.push(v).len() && seen.push(v)[j] == x;
                    if j < seen.len() {
                        assert(seen[j] == x);
                    }
                }
                if seen.contains(x) {
                    let j = choose|j: int| 0 <= j < seen.len() && seen[j] == x;
                    assert(seen.push(v)[j] == x);
                }
                if x == v {
                    assert(seen.push(v)[seen.len() as int] == x);
                }
            }
        }
        i = i + 1;
    }
    proof {
        assert(ids@.take(n as int) =~= ids@);
    }
    out
}

/// Each text is no later than any text after it, in code-point order.
pub open spec fn sorted_texts(s: Seq<Seq<char>>) -> bool {
    forall|i: int, j: int| 0 <= i < j < s.len() ==> !chars_lt(#[trigger] s[j], #[trigger] s[i])
}

/// "Not below" is transitive: `a <= b <= c` gives `a <= c`.
proof fn lemma_not_lt_transitive(a: Seq<char>, b: Seq<char>, c: Seq<char>)
    requires
        !chars_lt(b, a),
        !chars_lt(c, b),
    ensures
        !chars_lt(c, a),
{
    if chars_lt(c, a) && a != b {
        lemma_chars_lt_total(a, b);
        lemma_chars_lt_transitive(c, a, b);
    }
}

/// The last text of a sorted sequence is not below any of its texts.
proof fn lemma_sorted_last_max(s: Seq<Seq<char>>, k: int)
    requires
        sorted_texts(s),
        0 <= k < s.len(),
    ensures
        !chars_lt(s.last(), s[k]),
{
    if k == s.len() - 1 {
        lemma_chars_lt_irreflexive(s[k]);
    } else {
        assert(!chars_lt(s[s.len() - 1], s[k]));
    }
}

/// Inserting `x` after the texts not above it and before those above it
/// keeps a sequence sorted.
proof fn lemma_insert_sorted_texts(v: Seq<Seq<char>>, k: int, x: Seq<char>)
    requires
        sorted_texts(v),
        0 <= k <= v.len(),
        k > 0 ==> !chars_lt(x, v[k - 1]),
        k < v.len() ==> chars_lt(x, v[k]),
    ensures
        sorted_texts(v.insert(k, x)),
{
    let s = v.insert(k, x);
    assert forall|a: int, b: int| 0 <= a < b < s.len() implies !chars_lt(#[trigger] s[b], #[trigger] s[a]) by {
        if b < k {
            assert(s[a] == v[a] && s[b] == v[b]);
        } else if b == k {
            assert(s[a] == v[a] && s[b] == x);
            if a < k - 1 {
                assert(!chars_lt(v[k - 1], v[a]));
            } else {
                lemma_chars_lt_irreflexive(v[a]);
            }
            lemma_not_lt_transitive(v[a], v[k - 1], x);
        } else if a == k {
            assert(s[a] == x && s[b] == v[b - 1]);
            if chars_lt(v[b - 1], x) {
                lemma_chars_lt_transitive(v[b - 1], x, v[k]);
                if b - 1 == k {
                    lemma_chars_lt_irreflexive(v[k]);
                } else {
                    assert(!chars_lt(v[b - 1], v[k]));
                }
            }
        } else if a < k {
            assert(s[a] == v[a] && s[b] == v[b - 1]);
        } else {
            assert(s[a] == v[a - 1] && s[b] == v[b - 1]);
        }
    }
}

/// Two sorted sequences of the same texts, repeats counted, are equal.
pub proof fn lemma_sorted_texts_unique(x: Seq<Seq<char>>, y: Seq<Seq<char>>)
    requires
        sorted_texts(x),
        sorted_texts(y),
        x.to_multiset() == y.to_multiset(),
    ensures
        x == y,
    decreases x.len(),
{
    x.to_multiset_ensures();
    y.to_multiset_ensures();
    vstd::seq_lib::to_multiset_len(x);
    vstd::seq_lib::to_multiset_len(y);
    if x.len() == 0 {
        assert(y =~= x);
    } else {
        let a = x.last();
        let b = y.last();
        assert(y.contains(b));
        assert(y.to_multiset().count(b) > 0);
        assert(x.to_multiset().count(b) > 0);
        assert(x.contains(b));
        let i = choose|i: int| 0 <= i < x.len() && x[i] == b;
        lemma_sorted_last_max(x, i);
        assert(x.contains(a));
        assert(x.to_multiset().count(a) > 0);
        assert(y.to_multiset().count(a) > 0);
        assert(y.contains(a));
        let j = choose|j: int| 0 <= j < y.len() && y[j] == a;
        lemma_sorted_last_max(y, j);
        if a != b {
            lemma_chars_lt_total(a, b);
        }
        assert(a == b);
        assert(x.remove(x.len() - 1) =~= x.drop_last());
        assert(y.remove(y.len() - 1) =~= y.drop_last());
        assert(x.drop_last().to_multiset() == y.drop_last().to_multiset());
        assert(sorted_texts(x.drop_last())) by {
            assert forall|i: int, j: int| 0 <= i < j < x.drop_last().len() implies !chars_lt(
                #[trigger] x.drop_last()[j],
                #[trigger] x.drop_last()[i],
            ) by {
                assert(!chars_lt(x[j], x[i]));
            }
        }
        assert(sorted_texts(y.drop_last())) by {
            assert forall|i: int, j: int| 0 <= i < j < y.drop_last().len() implies !chars_lt(
                #[trigger] y.drop_last()[j],
                #[trigger] y.drop_last()[i],
            ) by {
                assert(!chars_lt(y[j], y[i]));
            }
        }
        lemma_sorted_texts_unique(x.drop_last(), y.drop_last());
        assert(x =~= x.drop_last().push(a));
        assert(y =~= y.drop_last().push(b));
    }
}

/// The attachment ids of a cloud note, sorted.
pub fn attachment_ids_of(dto: &NoteDto) -> (r: Vec<String>)
    ensures
        sorted_texts(string_views(r@)),
        string_views(r@).to_multiset() == dto.attachments@.map_values(|a: AttachmentDto| a.attachment_id@).to_multiset(),
{
    let ghost all = dto.attachments@.map_values(|a: AttachmentDto| a.attachment_id@);
    let mut sorted: Vec<String> = Vec::new();
    let n = dto.attachments.len();
    let mut i: usize = 0;
    proof {
        assert(string_views(sorted@) =~= all.take(0));
    }
    while i < n
        invariant
            n == dto.attachments@.len(),
            all == dto.attachments@.map_values(|a: AttachmentDto| a.attachment_id@),
            i <= n,
            sorted_texts(string_views(sorted@)),
            string_views(sorted@).to_multiset() == all.take(i as int).to_multiset(),
        decreases n - i,
    {
        let x = dto.attachments[i].attachment_id.clone();
        let mut k: usize = sorted.len();
        while k > 0
            invariant
                k <= sorted@.len(),
                k < sorted@.len() ==> chars_lt(x@, sorted@[k as int]@),
            ensures
                k <= sorted@.len(),
                k < sorted@.len() ==> chars_lt(x@, sorted@[k as int]@),
                k > 0 ==> !chars_lt(x@, sorted@[k - 1]@),
            decreases k,
        {
            if !string_lt(&x, &sorted[k - 1]) {
                break;
            }
            k = k - 1;
        }
        let ghost before = sorted@;
        let ghost bv = string_views(before);
        proof {
            vstd::seq_lib::to_multiset_insert(bv, k as int, x@);
            assert(string_views(before.insert(k as int, x)) =~= bv.insert(k as int, x@));
            assert(all.take(i + 1) =~= all.take(i as int).push(x@));
            vstd::seq_lib::to_multiset_build(all.take(i as int), x@);
            if k < before.len() {
                assert(bv[k as int] == before[k as int]@);
                if chars_lt(bv[k as int], x@) {
                    lemma_chars_lt_transitive(x@, bv[k as int], x@);
                    lemma_chars_lt_irreflexive(x@);
                }
            }
        }
        proof {
            if k > 0 {
                assert(bv[k - 1] == before[k - 1]@);
            }
            if k < before.len() {
                assert(bv[k as int] == before[k as int]@);
            }
            lemma_insert_sorted_texts(bv, k as int, x@);
        }
        sorted.insert(k, x);
        i = i + 1;
    }
    proof {
        assert(all.take(n as int) =~= all);
    }
    sorted
}

/// The Unix time in milliseconds of an RFC 3339 timestamp, as `chrono`
/// reads it; `None` when it does not parse.
pub uninterp spec fn rfc3339_millis(raw: Seq<char>) -> Option<i64>;

/// Calls `chrono::DateTime::parse_from_rfc3339` and reads the result's
/// `timestamp_millis`. Claims: the result is `rfc3339_millis` of the text.
#[verifier::external_body]
fn parse_rfc3339_millis(raw: &str) -> (r: Option<i64>)
    ensures
        r == rfc3339_millis(raw@),
{
    match chrono::DateTime::parse_from_rfc3339(raw) {
        Ok(timestamp) => Some(timestamp.timestamp_millis()),
        Err(_) => None,
    }
}

/// The time of a cloud timestamp in milliseconds, or `fallback` when it
/// does not parse.
pub fn parse_timestamp_millis(raw: &str, fallback: i64) -> (r: i64)
    ensures
        r == match rfc3339_millis(raw@) {
            Some(t) => t,
            None => fallback,
        },
{
    match parse_rfc3339_millis(raw) {
        Some(t) => t,
        None => fallback,
    }
}

/// Whether `c` is a lowercase hexadecimal digit.
pub open spec fn lower_hex_digit(c: char) -> bool {
    ('0' <= c && c <= '9') || ('a' <= c && c <= 'f')
}

/// Whether `s` is laid out as a hyphenated UUID in lowercase: 36
/// characters, `-` at 8, 13, 18 and 23 and hexadecimal digits elsewhere.
pub open spec fn uuid_layout(s: Seq<char>) -> bool {
    &&& s.len() == 36
    &&& forall|i: int|
        0 <= i < 36 ==> if i == 8 || i == 13 || i == 18 || i == 23 {
            #[trigger] s[i] == '-'
        } else {
            lower_hex_digit(s[i])
        }
}

/// Whether `s` is the text of a random (version 4, RFC 4122 variant) UUID.
pub open spec fn v4_uuid_text(s: Seq<char>) -> bool {
    &&& uuid_layout(s)
    &&& s[14] == '4'
    &&& (s[19] == '8' || s[19] == '9' || s[19] == 'a' || s[19] == 'b')
}

/// Draws 16 bytes with `rand::rngs::OsRng::try_fill_bytes`, makes a UUID
/// of them with `uuid::Builder::from_random_bytes` and renders it. Claims:
/// on success, the text of a version 4 UUID (the builder sets the version
/// and variant bits, and `Display` writes the hyphenated lowercase form);
/// which id is left open, as it is chance. `None` when the random source
/// fails.
#[verifier::external_body]
fn random_uuid_text() -> (r: Option<String>)
    ensures
        match r {
            Some(s) => v4_uuid_text(s@),
            None => true,
        },
{
    let mut bytes = [0u8; 16];
    match rand::rngs::OsRng.try_fill_bytes(&mut bytes) {
        Ok(()) => Some(uuid::Builder::from_random_bytes(bytes).into_uuid().to_string()),
        Err(_) => None,
    }
}

/// A fresh note id, the text of a random UUID; refused when the system's
/// random source fails.
pub fn new_note_id() -> (r: Result<String, AppError>)
    ensures
        match r {
            Ok(s) => v4_uuid_text(s@),
            Err(e) => e.message@ == "system random source failed"@,
        },
{
    match random_uuid_text() {
        Some(s) => Ok(s),
        None => Err(AppError::message("system random source failed")),
    }
}

} // verus!
