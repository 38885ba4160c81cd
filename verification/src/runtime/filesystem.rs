//! Remote filesystem browsing: ordering and paging of directory listings,
//! volume labels and the error codes sent to peers.
use vstd::prelude::*;

use crate::assoc::{entries_map, keys_distinct, lemma_entries_lookup, lemma_entries_push, lemma_entries_remove};
use crate::protocol::payloads::{
    FsEntry, FsErrorPayload, FsListResultPayload, FS_DOWNLOAD_TYPE, FS_LIST_RESULT_TYPE, FS_LIST_TYPE,
    FS_ROOTS_RESULT_TYPE, FS_ROOTS_TYPE, FS_STAT_RESULT_TYPE, FS_STAT_TYPE, FS_UPLOAD_READY_TYPE,
    FS_UPLOAD_TYPE,
};
use crate::text::{chars_of, str_eq, trim, trim_chars, string_of};
use vstd::string::StringExecFns;

verus! {

/// Entries listed when a request names no limit.
pub const DEFAULT_LIST_LIMIT: i64 = 200;

/// The most entries one listing returns.
pub const MAX_LIST_LIMIT: i64 = 1000;

/// Reason sent when the peer cannot browse files.
pub const REMOTE_FILESYSTEM_UNSUPPORTED_ERROR: &'static str = "colink:filesystem.unsupported.v1";

/// Reason sent when the peer cannot receive uploads.
pub const REMOTE_FILESYSTEM_UPLOAD_UNSUPPORTED_ERROR: &'static str =
    "colink:filesystem.upload_unsupported.v1";

// ---------------------------------------------------------------------------
// Errors
// ---------------------------------------------------------------------------

/// The kinds of I/O failure that the protocol reports by name.
#[derive(Clone, Copy, Debug, PartialEq, Eq)]
pub enum IoFailure {
    NotFound,
    PermissionDenied,
    Other,
}

/// A filesystem failure with its protocol reason.
#[derive(Debug, Clone)]
pub struct FilesystemError {
    pub reason: String,
    pub message: String,
}

impl FilesystemError {
    /// A failure without a more specific reason.
    pub fn generic(message: &str) -> (r: Self)
        ensures
            r.reason@ == "generic"@,
            r.message@ == message@,
    {
        FilesystemError { reason: "generic".to_owned(), message: message.to_owned() }
    }

    /// The failure for an I/O error of `kind` described by `message`.
    pub fn from_io(kind: IoFailure, message: &str) -> (r: Self)
        ensures
            r.reason@ == match kind {
                IoFailure::NotFound => "not_found"@,
                IoFailure::PermissionDenied => "permission_denied"@,
                IoFailure::Other => "io_error"@,
            },
            r.message@ == message@,
    {
        let reason = match kind {
            IoFailure::NotFound => "not_found",
            IoFailure::PermissionDenied => "permission_denied",
            IoFailure::Other => "io_error",
        };
        FilesystemError { reason: reason.to_owned(), message: message.to_owned() }
    }
}

/// What a peer's error becomes for the user interface: the message of a
/// general failure, else the stable token `colink:fs.<reason>.v1`, so host
/// paths and system details stay out of view.
pub open spec fn error_token(reason: Seq<char>, message: Seq<char>) -> Seq<char> {
    if reason == "general"@ || reason == "generic"@ {
        message
    } else {
        "colink:fs."@ + reason + ".v1"@
    }
}

/// The text shown for a peer's filesystem error.
pub fn filesystem_error_token(payload: FsErrorPayload) -> (r: String)
    ensures
        r@ == error_token(payload.reason@, payload.message@),
{
    if str_eq(payload.reason.as_str(), "general") || str_eq(payload.reason.as_str(), "generic") {
        return payload.message;
    }
    let mut out = "colink:fs.".to_owned();
    out.append(payload.reason.as_str());
    out.append(".v1");
    out
}

// ---------------------------------------------------------------------------
// Volume labels
// ---------------------------------------------------------------------------

/// The text `String::from_utf16_lossy` decodes from `units`.
pub uninterp spec fn utf16_lossy(units: Seq<u16>) -> Seq<char>;

/// Calls `String::from_utf16_lossy`. Claims: the result is `utf16_lossy` of
/// the units.
#[verifier::external_body]
fn decode_utf16_lossy(units: &[u16]) -> (r: String)
    ensures
        r@ == utf16_lossy(units@),
{
    String::from_utf16_lossy(units)
}

/// The units of `label` before its first zero (all of them if none is zero).
pub open spec fn until_nul(label: Seq<u16>) -> Seq<u16> {
    if exists|i: int| 0 <= i < label.len() && label[i] == 0 {
        label.take(choose|i: int| 0 <= i < label.len() && label[i] == 0 && forall|j: int| 0 <= j < i ==> label[j] != 0)
    } else {
        label
    }
}

/// A volume label from a zero-terminated UTF-16 buffer, trimmed; `None` when
/// nothing is left.
pub fn volume_label_from_utf16(label: &[u16]) -> (r: Option<String>)
    ensures
        ({
            let text = trim(utf16_lossy(until_nul(label@)));
            match r {
                Some(s) => text.len() > 0 && s@ == text,
                None => text.len() == 0,
            }
        }),
{
    let n = label.len();
    let mut length: usize = 0;
    while length < n
        invariant
            n == label@.len(),
            length <= n,
            forall|j: int| 0 <= j < length ==> label@[j] != 0,
        ensures
            length <= n,
            forall|j: int| 0 <= j < length ==> label@[j] != 0,
            length < n ==> label@[length as int] == 0,
        decreases n - length,
    {
        if label[length] == 0 {
            break;
        }
        length = length + 1;
    }
    let ghost prefix = label@.subrange(0, length as int);
    proof {
        if length < n {
            let w = choose|i: int|
                0 <= i < label@.len() && label@[i] == 0 && forall|j: int| 0 <= j < i ==> label@[j] != 0;
            assert(0 <= length < label@.len() && label@[length as int] == 0 && forall|j: int|
                0 <= j < length ==> label@[j] != 0);
            if w < length {
            } else if w > length {
                assert(label@[length as int] != 0);
            }
            assert(w == length);
            assert(until_nul(label@) =~= prefix);
        } else {
            assert(until_nul(label@) =~= prefix);
        }
    }
    let mut units: Vec<u16> = Vec::new();
    let mut i: usize = 0;
    while i < length
        invariant
            length <= label@.len(),
            prefix == label@.subrange(0, length as int),
            i <= length,
            units@ == label@.subrange(0, i as int),
        decreases length - i,
    {
        units.push(label[i]);
        proof {
            assert(label@.subrange(0, i + 1) =~= label@.subrange(0, i as int).push(label@[i as int]));
        }
        i = i + 1;
    }
    let decoded = decode_utf16_lossy(units.as_slice());
    let chars = chars_of(decoded.as_str());
    let trimmed = trim_chars(chars.as_slice());
    if trimmed.len() == 0 {
        None
    } else {
        Some(string_of(trimmed.as_slice()))
    }
}

// ---------------------------------------------------------------------------
// Ordering of listings
// ---------------------------------------------------------------------------

/// The text `str::to_lowercase` gives for `s`.
pub uninterp spec fn lowercase(s: Seq<char>) -> Seq<char>;

/// Calls `str::to_lowercase`. Claims: the result is `lowercase` of the text.
#[verifier::external_body]
fn to_lowercase_text(s: &str) -> (r: String)
    ensures
        r@ == lowercase(s@),
{
    s.to_lowercase()
}

/// Lexicographic order of texts by code point: -1, 0 or 1.
pub open spec fn text_order(a: Seq<char>, b: Seq<char>) -> int
    decreases a.len(),
{
    if a.len() == 0 {
        if b.len() == 0 {
            0
        } else {
            -1
        }
    } else if b.len() == 0 {
        1
    } else if a[0] < b[0] {
        -1
    } else if a[0] > b[0] {
        1
    } else {
        text_order(a.drop_first(), b.drop_first())
    }
}

/// Order of optional times: absent before present, then by value.
pub open spec fn time_order(a: Option<i64>, b: Option<i64>) -> int {
    match (a, b) {
        (None, None) => 0,
        (None, Some(_)) => -1,
        (Some(_), None) => 1,
        (Some(x), Some(y)) => if x < y {
            -1
        } else if x > y {
            1
        } else {
            0
        },
    }
}

/// 0 for directories, 1 for every other kind.
pub open spec fn kind_rank(kind: Seq<char>) -> int {
    if kind == "directory"@ {
        0
    } else {
        1
    }
}

/// The order of a listing: directories first, then the most recently
/// modified first (entries without a time last), then by lowercase name,
/// then by name.
pub open spec fn entry_order(left: FsEntry, right: FsEntry) -> int {
    let by_kind = if kind_rank(left.kind@) < kind_rank(right.kind@) {
        -1int
    } else if kind_rank(left.kind@) > kind_rank(right.kind@) {
        1int
    } else {
        0int
    };
    if by_kind != 0 {
        by_kind
    } else if time_order(right.modified, left.modified) != 0 {
        time_order(right.modified, left.modified)
    } else if text_order(lowercase(left.name@), lowercase(right.name@)) != 0 {
        text_order(lowercase(left.name@), lowercase(right.name@))
    } else {
        text_order(left.name@, right.name@)
    }
}

fn text_order_of(a: &[char], b: &[char]) -> (r: i8)
    ensures
        r == text_order(a@, b@),
{
    let mut i: usize = 0;
    proof {
        assert(a@.skip(0) =~= a@);
        assert(b@.skip(0) =~= b@);
    }
    while i < a.len() && i < b.len()
        invariant
            i <= a@.len(),
            i <= b@.len(),
            text_order(a@, b@) == text_order(a@.skip(i as int), b@.skip(i as int)),
        decreases a@.len() - i,
    {
        let ghost x = a@.skip(i as int);
        let ghost y = b@.skip(i as int);
        proof {
            assert(x[0] == a@[i as int] && y[0] == b@[i as int]);
        }
        if a[i] < b[i] {
            return -1;
        }
        if a[i] > b[i] {
            return 1;
        }
        proof {
            assert(x.drop_first() =~= a@.skip(i + 1));
            assert(y.drop_first() =~= b@.skip(i + 1));
        }
        i = i + 1;
    }
    proof {
        assert(a@.skip(i as int).len() == a@.len() - i);
    }
    if i < a.len() {
        1
    } else if i < b.len() {
        -1
    } else {
        0
    }
}

fn time_order_of(a: Option<i64>, b: Option<i64>) -> (r: i8)
    ensures
        r == time_order(a, b),
{
    match (a, b) {
        (None, None) => 0,
        (None, Some(_)) => -1,
        (Some(_), None) => 1,
        (Some(x), Some(y)) => if x < y {
            -1
        } else if x > y {
            1
        } else {
            0
        },
    }
}

/// Texts order as -1, 0 or 1.
pub proof fn lemma_text_order_range(a: Seq<char>, b: Seq<char>)
    ensures
        -1 <= text_order(a, b) <= 1,
    decreases a.len(),
{
    if a.len() > 0 && b.len() > 0 && a[0] == b[0] {
        lemma_text_order_range(a.drop_first(), b.drop_first());
    }
}

/// `entry_order` of two entries.
pub fn entry_order_of(left: &FsEntry, right: &FsEntry) -> (r: i8)
    ensures
        r == entry_order(*left, *right),
        -1 <= r <= 1,
{
    proof {
        lemma_text_order_range(lowercase(left.name@), lowercase(right.name@));
        lemma_text_order_range(left.name@, right.name@);
    }
    let left_rank: i8 = if str_eq(left.kind.as_str(), "directory") {
        0
    } else {
        1
    };
    let right_rank: i8 = if str_eq(right.kind.as_str(), "directory") {
        0
    } else {
        1
    };
    if left_rank < right_rank {
        return -1;
    }
    if left_rank > right_rank {
        return 1;
    }
    let by_time = time_order_of(right.modified, left.modified);
    if by_time != 0 {
        return by_time;
    }
    let left_lower = to_lowercase_text(left.name.as_str());
    let right_lower = to_lowercase_text(right.name.as_str());
    let by_lower = text_order_of(
        chars_of(left_lower.as_str()).as_slice(),
        chars_of(right_lower.as_str()).as_slice(),
    );
    if by_lower != 0 {
        return by_lower;
    }
    text_order_of(chars_of(left.name.as_str()).as_slice(), chars_of(right.name.as_str()).as_slice())
}

/// How `left` and `right` are ordered in a listing.
pub fn compare_filesystem_entries(left: &FsEntry, right: &FsEntry) -> (r: std::cmp::Ordering)
    ensures
        match r {
            std::cmp::Ordering::Less => entry_order(*left, *right) == -1,
            std::cmp::Ordering::Equal => entry_order(*left, *right) == 0,
            std::cmp::Ordering::Greater => entry_order(*left, *right) == 1,
        },
{
    let order = entry_order_of(left, right);
    if order < 0 {
        std::cmp::Ordering::Less
    } else if order > 0 {
        std::cmp::Ordering::Greater
    } else {
        std::cmp::Ordering::Equal
    }
}

/// Swapping the texts negates their order.
pub proof fn lemma_text_order_antisymmetric(a: Seq<char>, b: Seq<char>)
    ensures
        text_order(a, b) == -text_order(b, a),
    decreases a.len(),
{
    if a.len() > 0 && b.len() > 0 && a[0] == b[0] {
        lemma_text_order_antisymmetric(a.drop_first(), b.drop_first());
    }
}

/// Swapping two entries negates their order.
pub proof fn lemma_entry_order_antisymmetric(left: FsEntry, right: FsEntry)
    ensures
        entry_order(left, right) == -entry_order(right, left),
{
    lemma_text_order_antisymmetric(lowercase(left.name@), lowercase(right.name@));
    lemma_text_order_antisymmetric(left.name@, right.name@);
}

/// Texts order as equal exactly when they are equal.
pub proof fn lemma_text_order_zero(a: Seq<char>, b: Seq<char>)
    ensures
        (text_order(a, b) == 0) == (a == b),
    decreases a.len(),
{
    if a.len() > 0 && b.len() > 0 && a[0] == b[0] {
        lemma_text_order_zero(a.drop_first(), b.drop_first());
        assert(a =~= seq![a[0]] + a.drop_first());
        assert(b =~= seq![b[0]] + b.drop_first());
        if a == b {
            assert(a.drop_first() =~= b.drop_first());
        }
    } else if a.len() > 0 && b.len() > 0 {
        assert(a[0] != b[0]);
    } else if a.len() == 0 && b.len() == 0 {
        assert(a =~= b);
    }
}

/// "Not after" is transitive for texts.
pub proof fn lemma_text_order_transitive(a: Seq<char>, b: Seq<char>, c: Seq<char>)
    requires
        text_order(a, b) <= 0,
        text_order(b, c) <= 0,
    ensures
        text_order(a, c) <= 0,
    decreases a.len(),
{
    if a.len() > 0 && b.len() > 0 && c.len() > 0 && a[0] == b[0] && b[0] == c[0] {
        lemma_text_order_transitive(a.drop_first(), b.drop_first(), c.drop_first());
    }
}

/// "Not after" is transitive for entries.
pub proof fn lemma_entry_order_transitive(x: FsEntry, y: FsEntry, z: FsEntry)
    requires
        entry_order(x, y) <= 0,
        entry_order(y, z) <= 0,
    ensures
        entry_order(x, z) <= 0,
{
    let (lx, ly, lz) = (lowercase(x.name@), lowercase(y.name@), lowercase(z.name@));
    lemma_text_order_range(lx, ly);
    lemma_text_order_range(ly, lz);
    lemma_text_order_range(lx, lz);
    lemma_text_order_range(x.name@, y.name@);
    lemma_text_order_range(y.name@, z.name@);
    lemma_text_order_range(x.name@, z.name@);
    lemma_text_order_zero(lx, ly);
    lemma_text_order_zero(ly, lz);
    lemma_text_order_zero(lx, lz);
    lemma_text_order_zero(x.name@, y.name@);
    lemma_text_order_zero(y.name@, z.name@);
    lemma_text_order_zero(x.name@, z.name@);
    lemma_text_order_antisymmetric(lx, lz);
    lemma_text_order_antisymmetric(x.name@, z.name@);
    lemma_text_order_antisymmetric(lx, ly);
    lemma_text_order_antisymmetric(ly, lz);
    lemma_text_order_antisymmetric(x.name@, y.name@);
    lemma_text_order_antisymmetric(y.name@, z.name@);
    if text_order(lx, ly) <= 0 && text_order(ly, lz) <= 0 {
        lemma_text_order_transitive(lx, ly, lz);
    }
    if text_order(x.name@, y.name@) <= 0 && text_order(y.name@, z.name@) <= 0 {
        lemma_text_order_transitive(x.name@, y.name@, z.name@);
    }
}

/// Each entry comes no later than any entry after it.
pub open spec fn listing_sorted(s: Seq<FsEntry>) -> bool {
    forall|i: int, j: int| 0 <= i < j < s.len() ==> entry_order(#[trigger] s[i], #[trigger] s[j]) <= 0
}

/// The entries of `s` that order equally with `e`, in their order in `s`.
pub open spec fn equal_in_order(s: Seq<FsEntry>, e: FsEntry) -> Seq<FsEntry> {
    s.filter(|x: FsEntry| entry_order(x, e) == 0)
}

/// A sequence none of whose entries orders equally with `e` has none to
/// keep in order.
proof fn lemma_equal_in_order_none(s: Seq<FsEntry>, e: FsEntry)
    requires
        forall|j: int| 0 <= j < s.len() ==> entry_order(#[trigger] s[j], e) != 0,
    ensures
        equal_in_order(s, e) == Seq::<FsEntry>::empty(),
{
    let f = equal_in_order(s, e);
    let pred = |x: FsEntry| entry_order(x, e) == 0;
    if f.len() > 0 {
        s.lemma_filter_pred(pred, 0);
        assert(f.contains(f[0]));
        s.lemma_filter_contains_rev(pred, f[0]);
        let j = choose|j: int| 0 <= j < s.len() && s[j] == f[0];
        assert(entry_order(s[j], e) != 0);
    }
    assert(f =~= Seq::<FsEntry>::empty());
}

/// The entries in listing order; entries that order equally keep their
/// relative position.
pub fn sort_filesystem_entries(entries: Vec<FsEntry>) -> (r: Vec<FsEntry>)
    ensures
        r@.to_multiset() == entries@.to_multiset(),
        listing_sorted(r@),
        forall|e: FsEntry| #[trigger] equal_in_order(r@, e) == equal_in_order(entries@, e),
{
    let ghost all = entries@;
    let mut rest = entries;
    let mut sorted: Vec<FsEntry> = Vec::new();
    let ghost mut i: int = 0;
    proof {
        assert(sorted@.to_multiset() =~= vstd::multiset::Multiset::<FsEntry>::empty()) by {
            vstd::seq_lib::to_multiset_len(sorted@);
            vstd::multiset::lemma_multiset_empty_len(sorted@.to_multiset());
        }
        assert(rest@ =~= all.skip(0));
        assert forall|e: FsEntry| #[trigger] equal_in_order(sorted@, e) == equal_in_order(all.take(0), e) by {
            reveal(Seq::filter);
            assert(sorted@ =~= all.take(0));
        }
    }
    while rest.len() > 0
        invariant
            0 <= i <= all.len(),
            rest@ == all.skip(i),
            sorted@.to_multiset().add(rest@.to_multiset()) == all.to_multiset(),
            listing_sorted(sorted@),
            forall|e: FsEntry| #[trigger] equal_in_order(sorted@, e) == equal_in_order(all.take(i), e),
        decreases rest@.len(),
    {
        let ghost before_rest = rest@;
        let x = rest.remove(0);
        proof {
            vstd::seq_lib::to_multiset_remove(before_rest, 0);
            assert(x == all[i]);
            assert(rest@ =~= all.skip(i + 1));
        }
        let mut k: usize = sorted.len();
        while k > 0 && entry_order_of(&sorted[k - 1], &x) > 0
            invariant
                k <= sorted@.len(),
                forall|j: int| k <= j < sorted@.len() ==> entry_order(#[trigger] sorted@[j], x) > 0,
            decreases k,
        {
            k = k - 1;
        }
        let ghost before = sorted@;
        proof {
            vstd::seq_lib::to_multiset_insert(before, k as int, x);
        }
        sorted.insert(k, x);
        proof {
            let s = sorted@;
            assert(s =~= before.insert(k as int, x));
            assert forall|a: int, b: int| 0 <= a < b < s.len() implies entry_order(
                #[trigger] s[a],
                #[trigger] s[b],
            ) <= 0 by {
                if b < k {
                    assert(s[a] == before[a] && s[b] == before[b]);
                } else if b == k {
                    assert(s[a] == before[a] && s[b] == x);
                    if a < k - 1 {
                        assert(entry_order(before[a], before[k - 1]) <= 0);
                        lemma_entry_order_transitive(before[a], before[k - 1], x);
                    }
                } else if a == k {
                    assert(s[a] == x && s[b] == before[b - 1]);
                    assert(entry_order(before[b - 1], x) > 0);
                    lemma_entry_order_antisymmetric(before[b - 1], x);
                } else if a < k {
                    assert(s[a] == before[a] && s[b] == before[b - 1]);
                } else {
                    assert(s[a] == before[a - 1] && s[b] == before[b - 1]);
                }
            }
            assert forall|e: FsEntry| #[trigger] equal_in_order(s, e) == equal_in_order(all.take(i + 1), e) by {
                let pred = |y: FsEntry| entry_order(y, e) == 0;
                let head = before.take(k as int);
                let tail = before.skip(k as int);
                assert(before =~= head + tail);
                assert(s =~= head + seq![x] + tail);
                assert(all.take(i + 1) =~= all.take(i).push(x));
                Seq::filter_distributes_over_add(head, tail, pred);
                Seq::filter_distributes_over_add(head + seq![x], tail, pred);
                Seq::filter_distributes_over_add(head, seq![x], pred);
                reveal(Seq::filter);
                assert(seq![x].drop_last() =~= Seq::<FsEntry>::empty());
                assert(all.take(i).push(x).drop_last() =~= all.take(i));
                if entry_order(x, e) == 0 {
                    assert forall|j: int| 0 <= j < tail.len() implies entry_order(#[trigger] tail[j], e) != 0 by {
                        assert(tail[j] == before[k + j]);
                        assert(entry_order(before[k + j], x) > 0);
                        lemma_entry_order_antisymmetric(x, e);
                        if entry_order(tail[j], e) == 0 {
                            lemma_entry_order_transitive(tail[j], e, x);
                        }
                    }
                    lemma_equal_in_order_none(tail, e);
                    assert(equal_in_order(tail, e) == Seq::<FsEntry>::empty());
                    assert(equal_in_order(before, e) =~= equal_in_order(head, e));
                    assert(equal_in_order(s, e) =~= equal_in_order(head, e).push(x));
                } else {
                    assert(Seq::<FsEntry>::empty().filter(pred) =~= Seq::<FsEntry>::empty());
                    assert(seq![x].filter(pred) =~= Seq::<FsEntry>::empty());
                    assert((head + seq![x]).filter(pred) =~= head.filter(pred));
                    assert(s.filter(pred) =~= head.filter(pred) + tail.filter(pred));
                    assert(before.filter(pred) =~= head.filter(pred) + tail.filter(pred));
                    assert(all.take(i + 1).filter(pred) =~= all.take(i).filter(pred));
                    assert(equal_in_order(s, e) == s.filter(pred));
                    assert(equal_in_order(before, e) == before.filter(pred));
                    assert(equal_in_order(all.take(i), e) == all.take(i).filter(pred));
                    assert(equal_in_order(all.take(i + 1), e) == all.take(i + 1).filter(pred));
                }
            }
            broadcast use vstd::multiset::group_multiset_axioms;
            broadcast use vstd::seq_lib::group_to_multiset_ensures;

            assert(before_rest.contains(x)) by {
                assert(before_rest[0] == x);
            }
            assert(sorted@.to_multiset().add(rest@.to_multiset()) =~= all.to_multiset());
            i = i + 1;
        }
    }
    proof {
        assert(rest@.to_multiset() =~= vstd::multiset::Multiset::<FsEntry>::empty()) by {
            vstd::seq_lib::to_multiset_len(rest@);
            vstd::multiset::lemma_multiset_empty_len(rest@.to_multiset());
        }
        assert(sorted@.to_multiset() =~= sorted@.to_multiset().add(rest@.to_multiset()));
        vstd::seq_lib::to_multiset_len(rest@);
        assert(i == all.len());
        assert(all.take(i) =~= all);
    }
    sorted
}

/// `value` limited to `low..=high`.
pub open spec fn clamp(value: i64, low: i64, high: i64) -> i64 {
    if value < low {
        low
    } else if value > high {
        high
    } else {
        value
    }
}

/// The number of entries a listing reports (saturated at `i64::MAX`).
pub open spec fn listing_total(len: nat) -> i64 {
    if len <= i64::MAX {
        len as i64
    } else {
        i64::MAX
    }
}

/// The first entry of a page: the requested offset (0 by default) within
/// `0..=total`.
pub open spec fn page_offset(offset: Option<i64>, total: i64) -> i64 {
    clamp(
        match offset {
            Some(o) => o,
            None => 0,
        },
        0,
        total,
    )
}

/// The size of a page: the requested limit (the default when absent)
/// within `1..=MAX_LIST_LIMIT`.
pub open spec fn page_limit(limit: Option<i64>) -> i64 {
    clamp(
        match limit {
            Some(l) => l,
            None => DEFAULT_LIST_LIMIT,
        },
        1,
        MAX_LIST_LIMIT,
    )
}

/// One page of a sorted listing of `path`: at most `page_limit` entries from
/// `page_offset` on, with the total and whether more entries follow.
pub fn paginate_listing(path: String, entries: Vec<FsEntry>, offset: Option<i64>, limit: Option<i64>) -> (r:
    FsListResultPayload)
    ensures
        ({
            let total = listing_total(entries@.len());
            let start = page_offset(offset, total);
            let end = if start + page_limit(limit) < entries@.len() {
                start + page_limit(limit)
            } else {
                entries@.len() as int
            };
            &&& r.path == path
            &&& r.total == total
            &&& r.offset == start
            &&& r.entries@ == entries@.subrange(start as int, end)
            &&& r.has_more == (start + r.entries@.len() < total)
        }),
{
    let len = entries.len();
    let total: i64 = if (len as u64) <= 0x7fff_ffff_ffff_ffffu64 {
        len as i64
    } else {
        i64::MAX
    };
    let requested_offset = match offset {
        Some(o) => o,
        None => 0,
    };
    let start: i64 = if requested_offset < 0 {
        0
    } else if requested_offset > total {
        total
    } else {
        requested_offset
    };
    let requested_limit = match limit {
        Some(l) => l,
        None => DEFAULT_LIST_LIMIT,
    };
    let size: i64 = if requested_limit < 1 {
        1
    } else if requested_limit > MAX_LIST_LIMIT {
        MAX_LIST_LIMIT
    } else {
        requested_limit
    };
    let first = start as usize;
    let mut rest = entries;
    let ghost all = rest@;
    let mut page = rest.split_off(first);
    page.truncate(size as usize);
    proof {
        if (size as usize) <= all.len() - first {
            assert(page@ =~= all.subrange(first as int, first + size));
        } else {
            assert(page@ =~= all.subrange(first as int, all.len() as int));
        }
    }
    let has_more = (start as i128) + (page.len() as i128) < (total as i128);
    FsListResultPayload { path, entries: page, total, offset: start, has_more }
}

// ---------------------------------------------------------------------------
// Requests and uploads
// ---------------------------------------------------------------------------

/// The filesystem requests a peer can make.
#[derive(Clone, Copy, Debug, PartialEq, Eq, Structural)]
pub enum FilesystemRequestKind {
    Roots,
    List,
    Stat,
    Download,
    Upload,
}

/// The request a message type asks for; other types are ignored.
pub open spec fn request_kind(message_type: Seq<char>) -> Option<FilesystemRequestKind> {
    if message_type == FS_ROOTS_TYPE@ {
        Some(FilesystemRequestKind::Roots)
    } else if message_type == FS_LIST_TYPE@ {
        Some(FilesystemRequestKind::List)
    } else if message_type == FS_STAT_TYPE@ {
        Some(FilesystemRequestKind::Stat)
    } else if message_type == FS_DOWNLOAD_TYPE@ {
        Some(FilesystemRequestKind::Download)
    } else if message_type == FS_UPLOAD_TYPE@ {
        Some(FilesystemRequestKind::Upload)
    } else {
        None
    }
}

/// The request a message of `message_type` asks for.
pub fn filesystem_request_kind(message_type: &str) -> (r: Option<FilesystemRequestKind>)
    ensures
        r == request_kind(message_type@),
{
    if str_eq(message_type, FS_ROOTS_TYPE) {
        Some(FilesystemRequestKind::Roots)
    } else if str_eq(message_type, FS_LIST_TYPE) {
        Some(FilesystemRequestKind::List)
    } else if str_eq(message_type, FS_STAT_TYPE) {
        Some(FilesystemRequestKind::Stat)
    } else if str_eq(message_type, FS_DOWNLOAD_TYPE) {
        Some(FilesystemRequestKind::Download)
    } else if str_eq(message_type, FS_UPLOAD_TYPE) {
        Some(FilesystemRequestKind::Upload)
    } else {
        None
    }
}

impl FilesystemRequestKind {
    /// The message type of the answer to a request: a result for roots,
    /// listings and stats, the readiness for an upload; a download is
    /// answered by a file offer, so it has none.
    pub fn response_type(self) -> (r: Option<&'static str>)
        ensures
            match self {
                FilesystemRequestKind::Roots => r == Some(FS_ROOTS_RESULT_TYPE),
                FilesystemRequestKind::List => r == Some(FS_LIST_RESULT_TYPE),
                FilesystemRequestKind::Stat => r == Some(FS_STAT_RESULT_TYPE),
                FilesystemRequestKind::Download => r is None,
                FilesystemRequestKind::Upload => r == Some(FS_UPLOAD_READY_TYPE),
            },
    {
        match self {
            FilesystemRequestKind::Roots => Some(FS_ROOTS_RESULT_TYPE),
            FilesystemRequestKind::List => Some(FS_LIST_RESULT_TYPE),
            FilesystemRequestKind::Stat => Some(FS_STAT_RESULT_TYPE),
            FilesystemRequestKind::Download => None,
            FilesystemRequestKind::Upload => Some(FS_UPLOAD_READY_TYPE),
        }
    }
}

/// Where an authorised upload goes: the directory and the file in it.
#[derive(Debug, Clone)]
pub struct FilesystemUploadDestination {
    pub parent: String,
    pub target: String,
}

/// An upload a peer was authorised to make.
pub struct PendingUploadView {
    pub device: Seq<char>,
    pub route: Seq<char>,
    pub parent: Seq<char>,
    pub target: Seq<char>,
}

struct PendingUpload {
    request_id: String,
    device_id: String,
    route: String,
    destination: FilesystemUploadDestination,
}

spec fn upload_entries(v: Seq<PendingUpload>) -> Seq<(Seq<char>, PendingUploadView)> {
    v.map_values(
        |u: PendingUpload|
            (
                u.request_id@,
                PendingUploadView {
                    device: u.device_id@,
                    route: u.route@,
                    parent: u.destination.parent@,
                    target: u.destination.target@,
                },
            ),
    )
}

/// The uploads peers were authorised to make, by request id.
pub struct PendingFilesystemUploads {
    entries: Vec<PendingUpload>,
}

impl View for PendingFilesystemUploads {
    type V = Map<Seq<char>, PendingUploadView>;

    closed spec fn view(&self) -> Map<Seq<char>, PendingUploadView> {
        entries_map(upload_entries(self.entries@))
    }
}

/// Whether some pending upload goes to `target`.
pub open spec fn target_reserved(m: Map<Seq<char>, PendingUploadView>, target: Seq<char>) -> bool {
    exists|k: Seq<char>| m.contains_key(k) && (#[trigger] m[k]).target == target
}

/// The text of an optional string.
pub open spec fn opt_text(s: Option<&str>) -> Option<Seq<char>> {
    match s {
        Some(v) => Some(v@),
        None => None,
    }
}

/// Whether an upload goes over `route` (and belongs to `device`, when given).
pub open spec fn upload_matches(u: PendingUploadView, device: Option<Seq<char>>, route: Seq<char>) -> bool {
    u.route == route && match device {
        Some(d) => u.device == d,
        None => true,
    }
}

/// `m` without the uploads for which `drop` holds.
pub open spec fn uploads_without(
    m: Map<Seq<char>, PendingUploadView>,
    drop: spec_fn(PendingUploadView) -> bool,
) -> Map<Seq<char>, PendingUploadView> {
    Map::new(|k: Seq<char>| m.contains_key(k) && !drop(m[k]), |k: Seq<char>| m[k])
}

impl PendingFilesystemUploads {
    /// Request ids are unique, and no two uploads go to the same file.
    pub closed spec fn wf(&self) -> bool {
        &&& keys_distinct(upload_entries(self.entries@))
        &&& forall|i: int, j: int|
            0 <= i < self.entries@.len() && 0 <= j < self.entries@.len() && i != j ==> (
            #[trigger] self.entries@[i]).destination.target@ != (#[trigger] self.entries@[j]).destination.target@
    }

    /// No two pending uploads go to the same file.
    pub proof fn lemma_targets_unique(&self, a: Seq<char>, b: Seq<char>)
        requires
            self.wf(),
            self@.contains_key(a),
            self@.contains_key(b),
            a != b,
        ensures
            self@[a].target != self@[b].target,
    {
        let e = upload_entries(self.entries@);
        let i = choose|i: int| 0 <= i < e.len() && e[i].0 == a;
        let j = choose|j: int| 0 <= j < e.len() && e[j].0 == b;
        lemma_entries_lookup(e, i);
        lemma_entries_lookup(e, j);
        assert(e[i].1.target == self.entries@[i].destination.target@);
        assert(e[j].1.target == self.entries@[j].destination.target@);
    }

    /// No uploads.
    pub fn new() -> (r: Self)
        ensures
            r.wf(),
            r@ == Map::<Seq<char>, PendingUploadView>::empty(),
    {
        let r = PendingFilesystemUploads { entries: Vec::new() };
        proof {
            assert(r@ =~= Map::<Seq<char>, PendingUploadView>::empty());
        }
        r
    }

    fn find(&self, request_id: &str) -> (r: Option<usize>)
        requires
            self.wf(),
        ensures
            match r {
                Some(i) => i < self.entries@.len() && self.entries@[i as int].request_id@ == request_id@
                    && self@.contains_key(request_id@) && self@[request_id@] == upload_entries(
                    self.entries@,
                )[i as int].1,
                None => !self@.contains_key(request_id@),
            },
    {
        let mut i: usize = 0;
        while i < self.entries.len()
            invariant
                self.wf(),
                i <= self.entries@.len(),
                forall|j: int| 0 <= j < i ==> self.entries@[j].request_id@ != request_id@,
            decreases self.entries@.len() - i,
        {
            if str_eq(self.entries[i].request_id.as_str(), request_id) {
                proof {
                    lemma_entries_lookup(upload_entries(self.entries@), i as int);
                }
                return Some(i);
            }
            i = i + 1;
        }
        proof {
            let e = upload_entries(self.entries@);
            assert forall|j: int| 0 <= j < e.len() implies (#[trigger] e[j]).0 != request_id@ by {
                assert(e[j].0 == self.entries@[j].request_id@);
            }
        }
        None
    }

    fn drop_at(&mut self, i: usize) -> (r: PendingUpload)
        requires
            old(self).wf(),
            i < old(self).entries@.len(),
        ensures
            final(self).wf(),
            r == old(self).entries@[i as int],
            final(self).entries@ == old(self).entries@.remove(i as int),
            final(self)@ == old(self)@.remove(old(self).entries@[i as int].request_id@),
    {
        proof {
            lemma_entries_remove(upload_entries(self.entries@), i as int);
            assert(upload_entries(self.entries@.remove(i as int)) =~= upload_entries(self.entries@).remove(
                i as int,
            ));
        }
        let r = self.entries.remove(i);
        proof {
            assert forall|a: int, b: int|
                0 <= a < self.entries@.len() && 0 <= b < self.entries@.len() && a != b implies (
                #[trigger] self.entries@[a]).destination.target@ != (
                #[trigger] self.entries@[b]).destination.target@ by {
                let oa = if a < i { a } else { a + 1 };
                let ob = if b < i { b } else { b + 1 };
                assert(self.entries@[a] == old(self).entries@[oa]);
                assert(self.entries@[b] == old(self).entries@[ob]);
            }
        }
        r
    }

    /// Authorises upload `request_id` from `device_id` over `route` to
    /// `destination`, unless another pending upload goes to the same file.
    pub fn reserve(&mut self, device_id: &str, route: &str, request_id: &str, destination: FilesystemUploadDestination) -> (r: bool)
        requires
            old(self).wf(),
        ensures
            final(self).wf(),
            r == !target_reserved(old(self)@, destination.target@),
            r ==> final(self)@ == old(self)@.insert(
                request_id@,
                PendingUploadView {
                    device: device_id@,
                    route: route@,
                    parent: destination.parent@,
                    target: destination.target@,
                },
            ),
            !r ==> final(self)@ == old(self)@,
    {
        let n = self.entries.len();
        let mut i: usize = 0;
        while i < n
            invariant
                self.wf(),
                n == self.entries@.len(),
                i <= n,
                forall|j: int| 0 <= j < i ==> self.entries@[j].destination.target@ != destination.target@,
            decreases n - i,
        {
            if str_eq(self.entries[i].destination.target.as_str(), destination.target.as_str()) {
                proof {
                    let e = upload_entries(self.entries@);
                    lemma_entries_lookup(e, i as int);
                    assert(self@[e[i as int].0].target == destination.target@);
                }
                return false;
            }
            i = i + 1;
        }
        proof {
            let e = upload_entries(self.entries@);
            assert(!target_reserved(self@, destination.target@)) by {
                if target_reserved(self@, destination.target@) {
                    let k = choose|k: Seq<char>| self@.contains_key(k) && (#[trigger] self@[k]).target == destination.target@;
                    let j = choose|j: int| 0 <= j < e.len() && e[j].0 == k;
                    lemma_entries_lookup(e, j);
                    assert(e[j].1.target == self.entries@[j].destination.target@);
                }
            }
        }
        let ghost orig = self.entries@;
        match self.find(request_id) {
            Some(k) => {
                self.drop_at(k);
                proof {
                    assert forall|a: int| 0 <= a < self.entries@.len() implies self.entries@[a].destination.target@
                        != destination.target@ by {
                        let oa = if a < k { a } else { a + 1 };
                        assert(self.entries@[a] == orig[oa]);
                    }
                }
            },
            None => {},
        }
        assert(!self@.contains_key(request_id@));
        let ghost before = upload_entries(self.entries@);
        let ghost prev = self.entries@;
        let entry = PendingUpload {
            request_id: request_id.to_owned(),
            device_id: device_id.to_owned(),
            route: route.to_owned(),
            destination,
        };
        let ghost pushed = entry;
        let ghost view = PendingUploadView {
            device: device_id@,
            route: route@,
            parent: pushed.destination.parent@,
            target: pushed.destination.target@,
        };
        proof {
            lemma_entries_push(before, request_id@, view);
        }
        self.entries.push(entry);
        proof {
            assert(upload_entries(self.entries@) =~= before.push((request_id@, view)));
            assert forall|a: int, b: int|
                0 <= a < self.entries@.len() && 0 <= b < self.entries@.len() && a != b implies (
                #[trigger] self.entries@[a]).destination.target@ != (
                #[trigger] self.entries@[b]).destination.target@ by {
                if a < prev.len() && b < prev.len() {
                    assert(self.entries@[a] == prev[a] && self.entries@[b] == prev[b]);
                } else if a < prev.len() {
                    assert(self.entries@[a] == prev[a]);
                } else {
                    assert(self.entries@[b] == prev[b]);
                }
            }
        }
        true
    }

    /// Forgets upload `request_id`.
    pub fn remove(&mut self, request_id: &str)
        requires
            old(self).wf(),
        ensures
            final(self).wf(),
            final(self)@ == old(self)@.remove(request_id@),
    {
        match self.find(request_id) {
            Some(i) => {
                self.drop_at(i);
            },
            None => {
                proof {
                    assert(self@ =~= self@.remove(request_id@));
                }
            },
        }
    }

    /// Takes the destination of the upload a message from `device_id`
    /// answers (by its correlation id), if that device was authorised.
    pub fn consume(&mut self, device_id: &str, correlation_id: Option<&str>) -> (r: Option<FilesystemUploadDestination>)
        requires
            old(self).wf(),
        ensures
            final(self).wf(),
            match correlation_id {
                Some(id) => if old(self)@.contains_key(id@) && old(self)@[id@].device == device_id@ {
                    final(self)@ == old(self)@.remove(id@) && (r matches Some(d) && d.parent@
                        == old(self)@[id@].parent && d.target@ == old(self)@[id@].target)
                } else {
                    r is None && final(self)@ == old(self)@
                },
                None => r is None && final(self)@ == old(self)@,
            },
    {
        let request_id = match correlation_id {
            Some(id) => id,
            None => return None,
        };
        let i = match self.find(request_id) {
            Some(i) => i,
            None => return None,
        };
        if !str_eq(self.entries[i].device_id.as_str(), device_id) {
            return None;
        }
        let taken = self.drop_at(i);
        Some(taken.destination)
    }

    /// Forgets the uploads over `route` (of `device_id`, when given).
    fn retain_where(&mut self, device_id: Option<&str>, route: &str)
        requires
            old(self).wf(),
        ensures
            final(self).wf(),
            final(self)@ == uploads_without(
                old(self)@,
                |u: PendingUploadView| upload_matches(u, opt_text(device_id), route@),
            ),
    {
        let ghost start = self@;
        let ghost dv = opt_text(device_id);
        let mut i: usize = 0;
        proof {
            assert(uploads_without(self@, |u: PendingUploadView| upload_matches(u, dv, route@))
                =~= uploads_without(start, |u: PendingUploadView| upload_matches(u, dv, route@)));
        }
        while i < self.entries.len()
            invariant
                self.wf(),
                dv == opt_text(device_id),
                i <= self.entries@.len(),
                forall|j: int|
                    0 <= j < i ==> !upload_matches(#[trigger] upload_entries(self.entries@)[j].1, dv, route@),
                uploads_without(self@, |u: PendingUploadView| upload_matches(u, dv, route@))
                    == uploads_without(start, |u: PendingUploadView| upload_matches(u, dv, route@)),
                forall|k: Seq<char>| #[trigger] self@.contains_key(k) ==> start.contains_key(k) && self@[k]
                    == start[k],
            decreases self.entries@.len() - i,
        {
            let same_route = str_eq(self.entries[i].route.as_str(), route);
            let same_device = match device_id {
                Some(d) => str_eq(self.entries[i].device_id.as_str(), d),
                None => true,
            };
            proof {
                let e = upload_entries(self.entries@);
                assert(e[i as int].1.route == self.entries@[i as int].route@);
                assert(e[i as int].1.device == self.entries@[i as int].device_id@);
                assert(upload_matches(e[i as int].1, dv, route@) == (same_route && same_device));
            }
            if same_route && same_device {
                let ghost before = self@;
                let ghost old_entries = self.entries@;
                proof {
                    lemma_entries_lookup(upload_entries(self.entries@), i as int);
                }
                self.drop_at(i);
                proof {
                    assert(uploads_without(self@, |u: PendingUploadView| upload_matches(u, dv, route@))
                        =~= uploads_without(before, |u: PendingUploadView| upload_matches(u, dv, route@)));
                    assert forall|j: int| 0 <= j < i implies !upload_matches(
                        #[trigger] upload_entries(self.entries@)[j].1,
                        dv,
                        route@,
                    ) by {
                        assert(self.entries@[j] == old_entries[j]);
                        assert(upload_entries(old_entries)[j].1 == upload_entries(self.entries@)[j].1);
                    }
                }
            } else {
                i = i + 1;
            }
        }
        proof {
            let e = upload_entries(self.entries@);
            assert forall|k: Seq<char>| #[trigger] self@.contains_key(k) implies !upload_matches(self@[k], dv, route@) by {
                let j = choose|j: int| 0 <= j < e.len() && e[j].0 == k;
                lemma_entries_lookup(e, j);
            }
            assert(self@ =~= uploads_without(self@, |u: PendingUploadView| upload_matches(u, dv, route@)));
        }
    }

    /// Forgets the uploads of `device_id` over `route`.
    pub fn clear(&mut self, device_id: &str, route: &str)
        requires
            old(self).wf(),
        ensures
            final(self).wf(),
            final(self)@ == uploads_without(old(self)@, |u: PendingUploadView| u.route == route@ && u.device == device_id@),
    {
        self.retain_where(Some(device_id), route);
        proof {
            assert(self@ =~= uploads_without(
                old(self)@,
                |u: PendingUploadView| u.route == route@ && u.device == device_id@,
            ));
        }
    }

    /// Forgets every upload over `route`.
    pub fn clear_for_route(&mut self, route: &str)
        requires
            old(self).wf(),
        ensures
            final(self).wf(),
            final(self)@ == uploads_without(old(self)@, |u: PendingUploadView| u.route == route@),
    {
        self.retain_where(None, route);
        proof {
            assert(self@ =~= uploads_without(old(self)@, |u: PendingUploadView| u.route == route@));
        }
    }
}

// ---------------------------------------------------------------------------
// Listing entries
// ---------------------------------------------------------------------------

/// What a filesystem object is, as a listing names it: a link, a directory,
/// a file or something else, in that order of precedence.
pub open spec fn kind_name(is_symlink: bool, is_dir: bool, is_file: bool) -> Seq<char> {
    if is_symlink {
        "symlink"@
    } else if is_dir {
        "directory"@
    } else if is_file {
        "file"@
    } else {
        "other"@
    }
}

/// Whether `name` marks a hidden entry where hiding goes by name: it starts
/// with a dot.
pub fn hidden_by_name(name: &str) -> (r: bool)
    ensures
        r == (name@.len() > 0 && name@[0] == '.'),
{
    let chars = chars_of(name);
    chars.len() > 0 && chars[0] == '.'
}

/// The listing entry of the object `name`, of the given file type, length,
/// times and read-only flag; `hidden` as the system tells. Only a file
/// carries a size, when its length fits in `i64`.
pub fn listing_entry(
    name: String,
    is_symlink: bool,
    is_dir: bool,
    is_file: bool,
    len: u64,
    modified: Option<i64>,
    created: Option<i64>,
    readonly: bool,
    hidden: bool,
) -> (r: FsEntry)
    ensures
        r.name@ == name@,
        r.kind@ == kind_name(is_symlink, is_dir, is_file),
        r.size == (if is_file && len <= i64::MAX as u64 {
            Some(len as i64)
        } else {
            None::<i64>
        }),
        r.modified == modified,
        r.created == created,
        r.readonly == readonly,
        r.hidden == hidden,
{
    let kind = if is_symlink {
        "symlink"
    } else if is_dir {
        "directory"
    } else if is_file {
        "file"
    } else {
        "other"
    };
    let size = if is_file && len <= i64::MAX as u64 {
        Some(len as i64)
    } else {
        None
    };
    FsEntry { name, kind: kind.to_owned(), size, modified, created, readonly, hidden }
}

} // verus!
