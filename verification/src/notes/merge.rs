use vstd::prelude::*;

use similar::{ChangeTag as C, DiffTag as D, TextDiff};

use crate::text::{chars_of, split, split_chars, str_eq, string_of};

verus! {

// ---------------------------------------------------------------------------
// Scalar fields
// ---------------------------------------------------------------------------

/// Result of a three-way merge of one scalar field.
#[derive(Debug, Clone, PartialEq)]
pub enum FieldMerge {
    /// Both sides agree, or only one side changed.
    Resolved(String),
    /// Both sides changed the field to different values.
    Conflict { local: String, cloud: String },
}

impl FieldMerge {
    /// Whether the merge needs no decision from the user.
    pub fn is_resolved(&self) -> (r: bool)
        ensures
            r == (self is Resolved),
    {
        match self {
            FieldMerge::Resolved(_) => true,
            FieldMerge::Conflict { .. } => false,
        }
    }
}

/// The three-way merge of one field: equal sides agree, an unchanged side
/// loses against a changed side, two different changes conflict.
pub open spec fn field_merge(ancestor: Seq<char>, local: Seq<char>, cloud: Seq<char>) -> Option<
    Seq<char>,
> {
    if local == cloud {
        Some(local)
    } else if local == ancestor {
        Some(cloud)
    } else if cloud == ancestor {
        Some(local)
    } else {
        None
    }
}

/// Three-way merge of a single scalar string field: an unchanged side loses
/// against a changed side; two different changes conflict.
pub fn merge_field(ancestor: &str, local: &str, cloud: &str) -> (r: FieldMerge)
    ensures
        match field_merge(ancestor@, local@, cloud@) {
            Some(v) => r matches FieldMerge::Resolved(s) && s@ == v,
            None => r matches FieldMerge::Conflict { local: l, cloud: c } && l@ == local@ && c@
                == cloud@,
        },
{
    let a = ancestor.to_owned();
    let l = local.to_owned();
    let c = cloud.to_owned();
    if l == c {
        return FieldMerge::Resolved(l);
    }
    if l == a {
        return FieldMerge::Resolved(c);
    }
    if c == a {
        return FieldMerge::Resolved(l);
    }
    FieldMerge::Conflict { local: l, cloud: c }
}

/// Merging with the sides swapped gives the same resolution, or the same
/// conflict with its sides swapped.
pub proof fn lemma_field_merge_symmetric(ancestor: Seq<char>, local: Seq<char>, cloud: Seq<char>)
    ensures
        field_merge(ancestor, local, cloud) == field_merge(ancestor, cloud, local),
{
}

// ---------------------------------------------------------------------------
// Id sets
// ---------------------------------------------------------------------------

/// Lexicographic order of character sequences by code point, which is the
/// order `String`'s `Ord` gives (UTF-8 bytes compare as their code points).
pub open spec fn chars_lt(a: Seq<char>, b: Seq<char>) -> bool
    decreases a.len(),
{
    if b.len() == 0 {
        false
    } else if a.len() == 0 {
        true
    } else if a[0] != b[0] {
        a[0] < b[0]
    } else {
        chars_lt(a.drop_first(), b.drop_first())
    }
}

/// `chars_lt` is irreflexive.
pub proof fn lemma_chars_lt_irreflexive(a: Seq<char>)
    ensures
        !chars_lt(a, a),
    decreases a.len(),
{
    if a.len() > 0 {
        lemma_chars_lt_irreflexive(a.drop_first());
    }
}

/// `chars_lt` is transitive.
pub proof fn lemma_chars_lt_transitive(a: Seq<char>, b: Seq<char>, c: Seq<char>)
    requires
        chars_lt(a, b),
        chars_lt(b, c),
    ensures
        chars_lt(a, c),
    decreases a.len(),
{
    if a.len() > 0 && b.len() > 0 && c.len() > 0 && a[0] == b[0] && b[0] == c[0] {
        lemma_chars_lt_transitive(a.drop_first(), b.drop_first(), c.drop_first());
    }
}

/// Two different sequences are ordered one way or the other.
pub proof fn lemma_chars_lt_total(a: Seq<char>, b: Seq<char>)
    requires
        a != b,
    ensures
        chars_lt(a, b) || chars_lt(b, a),
    decreases a.len(),
{
    if a.len() > 0 && b.len() > 0 && a[0] == b[0] {
        if a.drop_first() == b.drop_first() {
            assert(a =~= seq![a[0]] + a.drop_first());
            assert(b =~= seq![b[0]] + b.drop_first());
        }
        lemma_chars_lt_total(a.drop_first(), b.drop_first());
    } else if a.len() == 0 && b.len() == 0 {
        assert(a =~= b);
    }
}

/// Whether `s` is sorted in strictly increasing order (so without repeats).
pub open spec fn strictly_sorted(s: Seq<Seq<char>>) -> bool {
    forall|i: int, j: int| 0 <= i < j < s.len() ==> chars_lt(#[trigger] s[i], #[trigger] s[j])
}

/// The views of a sequence of strings.
pub open spec fn string_views(s: Seq<String>) -> Seq<Seq<char>> {
    s.map_values(|x: String| x@)
}

/// Whether an id survives a three-way set merge: kept by both sides, or
/// added by one side (absent from the ancestor). An id that one side removed
/// stays removed, even if the other side kept it.
pub open spec fn keeps_id(
    ancestor: Seq<Seq<char>>,
    local: Seq<Seq<char>>,
    cloud: Seq<Seq<char>>,
    id: Seq<char>,
) -> bool {
    let in_ancestor = ancestor.contains(id);
    let in_local = local.contains(id);
    let in_cloud = cloud.contains(id);
    if in_local && in_cloud {
        true
    } else if in_local {
        !in_ancestor
    } else if in_cloud {
        !in_ancestor
    } else {
        false
    }
}

/// What a three-way set merge keeps, case by case: an id both sides hold is
/// kept; an id neither side holds is dropped, whatever the ancestor held; an
/// id the ancestor held and one side removed stays removed; an id the
/// ancestor lacked and a side added is kept.
pub proof fn lemma_set_merge_cases(
    ancestor: Seq<Seq<char>>,
    local: Seq<Seq<char>>,
    cloud: Seq<Seq<char>>,
    id: Seq<char>,
)
    ensures
        local.contains(id) && cloud.contains(id) ==> keeps_id(ancestor, local, cloud, id),
        !local.contains(id) && !cloud.contains(id) ==> !keeps_id(ancestor, local, cloud, id),
        ancestor.contains(id) && (!local.contains(id) || !cloud.contains(id)) ==> !keeps_id(
            ancestor,
            local,
            cloud,
            id,
        ),
        !ancestor.contains(id) && (local.contains(id) || cloud.contains(id)) ==> keeps_id(
            ancestor,
            local,
            cloud,
            id,
        ),
{
}

/// Code-point lexicographic comparison of two strings.
pub fn string_lt(a: &String, b: &String) -> (r: bool)
    ensures
        r == chars_lt(a@, b@),
{
    let x = chars_of(a.as_str());
    let y = chars_of(b.as_str());
    let mut i: usize = 0;
    proof {
        assert(a@.skip(0) =~= a@);
        assert(b@.skip(0) =~= b@);
    }
    while i < x.len() && i < y.len() && x[i] == y[i]
        invariant
            i <= x@.len(),
            i <= y@.len(),
            x@ == a@,
            y@ == b@,
            chars_lt(a@, b@) == chars_lt(a@.skip(i as int), b@.skip(i as int)),
        decreases x@.len() - i,
    {
        proof {
            assert(a@.skip(i as int).drop_first() =~= a@.skip(i + 1));
            assert(b@.skip(i as int).drop_first() =~= b@.skip(i + 1));
        }
        i = i + 1;
    }
    if i == y.len() {
        false
    } else if i == x.len() {
        true
    } else {
        x[i] < y[i]
    }
}

pub(crate) fn contains_string(items: &[String], id: &String) -> (r: bool)
    ensures
        r == string_views(items@).contains(id@),
{
    let mut i: usize = 0;
    while i < items.len()
        invariant
            i <= items@.len(),
            forall|j: int| 0 <= j < i ==> items@[j]@ != id@,
        decreases items@.len() - i,
    {
        if items[i] == *id {
            proof {
                assert(string_views(items@)[i as int] == id@);
            }
            return true;
        }
        i = i + 1;
    }
    proof {
        if string_views(items@).contains(id@) {
            let k = choose|k: int| 0 <= k < string_views(items@).len() && string_views(items@)[k] == id@;
            assert(items@[k]@ == id@);
        }
    }
    false
}

/// Inserts `id` into a strictly sorted vector that does not hold it.
pub(crate) fn insert_sorted(sorted: &mut Vec<String>, id: String)
    requires
        strictly_sorted(string_views(old(sorted)@)),
        !string_views(old(sorted)@).contains(id@),
    ensures
        strictly_sorted(string_views(final(sorted)@)),
        forall|x: Seq<char>|
            string_views(final(sorted)@).contains(x) <==> (string_views(old(sorted)@).contains(x)
                || x == id@),
{
    let ghost before = string_views(sorted@);
    let mut k: usize = 0;
    while k < sorted.len() && string_lt(&sorted[k], &id)
        invariant
            k <= sorted@.len(),
            sorted@ == old(sorted)@,
            before == string_views(sorted@),
            forall|j: int| 0 <= j < k ==> chars_lt(#[trigger] before[j], id@),
        decreases sorted@.len() - k,
    {
        k = k + 1;
    }
    proof {
        if k < sorted@.len() {
            assert(before[k as int] != id@) by {
                assert(before.contains(before[k as int]));
            }
            lemma_chars_lt_total(before[k as int], id@);
        }
        assert forall|j: int| k <= j < before.len() implies chars_lt(id@, #[trigger] before[j]) by {
            if j > k {
                lemma_chars_lt_transitive(id@, before[k as int], before[j]);
            }
        }
    }
    sorted.insert(k, id);
    proof {
        let after = string_views(sorted@);
        assert(after =~= before.insert(k as int, id@));
        assert forall|i: int, j: int| 0 <= i < j < after.len() implies chars_lt(
            #[trigger] after[i],
            #[trigger] after[j],
        ) by {
            if j < k {
                assert(after[i] == before[i]);
                assert(after[j] == before[j]);
            } else if j == k {
                assert(after[i] == before[i]);
            } else if i < k {
                assert(after[i] == before[i]);
                assert(after[j] == before[j - 1]);
                assert(chars_lt(before[i], id@));
                assert(chars_lt(id@, before[j - 1]));
                lemma_chars_lt_transitive(before[i], id@, before[j - 1]);
            } else if i == k {
                assert(after[j] == before[j - 1]);
            } else {
                assert(after[i] == before[i - 1]);
                assert(after[j] == before[j - 1]);
            }
        }
        assert forall|x: Seq<char>| after.contains(x) <==> (before.contains(x) || x == id@) by {
            if after.contains(x) {
                let i = choose|i: int| 0 <= i < after.len() && after[i] == x;
                if i < k {
                    assert(before[i] == x);
                } else if i > k {
                    assert(before[i - 1] == x);
                }
            }
            if before.contains(x) {
                let i = choose|i: int| 0 <= i < before.len() && before[i] == x;
                if i < k {
                    assert(after[i] == x);
                } else {
                    assert(after[i + 1] == x);
                }
            }
            if x == id@ {
                assert(after[k as int] == x);
            }
        }
    }
}

/// Three-way merge of the tag or attachment id sets: additions from either
/// side are kept, removals are honored even when the other side kept the
/// entry. Set merges are always resolvable. The result is sorted and holds no
/// id twice.
pub fn merge_set(ancestor: &[String], local: &[String], cloud: &[String]) -> (r: Vec<String>)
    ensures
        strictly_sorted(string_views(r@)),
        forall|id: Seq<char>|
            string_views(r@).contains(id) <==> keeps_id(
                string_views(ancestor@),
                string_views(local@),
                string_views(cloud@),
                id,
            ),
        forall|id: Seq<char>|
            !string_views(local@).contains(id) && !string_views(cloud@).contains(id) ==> !string_views(
                r@,
            ).contains(id),
        forall|id: Seq<char>|
            string_views(local@).contains(id) && string_views(cloud@).contains(id) ==> string_views(
                r@,
            ).contains(id),
{
    let ghost a = string_views(ancestor@);
    let ghost l = string_views(local@);
    let ghost c = string_views(cloud@);
    let ghost all = a + l + c;
    let mut resolved: Vec<String> = Vec::new();
    let mut pass: usize = 0;
    while pass < 3
        invariant
            pass <= 3,
            a == string_views(ancestor@),
            l == string_views(local@),
            c == string_views(cloud@),
            strictly_sorted(string_views(resolved@)),
            forall|id: Seq<char>|
                string_views(resolved@).contains(id) ==> keeps_id(a, l, c, id),
            forall|id: Seq<char>|
                #![trigger keeps_id(a, l, c, id)]
                keeps_id(a, l, c, id) && (
                    (pass >= 1 && a.contains(id)) || (pass >= 2 && l.contains(id)) || (pass >= 3
                        && c.contains(id))) ==> string_views(resolved@).contains(id),
        decreases 3 - pass,
    {
        let source: &[String] = if pass == 0 {
            ancestor
        } else if pass == 1 {
            local
        } else {
            cloud
        };
        let ghost s = string_views(source@);
        let mut i: usize = 0;
        while i < source.len()
            invariant
                i <= source@.len(),
                pass < 3,
                s == string_views(source@),
                s == (if pass == 0 {
                    a
                } else if pass == 1 {
                    l
                } else {
                    c
                }),
                a == string_views(ancestor@),
                l == string_views(local@),
                c == string_views(cloud@),
                strictly_sorted(string_views(resolved@)),
                forall|id: Seq<char>|
                    string_views(resolved@).contains(id) ==> keeps_id(a, l, c, id),
                forall|id: Seq<char>|
                    #![trigger keeps_id(a, l, c, id)]
                    keeps_id(a, l, c, id) && (
                        (pass >= 1 && a.contains(id)) || (pass >= 2 && l.contains(id)) || (pass
                            >= 3 && c.contains(id)) || s.take(i as int).contains(id))
                        ==> string_views(resolved@).contains(id),
            decreases source@.len() - i,
        {
            let id = &source[i];
            proof {
                assert(s[i as int] == id@);
                assert forall|x: Seq<char>| s.take(i + 1).contains(x) implies s.take(
                    i as int,
                ).contains(x) || x == id@ by {
                    let k = choose|k: int| 0 <= k < i + 1 && #[trigger] s.take(i + 1)[k] == x;
                    if k < i {
                        assert(s.take(i as int)[k] == x);
                    }
                }
            }
            if !contains_string(resolved.as_slice(), id) {
                let in_ancestor = contains_string(ancestor, id);
                let in_local = contains_string(local, id);
                let in_cloud = contains_string(cloud, id);
                let keep = if in_local && in_cloud {
                    true
                } else if in_local {
                    !in_ancestor
                } else if in_cloud {
                    !in_ancestor
                } else {
                    false
                };
                if keep {
                    insert_sorted(&mut resolved, id.clone());
                }
            }
            i = i + 1;
        }
        proof {
            assert(s.take(source@.len() as int) =~= s);
        }
        pass = pass + 1;
    }
    proof {
        assert forall|id: Seq<char>| keeps_id(a, l, c, id) implies string_views(
            resolved@,
        ).contains(id) by {
            assert(l.contains(id) || c.contains(id));
        }
        assert forall|id: Seq<char>|
            (!l.contains(id) && !c.contains(id)) || (l.contains(id) && c.contains(id)) implies (
            string_views(resolved@).contains(id) <==> keeps_id(a, l, c, id)) && (!l.contains(id)
            && !c.contains(id) ==> !keeps_id(a, l, c, id)) && (l.contains(id) && c.contains(id)
            ==> keeps_id(a, l, c, id)) by {
            lemma_set_merge_cases(a, l, c, id);
        }
    }
    resolved
}

/// Two strictly sorted sequences with the same elements are equal.
pub proof fn lemma_strictly_sorted_unique(x: Seq<Seq<char>>, y: Seq<Seq<char>>)
    requires
        strictly_sorted(x),
        strictly_sorted(y),
        forall|e: Seq<char>| x.contains(e) <==> y.contains(e),
    ensures
        x == y,
    decreases x.len() + y.len(),
{
    if x.len() == 0 || y.len() == 0 {
        if x.len() > 0 {
            assert(x.contains(x[0]));
        }
        if y.len() > 0 {
            assert(y.contains(y[0]));
        }
        assert(x =~= y);
    } else {
        // the smallest elements coincide
        assert(x.contains(x[0]));
        assert(y.contains(y[0]));
        let i = choose|i: int| 0 <= i < y.len() && y[i] == x[0];
        let j = choose|j: int| 0 <= j < x.len() && x[j] == y[0];
        if i > 0 {
            if j > 0 {
                lemma_chars_lt_transitive(y[0], x[0], y[0]);
                lemma_chars_lt_irreflexive(y[0]);
            } else {
                lemma_chars_lt_irreflexive(y[0]);
            }
        }
        assert(x[0] == y[0]);
        let xs = x.drop_first();
        let ys = y.drop_first();
        assert forall|e: Seq<char>| xs.contains(e) <==> ys.contains(e) by {
            if xs.contains(e) {
                let k = choose|k: int| 0 <= k < xs.len() && xs[k] == e;
                assert(x[k + 1] == e);
                assert(chars_lt(x[0], e));
                lemma_chars_lt_irreflexive(e);
                assert(y.contains(e));
                let m = choose|m: int| 0 <= m < y.len() && y[m] == e;
                assert(m != 0);
                assert(ys[m - 1] == e);
            }
            if ys.contains(e) {
                let k = choose|k: int| 0 <= k < ys.len() && ys[k] == e;
                assert(y[k + 1] == e);
                assert(chars_lt(y[0], e));
                lemma_chars_lt_irreflexive(e);
                assert(x.contains(e));
                let m = choose|m: int| 0 <= m < x.len() && x[m] == e;
                assert(m != 0);
                assert(xs[m - 1] == e);
            }
        }
        assert(strictly_sorted(xs));
        assert(strictly_sorted(ys));
        lemma_strictly_sorted_unique(xs, ys);
        assert(x =~= seq![x[0]] + xs);
        assert(y =~= seq![y[0]] + ys);
    }
}

/// Which side is called local and which cloud does not change a set merge:
/// any two results that the contract of `merge_set` allows for
/// `(ancestor, local, cloud)` and `(ancestor, cloud, local)` are equal.
pub proof fn lemma_merge_set_symmetric(
    ancestor: Seq<Seq<char>>,
    local: Seq<Seq<char>>,
    cloud: Seq<Seq<char>>,
    r1: Seq<Seq<char>>,
    r2: Seq<Seq<char>>,
)
    requires
        strictly_sorted(r1),
        strictly_sorted(r2),
        forall|id: Seq<char>| r1.contains(id) <==> keeps_id(ancestor, local, cloud, id),
        forall|id: Seq<char>| r2.contains(id) <==> keeps_id(ancestor, cloud, local, id),
    ensures
        r1 == r2,
{
    assert forall|e: Seq<char>| r1.contains(e) <==> r2.contains(e) by {
        assert(keeps_id(ancestor, local, cloud, e) == keeps_id(ancestor, cloud, local, e));
    }
    lemma_strictly_sorted_unique(r1, r2);
}

} // verus!

verus! {

// ---------------------------------------------------------------------------
// Markdown text
// ---------------------------------------------------------------------------

/// `line` without a trailing carriage return.
pub open spec fn strip_cr(line: Seq<char>) -> Seq<char> {
    if line.len() > 0 && line.last() == '\r' {
        line.drop_last()
    } else {
        line
    }
}

/// The lines of `s` as `str::lines` yields them: split at `\n`, a `\r`
/// before a `\n` removed, and no empty line after a final `\n`.
pub open spec fn text_lines(s: Seq<char>) -> Seq<Seq<char>> {
    let parts = split(s, '\n');
    let head = Seq::new((parts.len() - 1) as nat, |i: int| strip_cr(parts[i]));
    if parts.last().len() == 0 {
        head
    } else {
        head.push(parts.last())
    }
}

/// `value` without one trailing `\n` and then without one trailing `\r`.
pub open spec fn strip_terminator(value: Seq<char>) -> Seq<char> {
    let without_newline = if value.len() > 0 && value.last() == '\n' {
        value.drop_last()
    } else {
        value
    };
    strip_cr(without_newline)
}

/// `lines` joined with `\n` between neighbours.
pub open spec fn join_lines(lines: Seq<Seq<char>>) -> Seq<char>
    decreases lines.len(),
{
    if lines.len() == 0 {
        Seq::empty()
    } else if lines.len() == 1 {
        lines[0]
    } else {
        join_lines(lines.drop_last()) + seq!['\n'] + lines.last()
    }
}

/// The kind of one operation of a line diff.
#[derive(Debug, Clone, Copy, PartialEq, Eq, Structural)]
pub enum DiffOpKind {
    Equal,
    Delete,
    Insert,
    Replace,
}

/// The kind of one changed line of a diff operation.
#[derive(Debug, Clone, Copy, PartialEq, Eq, Structural)]
pub enum LineChangeKind {
    Equal,
    Delete,
    Insert,
}

/// One line that a diff operation keeps, deletes or inserts, with its line
/// terminator.
#[derive(Debug, Clone)]
pub struct LineChange {
    pub kind: LineChangeKind,
    pub value: String,
}

/// One operation of a line diff: its kind, the range of ancestor lines it
/// covers and the lines it touches.
#[derive(Debug, Clone)]
pub struct LineDiffOp {
    pub kind: DiffOpKind,
    pub old_start: usize,
    pub old_end: usize,
    pub changes: Vec<LineChange>,
}

/// A diff operation as plain values.
pub type LineDiffOpView = (DiffOpKind, usize, usize, Seq<(LineChangeKind, Seq<char>)>);

impl View for LineDiffOp {
    type V = LineDiffOpView;

    open spec fn view(&self) -> LineDiffOpView {
        (
            self.kind,
            self.old_start,
            self.old_end,
            self.changes@.map_values(|c: LineChange| (c.kind, c.value@)),
        )
    }
}

/// The views of a sequence of diff operations.
pub open spec fn op_views(ops: Seq<LineDiffOp>) -> Seq<LineDiffOpView> {
    ops.map_values(|op: LineDiffOp| op@)
}

/// The operations of the line diff from `old` to `new` that
/// `similar::TextDiff::configure().diff_lines` computes.
pub uninterp spec fn line_diff(old: Seq<char>, new: Seq<char>) -> Seq<LineDiffOpView>;

/// Calls `similar::TextDiff::configure().diff_lines(old, new)` and lists its
/// operations with their kinds, ancestor line ranges and changes.
/// Claims: the result is `line_diff(old@, new@)`; nothing more is said of it.
#[verifier::external_body]
fn diff_lines(old: &str, new: &str) -> (ops: Vec<LineDiffOp>)
    ensures
        op_views(ops@) == line_diff(old@, new@),
{
    let diff = TextDiff::configure().diff_lines(old, new);
    let ops = diff.ops().iter().map(|op| LineDiffOp {
        kind: match op.tag() {
            D::Equal => DiffOpKind::Equal,
            D::Delete => DiffOpKind::Delete,
            D::Insert => DiffOpKind::Insert,
            D::Replace => DiffOpKind::Replace,
        },
        old_start: op.old_range().start,
        old_end: op.old_range().end,
        changes: diff.iter_changes(op).map(|c| LineChange { kind: match c.tag() {
            C::Equal => LineChangeKind::Equal, C::Delete => LineChangeKind::Delete,
            C::Insert => LineChangeKind::Insert }, value: c.value().to_string() }).collect(),
    });
    ops.collect()
}

/// A change to the ancestor: the lines `start..end` are replaced by
/// `replacement`.
#[derive(Debug, Clone, PartialEq, Eq)]
pub struct Hunk {
    pub start: usize,
    pub end: usize,
    pub replacement: Vec<String>,
}

/// A hunk as plain values.
pub type HunkView = (usize, usize, Seq<Seq<char>>);

impl View for Hunk {
    type V = HunkView;

    open spec fn view(&self) -> HunkView {
        (self.start, self.end, string_views(self.replacement@))
    }
}

/// The views of a sequence of hunks.
pub open spec fn hunk_views(hunks: Seq<Hunk>) -> Seq<HunkView> {
    hunks.map_values(|h: Hunk| h@)
}

/// The inserted lines of a diff operation, without their terminators.
pub open spec fn inserted_lines(changes: Seq<(LineChangeKind, Seq<char>)>) -> Seq<Seq<char>>
    decreases changes.len(),
{
    if changes.len() == 0 {
        Seq::empty()
    } else {
        let rest = inserted_lines(changes.drop_last());
        if changes.last().0 == LineChangeKind::Insert {
            rest.push(strip_terminator(changes.last().1))
        } else {
            rest
        }
    }
}

/// The hunks of a diff, in the order of its operations: one per operation
/// that is not `Equal`.
pub open spec fn hunks_of_ops(ops: Seq<LineDiffOpView>) -> Seq<HunkView>
    decreases ops.len(),
{
    if ops.len() == 0 {
        Seq::empty()
    } else {
        let rest = hunks_of_ops(ops.drop_last());
        let op = ops.last();
        if op.0 == DiffOpKind::Equal {
            rest
        } else {
            rest.push((op.1, op.2, inserted_lines(op.3)))
        }
    }
}

/// Whether `a` sorts no later than `b` by (start, end).
pub open spec fn hunk_key_le(a: HunkView, b: HunkView) -> bool {
    a.0 < b.0 || (a.0 == b.0 && a.1 <= b.1)
}

/// `h` inserted into `sorted` after every element whose key is not greater.
pub open spec fn insert_by_key(sorted: Seq<HunkView>, h: HunkView) -> Seq<HunkView>
    decreases sorted.len(),
{
    if sorted.len() == 0 {
        seq![h]
    } else if hunk_key_le(sorted.last(), h) {
        sorted.push(h)
    } else {
        insert_by_key(sorted.drop_last(), h).push(sorted.last())
    }
}

/// The stable sort of `hunks` by (start, end).
pub open spec fn sort_hunks(hunks: Seq<HunkView>) -> Seq<HunkView>
    decreases hunks.len(),
{
    if hunks.len() == 0 {
        hunks
    } else {
        insert_by_key(sort_hunks(hunks.drop_last()), hunks.last())
    }
}

/// Whether two hunks touch the same ancestor region; two insertions conflict
/// only at the same position.
pub open spec fn hunks_overlap_spec(left: HunkView, right: HunkView) -> bool {
    if left.0 == left.1 && right.0 == right.1 {
        left.0 == right.0
    } else if left.0 == left.1 {
        left.0 >= right.0 && left.0 < right.1
    } else if right.0 == right.1 {
        right.0 >= left.0 && right.0 < left.1
    } else {
        left.0 < right.1 && right.0 < left.1
    }
}

/// The ancestor lines from `position` up to the hunk's start (none when the
/// position is already there), followed by the hunk's replacement.
pub open spec fn hunk_output(ancestor: Seq<Seq<char>>, position: int, hunk: HunkView) -> Seq<Seq<char>> {
    let stop = if (hunk.0 as int) < ancestor.len() {
        hunk.0 as int
    } else {
        ancestor.len() as int
    };
    (if 0 <= position < stop {
        ancestor.subrange(position, stop)
    } else {
        Seq::empty()
    }) + hunk.2
}

/// Walks both sorted hunk lists from `li`, `ci`, at ancestor line
/// `position`: identical hunks are applied once, overlapping hunks are a
/// conflict (`None`), otherwise the hunk that starts first is applied (local
/// on a tie) unless the other one starts before it ends. Gives the lines
/// produced and the final position.
pub open spec fn merge_walk(
    ancestor: Seq<Seq<char>>,
    lh: Seq<HunkView>,
    ch: Seq<HunkView>,
    li: int,
    ci: int,
    position: int,
) -> Option<(Seq<Seq<char>>, int)>
    decreases lh.len() - li + ch.len() - ci,
    when 0 <= li <= lh.len() && 0 <= ci <= ch.len()
{
    if li >= lh.len() && ci >= ch.len() {
        Some((Seq::empty(), position))
    } else if li < lh.len() && ci < ch.len() && lh[li] == ch[ci] {
        match merge_walk(ancestor, lh, ch, li + 1, ci + 1, lh[li].1 as int) {
            Some((rest, p)) => Some((hunk_output(ancestor, position, lh[li]) + rest, p)),
            None => None,
        }
    } else if li < lh.len() && ci < ch.len() && hunks_overlap_spec(lh[li], ch[ci]) {
        None
    } else {
        let take_local = if li >= lh.len() {
            false
        } else if ci >= ch.len() {
            true
        } else {
            lh[li].0 <= ch[ci].0
        };
        if take_local {
            if ci < ch.len() && ch[ci].0 < lh[li].1 {
                None
            } else {
                match merge_walk(ancestor, lh, ch, li + 1, ci, lh[li].1 as int) {
                    Some((rest, p)) => Some((hunk_output(ancestor, position, lh[li]) + rest, p)),
                    None => None,
                }
            }
        } else {
            if li < lh.len() && lh[li].0 < ch[ci].1 {
                None
            } else {
                match merge_walk(ancestor, lh, ch, li, ci + 1, ch[ci].1 as int) {
                    Some((rest, p)) => Some((hunk_output(ancestor, position, ch[ci]) + rest, p)),
                    None => None,
                }
            }
        }
    }
}

/// Whether a sequence ends with a newline.
pub open spec fn ends_with_newline(s: Seq<char>) -> bool {
    s.len() > 0 && s.last() == '\n'
}

/// The merged text for the given hunk lists: `None` on a conflict, otherwise
/// the walked lines and the rest of the ancestor joined with `\n`, with a
/// final newline added when a side (or an unchanged ancestor) ends with one.
pub open spec fn merge_with_hunks_spec(
    ancestor: Seq<char>,
    local: Seq<char>,
    cloud: Seq<char>,
    lh: Seq<HunkView>,
    ch: Seq<HunkView>,
) -> Option<Seq<char>> {
    let lines = text_lines(ancestor);
    match merge_walk(lines, lh, ch, 0, 0, 0) {
        None => None,
        Some((walked, position)) => {
            let tail = if 0 <= position < lines.len() {
                lines.subrange(position, lines.len() as int)
            } else {
                Seq::empty()
            };
            let merged = join_lines(walked + tail);
            let newline = ends_with_newline(local) || ends_with_newline(cloud) || (lh.len() == 0
                && ends_with_newline(ancestor));
            if newline && merged.len() > 0 && merged.last() != '\n' {
                Some(merged.push('\n'))
            } else {
                Some(merged)
            }
        },
    }
}

/// The ancestor's lines with two edits at disjoint places applied: the
/// lines before `first`, its replacement, the lines between the two edits,
/// the replacement of `second`, and every line after `second`.
pub open spec fn with_two_edits(lines: Seq<Seq<char>>, first: HunkView, second: HunkView) -> Seq<Seq<char>> {
    lines.subrange(0, first.0 as int) + first.2 + lines.subrange(first.1 as int, second.0 as int) + second.2
        + lines.subrange(second.1 as int, lines.len() as int)
}

/// Whether `merged` is `lines` joined by line breaks, with or without a
/// final line break.
pub open spec fn joins(merged: Option<Seq<char>>, lines: Seq<Seq<char>>) -> bool {
    merged == Some(join_lines(lines)) || merged == Some(join_lines(lines).push('\n'))
}

/// When one side replaces some ancestor lines and the other side edits
/// lines after them, the merge is the ancestor with both edits applied:
/// every ancestor line outside the two edits stays, in order, including
/// the lines after the last edit. It does not matter which side made which
/// edit.
pub proof fn lemma_disjoint_edits_merge(
    ancestor: Seq<char>,
    local: Seq<char>,
    cloud: Seq<char>,
    first: HunkView,
    second: HunkView,
)
    requires
        first.0 < first.1,
        first.1 <= second.0,
        second.0 <= second.1,
        second.1 <= text_lines(ancestor).len(),
    ensures
        joins(
            merge_with_hunks_spec(ancestor, local, cloud, seq![first], seq![second]),
            with_two_edits(text_lines(ancestor), first, second),
        ),
        joins(
            merge_with_hunks_spec(ancestor, local, cloud, seq![second], seq![first]),
            with_two_edits(text_lines(ancestor), first, second),
        ),
{
    let lines = text_lines(ancestor);
    let n = lines.len() as int;
    reveal_with_fuel(merge_walk, 4);
    let out1 = hunk_output(lines, 0, first);
    let out2 = hunk_output(lines, first.1 as int, second);
    assert(out1 =~= lines.subrange(0, first.0 as int) + first.2);
    assert(out2 =~= lines.subrange(first.1 as int, second.0 as int) + second.2);
    let tail = if 0 <= second.1 < n {
        lines.subrange(second.1 as int, n)
    } else {
        Seq::<Seq<char>>::empty()
    };
    assert(tail =~= lines.subrange(second.1 as int, n));
    assert(!hunks_overlap_spec(first, second));
    assert(!hunks_overlap_spec(second, first));
    let lh = seq![first];
    let ch = seq![second];
    assert(merge_walk(lines, lh, ch, 1, 1, second.1 as int) == Some((Seq::<Seq<char>>::empty(), second.1 as int)));
    assert(merge_walk(lines, lh, ch, 1, 0, first.1 as int) == Some((out2 + Seq::<Seq<char>>::empty(), second.1 as int)));
    assert(merge_walk(lines, lh, ch, 0, 0, 0) == Some((out1 + (out2 + Seq::<Seq<char>>::empty()), second.1 as int)));
    assert(out1 + (out2 + Seq::<Seq<char>>::empty()) + tail =~= with_two_edits(lines, first, second));
    let lh2 = seq![second];
    let ch2 = seq![first];
    assert(merge_walk(lines, lh2, ch2, 1, 1, second.1 as int) == Some((Seq::<Seq<char>>::empty(), second.1 as int)));
    assert(merge_walk(lines, lh2, ch2, 0, 1, first.1 as int) == Some((out2 + Seq::<Seq<char>>::empty(), second.1 as int)));
    assert(merge_walk(lines, lh2, ch2, 0, 0, 0) == Some((out1 + (out2 + Seq::<Seq<char>>::empty()), second.1 as int)));
}

/// When only one side edited, the merge is the ancestor with that edit
/// applied: every ancestor line before and after the edit stays, in order.
pub proof fn lemma_single_edit_merge(ancestor: Seq<char>, local: Seq<char>, cloud: Seq<char>, edit: HunkView)
    requires
        edit.0 <= edit.1,
        edit.1 <= text_lines(ancestor).len(),
    ensures
        joins(
            merge_with_hunks_spec(ancestor, local, cloud, seq![edit], Seq::empty()),
            text_lines(ancestor).subrange(0, edit.0 as int) + edit.2 + text_lines(ancestor).subrange(
                edit.1 as int,
                text_lines(ancestor).len() as int,
            ),
        ),
        joins(
            merge_with_hunks_spec(ancestor, local, cloud, Seq::empty(), seq![edit]),
            text_lines(ancestor).subrange(0, edit.0 as int) + edit.2 + text_lines(ancestor).subrange(
                edit.1 as int,
                text_lines(ancestor).len() as int,
            ),
        ),
{
    let lines = text_lines(ancestor);
    let n = lines.len() as int;
    reveal_with_fuel(merge_walk, 3);
    let out = hunk_output(lines, 0, edit);
    assert(out =~= lines.subrange(0, edit.0 as int) + edit.2);
    let tail = if 0 <= edit.1 < n {
        lines.subrange(edit.1 as int, n)
    } else {
        Seq::<Seq<char>>::empty()
    };
    assert(tail =~= lines.subrange(edit.1 as int, n));
    let one = seq![edit];
    let none = Seq::<HunkView>::empty();
    assert(merge_walk(lines, one, none, 1, 0, edit.1 as int) == Some((Seq::<Seq<char>>::empty(), edit.1 as int)));
    assert(merge_walk(lines, one, none, 0, 0, 0) == Some((out + Seq::<Seq<char>>::empty(), edit.1 as int)));
    assert(merge_walk(lines, none, one, 0, 1, edit.1 as int) == Some((Seq::<Seq<char>>::empty(), edit.1 as int)));
    assert(merge_walk(lines, none, one, 0, 0, 0) == Some((out + Seq::<Seq<char>>::empty(), edit.1 as int)));
    assert(out + Seq::<Seq<char>>::empty() + tail =~= lines.subrange(0, edit.0 as int) + edit.2 + lines.subrange(
        edit.1 as int,
        n,
    ));
}

/// The line-based three-way merge: equal sides agree, an unchanged side loses
/// to the other, and otherwise the hunks of both diffs against the ancestor
/// are merged.
pub open spec fn markdown_merge(ancestor: Seq<char>, local: Seq<char>, cloud: Seq<char>) -> Option<
    Seq<char>,
> {
    if local == cloud {
        Some(local)
    } else if local == ancestor {
        Some(cloud)
    } else if cloud == ancestor {
        Some(local)
    } else {
        merge_with_hunks_spec(
            ancestor,
            local,
            cloud,
            sort_hunks(hunks_of_ops(line_diff(ancestor, local))),
            sort_hunks(hunks_of_ops(line_diff(ancestor, cloud))),
        )
    }
}

// ---------------------------------------------------------------------------
// Executable merge
// ---------------------------------------------------------------------------

/// `value` without one trailing `\n` and then without one trailing `\r`.
pub fn strip_line_terminator(value: &[char]) -> (r: Vec<char>)
    ensures
        r@ == strip_terminator(value@),
{
    let mut end: usize = value.len();
    if end > 0 && value[end - 1] == '\n' {
        end = end - 1;
    }
    if end > 0 && value[end - 1] == '\r' {
        end = end - 1;
    }
    let mut out: Vec<char> = Vec::new();
    let mut i: usize = 0;
    while i < end
        invariant
            i <= end <= value@.len(),
            out@ =~= value@.take(i as int),
        decreases end - i,
    {
        out.push(value[i]);
        i = i + 1;
    }
    proof {
        let w = if value@.len() > 0 && value@.last() == '\n' {
            value@.drop_last()
        } else {
            value@
        };
        assert(w.len() > 0 && w.last() == '\r' ==> w.drop_last() =~= value@.take(end as int));
        assert(!(w.len() > 0 && w.last() == '\r') ==> w =~= value@.take(end as int));
    }
    out
}

fn strip_cr_chars(line: &[char]) -> (r: Vec<char>)
    ensures
        r@ == strip_cr(line@),
{
    let mut end: usize = line.len();
    if end > 0 && line[end - 1] == '\r' {
        end = end - 1;
    }
    let mut out: Vec<char> = Vec::new();
    let mut i: usize = 0;
    while i < end
        invariant
            i <= end <= line@.len(),
            out@ =~= line@.take(i as int),
        decreases end - i,
    {
        out.push(line[i]);
        i = i + 1;
    }
    proof {
        assert(line@.len() > 0 && line@.last() == '\r' ==> line@.drop_last() =~= out@);
        assert(!(line@.len() > 0 && line@.last() == '\r') ==> line@ =~= out@);
    }
    out
}

/// The lines of `s`, as `str::lines` yields them.
pub fn lines_of(s: &[char]) -> (r: Vec<Vec<char>>)
    ensures
        r@.len() == text_lines(s@).len(),
        forall|i: int| 0 <= i < r@.len() ==> #[trigger] r@[i]@ == text_lines(s@)[i],
{
    let parts = split_chars(s, '\n');
    let ghost p = split(s@, '\n');
    let mut out: Vec<Vec<char>> = Vec::new();
    let mut i: usize = 0;
    while i < parts.len() - 1
        invariant
            parts@.len() == p.len(),
            p.len() >= 1,
            forall|j: int| 0 <= j < parts@.len() ==> #[trigger] parts@[j]@ == p[j],
            i + 1 <= parts@.len(),
            out@.len() == i,
            forall|j: int| 0 <= j < i ==> #[trigger] out@[j]@ == strip_cr(p[j]),
        decreases parts@.len() - i,
    {
        out.push(strip_cr_chars(parts[i].as_slice()));
        i = i + 1;
    }
    let last = &parts[parts.len() - 1];
    if last.len() > 0 {
        out.push(last.clone());
    }
    out
}

fn join_with_newlines(lines: &[Vec<char>]) -> (r: Vec<char>)
    ensures
        r@ == join_lines(lines@.map_values(|l: Vec<char>| l@)),
{
    let ghost views = lines@.map_values(|l: Vec<char>| l@);
    let mut out: Vec<char> = Vec::new();
    let mut i: usize = 0;
    while i < lines.len()
        invariant
            i <= lines@.len(),
            views == lines@.map_values(|l: Vec<char>| l@),
            out@ == join_lines(views.take(i as int)),
        decreases lines@.len() - i,
    {
        proof {
            assert(views.take(i + 1).drop_last() =~= views.take(i as int));
        }
        if i > 0 {
            out.push('\n');
        }
        let line = &lines[i];
        let mut k: usize = 0;
        let ghost before = out@;
        while k < line.len()
            invariant
                k <= line@.len(),
                out@ == before + line@.take(k as int),
            decreases line@.len() - k,
        {
            out.push(line[k]);
            k = k + 1;
            proof {
                assert(out@ =~= before + line@.take(k as int));
            }
        }
        proof {
            assert(line@.take(line@.len() as int) =~= line@);
            assert(views.take(i + 1).last() == line@);
            if i == 0 {
                assert(out@ =~= join_lines(views.take(1)));
            }
        }
        i = i + 1;
    }
    proof {
        assert(views.take(lines@.len() as int) =~= views);
    }
    out
}

} // verus!

verus! {

/// The views of a sequence of character vectors.
pub open spec fn line_views(lines: Seq<Vec<char>>) -> Seq<Seq<char>> {
    lines.map_values(|l: Vec<char>| l@)
}

fn inserted_replacement(changes: &[LineChange]) -> (r: Vec<String>)
    ensures
        string_views(r@) == inserted_lines(changes@.map_values(|c: LineChange| (c.kind, c.value@))),
{
    let ghost cv = changes@.map_values(|c: LineChange| (c.kind, c.value@));
    let mut out: Vec<String> = Vec::new();
    let mut i: usize = 0;
    while i < changes.len()
        invariant
            i <= changes@.len(),
            cv == changes@.map_values(|c: LineChange| (c.kind, c.value@)),
            string_views(out@) == inserted_lines(cv.take(i as int)),
        decreases changes@.len() - i,
    {
        proof {
            assert(cv.take(i + 1).drop_last() =~= cv.take(i as int));
            assert(cv.take(i + 1).last() == (changes@[i as int].kind, changes@[i as int].value@));
        }
        let change = &changes[i];
        match change.kind {
            LineChangeKind::Insert => {
                let chars = chars_of(change.value.as_str());
                let stripped = strip_line_terminator(chars.as_slice());
                let line = string_of(stripped.as_slice());
                let ghost before = out@;
                out.push(line);
                proof {
                    assert(string_views(out@) =~= string_views(before).push(line@));
                }
            },
            _ => {},
        }
        i = i + 1;
    }
    proof {
        assert(cv.take(changes@.len() as int) =~= cv);
    }
    out
}

fn hunk_key_le_exec(a: &Hunk, b: &Hunk) -> (r: bool)
    ensures
        r == hunk_key_le(a@, b@),
{
    a.start < b.start || (a.start == b.start && a.end <= b.end)
}

proof fn lemma_insert_by_key_at(s: Seq<HunkView>, h: HunkView, j: int)
    requires
        0 <= j <= s.len(),
        j == 0 || hunk_key_le(s[j - 1], h),
        forall|m: int| j <= m < s.len() ==> !hunk_key_le(#[trigger] s[m], h),
    ensures
        insert_by_key(s, h) == s.insert(j, h),
    decreases s.len(),
{
    if s.len() == 0 {
        assert(s.insert(j, h) =~= seq![h]);
    } else if hunk_key_le(s.last(), h) {
        if j < s.len() {
            assert(!hunk_key_le(s[s.len() - 1], h));
        }
        assert(s.insert(j, h) =~= s.push(h));
    } else {
        assert(j < s.len());
        lemma_insert_by_key_at(s.drop_last(), h, j);
        assert(s.drop_last().insert(j, h).push(s.last()) =~= s.insert(j, h));
    }
}

fn insert_hunk_by_key(sorted: &mut Vec<Hunk>, h: Hunk)
    ensures
        hunk_views(final(sorted)@) == insert_by_key(hunk_views(old(sorted)@), h@),
{
    let ghost s = hunk_views(sorted@);
    let mut j: usize = sorted.len();
    while j > 0 && !hunk_key_le_exec(&sorted[j - 1], &h)
        invariant
            j <= sorted@.len(),
            sorted@ == old(sorted)@,
            s == hunk_views(sorted@),
            forall|m: int| j <= m < s.len() ==> !hunk_key_le(#[trigger] s[m], h@),
        decreases j,
    {
        j = j - 1;
    }
    proof {
        lemma_insert_by_key_at(s, h@, j as int);
    }
    let ghost hv = h@;
    sorted.insert(j, h);
    proof {
        assert(hunk_views(sorted@) =~= s.insert(j as int, hv));
    }
}

/// The hunks of a diff's operations, stably sorted by (start, end).
pub fn hunks_from_ops(ops: Vec<LineDiffOp>) -> (r: Vec<Hunk>)
    ensures
        hunk_views(r@) == sort_hunks(hunks_of_ops(op_views(ops@))),
{
    let ghost ov = op_views(ops@);
    let mut sorted: Vec<Hunk> = Vec::new();
    let mut i: usize = 0;
    while i < ops.len()
        invariant
            i <= ops@.len(),
            ov == op_views(ops@),
            hunk_views(sorted@) == sort_hunks(hunks_of_ops(ov.take(i as int))),
        decreases ops@.len() - i,
    {
        proof {
            assert(ov.take(i + 1).drop_last() =~= ov.take(i as int));
            assert(ov.take(i + 1).last() == ops@[i as int]@);
        }
        let op = &ops[i];
        match op.kind {
            DiffOpKind::Equal => {},
            _ => {
                let replacement = inserted_replacement(op.changes.as_slice());
                let hunk = Hunk { start: op.old_start, end: op.old_end, replacement };
                proof {
                    let prefix = hunks_of_ops(ov.take(i as int));
                    assert(hunks_of_ops(ov.take(i + 1)) == prefix.push(hunk@));
                    assert(prefix.push(hunk@).drop_last() =~= prefix);
                }
                insert_hunk_by_key(&mut sorted, hunk);
            },
        }
        i = i + 1;
    }
    proof {
        assert(ov.take(ops@.len() as int) =~= ov);
    }
    sorted
}

/// Collects the hunks that turn `ancestor` into `current`, stably sorted by
/// (start, end).
pub fn collect_hunks(ancestor: &str, current: &str) -> (r: Vec<Hunk>)
    ensures
        hunk_views(r@) == sort_hunks(hunks_of_ops(line_diff(ancestor@, current@))),
{
    let ops = diff_lines(ancestor, current);
    hunks_from_ops(ops)
}

/// Whether two hunks touch the same ancestor region.
pub fn hunks_overlap(left: &Hunk, right: &Hunk) -> (r: bool)
    ensures
        r == hunks_overlap_spec(left@, right@),
{
    if left.start == left.end && right.start == right.end {
        return left.start == right.start;
    }
    if left.start == left.end {
        return left.start >= right.start && left.start < right.end;
    }
    if right.start == right.end {
        return right.start >= left.start && right.start < left.end;
    }
    left.start < right.end && right.start < left.end
}

pub(crate) fn strings_eq(a: &Vec<String>, b: &Vec<String>) -> (r: bool)
    ensures
        r == (string_views(a@) == string_views(b@)),
{
    if a.len() != b.len() {
        proof {
            assert(string_views(a@).len() != string_views(b@).len());
        }
        return false;
    }
    let mut i: usize = 0;
    while i < a.len()
        invariant
            i <= a@.len(),
            a@.len() == b@.len(),
            forall|j: int| 0 <= j < i ==> a@[j]@ == b@[j]@,
        decreases a@.len() - i,
    {
        if a[i] != b[i] {
            proof {
                assert(string_views(a@)[i as int] != string_views(b@)[i as int]);
            }
            return false;
        }
        i = i + 1;
    }
    proof {
        assert(string_views(a@) =~= string_views(b@));
    }
    true
}

fn hunk_eq(a: &Hunk, b: &Hunk) -> (r: bool)
    ensures
        r == (a@ == b@),
{
    a.start == b.start && a.end == b.end && strings_eq(&a.replacement, &b.replacement)
}

proof fn lemma_subrange_push(a: Seq<Seq<char>>, i: int, j: int)
    requires
        0 <= i <= j < a.len(),
    ensures
        a.subrange(i, j).push(a[j]) == a.subrange(i, j + 1),
{
    assert(a.subrange(i, j).push(a[j]) =~= a.subrange(i, j + 1));
}

/// Appends the ancestor lines from `position` up to `start` and then
/// `replacement`; the position moves past the copied lines and to at least
/// `end`.
pub fn apply_hunk(
    ancestor_lines: &[Vec<char>],
    position: &mut usize,
    start: usize,
    end: usize,
    replacement: &[String],
) -> (r: Vec<Vec<char>>)
    ensures
        line_views(r@) == hunk_output(
            line_views(ancestor_lines@),
            *old(position) as int,
            (start, end, string_views(replacement@)),
        ),
        *final(position) as int == if *old(position) < start && *old(position)
            < ancestor_lines@.len() {
            if start < ancestor_lines@.len() {
                if end > start {
                    end as int
                } else {
                    start as int
                }
            } else if end > ancestor_lines@.len() {
                end as int
            } else {
                ancestor_lines@.len() as int
            }
        } else if end > *old(position) {
            end as int
        } else {
            *old(position) as int
        },
{
    let ghost a = line_views(ancestor_lines@);
    let ghost p0 = *position as int;
    let mut output: Vec<Vec<char>> = Vec::new();
    while *position < start && *position < ancestor_lines.len()
        invariant
            0 <= p0,
            *position >= p0,
            a == line_views(ancestor_lines@),
            *position > p0 ==> *position <= start && *position <= ancestor_lines@.len(),
            line_views(output@) == if *position > p0 {
                a.subrange(p0, *position as int)
            } else {
                Seq::<Seq<char>>::empty()
            },
        decreases ancestor_lines@.len() - *position,
    {
        let line = ancestor_lines[*position].clone();
        let ghost before = output@;
        output.push(line);
        proof {
            assert(line@ == a[*position as int]);
            assert(line_views(output@) =~= line_views(before).push(line@));
            assert(a.len() == ancestor_lines@.len());
            let q = *position as int;
            assert(p0 <= q < a.len());
            if q > p0 {
                lemma_subrange_push(a, p0, q);
            } else {
                assert(seq![a[*position as int]] =~= a.subrange(p0, *position + 1));
            }
            assert(line_views(output@) =~= a.subrange(p0, *position + 1));
        }
        *position = *position + 1;
    }
    let mut i: usize = 0;
    let ghost copied = line_views(output@);
    while i < replacement.len()
        invariant
            i <= replacement@.len(),
            line_views(output@) == copied + string_views(replacement@).take(i as int),
        decreases replacement@.len() - i,
    {
        let chars = chars_of(replacement[i].as_str());
        let ghost before = output@;
        output.push(chars);
        proof {
            assert(line_views(output@) =~= line_views(before).push(chars@));
            assert(string_views(replacement@)[i as int] == chars@);
            assert(string_views(replacement@).take(i + 1) =~= string_views(replacement@).take(
                i as int,
            ).push(chars@));
        }
        i = i + 1;
        proof {
            assert(line_views(output@) =~= copied + string_views(replacement@).take(i as int));
        }
    }
    proof {
        assert(string_views(replacement@).take(replacement@.len() as int) =~= string_views(
            replacement@,
        ));
        let stop = if (start as int) < a.len() {
            start as int
        } else {
            a.len() as int
        };
        if 0 <= p0 < stop {
            assert(*position as int == stop);
        } else {
            assert(*position as int == p0);
        }
    }
    if end > *position {
        *position = end;
    }
    output
}

} // verus!

verus! {

fn ends_with_newline_chars(s: &[char]) -> (r: bool)
    ensures
        r == ends_with_newline(s@),
{
    s.len() > 0 && s[s.len() - 1] == '\n'
}

/// Merges `local` and `cloud` against `ancestor` given the hunks of each
/// side's diff: identical hunks apply once, overlapping hunks are a conflict
/// (`None`), other hunks apply in order of their start.
pub fn merge_with_hunks(
    ancestor: &str,
    local: &str,
    cloud: &str,
    local_hunks: &[Hunk],
    cloud_hunks: &[Hunk],
) -> (r: Option<String>)
    ensures
        match r {
            Some(s) => merge_with_hunks_spec(
                ancestor@,
                local@,
                cloud@,
                hunk_views(local_hunks@),
                hunk_views(cloud_hunks@),
            ) == Some(s@),
            None => merge_with_hunks_spec(
                ancestor@,
                local@,
                cloud@,
                hunk_views(local_hunks@),
                hunk_views(cloud_hunks@),
            ) is None,
        },
{
    let ancestor_chars = chars_of(ancestor);
    let ancestor_lines = lines_of(ancestor_chars.as_slice());
    let ghost lines = text_lines(ancestor@);
    let ghost lh = hunk_views(local_hunks@);
    let ghost ch = hunk_views(cloud_hunks@);
    proof {
        assert(line_views(ancestor_lines@) =~= lines);
    }
    let mut output: Vec<Vec<char>> = Vec::new();
    let mut position: usize = 0;
    let mut local_index: usize = 0;
    let mut cloud_index: usize = 0;
    while !(local_index >= local_hunks.len() && cloud_index >= cloud_hunks.len())
        invariant
            local_index <= local_hunks@.len(),
            cloud_index <= cloud_hunks@.len(),
            lh == hunk_views(local_hunks@),
            ch == hunk_views(cloud_hunks@),
            line_views(ancestor_lines@) == lines,
            lines == text_lines(ancestor@),
            merge_walk(lines, lh, ch, 0, 0, 0) == match merge_walk(
                lines,
                lh,
                ch,
                local_index as int,
                cloud_index as int,
                position as int,
            ) {
                Some((rest, p)) => Some((line_views(output@) + rest, p)),
                None => None::<(Seq<Seq<char>>, int)>,
            },
        decreases local_hunks@.len() - local_index + cloud_hunks@.len() - cloud_index,
    {
        let ghost li = local_index as int;
        let ghost ci = cloud_index as int;
        if local_index < local_hunks.len() && cloud_index < cloud_hunks.len() && hunk_eq(
            &local_hunks[local_index],
            &cloud_hunks[cloud_index],
        ) {
            let hunk = &local_hunks[local_index];
            let ghost p_before = position as int;
            let ghost out_before = line_views(output@);
            let mut part = apply_hunk(
                ancestor_lines.as_slice(),
                &mut position,
                hunk.start,
                hunk.end,
                hunk.replacement.as_slice(),
            );
            let ghost part_view = line_views(part@);
            output.append(&mut part);
            position = hunk.end;
            local_index = local_index + 1;
            cloud_index = cloud_index + 1;
            proof {
                assert(lh[li] == hunk@);
                assert(line_views(output@) =~= out_before + part_view);
                match merge_walk(lines, lh, ch, li + 1, ci + 1, hunk.end as int) {
                    Some((rest, p)) => {
                        assert(out_before + (part_view + rest) =~= line_views(output@) + rest);
                    },
                    None => {},
                }
            }
            continue;
        }
        if local_index < local_hunks.len() && cloud_index < cloud_hunks.len() && hunks_overlap(
            &local_hunks[local_index],
            &cloud_hunks[cloud_index],
        ) {
            proof {
                assert(lh[li] == local_hunks@[li]@);
                assert(ch[ci] == cloud_hunks@[ci]@);
                assert(merge_walk(lines, lh, ch, li, ci, position as int) is None);
                assert(merge_walk(lines, lh, ch, 0, 0, 0) is None);
                assert(merge_with_hunks_spec(ancestor@, local@, cloud@, lh, ch) is None);
            }
            return None;
        }
        let take_local = if local_index >= local_hunks.len() {
            false
        } else if cloud_index >= cloud_hunks.len() {
            true
        } else {
            local_hunks[local_index].start <= cloud_hunks[cloud_index].start
        };
        let ghost out_before = line_views(output@);
        if take_local {
            let hunk = &local_hunks[local_index];
            if cloud_index < cloud_hunks.len() && cloud_hunks[cloud_index].start < hunk.end {
                proof {
                    assert(lh[li] == local_hunks@[li]@);
                    assert(ch[ci] == cloud_hunks@[ci]@);
                    assert(merge_walk(lines, lh, ch, li, ci, position as int) is None);
                    assert(merge_walk(lines, lh, ch, 0, 0, 0) is None);
                    assert(merge_with_hunks_spec(ancestor@, local@, cloud@, lh, ch) is None);
                }
                return None;
            }
            let mut part = apply_hunk(
                ancestor_lines.as_slice(),
                &mut position,
                hunk.start,
                hunk.end,
                hunk.replacement.as_slice(),
            );
            let ghost part_view = line_views(part@);
            output.append(&mut part);
            position = hunk.end;
            local_index = local_index + 1;
            proof {
                assert(lh[li] == hunk@);
                assert(line_views(output@) =~= out_before + part_view);
                match merge_walk(lines, lh, ch, li + 1, ci, hunk.end as int) {
                    Some((rest, p)) => {
                        assert(out_before + (part_view + rest) =~= line_views(output@) + rest);
                    },
                    None => {},
                }
            }
        } else {
            let hunk = &cloud_hunks[cloud_index];
            if local_index < local_hunks.len() && local_hunks[local_index].start < hunk.end {
                proof {
                    assert(lh[li] == local_hunks@[li]@);
                    assert(ch[ci] == cloud_hunks@[ci]@);
                    assert(merge_walk(lines, lh, ch, li, ci, position as int) is None);
                    assert(merge_walk(lines, lh, ch, 0, 0, 0) is None);
                    assert(merge_with_hunks_spec(ancestor@, local@, cloud@, lh, ch) is None);
                }
                return None;
            }
            let mut part = apply_hunk(
                ancestor_lines.as_slice(),
                &mut position,
                hunk.start,
                hunk.end,
                hunk.replacement.as_slice(),
            );
            let ghost part_view = line_views(part@);
            output.append(&mut part);
            position = hunk.end;
            cloud_index = cloud_index + 1;
            proof {
                assert(ch[ci] == hunk@);
                assert(line_views(output@) =~= out_before + part_view);
                match merge_walk(lines, lh, ch, li, ci + 1, hunk.end as int) {
                    Some((rest, p)) => {
                        assert(out_before + (part_view + rest) =~= line_views(output@) + rest);
                    },
                    None => {},
                }
            }
        }
    }
    proof {
        assert(line_views(output@) + Seq::<Seq<char>>::empty() =~= line_views(output@));
    }
    let ghost walked = line_views(output@);
    let ghost final_position = position as int;
    while position < ancestor_lines.len()
        invariant
            line_views(ancestor_lines@) == lines,
            final_position <= position,
            final_position >= 0,
            final_position < lines.len() ==> position <= lines.len(),
            final_position >= lines.len() ==> position == final_position,
            line_views(output@) == walked + if final_position < position {
                lines.subrange(final_position, position as int)
            } else {
                Seq::<Seq<char>>::empty()
            },
        decreases ancestor_lines@.len() - position,
    {
        let line = ancestor_lines[position].clone();
        let ghost before = line_views(output@);
        output.push(line);
        proof {
            assert(line@ == lines[position as int]);
            assert(line_views(output@) =~= before.push(line@));
            if final_position < position {
                lemma_subrange_push(lines, final_position, position as int);
            } else {
                assert(seq![lines[position as int]] =~= lines.subrange(
                    final_position,
                    position + 1,
                ));
            }
            assert(line_views(output@) =~= walked + lines.subrange(final_position, position + 1));
        }
        position = position + 1;
    }
    let mut merged = join_with_newlines(output.as_slice());
    let local_chars = chars_of(local);
    let cloud_chars = chars_of(cloud);
    let newline = ends_with_newline_chars(local_chars.as_slice()) || ends_with_newline_chars(
        cloud_chars.as_slice(),
    ) || (local_hunks.len() == 0 && ends_with_newline_chars(ancestor_chars.as_slice()));
    if newline && merged.len() > 0 && merged[merged.len() - 1] != '\n' {
        merged.push('\n');
    }
    proof {
        let tail = if 0 <= final_position < lines.len() {
            lines.subrange(final_position, lines.len() as int)
        } else {
            Seq::<Seq<char>>::empty()
        };
        assert(line_views(output@) =~= walked + tail);
        assert(output@.map_values(|l: Vec<char>| l@) == line_views(output@));
    }
    Some(string_of(merged.as_slice()))
}

/// Line-based three-way merge of Markdown text. Returns `None` when the two
/// sides changed overlapping regions; the caller must then keep both
/// versions and let the user decide.
pub fn merge_markdown(ancestor: &str, local: &str, cloud: &str) -> (r: Option<String>)
    ensures
        match r {
            Some(s) => markdown_merge(ancestor@, local@, cloud@) == Some(s@),
            None => markdown_merge(ancestor@, local@, cloud@) is None,
        },
{
    if str_eq(local, cloud) {
        return Some(local.to_owned());
    }
    if str_eq(local, ancestor) {
        return Some(cloud.to_owned());
    }
    if str_eq(cloud, ancestor) {
        return Some(local.to_owned());
    }
    let local_hunks = collect_hunks(ancestor, local);
    let cloud_hunks = collect_hunks(ancestor, cloud);
    merge_with_hunks(ancestor, local, cloud, local_hunks.as_slice(), cloud_hunks.as_slice())
}

} // verus!
