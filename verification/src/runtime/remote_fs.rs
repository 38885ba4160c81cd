//! The history of file downloads and uploads asked of a peer's filesystem:
//! each request, newest first, with the transfer it started or the error it
//! ended in. Only the newest requests are kept.
use vstd::prelude::*;

use crate::protocol::payloads::FS_ERROR_TYPE;
use crate::text::str_eq;

verus! {

/// How many requests the history keeps.
pub const REMOTE_FILESYSTEM_HISTORY_LIMIT: usize = 100;

/// A download or upload asked of a peer's filesystem.
#[derive(Debug, Clone)]
pub struct RemoteFilesystemTransfer {
    pub request_id: String,
    pub device_id: String,
    pub remote_path: String,
    pub requested_at: i64,
    /// The file transfer the request started, once it did.
    pub session_id: Option<String>,
    /// Why the request failed, if it did.
    pub error: Option<String>,
}

/// A request as values.
pub struct RemoteTransferView {
    pub request_id: Seq<char>,
    pub device_id: Seq<char>,
    pub remote_path: Seq<char>,
    pub requested_at: i64,
    pub session_id: Option<Seq<char>>,
    pub error: Option<Seq<char>>,
}

/// The text of an optional string.
pub open spec fn opt_view(s: Option<String>) -> Option<Seq<char>> {
    match s {
        Some(v) => Some(v@),
        None => None,
    }
}

impl View for RemoteFilesystemTransfer {
    type V = RemoteTransferView;

    open spec fn view(&self) -> RemoteTransferView {
        RemoteTransferView {
            request_id: self.request_id@,
            device_id: self.device_id@,
            remote_path: self.remote_path@,
            requested_at: self.requested_at,
            session_id: opt_view(self.session_id),
            error: opt_view(self.error),
        }
    }
}

/// The values of a list of requests.
pub open spec fn transfer_views(v: Seq<RemoteFilesystemTransfer>) -> Seq<RemoteTransferView> {
    v.map_values(|t: RemoteFilesystemTransfer| t@)
}

/// Newer requests come first.
pub open spec fn newest_first(s: Seq<RemoteTransferView>) -> bool {
    forall|i: int, j: int| 0 <= i < j < s.len() ==> (#[trigger] s[i]).requested_at >= (#[trigger] s[j]).requested_at
}

/// No two requests share an id.
pub open spec fn ids_distinct(s: Seq<RemoteTransferView>) -> bool {
    forall|i: int, j: int|
        0 <= i < s.len() && 0 <= j < s.len() && i != j ==> (#[trigger] s[i]).request_id != (
        #[trigger] s[j]).request_id
}

/// The position of the request `id`, if it is there.
pub open spec fn position_of(s: Seq<RemoteTransferView>, id: Seq<char>) -> Option<int> {
    if exists|i: int| 0 <= i < s.len() && (#[trigger] s[i]).request_id == id {
        Some(choose|i: int| 0 <= i < s.len() && (#[trigger] s[i]).request_id == id)
    } else {
        None
    }
}

/// Whether `e` is one of the requests a history holds after `entry` was
/// added to `s`: the entry itself, or a request of `s` with another id.
pub open spec fn candidate(s: Seq<RemoteTransferView>, entry: RemoteTransferView, e: RemoteTransferView) -> bool {
    e == entry || (s.contains(e) && e.request_id != entry.request_id)
}

fn copy_opt(o: &Option<String>) -> (r: Option<String>)
    ensures
        opt_view(r) == opt_view(*o),
{
    match o {
        Some(v) => Some(v.clone()),
        None => None,
    }
}

fn copy_transfer(t: &RemoteFilesystemTransfer) -> (r: RemoteFilesystemTransfer)
    ensures
        r@ == t@,
{
    RemoteFilesystemTransfer {
        request_id: t.request_id.clone(),
        device_id: t.device_id.clone(),
        remote_path: t.remote_path.clone(),
        requested_at: t.requested_at,
        session_id: copy_opt(&t.session_id),
        error: copy_opt(&t.error),
    }
}

/// The history of requests asked of peers' filesystems.
pub struct RemoteFilesystemTransfers {
    entries: Vec<RemoteFilesystemTransfer>,
}

impl View for RemoteFilesystemTransfers {
    type V = Seq<RemoteTransferView>;

    closed spec fn view(&self) -> Seq<RemoteTransferView> {
        transfer_views(self.entries@)
    }
}

impl RemoteFilesystemTransfers {
    /// Newest first, ids distinct, within the limit.
    pub open spec fn wf(&self) -> bool {
        &&& newest_first(self@)
        &&& ids_distinct(self@)
        &&& self@.len() <= REMOTE_FILESYSTEM_HISTORY_LIMIT
    }

    /// No requests yet.
    pub fn new() -> (r: Self)
        ensures
            r.wf(),
            r@ == Seq::<RemoteTransferView>::empty(),
    {
        let r = RemoteFilesystemTransfers { entries: Vec::new() };
        proof {
            assert(r@ =~= Seq::<RemoteTransferView>::empty());
        }
        r
    }

    fn find(&self, request_id: &str) -> (r: Option<usize>)
        requires
            self.wf(),
        ensures
            r == match position_of(self@, request_id@) {
                Some(i) => Some(i as usize),
                None => None::<usize>,
            },
            r matches Some(i) ==> i < self@.len() && self@[i as int].request_id == request_id@,
    {
        let mut i: usize = 0;
        while i < self.entries.len()
            invariant
                self.wf(),
                i <= self@.len(),
                self@.len() == self.entries@.len(),
                forall|j: int| 0 <= j < i ==> (#[trigger] self@[j]).request_id != request_id@,
            decreases self@.len() - i,
        {
            proof {
                assert(self@[i as int] == self.entries@[i as int]@);
            }
            if str_eq(self.entries[i].request_id.as_str(), request_id) {
                proof {
                    assert(self@[i as int].request_id == request_id@);
                    let k = choose|k: int| 0 <= k < self@.len() && (#[trigger] self@[k]).request_id == request_id@;
                    if k != i {
                        assert(self@[k].request_id != self@[i as int].request_id);
                    }
                }
                return Some(i);
            }
            i = i + 1;
        }
        None
    }

    /// Records `entry`, replacing a request with its id, and keeps only the
    /// newest requests. Which of several equally old requests leaves is
    /// left open.
    pub fn remember(&mut self, entry: RemoteFilesystemTransfer)
        requires
            old(self).wf(),
        ensures
            final(self).wf(),
            forall|e: RemoteTransferView| #[trigger] final(self)@.contains(e) ==> candidate(old(self)@, entry@, e),
            forall|e: RemoteTransferView, k: RemoteTransferView|
                #[trigger] candidate(old(self)@, entry@, e) && !final(self)@.contains(e)
                    && #[trigger] final(self)@.contains(k) ==> e.requested_at <= k.requested_at,
            final(self)@.len() == if old(self)@.len() + (if position_of(old(self)@, entry@.request_id) is Some {
                0int
            } else {
                1int
            }) > REMOTE_FILESYSTEM_HISTORY_LIMIT {
                REMOTE_FILESYSTEM_HISTORY_LIMIT as int
            } else {
                old(self)@.len() + (if position_of(old(self)@, entry@.request_id) is Some {
                    0int
                } else {
                    1int
                })
            },
    {
        let ghost start = self@;
        let ghost new = entry@;
        // Drop the request this one replaces.
        match self.find(entry.request_id.as_str()) {
            Some(i) => {
                self.entries.remove(i);
                proof {
                    assert(self@ =~= start.remove(i as int));
                    assert(self@.len() == start.len() - 1);
                    lemma_remove_keeps_order(start, i as int);
                    assert forall|e: RemoteTransferView| #[trigger] self@.contains(e) <==> (start.contains(e)
                        && e.request_id != new.request_id) by {
                        if self@.contains(e) {
                            let a = choose|a: int| 0 <= a < self@.len() && self@[a] == e;
                            let ea = if a < i { a } else { a + 1 };
                            assert(self@[a] == start[ea]);
                            assert(ea != i);
                        }
                        if start.contains(e) && e.request_id != new.request_id {
                            let b = choose|b: int| 0 <= b < start.len() && start[b] == e;
                            assert(b != i);
                            let a = if b < i { b } else { b - 1 };
                            assert(self@[a] == start[b]);
                        }
                    }
                }
            },
            None => {
                proof {
                    assert(position_of(start, new.request_id) is None);
                    assert forall|e: RemoteTransferView| #[trigger] self@.contains(e) implies e.request_id
                        != new.request_id by {
                        let a = choose|a: int| 0 <= a < self@.len() && self@[a] == e;
                        assert(self@[a].request_id != new.request_id);
                    }
                }
            },
        }
        let ghost base = self@;
        // Insert after every request at least as new.
        let mut p: usize = 0;
        while p < self.entries.len() && self.entries[p].requested_at >= entry.requested_at
            invariant
                self@ == base,
                self@.len() == self.entries@.len(),
                p <= self@.len(),
                forall|j: int| 0 <= j < p ==> (#[trigger] base[j]).requested_at >= new.requested_at,
                new == entry@,
            decreases self@.len() - p,
        {
            proof {
                assert(self@[p as int] == self.entries@[p as int]@);
            }
            p = p + 1;
        }
        proof {
            if p < self@.len() {
                assert(self@[p as int] == self.entries@[p as int]@);
            }
        }
        self.entries.insert(p, entry);
        let ghost inserted = self@;
        proof {
            assert(inserted =~= base.insert(p as int, new));
            lemma_insert_keeps_order(base, new, p as int);
        }
        if self.entries.len() > REMOTE_FILESYSTEM_HISTORY_LIMIT {
            self.entries.truncate(REMOTE_FILESYSTEM_HISTORY_LIMIT);
        }
        proof {
            let n = self@.len() as int;
            assert(self@ =~= inserted.take(n));
            lemma_remember_result(start, base, new, p as int, n);
        }
    }

    /// Records that the request `request_id` of `device_id` started the
    /// file transfer `session_id`: only a request of that device that has
    /// neither started a transfer nor failed. Returns whether it applied.
    pub fn associate(&mut self, device_id: &str, request_id: &str, session_id: &str) -> (r: bool)
        requires
            old(self).wf(),
        ensures
            final(self).wf(),
            r == (position_of(old(self)@, request_id@) matches Some(i) && old(self)@[i].device_id == device_id@
                && old(self)@[i].session_id is None && old(self)@[i].error is None),
            r ==> (position_of(old(self)@, request_id@) matches Some(i) && final(self)@ == old(self)@.update(
                i,
                RemoteTransferView { session_id: Some(session_id@), ..old(self)@[i] },
            )),
            !r ==> final(self)@ == old(self)@,
    {
        let i = match self.find(request_id) {
            Some(i) => i,
            None => return false,
        };
        proof {
            assert(self@[i as int] == self.entries@[i as int]@);
        }
        if !str_eq(self.entries[i].device_id.as_str(), device_id) || self.entries[i].session_id.is_some()
            || self.entries[i].error.is_some() {
            return false;
        }
        let ghost before = self@;
        let mut item = copy_transfer(&self.entries[i]);
        proof {
            assert(item@ == before[i as int]);
        }
        item.session_id = Some(session_id.to_owned());
        self.entries.set(i, item);
        proof {
            assert(self@ =~= before.update(i as int, RemoteTransferView { session_id: Some(session_id@), ..before[i as int] }));
            lemma_update_keeps_wf(before, i as int, RemoteTransferView { session_id: Some(session_id@), ..before[i as int] });
        }
        true
    }

    /// Records that the request `request_id` failed with `message`, unless
    /// it failed before. Returns whether it applied.
    pub fn fail(&mut self, request_id: &str, message: String) -> (r: bool)
        requires
            old(self).wf(),
        ensures
            final(self).wf(),
            r == (position_of(old(self)@, request_id@) matches Some(i) && old(self)@[i].error is None),
            r ==> (position_of(old(self)@, request_id@) matches Some(i) && final(self)@ == old(self)@.update(
                i,
                RemoteTransferView { error: Some(message@), ..old(self)@[i] },
            )),
            !r ==> final(self)@ == old(self)@,
    {
        let i = match self.find(request_id) {
            Some(i) => i,
            None => return false,
        };
        proof {
            assert(self@[i as int] == self.entries@[i as int]@);
        }
        if self.entries[i].error.is_some() {
            return false;
        }
        let ghost before = self@;
        let ghost text = message@;
        let mut item = copy_transfer(&self.entries[i]);
        proof {
            assert(item@ == before[i as int]);
        }
        item.error = Some(message);
        self.entries.set(i, item);
        proof {
            assert(self@ =~= before.update(i as int, RemoteTransferView { error: Some(text), ..before[i as int] }));
            lemma_update_keeps_wf(before, i as int, RemoteTransferView { error: Some(text), ..before[i as int] });
        }
        true
    }

    /// Records that the request `request_id` started the file transfer
    /// `session_id`. Returns whether the request is known.
    pub fn set_session(&mut self, request_id: &str, session_id: &str) -> (r: bool)
        requires
            old(self).wf(),
        ensures
            final(self).wf(),
            r == position_of(old(self)@, request_id@) is Some,
            r ==> (position_of(old(self)@, request_id@) matches Some(i) && final(self)@ == old(self)@.update(
                i,
                RemoteTransferView { session_id: Some(session_id@), ..old(self)@[i] },
            )),
            !r ==> final(self)@ == old(self)@,
    {
        let i = match self.find(request_id) {
            Some(i) => i,
            None => return false,
        };
        let ghost before = self@;
        let mut item = copy_transfer(&self.entries[i]);
        proof {
            assert(self@[i as int] == self.entries@[i as int]@);
            assert(item@ == before[i as int]);
        }
        item.session_id = Some(session_id.to_owned());
        self.entries.set(i, item);
        proof {
            assert(self@ =~= before.update(i as int, RemoteTransferView { session_id: Some(session_id@), ..before[i as int] }));
            lemma_update_keeps_wf(before, i as int, RemoteTransferView { session_id: Some(session_id@), ..before[i as int] });
        }
        true
    }

    /// Forgets the request `request_id`. Returns whether it was known.
    pub fn remove(&mut self, request_id: &str) -> (r: bool)
        requires
            old(self).wf(),
        ensures
            final(self).wf(),
            r == position_of(old(self)@, request_id@) is Some,
            r ==> (position_of(old(self)@, request_id@) matches Some(i) && final(self)@ == old(self)@.remove(i)),
            !r ==> final(self)@ == old(self)@,
    {
        let i = match self.find(request_id) {
            Some(i) => i,
            None => return false,
        };
        let ghost before = self@;
        self.entries.remove(i);
        proof {
            assert(self@ =~= before.remove(i as int));
            lemma_remove_keeps_order(before, i as int);
        }
        true
    }

    /// Whether the request `request_id` still waits for its transfer: known,
    /// without a transfer and without an error.
    pub fn is_waiting(&self, request_id: &str) -> (r: bool)
        requires
            self.wf(),
        ensures
            r == (position_of(self@, request_id@) matches Some(i) && self@[i].session_id is None
                && self@[i].error is None),
    {
        match self.find(request_id) {
            Some(i) => {
                proof {
                    assert(self@[i as int] == self.entries@[i as int]@);
                }
                self.entries[i].session_id.is_none() && self.entries[i].error.is_none()
            },
            None => false,
        }
    }

    /// Whether the request `request_id` was made of `device_id`.
    pub fn belongs_to(&self, request_id: &str, device_id: &str) -> (r: bool)
        requires
            self.wf(),
        ensures
            r == (position_of(self@, request_id@) matches Some(i) && self@[i].device_id == device_id@),
    {
        match self.find(request_id) {
            Some(i) => {
                proof {
                    assert(self@[i as int] == self.entries@[i as int]@);
                }
                str_eq(self.entries[i].device_id.as_str(), device_id)
            },
            None => false,
        }
    }

    /// The requests, newest first.
    pub fn list(&self) -> (r: Vec<RemoteFilesystemTransfer>)
        ensures
            transfer_views(r@) == self@,
    {
        let mut out: Vec<RemoteFilesystemTransfer> = Vec::new();
        let mut i: usize = 0;
        while i < self.entries.len()
            invariant
                i <= self.entries@.len(),
                transfer_views(out@) == transfer_views(self.entries@).take(i as int),
            decreases self.entries@.len() - i,
        {
            let item = copy_transfer(&self.entries[i]);
            let ghost prev = out@;
            let ghost seen = item@;
            proof {
                assert(seen == self.entries@[i as int]@);
            }
            out.push(item);
            proof {
                assert(transfer_views(out@) =~= transfer_views(prev).push(seen));
                assert(transfer_views(self.entries@).take(i + 1) =~= transfer_views(self.entries@).take(
                    i as int,
                ).push(seen));
            }
            i = i + 1;
        }
        proof {
            assert(transfer_views(self.entries@).take(self.entries@.len() as int) =~= transfer_views(self.entries@));
        }
        out
    }
}

/// Whether a peer's answer of `message_type` settles a filesystem request
/// of ours made of `request_device` and waiting for `expected_type`: it must
/// come from that device and be the expected answer or an error.
pub fn filesystem_response_matches(request_device: &str, expected_type: &str, from: &str, message_type: &str) -> (r:
    bool)
    ensures
        r == (request_device@ == from@ && (message_type@ == FS_ERROR_TYPE@ || message_type@ == expected_type@)),
{
    str_eq(request_device, from) && (str_eq(message_type, FS_ERROR_TYPE) || str_eq(message_type, expected_type))
}

proof fn lemma_remember_result(
    start: Seq<RemoteTransferView>,
    base: Seq<RemoteTransferView>,
    new: RemoteTransferView,
    p: int,
    n: int,
)
    requires
        newest_first(start),
        ids_distinct(start),
        start.len() <= REMOTE_FILESYSTEM_HISTORY_LIMIT,
        forall|e: RemoteTransferView| #[trigger] base.contains(e) <==> (start.contains(e) && e.request_id
            != new.request_id),
        base.len() == start.len() - (if position_of(start, new.request_id) is Some {
            1int
        } else {
            0int
        }),
        newest_first(base.insert(p, new)),
        ids_distinct(base.insert(p, new)),
        0 <= p <= base.len(),
        n == if base.len() + 1 > REMOTE_FILESYSTEM_HISTORY_LIMIT {
            REMOTE_FILESYSTEM_HISTORY_LIMIT as int
        } else {
            base.len() + 1int
        },
    ensures
        ({
            let f = base.insert(p, new).take(n);
            &&& newest_first(f)
            &&& ids_distinct(f)
            &&& f.len() <= REMOTE_FILESYSTEM_HISTORY_LIMIT
            &&& forall|e: RemoteTransferView| #[trigger] f.contains(e) ==> candidate(start, new, e)
            &&& forall|e: RemoteTransferView, k: RemoteTransferView|
                #[trigger] candidate(start, new, e) && !f.contains(e) && #[trigger] f.contains(k)
                    ==> e.requested_at <= k.requested_at
            &&& f.len() == if start.len() + (if position_of(start, new.request_id) is Some {
                0int
            } else {
                1int
            }) > REMOTE_FILESYSTEM_HISTORY_LIMIT {
                REMOTE_FILESYSTEM_HISTORY_LIMIT as int
            } else {
                start.len() + (if position_of(start, new.request_id) is Some {
                    0int
                } else {
                    1int
                })
            }
        }),
{
    let s = base.insert(p, new);
    let f = s.take(n);
    assert forall|a: int| 0 <= a < s.len() implies #[trigger] s[a] == if a < p {
        base[a]
    } else if a == p {
        new
    } else {
        base[a - 1]
    } by {}
    assert forall|a: int, b: int| 0 <= a < b < f.len() implies (#[trigger] f[a]).requested_at
        >= (#[trigger] f[b]).requested_at by {
        assert(f[a] == s[a] && f[b] == s[b]);
    }
    assert forall|a: int, b: int|
        0 <= a < f.len() && 0 <= b < f.len() && a != b implies (#[trigger] f[a]).request_id != (
        #[trigger] f[b]).request_id by {
        assert(f[a] == s[a] && f[b] == s[b]);
    }
    assert forall|e: RemoteTransferView| #[trigger] f.contains(e) implies candidate(start, new, e) by {
        let a = choose|a: int| 0 <= a < f.len() && f[a] == e;
        assert(s[a] == e);
        if a != p {
            let b = if a < p { a } else { a - 1 };
            assert(base[b] == e);
            assert(base.contains(e));
        }
    }
    assert forall|e: RemoteTransferView, k: RemoteTransferView|
        #[trigger] candidate(start, new, e) && !f.contains(e) && #[trigger] f.contains(k) implies e.requested_at
        <= k.requested_at by {
        let ka = choose|a: int| 0 <= a < f.len() && f[a] == k;
        assert(s[ka] == k);
        let ea = if e == new {
            p
        } else {
            assert(base.contains(e));
            let b = choose|b: int| 0 <= b < base.len() && base[b] == e;
            if b < p {
                b
            } else {
                b + 1
            }
        };
        assert(s[ea] == e);
        if ea < n {
            assert(f[ea] == e);
        }
        assert(ka < ea);
    }
}

proof fn lemma_remove_keeps_order(s: Seq<RemoteTransferView>, i: int)
    requires
        newest_first(s),
        ids_distinct(s),
        0 <= i < s.len(),
    ensures
        newest_first(s.remove(i)),
        ids_distinct(s.remove(i)),
{
    let r = s.remove(i);
    assert forall|a: int, b: int| 0 <= a < b < r.len() implies (#[trigger] r[a]).requested_at
        >= (#[trigger] r[b]).requested_at by {
        let ea = if a < i { a } else { a + 1 };
        let eb = if b < i { b } else { b + 1 };
        assert(r[a] == s[ea] && r[b] == s[eb]);
    }
    assert forall|a: int, b: int|
        0 <= a < r.len() && 0 <= b < r.len() && a != b implies (#[trigger] r[a]).request_id != (
        #[trigger] r[b]).request_id by {
        let ea = if a < i { a } else { a + 1 };
        let eb = if b < i { b } else { b + 1 };
        assert(r[a] == s[ea] && r[b] == s[eb]);
    }
}

proof fn lemma_insert_keeps_order(base: Seq<RemoteTransferView>, new: RemoteTransferView, p: int)
    requires
        newest_first(base),
        ids_distinct(base),
        forall|e: RemoteTransferView| #[trigger] base.contains(e) ==> e.request_id != new.request_id,
        0 <= p <= base.len(),
        forall|j: int| 0 <= j < p ==> (#[trigger] base[j]).requested_at >= new.requested_at,
        p < base.len() ==> base[p].requested_at < new.requested_at,
    ensures
        newest_first(base.insert(p, new)),
        ids_distinct(base.insert(p, new)),
{
    let s = base.insert(p, new);
    assert forall|a: int| 0 <= a < s.len() implies #[trigger] s[a] == if a < p {
        base[a]
    } else if a == p {
        new
    } else {
        base[a - 1]
    } by {}
    assert forall|a: int, b: int| 0 <= a < b < s.len() implies (#[trigger] s[a]).requested_at
        >= (#[trigger] s[b]).requested_at by {
        if a < p && b > p {
            assert(base[a].requested_at >= new.requested_at);
            assert(base[p].requested_at >= base[b - 1].requested_at);
        } else if a == p && b > p {
            assert(base[p].requested_at >= base[b - 1].requested_at);
        }
    }
    assert forall|a: int, b: int|
        0 <= a < s.len() && 0 <= b < s.len() && a != b implies (#[trigger] s[a]).request_id != (
        #[trigger] s[b]).request_id by {
        if a == p && b != p {
            let eb = if b < p { b } else { b - 1 };
            assert(base.contains(base[eb]));
        } else if b == p && a != p {
            let ea = if a < p { a } else { a - 1 };
            assert(base.contains(base[ea]));
        }
    }
}

proof fn lemma_update_keeps_wf(s: Seq<RemoteTransferView>, i: int, e: RemoteTransferView)
    requires
        newest_first(s),
        ids_distinct(s),
        0 <= i < s.len(),
        e.request_id == s[i].request_id,
        e.requested_at == s[i].requested_at,
    ensures
        newest_first(s.update(i, e)),
        ids_distinct(s.update(i, e)),
{
    let u = s.update(i, e);
    assert forall|a: int| 0 <= a < u.len() implies (#[trigger] u[a]).requested_at == s[a].requested_at
        && u[a].request_id == s[a].request_id by {}
}

} // verus!
