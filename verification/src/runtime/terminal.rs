//! Remote terminals: whether a peer offers one, the checks before opening
//! one, and the viewer side's registry of the sessions it opened.
use vstd::prelude::*;

use crate::assoc::{
    entries_map, has_key, keys_distinct, lemma_entries_lookup, lemma_entries_push,
    lemma_entries_remove, lemma_entries_update,
};
use crate::error::AppError;
use crate::protocol::payloads::BUSINESS_PROTOCOL_VERSION;
use crate::protocol::version::{both_at_least, supports_business_protocol_at_least};
use crate::text::str_eq;

verus! {

/// Whether a peer offers a terminal.
#[derive(Clone, Copy, Debug, PartialEq, Eq, Structural)]
pub enum RemoteTerminalSupport {
    Unknown,
    Supported,
    Unsupported,
}

/// A terminal event for the user interface.
#[derive(Debug, Clone)]
pub struct TerminalUiEvent {
    pub session_id: String,
    pub kind: String,
    pub data: Option<String>,
    pub exit_code: Option<i32>,
    pub message: Option<String>,
}

/// Terminal support of a peer of `peer_version`: business protocol 1.9.0 or
/// later; unknown while its version is.
pub open spec fn terminal_support(peer_version: Option<Seq<char>>) -> RemoteTerminalSupport {
    match peer_version {
        None => RemoteTerminalSupport::Unknown,
        Some(v) => if both_at_least(BUSINESS_PROTOCOL_VERSION@, v, (1, 9, 0)) {
            RemoteTerminalSupport::Supported
        } else {
            RemoteTerminalSupport::Unsupported
        },
    }
}

/// The terminal support of a peer of `peer_version`.
pub fn remote_terminal_support(peer_version: Option<&str>) -> (r: RemoteTerminalSupport)
    ensures
        r == terminal_support(
            match peer_version {
                Some(v) => Some(v@),
                None => None,
            },
        ),
{
    match peer_version {
        None => RemoteTerminalSupport::Unknown,
        Some(version) => if supports_business_protocol_at_least(version, 1, 9, 0) {
            RemoteTerminalSupport::Supported
        } else {
            RemoteTerminalSupport::Unsupported
        },
    }
}

/// Checks a request to open a terminal on a peer of `peer_version`: the
/// size must be positive, and a peer known to be older than 1.9.0 is
/// refused (an unknown version is tried).
pub fn check_remote_terminal_open(cols: u16, rows: u16, peer_version: Option<&str>) -> (r: Result<(), AppError>)
    ensures
        cols == 0 || rows == 0 ==> (r matches Err(e) && e.message@ == "terminal dimensions must be positive"@),
        cols > 0 && rows > 0 && terminal_support(
            match peer_version {
                Some(v) => Some(v@),
                None => None,
            },
        ) == RemoteTerminalSupport::Unsupported ==> (r matches Err(e) && e.message@
            == "remote device does not support terminal control"@),
        cols > 0 && rows > 0 && terminal_support(
            match peer_version {
                Some(v) => Some(v@),
                None => None,
            },
        ) != RemoteTerminalSupport::Unsupported ==> r is Ok,
{
    if cols == 0 || rows == 0 {
        return Err(AppError::message("terminal dimensions must be positive"));
    }
    if remote_terminal_support(peer_version) == RemoteTerminalSupport::Unsupported {
        return Err(AppError::message("remote device does not support terminal control"));
    }
    Ok(())
}

/// Whether a viewer may set the environment variable `key` for a terminal
/// it opens: only `TERM`, `LANG` and `LC_ALL` pass.
pub fn terminal_env_key_allowed(key: &str) -> (r: bool)
    ensures
        r == (key@ == "TERM"@ || key@ == "LANG"@ || key@ == "LC_ALL"@),
{
    str_eq(key, "TERM") || str_eq(key, "LANG") || str_eq(key, "LC_ALL")
}

/// A terminal this device opened on a peer: the peer, and the id of the
/// open request while it has not been answered.
pub struct RemoteSessionView {
    pub device: Seq<char>,
    pub open_request: Option<Seq<char>>,
}

struct RemoteEntry {
    session_id: String,
    device_id: String,
    open_request_id: Option<String>,
}

spec fn remote_entries(v: Seq<RemoteEntry>) -> Seq<(Seq<char>, RemoteSessionView)> {
    v.map_values(
        |e: RemoteEntry|
            (
                e.session_id@,
                RemoteSessionView {
                    device: e.device_id@,
                    open_request: match e.open_request_id {
                        Some(r) => Some(r@),
                        None => None,
                    },
                },
            ),
    )
}

/// The terminals this device opened on peers, by session id.
pub struct RemoteTerminalSessions {
    entries: Vec<RemoteEntry>,
}

impl View for RemoteTerminalSessions {
    type V = Map<Seq<char>, RemoteSessionView>;

    closed spec fn view(&self) -> Map<Seq<char>, RemoteSessionView> {
        entries_map(remote_entries(self.entries@))
    }
}

/// `m` without the sessions on `device`.
pub open spec fn without_device(m: Map<Seq<char>, RemoteSessionView>, device: Seq<char>) -> Map<
    Seq<char>,
    RemoteSessionView,
> {
    Map::new(|k: Seq<char>| m.contains_key(k) && m[k].device != device, |k: Seq<char>| m[k])
}

impl RemoteTerminalSessions {
    /// Session ids are unique.
    pub closed spec fn wf(&self) -> bool {
        keys_distinct(remote_entries(self.entries@))
    }

    /// No sessions.
    pub fn new() -> (r: Self)
        ensures
            r.wf(),
            r@ == Map::<Seq<char>, RemoteSessionView>::empty(),
    {
        let r = RemoteTerminalSessions { entries: Vec::new() };
        proof {
            assert(r@ =~= Map::<Seq<char>, RemoteSessionView>::empty());
        }
        r
    }

    fn find(&self, session_id: &str) -> (r: Option<usize>)
        requires
            self.wf(),
        ensures
            match r {
                Some(i) => i < self.entries@.len() && self.entries@[i as int].session_id@ == session_id@
                    && self@.contains_key(session_id@) && self@[session_id@] == remote_entries(
                    self.entries@,
                )[i as int].1,
                None => !self@.contains_key(session_id@),
            },
    {
        let mut i: usize = 0;
        while i < self.entries.len()
            invariant
                self.wf(),
                i <= self.entries@.len(),
                forall|j: int| 0 <= j < i ==> self.entries@[j].session_id@ != session_id@,
            decreases self.entries@.len() - i,
        {
            if str_eq(self.entries[i].session_id.as_str(), session_id) {
                proof {
                    lemma_entries_lookup(remote_entries(self.entries@), i as int);
                }
                return Some(i);
            }
            i = i + 1;
        }
        proof {
            let e = remote_entries(self.entries@);
            assert forall|j: int| 0 <= j < e.len() implies (#[trigger] e[j]).0 != session_id@ by {
                assert(e[j].0 == self.entries@[j].session_id@);
            }
        }
        None
    }

    fn drop_at(&mut self, i: usize)
        requires
            old(self).wf(),
            i < old(self).entries@.len(),
        ensures
            final(self).wf(),
            final(self).entries@ == old(self).entries@.remove(i as int),
            final(self)@ == old(self)@.remove(old(self).entries@[i as int].session_id@),
    {
        proof {
            lemma_entries_remove(remote_entries(self.entries@), i as int);
            assert(remote_entries(self.entries@.remove(i as int)) =~= remote_entries(self.entries@).remove(
                i as int,
            ));
        }
        self.entries.remove(i);
    }

    /// Records a terminal being opened on `device_id` with open request
    /// `request_id`, replacing any session of that id.
    pub fn register(&mut self, device_id: &str, session_id: &str, request_id: String)
        requires
            old(self).wf(),
        ensures
            final(self).wf(),
            final(self)@ == old(self)@.insert(
                session_id@,
                RemoteSessionView { device: device_id@, open_request: Some(request_id@) },
            ),
    {
        match self.find(session_id) {
            Some(i) => {
                proof {
                    assert(self.entries@[i as int].session_id@ == session_id@);
                }
                self.drop_at(i);
            },
            None => {},
        }
        assert(!self@.contains_key(session_id@));
        let entry = RemoteEntry {
            session_id: session_id.to_owned(),
            device_id: device_id.to_owned(),
            open_request_id: Some(request_id),
        };
        let ghost before = remote_entries(self.entries@);
        let ghost pushed = entry;
        proof {
            lemma_entries_push(
                before,
                session_id@,
                RemoteSessionView { device: device_id@, open_request: Some(pushed.open_request_id->0@) },
            );
        }
        self.entries.push(entry);
        proof {
            assert(remote_entries(self.entries@) =~= before.push(
                (
                    session_id@,
                    RemoteSessionView { device: device_id@, open_request: Some(pushed.open_request_id->0@) },
                ),
            ));
        }
    }

    /// Forgets a session.
    pub fn discard(&mut self, session_id: &str)
        requires
            old(self).wf(),
        ensures
            final(self).wf(),
            final(self)@ == old(self)@.remove(session_id@),
    {
        match self.find(session_id) {
            Some(i) => self.drop_at(i),
            None => {
                proof {
                    assert(self@ =~= self@.remove(session_id@));
                }
            },
        }
    }

    /// The peer `device_id` accepted the open request `correlation_id` of a
    /// session: it is open from now on.
    pub fn accept(&mut self, device_id: &str, session_id: &str, correlation_id: Option<&str>) -> (r: bool)
        requires
            old(self).wf(),
        ensures
            final(self).wf(),
            ({
                let s = old(self)@[session_id@];
                let answers = old(self)@.contains_key(session_id@) && s.device == device_id@
                    && s.open_request == match correlation_id {
                    Some(c) => Some(c@),
                    None => None::<Seq<char>>,
                };
                if answers {
                    r && final(self)@ == old(self)@.insert(
                        session_id@,
                        RemoteSessionView { device: s.device, open_request: None },
                    )
                } else {
                    !r && final(self)@ == old(self)@
                }
            }),
    {
        let i = match self.find(session_id) {
            Some(i) => i,
            None => return false,
        };
        if !str_eq(self.entries[i].device_id.as_str(), device_id) {
            return false;
        }
        let matches_request = match (&self.entries[i].open_request_id, correlation_id) {
            (Some(r), Some(c)) => str_eq(r.as_str(), c),
            (None, None) => true,
            _ => false,
        };
        if !matches_request {
            return false;
        }
        let ghost before = self.entries@;
        let mut entry = self.entries.remove(i);
        entry.open_request_id = None;
        let ghost e = entry;
        self.entries.insert(i, entry);
        proof {
            assert(self.entries@ =~= before.update(i as int, e));
            assert(remote_entries(self.entries@) =~= remote_entries(before).update(
                i as int,
                (e.session_id@, RemoteSessionView { device: e.device_id@, open_request: None }),
            ));
            lemma_entries_update(
                remote_entries(before),
                i as int,
                RemoteSessionView { device: e.device_id@, open_request: None },
            );
        }
        true
    }

    /// Whether a session is an open terminal on `device_id`.
    pub fn is_remote_session(&self, device_id: &str, session_id: &str) -> (r: bool)
        requires
            self.wf(),
        ensures
            r == (self@.contains_key(session_id@) && self@[session_id@].device == device_id@
                && self@[session_id@].open_request is None),
    {
        match self.find(session_id) {
            Some(i) => str_eq(self.entries[i].device_id.as_str(), device_id)
                && self.entries[i].open_request_id.is_none(),
            None => false,
        }
    }

    /// Closes a session on `device_id`.
    pub fn close(&mut self, device_id: &str, session_id: &str) -> (r: bool)
        requires
            old(self).wf(),
        ensures
            final(self).wf(),
            r == (old(self)@.contains_key(session_id@) && old(self)@[session_id@].device == device_id@),
            r ==> final(self)@ == old(self)@.remove(session_id@),
            !r ==> final(self)@ == old(self)@,
    {
        let i = match self.find(session_id) {
            Some(i) => i,
            None => return false,
        };
        if !str_eq(self.entries[i].device_id.as_str(), device_id) {
            return false;
        }
        self.drop_at(i);
        true
    }

    /// Forgets every session on `device_id`.
    pub fn close_for_device(&mut self, device_id: &str)
        requires
            old(self).wf(),
        ensures
            final(self).wf(),
            final(self)@ == without_device(old(self)@, device_id@),
    {
        let ghost start = self@;
        let mut i: usize = 0;
        while i < self.entries.len()
            invariant
                self.wf(),
                i <= self.entries@.len(),
                forall|j: int| 0 <= j < i ==> self.entries@[j].device_id@ != device_id@,
                without_device(self@, device_id@) == without_device(start, device_id@),
                forall|k: Seq<char>| #[trigger] self@.contains_key(k) ==> start.contains_key(k) && self@[k]
                    == start[k],
            decreases self.entries@.len() - i,
        {
            if str_eq(self.entries[i].device_id.as_str(), device_id) {
                let ghost before = self@;
                let ghost key = self.entries@[i as int].session_id@;
                proof {
                    lemma_entries_lookup(remote_entries(self.entries@), i as int);
                }
                let ghost old_entries = self.entries@;
                self.drop_at(i);
                proof {
                    assert(without_device(self@, device_id@) =~= without_device(before, device_id@));
                    assert forall|j: int| 0 <= j < i implies self.entries@[j].device_id@ != device_id@ by {
                        assert(self.entries@[j] == old_entries[j]);
                    }
                }
            } else {
                i = i + 1;
            }
        }
        proof {
            let e = remote_entries(self.entries@);
            assert forall|k: Seq<char>| #[trigger] self@.contains_key(k) implies self@[k].device != device_id@ by {
                let j = choose|j: int| 0 <= j < e.len() && e[j].0 == k;
                lemma_entries_lookup(e, j);
                assert(e[j].1.device == self.entries@[j].device_id@);
            }
            assert(self@ =~= without_device(self@, device_id@));
        }
    }
}

} // verus!
