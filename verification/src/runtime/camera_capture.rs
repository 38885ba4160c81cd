//! Bookkeeping of native camera captures, and the H.264 byte-stream helpers
//! the capture pipeline uses.
use vstd::prelude::*;

use crate::assoc::{
    entries_map, has_key, keys_distinct, lemma_entries_lookup, lemma_entries_push,
    lemma_entries_remove, lemma_entries_update, lemma_set_push, lemma_set_remove,
};
use crate::error::AppError;
use crate::text::str_eq;

verus! {

/// What a capture is asked to open.
pub struct CameraCaptureRequest {
    pub session_id: String,
    pub generation: u64,
    pub camera_id: String,
    pub width: u32,
    pub height: u32,
    pub fps: u32,
}

/// The format a capture runs with.
#[derive(Clone, Copy, Debug, PartialEq, Eq)]
pub struct CameraCaptureProfile {
    pub width: u32,
    pub height: u32,
    pub fps: u32,
}

struct ActiveCapture {
    session_id: String,
    camera_id: String,
    token: u64,
}

struct StoppingCamera {
    camera_id: String,
    sessions: Vec<String>,
}

struct PendingCameraFrame {
    session_id: String,
    generation: u64,
    keyframe: bool,
    payload: Vec<u8>,
}

/// Which camera a running capture holds, and the cancellation token of its
/// capture thread.
pub struct ActiveView {
    pub camera: Seq<char>,
    pub token: u64,
}

/// The frame waiting to be sent for a session.
pub struct FrameView {
    pub generation: u64,
    pub keyframe: bool,
    pub payload: Seq<u8>,
}

/// The captures by session, the cameras still shutting down with the sessions
/// that stopped on them, the one frame waiting per session, and the sessions
/// whose frame has already been announced.
pub struct CaptureView {
    pub active: Map<Seq<char>, ActiveView>,
    pub stopping: Map<Seq<char>, Set<Seq<char>>>,
    pub pending: Map<Seq<char>, FrameView>,
    pub queued: Set<Seq<char>>,
}

/// The state of all native captures. A capture thread is identified by the
/// token it was reserved with; it may queue frames and finish only under
/// that token.
pub struct CaptureState {
    active: Vec<ActiveCapture>,
    stopping: Vec<StoppingCamera>,
    pending: Vec<PendingCameraFrame>,
    queued: Vec<String>,
}

spec fn active_entries(v: Seq<ActiveCapture>) -> Seq<(Seq<char>, ActiveView)> {
    v.map_values(|a: ActiveCapture| (a.session_id@, ActiveView { camera: a.camera_id@, token: a.token }))
}

spec fn names(v: Seq<String>) -> Seq<Seq<char>> {
    v.map_values(|s: String| s@)
}

spec fn stopping_entries(v: Seq<StoppingCamera>) -> Seq<(Seq<char>, Set<Seq<char>>)> {
    v.map_values(|c: StoppingCamera| (c.camera_id@, names(c.sessions@).to_set()))
}

spec fn pending_entries(v: Seq<PendingCameraFrame>) -> Seq<(Seq<char>, FrameView)> {
    v.map_values(
        |f: PendingCameraFrame|
            (f.session_id@, FrameView { generation: f.generation, keyframe: f.keyframe, payload: f.payload@ }),
    )
}

spec fn stopping_entry_wf(c: StoppingCamera) -> bool {
    names(c.sessions@).no_duplicates() && c.sessions@.len() > 0
}

/// `stopping` with `session` taken out of every camera's set, dropping the
/// cameras left with none.
pub open spec fn release_session(stopping: Map<Seq<char>, Set<Seq<char>>>, session: Seq<char>) -> Map<
    Seq<char>,
    Set<Seq<char>>,
> {
    Map::new(
        |c: Seq<char>| stopping.contains_key(c) && !stopping[c].remove(session).is_empty(),
        |c: Seq<char>| stopping[c].remove(session),
    )
}

impl View for CaptureState {
    type V = CaptureView;

    closed spec fn view(&self) -> CaptureView {
        CaptureView {
            active: entries_map(active_entries(self.active@)),
            stopping: entries_map(stopping_entries(self.stopping@)),
            pending: entries_map(pending_entries(self.pending@)),
            queued: names(self.queued@).to_set(),
        }
    }
}

impl CaptureState {
    /// The internal invariant: keys are unique and no camera is kept shutting
    /// down without a session.
    pub closed spec fn wf(&self) -> bool {
        &&& keys_distinct(active_entries(self.active@))
        &&& keys_distinct(stopping_entries(self.stopping@))
        &&& keys_distinct(pending_entries(self.pending@))
        &&& names(self.queued@).no_duplicates()
        &&& forall|i: int| 0 <= i < self.stopping@.len() ==> stopping_entry_wf(#[trigger] self.stopping@[i])
    }

    /// Every camera that is still shutting down is held by at least one
    /// stopped session.
    pub proof fn lemma_stopping_sets_nonempty(&self)
        requires
            self.wf(),
        ensures
            forall|c: Seq<char>| #[trigger] self@.stopping.contains_key(c) ==> self@.stopping[c].len()
                > 0 && self@.stopping[c].finite(),
    {
        let e = stopping_entries(self.stopping@);
        assert forall|c: Seq<char>| #[trigger] self@.stopping.contains_key(c) implies self@.stopping[c].len() > 0
            && self@.stopping[c].finite() by {
            let i = choose|i: int| 0 <= i < e.len() && e[i].0 == c;
            lemma_entries_lookup(e, i);
            let s = names(self.stopping@[i].sessions@);
            assert(stopping_entry_wf(self.stopping@[i]));
            assert(s.to_set().contains(s[0]));
            vstd::seq_lib::seq_to_set_is_finite(s);
            if s.to_set().len() == 0 {
                s.to_set().lemma_len0_is_empty();
            }
        }
    }

    /// No captures.
    pub fn new() -> (r: Self)
        ensures
            r.wf(),
            r@.active == Map::<Seq<char>, ActiveView>::empty(),
            r@.stopping == Map::<Seq<char>, Set<Seq<char>>>::empty(),
            r@.pending == Map::<Seq<char>, FrameView>::empty(),
            r@.queued == Set::<Seq<char>>::empty(),
    {
        let r = CaptureState { active: Vec::new(), stopping: Vec::new(), pending: Vec::new(), queued: Vec::new() };
        proof {
            assert(r@.active =~= Map::<Seq<char>, ActiveView>::empty());
            assert(r@.stopping =~= Map::<Seq<char>, Set<Seq<char>>>::empty());
            assert(r@.pending =~= Map::<Seq<char>, FrameView>::empty());
            assert(r@.queued =~= Set::<Seq<char>>::empty());
        }
        r
    }

    fn find_active(&self, session_id: &str) -> (r: Option<usize>)
        requires
            self.wf(),
        ensures
            match r {
                Some(i) => i < self.active@.len() && self.active@[i as int].session_id@ == session_id@
                    && self@.active.contains_key(session_id@),
                None => !self@.active.contains_key(session_id@),
            },
    {
        let mut i: usize = 0;
        while i < self.active.len()
            invariant
                self.wf(),
                i <= self.active@.len(),
                forall|j: int| 0 <= j < i ==> self.active@[j].session_id@ != session_id@,
            decreases self.active@.len() - i,
        {
            if str_eq(self.active[i].session_id.as_str(), session_id) {
                proof {
                    lemma_entries_lookup(active_entries(self.active@), i as int);
                }
                return Some(i);
            }
            i = i + 1;
        }
        proof {
            let e = active_entries(self.active@);
            assert forall|j: int| 0 <= j < e.len() implies (#[trigger] e[j]).0 != session_id@ by {
                assert(e[j].0 == self.active@[j].session_id@);
            }
        }
        None
    }

    fn find_stopping(&self, camera_id: &str) -> (r: Option<usize>)
        requires
            self.wf(),
        ensures
            match r {
                Some(i) => i < self.stopping@.len() && self.stopping@[i as int].camera_id@ == camera_id@
                    && self@.stopping.contains_key(camera_id@),
                None => !self@.stopping.contains_key(camera_id@),
            },
    {
        let mut i: usize = 0;
        while i < self.stopping.len()
            invariant
                self.wf(),
                i <= self.stopping@.len(),
                forall|j: int| 0 <= j < i ==> self.stopping@[j].camera_id@ != camera_id@,
            decreases self.stopping@.len() - i,
        {
            if str_eq(self.stopping[i].camera_id.as_str(), camera_id) {
                proof {
                    lemma_entries_lookup(stopping_entries(self.stopping@), i as int);
                }
                return Some(i);
            }
            i = i + 1;
        }
        proof {
            let e = stopping_entries(self.stopping@);
            assert forall|j: int| 0 <= j < e.len() implies (#[trigger] e[j]).0 != camera_id@ by {
                assert(e[j].0 == self.stopping@[j].camera_id@);
            }
        }
        None
    }

    fn find_pending(&self, session_id: &str) -> (r: Option<usize>)
        requires
            self.wf(),
        ensures
            match r {
                Some(i) => i < self.pending@.len() && self.pending@[i as int].session_id@ == session_id@
                    && self@.pending.contains_key(session_id@),
                None => !self@.pending.contains_key(session_id@),
            },
    {
        let mut i: usize = 0;
        while i < self.pending.len()
            invariant
                self.wf(),
                i <= self.pending@.len(),
                forall|j: int| 0 <= j < i ==> self.pending@[j].session_id@ != session_id@,
            decreases self.pending@.len() - i,
        {
            if str_eq(self.pending[i].session_id.as_str(), session_id) {
                proof {
                    lemma_entries_lookup(pending_entries(self.pending@), i as int);
                }
                return Some(i);
            }
            i = i + 1;
        }
        proof {
            let e = pending_entries(self.pending@);
            assert forall|j: int| 0 <= j < e.len() implies (#[trigger] e[j]).0 != session_id@ by {
                assert(e[j].0 == self.pending@[j].session_id@);
            }
        }
        None
    }

    /// Removes `name` from a list of names without duplicates.
    fn remove_name(list: &mut Vec<String>, name: &str)
        requires
            names(old(list)@).no_duplicates(),
        ensures
            names(final(list)@).no_duplicates(),
            names(final(list)@).to_set() == names(old(list)@).to_set().remove(name@),
    {
        let mut i: usize = 0;
        while i < list.len()
            invariant
                i <= list@.len(),
                forall|j: int| 0 <= j < i ==> list@[j]@ != name@,
            ensures
                i <= list@.len(),
                forall|j: int| 0 <= j < i ==> list@[j]@ != name@,
                i < list@.len() ==> list@[i as int]@ == name@,
            decreases list@.len() - i,
        {
            if str_eq(list[i].as_str(), name) {
                break;
            }
            i = i + 1;
        }
        if i < list.len() {
            proof {
                lemma_set_remove(names(list@), i as int);
                assert(names(list@.remove(i as int)) =~= names(list@).remove(i as int));
            }
            list.remove(i);
            return;
        }
        proof {
            let s = names(list@);
            assert(!s.contains(name@)) by {
                if s.contains(name@) {
                    let j = choose|j: int| 0 <= j < s.len() && s[j] == name@;
                    assert(s[j] == list@[j]@);
                }
            }
            assert(s.to_set() =~= s.to_set().remove(name@));
        }
    }

    /// Removes the waiting frame and the announcement of `session_id`.
    fn drop_frames(&mut self, session_id: &str)
        requires
            old(self).wf(),
        ensures
            final(self).wf(),
            final(self).active@ == old(self).active@,
            final(self).stopping@ == old(self).stopping@,
            final(self)@.pending == old(self)@.pending.remove(session_id@),
            final(self)@.queued == old(self)@.queued.remove(session_id@),
    {
        match self.find_pending(session_id) {
            Some(i) => {
                proof {
                    lemma_entries_remove(pending_entries(self.pending@), i as int);
                    assert(pending_entries(self.pending@.remove(i as int)) =~= pending_entries(
                        self.pending@,
                    ).remove(i as int));
                }
                self.pending.remove(i);
            },
            None => {
                proof {
                    assert(self@.pending =~= self@.pending.remove(session_id@));
                }
            },
        }
        Self::remove_name(&mut self.queued, session_id);
    }

    /// Reserves a capture for `request` under `token`. Refused while the
    /// session is capturing, and while its camera is still shutting down
    /// for any session but this one alone (a reconfiguration restarting
    /// its own capture).
    pub fn reserve(&mut self, request: &CameraCaptureRequest, token: u64) -> (r: Result<(), AppError>)
        requires
            old(self).wf(),
        ensures
            final(self).wf(),
            if old(self)@.active.contains_key(request.session_id@) {
                &&& r matches Err(e) && e.message@ == "camera capture is already active"@
                &&& final(self)@ == old(self)@
            } else if old(self)@.stopping.contains_key(request.camera_id@) && old(self)@.stopping[request.camera_id@]
                != set![request.session_id@] {
                &&& r matches Err(e) && e.message@ == "camera is still shutting down"@
                &&& final(self)@ == old(self)@
            } else {
                &&& r is Ok
                &&& final(self)@ == (CaptureView {
                    active: old(self)@.active.insert(
                        request.session_id@,
                        ActiveView { camera: request.camera_id@, token },
                    ),
                    stopping: old(self)@.stopping.remove(request.camera_id@),
                    pending: old(self)@.pending,
                    queued: old(self)@.queued,
                })
            },
    {
        if self.find_active(request.session_id.as_str()).is_some() {
            return Err(AppError::message("camera capture is already active"));
        }
        match self.find_stopping(request.camera_id.as_str()) {
            Some(ci) => {
                let ghost e = stopping_entries(self.stopping@);
                let ghost s = names(self.stopping@[ci as int].sessions@);
                proof {
                    lemma_entries_lookup(e, ci as int);
                    assert(stopping_entry_wf(self.stopping@[ci as int]));
                }
                let own = self.stopping[ci].sessions.len() == 1 && str_eq(
                    self.stopping[ci].sessions[0].as_str(),
                    request.session_id.as_str(),
                );
                proof {
                    if own {
                        assert(s.to_set() =~= set![request.session_id@]) by {
                            assert(s[0] == request.session_id@);
                            assert forall|x: Seq<char>| s.contains(x) implies x == request.session_id@ by {
                                let j = choose|j: int| 0 <= j < s.len() && s[j] == x;
                            }
                            assert(s.contains(s[0]));
                        }
                    } else {
                        if s.to_set() == set![request.session_id@] {
                            assert(s.to_set().contains(request.session_id@));
                            assert(s.contains(request.session_id@));
                            let j = choose|j: int| 0 <= j < s.len() && s[j] == request.session_id@;
                            if s.len() == 1 {
                                assert(j == 0);
                                assert(s[0] == self.stopping@[ci as int].sessions@[0]@);
                            } else {
                                let k = if j == 0 {
                                    1int
                                } else {
                                    0int
                                };
                                assert(s.to_set().contains(s[k]));
                            }
                        }
                    }
                }
                if !own {
                    return Err(AppError::message("camera is still shutting down"));
                }
                proof {
                    lemma_entries_remove(e, ci as int);
                    assert(stopping_entries(self.stopping@.remove(ci as int)) =~= e.remove(ci as int));
                }
                self.stopping.remove(ci);
                proof {
                    assert forall|i: int| 0 <= i < self.stopping@.len() implies stopping_entry_wf(
                        #[trigger] self.stopping@[i],
                    ) by {
                        let oi = if i < ci {
                            i
                        } else {
                            i + 1
                        };
                        assert(self.stopping@[i] == old(self).stopping@[oi]);
                    }
                }
            },
            None => {
                proof {
                    assert(self@.stopping =~= self@.stopping.remove(request.camera_id@));
                }
            },
        }
        let ghost before = active_entries(self.active@);
        let entry = ActiveCapture {
            session_id: request.session_id.clone(),
            camera_id: request.camera_id.clone(),
            token,
        };
        proof {
            lemma_entries_push(before, request.session_id@, ActiveView { camera: request.camera_id@, token });
        }
        self.active.push(entry);
        proof {
            assert(active_entries(self.active@) =~= before.push(
                (request.session_id@, ActiveView { camera: request.camera_id@, token }),
            ));
        }
        Ok(())
    }

    /// Asks the capture of `session_id` to stop: drops its waiting frame,
    /// keeps its camera reserved for it until the capture thread has exited
    /// and the stop has been handled, and gives the token to cancel.
    pub fn request_stop(&mut self, session_id: &str) -> (r: Option<u64>)
        requires
            old(self).wf(),
        ensures
            final(self).wf(),
            final(self)@.active == old(self)@.active,
            final(self)@.pending == old(self)@.pending.remove(session_id@),
            final(self)@.queued == old(self)@.queued.remove(session_id@),
            if old(self)@.active.contains_key(session_id@) {
                let camera = old(self)@.active[session_id@].camera;
                &&& r == Some(old(self)@.active[session_id@].token)
                &&& final(self)@.stopping == old(self)@.stopping.insert(
                    camera,
                    if old(self)@.stopping.contains_key(camera) {
                        old(self)@.stopping[camera].insert(session_id@)
                    } else {
                        set![session_id@]
                    },
                )
            } else {
                &&& r is None
                &&& final(self)@.stopping == old(self)@.stopping
            },
    {
        self.drop_frames(session_id);
        let ai = match self.find_active(session_id) {
            Some(ai) => ai,
            None => return None,
        };
        proof {
            lemma_entries_lookup(active_entries(self.active@), ai as int);
        }
        let camera_id = self.active[ai].camera_id.clone();
        let token = self.active[ai].token;
        let ghost e = stopping_entries(self.stopping@);
        match self.find_stopping(camera_id.as_str()) {
            Some(ci) => {
                proof {
                    lemma_entries_lookup(e, ci as int);
                    assert(stopping_entry_wf(self.stopping@[ci as int]));
                }
                let mut entry = self.stopping.remove(ci);
                let ghost old_names = names(entry.sessions@);
                let mut k: usize = 0;
                while k < entry.sessions.len()
                    invariant
                        k <= entry.sessions@.len(),
                        forall|j: int| 0 <= j < k ==> entry.sessions@[j]@ != session_id@,
                    ensures
                        k <= entry.sessions@.len(),
                        forall|j: int| 0 <= j < k ==> entry.sessions@[j]@ != session_id@,
                        k < entry.sessions@.len() ==> entry.sessions@[k as int]@ == session_id@,
                    decreases entry.sessions@.len() - k,
                {
                    if str_eq(entry.sessions[k].as_str(), session_id) {
                        break;
                    }
                    k = k + 1;
                }
                let present = k < entry.sessions.len();
                proof {
                    if present {
                        assert(old_names[k as int] == session_id@);
                        assert(old_names.contains(session_id@));
                        assert(old_names.to_set() =~= old_names.to_set().insert(session_id@));
                    } else {
                        assert(!old_names.contains(session_id@)) by {
                            if old_names.contains(session_id@) {
                                let j = choose|j: int| 0 <= j < old_names.len() && old_names[j] == session_id@;
                                assert(old_names[j] == entry.sessions@[j]@);
                            }
                        }
                        lemma_set_push(old_names, session_id@);
                    }
                }
                if !present {
                    entry.sessions.push(session_id.to_owned());
                    proof {
                        assert(names(entry.sessions@) =~= old_names.push(session_id@));
                    }
                }
                let ghost new_entry = entry;
                self.stopping.insert(ci, entry);
                proof {
                    let upd = (camera_id@, old(self)@.stopping[camera_id@].insert(session_id@));
                    assert(self.stopping@ =~= old(self).stopping@.update(ci as int, new_entry));
                    assert(stopping_entries(self.stopping@) =~= e.update(ci as int, upd));
                    lemma_entries_update(e, ci as int, upd.1);
                    assert forall|i: int| 0 <= i < self.stopping@.len() implies stopping_entry_wf(
                        #[trigger] self.stopping@[i],
                    ) by {
                        if i != ci {
                            assert(self.stopping@[i] == old(self).stopping@[i]);
                        }
                    }
                }
            },
            None => {
                let mut sessions: Vec<String> = Vec::new();
                sessions.push(session_id.to_owned());
                let entry = StoppingCamera { camera_id, sessions };
                proof {
                    assert(names(entry.sessions@) =~= seq![session_id@]);
                    assert(seq![session_id@].to_set() =~= set![session_id@]) by {
                        assert(seq![session_id@][0] == session_id@);
                    }
                    lemma_entries_push(e, entry.camera_id@, set![session_id@]);
                }
                self.stopping.push(entry);
                proof {
                    assert(stopping_entries(self.stopping@) =~= e.push((entry.camera_id@, set![session_id@])));
                    assert forall|i: int| 0 <= i < self.stopping@.len() implies stopping_entry_wf(
                        #[trigger] self.stopping@[i],
                    ) by {
                        if i < old(self).stopping@.len() {
                            assert(self.stopping@[i] == old(self).stopping@[i]);
                        }
                    }
                }
            },
        }
        Some(token)
    }

    /// Takes the waiting frame of `session_id`, if any, and clears its
    /// announcement.
    pub fn take_frame(&mut self, session_id: &str) -> (r: Option<(u64, bool, Vec<u8>)>)
        requires
            old(self).wf(),
        ensures
            final(self).wf(),
            final(self)@.active == old(self)@.active,
            final(self)@.stopping == old(self)@.stopping,
            final(self)@.pending == old(self)@.pending.remove(session_id@),
            final(self)@.queued == old(self)@.queued.remove(session_id@),
            match r {
                Some((generation, keyframe, payload)) => old(self)@.pending.contains_key(session_id@)
                    && old(self)@.pending[session_id@] == (FrameView { generation, keyframe, payload: payload@ }),
                None => !old(self)@.pending.contains_key(session_id@),
            },
    {
        Self::remove_name(&mut self.queued, session_id);
        match self.find_pending(session_id) {
            Some(i) => {
                proof {
                    lemma_entries_lookup(pending_entries(self.pending@), i as int);
                    lemma_entries_remove(pending_entries(self.pending@), i as int);
                    assert(pending_entries(self.pending@.remove(i as int)) =~= pending_entries(
                        self.pending@,
                    ).remove(i as int));
                }
                let frame = self.pending.remove(i);
                Some((frame.generation, frame.keyframe, frame.payload))
            },
            None => {
                proof {
                    assert(self@.pending =~= self@.pending.remove(session_id@));
                }
                None
            },
        }
    }

    /// Offers a frame from the capture thread holding `token`. Frames of a
    /// session that is not capturing under `token`, or whose token was
    /// cancelled, are dropped. At most one frame waits per session: a new
    /// frame replaces the waiting one unless that one is a keyframe and the
    /// new one is not. Returns whether the session still has to be
    /// announced (it was not announced yet).
    pub fn queue_frame(
        &mut self,
        session_id: &str,
        generation: u64,
        keyframe: bool,
        payload: Vec<u8>,
        token: u64,
        cancelled: bool,
    ) -> (r: bool)
        requires
            old(self).wf(),
        ensures
            final(self).wf(),
            final(self)@.active == old(self)@.active,
            final(self)@.stopping == old(self)@.stopping,
            if !old(self)@.active.contains_key(session_id@) || old(self)@.active[session_id@].token != token
                || cancelled {
                !r && final(self)@ == old(self)@
            } else {
                let replace = !old(self)@.pending.contains_key(session_id@) || keyframe
                    || !old(self)@.pending[session_id@].keyframe;
                &&& r == !old(self)@.queued.contains(session_id@)
                &&& final(self)@.queued == old(self)@.queued.insert(session_id@)
                &&& final(self)@.pending == if replace {
                    old(self)@.pending.insert(
                        session_id@,
                        FrameView { generation, keyframe, payload: payload@ },
                    )
                } else {
                    old(self)@.pending
                }
            },
    {
        let ai = match self.find_active(session_id) {
            Some(ai) => ai,
            None => return false,
        };
        proof {
            lemma_entries_lookup(active_entries(self.active@), ai as int);
        }
        if self.active[ai].token != token || cancelled {
            return false;
        }
        let frame = PendingCameraFrame { session_id: session_id.to_owned(), generation, keyframe, payload };
        let ghost fv = FrameView { generation, keyframe, payload: frame.payload@ };
        let ghost pe = pending_entries(self.pending@);
        match self.find_pending(session_id) {
            Some(pi) => {
                proof {
                    lemma_entries_lookup(pe, pi as int);
                }
                if keyframe || !self.pending[pi].keyframe {
                    proof {
                        lemma_entries_update(pe, pi as int, fv);
                    }
                    self.pending.set(pi, frame);
                    proof {
                        assert(pending_entries(self.pending@) =~= pe.update(pi as int, (session_id@, fv)));
                    }
                }
            },
            None => {
                proof {
                    lemma_entries_push(pe, session_id@, fv);
                }
                self.pending.push(frame);
                proof {
                    assert(pending_entries(self.pending@) =~= pe.push((session_id@, fv)));
                }
            },
        }
        let ghost qn = names(self.queued@);
        let mut k: usize = 0;
        while k < self.queued.len()
            invariant
                k <= self.queued@.len(),
                forall|j: int| 0 <= j < k ==> self.queued@[j]@ != session_id@,
            ensures
                k <= self.queued@.len(),
                forall|j: int| 0 <= j < k ==> self.queued@[j]@ != session_id@,
                k < self.queued@.len() ==> self.queued@[k as int]@ == session_id@,
            decreases self.queued@.len() - k,
        {
            if str_eq(self.queued[k].as_str(), session_id) {
                break;
            }
            k = k + 1;
        }
        if k < self.queued.len() {
            proof {
                assert(qn[k as int] == session_id@);
                assert(qn.to_set() =~= qn.to_set().insert(session_id@));
            }
            return false;
        }
        proof {
            assert(!qn.contains(session_id@)) by {
                if qn.contains(session_id@) {
                    let j = choose|j: int| 0 <= j < qn.len() && qn[j] == session_id@;
                    assert(qn[j] == self.queued@[j]@);
                }
            }
            lemma_set_push(qn, session_id@);
        }
        self.queued.push(session_id.to_owned());
        proof {
            assert(names(self.queued@) =~= qn.push(session_id@));
        }
        true
    }

    /// Ends the capture of `session_id` when its thread, holding `token`,
    /// exits. Its camera stays reserved until the stop is released.
    pub fn finish_capture(&mut self, session_id: &str, token: u64) -> (r: bool)
        requires
            old(self).wf(),
        ensures
            final(self).wf(),
            final(self)@.stopping == old(self)@.stopping,
            r == (old(self)@.active.contains_key(session_id@) && old(self)@.active[session_id@].token == token),
            r ==> final(self)@ == (CaptureView {
                active: old(self)@.active.remove(session_id@),
                stopping: old(self)@.stopping,
                pending: old(self)@.pending.remove(session_id@),
                queued: old(self)@.queued.remove(session_id@),
            }),
            !r ==> final(self)@ == old(self)@,
    {
        let ai = match self.find_active(session_id) {
            Some(ai) => ai,
            None => return false,
        };
        proof {
            lemma_entries_lookup(active_entries(self.active@), ai as int);
        }
        if self.active[ai].token != token {
            return false;
        }
        proof {
            lemma_entries_remove(active_entries(self.active@), ai as int);
            assert(active_entries(self.active@.remove(ai as int)) =~= active_entries(self.active@).remove(
                ai as int,
            ));
        }
        self.active.remove(ai);
        self.drop_frames(session_id);
        true
    }

    /// Releases the cameras held by the stopped session `session_id`, once
    /// it no longer captures.
    pub fn release_stopped_camera(&mut self, session_id: &str)
        requires
            old(self).wf(),
        ensures
            final(self).wf(),
            final(self)@.active == old(self)@.active,
            final(self)@.pending == old(self)@.pending,
            final(self)@.queued == old(self)@.queued,
            final(self)@.stopping == if old(self)@.active.contains_key(session_id@) {
                old(self)@.stopping
            } else {
                release_session(old(self)@.stopping, session_id@)
            },
    {
        if self.find_active(session_id).is_some() {
            return;
        }
        let mut rest: Vec<StoppingCamera> = Vec::new();
        std::mem::swap(&mut rest, &mut self.stopping);
        let ghost orig = rest@;
        let ghost oe = stopping_entries(orig);
        let ghost n = orig.len();
        proof {
            assert(self.stopping@ =~= Seq::<StoppingCamera>::empty());
            assert(entries_map(stopping_entries(self.stopping@)) =~= release_session(
                entries_map(oe.take(0)),
                session_id@,
            ));
        }
        while rest.len() > 0
            invariant
                old(self).wf(),
                self.active@ == old(self).active@,
                self.pending@ == old(self).pending@,
                self.queued@ == old(self).queued@,
                keys_distinct(oe),
                forall|i: int| 0 <= i < orig.len() ==> stopping_entry_wf(#[trigger] orig[i]),
                oe == stopping_entries(orig),
                n == orig.len(),
                rest@.len() <= n,
                rest@ == orig.skip(n - rest@.len()),
                keys_distinct(stopping_entries(self.stopping@)),
                forall|i: int| 0 <= i < self.stopping@.len() ==> stopping_entry_wf(#[trigger] self.stopping@[i]),
                entries_map(stopping_entries(self.stopping@)) == release_session(
                    entries_map(oe.take(n - rest@.len())),
                    session_id@,
                ),
            decreases rest@.len(),
        {
            let ghost i = n - rest@.len();
            proof {
                assert(rest@[0] == orig[i]);
            }
            let mut entry = rest.remove(0);
            proof {
                assert(rest@ =~= orig.skip(i + 1));
                assert(stopping_entry_wf(orig[i]));
            }
            Self::remove_name(&mut entry.sessions, session_id);
            let ghost prefix = oe.take(i);
            proof {
                assert(oe.take(i + 1) =~= prefix.push(oe[i]));
                assert(keys_distinct(prefix)) by {
                    assert forall|a: int, b: int|
                        0 <= a < prefix.len() && 0 <= b < prefix.len() && a != b implies (
                        #[trigger] prefix[a]).0 != (#[trigger] prefix[b]).0 by {
                        assert(prefix[a] == oe[a] && prefix[b] == oe[b]);
                    }
                }
                assert(!has_key(prefix, oe[i].0)) by {
                    if has_key(prefix, oe[i].0) {
                        let a = choose|a: int| 0 <= a < prefix.len() && prefix[a].0 == oe[i].0;
                        assert(prefix[a] == oe[a]);
                    }
                }
                lemma_entries_push(prefix, oe[i].0, oe[i].1);
                assert(oe[i].0 == entry.camera_id@);
            }
            let ghost m = entries_map(prefix);
            let ghost before = stopping_entries(self.stopping@);
            if entry.sessions.len() > 0 {
                proof {
                    assert(!has_key(before, entry.camera_id@)) by {
                        if has_key(before, entry.camera_id@) {
                            let a = choose|a: int| 0 <= a < before.len() && before[a].0 == entry.camera_id@;
                            lemma_entries_lookup(before, a);
                            assert(m.contains_key(entry.camera_id@));
                            let b = choose|b: int| 0 <= b < prefix.len() && prefix[b].0 == entry.camera_id@;
                            assert(prefix[b] == oe[b]);
                        }
                    }
                    lemma_entries_push(before, entry.camera_id@, names(entry.sessions@).to_set());
                    let s = names(entry.sessions@);
                    assert(s.to_set().contains(s[0]));
                    assert(!oe[i].1.remove(session_id@).is_empty());
                    assert(release_session(m.insert(oe[i].0, oe[i].1), session_id@) =~= release_session(
                        m,
                        session_id@,
                    ).insert(entry.camera_id@, names(entry.sessions@).to_set()));
                }
                let ghost pushed = entry;
                let ghost prev = self.stopping@;
                self.stopping.push(entry);
                proof {
                    assert(stopping_entries(self.stopping@) =~= before.push(
                        (pushed.camera_id@, names(pushed.sessions@).to_set()),
                    ));
                    assert(stopping_entry_wf(pushed));
                    assert forall|k: int| 0 <= k < self.stopping@.len() implies stopping_entry_wf(
                        #[trigger] self.stopping@[k],
                    ) by {
                        if k < prev.len() {
                            assert(self.stopping@[k] == prev[k]);
                        }
                    }
                }
            } else {
                proof {
                    assert(names(entry.sessions@).to_set() =~= Set::<Seq<char>>::empty());
                    assert(oe[i].1.remove(session_id@).is_empty());
                    assert(release_session(m.insert(oe[i].0, oe[i].1), session_id@) =~= release_session(
                        m,
                        session_id@,
                    ));
                }
            }
        }
        proof {
            assert(oe.take(n as int) =~= oe);
        }
    }

    /// Whether `session_id` is capturing.
    pub fn is_active(&self, session_id: &str) -> (r: bool)
        requires
            self.wf(),
        ensures
            r == self@.active.contains_key(session_id@),
    {
        self.find_active(session_id).is_some()
    }

    /// Whether `camera_id` is still shutting down.
    pub fn is_camera_stopping(&self, camera_id: &str) -> (r: bool)
        requires
            self.wf(),
        ensures
            r == self@.stopping.contains_key(camera_id@),
    {
        self.find_stopping(camera_id).is_some()
    }
}

/// A capture format a camera offers natively.
#[derive(Clone, Copy, Debug, PartialEq, Eq)]
pub struct NativeCameraMode {
    pub width: u32,
    pub height: u32,
    pub fps: u32,
}

/// `|a - b|`.
pub open spec fn abs_diff(a: int, b: int) -> int {
    if a >= b {
        a - b
    } else {
        b - a
    }
}

/// How far `mode` is from `requested`, compared lexicographically: whether
/// it falls short of the request in any dimension, then the difference of
/// aspect ratios (cross-multiplied), of areas, and of frame rates.
pub open spec fn mode_score(mode: NativeCameraMode, requested: CameraCaptureProfile) -> (u8, u64, u64, u32) {
    let meets = mode.width >= requested.width && mode.height >= requested.height && mode.fps
        >= requested.fps;
    (
        if meets {
            0u8
        } else {
            1u8
        },
        abs_diff(mode.width * requested.height, mode.height * requested.width) as u64,
        abs_diff(mode.width * mode.height, requested.width * requested.height) as u64,
        abs_diff(mode.fps as int, requested.fps as int) as u32,
    )
}

/// Lexicographic order of scores.
pub open spec fn score_lt(a: (u8, u64, u64, u32), b: (u8, u64, u64, u32)) -> bool {
    a.0 < b.0 || (a.0 == b.0 && (a.1 < b.1 || (a.1 == b.1 && (a.2 < b.2 || (a.2 == b.2 && a.3
        < b.3)))))
}

fn abs_diff_u64(a: u64, b: u64) -> (r: u64)
    ensures
        r == abs_diff(a as int, b as int),
{
    if a >= b {
        a - b
    } else {
        b - a
    }
}

/// The score of `mode` for `requested`.
pub fn camera_mode_score(mode: &NativeCameraMode, requested: CameraCaptureProfile) -> (r: (
    u8,
    u64,
    u64,
    u32,
))
    ensures
        r == mode_score(*mode, requested),
{
    let meets_request = mode.width >= requested.width && mode.height >= requested.height
        && mode.fps >= requested.fps;
    proof {
        assert(mode.width * requested.height <= u32::MAX * u32::MAX) by (nonlinear_arith);
        assert(mode.height * requested.width <= u32::MAX * u32::MAX) by (nonlinear_arith);
        assert(mode.width * mode.height <= u32::MAX * u32::MAX) by (nonlinear_arith);
        assert(requested.width * requested.height <= u32::MAX * u32::MAX) by (nonlinear_arith);
    }
    let aspect_delta = abs_diff_u64(
        mode.width as u64 * requested.height as u64,
        mode.height as u64 * requested.width as u64,
    );
    let area_delta = abs_diff_u64(
        mode.width as u64 * mode.height as u64,
        requested.width as u64 * requested.height as u64,
    );
    let fps_delta = if mode.fps >= requested.fps {
        mode.fps - requested.fps
    } else {
        requested.fps - mode.fps
    };
    (
        if meets_request {
            0
        } else {
            1
        },
        aspect_delta,
        area_delta,
        fps_delta,
    )
}

fn score_less(a: (u8, u64, u64, u32), b: (u8, u64, u64, u32)) -> (r: bool)
    ensures
        r == score_lt(a, b),
{
    a.0 < b.0 || (a.0 == b.0 && (a.1 < b.1 || (a.1 == b.1 && (a.2 < b.2 || (a.2 == b.2 && a.3
        < b.3)))))
}

/// The capture format of a mode.
pub open spec fn mode_profile(mode: NativeCameraMode) -> CameraCaptureProfile {
    CameraCaptureProfile { width: mode.width, height: mode.height, fps: mode.fps }
}

/// Whether `mode` reaches the request in width, height and frame rate.
pub open spec fn covers_request(mode: NativeCameraMode, requested: CameraCaptureProfile) -> bool {
    mode.width >= requested.width && mode.height >= requested.height && mode.fps >= requested.fps
}

/// A mode whose score no other mode beats reaches the request whenever some
/// mode does: a mode short of the requested size or frame rate is never
/// preferred to one that reaches it.
pub proof fn lemma_best_mode_covers_request(
    best: NativeCameraMode,
    other: NativeCameraMode,
    requested: CameraCaptureProfile,
)
    requires
        covers_request(other, requested),
        !score_lt(mode_score(other, requested), mode_score(best, requested)),
    ensures
        covers_request(best, requested),
{
}

/// The native mode closest to `requested`: the first one whose score no
/// other mode beats.
pub fn select_camera_mode(modes: &[NativeCameraMode], requested: CameraCaptureProfile) -> (r: Result<
    CameraCaptureProfile,
    AppError,
>)
    ensures
        modes@.len() == 0 ==> (r matches Err(e) && e.message@ == "camera has no native NV12 capture mode"@),
        modes@.len() > 0 ==> exists|i: int|
            0 <= i < modes@.len() && r == Ok::<CameraCaptureProfile, AppError>(mode_profile(modes@[i]))
                && (forall|j: int| 0 <= j < i ==> score_lt(mode_score(modes@[i], requested), mode_score(#[trigger] modes@[j], requested)))
                && (forall|j: int| 0 <= j < modes@.len() ==> !score_lt(mode_score(#[trigger] modes@[j], requested), mode_score(modes@[i], requested))),
        (exists|j: int| 0 <= j < modes@.len() && covers_request(#[trigger] modes@[j], requested)) ==> (r matches Ok(
            p,
        ) && p.width >= requested.width && p.height >= requested.height && p.fps >= requested.fps),
{
    if modes.len() == 0 {
        return Err(AppError::message("camera has no native NV12 capture mode"));
    }
    let mut best: usize = 0;
    let mut best_score = camera_mode_score(&modes[0], requested);
    let mut i: usize = 1;
    while i < modes.len()
        invariant
            1 <= i <= modes@.len(),
            best < i,
            best_score == mode_score(modes@[best as int], requested),
            forall|j: int| 0 <= j < best ==> score_lt(best_score, mode_score(#[trigger] modes@[j], requested)),
            forall|j: int| 0 <= j < i ==> !score_lt(mode_score(#[trigger] modes@[j], requested), best_score),
        decreases modes@.len() - i,
    {
        let score = camera_mode_score(&modes[i], requested);
        if score_less(score, best_score) {
            best = i;
            best_score = score;
        }
        i = i + 1;
    }
    let mode = modes[best];
    proof {
        if exists|j: int| 0 <= j < modes@.len() && covers_request(#[trigger] modes@[j], requested) {
            let j = choose|j: int| 0 <= j < modes@.len() && covers_request(#[trigger] modes@[j], requested);
            lemma_best_mode_covers_request(modes@[best as int], modes@[j], requested);
        }
    }
    Ok(CameraCaptureProfile { width: mode.width, height: mode.height, fps: mode.fps })
}

/// Two 32-bit values packed high then low into one 64-bit attribute.
pub fn pack_pair(first: u32, second: u32) -> (r: u64)
    ensures
        r == first as int * 0x1_0000_0000 + second as int,
{
    let r = ((first as u64) << 32u64) | second as u64;
    proof {
        let f = first as u64;
        let s = second as u64;
        assert(((f << 32u64) | s) == f * 0x1_0000_0000 + s) by (bit_vector)
            requires
                f < 0x1_0000_0000,
                s < 0x1_0000_0000,
        ;
    }
    r
}

/// The native mode described by a packed frame size (width, height) and a
/// packed frame rate (numerator, denominator); `None` when any part is zero.
/// The rate is rounded down to whole frames per second, at least one.
pub fn native_camera_mode(frame_size: u64, frame_rate: u64) -> (r: Option<NativeCameraMode>)
    ensures
        ({
            let width = frame_size / 0x1_0000_0000;
            let height = frame_size % 0x1_0000_0000;
            let numerator = frame_rate / 0x1_0000_0000;
            let denominator = frame_rate % 0x1_0000_0000;
            if width == 0 || height == 0 || numerator == 0 || denominator == 0 {
                r is None
            } else {
                r == Some(
                    NativeCameraMode {
                        width: width as u32,
                        height: height as u32,
                        fps: if numerator / denominator >= 1 {
                            (numerator / denominator) as u32
                        } else {
                            1u32
                        },
                    },
                )
            }
        }),
{
    let width = (frame_size / 0x1_0000_0000) as u32;
    let height = (frame_size % 0x1_0000_0000) as u32;
    let numerator = (frame_rate / 0x1_0000_0000) as u32;
    let denominator = (frame_rate % 0x1_0000_0000) as u32;
    if width == 0 || height == 0 || numerator == 0 || denominator == 0 {
        return None;
    }
    let per_second = numerator / denominator;
    Some(NativeCameraMode { width, height, fps: if per_second >= 1 { per_second } else { 1 } })
}

/// Packing a frame size or rate and reading it back gives the two values.
pub proof fn lemma_pack_pair_roundtrip(first: u32, second: u32)
    ensures
        (first as int * 0x1_0000_0000 + second as int) / 0x1_0000_0000 == first,
        (first as int * 0x1_0000_0000 + second as int) % 0x1_0000_0000 == second,
{
    assert((first as int * 0x1_0000_0000 + second as int) / 0x1_0000_0000 == first) by (nonlinear_arith)
        requires
            0 <= second < 0x1_0000_0000,
    ;
    assert((first as int * 0x1_0000_0000 + second as int) % 0x1_0000_0000 == second) by (nonlinear_arith)
        requires
            0 <= second < 0x1_0000_0000,
    ;
}

} // verus!
