//! Remote camera sessions: whether a peer can stream its camera, and the
//! host side's bookkeeping of the sessions it serves.
use vstd::prelude::*;

use crate::assoc::{
    entries_map, has_key, keys_distinct, lemma_entries_lookup, lemma_entries_push,
    lemma_entries_remove, lemma_entries_update,
};
use crate::error::AppError;
use crate::protocol::payloads::{
    CameraConfigPayload, CameraEntry, CameraListResultPayload, CameraOpenAckPayload,
    CameraOpenPayload, BUSINESS_PROTOCOL_VERSION,
};
use crate::protocol::version::{both_at_least, supports_business_protocol_at_least};
use crate::runtime::camera_capture::{CameraCaptureProfile, CameraCaptureRequest};
use crate::text::str_eq;

verus! {

/// The business protocol minor version (of major 1) that camera streaming
/// needs.
pub const CAMERA_MINIMUM_MINOR: u64 = 10;

/// A host stops streaming to a viewer silent for longer than this.
pub const CAMERA_ALIVE_TIMEOUT_MS: u64 = 15000;

/// Whether a peer can stream its camera.
#[derive(Clone, Copy, Debug, PartialEq, Eq, Structural)]
pub enum RemoteCameraSupport {
    Unknown,
    Supported,
    Unsupported,
}

/// Camera support of a peer whose business protocol version is
/// `peer_version` (unknown while the version is).
pub open spec fn camera_support(peer_version: Option<Seq<char>>) -> RemoteCameraSupport {
    match peer_version {
        None => RemoteCameraSupport::Unknown,
        Some(v) => if both_at_least(BUSINESS_PROTOCOL_VERSION@, v, (1, CAMERA_MINIMUM_MINOR, 0)) {
            RemoteCameraSupport::Supported
        } else {
            RemoteCameraSupport::Unsupported
        },
    }
}

/// The camera support of a peer of `peer_version`.
pub fn remote_camera_support(peer_version: Option<&str>) -> (r: RemoteCameraSupport)
    ensures
        r == camera_support(
            match peer_version {
                Some(v) => Some(v@),
                None => None,
            },
        ),
{
    match peer_version {
        None => RemoteCameraSupport::Unknown,
        Some(version) => if supports_business_protocol_at_least(version, 1, CAMERA_MINIMUM_MINOR, 0) {
            RemoteCameraSupport::Supported
        } else {
            RemoteCameraSupport::Unsupported
        },
    }
}

/// A camera event for the user interface.
#[derive(Debug, Clone)]
pub struct CameraUiEvent {
    pub session_id: String,
    pub kind: String,
    pub data: Option<String>,
    pub codec: Option<String>,
    pub transport: Option<String>,
    pub width: Option<u32>,
    pub height: Option<u32>,
    pub fps: Option<u32>,
    pub keyframe: Option<bool>,
    pub sequence: Option<u64>,
    pub timestamp_ms: Option<u64>,
    pub message: Option<String>,
}

/// One session this device serves its camera to. Times are milliseconds of
/// a monotonic clock.
pub struct HostCameraSession {
    device_id: String,
    camera_id: String,
    width: u32,
    height: u32,
    fps: u32,
    ready: bool,
    last_alive_ms: Option<u64>,
    sequence: u64,
    started_at_ms: u64,
    transport: Option<String>,
    pending_lan_ready: bool,
    capture_running: bool,
    capture_stopping: bool,
    restart_capture: bool,
    capture_generation: u64,
}

/// What a host session holds.
pub struct HostSessionView {
    pub device: Seq<char>,
    pub camera: Seq<char>,
    pub width: u32,
    pub height: u32,
    pub fps: u32,
    pub ready: bool,
    pub last_alive_ms: Option<u64>,
    pub sequence: u64,
    pub started_at_ms: u64,
    pub transport: Option<Seq<char>>,
    pub pending_lan_ready: bool,
    pub capture_running: bool,
    pub capture_stopping: bool,
    pub restart_capture: bool,
    pub capture_generation: u64,
}

impl View for HostCameraSession {
    type V = HostSessionView;

    closed spec fn view(&self) -> HostSessionView {
        HostSessionView {
            device: self.device_id@,
            camera: self.camera_id@,
            width: self.width,
            height: self.height,
            fps: self.fps,
            ready: self.ready,
            last_alive_ms: self.last_alive_ms,
            sequence: self.sequence,
            started_at_ms: self.started_at_ms,
            transport: match self.transport {
                Some(t) => Some(t@),
                None => None,
            },
            pending_lan_ready: self.pending_lan_ready,
            capture_running: self.capture_running,
            capture_stopping: self.capture_stopping,
            restart_capture: self.restart_capture,
            capture_generation: self.capture_generation,
        }
    }
}

/// The accepted format of a newly opened session.
pub struct HostCameraSessionInfo {
    pub session_id: String,
    pub width: u32,
    pub height: u32,
    pub fps: u32,
}

/// The outcome of a reconfiguration: the new format and whether the running
/// capture must stop to restart with it.
pub struct HostCameraConfigUpdate {
    pub width: u32,
    pub height: u32,
    pub fps: u32,
    pub stop_capture: bool,
}

/// The format a viewer asks for, within the host's limits.
pub struct HostCameraPreferences {
    pub camera_id: String,
    pub width: u32,
    pub height: u32,
    pub fps: u32,
}

/// Whether the viewer was heard from within the timeout.
pub open spec fn alive_within(last_alive_ms: Option<u64>, now_ms: u64) -> bool {
    match last_alive_ms {
        Some(alive) => now_ms <= alive || now_ms - alive <= CAMERA_ALIVE_TIMEOUT_MS,
        None => false,
    }
}

/// `now - then`, or 0 when the clock reads earlier.
pub open spec fn elapsed(then: u64, now_ms: u64) -> u64 {
    if now_ms <= then {
        0
    } else {
        (now_ms - then) as u64
    }
}

/// `value + 1`, saturating.
pub open spec fn bump(value: u64) -> u64 {
    if value == u64::MAX {
        value
    } else {
        (value + 1) as u64
    }
}

/// `value` (or `default` when absent) limited to `low..=high`.
pub open spec fn clamp_or(value: Option<u32>, default: u32, low: u32, high: u32) -> u32 {
    let v = match value {
        Some(v) => v,
        None => default,
    };
    if v < low {
        low
    } else if v > high {
        high
    } else {
        v
    }
}

/// A reason code and message for a refused camera request.
pub type CameraRefusal = (&'static str, &'static str);

/// Whether `r` refuses with `code` and `message`.
pub open spec fn is_refusal<T>(r: Result<T, CameraRefusal>, code: Seq<char>, message: Seq<char>) -> bool {
    r matches Err(e) && e.0@ == code && e.1@ == message
}

struct HostEntry {
    session_id: String,
    session: HostCameraSession,
}

spec fn host_keys(v: Seq<HostEntry>) -> Seq<Seq<char>> {
    v.map_values(|e: HostEntry| e.session_id@)
}

spec fn host_entries(v: Seq<HostEntry>) -> Seq<(Seq<char>, HostSessionView)> {
    v.map_values(|e: HostEntry| (e.session_id@, e.session@))
}

/// The sessions this device serves, by session id.
pub struct HostCameraSessions {
    entries: Vec<HostEntry>,
}

impl View for HostCameraSessions {
    type V = Map<Seq<char>, HostSessionView>;

    closed spec fn view(&self) -> Map<Seq<char>, HostSessionView> {
        entries_map(host_entries(self.entries@))
    }
}

fn clamp_u32(value: Option<u32>, default: u32, low: u32, high: u32) -> (r: u32)
    ensures
        r == clamp_or(value, default, low, high),
{
    let v = match value {
        Some(v) => v,
        None => default,
    };
    if v < low {
        low
    } else if v > high {
        high
    } else {
        v
    }
}

fn fresh(last_alive_ms: Option<u64>, now_ms: u64) -> (r: bool)
    ensures
        r == alive_within(last_alive_ms, now_ms),
{
    match last_alive_ms {
        Some(alive) => now_ms <= alive || now_ms - alive <= CAMERA_ALIVE_TIMEOUT_MS,
        None => false,
    }
}

fn copy_text(s: &String) -> (r: String)
    ensures
        r@ == s@,
{
    s.clone()
}

impl HostCameraSessions {
    /// Session ids are unique.
    pub closed spec fn wf(&self) -> bool {
        keys_distinct(host_entries(self.entries@))
    }

    /// No sessions.
    pub fn new() -> (r: Self)
        ensures
            r.wf(),
            r@ == Map::<Seq<char>, HostSessionView>::empty(),
    {
        let r = HostCameraSessions { entries: Vec::new() };
        proof {
            assert(r@ =~= Map::<Seq<char>, HostSessionView>::empty());
        }
        r
    }

    fn find(&self, session_id: &str) -> (r: Option<usize>)
        requires
            self.wf(),
        ensures
            match r {
                Some(i) => i < self.entries@.len() && self.entries@[i as int].session_id@ == session_id@
                    && self@.contains_key(session_id@) && self@[session_id@]
                    == self.entries@[i as int].session@,
                None => !self@.contains_key(session_id@),
            },
    {
        let mut i: usize = 0;
        while i < self.entries.len()
            invariant
                self.wf(),
                i <= self.entries@.len(),
                forall|j: int| 0 <= j < i ==> self.entries@[j].session_id@ != session_id@,
            decreases self.entries@.len() - i,
        {
            if str_eq(self.entries[i].session_id.as_str(), session_id) {
                proof {
                    lemma_entries_lookup(host_entries(self.entries@), i as int);
                }
                return Some(i);
            }
            i = i + 1;
        }
        proof {
            let e = host_entries(self.entries@);
            assert forall|j: int| 0 <= j < e.len() implies (#[trigger] e[j]).0 != session_id@ by {
                assert(e[j].0 == self.entries@[j].session_id@);
            }
        }
        None
    }

    /// Takes the entry at `i` out, to be put back with `put_back`.
    fn take_out(&mut self, i: usize) -> (r: HostEntry)
        requires
            old(self).wf(),
            i < old(self).entries@.len(),
        ensures
            r == old(self).entries@[i as int],
            final(self).entries@ == old(self).entries@.remove(i as int),
    {
        self.entries.remove(i)
    }

    /// Puts an entry back where `take_out` took it from.
    fn put_back(&mut self, i: usize, entry: HostEntry, Ghost(before): Ghost<Seq<HostEntry>>)
        requires
            keys_distinct(host_entries(before)),
            i < before.len(),
            old(self).entries@ == before.remove(i as int),
            entry.session_id@ == before[i as int].session_id@,
        ensures
            final(self).wf(),
            final(self).entries@ == before.update(i as int, entry),
            final(self)@ == entries_map(host_entries(before)).insert(entry.session_id@, entry.session@),
    {
        let ghost e = entry;
        self.entries.insert(i, entry);
        proof {
            assert(self.entries@ =~= before.update(i as int, e));
            assert(host_entries(self.entries@) =~= host_entries(before).update(
                i as int,
                (e.session_id@, e.session@),
            ));
            lemma_entries_update(host_entries(before), i as int, e.session@);
        }
    }

    /// Removes the entry at `i`.
    fn drop_at(&mut self, i: usize) -> (r: HostEntry)
        requires
            old(self).wf(),
            i < old(self).entries@.len(),
        ensures
            final(self).wf(),
            r == old(self).entries@[i as int],
            final(self).entries@ == old(self).entries@.remove(i as int),
            final(self)@ == old(self)@.remove(r.session_id@),
    {
        proof {
            lemma_entries_remove(host_entries(self.entries@), i as int);
            assert(host_entries(self.entries@.remove(i as int)) =~= host_entries(self.entries@).remove(
                i as int,
            ));
        }
        self.entries.remove(i)
    }

    /// Opens a session serving `device_id` in `profile`. Refused unless the
    /// viewer offers H.264, and when the session id is taken.
    pub fn open(
        &mut self,
        device_id: &str,
        payload: &CameraOpenPayload,
        profile: CameraCaptureProfile,
        now_ms: u64,
    ) -> (r: Result<HostCameraSessionInfo, CameraRefusal>)
        requires
            old(self).wf(),
        ensures
            final(self).wf(),
            !(exists|i: int| 0 <= i < payload.preferred_codecs@.len() && (#[trigger] payload.preferred_codecs@[i])@ == "h264"@)
                ==> is_refusal(r, "colink:camera.no_common_codec.v1"@, "No H.264 camera codec was offered"@) && final(self)@ == old(self)@,
            (exists|i: int| 0 <= i < payload.preferred_codecs@.len() && (#[trigger] payload.preferred_codecs@[i])@ == "h264"@)
                && old(self)@.contains_key(payload.session_id@) ==> is_refusal(r, "colink:camera.session_conflict.v1"@, "camera session already exists"@) && final(self)@ == old(self)@,
            (exists|i: int| 0 <= i < payload.preferred_codecs@.len() && (#[trigger] payload.preferred_codecs@[i])@ == "h264"@)
                && !old(self)@.contains_key(payload.session_id@) ==> (r matches Ok(info)
                && info.session_id@ == payload.session_id@ && info.width == profile.width && info.height
                == profile.height && info.fps == profile.fps) && final(self)@ == old(self)@.insert(
                payload.session_id@,
                HostSessionView {
                    device: device_id@,
                    camera: payload.camera_id@,
                    width: profile.width,
                    height: profile.height,
                    fps: profile.fps,
                    ready: false,
                    last_alive_ms: None,
                    sequence: 0,
                    started_at_ms: now_ms,
                    transport: None,
                    pending_lan_ready: false,
                    capture_running: false,
                    capture_stopping: false,
                    restart_capture: false,
                    capture_generation: 0,
                },
            ),
    {
        let mut k: usize = 0;
        let mut offered = false;
        while k < payload.preferred_codecs.len()
            invariant
                k <= payload.preferred_codecs@.len(),
                offered == exists|j: int| 0 <= j < k && (#[trigger] payload.preferred_codecs@[j])@ == "h264"@,
            decreases payload.preferred_codecs@.len() - k,
        {
            if str_eq(payload.preferred_codecs[k].as_str(), "h264") {
                offered = true;
            }
            k = k + 1;
        }
        if !offered {
            return Err(("colink:camera.no_common_codec.v1", "No H.264 camera codec was offered"));
        }
        if self.find(payload.session_id.as_str()).is_some() {
            return Err(("colink:camera.session_conflict.v1", "camera session already exists"));
        }
        let session = HostCameraSession {
            device_id: device_id.to_owned(),
            camera_id: copy_text(&payload.camera_id),
            width: profile.width,
            height: profile.height,
            fps: profile.fps,
            ready: false,
            last_alive_ms: None,
            sequence: 0,
            started_at_ms: now_ms,
            transport: None,
            pending_lan_ready: false,
            capture_running: false,
            capture_stopping: false,
            restart_capture: false,
            capture_generation: 0,
        };
        let entry = HostEntry { session_id: copy_text(&payload.session_id), session };
        let ghost before = host_entries(self.entries@);
        proof {
            lemma_entries_push(before, entry.session_id@, entry.session@);
        }
        let ghost pushed = entry;
        self.entries.push(entry);
        proof {
            assert(host_entries(self.entries@) =~= before.push((pushed.session_id@, pushed.session@)));
        }
        Ok(HostCameraSessionInfo {
            session_id: copy_text(&payload.session_id),
            width: profile.width,
            height: profile.height,
            fps: profile.fps,
        })
    }

    /// Marks a session of `device_id` ready to stream over `transport`
    /// (`lan` or `relay`). A LAN session whose connection is not up yet
    /// waits for it instead. Returns whether the session became ready.
    pub fn mark_ready(&mut self, device_id: &str, session_id: &str, transport: &str, lan_connected: bool) -> (r:
        bool)
        requires
            old(self).wf(),
        ensures
            final(self).wf(),
            ({
                let s = old(self)@[session_id@];
                let applies = (transport@ == "lan"@ || transport@ == "relay"@) && old(self)@.contains_key(
                    session_id@,
                ) && s.device == device_id@ && !s.ready && !s.pending_lan_ready;
                if !applies {
                    !r && final(self)@ == old(self)@
                } else if transport@ == "lan"@ && !lan_connected {
                    !r && final(self)@ == old(self)@.insert(
                        session_id@,
                        HostSessionView { pending_lan_ready: true, ..s },
                    )
                } else {
                    r && final(self)@ == old(self)@.insert(
                        session_id@,
                        HostSessionView { ready: true, transport: Some(transport@), ..s },
                    )
                }
            }),
    {
        let is_lan = str_eq(transport, "lan");
        if !is_lan && !str_eq(transport, "relay") {
            return false;
        }
        let i = match self.find(session_id) {
            Some(i) => i,
            None => return false,
        };
        if !str_eq(self.entries[i].session.device_id.as_str(), device_id) || self.entries[i].session.ready
            || self.entries[i].session.pending_lan_ready {
            return false;
        }
        let ghost before = self.entries@;
        let mut entry = self.take_out(i);
        let ready = if is_lan && !lan_connected {
            entry.session.pending_lan_ready = true;
            false
        } else {
            entry.session.ready = true;
            entry.session.transport = Some(transport.to_owned());
            true
        };
        self.put_back(i, entry, Ghost(before));
        ready
    }

    /// The LAN connection of a session waiting for it came up: the session
    /// becomes ready over LAN.
    pub fn mark_lan_connected(&mut self, session_id: &str) -> (r: bool)
        requires
            old(self).wf(),
        ensures
            final(self).wf(),
            ({
                let s = old(self)@[session_id@];
                if old(self)@.contains_key(session_id@) && !s.ready && s.pending_lan_ready {
                    r && final(self)@ == old(self)@.insert(
                        session_id@,
                        HostSessionView {
                            pending_lan_ready: false,
                            ready: true,
                            transport: Some("lan"@),
                            ..s
                        },
                    )
                } else {
                    !r && final(self)@ == old(self)@
                }
            }),
    {
        let i = match self.find(session_id) {
            Some(i) => i,
            None => return false,
        };
        if self.entries[i].session.ready || !self.entries[i].session.pending_lan_ready {
            return false;
        }
        let ghost before = self.entries@;
        let mut entry = self.take_out(i);
        entry.session.pending_lan_ready = false;
        entry.session.ready = true;
        entry.session.transport = Some("lan".to_owned());
        self.put_back(i, entry, Ghost(before));
        true
    }

    /// Starts the capture of a ready session that is not capturing or
    /// stopping, under the next generation.
    pub fn begin_capture(&mut self, session_id: &str) -> (r: Option<CameraCaptureRequest>)
        requires
            old(self).wf(),
        ensures
            final(self).wf(),
            ({
                let s = old(self)@[session_id@];
                if old(self)@.contains_key(session_id@) && s.ready && !s.capture_running && !s.capture_stopping {
                    let t = HostSessionView {
                        capture_running: true,
                        restart_capture: false,
                        capture_generation: bump(s.capture_generation),
                        ..s
                    };
                    &&& final(self)@ == old(self)@.insert(session_id@, t)
                    &&& r matches Some(req) && req.session_id@ == session_id@ && req.generation
                        == t.capture_generation && req.camera_id@ == s.camera && req.width == s.width
                        && req.height == s.height && req.fps == s.fps
                } else {
                    r is None && final(self)@ == old(self)@
                }
            }),
    {
        let i = match self.find(session_id) {
            Some(i) => i,
            None => return None,
        };
        if !self.entries[i].session.ready || self.entries[i].session.capture_running
            || self.entries[i].session.capture_stopping {
            return None;
        }
        let ghost before = self.entries@;
        let mut entry = self.take_out(i);
        entry.session.capture_running = true;
        entry.session.restart_capture = false;
        entry.session.capture_generation = entry.session.capture_generation.saturating_add(1);
        let request = CameraCaptureRequest {
            session_id: session_id.to_owned(),
            generation: entry.session.capture_generation,
            camera_id: copy_text(&entry.session.camera_id),
            width: entry.session.width,
            height: entry.session.height,
            fps: entry.session.fps,
        };
        self.put_back(i, entry, Ghost(before));
        Some(request)
    }

    /// Applies a new format to a session of `device_id`. A running capture
    /// is asked to stop and marked to restart once it has; one already
    /// stopping is marked to restart.
    pub fn reconfigure(&mut self, device_id: &str, payload: &CameraConfigPayload, profile: CameraCaptureProfile) -> (r:
        Result<HostCameraConfigUpdate, CameraRefusal>)
        requires
            old(self).wf(),
        ensures
            final(self).wf(),
            ({
                let s = old(self)@[payload.session_id@];
                if !old(self)@.contains_key(payload.session_id@) || s.device != device_id@ {
                    is_refusal(r, "colink:camera.session_not_found.v1"@, "camera session does not exist"@) && final(self)@ == old(self)@
                } else {
                    let t = HostSessionView {
                        width: profile.width,
                        height: profile.height,
                        fps: profile.fps,
                        capture_running: false,
                        capture_stopping: s.capture_running || s.capture_stopping,
                        restart_capture: if s.capture_running || s.capture_stopping {
                            true
                        } else {
                            s.restart_capture
                        },
                        ..s
                    };
                    &&& final(self)@ == old(self)@.insert(payload.session_id@, t)
                    &&& r matches Ok(u) && u.width == profile.width && u.height == profile.height && u.fps
                        == profile.fps && u.stop_capture == s.capture_running
                }
            }),
    {
        let i = match self.find(payload.session_id.as_str()) {
            Some(i) => i,
            None => return Err(("colink:camera.session_not_found.v1", "camera session does not exist")),
        };
        if !str_eq(self.entries[i].session.device_id.as_str(), device_id) {
            return Err(("colink:camera.session_not_found.v1", "camera session does not exist"));
        }
        let ghost before = self.entries@;
        let mut entry = self.take_out(i);
        entry.session.width = profile.width;
        entry.session.height = profile.height;
        entry.session.fps = profile.fps;
        let stop_capture = entry.session.capture_running;
        if stop_capture {
            entry.session.capture_running = false;
            entry.session.capture_stopping = true;
            entry.session.restart_capture = true;
        } else if entry.session.capture_stopping {
            entry.session.restart_capture = true;
        }
        self.put_back(i, entry, Ghost(before));
        Ok(HostCameraConfigUpdate { width: profile.width, height: profile.height, fps: profile.fps, stop_capture })
    }

    /// The format a viewer of `device_id` asks for: each dimension as
    /// requested or as the session has it, within 160..=1280 by 120..=720
    /// at 1..=24 frames per second.
    pub fn preferences(&self, device_id: &str, payload: &CameraConfigPayload) -> (r: Result<
        HostCameraPreferences,
        CameraRefusal,
    >)
        requires
            self.wf(),
        ensures
            ({
                let s = self@[payload.session_id@];
                if !self@.contains_key(payload.session_id@) || s.device != device_id@ {
                    is_refusal(r, "colink:camera.session_not_found.v1"@, "camera session does not exist"@)
                } else {
                    r matches Ok(p) && p.camera_id@ == s.camera && p.width == clamp_or(
                        payload.width,
                        s.width,
                        160,
                        1280,
                    ) && p.height == clamp_or(payload.height, s.height, 120, 720) && p.fps == clamp_or(
                        payload.fps,
                        s.fps,
                        1,
                        24,
                    )
                }
            }),
    {
        let i = match self.find(payload.session_id.as_str()) {
            Some(i) => i,
            None => return Err(("colink:camera.session_not_found.v1", "camera session does not exist")),
        };
        let session = &self.entries[i].session;
        if !str_eq(session.device_id.as_str(), device_id) {
            return Err(("colink:camera.session_not_found.v1", "camera session does not exist"));
        }
        Ok(HostCameraPreferences {
            camera_id: copy_text(&session.camera_id),
            width: clamp_u32(payload.width, session.width, 160, 1280),
            height: clamp_u32(payload.height, session.height, 120, 720),
            fps: clamp_u32(payload.fps, session.fps, 1, 24),
        })
    }

    /// Records that the viewer `device_id` of a session is still watching.
    pub fn receive_alive(&mut self, device_id: &str, session_id: &str, now_ms: u64) -> (r: bool)
        requires
            old(self).wf(),
        ensures
            final(self).wf(),
            ({
                let s = old(self)@[session_id@];
                if old(self)@.contains_key(session_id@) && s.device == device_id@ {
                    r && final(self)@ == old(self)@.insert(
                        session_id@,
                        HostSessionView { last_alive_ms: Some(now_ms), ..s },
                    )
                } else {
                    !r && final(self)@ == old(self)@
                }
            }),
    {
        let i = match self.find(session_id) {
            Some(i) => i,
            None => return false,
        };
        if !str_eq(self.entries[i].session.device_id.as_str(), device_id) {
            return false;
        }
        let ghost before = self.entries@;
        let mut entry = self.take_out(i);
        entry.session.last_alive_ms = Some(now_ms);
        self.put_back(i, entry, Ghost(before));
        true
    }

    /// The addressing of the next frame of capture `generation`: viewer,
    /// transport, sequence number and milliseconds since the session opened.
    /// None unless that capture runs, the session is ready and the viewer
    /// was heard from recently.
    pub fn next_frame(&mut self, session_id: &str, generation: u64, now_ms: u64) -> (r: Option<
        (String, String, u64, u64),
    >)
        requires
            old(self).wf(),
        ensures
            final(self).wf(),
            ({
                let s = old(self)@[session_id@];
                if old(self)@.contains_key(session_id@) && s.capture_running && s.capture_generation
                    == generation && s.ready && alive_within(s.last_alive_ms, now_ms) {
                    &&& final(self)@ == old(self)@.insert(
                        session_id@,
                        HostSessionView { sequence: bump(s.sequence), ..s },
                    )
                    &&& match s.transport {
                        Some(t) => r matches Some((device, transport, sequence, at)) && device@
                            == s.device && transport@ == t && sequence == s.sequence && at == elapsed(
                            s.started_at_ms,
                            now_ms,
                        ),
                        None => r is None,
                    }
                } else {
                    r is None && final(self)@ == old(self)@
                }
            }),
    {
        let i = match self.find(session_id) {
            Some(i) => i,
            None => return None,
        };
        let s = &self.entries[i].session;
        if !s.capture_running || s.capture_generation != generation || !s.ready || !fresh(
            s.last_alive_ms,
            now_ms,
        ) {
            return None;
        }
        let ghost before = self.entries@;
        let mut entry = self.take_out(i);
        let sequence = entry.session.sequence;
        entry.session.sequence = entry.session.sequence.saturating_add(1);
        let device = copy_text(&entry.session.device_id);
        let transport = match &entry.session.transport {
            Some(t) => Some(copy_text(t)),
            None => None,
        };
        let at = if now_ms <= entry.session.started_at_ms {
            0
        } else {
            now_ms - entry.session.started_at_ms
        };
        self.put_back(i, entry, Ghost(before));
        match transport {
            Some(t) => Some((device, t, sequence, at)),
            None => None,
        }
    }

    /// Closes a session of `device_id`.
    pub fn close(&mut self, device_id: &str, session_id: &str) -> (r: bool)
        requires
            old(self).wf(),
        ensures
            final(self).wf(),
            r == (old(self)@.contains_key(session_id@) && old(self)@[session_id@].device == device_id@),
            r ==> final(self)@ == old(self)@.remove(session_id@),
            !r ==> final(self)@ == old(self)@,
    {
        let i = match self.find(session_id) {
            Some(i) => i,
            None => return false,
        };
        if !str_eq(self.entries[i].session.device_id.as_str(), device_id) {
            return false;
        }
        self.drop_at(i);
        true
    }

    /// Closes a session whoever views it, giving its viewer.
    pub fn close_by_id(&mut self, session_id: &str) -> (r: Option<String>)
        requires
            old(self).wf(),
        ensures
            final(self).wf(),
            final(self)@ == old(self)@.remove(session_id@),
            match r {
                Some(d) => old(self)@.contains_key(session_id@) && d@ == old(self)@[session_id@].device,
                None => !old(self)@.contains_key(session_id@),
            },
    {
        match self.find(session_id) {
            Some(i) => {
                let entry = self.drop_at(i);
                Some(entry.session.device_id)
            },
            None => {
                proof {
                    assert(self@ =~= self@.remove(session_id@));
                }
                None
            },
        }
    }

    /// Ends a session whose capture `generation` failed, giving its viewer;
    /// nothing when that capture is not the running one.
    pub fn fail_capture(&mut self, session_id: &str, generation: u64) -> (r: Option<String>)
        requires
            old(self).wf(),
        ensures
            final(self).wf(),
            ({
                let s = old(self)@[session_id@];
                if old(self)@.contains_key(session_id@) && s.capture_running && s.capture_generation
                    == generation {
                    final(self)@ == old(self)@.remove(session_id@) && (r matches Some(d) && d@ == s.device)
                } else {
                    r is None && final(self)@ == old(self)@
                }
            }),
    {
        let i = match self.find(session_id) {
            Some(i) => i,
            None => return None,
        };
        if !self.entries[i].session.capture_running || self.entries[i].session.capture_generation
            != generation {
            return None;
        }
        let entry = self.drop_at(i);
        Some(entry.session.device_id)
    }

    /// The capture `generation` of a session has stopped. When a restart
    /// was asked for and the session is ready with its viewer recently
    /// heard from, the capture restarts under the next generation.
    pub fn finish_capture(&mut self, session_id: &str, generation: u64, now_ms: u64) -> (r: Option<
        CameraCaptureRequest,
    >)
        requires
            old(self).wf(),
        ensures
            final(self).wf(),
            ({
                let s = old(self)@[session_id@];
                if !old(self)@.contains_key(session_id@) || s.capture_generation != generation {
                    r is None && final(self)@ == old(self)@
                } else if s.restart_capture && s.ready && alive_within(s.last_alive_ms, now_ms) {
                    let t = HostSessionView {
                        capture_running: true,
                        capture_stopping: false,
                        restart_capture: false,
                        capture_generation: bump(s.capture_generation),
                        ..s
                    };
                    &&& final(self)@ == old(self)@.insert(session_id@, t)
                    &&& r matches Some(req) && req.session_id@ == session_id@ && req.generation
                        == t.capture_generation && req.camera_id@ == s.camera && req.width == s.width
                        && req.height == s.height && req.fps == s.fps
                } else {
                    &&& r is None
                    &&& final(self)@ == old(self)@.insert(
                        session_id@,
                        HostSessionView {
                            capture_running: false,
                            capture_stopping: false,
                            restart_capture: false,
                            ..s
                        },
                    )
                }
            }),
    {
        let i = match self.find(session_id) {
            Some(i) => i,
            None => return None,
        };
        if self.entries[i].session.capture_generation != generation {
            return None;
        }
        let ghost before = self.entries@;
        let mut entry = self.take_out(i);
        entry.session.capture_running = false;
        entry.session.capture_stopping = false;
        if !entry.session.restart_capture || !entry.session.ready || !fresh(
            entry.session.last_alive_ms,
            now_ms,
        ) {
            entry.session.restart_capture = false;
            self.put_back(i, entry, Ghost(before));
            return None;
        }
        entry.session.restart_capture = false;
        entry.session.capture_running = true;
        entry.session.capture_generation = entry.session.capture_generation.saturating_add(1);
        let request = CameraCaptureRequest {
            session_id: session_id.to_owned(),
            generation: entry.session.capture_generation,
            camera_id: copy_text(&entry.session.camera_id),
            width: entry.session.width,
            height: entry.session.height,
            fps: entry.session.fps,
        };
        self.put_back(i, entry, Ghost(before));
        Some(request)
    }

    /// Closes every session viewed by `device_id`, giving their ids.
    pub fn close_for_device(&mut self, device_id: &str) -> (r: Vec<String>)
        requires
            old(self).wf(),
        ensures
            final(self).wf(),
            final(self)@ == hosts_without_device(old(self)@, device_id@),
            forall|k: Seq<char>|
                #[trigger] texts_of(r@).contains(k) <==> (old(self)@.contains_key(k)
                    && old(self)@[k].device == device_id@),
    {
        let ghost start = self@;
        let mut removed: Vec<String> = Vec::new();
        let mut i: usize = 0;
        while i < self.entries.len()
            invariant
                self.wf(),
                i <= self.entries@.len(),
                forall|j: int| 0 <= j < i ==> self.entries@[j].session.device_id@ != device_id@,
                hosts_without_device(self@, device_id@) == hosts_without_device(start, device_id@),
                forall|k: Seq<char>| #[trigger] self@.contains_key(k) ==> start.contains_key(k) && self@[k]
                    == start[k],
                forall|k: Seq<char>|
                    #[trigger] texts_of(removed@).contains(k) <==> (start.contains_key(k)
                        && start[k].device == device_id@ && !self@.contains_key(k)),
            decreases self.entries@.len() - i,
        {
            if str_eq(self.entries[i].session.device_id.as_str(), device_id) {
                let ghost before = self@;
                let ghost old_entries = self.entries@;
                let ghost old_removed = texts_of(removed@);
                proof {
                    lemma_entries_lookup(host_entries(self.entries@), i as int);
                }
                let entry = self.drop_at(i);
                let ghost key = entry.session_id@;
                removed.push(entry.session_id);
                proof {
                    assert(hosts_without_device(self@, device_id@) =~= hosts_without_device(before, device_id@));
                    assert forall|j: int| 0 <= j < i implies self.entries@[j].session.device_id@ != device_id@ by {
                        assert(self.entries@[j] == old_entries[j]);
                    }
                    assert(texts_of(removed@) =~= old_removed.push(key));
                    assert forall|k: Seq<char>|
                        #[trigger] texts_of(removed@).contains(k) <==> (start.contains_key(k)
                            && start[k].device == device_id@ && !self@.contains_key(k)) by {
                        if old_removed.push(key).contains(k) {
                            let j = choose|j: int| 0 <= j < old_removed.push(key).len() && old_removed.push(key)[j] == k;
                            if j < old_removed.len() {
                                assert(old_removed[j] == k);
                                assert(old_removed.contains(k));
                            }
                        }
                        if old_removed.contains(k) {
                            let j = choose|j: int| 0 <= j < old_removed.len() && old_removed[j] == k;
                            assert(old_removed.push(key)[j] == k);
                        }
                        if k == key {
                            assert(old_removed.push(key)[old_removed.len() as int] == k);
                        }
                    }
                }
            } else {
                i = i + 1;
            }
        }
        proof {
            let e = host_entries(self.entries@);
            assert forall|k: Seq<char>| #[trigger] self@.contains_key(k) implies self@[k].device != device_id@ by {
                let j = choose|j: int| 0 <= j < e.len() && e[j].0 == k;
                lemma_entries_lookup(e, j);
                assert(e[j].1.device == self.entries@[j].session.device_id@);
            }
            assert(self@ =~= hosts_without_device(self@, device_id@));
            assert forall|k: Seq<char>|
                #[trigger] texts_of(removed@).contains(k) <==> (start.contains_key(k)
                    && start[k].device == device_id@) by {
                if start.contains_key(k) && start[k].device == device_id@ && self@.contains_key(k) {
                    assert(self@[k] == start[k]);
                }
            }
        }
        removed
    }

    /// Closes every session, giving their ids.
    pub fn close_all(&mut self) -> (r: Vec<String>)
        requires
            old(self).wf(),
        ensures
            final(self).wf(),
            final(self)@ == Map::<Seq<char>, HostSessionView>::empty(),
            forall|k: Seq<char>| #[trigger] texts_of(r@).contains(k) <==> old(self)@.contains_key(k),
    {
        let mut entries: Vec<HostEntry> = Vec::new();
        std::mem::swap(&mut entries, &mut self.entries);
        let ghost all = host_entries(entries@);
        let mut ids: Vec<String> = Vec::new();
        let n = entries.len();
        let mut i: usize = 0;
        while i < n
            invariant
                n == entries@.len(),
                all == host_entries(entries@),
                i <= n,
                texts_of(ids@) == host_keys(entries@.take(i as int)),
            decreases n - i,
        {
            let id = copy_text(&entries[i].session_id);
            let ghost old_ids = ids@;
            ids.push(id);
            proof {
                let prev = host_keys(entries@.take(i as int));
                assert(texts_of(old_ids) == prev);
                assert(host_keys(entries@.take(i + 1)) =~= prev.push(entries@[i as int].session_id@));
                assert(texts_of(ids@) =~= texts_of(old_ids).push(entries@[i as int].session_id@));
            }
            i = i + 1;
        }
        proof {
            assert(self@ =~= Map::<Seq<char>, HostSessionView>::empty());
            assert(entries@.take(n as int) =~= entries@);
            assert forall|k: Seq<char>| #[trigger] texts_of(ids@).contains(k) <==> old(self)@.contains_key(k) by {
                let t = texts_of(ids@);
                if t.contains(k) {
                    let j = choose|j: int| 0 <= j < t.len() && t[j] == k;
                    assert(all[j].0 == k);
                    assert(has_key(all, k));
                }
                if old(self)@.contains_key(k) {
                    let j = choose|j: int| 0 <= j < all.len() && all[j].0 == k;
                    assert(t[j] == k);
                }
            }
        }
        ids
    }

    /// Whether the session exists.
    pub fn contains(&self, session_id: &str) -> (r: bool)
        requires
            self.wf(),
        ensures
            r == self@.contains_key(session_id@),
    {
        self.find(session_id).is_some()
    }

    /// Closes a session whose viewer has been silent past the timeout (or,
    /// never heard from, opened longer ago than that), giving its viewer.
    pub fn expire(&mut self, session_id: &str, now_ms: u64) -> (r: Option<String>)
        requires
            old(self).wf(),
        ensures
            final(self).wf(),
            ({
                let s = old(self)@[session_id@];
                let expired = match s.last_alive_ms {
                    Some(alive) => elapsed(alive, now_ms) > CAMERA_ALIVE_TIMEOUT_MS,
                    None => elapsed(s.started_at_ms, now_ms) > CAMERA_ALIVE_TIMEOUT_MS,
                };
                if old(self)@.contains_key(session_id@) && expired {
                    final(self)@ == old(self)@.remove(session_id@) && (r matches Some(d) && d@ == s.device)
                } else {
                    r is None && final(self)@ == old(self)@
                }
            }),
    {
        let i = match self.find(session_id) {
            Some(i) => i,
            None => return None,
        };
        let since = match self.entries[i].session.last_alive_ms {
            Some(alive) => alive,
            None => self.entries[i].session.started_at_ms,
        };
        let waited = if now_ms <= since {
            0
        } else {
            now_ms - since
        };
        if waited <= CAMERA_ALIVE_TIMEOUT_MS {
            return None;
        }
        let entry = self.drop_at(i);
        Some(entry.session.device_id)
    }
}

// ---------------------------------------------------------------------------
// Viewer side
// ---------------------------------------------------------------------------

/// A camera this device asked a peer to stream: the peer, the id of the
/// open request, whether the peer accepted, and the codec it chose.
pub struct RemoteCameraView {
    pub device: Seq<char>,
    pub open_request: Seq<char>,
    pub open: bool,
    pub codec: Option<Seq<char>>,
}

struct RemoteCameraEntry {
    session_id: String,
    device_id: String,
    open_request_id: String,
    open: bool,
    codec: Option<String>,
}

/// The text of an optional string.
pub open spec fn opt_seq(s: Option<String>) -> Option<Seq<char>> {
    match s {
        Some(v) => Some(v@),
        None => None,
    }
}

spec fn remote_camera_entries(v: Seq<RemoteCameraEntry>) -> Seq<(Seq<char>, RemoteCameraView)> {
    v.map_values(
        |e: RemoteCameraEntry|
            (
                e.session_id@,
                RemoteCameraView {
                    device: e.device_id@,
                    open_request: e.open_request_id@,
                    open: e.open,
                    codec: opt_seq(e.codec),
                },
            ),
    )
}

/// The cameras this device asked peers to stream, by session id.
pub struct RemoteCameraSessions {
    entries: Vec<RemoteCameraEntry>,
}

impl View for RemoteCameraSessions {
    type V = Map<Seq<char>, RemoteCameraView>;

    closed spec fn view(&self) -> Map<Seq<char>, RemoteCameraView> {
        entries_map(remote_camera_entries(self.entries@))
    }
}

/// `m` without the sessions viewed by `device`.
pub open spec fn hosts_without_device(m: Map<Seq<char>, HostSessionView>, device: Seq<char>) -> Map<
    Seq<char>,
    HostSessionView,
> {
    Map::new(|k: Seq<char>| m.contains_key(k) && m[k].device != device, |k: Seq<char>| m[k])
}

/// The texts of a list of strings.
pub open spec fn texts_of(v: Seq<String>) -> Seq<Seq<char>> {
    v.map_values(|s: String| s@)
}

/// `m` without the sessions on `device`.
pub open spec fn cameras_without_device(m: Map<Seq<char>, RemoteCameraView>, device: Seq<char>) -> Map<
    Seq<char>,
    RemoteCameraView,
> {
    Map::new(|k: Seq<char>| m.contains_key(k) && m[k].device != device, |k: Seq<char>| m[k])
}

impl RemoteCameraSessions {
    /// Session ids are unique.
    pub closed spec fn wf(&self) -> bool {
        keys_distinct(remote_camera_entries(self.entries@))
    }

    /// No sessions.
    pub fn new() -> (r: Self)
        ensures
            r.wf(),
            r@ == Map::<Seq<char>, RemoteCameraView>::empty(),
    {
        let r = RemoteCameraSessions { entries: Vec::new() };
        proof {
            assert(r@ =~= Map::<Seq<char>, RemoteCameraView>::empty());
        }
        r
    }

    fn find(&self, session_id: &str) -> (r: Option<usize>)
        requires
            self.wf(),
        ensures
            match r {
                Some(i) => i < self.entries@.len() && self.entries@[i as int].session_id@ == session_id@
                    && self@.contains_key(session_id@) && self@[session_id@] == remote_camera_entries(
                    self.entries@,
                )[i as int].1,
                None => !self@.contains_key(session_id@),
            },
    {
        let mut i: usize = 0;
        while i < self.entries.len()
            invariant
                self.wf(),
                i <= self.entries@.len(),
                forall|j: int| 0 <= j < i ==> self.entries@[j].session_id@ != session_id@,
            decreases self.entries@.len() - i,
        {
            if str_eq(self.entries[i].session_id.as_str(), session_id) {
                proof {
                    lemma_entries_lookup(remote_camera_entries(self.entries@), i as int);
                }
                return Some(i);
            }
            i = i + 1;
        }
        proof {
            let e = remote_camera_entries(self.entries@);
            assert forall|j: int| 0 <= j < e.len() implies (#[trigger] e[j]).0 != session_id@ by {
                assert(e[j].0 == self.entries@[j].session_id@);
            }
        }
        None
    }

    fn drop_at(&mut self, i: usize) -> (r: RemoteCameraEntry)
        requires
            old(self).wf(),
            i < old(self).entries@.len(),
        ensures
            final(self).wf(),
            r == old(self).entries@[i as int],
            final(self).entries@ == old(self).entries@.remove(i as int),
            final(self)@ == old(self)@.remove(old(self).entries@[i as int].session_id@),
    {
        proof {
            lemma_entries_remove(remote_camera_entries(self.entries@), i as int);
            assert(remote_camera_entries(self.entries@.remove(i as int)) =~= remote_camera_entries(
                self.entries@,
            ).remove(i as int));
        }
        self.entries.remove(i)
    }

    /// Records a camera being opened on `device_id` with open request
    /// `request_id`, replacing any session of that id.
    pub fn register(&mut self, device_id: &str, session_id: &str, request_id: String)
        requires
            old(self).wf(),
        ensures
            final(self).wf(),
            final(self)@ == old(self)@.insert(
                session_id@,
                RemoteCameraView { device: device_id@, open_request: request_id@, open: false, codec: None },
            ),
    {
        match self.find(session_id) {
            Some(i) => {
                self.drop_at(i);
            },
            None => {},
        }
        assert(!self@.contains_key(session_id@));
        let entry = RemoteCameraEntry {
            session_id: session_id.to_owned(),
            device_id: device_id.to_owned(),
            open_request_id: request_id,
            open: false,
            codec: None,
        };
        let ghost before = remote_camera_entries(self.entries@);
        let ghost pushed = entry;
        let ghost v = RemoteCameraView { device: device_id@, open_request: pushed.open_request_id@, open: false, codec: None };
        proof {
            lemma_entries_push(before, session_id@, v);
        }
        self.entries.push(entry);
        proof {
            assert(remote_camera_entries(self.entries@) =~= before.push((session_id@, v)));
        }
    }

    /// Forgets a session.
    pub fn discard(&mut self, session_id: &str)
        requires
            old(self).wf(),
        ensures
            final(self).wf(),
            final(self)@ == old(self)@.remove(session_id@),
    {
        match self.find(session_id) {
            Some(i) => {
                self.drop_at(i);
            },
            None => {
                proof {
                    assert(self@ =~= self@.remove(session_id@));
                }
            },
        }
    }

    /// The peer `device_id` answered the open request `correlation_id`
    /// (none counts as empty): when it accepted, the session is open with
    /// the codec the peer chose.
    pub fn accept(&mut self, device_id: &str, payload: &CameraOpenAckPayload, correlation_id: Option<&str>) -> (r: bool)
        requires
            old(self).wf(),
        ensures
            final(self).wf(),
            ({
                let s = old(self)@[payload.session_id@];
                let request = match correlation_id {
                    Some(c) => c@,
                    None => Seq::<char>::empty(),
                };
                if old(self)@.contains_key(payload.session_id@) && s.device == device_id@ && s.open_request
                    == request && payload.accepted {
                    r && final(self)@ == old(self)@.insert(
                        payload.session_id@,
                        RemoteCameraView { open: true, codec: opt_seq(payload.negotiated_codec), ..s },
                    )
                } else {
                    !r && final(self)@ == old(self)@
                }
            }),
    {
        let i = match self.find(payload.session_id.as_str()) {
            Some(i) => i,
            None => return false,
        };
        let request = match correlation_id {
            Some(c) => c,
            None => "",
        };
        proof {
            reveal_strlit("");
            assert(""@ =~= Seq::<char>::empty());
        }
        if !str_eq(self.entries[i].device_id.as_str(), device_id) || !str_eq(
            self.entries[i].open_request_id.as_str(),
            request,
        ) || !payload.accepted {
            return false;
        }
        let ghost before = self.entries@;
        let mut entry = self.entries.remove(i);
        entry.open = true;
        entry.codec = match &payload.negotiated_codec {
            Some(c) => Some(copy_text(c)),
            None => None,
        };
        let ghost e = entry;
        self.entries.insert(i, entry);
        proof {
            let v = RemoteCameraView { device: e.device_id@, open_request: e.open_request_id@, open: true, codec: opt_seq(e.codec) };
            assert(self.entries@ =~= before.update(i as int, e));
            assert(remote_camera_entries(self.entries@) =~= remote_camera_entries(before).update(
                i as int,
                (e.session_id@, v),
            ));
            lemma_entries_update(remote_camera_entries(before), i as int, v);
        }
        true
    }

    /// The codec of an open session on `device_id`.
    pub fn codec(&self, device_id: &str, session_id: &str) -> (r: Option<String>)
        requires
            self.wf(),
        ensures
            ({
                let s = self@[session_id@];
                if self@.contains_key(session_id@) && s.device == device_id@ && s.open {
                    opt_seq(r) == s.codec
                } else {
                    r is None
                }
            }),
    {
        match self.find(session_id) {
            Some(i) => {
                if !str_eq(self.entries[i].device_id.as_str(), device_id) || !self.entries[i].open {
                    return None;
                }
                match &self.entries[i].codec {
                    Some(c) => Some(copy_text(c)),
                    None => None,
                }
            },
            None => None,
        }
    }

    /// The codec of an open session, whoever streams it.
    pub fn codec_by_id(&self, session_id: &str) -> (r: Option<String>)
        requires
            self.wf(),
        ensures
            if self@.contains_key(session_id@) && self@[session_id@].open {
                opt_seq(r) == self@[session_id@].codec
            } else {
                r is None
            },
    {
        match self.find(session_id) {
            Some(i) => {
                if !self.entries[i].open {
                    return None;
                }
                match &self.entries[i].codec {
                    Some(c) => Some(copy_text(c)),
                    None => None,
                }
            },
            None => None,
        }
    }

    /// Closes a session whoever streams it; whether there was one.
    pub fn close_by_id(&mut self, session_id: &str) -> (r: bool)
        requires
            old(self).wf(),
        ensures
            final(self).wf(),
            r == old(self)@.contains_key(session_id@),
            final(self)@ == old(self)@.remove(session_id@),
    {
        match self.find(session_id) {
            Some(i) => {
                self.drop_at(i);
                true
            },
            None => {
                proof {
                    assert(self@ =~= self@.remove(session_id@));
                }
                false
            },
        }
    }

    /// Closes a session streamed by `device_id`.
    pub fn close(&mut self, device_id: &str, session_id: &str) -> (r: bool)
        requires
            old(self).wf(),
        ensures
            final(self).wf(),
            r == (old(self)@.contains_key(session_id@) && old(self)@[session_id@].device == device_id@),
            r ==> final(self)@ == old(self)@.remove(session_id@),
            !r ==> final(self)@ == old(self)@,
    {
        let i = match self.find(session_id) {
            Some(i) => i,
            None => return false,
        };
        if !str_eq(self.entries[i].device_id.as_str(), device_id) {
            return false;
        }
        self.drop_at(i);
        true
    }

    /// Forgets every session streamed by `device_id`, giving their ids.
    pub fn close_for_device(&mut self, device_id: &str) -> (r: Vec<String>)
        requires
            old(self).wf(),
        ensures
            final(self).wf(),
            final(self)@ == cameras_without_device(old(self)@, device_id@),
            forall|k: Seq<char>|
                #[trigger] texts_of(r@).contains(k) <==> (old(self)@.contains_key(k)
                    && old(self)@[k].device == device_id@),
    {
        let ghost start = self@;
        let mut removed: Vec<String> = Vec::new();
        let mut i: usize = 0;
        while i < self.entries.len()
            invariant
                self.wf(),
                i <= self.entries@.len(),
                forall|j: int| 0 <= j < i ==> self.entries@[j].device_id@ != device_id@,
                cameras_without_device(self@, device_id@) == cameras_without_device(start, device_id@),
                forall|k: Seq<char>| #[trigger] self@.contains_key(k) ==> start.contains_key(k) && self@[k]
                    == start[k],
                forall|k: Seq<char>|
                    #[trigger] texts_of(removed@).contains(k) <==> (start.contains_key(k)
                        && start[k].device == device_id@ && !self@.contains_key(k)),
            decreases self.entries@.len() - i,
        {
            if str_eq(self.entries[i].device_id.as_str(), device_id) {
                let ghost before = self@;
                let ghost old_entries = self.entries@;
                let ghost old_removed = texts_of(removed@);
                proof {
                    lemma_entries_lookup(remote_camera_entries(self.entries@), i as int);
                }
                let entry = self.drop_at(i);
                let ghost key = entry.session_id@;
                removed.push(entry.session_id);
                proof {
                    assert(cameras_without_device(self@, device_id@) =~= cameras_without_device(before, device_id@));
                    assert forall|j: int| 0 <= j < i implies self.entries@[j].device_id@ != device_id@ by {
                        assert(self.entries@[j] == old_entries[j]);
                    }
                    assert(texts_of(removed@) =~= old_removed.push(key));
                    assert forall|k: Seq<char>|
                        texts_of(removed@).contains(k) <==> (start.contains_key(k)
                            && start[k].device == device_id@ && !self@.contains_key(k)) by {
                        if old_removed.push(key).contains(k) {
                            let j = choose|j: int| 0 <= j < old_removed.push(key).len() && old_removed.push(key)[j] == k;
                            if j < old_removed.len() {
                                assert(old_removed[j] == k);
                                assert(old_removed.contains(k));
                            }
                        }
                        if old_removed.contains(k) {
                            let j = choose|j: int| 0 <= j < old_removed.len() && old_removed[j] == k;
                            assert(old_removed.push(key)[j] == k);
                        }
                        if k == key {
                            assert(old_removed.push(key)[old_removed.len() as int] == k);
                        }
                    }
                }
            } else {
                i = i + 1;
            }
        }
        proof {
            let e = remote_camera_entries(self.entries@);
            assert forall|k: Seq<char>| #[trigger] self@.contains_key(k) implies self@[k].device != device_id@ by {
                let j = choose|j: int| 0 <= j < e.len() && e[j].0 == k;
                lemma_entries_lookup(e, j);
                assert(e[j].1.device == self.entries@[j].device_id@);
            }
            assert(self@ =~= cameras_without_device(self@, device_id@));
            assert forall|k: Seq<char>|
                #[trigger] texts_of(removed@).contains(k) <==> (start.contains_key(k)
                    && start[k].device == device_id@) by {
                if start.contains_key(k) && start[k].device == device_id@ && self@.contains_key(k) {
                    assert(self@[k] == start[k]);
                }
            }
        }
        removed
    }
}

// ---------------------------------------------------------------------------
// Handler decisions
// ---------------------------------------------------------------------------

/// The format a viewer asks a camera for: 960x540 at 15 frames per second
/// when the host is reachable over the LAN, 640x360 at 8 through the relay.
pub fn viewer_requested_format(lan_available: bool) -> (r: (u32, u32, u32))
    ensures
        r == (if lan_available {
            (960u32, 540u32, 15u32)
        } else {
            (640u32, 360u32, 8u32)
        }),
{
    if lan_available {
        (960, 540, 15)
    } else {
        (640, 360, 8)
    }
}

/// The format a host captures in for an open request: each dimension as
/// asked or 1280x720 at 15, within 160..=1280 by 120..=720 at 1..=24 frames
/// per second.
pub fn requested_capture_format(payload: &CameraOpenPayload) -> (r: (u32, u32, u32))
    ensures
        r == (
            clamp_or(payload.preferred_width, 1280, 160, 1280),
            clamp_or(payload.preferred_height, 720, 120, 720),
            clamp_or(payload.preferred_fps, 15, 1, 24),
        ),
{
    (
        clamp_u32(payload.preferred_width, 1280, 160, 1280),
        clamp_u32(payload.preferred_height, 720, 120, 720),
        clamp_u32(payload.preferred_fps, 15, 1, 24),
    )
}

/// What a camera list request comes to: the host's message (or, without
/// one, its reason) as an error, the cameras when it gave neither.
pub fn camera_list_outcome(payload: CameraListResultPayload) -> (r: Result<Vec<CameraEntry>, AppError>)
    ensures
        payload.message matches Some(m) ==> (r matches Err(e) && e.message@ == m@),
        payload.message is None ==> (payload.reason matches Some(m) ==> (r matches Err(e)
            && e.message@ == m@)),
        payload.message is None && payload.reason is None ==> r == Ok::<Vec<CameraEntry>, AppError>(
            payload.cameras,
        ),
{
    let CameraListResultPayload { cameras, reason, message } = payload;
    match message {
        Some(m) => Err(AppError { message: m }),
        None => match reason {
            Some(m) => Err(AppError { message: m }),
            None => Ok(cameras),
        },
    }
}

} // verus!
