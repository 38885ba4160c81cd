use std::collections::HashMap;
use vstd::prelude::*;

verus! {

// Wire versions and message type names.
pub const LAN_PROTOCOL_VERSION: &'static str = "1.4.0";
pub const BUSINESS_PROTOCOL_VERSION: &'static str = "1.16.0";
pub const CLOUD_WEBSOCKET_PROTOCOL_VERSION: &'static str = "1.1.0";
pub const TEXT_MESSAGE_TYPE: &'static str = "message.v1.text";
pub const TEXT_MESSAGE_RECEIPT_TYPE: &'static str = "message.v1.receipt";
pub const CLIPBOARD_SYNC_TYPE: &'static str = "clipboard.v1.sync";
pub const FILE_OFFER_TYPE: &'static str = "file.v2.offer";
pub const FILE_ACCEPT_TYPE: &'static str = "file.v2.accept";
pub const FILE_REJECT_TYPE: &'static str = "file.v2.reject";
pub const FILE_CANCEL_TYPE: &'static str = "file.v2.cancel";
pub const FILE_READY_TYPE: &'static str = "file.v2.ready";
pub const FILE_CHUNK_TYPE: &'static str = "file.v2.chunk";
pub const FILE_ACK_TYPE: &'static str = "file.v2.ack";
pub const FILE_RETRANSMIT_TYPE: &'static str = "file.v2.retransmit";
pub const FILE_DONE_TYPE: &'static str = "file.v2.done";
pub const FILE_V3_OFFER_TYPE: &'static str = "file.v3.offer";
pub const FILE_V3_ACCEPT_TYPE: &'static str = "file.v3.accept";
pub const FILE_V3_REJECT_TYPE: &'static str = "file.v3.reject";
pub const FILE_V3_CANCEL_TYPE: &'static str = "file.v3.cancel";
pub const FILE_V3_READY_TYPE: &'static str = "file.v3.ready";
pub const FILE_V3_CHUNK_TYPE: &'static str = "file.v3.chunk";
pub const FILE_V3_ACK_TYPE: &'static str = "file.v3.ack";
pub const FILE_V3_RETRANSMIT_TYPE: &'static str = "file.v3.retransmit";
pub const FILE_V3_FINISH_TYPE: &'static str = "file.v3.finish";
pub const FILE_V3_DONE_TYPE: &'static str = "file.v3.done";
pub const MUSIC_TRACK_TYPE: &'static str = "music.v1.track";
pub const MUSIC_LYRIC_TYPE: &'static str = "music.v1.lyric";
pub const MUSIC_PROGRESS_TYPE: &'static str = "music.v1.progress";
pub const MUSIC_ALIVE_TYPE: &'static str = "music.v1.alive";
pub const MUSIC_REQUEST_TYPE: &'static str = "music.v1.request";
pub const SYSINFO_STATS_TYPE: &'static str = "sysinfo.v1.stats";
pub const SYSINFO_ALIVE_TYPE: &'static str = "sysinfo.v1.alive";
pub const FS_ROOTS_TYPE: &'static str = "fs.v1.roots";
pub const FS_ROOTS_RESULT_TYPE: &'static str = "fs.v1.roots-result";
pub const FS_LIST_TYPE: &'static str = "fs.v1.list";
pub const FS_LIST_RESULT_TYPE: &'static str = "fs.v1.list-result";
pub const FS_STAT_TYPE: &'static str = "fs.v1.stat";
pub const FS_STAT_RESULT_TYPE: &'static str = "fs.v1.stat-result";
pub const FS_DOWNLOAD_TYPE: &'static str = "fs.v1.download";
pub const FS_UPLOAD_TYPE: &'static str = "fs.v1.upload";
pub const FS_UPLOAD_READY_TYPE: &'static str = "fs.v1.upload-ready";
pub const FS_ERROR_TYPE: &'static str = "fs.v1.error";
pub const SYSTEM_CONTROL_COMMAND_TYPE: &'static str = "system-control.v1.command";
pub const SYSTEM_CONTROL_QUERY_TYPE: &'static str = "system-control.v1.query";
pub const SYSTEM_CONTROL_RESULT_TYPE: &'static str = "system-control.v1.result";
pub const SYSTEM_CONTROL_ERROR_TYPE: &'static str = "system-control.v1.error";
pub const TERMINAL_OPEN_TYPE: &'static str = "terminal.v1.open";
pub const TERMINAL_OPEN_ACK_TYPE: &'static str = "terminal.v1.open-ack";
pub const TERMINAL_DATA_TYPE: &'static str = "terminal.v1.data";
pub const TERMINAL_RESIZE_TYPE: &'static str = "terminal.v1.resize";
pub const TERMINAL_CLOSE_TYPE: &'static str = "terminal.v1.close";
pub const CAMERA_LIST_TYPE: &'static str = "camera.v1.list";
pub const CAMERA_LIST_RESULT_TYPE: &'static str = "camera.v1.list-result";
pub const CAMERA_OPEN_TYPE: &'static str = "camera.v1.open";
pub const CAMERA_OPEN_ACK_TYPE: &'static str = "camera.v1.open-ack";
pub const CAMERA_READY_TYPE: &'static str = "camera.v1.ready";
pub const CAMERA_ALIVE_TYPE: &'static str = "camera.v1.alive";
pub const CAMERA_CONFIG_TYPE: &'static str = "camera.v1.config";
pub const CAMERA_CONFIG_ACK_TYPE: &'static str = "camera.v1.config-ack";
pub const CAMERA_CLOSE_TYPE: &'static str = "camera.v1.close";
pub const CAMERA_FRAME_TYPE: &'static str = "camera.v1.frame";

// Message payloads exchanged between devices.

#[derive(Debug, Clone)]
pub struct TextMessagePayload {
    pub message_id: String,
    pub text: String,
}

#[derive(Debug, Clone)]
pub struct ClipboardSyncPayload {
    pub content_type: String,
    pub content: Option<String>,
    pub data: Option<String>,
}

#[derive(Debug, Clone)]
pub struct FileOfferPayload {
    pub session_id: String,
    pub file_name: String,
    pub file_size: i64,
    pub total_chunks: i64,
    pub chunk_size: i64,
    pub checksum: String,
}

#[derive(Debug, Clone)]
pub struct FileV3OfferPayload {
    pub session_id: String,
    pub file_name: String,
    pub file_size: i64,
    pub checksum: String,
}

#[derive(Debug, Clone)]
pub struct FileAcceptPayload {
    pub session_id: String,
    pub transfer_token: String,
}

#[derive(Debug, Clone)]
pub struct FileV3AcceptPayload {
    pub session_id: String,
    pub transfer_token: Option<String>,
}

#[derive(Debug, Clone)]
pub struct FileReadyPayload {
    pub session_id: String,
}

#[derive(Debug, Clone)]
pub struct FileV3ReadyPayload {
    pub session_id: String,
    pub cert_fingerprint: String,
}

#[derive(Debug, Clone)]
pub struct FileChunkPayload {
    pub session_id: String,
    pub chunk_index: i64,
    pub data: String,
}

#[derive(Debug, Clone)]
pub struct FileAckPayload {
    pub session_id: String,
    pub next_expected_index: i64,
}

#[derive(Debug, Clone)]
pub struct FileRetransmitPayload {
    pub session_id: String,
    pub chunk_index: i64,
}

#[derive(Debug, Clone)]
pub struct FileFinishPayload {
    pub session_id: String,
    pub total_chunks: i64,
}

#[derive(Debug, Clone)]
pub struct MusicTrackPayload {
    pub track_id: Option<String>,
    pub title: Option<String>,
    pub artists: Option<Vec<String>>,
    pub album: Option<String>,
    pub source: Option<String>,
    pub cover_url: Option<String>,
    pub cover_data: Option<String>,
    pub duration: Option<i64>,
}

#[derive(Debug, Clone)]
pub struct MusicLyricLinePayload {
    pub time: i64,
    pub text: String,
}

#[derive(Debug, Clone)]
pub struct MusicLyricPayload {
    pub track_id: String,
    pub lines: Option<Vec<MusicLyricLinePayload>>,
    pub translated_lines: Option<Vec<MusicLyricLinePayload>>,
}

#[derive(Debug, Clone)]
pub struct MusicProgressPayload {
    pub track_id: String,
    pub progress: i64,
    pub paused: bool,
}

#[derive(Debug, Clone)]
pub struct DeviceOnlinePayload {
    pub name: String,
    pub device_type: String,
    pub business_version: String,
    pub ws_version: Option<String>,
}

#[derive(Debug, Clone)]
pub struct TextMessageReceiptPayload {
    pub message_id: String,
}

#[derive(Debug, Clone)]
pub struct PushNotificationPayload {
    pub title: Option<String>,
    pub subtitle: Option<String>,
    pub body: Option<String>,
    pub markdown: Option<String>,
    pub level: Option<String>,
    pub volume: Option<i32>,
    pub badge: Option<i32>,
    pub sound: Option<String>,
    pub icon: Option<String>,
    pub image: Option<String>,
    pub group: Option<String>,
    pub url: Option<String>,
    pub copy: Option<String>,
    pub auto_copy: Option<bool>,
    pub call: Option<bool>,
    pub is_archive: Option<bool>,
    pub ttl: Option<i32>,
    pub id: Option<String>,
    pub delete: Option<bool>,
    pub action: Option<String>,
    pub ciphertext: Option<String>,
}

#[derive(Debug, Clone)]
pub struct ProtocolHelloAckEnvelope {
    pub message_type: String,
    pub payload: VersionAckPayload,
}

#[derive(Debug, Clone)]
pub struct VersionAckPayload {
    pub compatible: bool,
    pub reason: Option<String>,
    pub message: Option<String>,
}

#[derive(Debug, Clone)]
pub struct AuthChallengePayload {
    pub nonce: String,
}

#[derive(Debug, Clone)]
pub struct AuthResponsePayload {
    pub signature: String,
}

#[derive(Debug, Clone)]
pub struct PairingIdentityPayload {
    pub public_key: String,
    pub name: String,
    pub nonce: String,
    pub pair_string: Option<String>,
}

#[derive(Debug, Clone)]
pub struct EmptyPayload {}

#[derive(Debug, Clone)]
pub struct BusinessNegotiatePayload {
    pub supported: Vec<String>,
    pub preferred: String,
}

#[derive(Debug, Clone)]
pub struct BusinessVersionPayload {
    pub business_version: String,
}

#[derive(Debug, Clone)]
pub struct BusinessVersionAckPayload {
    pub compatible: bool,
    pub reason: Option<String>,
    pub message: Option<String>,
}

#[derive(Debug, Clone)]
pub struct VersionCompatibility {
    pub compatible: bool,
    pub reason: Option<String>,
    pub message: Option<String>,
}

#[derive(Debug, Clone)]
pub struct BusinessKeyExchangePayload {
    pub ephemeral_public_key: String,
    pub signature: String,
}

#[derive(Debug, Clone)]
pub struct TerminalOpenPayload {
    pub session_id: String,
    pub cols: u16,
    pub rows: u16,
    pub env: Option<HashMap<String, String>>,
}

#[derive(Debug, Clone)]
pub struct TerminalOpenAckPayload {
    pub session_id: String,
    pub accepted: bool,
    pub reason: Option<String>,
    pub message: Option<String>,
}

#[derive(Debug, Clone)]
pub struct TerminalDataPayload { pub session_id: String, pub stream: String, pub data: String }

#[derive(Debug, Clone)]
pub struct TerminalResizePayload { pub session_id: String, pub cols: u16, pub rows: u16 }

#[derive(Debug, Clone)]
pub struct TerminalClosePayload { pub session_id: String, pub exit_code: Option<i32> }

#[derive(Debug, Clone)]
pub struct CameraListPayload {}

#[derive(Debug, Clone)]
pub struct CameraListResultPayload {
    pub cameras: Vec<CameraEntry>,
    pub reason: Option<String>,
    pub message: Option<String>,
}

#[derive(Debug, Clone)]
pub struct CameraEntry {
    pub camera_id: String,
    pub label: String,
    pub position: Option<String>,
    pub capabilities: Option<CameraCapabilities>,
}

#[derive(Debug, Clone)]
pub struct CameraCapabilities { pub resolutions: Vec<CameraResolution>, pub fps_range: CameraFpsRange }

#[derive(Debug, Clone)]
pub struct CameraResolution { pub width: u32, pub height: u32 }

#[derive(Debug, Clone)]
pub struct CameraFpsRange { pub min: u32, pub max: u32 }

#[derive(Debug, Clone)]
pub struct CameraOpenPayload {
    pub session_id: String,
    pub camera_id: String,
    pub preferred_codecs: Vec<String>,
    pub preferred_width: Option<u32>,
    pub preferred_height: Option<u32>,
    pub preferred_fps: Option<u32>,
}

#[derive(Debug, Clone)]
pub struct CameraOpenAckPayload {
    pub session_id: String,
    pub accepted: bool,
    pub negotiated_codec: Option<String>,
    pub width: Option<u32>,
    pub height: Option<u32>,
    pub fps: Option<u32>,
    pub stream_token: Option<String>,
    pub reason: Option<String>,
    pub message: Option<String>,
}

#[derive(Debug, Clone)]
pub struct CameraReadyPayload { pub session_id: String, pub transport: String }

#[derive(Debug, Clone)]
pub struct CameraAlivePayload { pub session_id: String }

#[derive(Debug, Clone)]
pub struct CameraConfigPayload {
    pub session_id: String,
    pub width: Option<u32>,
    pub height: Option<u32>,
    pub fps: Option<u32>,
}

#[derive(Debug, Clone)]
pub struct CameraConfigAckPayload {
    pub session_id: String,
    pub applied: bool,
    pub width: Option<u32>,
    pub height: Option<u32>,
    pub fps: Option<u32>,
    pub reason: Option<String>,
    pub message: Option<String>,
}

#[derive(Debug, Clone)]
pub struct CameraClosePayload {
    pub session_id: String,
    pub reason: Option<String>,
    pub message: Option<String>,
}

#[derive(Debug, Clone)]
pub struct CameraFramePayload {
    pub session_id: String,
    pub codec: String,
    pub keyframe: bool,
    pub sequence: u64,
    pub timestamp_ms: u64,
    pub data: String,
}

#[derive(Debug, Clone)]
pub struct SystemControlCommandPayload {
    pub action: String,
    pub delay: Option<i32>,
    pub volume: Option<i32>,
    pub target_mac: Option<String>,
}

#[derive(Debug, Clone)]
pub struct SystemControlQueryPayload {
    pub fields: Vec<String>,
}

#[derive(Debug, Clone)]
pub struct SystemControlResultPayload {
    pub volume: Option<Option<i32>>,
    pub muted: Option<Option<bool>>,
    pub playback: Option<Option<String>>,
    pub pending_power: Option<Option<PendingPowerActionPayload>>,
}

#[derive(Debug, Clone, PartialEq, Eq)]
pub struct PendingPowerActionPayload {
    pub action: String,
    pub remaining_ms: u64,
}

#[derive(Debug, Clone)]
pub struct FsRootsPayload {}

#[derive(Debug, Clone)]
pub struct FsRootsResultPayload {
    pub roots: Vec<FsRootEntry>,
}

#[derive(Debug, Clone)]
pub struct FsRootEntry {
    pub path: String,
    pub label: Option<String>,
    pub total_bytes: Option<i64>,
    pub free_bytes: Option<i64>,
}

#[derive(Debug, Clone)]
pub struct FsListPayload {
    pub path: String,
    pub offset: Option<i64>,
    pub limit: Option<i64>,
}

#[derive(Debug, Clone)]
pub struct FsListResultPayload {
    pub path: String,
    pub entries: Vec<FsEntry>,
    pub total: i64,
    pub offset: i64,
    pub has_more: bool,
}

#[derive(Debug, Clone)]
pub struct FsEntry {
    pub name: String,
    pub kind: String,
    pub size: Option<i64>,
    pub modified: Option<i64>,
    pub created: Option<i64>,
    pub readonly: bool,
    pub hidden: bool,
}

/// A `serde_json::Value`, carried through unread.
#[verifier::external_type_specification]
#[verifier::external_body]
pub struct ExJsonValue(serde_json::Value);

/// A failed filesystem request, as the peer reports it.
#[derive(Debug, Clone)]
pub struct FsErrorPayload {
    pub reason: String,
    pub message: String,
    pub details: Option<serde_json::Value>,
}

#[derive(Debug, Clone)]
pub struct FsStatPayload {
    pub path: String,
}

#[derive(Debug, Clone)]
pub struct FsStatResultPayload {
    pub path: String,
    pub exists: bool,
    pub kind: Option<String>,
    pub size: Option<i64>,
    pub modified: Option<i64>,
    pub created: Option<i64>,
    pub readonly: Option<bool>,
    pub hidden: Option<bool>,
}

#[derive(Debug, Clone)]
pub struct FsDownloadPayload {
    pub path: String,
}

#[derive(Debug, Clone)]
pub struct FsUploadPayload {
    pub path: String,
}

#[derive(Debug, Clone)]
pub struct FsUploadReadyPayload {}

#[derive(Debug, Clone)]
pub struct BusinessKeyExchangeNoncePayload {
    pub nonce: String,
}

#[derive(Debug, Clone)]
pub struct EncryptedBusinessPayload {
    pub ciphertext: String,
    pub nonce: String,
}

#[derive(Debug, Clone)]
pub struct SwimEnvelope {
    pub message_type: String,
    pub payload: SwimPayload,
}

#[derive(Debug, Clone)]
pub struct SwimPayload {
    pub seq: u64,
    pub from: String,
    pub incarnation: Option<i64>,
    pub target: Option<String>,
    pub gossip: Vec<SwimGossip>,
}

#[derive(Debug, Clone, PartialEq, Eq)]
pub struct SwimGossip {
    pub device_id: String,
    pub state: String,
    pub incarnation: i64,
}

/// A business message: its type and its payload as JSON.
#[derive(Debug)]
pub struct BusinessEnvelope {
    pub message_type: String,
    pub payload: serde_json::Value,
}

/// The receiver declined a file offer.
#[derive(Debug, Clone)]
pub struct FileRejectPayload {
    pub session_id: String,
    pub reason: String,
    pub message: String,
    pub details: Option<serde_json::Value>,
}

/// A file transfer was cancelled.
#[derive(Debug, Clone)]
pub struct FileCancelPayload {
    pub session_id: String,
    pub reason: String,
    pub message: String,
    pub details: Option<serde_json::Value>,
}

/// A file transfer ended.
#[derive(Debug, Clone)]
pub struct FileDonePayload {
    pub session_id: String,
    pub success: bool,
    pub reason: Option<String>,
    pub message: Option<String>,
    pub details: Option<serde_json::Value>,
}

/// A message this client sends to the cloud.
#[derive(Debug, Clone)]
pub struct CloudClientEnvelope {
    pub id: String,
    pub message_type: String,
    pub to: Option<String>,
    pub correlation_id: Option<String>,
    pub payload: Option<serde_json::Value>,
}

/// A message the cloud sends to this client.
#[derive(Debug, Clone)]
pub struct CloudServerEnvelope {
    pub id: Option<String>,
    pub message_type: String,
    pub from: Option<String>,
    pub to: Option<String>,
    pub correlation_id: Option<String>,
    pub payload: Option<serde_json::Value>,
    pub timestamp: Option<i64>,
}

/// The first message on a connection.
#[derive(Debug)]
pub struct ProtocolHelloEnvelope {
    pub message_type: String,
    pub payload: ProtocolHelloPayload,
}

/// Who is speaking and which protocol it speaks.
#[derive(Debug)]
pub struct ProtocolHelloPayload {
    pub device_id: String,
    pub protocol_version: String,
    pub extensions: serde_json::Value,
}

/// A message between devices on the local network.
#[derive(Debug)]
pub struct LanEnvelope {
    pub id: String,
    pub message_type: String,
    pub from: String,
    pub to: String,
    pub seq: u64,
    pub timestamp: i64,
    pub correlation_id: Option<String>,
    pub payload: serde_json::Value,
}

/// A local-network request was refused.
#[derive(Debug, Clone)]
pub struct LanRejectPayload {
    pub reason: String,
    pub message: String,
    pub details: Option<serde_json::Value>,
}

/// A system control command failed.
#[derive(Debug, Clone)]
pub struct SystemControlErrorPayload {
    pub reason: String,
    pub message: String,
    pub details: Option<serde_json::Value>,
}

} // verus!
