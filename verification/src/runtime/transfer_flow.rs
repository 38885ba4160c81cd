//! The decisions of the file transfer handlers: what becomes of an offer
//! that arrives, how an outgoing offer is sized and routed, how an accepted
//! offer is answered, and how the v3 data plane is set up on each side.
//! The handlers themselves send, store and wait; these functions say what
//! they send and store.
use vstd::prelude::*;

use crate::error::AppError;
use crate::runtime::progress::FILE_CHUNK_SIZE;
use crate::runtime::route::TransferRoute;
use crate::runtime::transfer::{
    is_valid_file_v3_transfer_token, opt_text, peer_at_least, valid_transfer_token,
    FileTransferProtocol, REASON_TRANSFER_CHECKSUM_MISMATCH, REASON_TRANSFER_GENERIC,
};
use crate::protocol::version::supports_business_protocol_at_least;
use crate::runtime::utils::{safe_download_name, sanitized};
use crate::text::str_eq;
use vstd::string::StringExecFns;

verus! {

// ---------------------------------------------------------------------------
// Incoming offers
// ---------------------------------------------------------------------------

/// What becomes of an offer that arrives.
#[derive(Clone, Copy, Debug, PartialEq, Eq, Structural)]
pub enum FileOfferDisposition {
    /// Refused: its checksum cannot be checked.
    Reject,
    /// Taken at once.
    Accept,
    /// Put before the user, who decides.
    Ask,
}

/// The message an offer whose checksum cannot be checked is refused with.
pub const UNSUPPORTED_CHECKSUM_MESSAGE: &'static str = "Unsupported file checksum algorithm";

/// What becomes of an offer: refused when its checksum is not allowed,
/// else taken at once when it answers a filesystem download or upload of
/// ours or when every offer is to be accepted, else put to the user.
pub fn file_offer_disposition(
    checksum_allowed: bool,
    answers_filesystem_download: bool,
    answers_filesystem_upload: bool,
    auto_accept: bool,
) -> (r: FileOfferDisposition)
    ensures
        !checksum_allowed ==> r == FileOfferDisposition::Reject,
        checksum_allowed && (answers_filesystem_download || answers_filesystem_upload || auto_accept)
            ==> r == FileOfferDisposition::Accept,
        checksum_allowed && !(answers_filesystem_download || answers_filesystem_upload || auto_accept)
            ==> r == FileOfferDisposition::Ask,
{
    if !checksum_allowed {
        FileOfferDisposition::Reject
    } else if answers_filesystem_download || answers_filesystem_upload || auto_accept {
        FileOfferDisposition::Accept
    } else {
        FileOfferDisposition::Ask
    }
}

// ---------------------------------------------------------------------------
// Outgoing offers
// ---------------------------------------------------------------------------

/// The number of chunks of `chunk_size` bytes a file of `file_size` bytes
/// is cut into.
pub open spec fn chunk_count(file_size: int, chunk_size: int) -> int {
    if file_size == 0 {
        0
    } else {
        (file_size + chunk_size - 1) / chunk_size
    }
}

/// The size a file of `file_len` bytes is offered with, and its number of
/// chunks. A file larger than a signed 64-bit size cannot be offered.
pub fn offer_file_size(file_len: u64) -> (r: Result<(i64, i64), AppError>)
    ensures
        file_len > i64::MAX ==> (r matches Err(e) && e.message@ == "file is too large to transfer"@),
        file_len <= i64::MAX ==> (r matches Ok((size, chunks)) && size == file_len && chunks == chunk_count(
            file_len as int,
            FILE_CHUNK_SIZE as int,
        )),
{
    if file_len > i64::MAX as u64 {
        return Err(AppError::message("file is too large to transfer"));
    }
    let file_size = file_len as i64;
    let whole = file_size / FILE_CHUNK_SIZE;
    let total_chunks = if file_size % FILE_CHUNK_SIZE == 0 {
        whole
    } else {
        whole + 1
    };
    proof {
        let s = file_size as int;
        let c = FILE_CHUNK_SIZE as int;
        assert(s == c * (s / c) + s % c) by (nonlinear_arith)
            requires
                c > 0,
        ;
        assert((s + c - 1) / c == s / c + (if s % c == 0 { 0int } else { 1int })) by (nonlinear_arith)
            requires
                c > 0,
                s >= 0,
                s == c * (s / c) + s % c,
                0 <= s % c < c,
        ;
    }
    Ok((file_size, total_chunks))
}

/// The protocol an offer to a peer goes out on: v3 once the peer is known
/// to speak 1.15.0, v2 otherwise.
pub open spec fn offer_protocol_for(peer_version: Option<Seq<char>>) -> FileTransferProtocol {
    if peer_at_least(peer_version, 1, 15, 0) {
        FileTransferProtocol::V3
    } else {
        FileTransferProtocol::V2
    }
}

/// The protocol an offer to a peer of `peer_business_version` goes out on.
pub fn offer_protocol(peer_business_version: Option<&str>) -> (r: FileTransferProtocol)
    ensures
        r == offer_protocol_for(opt_text(peer_business_version)),
{
    match peer_business_version {
        Some(version) => if supports_business_protocol_at_least(version, 1, 15, 0) {
            FileTransferProtocol::V3
        } else {
            FileTransferProtocol::V2
        },
        None => FileTransferProtocol::V2,
    }
}

/// The route an offer takes. A v3 offer goes over the LAN when the peer's
/// LAN protocol is known, else through the cloud while it is connected, and
/// has no route otherwise; a v2 offer goes over the LAN when the peer is
/// reachable there, else through the cloud.
pub fn offer_route(
    protocol: FileTransferProtocol,
    lan_peer_known: bool,
    lan_available: bool,
    cloud_connected: bool,
) -> (r: Option<TransferRoute>)
    ensures
        protocol == FileTransferProtocol::V3 ==> r == (if lan_peer_known {
            Some(TransferRoute::Lan)
        } else if cloud_connected {
            Some(TransferRoute::Cloud)
        } else {
            None::<TransferRoute>
        }),
        protocol == FileTransferProtocol::V2 ==> r == Some(
            if lan_available {
                TransferRoute::Lan
            } else {
                TransferRoute::Cloud
            },
        ),
{
    match protocol {
        FileTransferProtocol::V3 => if lan_peer_known {
            Some(TransferRoute::Lan)
        } else if cloud_connected {
            Some(TransferRoute::Cloud)
        } else {
            None
        },
        FileTransferProtocol::V2 => if lan_available {
            Some(TransferRoute::Lan)
        } else {
            Some(TransferRoute::Cloud)
        },
    }
}

// ---------------------------------------------------------------------------
// Accepting an offer
// ---------------------------------------------------------------------------

/// Where the token of an accepted transfer comes from.
#[derive(Clone, Copy, Debug, PartialEq, Eq, Structural)]
pub enum AcceptToken {
    /// A fresh identifier, registered with the LAN transport (v2).
    Registered,
    /// A generated v3 transfer token (v3 over the LAN).
    Generated,
    /// None (v3 through the cloud relay).
    Absent,
}

/// The channel an acceptance is sent on.
#[derive(Clone, Copy, Debug, PartialEq, Eq, Structural)]
pub enum AcceptChannel {
    /// Straight to the peer over the LAN.
    Lan,
    /// Through the cloud relay.
    Relay,
    /// As a business message on whatever route the peer has.
    Business,
}

/// How an accepted offer is answered.
#[derive(Clone, Copy, Debug, PartialEq, Eq, Structural)]
pub struct FileAcceptPlan {
    pub token: AcceptToken,
    pub channel: AcceptChannel,
    /// Whether the relayed data is watched for stalls.
    pub watch_relay: bool,
}

/// How an offer that arrived over `route` on `protocol` is answered: a v2
/// offer with a registered token as a business message; a v3 offer over the
/// LAN with a generated token, straight back over the LAN; any other v3
/// offer without a token through the relay, which is then watched.
pub fn file_accept_plan(protocol: FileTransferProtocol, route: &str) -> (r: FileAcceptPlan)
    ensures
        protocol == FileTransferProtocol::V2 ==> r == (FileAcceptPlan {
            token: AcceptToken::Registered,
            channel: AcceptChannel::Business,
            watch_relay: false,
        }),
        protocol == FileTransferProtocol::V3 && route@ == TransferRoute::Lan.spec_name() ==> r == (
        FileAcceptPlan { token: AcceptToken::Generated, channel: AcceptChannel::Lan, watch_relay: false }),
        protocol == FileTransferProtocol::V3 && route@ != TransferRoute::Lan.spec_name() ==> r == (
        FileAcceptPlan {
            token: AcceptToken::Absent,
            channel: AcceptChannel::Relay,
            watch_relay: route@ == TransferRoute::Cloud.spec_name(),
        }),
{
    match protocol {
        FileTransferProtocol::V2 => FileAcceptPlan {
            token: AcceptToken::Registered,
            channel: AcceptChannel::Business,
            watch_relay: false,
        },
        FileTransferProtocol::V3 => if str_eq(route, TransferRoute::Lan.as_str()) {
            FileAcceptPlan { token: AcceptToken::Generated, channel: AcceptChannel::Lan, watch_relay: false }
        } else {
            FileAcceptPlan {
                token: AcceptToken::Absent,
                channel: AcceptChannel::Relay,
                watch_relay: str_eq(route, TransferRoute::Cloud.as_str()),
            }
        },
    }
}

/// The name a file is received under until it is complete: the name
/// sanitised (by the Windows rules when `windows` holds) with `.part`
/// appended.
pub fn partial_file_name(file_name: &str, windows: bool) -> (r: String)
    ensures
        r@ == sanitized(file_name@, windows) + ".part"@,
{
    let mut name = safe_download_name(file_name, windows);
    name.append(".part");
    name
}

// ---------------------------------------------------------------------------
// The v3 data plane
// ---------------------------------------------------------------------------

/// The text a failed v3 transfer is reported with.
#[derive(Clone, Copy, Debug, PartialEq, Eq, Structural)]
pub enum FileV3Failure {
    /// The acceptance came over another route than the offer went.
    RouteMismatch,
    /// The LAN data plane could not be used.
    LanFailed,
    /// Any other failure.
    Generic,
}

/// What the sender knows of a transfer it offered.
#[derive(Clone, Debug)]
pub struct OutgoingTransferStatus {
    pub protocol: FileTransferProtocol,
    /// Whether the transfer still waits for its acceptance.
    pub offered: bool,
    /// The route the offer went over.
    pub route: String,
}

/// What the sender does when a v3 acceptance arrives.
#[derive(Clone, Debug)]
pub enum FileV3AcceptAction {
    /// No such transfer is being sent.
    Unknown,
    /// The transfer runs on the v2 protocol.
    ProtocolMismatch,
    /// The transfer was started before: nothing to do.
    AlreadyStarted,
    /// The transfer is cancelled on `route`.
    Cancel { route: String, failure: FileV3Failure },
    /// The file is served to the receiver over the LAN with the token.
    ServeLan,
    /// The file is pushed through the cloud relay.
    SendRelay,
}

/// Whether `r` cancels on `route` with `failure`.
pub open spec fn cancels(r: FileV3AcceptAction, route: Seq<char>, failure: FileV3Failure) -> bool {
    r matches FileV3AcceptAction::Cancel { route: on, failure: f } && on@ == route && f == failure
}

/// What the sender does with a v3 acceptance that came over `control_route`
/// carrying `transfer_token`, for the transfer it knows as `outgoing`. A
/// transfer that still waited is moved on to sending before any cancel,
/// LAN or relay action. Over the LAN the acceptance must carry a valid
/// token, and the peer must still be reachable there; through the relay it
/// must carry none.
pub fn file_v3_accept_action(
    outgoing: Option<&OutgoingTransferStatus>,
    control_route: &str,
    transfer_token: Option<&str>,
    lan_available: bool,
) -> (r: FileV3AcceptAction)
    ensures
        outgoing is None ==> r is Unknown,
        outgoing matches Some(o) ==> {
            let lan = TransferRoute::Lan.spec_name();
            if o.protocol != FileTransferProtocol::V3 {
                r is ProtocolMismatch
            } else if !o.offered {
                r is AlreadyStarted
            } else if o.route@ != control_route@ {
                cancels(r, o.route@, FileV3Failure::RouteMismatch)
            } else if control_route@ == lan && !(transfer_token matches Some(t) && valid_transfer_token(
                t@,
            )) {
                cancels(r, lan, FileV3Failure::Generic)
            } else if control_route@ != lan && transfer_token is Some {
                cancels(r, control_route@, FileV3Failure::Generic)
            } else if transfer_token is Some && !lan_available {
                cancels(r, lan, FileV3Failure::LanFailed)
            } else if transfer_token is Some {
                r is ServeLan
            } else {
                r is SendRelay
            }
        },
{
    let o = match outgoing {
        Some(o) => o,
        None => return FileV3AcceptAction::Unknown,
    };
    if o.protocol != FileTransferProtocol::V3 {
        return FileV3AcceptAction::ProtocolMismatch;
    }
    if !o.offered {
        return FileV3AcceptAction::AlreadyStarted;
    }
    if !str_eq(o.route.as_str(), control_route) {
        return FileV3AcceptAction::Cancel { route: o.route.clone(), failure: FileV3Failure::RouteMismatch };
    }
    let lan = TransferRoute::Lan.as_str();
    let over_lan = str_eq(control_route, lan);
    let token_valid = match transfer_token {
        Some(t) => is_valid_file_v3_transfer_token(t),
        None => false,
    };
    if over_lan && !token_valid {
        return FileV3AcceptAction::Cancel { route: lan.to_owned(), failure: FileV3Failure::Generic };
    }
    if !over_lan && transfer_token.is_some() {
        return FileV3AcceptAction::Cancel { route: control_route.to_owned(), failure: FileV3Failure::Generic };
    }
    if transfer_token.is_some() {
        if !lan_available {
            return FileV3AcceptAction::Cancel { route: lan.to_owned(), failure: FileV3Failure::LanFailed };
        }
        return FileV3AcceptAction::ServeLan;
    }
    FileV3AcceptAction::SendRelay
}

/// What the receiver knows of a transfer it accepted.
#[derive(Clone, Debug)]
pub struct IncomingTransferStatus {
    pub protocol: FileTransferProtocol,
    /// The device the file comes from.
    pub device_id: String,
    /// The route the transfer runs over.
    pub route: String,
    /// Whether the sender's readiness was already seen.
    pub ready_received: bool,
    /// Whether a transfer token was handed out.
    pub has_token: bool,
    /// Whether a file to receive into was prepared.
    pub has_temp_path: bool,
}

/// What the receiver does when the sender reports its v3 data plane ready.
#[derive(Clone, Copy, Debug, PartialEq, Eq, Structural)]
pub enum FileV3ReadyAction {
    /// Nothing: the report does not apply.
    Ignore,
    /// No such transfer is being received.
    Unknown,
    /// The transfer fails.
    Fail(FileV3Failure),
    /// The file is downloaded from the sender.
    Download,
}

/// What the receiver does with a readiness report from `from` that came
/// over `route`, for the transfer it knows as `incoming`; `endpoint_known`
/// says whether the sender's LAN address is known. Only a LAN report of the
/// sender of a v3 LAN transfer applies, and only once: the transfer is
/// marked as having seen it on every `Fail` and `Download`.
pub fn file_v3_ready_action(
    from: &str,
    route: &str,
    incoming: Option<&IncomingTransferStatus>,
    endpoint_known: bool,
) -> (r: FileV3ReadyAction)
    ensures
        ({
            let lan = TransferRoute::Lan.spec_name();
            if route@ != lan {
                r == FileV3ReadyAction::Ignore
            } else {
                match incoming {
                    None => r == FileV3ReadyAction::Unknown,
                    Some(i) => if i.protocol != FileTransferProtocol::V3 || i.device_id@ != from@ || i.route@
                        != lan || i.ready_received {
                        r == FileV3ReadyAction::Ignore
                    } else if !i.has_token {
                        r == FileV3ReadyAction::Fail(FileV3Failure::LanFailed)
                    } else if !i.has_temp_path {
                        r == FileV3ReadyAction::Fail(FileV3Failure::Generic)
                    } else if !endpoint_known {
                        r == FileV3ReadyAction::Fail(FileV3Failure::LanFailed)
                    } else {
                        r == FileV3ReadyAction::Download
                    },
                }
            }
        }),
{
    let lan = TransferRoute::Lan.as_str();
    if !str_eq(route, lan) {
        return FileV3ReadyAction::Ignore;
    }
    let i = match incoming {
        Some(i) => i,
        None => return FileV3ReadyAction::Unknown,
    };
    if i.protocol != FileTransferProtocol::V3 || !str_eq(i.device_id.as_str(), from) || !str_eq(
        i.route.as_str(),
        lan,
    ) || i.ready_received {
        return FileV3ReadyAction::Ignore;
    }
    if !i.has_token {
        FileV3ReadyAction::Fail(FileV3Failure::LanFailed)
    } else if !i.has_temp_path {
        FileV3ReadyAction::Fail(FileV3Failure::Generic)
    } else if !endpoint_known {
        FileV3ReadyAction::Fail(FileV3Failure::LanFailed)
    } else {
        FileV3ReadyAction::Download
    }
}

// ---------------------------------------------------------------------------
// Finishing a received file
// ---------------------------------------------------------------------------

/// Why a received file was not kept.
#[derive(Clone, Debug)]
pub enum ReceiveFailure {
    /// Its content did not match its checksum.
    ChecksumMismatch,
    /// Its size was not the announced one.
    SizeMismatch,
    /// It could not be moved to its place; the message says why.
    Commit(String),
}

/// The verdict on a received file.
#[derive(Clone, Debug)]
pub struct ReceiveVerdict {
    pub success: bool,
    /// The reason code the sender is told on failure.
    pub reason: Option<&'static str>,
    pub failure: Option<ReceiveFailure>,
}

/// The verdict on a received file whose checksum and size did or did not
/// match, and which, when both matched, was moved to its place or failed to
/// be (`commit`). A file is kept only when both matched and the move
/// succeeded. The sender is told of a checksum mismatch when only the
/// checksum failed, and of a generic failure otherwise.
pub fn receive_verdict(checksum_matches: bool, size_matches: bool, commit: Result<(), String>) -> (r:
    ReceiveVerdict)
    ensures
        checksum_matches && size_matches && commit is Ok ==> r.success && r.reason is None && r.failure is None,
        checksum_matches && size_matches && commit is Err ==> !r.success && r.reason == Some(
            REASON_TRANSFER_GENERIC,
        ) && (r.failure matches Some(ReceiveFailure::Commit(m)) && commit matches Err(e) && m@ == e@),
        !checksum_matches && size_matches ==> !r.success && r.reason == Some(REASON_TRANSFER_CHECKSUM_MISMATCH)
            && (r.failure matches Some(ReceiveFailure::ChecksumMismatch)),
        !size_matches ==> !r.success && r.reason == Some(REASON_TRANSFER_GENERIC) && (r.failure matches Some(
            ReceiveFailure::SizeMismatch,
        )),
{
    if !size_matches {
        return ReceiveVerdict {
            success: false,
            reason: Some(REASON_TRANSFER_GENERIC),
            failure: Some(ReceiveFailure::SizeMismatch),
        };
    }
    if !checksum_matches {
        return ReceiveVerdict {
            success: false,
            reason: Some(REASON_TRANSFER_CHECKSUM_MISMATCH),
            failure: Some(ReceiveFailure::ChecksumMismatch),
        };
    }
    match commit {
        Ok(()) => ReceiveVerdict { success: true, reason: None, failure: None },
        Err(message) => ReceiveVerdict {
            success: false,
            reason: Some(REASON_TRANSFER_GENERIC),
            failure: Some(ReceiveFailure::Commit(message)),
        },
    }
}

// ---------------------------------------------------------------------------
// Transfer records
// ---------------------------------------------------------------------------

/// What is kept and shown of a file transfer.
#[derive(Clone, Debug)]
pub struct FileTransferRecord {
    pub file_id: String,
    pub device_id: String,
    /// `outbound` or `inbound`.
    pub direction: String,
    pub file_name: String,
    pub file_size: i64,
    pub transferred_bytes: i64,
    pub total_chunks: i64,
    /// `offered`, `sending`, `receiving`, `completed`, `failed`,
    /// `cancelled` or `rejected`.
    pub status: String,
    pub checksum: String,
    pub route: String,
    pub temp_path: Option<String>,
    pub final_path: Option<String>,
    pub error: Option<String>,
    pub created_at: i64,
    pub updated_at: i64,
}

/// The text of an optional string.
pub open spec fn text_of(s: Option<String>) -> Option<Seq<char>> {
    match s {
        Some(v) => Some(v@),
        None => None,
    }
}

impl FileTransferRecord {
    /// The record of a file offered to `device_id` at `now_ms`, over
    /// `route`, from `source_path`: outbound, nothing transferred yet.
    pub fn outgoing_offer(
        file_id: String,
        device_id: String,
        file_name: String,
        file_size: i64,
        total_chunks: i64,
        checksum: String,
        route: String,
        source_path: String,
        now_ms: i64,
    ) -> (r: Self)
        ensures
            r.file_id@ == file_id@ && r.device_id@ == device_id@ && r.file_name@ == file_name@,
            r.direction@ == "outbound"@ && r.status@ == "offered"@,
            r.file_size == file_size && r.total_chunks == total_chunks && r.transferred_bytes == 0,
            r.checksum@ == checksum@ && r.route@ == route@,
            r.temp_path is None && text_of(r.final_path) == Some(source_path@) && r.error is None,
            r.created_at == now_ms && r.updated_at == now_ms,
    {
        FileTransferRecord {
            file_id,
            device_id,
            direction: "outbound".to_owned(),
            file_name,
            file_size,
            transferred_bytes: 0,
            total_chunks,
            status: "offered".to_owned(),
            checksum,
            route,
            temp_path: None,
            final_path: Some(source_path),
            error: None,
            created_at: now_ms,
            updated_at: now_ms,
        }
    }

    /// The record of a file accepted from `device_id` at `now_ms`, over
    /// `route`, received into `temp_path`: inbound, receiving, nothing
    /// transferred yet.
    pub fn incoming_accept(
        file_id: String,
        device_id: String,
        file_name: String,
        file_size: i64,
        total_chunks: i64,
        checksum: String,
        route: String,
        temp_path: String,
        now_ms: i64,
    ) -> (r: Self)
        ensures
            r.file_id@ == file_id@ && r.device_id@ == device_id@ && r.file_name@ == file_name@,
            r.direction@ == "inbound"@ && r.status@ == "receiving"@,
            r.file_size == file_size && r.total_chunks == total_chunks && r.transferred_bytes == 0,
            r.checksum@ == checksum@ && r.route@ == route@,
            text_of(r.temp_path) == Some(temp_path@) && r.final_path is None && r.error is None,
            r.created_at == now_ms && r.updated_at == now_ms,
    {
        FileTransferRecord {
            file_id,
            device_id,
            direction: "inbound".to_owned(),
            file_name,
            file_size,
            transferred_bytes: 0,
            total_chunks,
            status: "receiving".to_owned(),
            checksum,
            route,
            temp_path: Some(temp_path),
            final_path: None,
            error: None,
            created_at: now_ms,
            updated_at: now_ms,
        }
    }

    /// Ends an outgoing transfer in `status` at `now_ms`: a completed one
    /// counts every byte as transferred; `error` and `final_path` replace
    /// what the record has only when given.
    pub fn finish_outgoing(&mut self, status: &str, error: Option<String>, final_path: Option<String>, now_ms: i64)
        ensures
            final(self).status@ == status@,
            final(self).transferred_bytes == if status@ == "completed"@ {
                old(self).file_size
            } else {
                old(self).transferred_bytes
            },
            text_of(final(self).error) == if error is Some {
                text_of(error)
            } else {
                text_of(old(self).error)
            },
            text_of(final(self).final_path) == if final_path is Some {
                text_of(final_path)
            } else {
                text_of(old(self).final_path)
            },
            final(self).updated_at == now_ms,
            final(self).file_id == old(self).file_id && final(self).device_id == old(self).device_id,
            final(self).direction == old(self).direction && final(self).file_name == old(self).file_name,
            final(self).file_size == old(self).file_size && final(self).total_chunks == old(self).total_chunks,
            final(self).checksum == old(self).checksum && final(self).route == old(self).route,
            final(self).temp_path == old(self).temp_path && final(self).created_at == old(self).created_at,
    {
        proof {
            reveal_strlit("completed");
        }
        self.status = status.to_owned();
        if str_eq(status, "completed") {
            self.transferred_bytes = self.file_size;
        }
        if let Some(e) = error {
            self.error = Some(e);
        }
        if let Some(p) = final_path {
            self.final_path = Some(p);
        }
        self.updated_at = now_ms;
    }

    /// Whether a cancellation from the peer still applies: not once the
    /// transfer completed.
    pub fn peer_cancel_applies(&self) -> (r: bool)
        ensures
            r == (self.status@ != "completed"@),
    {
        !str_eq(self.status.as_str(), "completed")
    }

    /// Ends the transfer in `status` (`cancelled` or `failed`) with `error`
    /// at `now_ms`; the partial file is forgotten when `forget_partial` says
    /// so.
    pub fn abort(&mut self, status: &str, error: Option<String>, forget_partial: bool, now_ms: i64)
        ensures
            final(self).status@ == status@,
            text_of(final(self).error) == text_of(error),
            forget_partial ==> final(self).temp_path is None,
            !forget_partial ==> final(self).temp_path == old(self).temp_path,
            final(self).updated_at == now_ms,
            final(self).transferred_bytes == old(self).transferred_bytes,
            final(self).final_path == old(self).final_path,
            final(self).file_id == old(self).file_id && final(self).device_id == old(self).device_id,
            final(self).direction == old(self).direction && final(self).file_name == old(self).file_name,
            final(self).file_size == old(self).file_size && final(self).total_chunks == old(self).total_chunks,
            final(self).checksum == old(self).checksum && final(self).route == old(self).route,
            final(self).created_at == old(self).created_at,
    {
        self.status = status.to_owned();
        self.error = error;
        if forget_partial {
            self.temp_path = None;
        }
        self.updated_at = now_ms;
    }
}

} // verus!
