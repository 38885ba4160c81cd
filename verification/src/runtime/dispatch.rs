//! Which handler a business message from a peer goes to, by its type.
use vstd::prelude::*;

use crate::protocol::payloads::{
    CLIPBOARD_SYNC_TYPE, FILE_ACCEPT_TYPE, FILE_ACK_TYPE, FILE_CANCEL_TYPE, FILE_CHUNK_TYPE,
    FILE_DONE_TYPE, FILE_OFFER_TYPE, FILE_READY_TYPE, FILE_REJECT_TYPE, FILE_RETRANSMIT_TYPE,
    FS_DOWNLOAD_TYPE, FS_ERROR_TYPE, FS_LIST_RESULT_TYPE, FS_LIST_TYPE, FS_ROOTS_RESULT_TYPE,
    FS_ROOTS_TYPE, FS_STAT_RESULT_TYPE, FS_STAT_TYPE, MUSIC_ALIVE_TYPE, MUSIC_REQUEST_TYPE,
    SYSINFO_ALIVE_TYPE, TEXT_MESSAGE_TYPE,
};
use crate::text::str_eq;

verus! {

/// The handler a business message goes to.
#[derive(Clone, Copy, Debug, PartialEq, Eq, Structural)]
pub enum BusinessMessageKind {
    TextMessage,
    FileOffer,
    FileAccept,
    FileReject,
    FileReady,
    FileChunk,
    FileAck,
    FileRetransmit,
    FileDone,
    FileCancel,
    ClipboardSync,
    MusicAlive,
    MusicRequest,
    SysinfoAlive,
    /// A filesystem request of the peer (roots, listing, stat, download).
    FilesystemRequest,
    /// The answer to a filesystem request of ours.
    FilesystemResult,
    /// A filesystem request of ours failed.
    FilesystemError,
    /// Any other type: dropped.
    Ignored,
}

/// The handler for messages of `message_type`.
pub open spec fn message_kind(message_type: Seq<char>) -> BusinessMessageKind {
    if message_type == TEXT_MESSAGE_TYPE@ {
        BusinessMessageKind::TextMessage
    } else if message_type == FILE_OFFER_TYPE@ {
        BusinessMessageKind::FileOffer
    } else if message_type == FILE_ACCEPT_TYPE@ {
        BusinessMessageKind::FileAccept
    } else if message_type == FILE_REJECT_TYPE@ {
        BusinessMessageKind::FileReject
    } else if message_type == FILE_READY_TYPE@ {
        BusinessMessageKind::FileReady
    } else if message_type == FILE_CHUNK_TYPE@ {
        BusinessMessageKind::FileChunk
    } else if message_type == FILE_ACK_TYPE@ {
        BusinessMessageKind::FileAck
    } else if message_type == FILE_RETRANSMIT_TYPE@ {
        BusinessMessageKind::FileRetransmit
    } else if message_type == FILE_DONE_TYPE@ {
        BusinessMessageKind::FileDone
    } else if message_type == FILE_CANCEL_TYPE@ {
        BusinessMessageKind::FileCancel
    } else if message_type == CLIPBOARD_SYNC_TYPE@ {
        BusinessMessageKind::ClipboardSync
    } else if message_type == MUSIC_ALIVE_TYPE@ {
        BusinessMessageKind::MusicAlive
    } else if message_type == MUSIC_REQUEST_TYPE@ {
        BusinessMessageKind::MusicRequest
    } else if message_type == SYSINFO_ALIVE_TYPE@ {
        BusinessMessageKind::SysinfoAlive
    } else if message_type == FS_ROOTS_TYPE@ || message_type == FS_LIST_TYPE@ || message_type
        == FS_STAT_TYPE@ || message_type == FS_DOWNLOAD_TYPE@ {
        BusinessMessageKind::FilesystemRequest
    } else if message_type == FS_ROOTS_RESULT_TYPE@ || message_type == FS_LIST_RESULT_TYPE@
        || message_type == FS_STAT_RESULT_TYPE@ {
        BusinessMessageKind::FilesystemResult
    } else if message_type == FS_ERROR_TYPE@ {
        BusinessMessageKind::FilesystemError
    } else {
        BusinessMessageKind::Ignored
    }
}

/// The handler a business message of `message_type` goes to.
pub fn business_message_kind(message_type: &str) -> (r: BusinessMessageKind)
    ensures
        r == message_kind(message_type@),
{
    let t = message_type;
    if str_eq(t, TEXT_MESSAGE_TYPE) {
        BusinessMessageKind::TextMessage
    } else if str_eq(t, FILE_OFFER_TYPE) {
        BusinessMessageKind::FileOffer
    } else if str_eq(t, FILE_ACCEPT_TYPE) {
        BusinessMessageKind::FileAccept
    } else if str_eq(t, FILE_REJECT_TYPE) {
        BusinessMessageKind::FileReject
    } else if str_eq(t, FILE_READY_TYPE) {
        BusinessMessageKind::FileReady
    } else if str_eq(t, FILE_CHUNK_TYPE) {
        BusinessMessageKind::FileChunk
    } else if str_eq(t, FILE_ACK_TYPE) {
        BusinessMessageKind::FileAck
    } else if str_eq(t, FILE_RETRANSMIT_TYPE) {
        BusinessMessageKind::FileRetransmit
    } else if str_eq(t, FILE_DONE_TYPE) {
        BusinessMessageKind::FileDone
    } else if str_eq(t, FILE_CANCEL_TYPE) {
        BusinessMessageKind::FileCancel
    } else if str_eq(t, CLIPBOARD_SYNC_TYPE) {
        BusinessMessageKind::ClipboardSync
    } else if str_eq(t, MUSIC_ALIVE_TYPE) {
        BusinessMessageKind::MusicAlive
    } else if str_eq(t, MUSIC_REQUEST_TYPE) {
        BusinessMessageKind::MusicRequest
    } else if str_eq(t, SYSINFO_ALIVE_TYPE) {
        BusinessMessageKind::SysinfoAlive
    } else if str_eq(t, FS_ROOTS_TYPE) || str_eq(t, FS_LIST_TYPE) || str_eq(t, FS_STAT_TYPE) || str_eq(
        t,
        FS_DOWNLOAD_TYPE,
    ) {
        BusinessMessageKind::FilesystemRequest
    } else if str_eq(t, FS_ROOTS_RESULT_TYPE) || str_eq(t, FS_LIST_RESULT_TYPE) || str_eq(
        t,
        FS_STAT_RESULT_TYPE,
    ) {
        BusinessMessageKind::FilesystemResult
    } else if str_eq(t, FS_ERROR_TYPE) {
        BusinessMessageKind::FilesystemError
    } else {
        BusinessMessageKind::Ignored
    }
}

/// The length and the characters at 0, 3, 8 and 9 of every business
/// message type, which tell any two of them apart.
proof fn lemma_message_type_shapes()
    ensures
        TEXT_MESSAGE_TYPE@.len() == 15 && TEXT_MESSAGE_TYPE@[0] == 'm' && TEXT_MESSAGE_TYPE@[3] == 's' && TEXT_MESSAGE_TYPE@[8] == 'v' && TEXT_MESSAGE_TYPE@[9] == '1',
        FILE_OFFER_TYPE@.len() == 13 && FILE_OFFER_TYPE@[0] == 'f' && FILE_OFFER_TYPE@[3] == 'e' && FILE_OFFER_TYPE@[8] == 'o' && FILE_OFFER_TYPE@[9] == 'f',
        FILE_ACCEPT_TYPE@.len() == 14 && FILE_ACCEPT_TYPE@[0] == 'f' && FILE_ACCEPT_TYPE@[3] == 'e' && FILE_ACCEPT_TYPE@[8] == 'a' && FILE_ACCEPT_TYPE@[9] == 'c',
        FILE_REJECT_TYPE@.len() == 14 && FILE_REJECT_TYPE@[0] == 'f' && FILE_REJECT_TYPE@[3] == 'e' && FILE_REJECT_TYPE@[8] == 'r' && FILE_REJECT_TYPE@[9] == 'e',
        FILE_READY_TYPE@.len() == 13 && FILE_READY_TYPE@[0] == 'f' && FILE_READY_TYPE@[3] == 'e' && FILE_READY_TYPE@[8] == 'r' && FILE_READY_TYPE@[9] == 'e',
        FILE_CHUNK_TYPE@.len() == 13 && FILE_CHUNK_TYPE@[0] == 'f' && FILE_CHUNK_TYPE@[3] == 'e' && FILE_CHUNK_TYPE@[8] == 'c' && FILE_CHUNK_TYPE@[9] == 'h',
        FILE_ACK_TYPE@.len() == 11 && FILE_ACK_TYPE@[0] == 'f' && FILE_ACK_TYPE@[3] == 'e' && FILE_ACK_TYPE@[8] == 'a' && FILE_ACK_TYPE@[9] == 'c',
        FILE_RETRANSMIT_TYPE@.len() == 18 && FILE_RETRANSMIT_TYPE@[0] == 'f' && FILE_RETRANSMIT_TYPE@[3] == 'e' && FILE_RETRANSMIT_TYPE@[8] == 'r' && FILE_RETRANSMIT_TYPE@[9] == 'e',
        FILE_DONE_TYPE@.len() == 12 && FILE_DONE_TYPE@[0] == 'f' && FILE_DONE_TYPE@[3] == 'e' && FILE_DONE_TYPE@[8] == 'd' && FILE_DONE_TYPE@[9] == 'o',
        FILE_CANCEL_TYPE@.len() == 14 && FILE_CANCEL_TYPE@[0] == 'f' && FILE_CANCEL_TYPE@[3] == 'e' && FILE_CANCEL_TYPE@[8] == 'c' && FILE_CANCEL_TYPE@[9] == 'a',
        CLIPBOARD_SYNC_TYPE@.len() == 17 && CLIPBOARD_SYNC_TYPE@[0] == 'c' && CLIPBOARD_SYNC_TYPE@[3] == 'p' && CLIPBOARD_SYNC_TYPE@[8] == 'd' && CLIPBOARD_SYNC_TYPE@[9] == '.',
        MUSIC_ALIVE_TYPE@.len() == 14 && MUSIC_ALIVE_TYPE@[0] == 'm' && MUSIC_ALIVE_TYPE@[3] == 'i' && MUSIC_ALIVE_TYPE@[8] == '.' && MUSIC_ALIVE_TYPE@[9] == 'a',
        MUSIC_REQUEST_TYPE@.len() == 16 && MUSIC_REQUEST_TYPE@[0] == 'm' && MUSIC_REQUEST_TYPE@[3] == 'i' && MUSIC_REQUEST_TYPE@[8] == '.' && MUSIC_REQUEST_TYPE@[9] == 'r',
        SYSINFO_ALIVE_TYPE@.len() == 16 && SYSINFO_ALIVE_TYPE@[0] == 's' && SYSINFO_ALIVE_TYPE@[3] == 'i' && SYSINFO_ALIVE_TYPE@[8] == 'v' && SYSINFO_ALIVE_TYPE@[9] == '1',
        FS_ROOTS_RESULT_TYPE@.len() == 18 && FS_ROOTS_RESULT_TYPE@[0] == 'f' && FS_ROOTS_RESULT_TYPE@[3] == 'v' && FS_ROOTS_RESULT_TYPE@[8] == 'o' && FS_ROOTS_RESULT_TYPE@[9] == 't',
        FS_LIST_RESULT_TYPE@.len() == 17 && FS_LIST_RESULT_TYPE@[0] == 'f' && FS_LIST_RESULT_TYPE@[3] == 'v' && FS_LIST_RESULT_TYPE@[8] == 's' && FS_LIST_RESULT_TYPE@[9] == 't',
        FS_STAT_RESULT_TYPE@.len() == 17 && FS_STAT_RESULT_TYPE@[0] == 'f' && FS_STAT_RESULT_TYPE@[3] == 'v' && FS_STAT_RESULT_TYPE@[8] == 'a' && FS_STAT_RESULT_TYPE@[9] == 't',
        FS_ROOTS_TYPE@.len() == 11 && FS_ROOTS_TYPE@[0] == 'f' && FS_ROOTS_TYPE@[3] == 'v' && FS_ROOTS_TYPE@[8] == 'o' && FS_ROOTS_TYPE@[9] == 't',
        FS_LIST_TYPE@.len() == 10 && FS_LIST_TYPE@[0] == 'f' && FS_LIST_TYPE@[3] == 'v' && FS_LIST_TYPE@[8] == 's' && FS_LIST_TYPE@[9] == 't',
        FS_STAT_TYPE@.len() == 10 && FS_STAT_TYPE@[0] == 'f' && FS_STAT_TYPE@[3] == 'v' && FS_STAT_TYPE@[8] == 'a' && FS_STAT_TYPE@[9] == 't',
        FS_DOWNLOAD_TYPE@.len() == 14 && FS_DOWNLOAD_TYPE@[0] == 'f' && FS_DOWNLOAD_TYPE@[3] == 'v' && FS_DOWNLOAD_TYPE@[8] == 'w' && FS_DOWNLOAD_TYPE@[9] == 'n',
        FS_ERROR_TYPE@.len() == 11 && FS_ERROR_TYPE@[0] == 'f' && FS_ERROR_TYPE@[3] == 'v' && FS_ERROR_TYPE@[8] == 'r' && FS_ERROR_TYPE@[9] == 'o',
{
    reveal_strlit("message.v1.text");
    reveal_strlit("file.v2.offer");
    reveal_strlit("file.v2.accept");
    reveal_strlit("file.v2.reject");
    reveal_strlit("file.v2.ready");
    reveal_strlit("file.v2.chunk");
    reveal_strlit("file.v2.ack");
    reveal_strlit("file.v2.retransmit");
    reveal_strlit("file.v2.done");
    reveal_strlit("file.v2.cancel");
    reveal_strlit("clipboard.v1.sync");
    reveal_strlit("music.v1.alive");
    reveal_strlit("music.v1.request");
    reveal_strlit("sysinfo.v1.alive");
    reveal_strlit("fs.v1.roots-result");
    reveal_strlit("fs.v1.list-result");
    reveal_strlit("fs.v1.stat-result");
    reveal_strlit("fs.v1.roots");
    reveal_strlit("fs.v1.list");
    reveal_strlit("fs.v1.stat");
    reveal_strlit("fs.v1.download");
    reveal_strlit("fs.v1.error");
}

/// The types handled before the filesystem messages all differ from a
/// type that starts with `fs`.
#[verifier::spinoff_prover]
#[verifier::rlimit(50)]
proof fn lemma_fs_prefix_is_not_earlier(message_type: Seq<char>)
    requires
        message_type.len() > 1,
        message_type[0] == 'f',
        message_type[1] == 's',
    ensures
        message_type != TEXT_MESSAGE_TYPE@,
        message_type != FILE_OFFER_TYPE@,
        message_type != FILE_ACCEPT_TYPE@,
        message_type != FILE_REJECT_TYPE@,
        message_type != FILE_READY_TYPE@,
        message_type != FILE_CHUNK_TYPE@,
        message_type != FILE_ACK_TYPE@,
        message_type != FILE_RETRANSMIT_TYPE@,
        message_type != FILE_DONE_TYPE@,
        message_type != FILE_CANCEL_TYPE@,
        message_type != CLIPBOARD_SYNC_TYPE@,
        message_type != MUSIC_ALIVE_TYPE@,
        message_type != MUSIC_REQUEST_TYPE@,
        message_type != SYSINFO_ALIVE_TYPE@,
{
    reveal_strlit("message.v1.text");
    reveal_strlit("file.v2.offer");
    reveal_strlit("file.v2.accept");
    reveal_strlit("file.v2.reject");
    reveal_strlit("file.v2.ready");
    reveal_strlit("file.v2.chunk");
    reveal_strlit("file.v2.ack");
    reveal_strlit("file.v2.retransmit");
    reveal_strlit("file.v2.done");
    reveal_strlit("file.v2.cancel");
    reveal_strlit("clipboard.v1.sync");
    reveal_strlit("music.v1.alive");
    reveal_strlit("music.v1.request");
    reveal_strlit("sysinfo.v1.alive");
}

/// A peer's filesystem requests (roots, listing, stat and download) go to
/// the filesystem request handler.
#[verifier::spinoff_prover]
#[verifier::rlimit(50)]
pub proof fn lemma_filesystem_requests_routed(message_type: Seq<char>)
    requires
        message_type == "fs.v1.roots"@ || message_type == "fs.v1.list"@ || message_type == "fs.v1.stat"@
            || message_type == "fs.v1.download"@,
    ensures
        message_kind(message_type) == BusinessMessageKind::FilesystemRequest,
{
    reveal_strlit("fs.v1.roots");
    reveal_strlit("fs.v1.list");
    reveal_strlit("fs.v1.stat");
    reveal_strlit("fs.v1.download");
    lemma_fs_prefix_is_not_earlier(message_type);
}

/// The answers to our filesystem requests go to the result handler, and
/// their errors to the error handler.
#[verifier::spinoff_prover]
#[verifier::rlimit(50)]
pub proof fn lemma_filesystem_answers_routed(message_type: Seq<char>)
    ensures
        message_type == "fs.v1.roots-result"@ || message_type == "fs.v1.list-result"@ || message_type
            == "fs.v1.stat-result"@ ==> message_kind(message_type) == BusinessMessageKind::FilesystemResult,
        message_type == "fs.v1.error"@ ==> message_kind(message_type) == BusinessMessageKind::FilesystemError,
{
    lemma_message_type_shapes();
    if message_type.len() > 9 {
        assert(message_type[0] == message_type[0] && message_type[3] == message_type[3]);
        assert(message_type[8] == message_type[8] && message_type[9] == message_type[9]);
    }
    reveal_strlit("fs.v1.roots");
    reveal_strlit("fs.v1.list");
    reveal_strlit("fs.v1.stat");
    reveal_strlit("fs.v1.download");
    reveal_strlit("fs.v1.roots-result");
    reveal_strlit("fs.v1.list-result");
    reveal_strlit("fs.v1.stat-result");
    reveal_strlit("fs.v1.error");
    if message_type.len() > 1 && message_type[0] == 'f' && message_type[1] == 's' {
        lemma_fs_prefix_is_not_earlier(message_type);
    }
}

/// Text, file transfer, clipboard, music and system information messages
/// each go to their own handler.
#[verifier::spinoff_prover]
#[verifier::rlimit(50)]
pub proof fn lemma_peer_messages_routed(message_type: Seq<char>)
    ensures
        message_type == "message.v1.text"@ ==> message_kind(message_type) == BusinessMessageKind::TextMessage,
        message_type == "file.v2.offer"@ ==> message_kind(message_type) == BusinessMessageKind::FileOffer,
        message_type == "file.v2.accept"@ ==> message_kind(message_type) == BusinessMessageKind::FileAccept,
        message_type == "file.v2.reject"@ ==> message_kind(message_type) == BusinessMessageKind::FileReject,
        message_type == "file.v2.ready"@ ==> message_kind(message_type) == BusinessMessageKind::FileReady,
        message_type == "file.v2.chunk"@ ==> message_kind(message_type) == BusinessMessageKind::FileChunk,
        message_type == "file.v2.ack"@ ==> message_kind(message_type) == BusinessMessageKind::FileAck,
        message_type == "file.v2.retransmit"@ ==> message_kind(message_type)
            == BusinessMessageKind::FileRetransmit,
        message_type == "file.v2.done"@ ==> message_kind(message_type) == BusinessMessageKind::FileDone,
        message_type == "file.v2.cancel"@ ==> message_kind(message_type) == BusinessMessageKind::FileCancel,
        message_type == "clipboard.v1.sync"@ ==> message_kind(message_type)
            == BusinessMessageKind::ClipboardSync,
        message_type == "music.v1.alive"@ ==> message_kind(message_type) == BusinessMessageKind::MusicAlive,
        message_type == "music.v1.request"@ ==> message_kind(message_type)
            == BusinessMessageKind::MusicRequest,
        message_type == "sysinfo.v1.alive"@ ==> message_kind(message_type)
            == BusinessMessageKind::SysinfoAlive,
{
    lemma_message_type_shapes();
    if message_type.len() > 9 {
        assert(message_type[0] == message_type[0] && message_type[3] == message_type[3]);
        assert(message_type[8] == message_type[8] && message_type[9] == message_type[9]);
    }
    reveal_strlit("message.v1.text");
    reveal_strlit("file.v2.offer");
    reveal_strlit("file.v2.accept");
    reveal_strlit("file.v2.reject");
    reveal_strlit("file.v2.ready");
    reveal_strlit("file.v2.chunk");
    reveal_strlit("file.v2.ack");
    reveal_strlit("file.v2.retransmit");
    reveal_strlit("file.v2.done");
    reveal_strlit("file.v2.cancel");
    reveal_strlit("clipboard.v1.sync");
    reveal_strlit("music.v1.alive");
    reveal_strlit("music.v1.request");
    reveal_strlit("sysinfo.v1.alive");
}

} // verus!

