//! File transfer decisions: message types per protocol generation, reason
//! codes and their texts, checksum negotiation and transfer tokens.
use vstd::prelude::*;

use crate::error::AppError;
use crate::protocol::payloads::{
    BUSINESS_PROTOCOL_VERSION, FILE_ACCEPT_TYPE, FILE_CANCEL_TYPE, FILE_DONE_TYPE, FILE_OFFER_TYPE,
    FILE_REJECT_TYPE, FILE_V3_ACCEPT_TYPE, FILE_V3_CANCEL_TYPE, FILE_V3_DONE_TYPE, FILE_V3_OFFER_TYPE,
    FILE_V3_REJECT_TYPE,
};
use crate::protocol::version::{both_at_least, supports_business_protocol_at_least};
use crate::runtime::utils::{
    algorithm_of_name, checksum_parts, FileChecksumAlgorithm, FileChecksumVerifier,
};
use crate::text::{chars_of, str_eq, trim, trim_chars};
use vstd::string::StringExecFns;
use base64::Engine;
use rand::RngCore;

verus! {

// ---------------------------------------------------------------------------
// Protocol generations
// ---------------------------------------------------------------------------

/// The generation of the file transfer protocol a transfer runs on.
#[derive(Clone, Copy, Debug, PartialEq, Eq, Structural)]
pub enum FileTransferProtocol {
    V2,
    V3,
}

impl FileTransferProtocol {
    /// The message type of an offer.
    pub fn offer_type(self) -> (r: &'static str)
        ensures
            r@ == (match self {
                FileTransferProtocol::V2 => FILE_OFFER_TYPE@,
                FileTransferProtocol::V3 => FILE_V3_OFFER_TYPE@,
            }),
    {
        match self {
            FileTransferProtocol::V2 => FILE_OFFER_TYPE,
            FileTransferProtocol::V3 => FILE_V3_OFFER_TYPE,
        }
    }

    /// The message type of an acceptance.
    pub fn accept_type(self) -> (r: &'static str)
        ensures
            r@ == (match self {
                FileTransferProtocol::V2 => FILE_ACCEPT_TYPE@,
                FileTransferProtocol::V3 => FILE_V3_ACCEPT_TYPE@,
            }),
    {
        match self {
            FileTransferProtocol::V2 => FILE_ACCEPT_TYPE,
            FileTransferProtocol::V3 => FILE_V3_ACCEPT_TYPE,
        }
    }

    /// The message type of a rejection.
    pub fn reject_type(self) -> (r: &'static str)
        ensures
            r@ == (match self {
                FileTransferProtocol::V2 => FILE_REJECT_TYPE@,
                FileTransferProtocol::V3 => FILE_V3_REJECT_TYPE@,
            }),
    {
        match self {
            FileTransferProtocol::V2 => FILE_REJECT_TYPE,
            FileTransferProtocol::V3 => FILE_V3_REJECT_TYPE,
        }
    }

    /// The message type of a cancellation.
    pub fn cancel_type(self) -> (r: &'static str)
        ensures
            r@ == (match self {
                FileTransferProtocol::V2 => FILE_CANCEL_TYPE@,
                FileTransferProtocol::V3 => FILE_V3_CANCEL_TYPE@,
            }),
    {
        match self {
            FileTransferProtocol::V2 => FILE_CANCEL_TYPE,
            FileTransferProtocol::V3 => FILE_V3_CANCEL_TYPE,
        }
    }

    /// The message type that reports a completed transfer.
    pub fn done_type(self) -> (r: &'static str)
        ensures
            r@ == (match self {
                FileTransferProtocol::V2 => FILE_DONE_TYPE@,
                FileTransferProtocol::V3 => FILE_V3_DONE_TYPE@,
            }),
    {
        match self {
            FileTransferProtocol::V2 => FILE_DONE_TYPE,
            FileTransferProtocol::V3 => FILE_V3_DONE_TYPE,
        }
    }
}

// ---------------------------------------------------------------------------
// Reason codes
// ---------------------------------------------------------------------------

/// The sender or receiver cancelled the transfer.
pub const REASON_TRANSFER_USER_CANCELLED: &'static str = "colink:transfer.user_cancelled.v1";

/// The receiver declined the offer.
pub const REASON_TRANSFER_USER_REJECTED: &'static str = "colink:transfer.user_rejected.v1";

/// The received content did not match its checksum.
pub const REASON_TRANSFER_CHECKSUM_MISMATCH: &'static str = "colink:transfer.checksum_mismatch.v1";

/// The receiver ran out of space.
pub const REASON_TRANSFER_STORAGE_FULL: &'static str = "colink:transfer.storage_full.v1";

/// Any other failure.
pub const REASON_TRANSFER_GENERIC: &'static str = "colink:transfer.generic.v1";

/// The user-facing texts of transfer failures.
#[derive(Clone, Copy, Debug, PartialEq, Eq, Structural)]
pub enum TextKey {
    TransferUserCancelled,
    TransferUserRejected,
    TransferChecksumMismatch,
    TransferStorageFull,
    TransferGeneric,
}

impl TextKey {
    /// The English text of the key.
    pub fn english(self) -> (r: &'static str)
        ensures
            r@ == (match self {
                TextKey::TransferUserCancelled => "Transfer cancelled"@,
                TextKey::TransferUserRejected => "Recipient rejected the transfer"@,
                TextKey::TransferChecksumMismatch => "File checksum verification failed"@,
                TextKey::TransferStorageFull => "Storage full at destination"@,
                TextKey::TransferGeneric => "Transfer failed"@,
            }),
    {
        match self {
            TextKey::TransferUserCancelled => "Transfer cancelled",
            TextKey::TransferUserRejected => "Recipient rejected the transfer",
            TextKey::TransferChecksumMismatch => "File checksum verification failed",
            TextKey::TransferStorageFull => "Storage full at destination",
            TextKey::TransferGeneric => "Transfer failed",
        }
    }
}

/// The text key of a defined reason code; unknown codes have none and are
/// shown as they are.
pub open spec fn reason_text_key(reason: Seq<char>) -> Option<TextKey> {
    if reason == REASON_TRANSFER_USER_CANCELLED@ {
        Some(TextKey::TransferUserCancelled)
    } else if reason == REASON_TRANSFER_USER_REJECTED@ {
        Some(TextKey::TransferUserRejected)
    } else if reason == REASON_TRANSFER_CHECKSUM_MISMATCH@ {
        Some(TextKey::TransferChecksumMismatch)
    } else if reason == REASON_TRANSFER_STORAGE_FULL@ {
        Some(TextKey::TransferStorageFull)
    } else if reason == REASON_TRANSFER_GENERIC@ {
        Some(TextKey::TransferGeneric)
    } else {
        None
    }
}

/// The text key for `reason`.
pub fn transfer_error_text_key(reason: &str) -> (r: Option<TextKey>)
    ensures
        r == reason_text_key(reason@),
{
    if str_eq(reason, REASON_TRANSFER_USER_CANCELLED) {
        Some(TextKey::TransferUserCancelled)
    } else if str_eq(reason, REASON_TRANSFER_USER_REJECTED) {
        Some(TextKey::TransferUserRejected)
    } else if str_eq(reason, REASON_TRANSFER_CHECKSUM_MISMATCH) {
        Some(TextKey::TransferChecksumMismatch)
    } else if str_eq(reason, REASON_TRANSFER_STORAGE_FULL) {
        Some(TextKey::TransferStorageFull)
    } else if str_eq(reason, REASON_TRANSFER_GENERIC) {
        Some(TextKey::TransferGeneric)
    } else {
        None
    }
}

/// A generic failure shown with its detail: the generic text alone when the
/// detail is blank, else `<generic>: <detail>`.
pub open spec fn generic_error_text(generic: Seq<char>, message: Seq<char>) -> Seq<char> {
    if trim(message).len() == 0 {
        generic
    } else {
        generic + ": "@ + message
    }
}

/// The generic failure text `generic` (in the user's language) with the
/// detail `message`.
pub fn format_generic_transfer_error(generic: &str, message: &str) -> (r: String)
    ensures
        r@ == generic_error_text(generic@, message@),
{
    let chars = chars_of(message);
    let trimmed = trim_chars(chars.as_slice());
    let mut out = generic.to_owned();
    if trimmed.len() > 0 {
        out.append(": ");
        out.append(message);
    }
    out
}

/// Whether `s` begins with `prefix`.
pub open spec fn starts_with(s: Seq<char>, prefix: Seq<char>) -> bool {
    prefix.len() <= s.len() && s.take(prefix.len() as int) == prefix
}

/// The error recorded for a transfer the peer ended with `reason` and
/// `message` (a blank message counts as none): a generic reason shows the
/// generic text with the message; other `colink:` reasons are kept as codes
/// to be localised when shown; any other reason gives way to the message.
pub open spec fn peer_error(generic: Seq<char>, reason: Option<Seq<char>>, message: Option<Seq<char>>) -> Option<
    Seq<char>,
> {
    let message = match message {
        Some(m) => if trim(m).len() == 0 {
            None
        } else {
            Some(m)
        },
        None => None,
    };
    match reason {
        Some(r) => if r == REASON_TRANSFER_GENERIC@ {
            Some(
                match message {
                    Some(m) => generic_error_text(generic, m),
                    None => generic,
                },
            )
        } else if starts_with(r, "colink:"@) {
            Some(r)
        } else {
            Some(
                match message {
                    Some(m) => m,
                    None => r,
                },
            )
        },
        None => message,
    }
}

/// The text of an optional string.
pub open spec fn opt_text(s: Option<&str>) -> Option<Seq<char>> {
    match s {
        Some(v) => Some(v@),
        None => None,
    }
}

fn begins_with(s: &str, prefix: &str) -> (r: bool)
    ensures
        r == starts_with(s@, prefix@),
{
    let a = chars_of(s);
    let b = chars_of(prefix);
    if b.len() > a.len() {
        return false;
    }
    let mut i: usize = 0;
    while i < b.len()
        invariant
            a@ == s@,
            b@ == prefix@,
            b@.len() <= a@.len(),
            i <= b@.len(),
            forall|j: int| 0 <= j < i ==> a@[j] == b@[j],
        decreases b@.len() - i,
    {
        if a[i] != b[i] {
            proof {
                assert(a@.take(b@.len() as int)[i as int] != b@[i as int]);
            }
            return false;
        }
        i = i + 1;
    }
    proof {
        assert(a@.take(b@.len() as int) =~= b@);
    }
    true
}

/// The error to record for a transfer the peer ended; `generic` is the
/// generic failure text in the user's language.
pub fn transfer_error_from_peer(generic: &str, reason: Option<&str>, message: Option<&str>) -> (r: Option<
    String,
>)
    ensures
        match r {
            Some(s) => peer_error(generic@, opt_text(reason), opt_text(message)) == Some(s@),
            None => peer_error(generic@, opt_text(reason), opt_text(message)) is None,
        },
{
    let message = match message {
        Some(m) => {
            let chars = chars_of(m);
            if trim_chars(chars.as_slice()).len() == 0 {
                None
            } else {
                Some(m)
            }
        },
        None => None,
    };
    match reason {
        Some(r) => {
            if str_eq(r, REASON_TRANSFER_GENERIC) {
                match message {
                    Some(m) => Some(format_generic_transfer_error(generic, m)),
                    None => Some(generic.to_owned()),
                }
            } else if begins_with(r, "colink:") {
                Some(r.to_owned())
            } else {
                match message {
                    Some(m) => Some(m.to_owned()),
                    None => Some(r.to_owned()),
                }
            }
        },
        None => match message {
            Some(m) => Some(m.to_owned()),
            None => None,
        },
    }
}

// ---------------------------------------------------------------------------
// Checksums
// ---------------------------------------------------------------------------

/// Whether the peer's business protocol is at least `major.minor.patch`;
/// false when its version is unknown.
pub open spec fn peer_at_least(peer_version: Option<Seq<char>>, major: u64, minor: u64, patch: u64) -> bool {
    match peer_version {
        Some(v) => both_at_least(BUSINESS_PROTOCOL_VERSION@, v, (major, minor, patch)),
        None => false,
    }
}

/// The checksum algorithm for files sent to a peer: none once it speaks
/// 1.3.0 (it checks transfers itself), BLAKE3 from 1.2.0, an error below;
/// BLAKE3 while its version is unknown.
pub open spec fn checksum_algorithm_for(peer_version: Option<Seq<char>>) -> Option<FileChecksumAlgorithm> {
    match peer_version {
        Some(v) => if both_at_least(BUSINESS_PROTOCOL_VERSION@, v, (1, 3, 0)) {
            Some(FileChecksumAlgorithm::Disabled)
        } else if both_at_least(BUSINESS_PROTOCOL_VERSION@, v, (1, 2, 0)) {
            Some(FileChecksumAlgorithm::Blake3)
        } else {
            None
        },
        None => Some(FileChecksumAlgorithm::Blake3),
    }
}

/// The checksum algorithm for files sent to a peer of `peer_business_version`.
pub fn select_file_checksum_algorithm(peer_business_version: Option<&str>) -> (r: Result<
    FileChecksumAlgorithm,
    AppError,
>)
    ensures
        match checksum_algorithm_for(opt_text(peer_business_version)) {
            Some(a) => r == Ok::<FileChecksumAlgorithm, AppError>(a),
            None => r matches Err(e) && e.message@ == "peer does not support any file checksum algorithm"@,
        },
{
    match peer_business_version {
        Some(version) => {
            if supports_business_protocol_at_least(version, 1, 3, 0) {
                Ok(FileChecksumAlgorithm::Disabled)
            } else if supports_business_protocol_at_least(version, 1, 2, 0) {
                Ok(FileChecksumAlgorithm::Blake3)
            } else {
                Err(AppError::message("peer does not support any file checksum algorithm"))
            }
        },
        None => Ok(FileChecksumAlgorithm::Blake3),
    }
}

/// Whether a received offer's checksum can be verified: it must be a
/// well-formed `algorithm:digest` with a known algorithm (`none` only as
/// `none:none`).
pub open spec fn checksum_verifiable(checksum: Seq<char>) -> bool {
    match checksum_parts(checksum) {
        None => false,
        Some((name, digest)) => match algorithm_of_name(name) {
            None => false,
            Some(a) => !(a == FileChecksumAlgorithm::Disabled && digest != "none"@),
        },
    }
}

/// Whether an offer with `checksum` is accepted from a peer: the checksum
/// must be verifiable, and an unchecked (`none`) transfer only from a peer
/// known to speak 1.3.0 or later.
pub open spec fn checksum_allowed(checksum: Seq<char>, peer_version: Option<Seq<char>>) -> bool {
    checksum_verifiable(checksum) && match checksum_parts(checksum) {
        Some((name, _)) => algorithm_of_name(name) != Some(FileChecksumAlgorithm::Disabled)
            || peer_at_least(peer_version, 1, 3, 0),
        None => false,
    }
}

/// Whether an offer with `checksum` from a peer of `peer_business_version`
/// is accepted.
pub fn file_checksum_allowed_for_peer(checksum: &str, peer_business_version: Option<&str>) -> (r: bool)
    ensures
        r == checksum_allowed(checksum@, opt_text(peer_business_version)),
{
    proof {
        reveal_strlit("none");
        assert("none"@ =~= seq!['n', 'o', 'n', 'e']);
    }
    let verifier = match FileChecksumVerifier::new(checksum) {
        Ok(v) => v,
        Err(_) => return false,
    };
    if verifier.checksum_algorithm() != FileChecksumAlgorithm::Disabled {
        return true;
    }
    match peer_business_version {
        Some(version) => supports_business_protocol_at_least(version, 1, 3, 0),
        None => false,
    }
}

// ---------------------------------------------------------------------------
// Transfer tokens
// ---------------------------------------------------------------------------

/// The text `base64`'s URL-safe engine without padding encodes `bytes` as.
pub uninterp spec fn base64_url_encoded(bytes: Seq<u8>) -> Seq<char>;

/// What `base64`'s URL-safe engine without padding decodes `text` to, if it
/// is valid.
pub uninterp spec fn base64_url_decoded(text: Seq<char>) -> Option<Seq<u8>>;

/// A character of the URL-safe base64 alphabet.
pub open spec fn token_char(c: char) -> bool {
    ('a' <= c && c <= 'z') || ('A' <= c && c <= 'Z') || ('0' <= c && c <= '9') || c == '-' || c
        == '_'
}

/// The shape of a transfer token: 43 URL-safe base64 characters.
pub open spec fn token_shape(token: Seq<char>) -> bool {
    token.len() == 43 && forall|i: int| 0 <= i < token.len() ==> token_char(#[trigger] token[i])
}

/// A valid transfer token: its shape, and it decodes to 32 bytes.
pub open spec fn valid_transfer_token(token: Seq<char>) -> bool {
    token_shape(token) && match base64_url_decoded(token) {
        Some(bytes) => bytes.len() == 32,
        None => false,
    }
}

/// Calls `base64::engine::general_purpose::URL_SAFE_NO_PAD.encode`. Claims:
/// the text is `base64_url_encoded` of the bytes; 32 bytes give 43
/// characters of the URL-safe alphabet; and decoding the text gives the
/// bytes back.
#[verifier::external_body]
fn encode_base64_url(bytes: &[u8]) -> (r: String)
    ensures
        r@ == base64_url_encoded(bytes@),
        bytes@.len() == 32 ==> r@.len() == 43,
        forall|i: int| 0 <= i < r@.len() ==> token_char(#[trigger] r@[i]),
        base64_url_decoded(r@) == Some(bytes@),
{
    base64::engine::general_purpose::URL_SAFE_NO_PAD.encode(bytes)
}

/// Calls `base64::engine::general_purpose::URL_SAFE_NO_PAD.decode`. Claims:
/// the result is `base64_url_decoded` of the text.
#[verifier::external_body]
fn decode_base64_url(text: &str) -> (r: Option<Vec<u8>>)
    ensures
        match r {
            Some(v) => base64_url_decoded(text@) == Some(v@),
            None => base64_url_decoded(text@) is None,
        },
{
    base64::engine::general_purpose::URL_SAFE_NO_PAD.decode(text).ok()
}

/// Calls `rand::rngs::OsRng::try_fill_bytes` on 32 bytes. Claims: on success,
/// 32 bytes; which bytes is left open, as it is chance.
#[verifier::external_body]
fn os_random_32() -> (r: Option<Vec<u8>>)
    ensures
        match r {
            Some(v) => v@.len() == 32,
            None => true,
        },
{
    let mut bytes = [0u8; 32];
    match rand::rngs::OsRng.try_fill_bytes(&mut bytes) {
        Ok(()) => Some(bytes.to_vec()),
        Err(_) => None,
    }
}

/// Whether `token`'s characters have the shape of a transfer token.
pub fn transfer_token_shape(token: &str) -> (r: bool)
    ensures
        r == token_shape(token@),
{
    let chars = chars_of(token);
    if chars.len() != 43 {
        return false;
    }
    let mut i: usize = 0;
    while i < chars.len()
        invariant
            chars@ == token@,
            chars@.len() == 43,
            i <= chars@.len(),
            forall|j: int| 0 <= j < i ==> token_char(#[trigger] chars@[j]),
        decreases chars@.len() - i,
    {
        let c = chars[i];
        if !(('a' <= c && c <= 'z') || ('A' <= c && c <= 'Z') || ('0' <= c && c <= '9') || c == '-'
            || c == '_') {
            return false;
        }
        i = i + 1;
    }
    true
}

/// Whether a token of the right shape whose decoding came out as `decoded`
/// is accepted: it must have decoded to exactly 32 bytes.
pub fn transfer_token_decoded_ok(decoded: Option<Vec<u8>>) -> (r: bool)
    ensures
        r == match decoded {
            Some(v) => v@.len() == 32,
            None => false,
        },
{
    match decoded {
        Some(v) => v.len() == 32,
        None => false,
    }
}

/// Whether `token` is a valid transfer token.
pub fn is_valid_file_v3_transfer_token(token: &str) -> (r: bool)
    ensures
        r == valid_transfer_token(token@),
{
    if !transfer_token_shape(token) {
        return false;
    }
    transfer_token_decoded_ok(decode_base64_url(token))
}

/// A fresh transfer token: 32 random bytes in URL-safe base64. Fails when
/// the system's random source does.
pub fn generate_file_v3_transfer_token() -> (r: Result<String, AppError>)
    ensures
        match r {
            Ok(token) => valid_transfer_token(token@),
            Err(e) => e.message@ == "system random source failed"@,
        },
{
    match os_random_32() {
        Some(bytes) => Ok(encode_base64_url(bytes.as_slice())),
        None => Err(AppError::message("system random source failed")),
    }
}

} // verus!
