//! Clipboard synchronisation: the fingerprint of shared clipboard content.
use vstd::prelude::*;

use crate::protocol::payloads::ClipboardSyncPayload;
use crate::runtime::utils::{sha256_digest_hex, sha256_hex_text, sha256_new, sha256_update};
use vstd::utf8::encode_utf8;

verus! {

/// The UTF-8 bytes of an optional text (none when absent).
pub open spec fn optional_bytes(text: Option<String>) -> Seq<u8> {
    match text {
        Some(t) => encode_utf8(t@),
        None => Seq::empty(),
    }
}

/// The bytes a clipboard payload is fingerprinted over: its content type,
/// then its text content, then its encoded data.
pub open spec fn clipboard_fingerprint_input(payload: ClipboardSyncPayload) -> Seq<u8> {
    encode_utf8(payload.content_type@) + optional_bytes(payload.content) + optional_bytes(
        payload.data,
    )
}

/// The fingerprint of a clipboard payload: the lowercase hexadecimal SHA-256
/// digest of its type, content and data, by which repeats are recognised.
pub fn hash_clipboard_payload(payload: &ClipboardSyncPayload) -> (r: String)
    ensures
        r@ == sha256_hex_text(clipboard_fingerprint_input(*payload)),
{
    let mut state = sha256_new();
    sha256_update(&mut state, payload.content_type.as_str().as_bytes());
    if let Some(content) = &payload.content {
        sha256_update(&mut state, content.as_str().as_bytes());
    }
    if let Some(data) = &payload.data {
        sha256_update(&mut state, data.as_str().as_bytes());
    }
    proof {
        let t = encode_utf8(payload.content_type@);
        let c = optional_bytes(payload.content);
        let d = optional_bytes(payload.data);
        assert(Seq::<u8>::empty() + t + c + d =~= t + c + d);
        assert(Seq::<u8>::empty() + t =~= t);
        assert(t + Seq::<u8>::empty() =~= t);
        assert(t + c + Seq::<u8>::empty() =~= t + c);
    }
    sha256_digest_hex(&state)
}

} // verus!
