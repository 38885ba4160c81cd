//! The notes cloud API: paths, error codes, transfer objects, and the
//! helpers the HTTP client uses.
use vstd::prelude::*;

use crate::error::AppError;
use crate::runtime::utils::{sha256_digest_hex, sha256_hex_text, sha256_new, sha256_update};
use crate::text::{ascii_lower_chars, ascii_lower_seq, chars_eq, chars_of, decimal, decimal_string};
use vstd::string::{StrSliceExecFns, StringExecFns};

verus! {

/// Notes collection.
pub const NOTES_PATH: &'static str = "/api/v1/notes";

/// Note tags collection.
pub const NOTE_TAGS_PATH: &'static str = "/api/v1/note-tags";

/// Note attachments collection.
pub const NOTE_ATTACHMENTS_PATH: &'static str = "/api/v1/note-attachments";

/// Full snapshot of the notes.
pub const NOTES_SNAPSHOT_PATH: &'static str = "/api/v1/notes/sync/snapshot";

/// Incremental changes since a cursor.
pub const NOTES_CHANGES_PATH: &'static str = "/api/v1/notes/sync/changes";

/// Storage use and limits.
pub const NOTES_STORAGE_PATH: &'static str = "/api/v1/notes/storage";

/// The note does not exist.
pub const CODE_NOTE_NOT_FOUND: i32 = 6001;

/// The note changed since the revision given.
pub const CODE_REVISION_CONFLICT: i32 = 6002;

/// The tag does not exist.
pub const CODE_TAG_NOT_FOUND: i32 = 6003;

/// The attachment does not exist.
pub const CODE_ATTACHMENT_NOT_FOUND: i32 = 6005;

/// A note refers to a tag or attachment that does not exist.
pub const CODE_INVALID_NOTE_REFERENCE: i32 = 6008;

/// The sync cursor is too old; a snapshot is needed.
pub const CODE_SYNC_CURSOR_EXPIRED: i32 = 6009;

/// The attachment id is taken.
pub const CODE_ATTACHMENT_ID_UNAVAILABLE: i32 = 6011;

/// A note as the cloud stores it.
#[derive(Debug, Clone)]
pub struct NoteDto {
    pub note_id: String,
    pub title: String,
    pub markdown: String,
    pub tag_ids: Vec<String>,
    pub attachments: Vec<AttachmentDto>,
    pub revision: i64,
    pub created_at: String,
    pub updated_at: String,
}

/// An attachment as the cloud stores it.
#[derive(Debug, Clone)]
pub struct AttachmentDto {
    pub attachment_id: String,
    pub kind: String,
    pub file_name: String,
    pub media_type: String,
    pub size: i64,
    pub sha256: String,
    pub created_at: String,
}

/// A tag as the cloud stores it.
#[derive(Debug, Clone)]
pub struct TagDto {
    pub tag_id: String,
    pub name: String,
    pub revision: i64,
    pub created_at: String,
    pub updated_at: String,
}

/// The text after the last `.` of `name` (all of it when there is none).
pub open spec fn last_segment(name: Seq<char>) -> Seq<char>
    decreases name.len(),
{
    if name.len() == 0 {
        name
    } else if name.last() == '.' {
        Seq::empty()
    } else {
        last_segment(name.drop_last()).push(name.last())
    }
}

/// The media type of an attachment: by its file extension, in any case;
/// unknown extensions give `image/png` for images and
/// `application/octet-stream` otherwise.
pub open spec fn media_type_of(file_name: Seq<char>, kind: Seq<char>) -> Seq<char> {
    let ext = ascii_lower_seq(last_segment(file_name));
    if ext == "png"@ {
        "image/png"@
    } else if ext == "jpg"@ || ext == "jpeg"@ {
        "image/jpeg"@
    } else if ext == "gif"@ {
        "image/gif"@
    } else if ext == "webp"@ {
        "image/webp"@
    } else if ext == "svg"@ {
        "image/svg+xml"@
    } else if ext == "bmp"@ {
        "image/bmp"@
    } else if ext == "pdf"@ {
        "application/pdf"@
    } else if ext == "txt"@ {
        "text/plain"@
    } else if ext == "md"@ {
        "text/markdown"@
    } else if ext == "json"@ {
        "application/json"@
    } else if ext == "zip"@ {
        "application/zip"@
    } else if ext == "mp3"@ {
        "audio/mpeg"@
    } else if ext == "mp4"@ {
        "video/mp4"@
    } else if kind == "image"@ {
        "image/png"@
    } else {
        "application/octet-stream"@
    }
}

fn is_ext(ext: &Vec<char>, name: &str) -> (r: bool)
    ensures
        r == (ext@ == name@),
{
    let expected = chars_of(name);
    chars_eq(ext.as_slice(), expected.as_slice())
}

/// The media type of an attachment named `file_name` of `kind`.
pub fn infer_media_type(file_name: &str, kind: &str) -> (r: String)
    ensures
        r@ == media_type_of(file_name@, kind@),
{
    let chars = chars_of(file_name);
    let mut start: usize = chars.len();
    proof {
        assert(chars@.take(start as int) =~= chars@);
        assert(chars@ + chars@.skip(start as int) =~= chars@);
    }
    while start > 0 && chars[start - 1] != '.'
        invariant
            start <= chars@.len(),
            chars@ == file_name@,
            last_segment(chars@) == last_segment(chars@.take(start as int)) + chars@.skip(start as int),
        decreases start,
    {
        proof {
            let t = chars@.take(start as int);
            assert(t.drop_last() =~= chars@.take(start - 1));
            assert(last_segment(t) == last_segment(chars@.take(start - 1)).push(t.last()));
            assert(chars@.skip(start - 1) =~= seq![chars@[start - 1]] + chars@.skip(start as int));
            assert(last_segment(chars@.take(start - 1)).push(t.last()) + chars@.skip(start as int)
                =~= last_segment(chars@.take(start - 1)) + chars@.skip(start - 1));
        }
        start = start - 1;
    }
    let mut ext: Vec<char> = Vec::new();
    let mut i: usize = start;
    while i < chars.len()
        invariant
            start <= i <= chars@.len(),
            ext@ == chars@.subrange(start as int, i as int),
        decreases chars@.len() - i,
    {
        ext.push(chars[i]);
        proof {
            assert(chars@.subrange(start as int, i + 1) =~= chars@.subrange(start as int, i as int).push(
                chars@[i as int],
            ));
        }
        i = i + 1;
    }
    proof {
        let t = chars@.take(start as int);
        if start > 0 {
            assert(t.last() == '.');
            assert(last_segment(t) =~= Seq::<char>::empty());
        } else {
            assert(t =~= Seq::<char>::empty());
        }
        assert(ext@ =~= last_segment(chars@));
    }
    let ext = ascii_lower_chars(ext.as_slice());
    let guessed = if is_ext(&ext, "png") {
        "image/png"
    } else if is_ext(&ext, "jpg") || is_ext(&ext, "jpeg") {
        "image/jpeg"
    } else if is_ext(&ext, "gif") {
        "image/gif"
    } else if is_ext(&ext, "webp") {
        "image/webp"
    } else if is_ext(&ext, "svg") {
        "image/svg+xml"
    } else if is_ext(&ext, "bmp") {
        "image/bmp"
    } else if is_ext(&ext, "pdf") {
        "application/pdf"
    } else if is_ext(&ext, "txt") {
        "text/plain"
    } else if is_ext(&ext, "md") {
        "text/markdown"
    } else if is_ext(&ext, "json") {
        "application/json"
    } else if is_ext(&ext, "zip") {
        "application/zip"
    } else if is_ext(&ext, "mp3") {
        "audio/mpeg"
    } else if is_ext(&ext, "mp4") {
        "video/mp4"
    } else if crate::text::str_eq(kind, "image") {
        "image/png"
    } else {
        "application/octet-stream"
    };
    guessed.to_owned()
}

/// The lowercase hexadecimal SHA-256 digest of `content`.
pub fn sha256_hex(content: &[u8]) -> (r: String)
    ensures
        r@ == sha256_hex_text(content@),
{
    let mut state = sha256_new();
    sha256_update(&mut state, content);
    proof {
        assert(Seq::<u8>::empty() + content@ =~= content@);
    }
    sha256_digest_hex(&state)
}

/// The address `url::Url::parse(base)` joined with `relative` gives, as
/// text; `None` when either step fails.
pub uninterp spec fn url_joined(base: Seq<char>, relative: Seq<char>) -> Option<Seq<char>>;

/// Calls `url::Url::parse` on `base` and `Url::join` with `relative`, and
/// renders the result. Claims: the result is `url_joined` of the two texts;
/// a failure gives the parser's message, about which nothing is claimed.
#[verifier::external_body]
pub(crate) fn join_url(base: &str, relative: &str) -> (r: Result<String, String>)
    ensures
        match r {
            Ok(s) => url_joined(base@, relative@) == Some(s@),
            Err(_) => url_joined(base@, relative@) is None,
        },
{
    match url::Url::parse(base).and_then(|parsed| parsed.join(relative)) {
        Ok(joined) => Ok(joined.to_string()),
        Err(error) => Err(error.to_string()),
    }
}

/// `s` without its leading `/` characters.
pub open spec fn trim_leading_slashes(s: Seq<char>) -> Seq<char>
    decreases s.len(),
{
    if s.len() > 0 && s[0] == '/' {
        trim_leading_slashes(s.drop_first())
    } else {
        s
    }
}

/// The address of the API `path` under `base_url`: the path, without its
/// leading slashes, resolved against the base.
pub fn endpoint(base_url: &str, path: &str) -> (r: Result<String, AppError>)
    ensures
        match url_joined(base_url@, trim_leading_slashes(path@)) {
            Some(s) => r matches Ok(t) && t@ == s,
            None => r is Err,
        },
{
    match join_url(base_url, without_leading_slashes(path)) {
        Ok(joined) => Ok(joined),
        Err(message) => Err(AppError { message }),
    }
}

/// `path` without its leading `/` characters.
fn without_leading_slashes(path: &str) -> (r: &str)
    ensures
        r@ == trim_leading_slashes(path@),
{
    let chars = chars_of(path);
    let mut start: usize = 0;
    proof {
        assert(path@.skip(0) =~= path@);
    }
    while start < chars.len() && chars[start] == '/'
        invariant
            chars@ == path@,
            start <= chars@.len(),
            trim_leading_slashes(path@) == trim_leading_slashes(path@.skip(start as int)),
        decreases chars@.len() - start,
    {
        proof {
            assert(path@.skip(start as int).drop_first() =~= path@.skip(start + 1));
        }
        start = start + 1;
    }
    let relative = path.substring_char(start, chars.len());
    proof {
        assert(relative@ =~= path@.skip(start as int));
        if start < chars@.len() {
            assert(path@.skip(start as int)[0] == chars@[start as int]);
        }
    }
    relative
}

/// The address `url::Url::parse(base)` gives once its path is set to `path`
/// and each pair of `query` is appended to its query, as text; `None` when
/// `base` does not parse.
pub uninterp spec fn url_with_query(
    base: Seq<char>,
    path: Seq<char>,
    query: Seq<(Seq<char>, Seq<char>)>,
) -> Option<Seq<char>>;

/// The views of query pairs.
pub open spec fn pair_views(query: Seq<(&str, &str)>) -> Seq<(Seq<char>, Seq<char>)> {
    query.map_values(|p: (&str, &str)| (p.0@, p.1@))
}

/// Calls `url::Url::parse` on `base`, `Url::set_path` with `path`, and
/// `append_pair` on `query_pairs_mut` for each pair in order, and renders
/// the result. Claims: the result is `url_with_query` of the arguments; a
/// failure gives the parser's message, about which nothing is claimed.
#[verifier::external_body]
fn parse_with_query(base: &str, path: &str, query: &[(&str, &str)]) -> (r: Result<String, String>)
    ensures
        match r {
            Ok(s) => url_with_query(base@, path@, pair_views(query@)) == Some(s@),
            Err(_) => url_with_query(base@, path@, pair_views(query@)) is None,
        },
{
    let mut url = url::Url::parse(base).map_err(|error| error.to_string())?;
    url.set_path(path);
    for (key, value) in query {
        url.query_pairs_mut().append_pair(key, value);
    }
    Ok(url.to_string())
}

/// The address `base_url` gives with its path set to `path` without its
/// leading slashes and `query` appended to its query.
pub fn url_query(base_url: &str, path: &str, query: &[(&str, &str)]) -> (r: Result<String, AppError>)
    ensures
        match url_with_query(base_url@, trim_leading_slashes(path@), pair_views(query@)) {
            Some(s) => r matches Ok(t) && t@ == s,
            None => r is Err,
        },
{
    match parse_with_query(base_url, without_leading_slashes(path), query) {
        Ok(text) => Ok(text),
        Err(message) => Err(AppError { message }),
    }
}

/// The decimal text of `n`, with a `-` before a negative one.
pub open spec fn signed_decimal(n: int) -> Seq<char> {
    if n < 0 {
        "-"@ + decimal((-n) as nat)
    } else {
        decimal(n as nat)
    }
}

/// The path of the item `id` of the collection at `collection_path`.
pub fn item_path(collection_path: &str, id: &str) -> (r: String)
    ensures
        r@ == collection_path@ + "/"@ + id@,
{
    let mut path = collection_path.to_owned();
    path.append("/");
    path.append(id);
    path
}

/// The path that deletes the item `id` of the collection at
/// `collection_path`, as of cloud revision `base_revision`.
pub fn delete_path(collection_path: &str, id: &str, base_revision: i64) -> (r: String)
    ensures
        r@ == collection_path@ + "/"@ + id@ + "?baseRevision="@ + signed_decimal(base_revision as int),
{
    let mut path = item_path(collection_path, id);
    path.append("?baseRevision=");
    if base_revision < 0 {
        let below = -(base_revision + 1);
        let magnitude = below as u64 + 1;
        path.append("-");
        let digits = decimal_string(magnitude);
        path.append(digits.as_str());
    } else {
        let digits = decimal_string(base_revision as u64);
        path.append(digits.as_str());
    }
    path
}

} // verus!
