use vstd::prelude::*;

use sha2::Digest;

use crate::error::AppError;
use crate::text::{ascii_lower_chars, ascii_lower_seq, chars_eq, chars_of};
use vstd::string::{StrSliceExecFns, StringExecFns};

verus! {

// ---------------------------------------------------------------------------
// Hash functions
// ---------------------------------------------------------------------------

/// A SHA-256 computation in progress.
#[verifier::external_body]
pub struct Sha256State {
    inner: sha2::Sha256,
}

#[verifier::external_type_specification]
#[verifier::external_body]
pub struct ExBlake3Hasher(blake3::Hasher);

/// The bytes a SHA-256 computation has absorbed so far.
pub uninterp spec fn sha256_input(state: Sha256State) -> Seq<u8>;

/// The lowercase hexadecimal SHA-256 digest of `data`, as `sha2` computes it.
pub uninterp spec fn sha256_hex_text(data: Seq<u8>) -> Seq<char>;

/// The bytes a BLAKE3 hasher has absorbed so far.
pub uninterp spec fn blake3_input(hasher: blake3::Hasher) -> Seq<u8>;

/// The lowercase hexadecimal BLAKE3 hash of `data`, as `blake3` computes it.
pub uninterp spec fn blake3_hex(data: Seq<u8>) -> Seq<char>;

/// Calls `sha2::Sha256::new`. Claims: the new computation has absorbed nothing.
#[verifier::external_body]
pub(crate) fn sha256_new() -> (r: Sha256State)
    ensures
        sha256_input(r) == Seq::<u8>::empty(),
{
    Sha256State { inner: sha2::Sha256::new() }
}

/// Calls `sha2::Digest::update`. Claims: the computation has absorbed `bytes`
/// after what it held before.
#[verifier::external_body]
pub(crate) fn sha256_update(state: &mut Sha256State, bytes: &[u8])
    ensures
        sha256_input(*final(state)) == sha256_input(*old(state)) + bytes@,
{
    state.inner.update(bytes);
}

/// Calls `sha2::Digest::finalize` on a copy of the computation and renders the
/// digest with `{:x}`. Claims: the text is `sha256_hex_text` of the absorbed bytes.
#[verifier::external_body]
pub(crate) fn sha256_digest_hex(state: &Sha256State) -> (r: String)
    ensures
        r@ == sha256_hex_text(sha256_input(*state)),
{
    format!("{:x}", state.inner.clone().finalize())
}

/// Calls `blake3::Hasher::new`. Claims: the new hasher has absorbed nothing.
#[verifier::external_body]
fn blake3_new() -> (r: blake3::Hasher)
    ensures
        blake3_input(r) == Seq::<u8>::empty(),
{
    blake3::Hasher::new()
}

/// Calls `blake3::Hasher::update`. Claims: the hasher has absorbed `bytes`
/// after what it held before.
#[verifier::external_body]
fn blake3_update(hasher: &mut blake3::Hasher, bytes: &[u8])
    ensures
        blake3_input(*final(hasher)) == blake3_input(*old(hasher)) + bytes@,
{
    hasher.update(bytes);
}

/// Calls `blake3::Hasher::finalize` and `Hash::to_hex`. Claims: the text is
/// `blake3_hex` of the absorbed bytes.
#[verifier::external_body]
fn blake3_digest_hex(hasher: &blake3::Hasher) -> (r: String)
    ensures
        r@ == blake3_hex(blake3_input(*hasher)),
{
    hasher.finalize().to_hex().to_string()
}

// ---------------------------------------------------------------------------
// Checksum algorithms
// ---------------------------------------------------------------------------

/// The checksum algorithm of a file transfer.
#[derive(Clone, Copy, Debug, Eq, PartialEq, Structural)]
pub enum FileChecksumAlgorithm {
    Sha256,
    Blake3,
    Disabled,
}

/// The algorithm files are checksummed with unless the peer needs another.
pub const DEFAULT_FILE_CHECKSUM_ALGORITHM: FileChecksumAlgorithm = FileChecksumAlgorithm::Blake3;

/// The prefix of each algorithm in a checksum string.
pub open spec fn algorithm_name(algorithm: FileChecksumAlgorithm) -> Seq<char> {
    match algorithm {
        FileChecksumAlgorithm::Sha256 => seq!['s', 'h', 'a', '2', '5', '6'],
        FileChecksumAlgorithm::Blake3 => seq!['b', 'l', 'a', 'k', 'e', '3'],
        FileChecksumAlgorithm::Disabled => seq!['n', 'o', 'n', 'e'],
    }
}

/// The algorithm a prefix names, ignoring ASCII case.
pub open spec fn algorithm_of_name(name: Seq<char>) -> Option<FileChecksumAlgorithm> {
    let lower = ascii_lower_seq(name);
    if lower == seq!['s', 'h', 'a', '2', '5', '6'] {
        Some(FileChecksumAlgorithm::Sha256)
    } else if lower == seq!['b', 'l', 'a', 'k', 'e', '3'] {
        Some(FileChecksumAlgorithm::Blake3)
    } else if lower == seq!['n', 'o', 'n', 'e'] {
        Some(FileChecksumAlgorithm::Disabled)
    } else {
        None
    }
}

/// Every algorithm's name parses back to that algorithm.
pub proof fn lemma_algorithm_name_roundtrip(algorithm: FileChecksumAlgorithm)
    ensures
        algorithm_of_name(algorithm_name(algorithm)) == Some(algorithm),
{
    assert(ascii_lower_seq(algorithm_name(algorithm)) =~= algorithm_name(algorithm));
}

impl FileChecksumAlgorithm {
    /// The algorithm named by `name` in any ASCII case.
    pub fn parse(name: &str) -> (r: Result<Self, AppError>)
        ensures
            match algorithm_of_name(name@) {
                Some(algorithm) => r == Ok::<Self, AppError>(algorithm),
                None => r matches Err(e) && e.message@ == "unsupported checksum algorithm: "@
                    + name@,
            },
    {
        let chars = chars_of(name);
        let lower = ascii_lower_chars(chars.as_slice());
        let sha256 = chars_of("sha256");
        let blake3 = chars_of("blake3");
        let none = chars_of("none");
        proof {
            reveal_strlit("sha256");
            reveal_strlit("blake3");
            reveal_strlit("none");
            assert(sha256@ =~= seq!['s', 'h', 'a', '2', '5', '6']);
            assert(blake3@ =~= seq!['b', 'l', 'a', 'k', 'e', '3']);
            assert(none@ =~= seq!['n', 'o', 'n', 'e']);
        }
        if chars_eq(lower.as_slice(), sha256.as_slice()) {
            Ok(FileChecksumAlgorithm::Sha256)
        } else if chars_eq(lower.as_slice(), blake3.as_slice()) {
            Ok(FileChecksumAlgorithm::Blake3)
        } else if chars_eq(lower.as_slice(), none.as_slice()) {
            Ok(FileChecksumAlgorithm::Disabled)
        } else {
            let mut message = "unsupported checksum algorithm: ".to_owned();
            message.append(name);
            Err(AppError { message })
        }
    }

    /// The prefix of this algorithm in a checksum string.
    pub fn as_str(self) -> (r: &'static str)
        ensures
            r@ == algorithm_name(self),
    {
        proof {
            reveal_strlit("sha256");
            reveal_strlit("blake3");
            reveal_strlit("none");
            assert("sha256"@ =~= seq!['s', 'h', 'a', '2', '5', '6']);
            assert("blake3"@ =~= seq!['b', 'l', 'a', 'k', 'e', '3']);
            assert("none"@ =~= seq!['n', 'o', 'n', 'e']);
        }
        match self {
            FileChecksumAlgorithm::Sha256 => "sha256",
            FileChecksumAlgorithm::Blake3 => "blake3",
            FileChecksumAlgorithm::Disabled => "none",
        }
    }
}

/// The index of the first `sep` in `s`, if any.
pub open spec fn first_index(s: Seq<char>, sep: char) -> Option<int> {
    if exists|i: int| 0 <= i < s.len() && s[i] == sep {
        Some(choose|i: int| 0 <= i < s.len() && s[i] == sep && forall|j: int| 0 <= j < i ==> s[j] != sep)
    } else {
        None
    }
}

/// The part of a checksum before its first `:` and the part after it.
pub open spec fn checksum_parts(checksum: Seq<char>) -> Option<(Seq<char>, Seq<char>)> {
    match first_index(checksum, ':') {
        Some(i) => Some((checksum.take(i), checksum.skip(i + 1))),
        None => None,
    }
}

/// `checksum` split at its first `:` into an algorithm and a digest.
pub fn split_checksum(checksum: &str) -> (r: Result<(FileChecksumAlgorithm, &str), AppError>)
    ensures
        match checksum_parts(checksum@) {
            None => r matches Err(e) && e.message@ == "checksum must include an algorithm prefix"@,
            Some((name, digest)) => match algorithm_of_name(name) {
                Some(algorithm) => r matches Ok((a, d)) && a == algorithm && d@ == digest,
                None => r matches Err(e) && e.message@ == "unsupported checksum algorithm: "@
                    + name,
            },
        },
{
    let chars = chars_of(checksum);
    let mut i: usize = 0;
    while i < chars.len() && chars[i] != ':'
        invariant
            i <= chars@.len(),
            chars@ == checksum@,
            forall|j: int| 0 <= j < i ==> chars@[j] != ':',
        decreases chars@.len() - i,
    {
        i = i + 1;
    }
    if i == chars.len() {
        return Err(AppError::message("checksum must include an algorithm prefix"));
    }
    proof {
        let w = choose|k: int|
            0 <= k < checksum@.len() && checksum@[k] == ':' && forall|j: int|
                0 <= j < k ==> checksum@[j] != ':';
        assert(0 <= i < checksum@.len() && checksum@[i as int] == ':' && forall|j: int|
            0 <= j < i ==> checksum@[j] != ':');
        if w < i {
        } else if w > i {
            assert(checksum@[i as int] != ':');
        }
        assert(w == i);
    }
    let name = checksum.substring_char(0, i);
    let digest = checksum.substring_char(i + 1, chars.len());
    let algorithm = FileChecksumAlgorithm::parse(name)?;
    proof {
        assert(name@ =~= checksum@.take(i as int));
        assert(digest@ =~= checksum@.skip(i + 1));
    }
    Ok((algorithm, digest))
}

/// `algorithm:digest`, the checksum string of a computed digest.
pub fn checksum_with_prefix(algorithm: FileChecksumAlgorithm, digest: &str) -> (r: String)
    ensures
        r@ == algorithm_name(algorithm) + seq![':'] + digest@,
{
    let mut out = algorithm.as_str().to_owned();
    out.append(":");
    out.append(digest);
    proof {
        reveal_strlit(":");
        assert(out@ =~= algorithm_name(algorithm) + seq![':'] + digest@);
    }
    out
}

// ---------------------------------------------------------------------------
// Incremental verification
// ---------------------------------------------------------------------------

/// The hash state behind a checksum verifier.
pub enum FileChecksumHasherKind {
    Sha256(Sha256State),
    Blake3(blake3::Hasher),
    Disabled,
}

/// A hash computation for one checksum algorithm.
pub struct FileChecksumHasher {
    inner: FileChecksumHasherKind,
}

impl FileChecksumHasher {
    /// The algorithm this hasher computes.
    pub closed spec fn algorithm(self) -> FileChecksumAlgorithm {
        match self.inner {
            FileChecksumHasherKind::Sha256(_) => FileChecksumAlgorithm::Sha256,
            FileChecksumHasherKind::Blake3(_) => FileChecksumAlgorithm::Blake3,
            FileChecksumHasherKind::Disabled => FileChecksumAlgorithm::Disabled,
        }
    }

    /// The digest text the hasher gives for what it has absorbed; `none` for
    /// the `none` algorithm.
    pub closed spec fn digest(self) -> Seq<char> {
        match self.inner {
            FileChecksumHasherKind::Sha256(state) => sha256_hex_text(sha256_input(state)),
            FileChecksumHasherKind::Blake3(hasher) => blake3_hex(blake3_input(hasher)),
            FileChecksumHasherKind::Disabled => seq!['n', 'o', 'n', 'e'],
        }
    }

    /// The bytes absorbed so far, for the algorithms that hash.
    pub closed spec fn input(self) -> Seq<u8> {
        match self.inner {
            FileChecksumHasherKind::Sha256(state) => sha256_input(state),
            FileChecksumHasherKind::Blake3(hasher) => blake3_input(hasher),
            FileChecksumHasherKind::Disabled => Seq::empty(),
        }
    }

    /// The algorithm this hasher computes.
    pub fn algorithm_of(&self) -> (r: FileChecksumAlgorithm)
        ensures
            r == self.algorithm(),
    {
        match &self.inner {
            FileChecksumHasherKind::Sha256(_) => FileChecksumAlgorithm::Sha256,
            FileChecksumHasherKind::Blake3(_) => FileChecksumAlgorithm::Blake3,
            FileChecksumHasherKind::Disabled => FileChecksumAlgorithm::Disabled,
        }
    }

    /// A hasher for `algorithm` that has absorbed nothing.
    pub fn new(algorithm: FileChecksumAlgorithm) -> (r: Self)
        ensures
            r.algorithm() == algorithm,
            r.input() == Seq::<u8>::empty(),
    {
        let inner = match algorithm {
            FileChecksumAlgorithm::Sha256 => FileChecksumHasherKind::Sha256(sha256_new()),
            FileChecksumAlgorithm::Blake3 => FileChecksumHasherKind::Blake3(blake3_new()),
            FileChecksumAlgorithm::Disabled => FileChecksumHasherKind::Disabled,
        };
        FileChecksumHasher { inner }
    }

    /// Absorbs `bytes` (the `none` algorithm ignores them).
    pub fn update(&mut self, bytes: &[u8])
        ensures
            final(self).algorithm() == old(self).algorithm(),
            final(self).input() == if old(self).algorithm() == FileChecksumAlgorithm::Disabled {
                Seq::<u8>::empty()
            } else {
                old(self).input() + bytes@
            },
    {
        match &mut self.inner {
            FileChecksumHasherKind::Sha256(state) => sha256_update(state, bytes),
            FileChecksumHasherKind::Blake3(hasher) => blake3_update(hasher, bytes),
            FileChecksumHasherKind::Disabled => {},
        }
    }

    /// The digest text: the digest of the hasher's algorithm over the
    /// bytes it has absorbed (`none` for the `none` algorithm).
    pub fn digest_hex(&self) -> (r: String)
        ensures
            r@ == self.digest(),
            r@ == digest_of(self.algorithm(), self.input()),
    {
        match &self.inner {
            FileChecksumHasherKind::Sha256(state) => sha256_digest_hex(state),
            FileChecksumHasherKind::Blake3(hasher) => blake3_digest_hex(hasher),
            FileChecksumHasherKind::Disabled => {
                proof {
                    reveal_strlit("none");
                    assert("none"@ =~= seq!['n', 'o', 'n', 'e']);
                }
                "none".to_owned()
            },
        }
    }
}

/// The digest text of `algorithm` over `data`.
pub open spec fn digest_of(algorithm: FileChecksumAlgorithm, data: Seq<u8>) -> Seq<char> {
    match algorithm {
        FileChecksumAlgorithm::Sha256 => sha256_hex_text(data),
        FileChecksumAlgorithm::Blake3 => blake3_hex(data),
        FileChecksumAlgorithm::Disabled => seq!['n', 'o', 'n', 'e'],
    }
}

/// Checks received file content against an `algorithm:digest` checksum as it
/// arrives.
pub struct FileChecksumVerifier {
    expected: String,
    hasher: FileChecksumHasher,
}

impl FileChecksumVerifier {
    /// The algorithm of the expected checksum.
    pub closed spec fn algorithm(self) -> FileChecksumAlgorithm {
        self.hasher.algorithm()
    }

    /// The expected digest text.
    pub closed spec fn expected(self) -> Seq<char> {
        self.expected@
    }

    /// The content absorbed so far (always empty for `none`).
    pub closed spec fn input(self) -> Seq<u8> {
        self.hasher.input()
    }

    /// A verifier for `checksum`, which must be `algorithm:digest` with a
    /// known algorithm; a `none` checksum must be exactly `none:none`.
    pub fn new(checksum: &str) -> (r: Result<Self, AppError>)
        ensures
            match checksum_parts(checksum@) {
                None => r matches Err(e) && e.message@
                    == "checksum must include an algorithm prefix"@,
                Some((name, digest)) => match algorithm_of_name(name) {
                    None => r matches Err(e) && e.message@ == "unsupported checksum algorithm: "@
                        + name,
                    Some(algorithm) => if algorithm == FileChecksumAlgorithm::Disabled && digest
                        != seq!['n', 'o', 'n', 'e'] {
                        r matches Err(e) && e.message@ == "none checksum must use none:none"@
                    } else {
                        r matches Ok(v) && v.algorithm() == algorithm && v.expected() == digest
                            && v.input() == Seq::<u8>::empty()
                    },
                },
            },
    {
        let (algorithm, expected) = split_checksum(checksum)?;
        proof {
            reveal_strlit("none");
            assert("none"@ =~= seq!['n', 'o', 'n', 'e']);
        }
        if algorithm == FileChecksumAlgorithm::Disabled && !crate::text::str_eq(expected, "none") {
            return Err(AppError::message("none checksum must use none:none"));
        }
        Ok(FileChecksumVerifier {
            expected: expected.to_owned(),
            hasher: FileChecksumHasher::new(algorithm),
        })
    }

    /// The algorithm of the expected checksum.
    pub fn checksum_algorithm(&self) -> (r: FileChecksumAlgorithm)
        ensures
            r == self.algorithm(),
    {
        self.hasher.algorithm_of()
    }

    /// Absorbs the next piece of content.
    pub fn update(&mut self, bytes: &[u8])
        ensures
            final(self).algorithm() == old(self).algorithm(),
            final(self).expected() == old(self).expected(),
            final(self).input() == if old(self).algorithm() == FileChecksumAlgorithm::Disabled {
                Seq::<u8>::empty()
            } else {
                old(self).input() + bytes@
            },
    {
        self.hasher.update(bytes);
    }

    /// Whether the digest of the absorbed content equals the expected digest,
    /// ignoring ASCII case.
    pub fn verify(&self) -> (r: bool)
        ensures
            r == (ascii_lower_seq(digest_of(self.algorithm(), self.input())) == ascii_lower_seq(
                self.expected(),
            )),
    {
        let digest = self.hasher.digest_hex();
        let d = chars_of(digest.as_str());
        let e = chars_of(self.expected.as_str());
        let dl = ascii_lower_chars(d.as_slice());
        let el = ascii_lower_chars(e.as_slice());
        proof {
            assert(self.hasher.digest() == digest_of(self.algorithm(), self.input()));
        }
        chars_eq(dl.as_slice(), el.as_slice())
    }
}

/// The checksum text of `data` under `algorithm`: `algorithm:digest`.
pub open spec fn checksum_text(algorithm: FileChecksumAlgorithm, data: Seq<u8>) -> Seq<char> {
    algorithm_name(algorithm) + seq![':'] + digest_of(algorithm, data)
}

impl FileChecksumHasher {
    /// The `algorithm:digest` checksum of what the hasher has absorbed.
    pub fn checksum(&self) -> (r: String)
        ensures
            r@ == checksum_text(self.algorithm(), self.input()),
    {
        let digest = self.digest_hex();
        checksum_with_prefix(self.algorithm_of(), digest.as_str())
    }
}

/// A checksum built for some content (`algorithm:digest`) reads back as
/// that algorithm and digest, so a verifier accepts it; and a verifier fed
/// that content then verifies it (for `none`, whatever it was fed).
pub proof fn lemma_checksum_roundtrip(algorithm: FileChecksumAlgorithm, data: Seq<u8>, fed: Seq<u8>)
    requires
        algorithm != FileChecksumAlgorithm::Disabled ==> fed == data,
    ensures
        checksum_parts(algorithm_name(algorithm) + seq![':'] + digest_of(algorithm, data)) == Some(
            (algorithm_name(algorithm), digest_of(algorithm, data)),
        ),
        algorithm_of_name(algorithm_name(algorithm)) == Some(algorithm),
        algorithm == FileChecksumAlgorithm::Disabled ==> digest_of(algorithm, data) == seq![
            'n',
            'o',
            'n',
            'e',
        ],
        ascii_lower_seq(digest_of(algorithm, fed)) == ascii_lower_seq(digest_of(algorithm, data)),
{
    lemma_algorithm_name_roundtrip(algorithm);
    let name = algorithm_name(algorithm);
    let c = name + seq![':'] + digest_of(algorithm, data);
    let n = name.len() as int;
    assert(c[n] == ':');
    assert forall|j: int| 0 <= j < n implies c[j] != ':' by {
        assert(c[j] == name[j]);
    }
    let w = choose|i: int| 0 <= i < c.len() && c[i] == ':' && forall|j: int| 0 <= j < i ==> c[j] != ':';
    assert(0 <= n < c.len() && c[n] == ':' && forall|j: int| 0 <= j < n ==> c[j] != ':');
    if w < n {
        assert(c[w] == name[w]);
    } else if w > n {
        assert(c[n] != ':');
    }
    assert(first_index(c, ':') == Some(n));
    assert(c.take(n) =~= name);
    assert(c.skip(n + 1) =~= digest_of(algorithm, data));
}

// ---------------------------------------------------------------------------
// Download names
// ---------------------------------------------------------------------------

/// The file name `sanitize_filename::sanitize_with_options` makes of
/// `name`, with its Windows rules (reserved device names, trailing dots and
/// spaces) when `windows` holds, truncation to 255 bytes, and nothing put in
/// place of what it removes.
pub uninterp spec fn sanitized(name: Seq<char>, windows: bool) -> Seq<char>;

/// Calls `sanitize_filename::sanitize_with_options` with the options its
/// `sanitize` takes by default but for `windows`, which the caller gives.
/// Claims: the result is `sanitized` of the name and that flag.
#[verifier::external_body]
fn sanitize_name(name: &str, windows: bool) -> (r: String)
    ensures
        r@ == sanitized(name@, windows),
{
    sanitize_filename::sanitize_with_options(
        name,
        sanitize_filename::Options { windows, truncate: true, replacement: "" },
    )
}

/// A received file's name made safe to store on a system that follows the
/// Windows file name rules when `windows` holds: what the sanitiser makes of
/// it.
pub fn safe_download_name(file_name: &str, windows: bool) -> (r: String)
    ensures
        r@ == sanitized(file_name@, windows),
{
    sanitize_name(file_name, windows)
}

/// The index of the last `.` in `name`, if any.
pub open spec fn last_dot(name: Seq<char>) -> Option<int>
    decreases name.len(),
{
    if name.len() == 0 {
        None
    } else if name.last() == '.' {
        Some(name.len() - 1)
    } else {
        last_dot(name.drop_last())
    }
}

/// The stem of a file name, as `Path::file_stem` gives it, with `file` for
/// names that have none (empty, `.` and `..`): the part before the last
/// `.`, or the whole name when that part would be empty or there is no `.`.
pub open spec fn file_stem(name: Seq<char>) -> Seq<char> {
    if name.len() == 0 || name == "."@ || name == ".."@ {
        "file"@
    } else {
        match last_dot(name) {
            Some(i) => if i == 0 {
                name
            } else {
                name.take(i)
            },
            None => name,
        }
    }
}

/// The extension of a file name with its dot, as `Path::extension` gives
/// it (empty when there is none).
pub open spec fn file_extension(name: Seq<char>) -> Seq<char> {
    if name.len() == 0 || name == "."@ || name == ".."@ {
        Seq::empty()
    } else {
        match last_dot(name) {
            Some(i) => if i == 0 {
                Seq::empty()
            } else {
                name.skip(i)
            },
            None => Seq::empty(),
        }
    }
}

/// The name tried at `attempt` when storing a download named `safe_name`:
/// the name itself first, then `stem (2).ext` up to `stem (999).ext`;
/// `None` after that, when a unique prefix is used instead.
pub open spec fn download_candidate_name(safe_name: Seq<char>, attempt: u32) -> Option<Seq<char>> {
    if attempt == 0 {
        Some(safe_name)
    } else if attempt <= 998 {
        Some(
            file_stem(safe_name) + " ("@ + crate::text::decimal((attempt + 1) as nat) + ")"@
                + file_extension(safe_name),
        )
    } else {
        None
    }
}

fn find_last_dot(chars: &Vec<char>) -> (r: Option<usize>)
    ensures
        match r {
            Some(i) => last_dot(chars@) == Some(i as int) && i < chars@.len(),
            None => last_dot(chars@) is None,
        },
{
    let mut k: usize = chars.len();
    proof {
        assert(chars@.take(k as int) =~= chars@);
    }
    while k > 0
        invariant
            k <= chars@.len(),
            last_dot(chars@) == last_dot(chars@.take(k as int)),
        decreases k,
    {
        let ghost t = chars@.take(k as int);
        proof {
            assert(t.drop_last() =~= chars@.take(k - 1));
        }
        if chars[k - 1] == '.' {
            return Some(k - 1);
        }
        k = k - 1;
    }
    proof {
        assert(chars@.take(0) =~= Seq::<char>::empty());
    }
    None
}

/// The name to try at `attempt` for a download named `safe_name`.
pub fn download_candidate(safe_name: &str, attempt: u32) -> (r: Option<String>)
    ensures
        match download_candidate_name(safe_name@, attempt) {
            Some(n) => r matches Some(s) && s@ == n,
            None => r is None,
        },
{
    if attempt == 0 {
        return Some(safe_name.to_owned());
    }
    if attempt > 998 {
        return None;
    }
    let chars = chars_of(safe_name);
    let special = chars.len() == 0 || crate::text::str_eq(safe_name, ".") || crate::text::str_eq(
        safe_name,
        "..",
    );
    let mut stem: String = "file".to_owned();
    let mut extension: String = String::new();
    if !special {
        match find_last_dot(&chars) {
            Some(i) => {
                if i == 0 {
                    stem = safe_name.to_owned();
                } else {
                    stem = safe_name.substring_char(0, i).to_owned();
                    extension = safe_name.substring_char(i, chars.len()).to_owned();
                    proof {
                        assert(safe_name@.subrange(0, i as int) =~= safe_name@.take(i as int));
                        assert(safe_name@.subrange(i as int, chars@.len() as int) =~= safe_name@.skip(i as int));
                    }
                }
            },
            None => {
                stem = safe_name.to_owned();
            },
        }
    }
    proof {
        assert(stem@ == file_stem(safe_name@));
        assert(extension@ =~= file_extension(safe_name@));
    }
    let mut out = stem;
    out.append(" (");
    out.append(crate::text::decimal_string((attempt + 1) as u64).as_str());
    out.append(")");
    out.append(extension.as_str());
    Some(out)
}

} // verus!
