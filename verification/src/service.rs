//! Account and device services: the name and type this device reports, and
//! the addresses of update downloads.
use vstd::prelude::*;

use crate::error::AppError;
use crate::notes::api::{join_url, url_joined};
use crate::text::{chars_of, string_of, trim, trim_chars};
use vstd::string::{StrSliceExecFns, StringExecFns};

verus! {

/// The name used when the system reports none.
pub open spec fn default_device_name() -> Seq<char> {
    "CoLink Desktop"@
}

/// The device name: the system's host name without surrounding white space,
/// or the default when there is none; debug builds add `Debug`.
pub open spec fn device_name(system_name: Option<Seq<char>>, debug_build: bool) -> Seq<char> {
    let base = match system_name {
        Some(name) => if trim(name).len() > 0 {
            trim(name)
        } else {
            default_device_name()
        },
        None => default_device_name(),
    };
    if debug_build {
        base + "Debug"@
    } else {
        base
    }
}

/// The device name for a system host name (if known) and build flavour.
pub fn detect_device_name_from(system_name: Option<&str>, debug_build: bool) -> (r: String)
    ensures
        r@ == device_name(
            match system_name {
                Some(s) => Some(s@),
                None => None,
            },
            debug_build,
        ),
{
    let mut base = "CoLink Desktop".to_owned();
    if let Some(name) = system_name {
        let chars = chars_of(name);
        let trimmed = trim_chars(chars.as_slice());
        if trimmed.len() > 0 {
            base = string_of(trimmed.as_slice());
        }
    }
    if debug_build {
        base.append("Debug");
    }
    base
}

/// The device type reported for an operating system name; unknown systems
/// report as `windows`.
pub open spec fn device_type(os: Seq<char>) -> Seq<char> {
    if os == "macos"@ || os == "linux"@ || os == "android"@ || os == "ios"@ {
        os
    } else {
        "windows"@
    }
}

/// The device type for `os` (as `std::env::consts::OS` names it).
pub fn detect_device_type(os: &str) -> (r: String)
    ensures
        r@ == device_type(os@),
{
    if crate::text::str_eq(os, "macos") || crate::text::str_eq(os, "linux") || crate::text::str_eq(
        os,
        "android",
    ) || crate::text::str_eq(os, "ios") {
        os.to_owned()
    } else {
        "windows".to_owned()
    }
}

/// The text `url::Url::parse` makes of `value` when it parses as an
/// absolute address.
pub uninterp spec fn url_parsed(value: Seq<char>) -> Option<Seq<char>>;

/// Calls `url::Url::parse` and renders the result. Claims: the result is
/// `url_parsed` of the text; a failure gives the parser's message, about
/// which nothing is claimed.
#[verifier::external_body]
fn parse_url(value: &str) -> (r: Result<String, String>)
    ensures
        match r {
            Ok(s) => url_parsed(value@) == Some(s@),
            Err(_) => url_parsed(value@) is None,
        },
{
    match url::Url::parse(value) {
        Ok(parsed) => Ok(parsed.to_string()),
        Err(error) => Err(error.to_string()),
    }
}

/// `value` as an absolute address: itself when it parses as one, else
/// resolved against `base_url`.
pub fn absolute_url(base_url: &str, value: &str) -> (r: Result<String, AppError>)
    ensures
        match url_parsed(value@) {
            Some(s) => r matches Ok(t) && t@ == s,
            None => match url_joined(base_url@, value@) {
                Some(s) => r matches Ok(t) && t@ == s,
                None => r is Err,
            },
        },
{
    if let Ok(parsed) = parse_url(value) {
        return Ok(parsed);
    }
    match join_url(base_url, value) {
        Ok(joined) => Ok(joined),
        Err(message) => Err(AppError { message }),
    }
}

/// The scheme of a rendered address: the text before its first `:`.
pub open spec fn scheme_of(address: Seq<char>) -> Seq<char>
    decreases address.len(),
{
    if address.len() == 0 || address[0] == ':' {
        Seq::empty()
    } else {
        seq![address[0]] + scheme_of(address.drop_first())
    }
}

/// Checks that an update download address can be opened: it must parse, and
/// only `http` and `https` are opened.
pub fn check_update_download_url(url: &str) -> (r: Result<(), AppError>)
    ensures
        match url_parsed(url@) {
            Some(s) => if scheme_of(s) == "http"@ || scheme_of(s) == "https"@ {
                r is Ok
            } else {
                r matches Err(e) && e.message@ == "unsupported update download url"@
            },
            None => r is Err,
        },
{
    let parsed = match parse_url(url) {
        Ok(parsed) => parsed,
        Err(message) => return Err(AppError { message }),
    };
    let chars = chars_of(parsed.as_str());
    let mut scheme: Vec<char> = Vec::new();
    let mut i: usize = 0;
    proof {
        assert(chars@.skip(0) =~= chars@);
        assert(scheme_of(chars@) =~= scheme@ + scheme_of(chars@.skip(0)));
    }
    while i < chars.len() && chars[i] != ':'
        invariant
            i <= chars@.len(),
            scheme_of(chars@) == scheme@ + scheme_of(chars@.skip(i as int)),
        decreases chars@.len() - i,
    {
        let ghost rest = chars@.skip(i as int);
        proof {
            assert(rest[0] == chars@[i as int]);
            assert(rest.drop_first() =~= chars@.skip(i + 1));
            assert(scheme@.push(chars@[i as int]) + scheme_of(chars@.skip(i + 1)) =~= scheme@ + (seq![rest[0]] + scheme_of(rest.drop_first())));
        }
        scheme.push(chars[i]);
        i = i + 1;
    }
    proof {
        if i < chars@.len() {
            assert(chars@.skip(i as int)[0] == ':');
        }
        assert(scheme@ + scheme_of(chars@.skip(i as int)) =~= scheme@);
    }
    let http = chars_of("http");
    let https = chars_of("https");
    if crate::text::chars_eq(scheme.as_slice(), http.as_slice()) || crate::text::chars_eq(
        scheme.as_slice(),
        https.as_slice(),
    ) {
        Ok(())
    } else {
        Err(AppError::message("unsupported update download url"))
    }
}

} // verus!
