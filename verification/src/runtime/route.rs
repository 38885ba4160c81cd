use vstd::prelude::*;

use crate::text::str_eq;
use vstd::string::StringExecFns;
use vstd::utf8::encode_utf8;

verus! {

/// The path a file transfer takes to the peer.
#[derive(Debug, Clone, Copy, PartialEq, Eq, Structural)]
pub enum TransferRoute {
    Lan,
    Cloud,
}

impl TransferRoute {
    /// The wire name of a route.
    pub open spec fn spec_name(self) -> Seq<char> {
        match self {
            TransferRoute::Lan => seq!['l', 'a', 'n'],
            TransferRoute::Cloud => seq!['c', 'l', 'o', 'u', 'd'],
        }
    }

    pub fn as_str(self) -> (name: &'static str)
        ensures
            name@ == self.spec_name(),
    {
        proof {
            reveal_strlit("lan");
            reveal_strlit("cloud");
            assert("lan"@ =~= seq!['l', 'a', 'n']);
            assert("cloud"@ =~= seq!['c', 'l', 'o', 'u', 'd']);
        }
        match self {
            TransferRoute::Lan => "lan",
            TransferRoute::Cloud => "cloud",
        }
    }

    /// The route a wire name denotes, if any.
    pub fn from_str(route: &str) -> (r: Option<Self>)
        ensures
            r == route_of_name(route@),
    {
        proof {
            reveal_strlit("lan");
            reveal_strlit("cloud");
            assert("lan"@ =~= seq!['l', 'a', 'n']);
            assert("cloud"@ =~= seq!['c', 'l', 'o', 'u', 'd']);
        }
        if str_eq(route, "lan") {
            Some(TransferRoute::Lan)
        } else if str_eq(route, "cloud") {
            Some(TransferRoute::Cloud)
        } else {
            None
        }
    }
}

/// The route a wire name denotes, if any.
pub open spec fn route_of_name(name: Seq<char>) -> Option<TransferRoute> {
    if name == seq!['l', 'a', 'n'] {
        Some(TransferRoute::Lan)
    } else if name == seq!['c', 'l', 'o', 'u', 'd'] {
        Some(TransferRoute::Cloud)
    } else {
        None
    }
}

/// A route's wire name reads back as that route.
pub proof fn lemma_route_name_roundtrip(route: TransferRoute)
    ensures
        route_of_name(route.spec_name()) == Some(route),
{
}

/// An uppercase hexadecimal digit.
pub open spec fn upper_hex_digit(n: u8) -> char {
    if n < 10 {
        (48 + n) as char
    } else {
        (55 + n) as char
    }
}

/// One byte as `application/x-www-form-urlencoded` writes it: letters,
/// digits and `*-._` as they are, a space as `+`, anything else as `%XX`.
pub open spec fn form_byte(b: u8) -> Seq<char> {
    if (97 <= b && b <= 122) || (65 <= b && b <= 90) || (48 <= b && b <= 57) || b == 42 || b == 45
        || b == 46 || b == 95 {
        seq![b as char]
    } else if b == 32 {
        seq!['+']
    } else {
        seq!['%', upper_hex_digit(b / 16), upper_hex_digit(b % 16)]
    }
}

/// The form encoding of a byte string.
pub open spec fn form_bytes(bytes: Seq<u8>) -> Seq<char>
    decreases bytes.len(),
{
    if bytes.len() == 0 {
        Seq::empty()
    } else {
        form_bytes(bytes.drop_last()) + form_byte(bytes.last())
    }
}

/// `name=value`, both form-encoded from their UTF-8 bytes.
pub open spec fn form_pair(name: Seq<char>, value: Seq<char>) -> Seq<char> {
    form_bytes(encode_utf8(name)) + seq!['='] + form_bytes(encode_utf8(value))
}

/// Calls `url::form_urlencoded::Serializer::append_pair` on a new serializer
/// and `finish`. Claims: the text is the pair form-encoded as the crate's
/// byte serializer and `percent_encode_byte` write it.
#[verifier::external_body]
fn encode_form_pair(name: &str, value: &str) -> (r: String)
    ensures
        r@ == form_pair(name@, value@),
{
    url::form_urlencoded::Serializer::new(String::new()).append_pair(name, value).finish()
}

/// The interface route `path` for one device: `path?deviceId=<id>`.
pub fn device_route(path: &str, device_id: &str) -> (r: String)
    ensures
        r@ == path@ + seq!['?'] + form_pair("deviceId"@, device_id@),
{
    let mut out = path.to_owned();
    out.append("?");
    out.append(encode_form_pair("deviceId", device_id).as_str());
    proof {
        reveal_strlit("?");
    }
    out
}

} // verus!
