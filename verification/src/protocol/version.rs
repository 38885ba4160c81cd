use vstd::prelude::*;

use crate::protocol::payloads::{VersionCompatibility, BUSINESS_PROTOCOL_VERSION, LAN_PROTOCOL_VERSION};
use crate::text::{
    chars_of, decimal, decimal_string, parse_u64, parse_u64_chars, split, split_chars, trim,
    trim_chars,
};
use vstd::string::StringExecFns;

verus! {

/// A semantic version as (major, minor, patch).
pub type SemverValue = (u64, u64, u64);

/// One numeric component: non-empty, no leading zero unless it is `0`, and a
/// valid `u64`.
pub open spec fn parse_semver_part_spec(value: Seq<char>) -> Option<u64> {
    if value.len() == 0 || (value.len() > 1 && value[0] == '0') {
        None
    } else {
        parse_u64(value)
    }
}

/// `major.minor.patch` after trimming white space, with exactly three parts.
pub open spec fn parse_semver(value: Seq<char>) -> Option<SemverValue> {
    let parts = split(trim(value), '.');
    if parts.len() != 3 {
        None
    } else {
        match (
            parse_semver_part_spec(parts[0]),
            parse_semver_part_spec(parts[1]),
            parse_semver_part_spec(parts[2]),
        ) {
            (Some(major), Some(minor), Some(patch)) => Some((major, minor, patch)),
            _ => None,
        }
    }
}

/// Lexicographic order on versions.
pub open spec fn semver_le(a: SemverValue, b: SemverValue) -> bool {
    ||| a.0 < b.0
    ||| (a.0 == b.0 && a.1 < b.1)
    ||| (a.0 == b.0 && a.1 == b.1 && a.2 <= b.2)
}

/// The lower of two versions.
pub open spec fn semver_min(a: SemverValue, b: SemverValue) -> SemverValue {
    if semver_le(a, b) {
        a
    } else {
        b
    }
}

/// A version written as `major.minor.patch`.
pub open spec fn semver_wire(v: SemverValue) -> Seq<char> {
    decimal(v.0 as nat) + seq!['.'] + decimal(v.1 as nat) + seq!['.'] + decimal(v.2 as nat)
}

/// Whether both sides share a major version and both reach `required`.
pub open spec fn both_at_least(local: Seq<char>, peer: Seq<char>, required: SemverValue) -> bool {
    match (parse_semver(local), parse_semver(peer)) {
        (Some(l), Some(p)) => l.0 == p.0 && semver_le(required, l) && semver_le(required, p),
        _ => false,
    }
}

#[derive(Debug, Clone, Copy)]
struct Semver {
    major: u64,
    minor: u64,
    patch: u64,
}

impl View for Semver {
    type V = SemverValue;

    closed spec fn view(&self) -> SemverValue {
        (self.major, self.minor, self.patch)
    }
}

impl Semver {
    fn new(major: u64, minor: u64, patch: u64) -> (r: Self)
        ensures
            r@ == (major, minor, patch),
    {
        Semver { major, minor, patch }
    }

    fn le(&self, other: &Semver) -> (r: bool)
        ensures
            r == semver_le(self@, other@),
    {
        self.major < other.major || (self.major == other.major && self.minor < other.minor) || (
        self.major == other.major && self.minor == other.minor && self.patch <= other.patch)
    }

    fn to_wire(self) -> (r: String)
        ensures
            r@ == semver_wire(self@),
    {
        let mut s = decimal_string(self.major);
        s.append(".");
        s.append(decimal_string(self.minor).as_str());
        s.append(".");
        s.append(decimal_string(self.patch).as_str());
        proof {
            reveal_strlit(".");
            assert(s@ =~= semver_wire(self@));
        }
        s
    }
}

fn parse_semver_part(value: &[char]) -> (r: Option<u64>)
    ensures
        r == parse_semver_part_spec(value@),
{
    if value.len() == 0 || (value.len() > 1 && value[0] == '0') {
        return None;
    }
    parse_u64_chars(value)
}

fn semver(value: &str) -> (r: Option<Semver>)
    ensures
        match r {
            Some(v) => parse_semver(value@) == Some(v@),
            None => parse_semver(value@) is None,
        },
{
    let chars = chars_of(value);
    let trimmed = trim_chars(chars.as_slice());
    let parts = split_chars(trimmed.as_slice(), '.');
    if parts.len() != 3 {
        return None;
    }
    let major = parse_semver_part(parts[0].as_slice());
    let minor = parse_semver_part(parts[1].as_slice());
    let patch = parse_semver_part(parts[2].as_slice());
    match (major, minor, patch) {
        (Some(major), Some(minor), Some(patch)) => Some(Semver { major, minor, patch }),
        _ => None,
    }
}

fn semver_major(value: &str) -> (r: Option<u64>)
    ensures
        r == match parse_semver(value@) {
            Some(v) => Some(v.0),
            None => None::<u64>,
        },
{
    match semver(value) {
        Some(v) => Some(v.major),
        None => None,
    }
}

/// The two wire versions this build speaks parse as 1.4.0 and 1.16.0.
pub proof fn lemma_local_versions()
    ensures
        parse_semver(LAN_PROTOCOL_VERSION@) == Some((1u64, 4u64, 0u64)),
        parse_semver(BUSINESS_PROTOCOL_VERSION@) == Some((1u64, 16u64, 0u64)),
{
    reveal_strlit("1.4.0");
    reveal_strlit("1.16.0");
    lemma_parse_literal_1_4_0();
    lemma_parse_literal_1_16_0();
}

proof fn lemma_parse_literal_1_4_0()
    ensures
        parse_semver(LAN_PROTOCOL_VERSION@) == Some((1u64, 4u64, 0u64)),
{
    reveal_strlit("1.4.0");
    let s = LAN_PROTOCOL_VERSION@;
    assert(s =~= seq!['1', '.', '4', '.', '0']);
    reveal_with_fuel(crate::text::trim_start, 2);
    reveal_with_fuel(crate::text::trim_end, 2);
    assert(trim(s) =~= s);
    reveal_with_fuel(crate::text::split_fold, 6);
    let parts = split(s, '.');
    assert(parts =~= seq![seq!['1'], seq!['4'], seq!['0']]);
    reveal_with_fuel(crate::text::digits_value, 2);
    assert(parse_semver_part_spec(seq!['1']) == Some(1u64));
    assert(parse_semver_part_spec(seq!['4']) == Some(4u64));
    assert(parse_semver_part_spec(seq!['0']) == Some(0u64));
}

proof fn lemma_parse_literal_1_16_0()
    ensures
        parse_semver(BUSINESS_PROTOCOL_VERSION@) == Some((1u64, 16u64, 0u64)),
{
    reveal_strlit("1.16.0");
    let s = BUSINESS_PROTOCOL_VERSION@;
    assert(s =~= seq!['1', '.', '1', '6', '.', '0']);
    reveal_with_fuel(crate::text::trim_start, 2);
    reveal_with_fuel(crate::text::trim_end, 2);
    assert(trim(s) =~= s);
    let s5 = s.drop_last();
    let s4 = s5.drop_last();
    let s3 = s4.drop_last();
    let s2 = s3.drop_last();
    let s1 = s2.drop_last();
    assert(s1 =~= seq!['1']);
    assert(s1.drop_last() =~= Seq::<char>::empty());
    let e = Seq::<char>::empty();
    assert(seq!['1'] =~= e.push('1'));
    reveal_with_fuel(crate::text::split_fold, 2);
    assert(crate::text::split_fold(s1, '.') == (Seq::<Seq<char>>::empty(), e.push('1')));
    assert(crate::text::split_fold(s2, '.') == (Seq::<Seq<char>>::empty().push(seq!['1']), e));
    assert(crate::text::split_fold(s3, '.') == (Seq::<Seq<char>>::empty().push(seq!['1']), e.push(
        '1',
    )));
    assert(crate::text::split_fold(s4, '.') == (Seq::<Seq<char>>::empty().push(seq!['1']), e.push(
        '1',
    ).push('6')));
    assert(crate::text::split_fold(s5, '.') == (Seq::<Seq<char>>::empty().push(seq!['1']).push(
        e.push('1').push('6'),
    ), e));
    let parts = split(s, '.');
    assert(seq!['1', '6'] =~= e.push('1').push('6'));
    assert(seq!['0'] =~= e.push('0'));
    assert(parts =~= seq![seq!['1'], seq!['1', '6'], seq!['0']]);
    reveal_with_fuel(crate::text::digits_value, 3);
    assert(parse_semver_part_spec(seq!['1']) == Some(1u64));
    assert(seq!['1', '6'].drop_last() =~= seq!['1']);
    assert(parse_semver_part_spec(seq!['1', '6']) == Some(16u64));
    assert(parse_semver_part_spec(seq!['0']) == Some(0u64));
}

impl View for VersionCompatibility {
    type V = (bool, Option<Seq<char>>, Option<Seq<char>>);

    open spec fn view(&self) -> (bool, Option<Seq<char>>, Option<Seq<char>>) {
        (
            self.compatible,
            match self.reason {
                Some(r) => Some(r@),
                None => None,
            },
            match self.message {
                Some(m) => Some(m@),
                None => None,
            },
        )
    }
}

/// The outcome of comparing the major versions of `local` and `peer`: an
/// invalid version on either side, a major mismatch, or compatibility.
pub open spec fn major_compatibility(
    local: Seq<char>,
    peer: Seq<char>,
    invalid_reason: Seq<char>,
    mismatch_reason: Seq<char>,
    label: Seq<char>,
) -> (bool, Option<Seq<char>>, Option<Seq<char>>) {
    match (parse_semver(local), parse_semver(peer)) {
        (None, _) => (false, Some(invalid_reason), Some(label + " local version is invalid"@)),
        (Some(_), None) => (false, Some(invalid_reason), Some(label + " peer version is invalid"@)),
        (Some(l), Some(p)) => if l.0 != p.0 {
            (
                false,
                Some(mismatch_reason),
                Some(
                    label + " major version "@ + decimal(p.0 as nat)
                        + " is incompatible with local major version "@ + decimal(l.0 as nat),
                ),
            )
        } else {
            (true, None, None)
        },
    }
}

/// Two valid versions with the same major number are compatible, whatever
/// their minor and patch numbers; two valid versions of different major
/// numbers are not, and are reported as a mismatch; an invalid version on
/// either side is never compatible.
pub proof fn lemma_same_major_compatible(
    local: Seq<char>,
    peer: Seq<char>,
    invalid_reason: Seq<char>,
    mismatch_reason: Seq<char>,
    label: Seq<char>,
)
    ensures
        ({
            let r = major_compatibility(local, peer, invalid_reason, mismatch_reason, label);
            match (parse_semver(local), parse_semver(peer)) {
                (Some(l), Some(p)) => (l.0 == p.0 ==> r == (true, None::<Seq<char>>, None::<Seq<char>>))
                    && (l.0 != p.0 ==> !r.0 && r.1 == Some(mismatch_reason)),
                _ => !r.0 && r.1 == Some(invalid_reason),
            }
        }),
{
}

fn check_semantic_major(
    local_version: &str,
    peer_version: &str,
    invalid_reason: &str,
    mismatch_reason: &str,
    label: &str,
) -> (r: VersionCompatibility)
    ensures
        r@ == major_compatibility(
            local_version@,
            peer_version@,
            invalid_reason@,
            mismatch_reason@,
            label@,
        ),
{
    let local_major = match semver_major(local_version) {
        Some(major) => major,
        None => {
            let mut message = label.to_owned();
            message.append(" local version is invalid");
            return VersionCompatibility {
                compatible: false,
                reason: Some(invalid_reason.to_owned()),
                message: Some(message),
            };
        },
    };
    let peer_major = match semver_major(peer_version) {
        Some(major) => major,
        None => {
            let mut message = label.to_owned();
            message.append(" peer version is invalid");
            return VersionCompatibility {
                compatible: false,
                reason: Some(invalid_reason.to_owned()),
                message: Some(message),
            };
        },
    };
    if local_major != peer_major {
        let mut message = label.to_owned();
        message.append(" major version ");
        message.append(decimal_string(peer_major).as_str());
        message.append(" is incompatible with local major version ");
        message.append(decimal_string(local_major).as_str());
        return VersionCompatibility {
            compatible: false,
            reason: Some(mismatch_reason.to_owned()),
            message: Some(message),
        };
    }
    VersionCompatibility { compatible: true, reason: None, message: None }
}

/// Whether a peer speaking LAN protocol `peer_version` is compatible: both
/// versions valid and of the same major version.
pub fn check_lan_protocol_version(peer_version: &str) -> (r: VersionCompatibility)
    ensures
        r@ == major_compatibility(
            LAN_PROTOCOL_VERSION@,
            peer_version@,
            "colink:protocol.invalid_version.v1"@,
            "colink:protocol.major_mismatch.v1"@,
            "LAN protocol"@,
        ),
{
    check_semantic_major(
        LAN_PROTOCOL_VERSION,
        peer_version,
        "colink:protocol.invalid_version.v1",
        "colink:protocol.major_mismatch.v1",
        "LAN protocol",
    )
}

/// Whether a peer speaking business protocol `peer_version` is compatible.
pub fn check_business_protocol_version(peer_version: &str) -> (r: VersionCompatibility)
    ensures
        r@ == major_compatibility(
            BUSINESS_PROTOCOL_VERSION@,
            peer_version@,
            "colink:business.invalid_version.v1"@,
            "colink:business.major_mismatch.v1"@,
            "Business protocol"@,
        ),
{
    check_semantic_major(
        BUSINESS_PROTOCOL_VERSION,
        peer_version,
        "colink:business.invalid_version.v1",
        "colink:business.major_mismatch.v1",
        "Business protocol",
    )
}

fn both_versions_at_least(local_version: &str, peer_version: &str, major: u64, minor: u64, patch: u64) -> (r:
    bool)
    ensures
        r == both_at_least(local_version@, peer_version@, (major, minor, patch)),
{
    match (semver(local_version), semver(peer_version)) {
        (Some(local), Some(peer)) => {
            let required = Semver::new(major, minor, patch);
            local.major == peer.major && required.le(&local) && required.le(&peer)
        },
        _ => false,
    }
}

/// Whether both sides speak LAN protocol 1.1 or later of the same major
/// version (key exchange).
pub fn supports_lan_key_exchange(peer_version: &str) -> (r: bool)
    ensures
        r == both_at_least(LAN_PROTOCOL_VERSION@, peer_version@, (1, 1, 0)),
{
    both_versions_at_least(LAN_PROTOCOL_VERSION, peer_version, 1, 1, 0)
}

/// Whether both sides speak LAN protocol 1.2 or later (key exchange nonce).
pub fn supports_lan_key_exchange_nonce(peer_version: &str) -> (r: bool)
    ensures
        r == both_at_least(LAN_PROTOCOL_VERSION@, peer_version@, (1, 2, 0)),
{
    both_versions_at_least(LAN_PROTOCOL_VERSION, peer_version, 1, 2, 0)
}

/// Whether both sides speak LAN protocol 1.3 or later (pair strings).
pub fn supports_lan_pair_string(peer_version: &str) -> (r: bool)
    ensures
        r == both_at_least(LAN_PROTOCOL_VERSION@, peer_version@, (1, 3, 0)),
{
    both_versions_at_least(LAN_PROTOCOL_VERSION, peer_version, 1, 3, 0)
}

/// Whether both sides speak LAN protocol 1.4 or later (pair strings v2).
pub fn supports_lan_pair_string_v2(peer_version: &str) -> (r: bool)
    ensures
        r == both_at_least(LAN_PROTOCOL_VERSION@, peer_version@, (1, 4, 0)),
{
    both_versions_at_least(LAN_PROTOCOL_VERSION, peer_version, 1, 4, 0)
}

/// Whether both sides speak business protocol `major.minor.patch` or later,
/// with the same major version.
pub fn supports_business_protocol_at_least(peer_version: &str, major: u64, minor: u64, patch: u64) -> (r:
    bool)
    ensures
        r == both_at_least(BUSINESS_PROTOCOL_VERSION@, peer_version@, (major, minor, patch)),
{
    both_versions_at_least(BUSINESS_PROTOCOL_VERSION, peer_version, major, minor, patch)
}

/// The LAN protocol version both sides use: the lower of the two when both
/// parse, else this build's own version.
pub fn negotiated_lan_protocol_version(peer_version: &str) -> (r: String)
    ensures
        r@ == match (parse_semver(LAN_PROTOCOL_VERSION@), parse_semver(peer_version@)) {
            (Some(l), Some(p)) => semver_wire(semver_min(l, p)),
            _ => LAN_PROTOCOL_VERSION@,
        },
{
    match (semver(LAN_PROTOCOL_VERSION), semver(peer_version)) {
        (Some(local), Some(peer)) => {
            if local.le(&peer) {
                local.to_wire()
            } else {
                peer.to_wire()
            }
        },
        _ => LAN_PROTOCOL_VERSION.to_owned(),
    }
}

/// Support for a protocol feature carries over to every feature that needs
/// an earlier version: a peer that supports `higher` supports `lower`.
pub proof fn lemma_support_monotone(local: Seq<char>, peer: Seq<char>, lower: SemverValue, higher: SemverValue)
    requires
        semver_le(lower, higher),
        both_at_least(local, peer, higher),
    ensures
        both_at_least(local, peer, lower),
{
}

/// A peer supporting any feature is compatible: it shares this build's
/// major version.
pub proof fn lemma_support_implies_same_major(local: Seq<char>, peer: Seq<char>, required: SemverValue)
    requires
        both_at_least(local, peer, required),
    ensures
        match (parse_semver(local), parse_semver(peer)) {
            (Some(l), Some(p)) => l.0 == p.0,
            _ => false,
        },
{
}

/// The negotiated version is no later than either side's.
pub proof fn lemma_negotiated_version_is_lower(a: SemverValue, b: SemverValue)
    ensures
        semver_le(semver_min(a, b), a),
        semver_le(semver_min(a, b), b),
        semver_min(a, b) == a || semver_min(a, b) == b,
{
}

} // verus!
