//! Validation of user-supplied MAC addresses and hostnames.
use vstd::prelude::*;
use crate::text::{chars_of, concat2, owned};

verus! {

/// Why an input was rejected.
#[derive(Debug)]
pub enum ValidationError {
    InvalidMac(String),
    InvalidHostname(String),
    InvalidIp(String),
    InvalidInterface(String),
}

/// The abstract content of a [`ValidationError`].
pub enum ValidationErrorView {
    InvalidMac(Seq<char>),
    InvalidHostname(Seq<char>),
    InvalidIp(Seq<char>),
    InvalidInterface(Seq<char>),
}

impl View for ValidationError {
    type V = ValidationErrorView;

    open spec fn view(&self) -> ValidationErrorView {
        match self {
            ValidationError::InvalidMac(m) => ValidationErrorView::InvalidMac(m@),
            ValidationError::InvalidHostname(m) => ValidationErrorView::InvalidHostname(m@),
            ValidationError::InvalidIp(m) => ValidationErrorView::InvalidIp(m@),
            ValidationError::InvalidInterface(m) => ValidationErrorView::InvalidInterface(m@),
        }
    }
}

/// The view of a validation answer.
pub open spec fn answer_view(r: Result<(), ValidationError>) -> Result<(), ValidationErrorView> {
    match r {
        Ok(()) => Ok(()),
        Err(e) => Err(e@),
    }
}

/// The view of what the regex wrapper hands back.
pub open spec fn outcome_view(r: Result<bool, String>) -> Result<bool, Seq<char>> {
    match r {
        Ok(b) => Ok(b),
        Err(e) => Err(e@),
    }
}

impl ValidationError {
    /// The human-readable text of the error.
    pub open spec fn message(&self) -> Seq<char> {
        match self {
            ValidationError::InvalidMac(m) => "Invalid MAC address format: "@ + m@,
            ValidationError::InvalidHostname(m) => "Invalid hostname: "@ + m@,
            ValidationError::InvalidIp(m) => "Invalid IP address: "@ + m@,
            ValidationError::InvalidInterface(m) => "Invalid interface name: "@ + m@,
        }
    }

    /// Renders the error as text, e.g. "Invalid hostname: empty".
    pub fn to_string(&self) -> (s: String)
        ensures
            s@ == self.message(),
    {
        match self {
            ValidationError::InvalidMac(m) => concat2("Invalid MAC address format: ", m.as_str()),
            ValidationError::InvalidHostname(m) => concat2("Invalid hostname: ", m.as_str()),
            ValidationError::InvalidIp(m) => concat2("Invalid IP address: ", m.as_str()),
            ValidationError::InvalidInterface(m) => concat2("Invalid interface name: ", m.as_str()),
        }
    }
}

/// What the regex crate answers for `pattern` and `text`: whether the compiled pattern
/// matches somewhere in the text, or the text of the error that compiling it gives.
pub uninterp spec fn regex_outcome(pattern: Seq<char>, text: Seq<char>) -> Result<bool, Seq<char>>;

/// Compiles `pattern` with `regex::Regex::new` and asks `is_match` whether it matches
/// somewhere in `text`; a pattern that does not compile gives the error's text.
/// Trusted: the outcome is named `regex_outcome` of the pattern and the text, on which
/// alone it depends; nothing more of regex's semantics is stated.
#[verifier::external_body]
fn regex_is_match(pattern: &str, text: &str) -> (r: Result<bool, String>)
    ensures
        outcome_view(r) == regex_outcome(pattern@, text@),
{
    match regex::Regex::new(pattern) {
        Ok(re) => Ok(re.is_match(text)),
        Err(e) => Err(e.to_string()),
    }
}

/// The pattern of a MAC address: six pairs of hex digits separated by colons.
pub open spec fn mac_pattern() -> Seq<char> {
    "^([0-9A-Fa-f]{2}:){5}[0-9A-Fa-f]{2}$"@
}

/// The pattern of a hostname: dot-separated labels of letters, digits and inner hyphens.
pub open spec fn hostname_pattern() -> Seq<char> {
    "^[a-zA-Z0-9]([a-zA-Z0-9\\-]{0,61}[a-zA-Z0-9])?(\\.[a-zA-Z0-9]([a-zA-Z0-9\\-]{0,61}[a-zA-Z0-9])?)*$"@
}

/// The value of a hexadecimal digit.
pub open spec fn hex_value(c: char) -> Option<nat> {
    if '0' <= c && c <= '9' {
        Some((c as nat - '0' as nat) as nat)
    } else if 'a' <= c && c <= 'f' {
        Some((c as nat - 'a' as nat + 10) as nat)
    } else if 'A' <= c && c <= 'F' {
        Some((c as nat - 'A' as nat + 10) as nat)
    } else {
        None
    }
}

/// The byte that the first two characters of `s` spell in hexadecimal, read the way
/// `u8::from_str_radix(_, 16)` reads them (a leading '+' is allowed before one digit).
pub open spec fn first_octet(s: Seq<char>) -> Option<nat> {
    if s.len() < 2 {
        None
    } else if s[0] == '+' {
        hex_value(s[1])
    } else {
        match (hex_value(s[0]), hex_value(s[1])) {
            (Some(h), Some(l)) => Some(16 * h + l),
            _ => None,
        }
    }
}

/// The answer for a MAC address, given what the MAC pattern gave for it: a compile error
/// or a mismatch rejects it, as does a first octet with the multicast bit set.
pub open spec fn mac_verdict_spec(mac: Seq<char>, outcome: Result<bool, Seq<char>>) -> Result<(), ValidationErrorView> {
    match outcome {
        Err(e) => Err(ValidationErrorView::InvalidMac(e)),
        Ok(false) => Err(ValidationErrorView::InvalidMac(mac)),
        Ok(true) => match first_octet(mac) {
            None => Err(ValidationErrorView::InvalidMac(mac)),
            Some(o) => if o % 2 == 1 {
                Err(ValidationErrorView::InvalidMac("MAC has multicast bit set: "@ + mac))
            } else {
                Ok(())
            },
        },
    }
}

/// The answer for a hostname, given what the hostname pattern gave for it: empty and
/// over-long names (more than 253 bytes) are rejected before the pattern is consulted.
pub open spec fn hostname_verdict_spec(host: Seq<char>, outcome: Result<bool, Seq<char>>) -> Result<(), ValidationErrorView> {
    if host.len() == 0 {
        Err(ValidationErrorView::InvalidHostname("empty"@))
    } else if vstd::utf8::encode_utf8(host).len() > 253 {
        Err(ValidationErrorView::InvalidHostname("too long"@))
    } else {
        match outcome {
            Err(e) => Err(ValidationErrorView::InvalidHostname(e)),
            Ok(false) => Err(ValidationErrorView::InvalidHostname(host)),
            Ok(true) => Ok(()),
        }
    }
}

/// The hexadecimal digits written in lowercase, in order of value.
pub open spec fn lower_hex_digits() -> Seq<char> {
    seq!['0', '1', '2', '3', '4', '5', '6', '7', '8', '9', 'a', 'b', 'c', 'd', 'e', 'f']
}

/// The hexadecimal digits written in uppercase, in order of value.
pub open spec fn upper_hex_digits() -> Seq<char> {
    seq!['0', '1', '2', '3', '4', '5', '6', '7', '8', '9', 'A', 'B', 'C', 'D', 'E', 'F']
}

/// The digit written for value `k` reads back as `k`, in either case.
proof fn lemma_hex_digit_reads_back(k: int)
    requires
        0 <= k < 16,
    ensures
        hex_value(lower_hex_digits()[k]) == Some(k as nat),
        hex_value(upper_hex_digits()[k]) == Some(k as nat),
{
    let l = lower_hex_digits();
    let u = upper_hex_digits();
    if k == 0 { assert(l[0] == '0' && u[0] == '0'); }
    else if k == 1 { assert(l[1] == '1' && u[1] == '1'); }
    else if k == 2 { assert(l[2] == '2' && u[2] == '2'); }
    else if k == 3 { assert(l[3] == '3' && u[3] == '3'); }
    else if k == 4 { assert(l[4] == '4' && u[4] == '4'); }
    else if k == 5 { assert(l[5] == '5' && u[5] == '5'); }
    else if k == 6 { assert(l[6] == '6' && u[6] == '6'); }
    else if k == 7 { assert(l[7] == '7' && u[7] == '7'); }
    else if k == 8 { assert(l[8] == '8' && u[8] == '8'); }
    else if k == 9 { assert(l[9] == '9' && u[9] == '9'); }
    else if k == 10 { assert(l[10] == 'a' && u[10] == 'A'); }
    else if k == 11 { assert(l[11] == 'b' && u[11] == 'B'); }
    else if k == 12 { assert(l[12] == 'c' && u[12] == 'C'); }
    else if k == 13 { assert(l[13] == 'd' && u[13] == 'D'); }
    else if k == 14 { assert(l[14] == 'e' && u[14] == 'E'); }
    else { assert(l[15] == 'f' && u[15] == 'F'); }
}

/// A MAC address that the pattern accepts, whose first two characters are hex digits
/// (in either case) of values `hi` and `lo`, is accepted exactly when its first byte
/// `16 * hi + lo` is even; with that byte odd (the multicast bit set) it is refused with
/// "MAC has multicast bit set: " and the address.
pub proof fn lemma_mac_first_octet(mac: Seq<char>, hi: int, lo: int)
    requires
        mac.len() >= 2,
        0 <= hi < 16,
        0 <= lo < 16,
        mac[0] == lower_hex_digits()[hi] || mac[0] == upper_hex_digits()[hi],
        mac[1] == lower_hex_digits()[lo] || mac[1] == upper_hex_digits()[lo],
    ensures
        mac_verdict_spec(mac, Ok(true)) == if (16 * hi + lo) % 2 == 0 {
            Ok::<(), ValidationErrorView>(())
        } else {
            Err(ValidationErrorView::InvalidMac("MAC has multicast bit set: "@ + mac))
        },
{
    lemma_hex_digit_reads_back(hi);
    lemma_hex_digit_reads_back(lo);
    assert(mac[0] != '+');
}

/// A MAC address that the pattern does not match is refused with the address itself;
/// a pattern that does not compile refuses every address with the error's text.
pub proof fn lemma_mac_pattern_refusals(mac: Seq<char>, e: Seq<char>)
    ensures
        mac_verdict_spec(mac, Ok(false)) == Err::<(), ValidationErrorView>(ValidationErrorView::InvalidMac(mac)),
        mac_verdict_spec(mac, Err(e)) == Err::<(), ValidationErrorView>(ValidationErrorView::InvalidMac(e)),
{
}

/// A hostname is refused as "empty" when it has no characters and as "too long" when
/// its UTF-8 encoding takes more than 253 bytes; otherwise the hostname pattern decides:
/// a match accepts it, a mismatch refuses it with the hostname itself, and a pattern
/// that does not compile refuses it with the error's text.
pub proof fn lemma_hostname_verdict(host: Seq<char>, outcome: Result<bool, Seq<char>>)
    ensures
        host.len() == 0 ==> hostname_verdict_spec(host, outcome)
            == Err::<(), ValidationErrorView>(ValidationErrorView::InvalidHostname("empty"@)),
        host.len() > 0 && vstd::utf8::encode_utf8(host).len() > 253 ==> hostname_verdict_spec(host, outcome)
            == Err::<(), ValidationErrorView>(ValidationErrorView::InvalidHostname("too long"@)),
        host.len() > 0 && vstd::utf8::encode_utf8(host).len() <= 253 ==> hostname_verdict_spec(host, outcome) == (
            match outcome {
                Ok(true) => Ok(()),
                Ok(false) => Err(ValidationErrorView::InvalidHostname(host)),
                Err(e) => Err(ValidationErrorView::InvalidHostname(e)),
            }),
{
}

fn hex_digit(c: char) -> (r: Option<u8>)
    ensures
        (match r {
            Some(v) => hex_value(c) == Some(v as nat),
            None => hex_value(c) is None,
        }),
{
    if '0' <= c && c <= '9' {
        Some((c as u32 - '0' as u32) as u8)
    } else if 'a' <= c && c <= 'f' {
        Some((c as u32 - 'a' as u32 + 10) as u8)
    } else if 'A' <= c && c <= 'F' {
        Some((c as u32 - 'A' as u32 + 10) as u8)
    } else {
        None
    }
}

/// Validation of user input.
pub struct InputValidator;

impl InputValidator {
    /// The answer for `mac`, given what the MAC pattern gave for it (`regex_outcome` of
    /// the pattern and `mac`).
    pub fn mac_verdict(mac: &str, outcome: Result<bool, String>) -> (r: Result<(), ValidationError>)
        ensures
            answer_view(r) == mac_verdict_spec(mac@, outcome_view(outcome)),
    {
        match outcome {
            Err(e) => Err(ValidationError::InvalidMac(e)),
            Ok(false) => Err(ValidationError::InvalidMac(owned(mac))),
            Ok(true) => {
                let cs = chars_of(mac);
                if cs.len() < 2 {
                    return Err(ValidationError::InvalidMac(owned(mac)));
                }
                let octet: Option<u8> = if cs[0] == '+' {
                    hex_digit(cs[1])
                } else {
                    match (hex_digit(cs[0]), hex_digit(cs[1])) {
                        (Some(h), Some(l)) => Some(16 * h + l),
                        _ => None,
                    }
                };
                match octet {
                    None => Err(ValidationError::InvalidMac(owned(mac))),
                    Some(o) => {
                        if o % 2 == 1 {
                            Err(ValidationError::InvalidMac(concat2("MAC has multicast bit set: ", mac)))
                        } else {
                            Ok(())
                        }
                    },
                }
            },
        }
    }

    /// Checks a MAC address: it must match `mac_pattern` (six colon-separated pairs of
    /// hex digits) and its first octet must not have the multicast bit set.
    pub fn validate_mac(mac: &str) -> (r: Result<(), ValidationError>)
        ensures
            answer_view(r) == mac_verdict_spec(mac@, regex_outcome(mac_pattern(), mac@)),
    {
        let pattern = "^([0-9A-Fa-f]{2}:){5}[0-9A-Fa-f]{2}$";
        proof { reveal_strlit("^([0-9A-Fa-f]{2}:){5}[0-9A-Fa-f]{2}$"); }
        let outcome = regex_is_match(pattern, mac);
        Self::mac_verdict(mac, outcome)
    }

    /// The answer for `hostname`, given what the hostname pattern gave for it
    /// (`regex_outcome` of the pattern and `hostname`); the outcome is not consulted
    /// for an empty or over-long name.
    pub fn hostname_verdict(hostname: &str, outcome: Result<bool, String>) -> (r: Result<(), ValidationError>)
        ensures
            answer_view(r) == hostname_verdict_spec(hostname@, outcome_view(outcome)),
    {
        if hostname.is_empty() {
            Err(ValidationError::InvalidHostname(owned("empty")))
        } else if hostname.as_bytes().len() > 253 {
            Err(ValidationError::InvalidHostname(owned("too long")))
        } else {
            match outcome {
                Err(e) => Err(ValidationError::InvalidHostname(e)),
                Ok(false) => Err(ValidationError::InvalidHostname(owned(hostname))),
                Ok(true) => Ok(()),
            }
        }
    }

    /// Checks a hostname: not empty, at most 253 bytes, and matching `hostname_pattern`
    /// (dot-separated labels of letters, digits and inner hyphens, each 1 to 63 long).
    pub fn validate_hostname(hostname: &str) -> (r: Result<(), ValidationError>)
        ensures
            answer_view(r) == hostname_verdict_spec(hostname@, regex_outcome(hostname_pattern(), hostname@)),
    {
        if hostname.is_empty() || hostname.as_bytes().len() > 253 {
            return Self::hostname_verdict(hostname, Ok(false));
        }
        let pattern = "^[a-zA-Z0-9]([a-zA-Z0-9\\-]{0,61}[a-zA-Z0-9])?(\\.[a-zA-Z0-9]([a-zA-Z0-9\\-]{0,61}[a-zA-Z0-9])?)*$";
        proof {
            reveal_strlit("^[a-zA-Z0-9]([a-zA-Z0-9\\-]{0,61}[a-zA-Z0-9])?(\\.[a-zA-Z0-9]([a-zA-Z0-9\\-]{0,61}[a-zA-Z0-9])?)*$");
        }
        let outcome = regex_is_match(pattern, hostname);
        Self::hostname_verdict(hostname, outcome)
    }
}

} // verus!
