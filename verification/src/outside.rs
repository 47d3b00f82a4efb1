//! The calls that the library makes into outside crates (`url`, `validator`,
//! `uuid`) and into std where vstd specifies nothing, each behind a wrapper
//! whose contract is believed, not proved.
use vstd::prelude::*;

verus! {

/// The parts of a parsed URL that the library reads.
pub struct UrlParts {
    /// The scheme, lowercased by the parser.
    pub scheme: String,
    /// The host, if the URL has one.
    pub host: Option<String>,
    /// The port, or the scheme's default port when the URL names none.
    pub port: Option<u16>,
    /// The path (`/` at least, for URLs with a host).
    pub path: String,
    /// The whole URL as the parser serialises it.
    pub serialization: String,
}

/// The parts of a parsed URL, as spec values.
pub struct UrlPartsView {
    pub scheme: Seq<char>,
    pub host: Option<Seq<char>>,
    pub port: Option<u16>,
    pub path: Seq<char>,
    pub serialization: Seq<char>,
}

impl View for UrlParts {
    type V = UrlPartsView;

    open spec fn view(&self) -> UrlPartsView {
        UrlPartsView {
            scheme: self.scheme@,
            host: match self.host {
                Some(h) => Some(h@),
                None => None,
            },
            port: self.port,
            path: self.path@,
            serialization: self.serialization@,
        }
    }
}

/// What `url::Url::parse` makes of `input`: `None` when it refuses it.
pub uninterp spec fn url_parse(input: Seq<char>) -> Option<UrlPartsView>;

/// Parses `input` with `url::Url::parse` and reads off its scheme, host,
/// port (`port_or_known_default`), path and serialisation. The contract says
/// only that the result is the value that `url_parse` names for the input;
/// WHATWG URL parsing itself is left unstated.
#[verifier::external_body]
pub fn parse_url(input: &str) -> (r: Option<UrlParts>)
    ensures
        r matches Some(p) ==> url_parse(input@) == Some(p@),
        r is None ==> url_parse(input@) is None,
{
    match url::Url::parse(input) {
        Ok(u) => Some(
            UrlParts {
                scheme: u.scheme().to_string(),
                host: u.host_str().map(|h| h.to_string()),
                port: u.port_or_known_default(),
                path: u.path().to_string(),
                serialization: u.as_str().to_string(),
            },
        ),
        Err(_) => None,
    }
}

/// `validator::ValidateUrl::validate_url` on a string: its source returns
/// whether `url::Url::parse` accepts the string, which the contract states
/// through `url_parse`.
#[verifier::external_body]
pub fn validate_url(input: &str) -> (b: bool)
    ensures
        b == url_parse(input@) is Some,
{
    validator::ValidateUrl::validate_url(input)
}

/// `validator::ValidateLength::validate_length` on a string with a minimum
/// and a maximum: its source counts the characters (`chars().count()`) and
/// accepts a count within both bounds.
#[verifier::external_body]
pub fn validate_length(input: &str, min: u64, max: u64) -> (b: bool)
    ensures
        b == (min <= input@.len() && input@.len() <= max),
{
    validator::ValidateLength::<u64>::validate_length(input, Some(min), Some(max), None)
}

/// `16` to the power `k`.
pub open spec fn pow16(k: nat) -> nat
    decreases k,
{
    if k == 0 {
        1
    } else {
        16 * pow16((k - 1) as nat)
    }
}

/// The lowercase hexadecimal digit for `d < 16`.
pub open spec fn hex_digit(d: nat) -> char {
    if d < 10 {
        ((d + 48) as u8) as char
    } else {
        ((d - 10 + 97) as u8) as char
    }
}

/// The number of hyphens before position `p` of a hyphenated UUID.
pub open spec fn hyphens_before(p: int) -> int {
    if p > 23 {
        4
    } else if p > 18 {
        3
    } else if p > 13 {
        2
    } else if p > 8 {
        1
    } else {
        0
    }
}

/// The hyphenated lowercase text of a UUID (`8-4-4-4-12` hex digits, most
/// significant first).
pub open spec fn uuid_text(id: u128) -> Seq<char> {
    Seq::new(
        36,
        |p: int|
            if p == 8 || p == 13 || p == 18 || p == 23 {
                '-'
            } else {
                hex_digit(
                    ((id as nat) / pow16((31 - (p - hyphens_before(p))) as nat)) % 16,
                )
            },
    )
}

/// `uuid::Uuid::from_u128(id).to_string()`: the crate's `Display` writes the
/// hyphenated lowercase form of the big-endian bytes, which the contract
/// states in full.
#[verifier::external_body]
pub fn uuid_string(id: u128) -> (s: String)
    ensures
        s@ == uuid_text(id),
{
    uuid::Uuid::from_u128(id).to_string()
}

/// `String::from_utf8(bytes).ok()`: std documents that it fails exactly on
/// bytes that are not UTF-8, and otherwise holds the decoded text.
#[verifier::external_body]
pub fn utf8_text(bytes: Vec<u8>) -> (r: Option<String>)
    ensures
        r is Some <==> vstd::utf8::valid_utf8(bytes@),
        r matches Some(s) ==> s@ == vstd::utf8::decode_utf8(bytes@),
{
    String::from_utf8(bytes).ok()
}

} // verus!
