use vstd::prelude::*;
use base64::Engine;

verus! {

/// A character that may stand in a header name (an RFC 7230 token character).
pub open spec fn is_name_char(c: char) -> bool {
    ('a' <= c <= 'z') || ('A' <= c <= 'Z') || ('0' <= c <= '9') || c == '!' || c == '"' || c
        == '#' || c == '$' || c == '%' || c == '&' || c == '\'' || c == '*' || c == '+' || c == '-'
        || c == '.' || c == '^' || c == '_' || c == '`' || c == '|' || c == '~'
}

/// ASCII lower case of one character.
pub open spec fn lower_char(c: char) -> char {
    if 'A' <= c <= 'Z' {
        ((c as u8) + 32) as char
    } else {
        c
    }
}

/// The header name that `s` denotes: its characters lower-cased, or `None`
/// when `s` is empty, longer than 65535 bytes, or holds a non-token character.
pub open spec fn header_name_of(s: Seq<char>) -> Option<Seq<char>> {
    if 0 < s.len() <= 65535 && forall|i: int| 0 <= i < s.len() ==> is_name_char(#[trigger] s[i]) {
        Some(s.map_values(|c: char| lower_char(c)))
    } else {
        None
    }
}

/// A character that may stand in a header value: visible, a space or a tab,
/// or any non-ASCII character.
pub open spec fn is_value_char(c: char) -> bool {
    (' ' <= c && c != '\x7f') || c == '\t'
}

/// Whether `s` can be sent as a header value.
pub open spec fn is_header_value(s: Seq<char>) -> bool {
    forall|i: int| 0 <= i < s.len() ==> is_value_char(#[trigger] s[i])
}

/// Standard base64 (with padding) of the UTF-8 bytes of `s`.
pub uninterp spec fn base64_of(s: Seq<char>) -> Seq<char>;

/// Relies on http's `HeaderName::from_bytes` (re-exported by reqwest): it
/// accepts 1 to 65535 token bytes and maps upper-case letters to lower case.
#[verifier::external_body]
pub(crate) fn header_name(s: &str) -> (r: Option<String>)
    ensures
        match r {
            Some(n) => header_name_of(s@) == Some(n@),
            None => header_name_of(s@) is None,
        },
{
    match reqwest::header::HeaderName::from_bytes(s.as_bytes()) {
        Ok(n) => Some(n.as_str().to_string()),
        Err(_) => None,
    }
}

/// Relies on http's `HeaderValue::from_str` (re-exported by reqwest): it
/// accepts a string whose every byte is a tab or at least 32 and not 127.
#[verifier::external_body]
pub(crate) fn header_value_ok(s: &str) -> (r: bool)
    ensures
        r == is_header_value(s@),
{
    reqwest::header::HeaderValue::from_str(s).is_ok()
}

/// Relies on base64's `STANDARD` engine, the encoding reqwest uses for Basic
/// credentials.
#[verifier::external_body]
pub(crate) fn base64_encode(s: &str) -> (r: String)
    ensures
        r@ == base64_of(s@),
{
    base64::engine::general_purpose::STANDARD.encode(s.as_bytes())
}

} // verus!
