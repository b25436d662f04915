use vstd::prelude::*;
use vstd::string::*;
use crate::error::HrcError;
use crate::fields::{Field, fields_view};
use crate::opt::Method;
use crate::client::{Pairs, Request};
use crate::text::join;

verus! {

/// Whether `s` is one JSON document, as serde_json reads it.
pub uninterp spec fn is_json(s: Seq<char>) -> bool;

/// The JSON document `s` written back by serde_json with two-space
/// indentation, keys in the order received.
pub uninterp spec fn pretty_of(s: Seq<char>) -> Seq<char>;

/// Relies on `serde_json::from_str::<Value>`, which succeeds exactly on text
/// that is a JSON document, and on `serde_json::to_string_pretty`, which
/// fails only for a map with non-string keys or a failing `Serialize` impl,
/// neither of which a `Value` has.
#[verifier::external_body]
fn json_pretty(text: &str) -> (r: Option<String>)
    ensures
        r is Some == is_json(text@),
        r is Some ==> r->0@ == pretty_of(text@),
{
    match serde_json::from_str::<serde_json::Value>(text) {
        Ok(v) => serde_json::to_string_pretty(&v).ok(),
        Err(_) => None,
    }
}

/// A character that a header value shows as text: visible ASCII, a space or a tab.
pub open spec fn is_shown_char(c: char) -> bool {
    (' ' <= c && c <= '~') || c == '\t'
}

/// A header value as printed: itself when it is all visible ASCII, else empty.
pub open spec fn shown_value(v: Seq<char>) -> Seq<char> {
    if forall|i: int| 0 <= i < v.len() ==> is_shown_char(#[trigger] v[i]) {
        v
    } else {
        Seq::empty()
    }
}

/// One line per header: `prefix name: value`.
pub open spec fn header_lines(prefix: Seq<char>, hs: Pairs) -> Seq<char>
    decreases hs.len(),
{
    if hs.len() == 0 {
        Seq::empty()
    } else {
        header_lines(prefix, hs.drop_last()) + prefix + " "@ + hs.last().0 + ": "@ + shown_value(
            hs.last().1,
        ) + "\n"@
    }
}

pub open spec fn method_name(m: Method) -> Seq<char> {
    match m {
        Method::Get => "GET"@,
        Method::Post => "POST"@,
        Method::Put => "PUT"@,
        Method::Delete => "DELETE"@,
    }
}

/// The printed form of a header value.
pub fn show_value(v: &str) -> (r: String)
    ensures
        r@ == shown_value(v@),
{
    let n = v.unicode_len();
    let mut i: usize = 0;
    while i < n
        invariant
            n == v@.len(),
            i <= n,
            forall|j: int| 0 <= j < i ==> is_shown_char(#[trigger] v@[j]),
        decreases n - i,
    {
        let c = v.get_char(i);
        if !((' ' <= c && c <= '~') || c == '\t') {
            return String::new();
        }
        i = i + 1;
    }
    v.to_string()
}

/// The headers, one line each, after `prefix` (`>` for a request, `<` for a response).
pub fn dump_headers(prefix: &str, headers: &Vec<Field>) -> (r: String)
    ensures
        r@ == header_lines(prefix@, fields_view(headers@)),
{
    let ghost all = fields_view(headers@);
    let mut r = String::new();
    let mut i: usize = 0;
    while i < headers.len()
        invariant
            i <= headers@.len(),
            all == fields_view(headers@),
            r@ == header_lines(prefix@, all.take(i as int)),
        decreases headers.len() - i,
    {
        assert(all.take(i + 1).drop_last() =~= all.take(i as int));
        assert(all.take(i + 1).last() == all[i as int]);
        let shown = show_value(headers[i].value.as_str());
        r.append(prefix);
        r.append(" ");
        r.append(headers[i].name.as_str());
        r.append(": ");
        r.append(shown.as_str());
        r.append("\n");
        i = i + 1;
    }
    assert(all.take(headers@.len() as int) =~= all);
    r
}

pub fn method_text(m: Method) -> (r: &'static str)
    ensures
        r@ == method_name(m),
{
    match m {
        Method::Get => "GET",
        Method::Post => "POST",
        Method::Put => "PUT",
        Method::Delete => "DELETE",
    }
}

/// The outgoing request as printed from verbosity 2 on: the request line,
/// its headers and an empty line; nothing below that tier. `url` is the URL
/// as the transport resolved it.
pub fn dump_req(req: &Request, url: &str, verbose: u8) -> (r: String)
    ensures
        verbose >= 2 ==> r@ == "> "@ + method_name(req.method) + " "@ + url@ + "\n"@ + header_lines(
            ">"@,
            fields_view(req.headers@),
        ) + "\n"@,
        verbose < 2 ==> r@.len() == 0,
{
    if verbose < 2 {
        return String::new();
    }
    let mut r = "> ".to_string();
    r.append(method_text(req.method));
    r.append(" ");
    r.append(url);
    r.append("\n");
    let hs = dump_headers(">", &req.headers);
    r.append(hs.as_str());
    r.append("\n");
    r
}

/// The response's protocol version and status line, then its headers, as
/// printed from verbosity 1 on; nothing at verbosity 0.
pub fn dump_response_head(version: &str, status: &str, headers: &Vec<Field>, verbose: u8) -> (r: String)
    ensures
        verbose >= 1 ==> r@ == "< "@ + version@ + " "@ + status@ + "\n"@ + header_lines(
            "<"@,
            fields_view(headers@),
        ),
        verbose == 0 ==> r@.len() == 0,
{
    if verbose == 0 {
        return String::new();
    }
    let mut r = "< ".to_string();
    r.append(version);
    r.append(" ");
    r.append(status);
    r.append("\n");
    let hs = dump_headers("<", headers);
    r.append(hs.as_str());
    r
}

/// The body as printed: after an empty line when verbose, the pretty form
/// when there is one, else the text as it came.
pub open spec fn body_output(text: Seq<char>, pretty: Option<Seq<char>>, verbose: u8) -> Seq<char> {
    let lead = if verbose > 0 {
        "\n"@
    } else {
        Seq::empty()
    };
    match pretty {
        Some(p) => lead + p + "\n"@,
        None => lead + text + "\n"@,
    }
}

/// Prints a response body given its pretty form, if it has one.
pub fn render_body(text: &str, pretty: Option<String>, verbose: u8) -> (r: String)
    ensures
        r@ == body_output(text@, match pretty {
            Some(p) => Some(p@),
            None => None,
        }, verbose),
{
    let mut r = if verbose > 0 {
        "\n".to_string()
    } else {
        String::new()
    };
    match pretty {
        Some(p) => r.append(p.as_str()),
        None => r.append(text),
    }
    r.append("\n");
    r
}

/// The pretty form of a JSON body; `None` exactly for text that is not JSON.
pub fn pretty_json(text: &str) -> (r: Option<String>)
    ensures
        r is Some == is_json(text@),
        r is Some ==> r->0@ == pretty_of(text@),
{
    json_pretty(text)
}

/// Prints a response body: JSON pretty-printed, anything else as it came.
pub fn dump_resp_body(text: &str, verbose: u8) -> (r: String)
    ensures
        !is_json(text@) ==> r@ == body_output(text@, None, verbose),
        is_json(text@) ==> r@ == body_output(text@, Some(pretty_of(text@)), verbose),
{
    let pretty = pretty_json(text);
    let ghost p = match pretty {
        Some(ref s) => Some(s@),
        None => None,
    };
    let r = render_body(text, pretty, verbose);
    assert(r@ == body_output(text@, p, verbose));
    r
}

/// The causes after the outermost message, one indented line each.
pub open spec fn cause_lines(ms: Seq<Seq<char>>) -> Seq<char>
    decreases ms.len(),
{
    if ms.len() == 0 {
        Seq::empty()
    } else {
        cause_lines(ms.drop_last()) + "\n    "@ + ms.last()
    }
}

/// An error as printed: at verbosity 0 only its root cause; above, the whole
/// chain, outermost first.
pub open spec fn error_output(chain: Seq<Seq<char>>, verbose: u8) -> Seq<char> {
    if chain.len() == 0 {
        "Error"@
    } else if verbose == 0 {
        "Error: "@ + chain.last()
    } else if chain.len() == 1 {
        "Error: "@ + chain[0]
    } else {
        "Error: "@ + chain[0] + "\n\nCaused by:"@ + cause_lines(chain.skip(1))
    }
}

/// Prints an error for standard error, terse or in full by verbosity.
pub fn render_error(e: &HrcError, verbose: u8) -> (r: String)
    ensures
        r@ == error_output(e.chain(), verbose),
{
    let n = e.messages.len();
    if n == 0 {
        return "Error".to_string();
    }
    if verbose == 0 {
        return join("Error: ", e.messages[n - 1].as_str());
    }
    let mut r = join("Error: ", e.messages[0].as_str());
    if n == 1 {
        return r;
    }
    r.append("\n\nCaused by:");
    let ghost causes = e.chain().skip(1);
    let ghost head = r@;
    let mut i: usize = 1;
    while i < n
        invariant
            1 <= i <= n,
            n == e.messages@.len(),
            causes == e.chain().skip(1),
            r@ == head + cause_lines(causes.take(i - 1)),
        decreases n - i,
    {
        assert(causes.take(i as int).drop_last() =~= causes.take(i - 1));
        assert(causes.take(i as int).last() == e.messages@[i as int]@);
        r.append("\n    ");
        r.append(e.messages[i].as_str());
        i = i + 1;
    }
    assert(causes.take(n - 1) =~= causes);
    r
}

} // verus!
