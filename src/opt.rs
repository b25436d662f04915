use vstd::prelude::*;
use vstd::string::*;

verus! {

/// The request method chosen on the command line.
#[derive(Clone, Copy, Debug, PartialEq, Eq, Structural)]
pub enum Method {
    Get,
    Post,
    Put,
    Delete,
}

/// The options of one invocation, already parsed and validated.
pub struct Opt {
    /// Verbosity tier: 0 shows the body only, 1 adds the response head, 2 and
    /// more add the outgoing request.
    pub verbose: u8,
    pub url: String,
    pub method: Method,
    /// Basic credentials, as `user:pass`.
    pub basic: Option<String>,
    pub bearer: Option<String>,
    /// Extra headers, each as `key:value`.
    pub headers: Option<Vec<String>>,
    /// A file whose contents are the body of a POST or PUT.
    pub file: Option<String>,
    /// Accept invalid TLS certificates.
    pub insecure: bool,
    /// A file that holds the cookie sent with the request and receives the
    /// one that the response sets.
    pub cookie_jar: Option<String>,
    /// Form fields, each as `key=value`.
    pub form: Option<Vec<String>>,
    /// Cookies sent as they are.
    pub cookies: Option<Vec<String>>,
}

/// Whether `s` starts with `http`.
pub open spec fn has_http_prefix(s: Seq<char>) -> bool {
    s.len() >= 4 && s.take(4) == seq!['h', 't', 't', 'p']
}

/// A URL as given, with `http://` put in front unless it already starts with `http`.
pub open spec fn url_of(s: Seq<char>) -> Seq<char> {
    if has_http_prefix(s) {
        s
    } else {
        seq!['h', 't', 't', 'p', ':', '/', '/'] + s
    }
}

/// Completes a URL given on the command line with a default scheme.
pub fn parse_url(s: &str) -> (r: String)
    ensures
        r@ == url_of(s@),
{
    let n = s.unicode_len();
    let prefixed = n >= 4 && s.get_char(0) == 'h' && s.get_char(1) == 't' && s.get_char(2) == 't'
        && s.get_char(3) == 'p';
    assert(prefixed == has_http_prefix(s@)) by {
        if n >= 4 {
            assert(s@.take(4) =~= seq![s@[0], s@[1], s@[2], s@[3]]);
        }
    }
    if prefixed {
        s.to_string()
    } else {
        let mut r = "http://".to_string();
        proof {
            reveal_strlit("http://");
        }
        r.append(s);
        assert(r@ =~= url_of(s@));
        r
    }
}

} // verus!
