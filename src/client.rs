use vstd::prelude::*;
use vstd::string::*;
use crate::error::{ErrorKind, HrcError};
use crate::fields::{Field, fields_view, insert_field, names_unique, set_field};
use crate::laws::law_names_unique;
use crate::header::{base64_encode, base64_of, header_name, header_name_of, header_value_ok, is_header_value};
use crate::opt::{Method, Opt};
use crate::text::{join, split_first, split_once};

verus! {

/// An ordered map of names to values, as sequences of characters.
pub type Pairs = Seq<(Seq<char>, Seq<char>)>;

/// The body of a request in progress.
pub enum Body {
    Empty,
    /// The contents of the file at this path, streamed.
    File(String),
    /// Text read from standard input.
    Text(String),
    /// Form fields, sent url-encoded.
    Form(Vec<Field>),
}

/// A body, as plain values.
pub enum BodyView {
    Empty,
    File(Seq<char>),
    Text(Seq<char>),
    Form(Pairs),
}

impl View for Body {
    type V = BodyView;

    open spec fn view(&self) -> BodyView {
        match self {
            Body::Empty => BodyView::Empty,
            Body::File(p) => BodyView::File(p@),
            Body::Text(t) => BodyView::Text(t@),
            Body::Form(fs) => BodyView::Form(fields_view(fs@)),
        }
    }
}

/// A request in progress: header names are lower case and unique, in the
/// order in which each was first set.
pub struct Request {
    pub method: Method,
    pub url: String,
    pub headers: Vec<Field>,
    pub body: Body,
}

impl Request {
    /// Each header name, and each form field name, occurs once.
    pub open spec fn wf(&self) -> bool {
        &&& names_unique(fields_view(self.headers@))
        &&& self.body matches Body::Form(fs) ==> names_unique(fields_view(fs@))
    }
}

/// What became of reading the cookie jar file.
pub enum JarRead {
    /// No jar is configured, or its file does not exist.
    Missing,
    Contents(String),
    /// Reading failed for another reason, with this message.
    Failed(String),
}

/// Where the body of a POST or PUT comes from, before any form fields.
pub enum BodySource {
    File(String),
    /// Standard input, when it is not a terminal.
    Stdin,
}

/// What became of reading the body source.
pub enum BodyRead {
    /// The file at this path was opened.
    Opened(String),
    /// The file at this path could not be opened, with this message.
    OpenFailed(String, String),
    /// Standard input was piped and held this text.
    Piped(String),
    /// Reading standard input failed with this message.
    ReadFailed(String),
    /// Standard input is a terminal: nothing was read.
    Terminal,
}

/// An optional string, as characters.
pub open spec fn opt_text(o: Option<String>) -> Option<Seq<char>> {
    match o {
        Some(s) => Some(s@),
        None => None,
    }
}

/// The entries of an optional list; none when the list is absent.
pub open spec fn opt_list(o: Option<Vec<String>>) -> Seq<Seq<char>> {
    match o {
        Some(v) => v@.map_values(|s: String| s@),
        None => Seq::empty(),
    }
}

/// The Authorization value for Basic credentials `user:pass`; `None` when
/// they hold no `:`.
pub open spec fn basic_value(credential: Seq<char>) -> Option<Seq<char>> {
    match split_first(credential, ':') {
        Some((user, pass)) => Some("Basic "@ + base64_of(user + seq![':'] + pass)),
        None => None,
    }
}

pub open spec fn with_basic(hs: Pairs, basic: Option<Seq<char>>) -> Pairs {
    match basic {
        Some(b) => match basic_value(b) {
            Some(v) => insert_field(hs, "authorization"@, v),
            None => hs,
        },
        None => hs,
    }
}

pub open spec fn with_bearer(hs: Pairs, bearer: Option<Seq<char>>) -> Pairs {
    match bearer {
        Some(t) => insert_field(hs, "authorization"@, "Bearer "@ + t),
        None => hs,
    }
}

/// POST and PUT default to a JSON content type.
pub open spec fn with_default_type(hs: Pairs, m: Method) -> Pairs {
    if m is Post || m is Put {
        insert_field(hs, "content-type"@, "application/json"@)
    } else {
        hs
    }
}

/// One `key:value` header entry: split on the first `:`; an entry without
/// `:` or with an invalid name leaves the headers as they are.
pub open spec fn with_header_spec(hs: Pairs, h: Seq<char>) -> Pairs {
    match split_first(h, ':') {
        Some((n, v)) => match header_name_of(n) {
            Some(name) => insert_field(hs, name, v),
            None => hs,
        },
        None => hs,
    }
}

pub open spec fn with_header_specs(hs: Pairs, specs: Seq<Seq<char>>) -> Pairs
    decreases specs.len(),
{
    if specs.len() == 0 {
        hs
    } else {
        with_header_spec(with_header_specs(hs, specs.drop_last()), specs.last())
    }
}

/// Each cookie followed by `;`.
pub open spec fn cookie_text(cookies: Seq<Seq<char>>) -> Seq<char>
    decreases cookies.len(),
{
    if cookies.len() == 0 {
        Seq::empty()
    } else {
        cookie_text(cookies.drop_last()) + cookies.last() + seq![';']
    }
}

/// The Cookie header holds the inline cookies and then the jar's contents;
/// it is left out when that is empty.
pub open spec fn with_cookies(hs: Pairs, cookies: Seq<Seq<char>>, jar: Seq<char>) -> Pairs {
    let c = cookie_text(cookies) + jar;
    if c.len() == 0 {
        hs
    } else {
        insert_field(hs, "cookie"@, c)
    }
}

/// The jar's contribution to the Cookie header.
pub open spec fn jar_text(jar_path: Option<String>, jar: JarRead) -> Seq<char> {
    match (jar_path, jar) {
        (Some(_), JarRead::Contents(t)) => t@,
        _ => Seq::empty(),
    }
}

/// The headers after enrichment, in its fixed order.
pub open spec fn enriched_headers(hs: Pairs, opt: Opt, jar: Seq<char>) -> Pairs {
    let h1 = with_basic(hs, opt_text(opt.basic));
    let h2 = with_bearer(h1, opt_text(opt.bearer));
    let h3 = with_default_type(h2, opt.method);
    let h4 = with_header_specs(h3, opt_list(opt.headers));
    with_cookies(h4, opt_list(opt.cookies), jar)
}

/// The error chain for a jar that could not be read.
pub open spec fn jar_read_chain(path: Seq<char>, message: Seq<char>) -> Seq<Seq<char>> {
    seq!["Cannot read cookie jar `"@ + path + "`"@, message]
}

/// What enrichment gives: the headers, or the error for an unreadable jar.
pub open spec fn enrich_outcome(hs: Pairs, opt: Opt, jar: JarRead) -> Result<Pairs, (ErrorKind, Seq<Seq<char>>)> {
    match (opt.cookie_jar, jar) {
        (Some(p), JarRead::Failed(m)) => Err((ErrorKind::CookieJarRead, jar_read_chain(p@, m@))),
        _ => Ok(enriched_headers(hs, opt, jar_text(opt.cookie_jar, jar))),
    }
}

/// The Authorization value for Basic credentials given as `user:pass`
/// (split on the first `:`); `None` when there is no `:`.
pub fn basic_auth(credential: &str) -> (r: Option<String>)
    ensures
        opt_text(r) == basic_value(credential@),
{
    match split_once(credential, ':') {
        Some((user, pass)) => {
            let mut joined = user;
            joined.append(":");
            joined.append(pass.as_str());
            proof {
                reveal_strlit(":");
                reveal_strlit("Basic ");
            }
            let encoded = base64_encode(joined.as_str());
            let mut v = "Basic ".to_string();
            v.append(encoded.as_str());
            proof {
                assert(joined@ =~= user@ + seq![':'] + pass@);
            }
            Some(v)
        },
        None => None,
    }
}

/// Applies `key:value` header entries in order: each is split on its first
/// `:`, its name checked and lower-cased; entries without `:` or with an
/// invalid name are skipped.
pub fn set_headers(headers: &mut Vec<Field>, specs: &Vec<String>)
    ensures
        fields_view(final(headers)@) == with_header_specs(fields_view(old(headers)@), opt_list(Some(*specs))),
{
    let ghost start = fields_view(headers@);
    let ghost all = opt_list(Some(*specs));
    let mut i: usize = 0;
    while i < specs.len()
        invariant
            i <= specs@.len(),
            all == specs@.map_values(|s: String| s@),
            fields_view(headers@) == with_header_specs(start, all.take(i as int)),
        decreases specs.len() - i,
    {
        assert(all.take(i + 1).drop_last() =~= all.take(i as int));
        assert(all.take(i + 1).last() == specs@[i as int]@);
        if let Some((n, v)) = split_once(specs[i].as_str(), ':') {
            if let Some(name) = header_name(n.as_str()) {
                set_field(headers, name, v);
            }
        }
        i = i + 1;
    }
    assert(all.take(specs@.len() as int) =~= all);
}

/// The inline cookies, each followed by `;`.
pub fn join_cookies(cookies: &Vec<String>) -> (r: String)
    ensures
        r@ == cookie_text(opt_list(Some(*cookies))),
{
    let ghost all = opt_list(Some(*cookies));
    let mut r = String::new();
    let mut i: usize = 0;
    proof {
        reveal_strlit(";");
    }
    while i < cookies.len()
        invariant
            i <= cookies@.len(),
            all == cookies@.map_values(|s: String| s@),
            r@ == cookie_text(all.take(i as int)),
        decreases cookies.len() - i,
    {
        assert(all.take(i + 1).drop_last() =~= all.take(i as int));
        assert(all.take(i + 1).last() == cookies@[i as int]@);
        let ghost before = r@;
        proof {
            reveal_strlit(";");
        }
        r.append(cookies[i].as_str());
        r.append(";");
        assert(r@ =~= before + cookies@[i as int]@ + seq![';']);
        i = i + 1;
    }
    assert(all.take(cookies@.len() as int) =~= all);
    r
}

/// Applies, in this order, Basic auth, Bearer auth, the default content type
/// of POST and PUT, the user's headers and the Cookie header (inline cookies,
/// then the jar's contents). Fails only when the jar is configured and could
/// not be read for a reason other than its absence.
pub fn enrich_request(req: Request, opt: &Opt, jar: &JarRead) -> (r: Result<Request, HrcError>)
    ensures
        match r {
            Ok(out) => enrich_outcome(fields_view(req.headers@), *opt, *jar) == Ok::<Pairs, (ErrorKind, Seq<Seq<char>>)>(fields_view(out.headers@))
                && out.method == req.method && out.url == req.url && out.body == req.body,
            Err(e) => enrich_outcome(fields_view(req.headers@), *opt, *jar) == Err::<Pairs, (ErrorKind, Seq<Seq<char>>)>((e.kind, e.chain())),
        },
{
    if let Some(path) = &opt.cookie_jar {
        if let JarRead::Failed(m) = jar {
            let mut context = "Cannot read cookie jar `".to_string();
            context.append(path.as_str());
            context.append("`");
            let mut causes: Vec<String> = Vec::new();
            causes.push(m.clone());
            let e = HrcError::with_causes(ErrorKind::CookieJarRead, context, causes);
            assert(e.chain() =~= jar_read_chain(path@, m@));
            return Err(e);
        }
    }
    let mut req = req;
    if let Some(basic) = &opt.basic {
        if let Some(v) = basic_auth(basic.as_str()) {
            set_field(&mut req.headers, "authorization".to_string(), v);
        }
    }
    if let Some(token) = &opt.bearer {
        let v = join("Bearer ", token.as_str());
        set_field(&mut req.headers, "authorization".to_string(), v);
    }
    if opt.method == Method::Post || opt.method == Method::Put {
        set_field(&mut req.headers, "content-type".to_string(), "application/json".to_string());
    }
    if let Some(specs) = &opt.headers {
        set_headers(&mut req.headers, specs);
    } else {
        assert(opt_list(opt.headers) =~= Seq::<Seq<char>>::empty());
    }
    let mut cookie = match &opt.cookies {
        Some(cs) => join_cookies(cs),
        None => {
            assert(opt_list(opt.cookies) =~= Seq::<Seq<char>>::empty());
            String::new()
        },
    };
    if let Some(_) = &opt.cookie_jar {
        if let JarRead::Contents(t) = jar {
            cookie.append(t.as_str());
        }
    }
    assert(cookie@ =~= cookie_text(opt_list(opt.cookies)) + jar_text(opt.cookie_jar, *jar));
    if cookie.unicode_len() > 0 {
        set_field(&mut req.headers, "cookie".to_string(), cookie);
    }
    Ok(req)
}

/// One `key=value` form entry: split on the first `=`; an entry without `=`
/// is dropped.
pub open spec fn with_form_entry(fs: Pairs, e: Seq<char>) -> Pairs {
    match split_first(e, '=') {
        Some((k, v)) => insert_field(fs, k, v),
        None => fs,
    }
}

pub open spec fn form_fields(entries: Seq<Seq<char>>) -> Pairs
    decreases entries.len(),
{
    if entries.len() == 0 {
        Seq::empty()
    } else {
        with_form_entry(form_fields(entries.drop_last()), entries.last())
    }
}

/// The error chain for a body file that could not be opened.
pub open spec fn file_open_chain(path: Seq<char>, message: Seq<char>) -> Seq<Seq<char>> {
    seq!["Cannot open file `"@ + path + "`"@, message]
}

/// The body that a read gives, before form fields, or its error.
pub open spec fn read_outcome(read: BodyRead) -> Result<BodyView, (ErrorKind, Seq<Seq<char>>)> {
    match read {
        BodyRead::Opened(p) => Ok(BodyView::File(p@)),
        BodyRead::OpenFailed(p, m) => Err((ErrorKind::FileOpen, file_open_chain(p@, m@))),
        BodyRead::Piped(t) => Ok(BodyView::Text(t@)),
        BodyRead::ReadFailed(m) => Err((ErrorKind::StdinRead, seq!["Cannot read from stdin"@, m@])),
        BodyRead::Terminal => Ok(BodyView::Empty),
    }
}

/// Form fields, when given, replace any other body and set the form content type.
pub open spec fn body_outcome(hs: Pairs, read: BodyRead, form: Option<Vec<String>>) -> Result<
    (Pairs, BodyView),
    (ErrorKind, Seq<Seq<char>>),
> {
    match read_outcome(read) {
        Err(e) => Err(e),
        Ok(b) => match form {
            Some(_) => Ok(
                (
                    insert_field(hs, "content-type"@, "application/x-www-form-urlencoded"@),
                    BodyView::Form(form_fields(opt_list(form))),
                ),
            ),
            None => Ok((hs, b)),
        },
    }
}

/// Every header value can be sent.
pub open spec fn values_ok(hs: Pairs) -> bool {
    forall|i: int| 0 <= i < hs.len() ==> is_header_value(#[trigger] hs[i].1)
}

pub open spec fn build_chain() -> Seq<Seq<char>> {
    seq!["Failed to create request"@, "failed to parse header value"@]
}

pub open spec fn unsupported_chain() -> Seq<Seq<char>> {
    seq!["HTTP method DELETE is not implemented"@]
}

/// What one invocation builds from its options, the jar and the body read:
/// the headers and body of the request, or the error that ends it.
pub open spec fn outcome(opt: Opt, jar: JarRead, read: BodyRead) -> Result<
    (Pairs, BodyView),
    (ErrorKind, Seq<Seq<char>>),
> {
    if opt.method is Delete {
        Err((ErrorKind::UnsupportedMethod, unsupported_chain()))
    } else {
        match enrich_outcome(Seq::empty(), opt, jar) {
            Err(e) => Err(e),
            Ok(hs) => {
                let built = if opt.method is Get {
                    Ok((hs, BodyView::Empty))
                } else {
                    body_outcome(hs, read, opt.form)
                };
                match built {
                    Err(e) => Err(e),
                    Ok((h, b)) => if values_ok(h) {
                        Ok((h, b))
                    } else {
                        Err((ErrorKind::RequestBuild, build_chain()))
                    },
                }
            },
        }
    }
}

/// Where the body comes from: for POST and PUT the file when one is given,
/// else standard input; GET and DELETE read none.
pub fn body_source(opt: &Opt) -> (r: Option<BodySource>)
    ensures
        match (opt.method, opt.file, r) {
            (Method::Get, _, None) | (Method::Delete, _, None) => true,
            (Method::Post, Some(p), Some(BodySource::File(q)))
            | (Method::Put, Some(p), Some(BodySource::File(q))) => q@ == p@,
            (Method::Post, None, Some(BodySource::Stdin))
            | (Method::Put, None, Some(BodySource::Stdin)) => true,
            _ => false,
        },
{
    match opt.method {
        Method::Get | Method::Delete => None,
        Method::Post | Method::Put => match &opt.file {
            Some(p) => Some(BodySource::File(p.clone())),
            None => Some(BodySource::Stdin),
        },
    }
}

/// Parses `key=value` entries into an ordered map, splitting each on its
/// first `=` and dropping entries without one; a repeated key takes the last value.
pub fn parse_form(entries: &Vec<String>) -> (r: Vec<Field>)
    ensures
        fields_view(r@) == form_fields(opt_list(Some(*entries))),
{
    let ghost all = opt_list(Some(*entries));
    let mut r: Vec<Field> = Vec::new();
    let mut i: usize = 0;
    assert(fields_view(r@) =~= form_fields(all.take(0)));
    while i < entries.len()
        invariant
            i <= entries@.len(),
            all == entries@.map_values(|s: String| s@),
            fields_view(r@) == form_fields(all.take(i as int)),
        decreases entries.len() - i,
    {
        assert(all.take(i + 1).drop_last() =~= all.take(i as int));
        assert(all.take(i + 1).last() == entries@[i as int]@);
        if let Some((k, v)) = split_once(entries[i].as_str(), '=') {
            set_field(&mut r, k, v);
        }
        i = i + 1;
    }
    assert(all.take(entries@.len() as int) =~= all);
    r
}

/// Attaches the body of a POST or PUT: the file opened or the text piped in,
/// replaced by the form fields when there are any. Fails when the file could
/// not be opened or standard input could not be read.
pub fn resolve_body(req: Request, read: BodyRead, form: &Option<Vec<String>>) -> (r: Result<Request, HrcError>)
    ensures
        match r {
            Ok(out) => body_outcome(fields_view(req.headers@), read, *form) == Ok::<(Pairs, BodyView), (ErrorKind, Seq<Seq<char>>)>((fields_view(out.headers@), out.body@))
                && out.method == req.method && out.url == req.url,
            Err(e) => body_outcome(fields_view(req.headers@), read, *form) == Err::<(Pairs, BodyView), (ErrorKind, Seq<Seq<char>>)>((e.kind, e.chain())),
        },
{
    let ghost read0 = read;
    let mut req = req;
    let body = match read {
        BodyRead::Opened(p) => Body::File(p),
        BodyRead::OpenFailed(p, m) => {
            let mut context = "Cannot open file `".to_string();
            context.append(p.as_str());
            context.append("`");
            let mut causes: Vec<String> = Vec::new();
            causes.push(m);
            let e = HrcError::with_causes(ErrorKind::FileOpen, context, causes);
            assert(e.chain() =~= file_open_chain(p@, causes@[0]@));
            return Err(e);
        },
        BodyRead::Piped(t) => Body::Text(t),
        BodyRead::ReadFailed(m) => {
            let mut causes: Vec<String> = Vec::new();
            causes.push(m);
            let e = HrcError::with_causes(ErrorKind::StdinRead, "Cannot read from stdin".to_string(), causes);
            assert(e.chain() =~= seq!["Cannot read from stdin"@, causes@[0]@]);
            return Err(e);
        },
        BodyRead::Terminal => Body::Empty,
    };
    assert(read_outcome(read0) == Ok::<BodyView, (ErrorKind, Seq<Seq<char>>)>(body@));
    match form {
        Some(entries) => {
            set_field(
                &mut req.headers,
                "content-type".to_string(),
                "application/x-www-form-urlencoded".to_string(),
            );
            req.body = Body::Form(parse_form(entries));
        },
        None => {
            req.body = body;
        },
    }
    Ok(req)
}

/// Whether every header value can be sent.
pub fn header_values_ok(headers: &Vec<Field>) -> (r: bool)
    ensures
        r == values_ok(fields_view(headers@)),
{
    let mut i: usize = 0;
    while i < headers.len()
        invariant
            i <= headers@.len(),
            forall|j: int| 0 <= j < i ==> is_header_value(#[trigger] fields_view(headers@)[j].1),
        decreases headers.len() - i,
    {
        if !header_value_ok(headers[i].value.as_str()) {
            assert(!is_header_value(fields_view(headers@)[i as int].1));
            return false;
        }
        i = i + 1;
    }
    true
}

/// Freezes a request: fails when a header value cannot be sent.
pub fn finalize(req: Request) -> (r: Result<Request, HrcError>)
    ensures
        match r {
            Ok(out) => values_ok(fields_view(req.headers@)) && out == req,
            Err(e) => !values_ok(fields_view(req.headers@)) && e.kind == ErrorKind::RequestBuild
                && e.chain() == build_chain(),
        },
{
    if header_values_ok(&req.headers) {
        Ok(req)
    } else {
        let mut causes: Vec<String> = Vec::new();
        causes.push("failed to parse header value".to_string());
        let e = HrcError::with_causes(ErrorKind::RequestBuild, "Failed to create request".to_string(), causes);
        assert(e.chain() =~= build_chain());
        Err(e)
    }
}

/// Refuses a method that has no flow (DELETE) before anything is read or sent.
pub fn dispatch(method: Method) -> (r: Result<(), HrcError>)
    ensures
        match r {
            Ok(()) => !(method is Delete),
            Err(e) => method is Delete && e.kind == ErrorKind::UnsupportedMethod && e.chain()
                == unsupported_chain(),
        },
{
    if method == Method::Delete {
        let e = HrcError::with_causes(
            ErrorKind::UnsupportedMethod,
            "HTTP method DELETE is not implemented".to_string(),
            Vec::new(),
        );
        assert(e.chain() =~= unsupported_chain());
        Err(e)
    } else {
        Ok(())
    }
}

/// Builds the request of one invocation: GET is enriched only; POST and PUT
/// are enriched and then get their body; DELETE is refused at once.
pub fn process(opt: &Opt, jar: &JarRead, read: BodyRead) -> (r: Result<Request, HrcError>)
    ensures
        match r {
            Ok(req) => outcome(*opt, *jar, read) == Ok::<(Pairs, BodyView), (ErrorKind, Seq<Seq<char>>)>((fields_view(req.headers@), req.body@))
                && req.method == opt.method && req.url@ == opt.url@ && req.wf(),
            Err(e) => outcome(*opt, *jar, read) == Err::<(Pairs, BodyView), (ErrorKind, Seq<Seq<char>>)>((e.kind, e.chain())),
        },
{
    let ghost read0 = read;
    if let Err(e) = dispatch(opt.method) {
        return Err(e);
    }
    let req = Request { method: opt.method, url: opt.url.clone(), headers: Vec::new(), body: Body::Empty };
    assert(fields_view(req.headers@) =~= Seq::<(Seq<char>, Seq<char>)>::empty());
    let req = match enrich_request(req, opt, jar) {
        Ok(r) => r,
        Err(e) => return Err(e),
    };
    let req = if opt.method == Method::Get {
        req
    } else {
        match resolve_body(req, read, &opt.form) {
            Ok(r) => r,
            Err(e) => return Err(e),
        }
    };
    let r = finalize(req);
    proof {
        if r is Ok {
            law_names_unique(*opt, *jar, read0);
        }
    }
    r
}

} // verus!
