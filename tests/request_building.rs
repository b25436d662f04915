use httprc::client::{
    basic_auth, body_source, dispatch, parse_form, process, set_headers, Body, BodyRead, BodySource,
    JarRead,
};
use httprc::error::ErrorKind;
use httprc::fields::Field;
use httprc::opt::{parse_url, Method, Opt};

fn options(method: Method) -> Opt {
    Opt {
        verbose: 0,
        url: "http://example.test/".to_string(),
        method,
        basic: None,
        bearer: None,
        headers: None,
        file: None,
        insecure: false,
        cookie_jar: None,
        form: None,
        cookies: None,
    }
}

fn strings(items: &[&str]) -> Vec<String> {
    items.iter().map(|s| s.to_string()).collect()
}

fn pairs(fields: &[Field]) -> Vec<(String, String)> {
    fields.iter().map(|f| (f.name.clone(), f.value.clone())).collect()
}

fn owned(items: &[(&str, &str)]) -> Vec<(String, String)> {
    items.iter().map(|(a, b)| (a.to_string(), b.to_string())).collect()
}

#[test]
fn url_without_scheme_gets_http() {
    assert_eq!(parse_url("example.test/a"), "http://example.test/a");
}

#[test]
fn url_with_scheme_is_kept() {
    assert_eq!(parse_url("https://example.test"), "https://example.test");
    assert_eq!(parse_url("http://example.test"), "http://example.test");
}

#[test]
fn basic_credentials_are_encoded() {
    assert_eq!(basic_auth("user:pass"), Some("Basic dXNlcjpwYXNz".to_string()));
}

#[test]
fn basic_password_keeps_later_colons() {
    assert_eq!(basic_auth("user:pa:ss"), Some("Basic dXNlcjpwYTpzcw==".to_string()));
    assert_eq!(basic_auth("a:"), Some("Basic YTo=".to_string()));
}

#[test]
fn basic_without_colon_is_ignored() {
    assert_eq!(basic_auth("userpass"), None);
    assert_eq!(basic_auth(""), None);
    let mut o = options(Method::Get);
    o.basic = Some("userpass".to_string());
    let req = process(&o, &JarRead::Missing, BodyRead::Terminal).ok().unwrap();
    assert!(req.headers.is_empty());
}

#[test]
fn header_entries_split_on_first_colon() {
    let mut hs: Vec<Field> = Vec::new();
    set_headers(
        &mut hs,
        &strings(&["X-A:1", "no colon", "Accept:a:b", "bad name:1", ":empty", "x-a:2"]),
    );
    assert_eq!(pairs(&hs), owned(&[("x-a", "2"), ("accept", "a:b")]));
}

#[test]
fn form_entries_split_on_first_equals() {
    let fs = parse_form(&strings(&["k=v", "noeq", "a=b=c", "k=w", "=x"]));
    assert_eq!(pairs(&fs), owned(&[("k", "w"), ("a", "b=c"), ("", "x")]));
}

#[test]
fn get_has_no_default_content_type() {
    let mut o = options(Method::Get);
    o.bearer = Some("tok".to_string());
    o.headers = Some(strings(&["Accept:text/plain"]));
    let req = process(&o, &JarRead::Missing, BodyRead::Terminal).ok().unwrap();
    assert_eq!(req.method, Method::Get);
    assert_eq!(req.url, "http://example.test/");
    assert_eq!(
        pairs(&req.headers),
        owned(&[("authorization", "Bearer tok"), ("accept", "text/plain")])
    );
    assert!(matches!(req.body, Body::Empty));
}

#[test]
fn bearer_overrides_basic_and_user_headers_override_both() {
    let mut o = options(Method::Get);
    o.basic = Some("u:p".to_string());
    o.bearer = Some("tok".to_string());
    let req = process(&o, &JarRead::Missing, BodyRead::Terminal).ok().unwrap();
    assert_eq!(pairs(&req.headers), owned(&[("authorization", "Bearer tok")]));
    o.headers = Some(strings(&["Authorization:Custom x"]));
    let req = process(&o, &JarRead::Missing, BodyRead::Terminal).ok().unwrap();
    assert_eq!(pairs(&req.headers), owned(&[("authorization", "Custom x")]));
}

#[test]
fn post_defaults_to_json_and_takes_piped_text() {
    let o = options(Method::Post);
    let req = process(&o, &JarRead::Missing, BodyRead::Piped("{\"a\":1}".to_string()))
        .ok()
        .unwrap();
    assert_eq!(pairs(&req.headers), owned(&[("content-type", "application/json")]));
    match req.body {
        Body::Text(t) => assert_eq!(t, "{\"a\":1}"),
        _ => panic!("expected a text body"),
    }
}

#[test]
fn put_streams_the_file() {
    let mut o = options(Method::Put);
    o.file = Some("data.json".to_string());
    match body_source(&o) {
        Some(BodySource::File(p)) => assert_eq!(p, "data.json"),
        _ => panic!("expected the file"),
    }
    let req = process(&o, &JarRead::Missing, BodyRead::Opened("data.json".to_string()))
        .ok()
        .unwrap();
    assert_eq!(req.method, Method::Put);
    match req.body {
        Body::File(p) => assert_eq!(p, "data.json"),
        _ => panic!("expected a file body"),
    }
}

#[test]
fn body_source_without_file_is_stdin() {
    assert!(matches!(body_source(&options(Method::Post)), Some(BodySource::Stdin)));
    assert!(body_source(&options(Method::Get)).is_none());
    let mut o = options(Method::Delete);
    o.file = Some("data.json".to_string());
    assert!(body_source(&o).is_none());
}

#[test]
fn post_form_replaces_file_body() {
    let mut o = options(Method::Post);
    o.file = Some("data.json".to_string());
    o.form = Some(strings(&["key=value"]));
    let req = process(&o, &JarRead::Missing, BodyRead::Opened("data.json".to_string()))
        .ok()
        .unwrap();
    match &req.body {
        Body::Form(fs) => assert_eq!(pairs(fs), owned(&[("key", "value")])),
        _ => panic!("expected a form body"),
    }
    assert_eq!(
        pairs(&req.headers),
        owned(&[("content-type", "application/x-www-form-urlencoded")])
    );
}

#[test]
fn post_form_replaces_piped_body() {
    let mut o = options(Method::Post);
    o.form = Some(strings(&["a=1", "skip", "b=2"]));
    let req = process(&o, &JarRead::Missing, BodyRead::Piped("raw".to_string())).ok().unwrap();
    match &req.body {
        Body::Form(fs) => assert_eq!(pairs(fs), owned(&[("a", "1"), ("b", "2")])),
        _ => panic!("expected a form body"),
    }
}

#[test]
fn cookies_then_jar_form_one_header() {
    let mut o = options(Method::Get);
    o.cookies = Some(strings(&["a=1", "b=2"]));
    o.cookie_jar = Some("jar.txt".to_string());
    let req = process(&o, &JarRead::Contents("sid=9".to_string()), BodyRead::Terminal)
        .ok()
        .unwrap();
    assert_eq!(pairs(&req.headers), owned(&[("cookie", "a=1;b=2;sid=9")]));
}

#[test]
fn missing_jar_is_no_error() {
    let mut o = options(Method::Get);
    o.cookie_jar = Some("absent.txt".to_string());
    let req = process(&o, &JarRead::Missing, BodyRead::Terminal).ok().unwrap();
    assert!(req.headers.is_empty());
    o.cookies = Some(strings(&["a=1"]));
    let req = process(&o, &JarRead::Missing, BodyRead::Terminal).ok().unwrap();
    assert_eq!(pairs(&req.headers), owned(&[("cookie", "a=1;")]));
}

#[test]
fn jar_contents_ignored_without_jar_option() {
    let o = options(Method::Get);
    let req = process(&o, &JarRead::Contents("sid=9".to_string()), BodyRead::Terminal)
        .ok()
        .unwrap();
    assert!(req.headers.is_empty());
}

#[test]
fn unreadable_jar_fails() {
    let mut o = options(Method::Get);
    o.cookie_jar = Some("jar.txt".to_string());
    let e = process(&o, &JarRead::Failed("permission denied".to_string()), BodyRead::Terminal)
        .err()
        .unwrap();
    assert_eq!(e.kind, ErrorKind::CookieJarRead);
    assert_eq!(e.messages, strings(&["Cannot read cookie jar `jar.txt`", "permission denied"]));
}

#[test]
fn unopenable_file_fails() {
    let mut o = options(Method::Post);
    o.file = Some("nope.json".to_string());
    o.form = Some(strings(&["k=v"]));
    let read = BodyRead::OpenFailed("nope.json".to_string(), "No such file".to_string());
    let e = process(&o, &JarRead::Missing, read).err().unwrap();
    assert_eq!(e.kind, ErrorKind::FileOpen);
    assert_eq!(e.messages, strings(&["Cannot open file `nope.json`", "No such file"]));
}

#[test]
fn unreadable_stdin_fails() {
    let o = options(Method::Put);
    let e = process(&o, &JarRead::Missing, BodyRead::ReadFailed("bad utf-8".to_string()))
        .err()
        .unwrap();
    assert_eq!(e.kind, ErrorKind::StdinRead);
    assert_eq!(e.messages, strings(&["Cannot read from stdin", "bad utf-8"]));
}

#[test]
fn unsendable_header_value_fails_the_build() {
    let mut o = options(Method::Get);
    o.bearer = Some("a\nb".to_string());
    let e = process(&o, &JarRead::Missing, BodyRead::Terminal).err().unwrap();
    assert_eq!(e.kind, ErrorKind::RequestBuild);
    assert_eq!(e.messages, strings(&["Failed to create request", "failed to parse header value"]));
}

#[test]
fn non_ascii_header_value_is_accepted() {
    let mut o = options(Method::Get);
    o.headers = Some(strings(&["X-Name:caf\u{e9}\tok"]));
    let req = process(&o, &JarRead::Missing, BodyRead::Terminal).ok().unwrap();
    assert_eq!(pairs(&req.headers), owned(&[("x-name", "caf\u{e9}\tok")]));
}

#[test]
fn delete_is_refused() {
    let mut o = options(Method::Delete);
    o.cookie_jar = Some("jar.txt".to_string());
    let e = process(&o, &JarRead::Failed("x".to_string()), BodyRead::Terminal).err().unwrap();
    assert_eq!(e.kind, ErrorKind::UnsupportedMethod);
    assert_eq!(e.messages, strings(&["HTTP method DELETE is not implemented"]));
}

#[test]
fn dispatch_refuses_only_delete() {
    assert!(dispatch(Method::Get).is_ok());
    assert!(dispatch(Method::Post).is_ok());
    assert!(dispatch(Method::Put).is_ok());
    let e = dispatch(Method::Delete).err().unwrap();
    assert_eq!(e.kind, ErrorKind::UnsupportedMethod);
}
