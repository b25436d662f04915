use httprc::client::{process, Body, BodyRead, JarRead, Request};
use httprc::cookie::{jar_write_error, save_cookie};
use httprc::error::{ErrorKind, HrcError};
use httprc::fields::Field;
use httprc::opt::{Method, Opt};
use httprc::render::{
    dump_headers, dump_req, dump_resp_body, dump_response_head, pretty_json, render_body,
    render_error, show_value,
};

fn field(name: &str, value: &str) -> Field {
    Field { name: name.to_string(), value: value.to_string() }
}

fn strings(items: &[&str]) -> Vec<String> {
    items.iter().map(|s| s.to_string()).collect()
}

#[test]
fn json_body_is_pretty_printed() {
    assert_eq!(dump_resp_body("{\"a\":1}", 0), "{\n  \"a\": 1\n}\n");
}

#[test]
fn json_body_keeps_key_order() {
    assert_eq!(dump_resp_body("{\"b\":1,\"a\":[true,null]}", 0), "{\n  \"b\": 1,\n  \"a\": [\n    true,\n    null\n  ]\n}\n");
}

#[test]
fn non_json_body_is_printed_as_is() {
    assert_eq!(dump_resp_body("hello {", 0), "hello {\n");
    assert_eq!(dump_resp_body("", 0), "\n");
    assert_eq!(pretty_json("not json"), None);
    assert_eq!(pretty_json("[1,2]"), Some("[\n  1,\n  2\n]".to_string()));
}

#[test]
fn verbose_body_follows_an_empty_line() {
    assert_eq!(dump_resp_body("plain", 1), "\nplain\n");
    assert_eq!(dump_resp_body("[1]", 2), "\n[\n  1\n]\n");
}

#[test]
fn render_body_prefers_the_pretty_form() {
    assert_eq!(render_body("x", Some("y".to_string()), 0), "y\n");
    assert_eq!(render_body("x", None, 0), "x\n");
}

#[test]
fn pretty_output_parses_back_to_the_same_value() {
    for text in ["{\"a\":1,\"b\":[1,2,{\"c\":\"d\"}]}", "[]", "\"s\"", "3", "{\"k\":{\"n\":null}}"] {
        let out = dump_resp_body(text, 0);
        let first: serde_json::Value = serde_json::from_str(text).unwrap();
        let again: serde_json::Value = serde_json::from_str(&out).unwrap();
        assert_eq!(first, again);
    }
}

#[test]
fn request_dump_lists_method_url_and_headers() {
    let req = Request {
        method: Method::Post,
        url: "http://example.test".to_string(),
        headers: vec![field("content-type", "application/json"), field("x-bin", "caf\u{e9}")],
        body: Body::Empty,
    };
    assert_eq!(
        dump_req(&req, "http://example.test/", 2),
        "> POST http://example.test/\n> content-type: application/json\n> x-bin: \n\n"
    );
}

#[test]
fn response_head_shows_version_status_and_headers() {
    let hs = vec![field("server", "t"), field("x-tab", "a\tb")];
    assert_eq!(
        dump_response_head("HTTP/1.1", "200", &hs, 1),
        "< HTTP/1.1 200\n< server: t\n< x-tab: a\tb\n"
    );
    assert_eq!(dump_headers("<", &Vec::new()), "");
}

#[test]
fn quiet_tiers_print_no_metadata() {
    let hs = vec![field("server", "t")];
    assert_eq!(dump_response_head("HTTP/1.1", "200", &hs, 0), "");
    let req = Request {
        method: Method::Get,
        url: "http://example.test/".to_string(),
        headers: hs,
        body: Body::Empty,
    };
    assert_eq!(dump_req(&req, "http://example.test/", 1), "");
    assert_eq!(dump_req(&req, "http://example.test/", 3), "> GET http://example.test/\n> server: t\n\n");
}

#[test]
fn invisible_header_values_show_empty() {
    assert_eq!(show_value("ok value"), "ok value");
    assert_eq!(show_value("\u{7f}"), "");
    assert_eq!(show_value("\u{e9}"), "");
}

#[test]
fn terse_error_shows_the_root_cause() {
    let e = HrcError::wrap(
        ErrorKind::Transport,
        strings(&["error sending request for url (http://nowhere.invalid/)", "dns error", "failed to lookup address information"]),
    );
    assert_eq!(render_error(&e, 0), "Error: failed to lookup address information");
}

#[test]
fn verbose_error_shows_the_chain() {
    let e = HrcError::wrap(ErrorKind::Transport, strings(&["connect error", "Connection refused"]));
    assert_eq!(
        render_error(&e, 1),
        "Error: Failed to send request\n\nCaused by:\n    connect error\n    Connection refused"
    );
    let single = HrcError::wrap(ErrorKind::Transport, Vec::new());
    assert_eq!(render_error(&single, 2), "Error: Failed to send request");
    assert_eq!(render_error(&single, 0), "Error: Failed to send request");
}

#[test]
fn error_contexts_by_kind() {
    let e = HrcError::wrap(ErrorKind::ClientConstruction, strings(&["tls"]));
    assert_eq!(e.messages, strings(&["Cannot create HTTP client", "tls"]));
    let e = HrcError::wrap(ErrorKind::ResponseRead, Vec::new());
    assert_eq!(e.messages, strings(&["Failed to extract response body"]));
    assert_eq!(e.root_cause(), Some(&"Failed to extract response body".to_string()));
}

#[test]
fn jar_write_error_names_the_path() {
    let e = jar_write_error("jar.txt", "read-only".to_string());
    assert_eq!(e.kind, ErrorKind::JarWrite);
    assert_eq!(
        e.messages,
        strings(&["Failed to save cookies", "Cannot write to cookie jar, `jar.txt`", "read-only"])
    );
}

#[test]
fn set_cookie_is_written_whole_to_the_jar() {
    let w = save_cookie(&Some("jar.txt".to_string()), Some(b"sid=1; Path=/".to_vec())).unwrap();
    assert_eq!(w.path, "jar.txt");
    assert_eq!(w.contents, b"sid=1; Path=/".to_vec());
}

#[test]
fn no_jar_write_without_jar_or_header() {
    assert!(save_cookie(&None, Some(b"sid=1".to_vec())).is_none());
    assert!(save_cookie(&Some("jar.txt".to_string()), None).is_none());
}

#[test]
fn same_set_cookie_twice_writes_the_same_bytes() {
    let jar = Some("jar.txt".to_string());
    let first = save_cookie(&jar, Some(b"sid=1".to_vec())).unwrap();
    let second = save_cookie(&jar, Some(b"sid=1".to_vec())).unwrap();
    assert_eq!(first.path, second.path);
    assert_eq!(first.contents, second.contents);
}

#[test]
fn get_at_verbosity_zero_prints_only_the_pretty_body() {
    let o = Opt {
        verbose: 0,
        url: "http://example.test/".to_string(),
        method: Method::Get,
        basic: None,
        bearer: None,
        headers: None,
        file: None,
        insecure: false,
        cookie_jar: None,
        form: None,
        cookies: None,
    };
    let req = process(&o, &JarRead::Missing, BodyRead::Terminal).ok().unwrap();
    let mut out = dump_req(&req, "http://example.test/", o.verbose);
    out.push_str(&dump_response_head("HTTP/1.1", "200", &vec![field("content-type", "application/json")], o.verbose));
    out.push_str(&dump_resp_body("{\"a\":1}", o.verbose));
    assert_eq!(out, "{\n  \"a\": 1\n}\n");
}
