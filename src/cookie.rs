use vstd::prelude::*;
use vstd::string::*;
use crate::error::{ErrorKind, HrcError};

verus! {

/// A write of the cookie jar file: the path and the bytes it is to hold.
pub struct JarWrite {
    pub path: String,
    pub contents: Vec<u8>,
}

/// The write that a response calls for, given the configured jar and the
/// response's raw `Set-Cookie` value: that value, whole, to the jar; none
/// without a jar or without that header.
pub open spec fn saves(cookie_jar: Option<String>, set_cookie: Option<Vec<u8>>, r: Option<JarWrite>) -> bool {
    match r {
        Some(w) => cookie_jar is Some && w.path@ == cookie_jar->0@ && set_cookie is Some
            && w.contents@ == set_cookie->0@,
        None => cookie_jar is None || set_cookie is None,
    }
}

/// The jar file's contents after a write, if any, is carried out.
pub open spec fn written(file: Option<Seq<u8>>, w: Option<JarWrite>) -> Option<Seq<u8>> {
    match w {
        Some(w) => Some(w.contents@),
        None => file,
    }
}

/// The write of the jar file that a response calls for.
pub fn save_cookie(cookie_jar: &Option<String>, set_cookie: Option<Vec<u8>>) -> (r: Option<JarWrite>)
    ensures
        saves(*cookie_jar, set_cookie, r),
{
    match (cookie_jar, set_cookie) {
        (Some(p), Some(v)) => Some(JarWrite { path: p.clone(), contents: v }),
        _ => None,
    }
}

/// The error chain for a jar file that could not be written.
pub open spec fn jar_write_chain(path: Seq<char>, message: Seq<char>) -> Seq<Seq<char>> {
    seq!["Failed to save cookies"@, "Cannot write to cookie jar, `"@ + path + "`"@, message]
}

/// The error for a jar file at `path` that could not be written, with the
/// system's `message`.
pub fn jar_write_error(path: &str, message: String) -> (r: HrcError)
    ensures
        r.kind == ErrorKind::JarWrite,
        r.chain() == jar_write_chain(path@, message@),
{
    let mut inner = "Cannot write to cookie jar, `".to_string();
    inner.append(path);
    inner.append("`");
    let mut causes: Vec<String> = Vec::new();
    causes.push(inner);
    causes.push(message);
    let e = HrcError::with_causes(ErrorKind::JarWrite, "Failed to save cookies".to_string(), causes);
    assert(e.chain() =~= jar_write_chain(path@, causes@[1]@));
    e
}

} // verus!
