use vstd::prelude::*;
use crate::cookie::{JarWrite, saves, written};
use crate::error::{ErrorKind, context_of};
use crate::render::error_output;
use crate::fields::{insert_field, lemma_insert_field, lookup, names_unique};
use crate::header::header_name_of;
use crate::opt::Opt;
use crate::client::{
    BodyRead, BodyView, JarRead, Pairs, basic_value, enrich_outcome, form_fields, opt_list,
    opt_text, outcome, with_basic, with_bearer, with_cookies, with_default_type, with_form_entry,
    with_header_spec, with_header_specs,
};
use crate::text::{first_index, lemma_index_from, lemma_split_first, split_first};

verus! {

/// Basic credentials without a `:` add no Authorization header: they are
/// ignored and the headers stay as they were.
pub proof fn law_basic_without_colon(hs: Pairs, credential: Seq<char>)
    requires
        !credential.contains(':'),
    ensures
        basic_value(credential) is None,
        with_basic(hs, Some(credential)) == hs,
{
    lemma_split_first(credential, ':');
}

/// A header entry without `:` is dropped; otherwise it is split on its first
/// `:` only, so the value keeps any later `:`.
pub proof fn law_header_entry(hs: Pairs, h: Seq<char>)
    ensures
        !h.contains(':') ==> with_header_spec(hs, h) == hs,
        h.contains(':') ==> {
            let k = first_index(h, ':');
            &&& 0 <= k < h.len()
            &&& h[k] == ':'
            &&& !h.take(k).contains(':')
            &&& with_header_spec(hs, h) == match header_name_of(h.take(k)) {
                Some(n) => insert_field(hs, n, h.skip(k + 1)),
                None => hs,
            }
        },
{
    lemma_split_first(h, ':');
    lemma_index_from(h, ':', 0);
    if h.contains(':') {
        let k = first_index(h, ':');
        let j = choose|j: int| 0 <= j < h.len() && h[j] == ':';
        assert(k >= 0);
        assert forall|i: int| 0 <= i < h.take(k).len() implies h.take(k)[i] != ':' by {}
    }
}

/// Over a whole list, the entries without `:` play no part.
pub proof fn law_header_entries_without_colon(hs: Pairs, specs: Seq<Seq<char>>)
    ensures
        with_header_specs(hs, specs) == with_header_specs(
            hs,
            specs.filter(|h: Seq<char>| h.contains(':')),
        ),
    decreases specs.len(),
{
    reveal(Seq::filter);
    if specs.len() > 0 {
        let p = |h: Seq<char>| h.contains(':');
        law_header_entries_without_colon(hs, specs.drop_last());
        law_header_entry(with_header_specs(hs, specs.drop_last()), specs.last());
        let f = specs.drop_last().filter(p);
        if p(specs.last()) {
            assert(f.push(specs.last()).drop_last() =~= f);
        }
    }
}

/// A form entry without `=` is dropped; otherwise it is split on its first
/// `=` only, so the value keeps any later `=`.
pub proof fn law_form_entry(fs: Pairs, e: Seq<char>)
    ensures
        !e.contains('=') ==> with_form_entry(fs, e) == fs,
        e.contains('=') ==> {
            let k = first_index(e, '=');
            &&& 0 <= k < e.len()
            &&& !e.take(k).contains('=')
            &&& with_form_entry(fs, e) == insert_field(fs, e.take(k), e.skip(k + 1))
        },
{
    lemma_split_first(e, '=');
    lemma_index_from(e, '=', 0);
    if e.contains('=') {
        let k = first_index(e, '=');
        let j = choose|j: int| 0 <= j < e.len() && e[j] == '=';
        assert(k >= 0);
        assert forall|i: int| 0 <= i < e.take(k).len() implies e.take(k)[i] != '=' by {}
    }
}

/// Over a whole form, the entries without `=` play no part.
pub proof fn law_form_entries_without_equals(entries: Seq<Seq<char>>)
    ensures
        form_fields(entries) == form_fields(entries.filter(|e: Seq<char>| e.contains('='))),
    decreases entries.len(),
{
    reveal(Seq::filter);
    if entries.len() > 0 {
        let p = |e: Seq<char>| e.contains('=');
        law_form_entries_without_equals(entries.drop_last());
        law_form_entry(form_fields(entries.drop_last()), entries.last());
        let f = entries.drop_last().filter(p);
        if p(entries.last()) {
            assert(f.push(entries.last()).drop_last() =~= f);
        }
    }
}

/// On a POST or PUT with form fields, a request that is built has the
/// form-encoded body, whatever file or piped input was also given.
pub proof fn law_form_takes_precedence(opt: Opt, jar: JarRead, read: BodyRead)
    requires
        opt.method is Post || opt.method is Put,
        opt.form is Some,
        outcome(opt, jar, read) is Ok,
    ensures
        outcome(opt, jar, read)->Ok_0.1 == BodyView::Form(form_fields(opt_list(opt.form))),
{
}

/// Two responses with the same `Set-Cookie` value leave the jar file byte
/// for byte as the first alone does.
pub proof fn law_jar_write_idempotent(
    file: Option<Seq<u8>>,
    cookie_jar: Option<String>,
    set_cookie: Option<Vec<u8>>,
    first: Option<JarWrite>,
    second: Option<JarWrite>,
)
    requires
        saves(cookie_jar, set_cookie, first),
        saves(cookie_jar, set_cookie, second),
    ensures
        written(written(file, first), second) == written(file, first),
{
}

proof fn lemma_header_specs_unique(hs: Pairs, specs: Seq<Seq<char>>)
    requires
        names_unique(hs),
    ensures
        names_unique(with_header_specs(hs, specs)),
    decreases specs.len(),
{
    if specs.len() > 0 {
        lemma_header_specs_unique(hs, specs.drop_last());
        let prev = with_header_specs(hs, specs.drop_last());
        if let Some((n, v)) = split_first(specs.last(), ':') {
            if let Some(name) = header_name_of(n) {
                lemma_insert_field(prev, name, v);
            }
        }
    }
}

proof fn lemma_form_fields_unique(entries: Seq<Seq<char>>)
    ensures
        names_unique(form_fields(entries)),
    decreases entries.len(),
{
    if entries.len() > 0 {
        lemma_form_fields_unique(entries.drop_last());
        if let Some((k, v)) = split_first(entries.last(), '=') {
            lemma_insert_field(form_fields(entries.drop_last()), k, v);
        }
    }
}

/// Every request that an invocation builds holds each header name once, and
/// each form field name once: later settings replace earlier ones.
pub proof fn law_names_unique(opt: Opt, jar: JarRead, read: BodyRead)
    requires
        outcome(opt, jar, read) is Ok,
    ensures
        names_unique(outcome(opt, jar, read)->Ok_0.0),
        outcome(opt, jar, read)->Ok_0.1 is Form ==> names_unique(
            outcome(opt, jar, read)->Ok_0.1->Form_0,
        ),
{
    let h0 = Seq::<(Seq<char>, Seq<char>)>::empty();
    let h1 = with_basic(h0, opt_text(opt.basic));
    if let Some(b) = opt_text(opt.basic) {
        if let Some(v) = basic_value(b) {
            lemma_insert_field(h0, "authorization"@, v);
        }
    }
    let h2 = with_bearer(h1, opt_text(opt.bearer));
    if let Some(t) = opt_text(opt.bearer) {
        lemma_insert_field(h1, "authorization"@, "Bearer "@ + t);
    }
    let h3 = with_default_type(h2, opt.method);
    lemma_insert_field(h2, "content-type"@, "application/json"@);
    let h4 = with_header_specs(h3, opt_list(opt.headers));
    lemma_header_specs_unique(h3, opt_list(opt.headers));
    let jt = crate::client::jar_text(opt.cookie_jar, jar);
    let c = crate::client::cookie_text(opt_list(opt.cookies)) + jt;
    lemma_insert_field(h4, "cookie"@, c);
    let h5 = with_cookies(h4, opt_list(opt.cookies), jt);
    assert(enrich_outcome(h0, opt, jar) == Ok::<Pairs, (ErrorKind, Seq<Seq<char>>)>(h5));
    lemma_insert_field(h5, "content-type"@, "application/x-www-form-urlencoded"@);
    lemma_form_fields_unique(opt_list(opt.form));
}

/// At verbosity 0 a request that the transport could not send prints one
/// line: `Error: ` and the transport's root cause, without the context.
pub proof fn law_terse_transport_error(causes: Seq<Seq<char>>)
    requires
        causes.len() > 0,
    ensures
        error_output(seq![context_of(ErrorKind::Transport)] + causes, 0) == "Error: "@ + causes.last(),
{
    assert((seq![context_of(ErrorKind::Transport)] + causes).last() == causes.last());
}

/// A header entry that does not set the header named `n`.
pub open spec fn sets_other_than(h: Seq<char>, n: Seq<char>) -> bool {
    match split_first(h, ':') {
        Some((k, _)) => header_name_of(k) != Some(n),
        None => true,
    }
}

proof fn lemma_specs_keep_absent(hs: Pairs, specs: Seq<Seq<char>>, n: Seq<char>)
    requires
        names_unique(hs),
        lookup(hs, n) is None,
        forall|i: int| 0 <= i < specs.len() ==> sets_other_than(#[trigger] specs[i], n),
    ensures
        lookup(with_header_specs(hs, specs), n) is None,
    decreases specs.len(),
{
    if specs.len() > 0 {
        let rest = specs.drop_last();
        assert forall|i: int| 0 <= i < rest.len() implies sets_other_than(#[trigger] rest[i], n) by {
            assert(rest[i] == specs[i]);
        }
        lemma_specs_keep_absent(hs, rest, n);
        lemma_header_specs_unique(hs, rest);
        let prev = with_header_specs(hs, rest);
        assert(sets_other_than(specs[specs.len() - 1], n));
        if let Some((k, v)) = split_first(specs.last(), ':') {
            if let Some(name) = header_name_of(k) {
                lemma_insert_field(prev, name, v);
            }
        }
    }
}

/// Basic credentials without `:` are ignored without error: unless a Bearer
/// token or a user header sets it, the enriched request has no
/// Authorization header.
pub proof fn law_basic_without_colon_sends_no_authorization(opt: Opt, jar: JarRead)
    requires
        opt.basic is Some,
        !opt.basic->0@.contains(':'),
        opt.bearer is None,
        forall|i: int| 0 <= i < opt_list(opt.headers).len() ==> sets_other_than(
            #[trigger] opt_list(opt.headers)[i],
            "authorization"@,
        ),
        !(opt.cookie_jar is Some && jar is Failed),
    ensures
        enrich_outcome(Seq::empty(), opt, jar) is Ok,
        lookup(enrich_outcome(Seq::empty(), opt, jar)->Ok_0, "authorization"@) is None,
{
    let h0 = Seq::<(Seq<char>, Seq<char>)>::empty();
    law_basic_without_colon(h0, opt.basic->0@);
    let h1 = with_basic(h0, opt_text(opt.basic));
    assert(h1 == h0);
    let h2 = with_bearer(h1, opt_text(opt.bearer));
    assert(h2 == h0);
    reveal_strlit("authorization");
    reveal_strlit("content-type");
    reveal_strlit("cookie");
    assert("content-type"@ != "authorization"@) by {
        assert("content-type"@.len() != "authorization"@.len());
    }
    assert("cookie"@ != "authorization"@) by {
        assert("cookie"@.len() != "authorization"@.len());
    }
    lemma_insert_field(h2, "content-type"@, "application/json"@);
    let h3 = with_default_type(h2, opt.method);
    crate::fields::lemma_name_index_from(h2, "authorization"@, 0);
    assert(lookup(h3, "authorization"@) is None);
    assert(names_unique(h3));
    lemma_specs_keep_absent(h3, opt_list(opt.headers), "authorization"@);
    lemma_header_specs_unique(h3, opt_list(opt.headers));
    let h4 = with_header_specs(h3, opt_list(opt.headers));
    let jt = crate::client::jar_text(opt.cookie_jar, jar);
    let c = crate::client::cookie_text(opt_list(opt.cookies)) + jt;
    lemma_insert_field(h4, "cookie"@, c);
    let h5 = with_cookies(h4, opt_list(opt.cookies), jt);
    assert(lookup(h5, "authorization"@) is None);
    assert(enrich_outcome(h0, opt, jar) == Ok::<Pairs, (ErrorKind, Seq<Seq<char>>)>(h5));
}

} // verus!
