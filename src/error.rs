use vstd::prelude::*;
use vstd::string::*;

verus! {

/// What went wrong in an invocation.
#[derive(Clone, Copy, Debug, PartialEq, Eq, Structural)]
pub enum ErrorKind {
    ClientConstruction,
    CookieJarRead,
    FileOpen,
    StdinRead,
    RequestBuild,
    Transport,
    JarWrite,
    ResponseRead,
    UnsupportedMethod,
}

/// An error with its chain of messages: the outermost context first, the
/// root cause last.
pub struct HrcError {
    pub kind: ErrorKind,
    pub messages: Vec<String>,
}

/// The messages of a chain, as sequences of characters.
pub open spec fn messages_view(ms: Seq<String>) -> Seq<Seq<char>> {
    ms.map_values(|m: String| m@)
}

/// The outermost message of an error of `kind`, for the kinds whose context
/// names no path.
pub open spec fn context_of(kind: ErrorKind) -> Seq<char> {
    match kind {
        ErrorKind::ClientConstruction => "Cannot create HTTP client"@,
        ErrorKind::CookieJarRead => "Cannot read cookie jar"@,
        ErrorKind::FileOpen => "Cannot open file"@,
        ErrorKind::StdinRead => "Cannot read from stdin"@,
        ErrorKind::RequestBuild => "Failed to create request"@,
        ErrorKind::Transport => "Failed to send request"@,
        ErrorKind::JarWrite => "Failed to save cookies"@,
        ErrorKind::ResponseRead => "Failed to extract response body"@,
        ErrorKind::UnsupportedMethod => "Unsupported method"@,
    }
}

pub fn context(kind: ErrorKind) -> (r: &'static str)
    ensures
        r@ == context_of(kind),
{
    match kind {
        ErrorKind::ClientConstruction => "Cannot create HTTP client",
        ErrorKind::CookieJarRead => "Cannot read cookie jar",
        ErrorKind::FileOpen => "Cannot open file",
        ErrorKind::StdinRead => "Cannot read from stdin",
        ErrorKind::RequestBuild => "Failed to create request",
        ErrorKind::Transport => "Failed to send request",
        ErrorKind::JarWrite => "Failed to save cookies",
        ErrorKind::ResponseRead => "Failed to extract response body",
        ErrorKind::UnsupportedMethod => "Unsupported method",
    }
}

impl HrcError {
    /// An error of `kind` under its usual context, over the given causes
    /// (the transport's own chain, outermost first).
    pub fn wrap(kind: ErrorKind, causes: Vec<String>) -> (r: HrcError)
        ensures
            r.kind == kind,
            r.chain() == seq![context_of(kind)] + messages_view(causes@),
    {
        HrcError::with_causes(kind, context(kind).to_string(), causes)
    }

    pub open spec fn chain(&self) -> Seq<Seq<char>> {
        messages_view(self.messages@)
    }

    /// An error of `kind` whose outermost message is `context`, followed by `causes`.
    pub fn with_causes(kind: ErrorKind, context: String, causes: Vec<String>) -> (r: HrcError)
        ensures
            r.kind == kind,
            r.chain() == seq![context@] + messages_view(causes@),
    {
        let ghost c = context@;
        let mut messages: Vec<String> = Vec::new();
        messages.push(context);
        let mut i: usize = 0;
        while i < causes.len()
            invariant
                i <= causes@.len(),
                messages_view(messages@) == seq![c] + messages_view(causes@.take(i as int)),
            decreases causes.len() - i,
        {
            let ghost before = messages@;
            messages.push(causes[i].clone());
            assert(messages_view(messages@) =~= messages_view(before).push(causes@[i as int]@));
            assert(causes@.take(i + 1) =~= causes@.take(i as int).push(causes@[i as int]));
            assert(messages_view(causes@.take(i + 1)) =~= messages_view(causes@.take(i as int)).push(
                causes@[i as int]@,
            ));
            assert(messages_view(messages@) =~= seq![c] + messages_view(causes@.take(i + 1)));
            i = i + 1;
        }
        assert(causes@.take(causes@.len() as int) =~= causes@);
        HrcError { kind, messages }
    }

    /// The deepest cause, if the chain holds any message.
    pub fn root_cause(&self) -> (r: Option<&String>)
        ensures
            self.chain().len() == 0 ==> r is None,
            self.chain().len() > 0 ==> r is Some && r->0@ == self.chain().last(),
    {
        if self.messages.len() == 0 {
            None
        } else {
            Some(&self.messages[self.messages.len() - 1])
        }
    }
}

} // verus!
