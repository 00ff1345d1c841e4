use vstd::prelude::*;

verus! {

/// The classification of an error.
#[derive(Clone, Copy, Debug, PartialEq, Eq, Structural)]
pub enum ErrorKind {
    NotFound,
    AlreadyExists,
    PermissionDenied,
    ConfigInvalid,
    Unsupported,
    RateLimited,
    ConditionNotMatch,
    RangeNotSatisfied,
    IsADirectory,
    NotADirectory,
    IsSameFile,
    Unexpected,
}

/// What an error holds, as mathematical values.
pub struct ErrorView {
    pub kind: ErrorKind,
    pub message: Seq<char>,
    pub context: Seq<(Seq<char>, Seq<char>)>,
    pub temporary: bool,
}

/// An error: its kind, a short message, ordered context pairs and whether a
/// retry is permissible.
#[derive(Debug)]
pub struct Error {
    kind: ErrorKind,
    message: String,
    context: Vec<(String, String)>,
    temporary: bool,
}

/// The mathematical value of a list of context pairs.
pub open spec fn context_view(c: Seq<(String, String)>) -> Seq<(Seq<char>, Seq<char>)> {
    c.map_values(|p: (String, String)| (p.0@, p.1@))
}

impl View for Error {
    type V = ErrorView;

    closed spec fn view(&self) -> ErrorView {
        ErrorView {
            kind: self.kind,
            message: self.message@,
            context: context_view(self.context@),
            temporary: self.temporary,
        }
    }
}

impl Error {
    /// A permanent error of the given kind with no context.
    pub fn new(kind: ErrorKind, message: &str) -> (r: Error)
        ensures
            r@.kind == kind,
            r@.message == message@,
            r@.context == Seq::<(Seq<char>, Seq<char>)>::empty(),
            !r@.temporary,
    {
        let r = Error { kind, message: message.to_string(), context: Vec::new(), temporary: false };
        proof {
            assert(context_view(r.context@) =~= Seq::<(Seq<char>, Seq<char>)>::empty());
        }
        r
    }

    /// The same error with one more context pair at the end.
    pub fn with_context(self, key: &str, value: String) -> (r: Error)
        ensures
            r@.kind == self@.kind,
            r@.message == self@.message,
            r@.context == self@.context.push((key@, value@)),
            r@.temporary == self@.temporary,
    {
        let mut e = self;
        e.context.push((key.to_string(), value));
        proof {
            assert(context_view(e.context@) =~= context_view(self.context@).push((key@, value@)));
        }
        e
    }

    /// The same error, marked as one that a retry may clear.
    pub fn set_temporary(self) -> (r: Error)
        ensures
            r@.kind == self@.kind,
            r@.message == self@.message,
            r@.context == self@.context,
            r@.temporary,
    {
        let mut e = self;
        e.temporary = true;
        e
    }

    /// The error's kind.
    pub fn kind(&self) -> (r: ErrorKind)
        ensures
            r == self@.kind,
    {
        self.kind
    }

    /// Whether a retry is permissible.
    pub fn is_temporary(&self) -> (r: bool)
        ensures
            r == self@.temporary,
    {
        self.temporary
    }

    /// The error's message.
    pub fn message(&self) -> (r: &str)
        ensures
            r@ == self@.message,
    {
        self.message.as_str()
    }

    /// Number of context pairs.
    pub fn context_len(&self) -> (r: usize)
        ensures
            r == self@.context.len(),
    {
        self.context.len()
    }

    /// The key and value of the context pair at `i`.
    pub fn context_at(&self, i: usize) -> (r: (&str, &str))
        requires
            i < self@.context.len(),
        ensures
            r.0@ == self@.context[i as int].0,
            r.1@ == self@.context[i as int].1,
    {
        let p = &self.context[i];
        (p.0.as_str(), p.1.as_str())
    }
}

} // verus!
