use vstd::prelude::*;

use crate::error::Error;
use crate::error::ErrView;
use crate::store::Store;

verus! {

/// The request verb, as the transport reported it. Verbs outside the common
/// set are carried verbatim in `Extension`.
#[derive(Debug, PartialEq, Eq)]
pub enum Method {
    Options,
    Get,
    Post,
    Put,
    Delete,
    Head,
    Trace,
    Connect,
    Patch,
    Extension(String),
}

/// Mathematical image of a [`Method`]: an extension verb is a sequence of
/// characters rather than an allocated string.
pub ghost enum MethodView {
    Options,
    Get,
    Post,
    Put,
    Delete,
    Head,
    Trace,
    Connect,
    Patch,
    Extension(Seq<char>),
}

impl View for Method {
    type V = MethodView;

    open spec fn view(&self) -> MethodView {
        match self {
            Method::Options => MethodView::Options,
            Method::Get => MethodView::Get,
            Method::Post => MethodView::Post,
            Method::Put => MethodView::Put,
            Method::Delete => MethodView::Delete,
            Method::Head => MethodView::Head,
            Method::Trace => MethodView::Trace,
            Method::Connect => MethodView::Connect,
            Method::Patch => MethodView::Patch,
            Method::Extension(verb) => MethodView::Extension(verb@),
        }
    }
}

impl Clone for Method {
    fn clone(&self) -> (r: Method)
        ensures
            r@ == self@,
    {
        match self {
            Method::Options => Method::Options,
            Method::Get => Method::Get,
            Method::Post => Method::Post,
            Method::Put => Method::Put,
            Method::Delete => Method::Delete,
            Method::Head => Method::Head,
            Method::Trace => Method::Trace,
            Method::Connect => Method::Connect,
            Method::Patch => Method::Patch,
            Method::Extension(verb) => Method::Extension(verb.clone()),
        }
    }
}

/// The request-target of a transport-level request, already classified into
/// the four shapes an HTTP request line can carry. Only the absolute-path
/// shape is accepted at ingress; the others are rejected unseen by any
/// stack.
#[derive(Clone, Debug)]
pub enum RequestTarget {
    AbsolutePath(String),
    AbsoluteUri(String),
    Authority(String),
    Star,
}

/// What the core consumes from a transport-level inbound request: the verb
/// and the raw request-target.
#[derive(Clone, Debug)]
pub struct TransportRequest {
    pub method: Method,
    pub target: RequestTarget,
}

/// Index of the first query separator in `s`, or `s.len()` if there is
/// none.
pub open spec fn sep_index(s: Seq<char>) -> int
    decreases s.len(),
{
    if s.len() == 0 {
        0
    } else if s[0] == '?' {
        0
    } else {
        1 + sep_index(s.drop_first())
    }
}

/// The part of a raw path before the first query separator.
pub open spec fn path_of(s: Seq<char>) -> Seq<char> {
    s.subrange(0, sep_index(s))
}

/// Everything after the first query separator, kept verbatim (later
/// separators included), or nothing when there is no separator.
pub open spec fn query_of(s: Seq<char>) -> Option<Seq<char>> {
    if sep_index(s) < s.len() {
        Some(s.subrange(sep_index(s) + 1, s.len() as int))
    } else {
        None
    }
}

/// Where the separator index lies: within the sequence, behind no other
/// separator, and on a separator when there is one.
pub proof fn lemma_sep_index_bounds(s: Seq<char>)
    ensures
        0 <= sep_index(s) <= s.len(),
        forall|j: int| 0 <= j < sep_index(s) ==> s[j] != '?',
        sep_index(s) < s.len() ==> s[sep_index(s)] == '?',
    decreases s.len(),
{
    if s.len() == 0 {
    } else if s[0] == '?' {
    } else {
        lemma_sep_index_bounds(s.drop_first());
        assert forall|j: int| 0 <= j < sep_index(s) implies s[j] != '?' by {
            if j > 0 {
                assert(s.drop_first()[j - 1] == s[j]);
            }
        }
        if sep_index(s) < s.len() {
            assert(s.drop_first()[sep_index(s) - 1] == s[sep_index(s)]);
        }
    }
}

/// The separator index is the only position with nothing but
/// non-separators before it and a separator (or the end) at it.
pub proof fn lemma_sep_index_unique(s: Seq<char>, i: int)
    requires
        0 <= i <= s.len(),
        forall|j: int| 0 <= j < i ==> s[j] != '?',
        i < s.len() ==> s[i] == '?',
    ensures
        sep_index(s) == i,
    decreases s.len(),
{
    if s.len() == 0 {
    } else if s[0] == '?' {
    } else {
        assert forall|j: int| 0 <= j < i - 1 implies s.drop_first()[j] != '?' by {
            assert(s.drop_first()[j] == s[j + 1]);
        }
        if i - 1 < s.drop_first().len() {
            assert(s.drop_first()[i - 1] == s[i]);
        }
        lemma_sep_index_unique(s.drop_first(), i - 1);
    }
}

/// The split is exact: a raw path without a separator is kept whole, and
/// one with a separator reassembles verbatim from path, separator and
/// query; the path itself never holds a separator.
pub proof fn lemma_split_reassembles(s: Seq<char>)
    ensures
        query_of(s) is None ==> path_of(s) == s,
        query_of(s) is Some ==> s == path_of(s) + seq!['?'] + query_of(s)->Some_0,
        forall|j: int| 0 <= j < path_of(s).len() ==> path_of(s)[j] != '?',
{
    lemma_sep_index_bounds(s);
    if query_of(s) is None {
        assert(path_of(s) =~= s);
    } else {
        assert(s =~= path_of(s) + seq!['?'] + query_of(s)->Some_0);
    }
}

/// Splitting is idempotent: the path half never holds a separator, so
/// splitting it again keeps it whole and yields no query.
pub proof fn lemma_split_idempotent(s: Seq<char>)
    ensures
        path_of(path_of(s)) == path_of(s),
        query_of(path_of(s)) is None,
{
    lemma_sep_index_bounds(s);
    assert forall|j: int| 0 <= j < path_of(s).len() implies path_of(s)[j] != '?' by {
        assert(path_of(s)[j] == s[j]);
    }
    lemma_sep_index_unique(path_of(s), path_of(s).len() as int);
    assert(path_of(path_of(s)) =~= path_of(s));
}

/// Mathematical image of a [`Request`]: the verb and the two halves of the
/// split raw path. The per-request store is deliberately absent: its
/// contents are keyed by type identity, which lies outside the model.
pub ghost struct ReqView {
    pub method: MethodView,
    pub path: Seq<char>,
    pub query: Option<Seq<char>>,
}

/// A dispatchable request: verb, split path and query, and a per-request
/// store in which middleware attaches typed metadata.
pub struct Request {
    pub method: Method,
    pub path: String,
    pub query: Option<String>,
    pub data: Store,
}

impl View for Request {
    type V = ReqView;

    open spec fn view(&self) -> ReqView {
        ReqView {
            method: self.method@,
            path: self.path@,
            query: match self.query {
                Some(q) => Some(q@),
                None => None,
            },
        }
    }
}

impl Request {
    /// Splits `path` on the first query separator: everything before it is
    /// the path, everything after it (kept verbatim, later separators
    /// included) is the query; a raw path without a separator has no query.
    pub fn new(method: Method, path: String) -> (r: Request)
        ensures
            r@.method == method@,
            r@.path == path_of(path@),
            r@.query == query_of(path@),
    {
        let n: usize = path.as_str().unicode_len();
        let mut i: usize = 0;
        while i < n && path.as_str().get_char(i) != '?'
            invariant
                n == path@.len(),
                i <= n,
                forall|j: int| 0 <= j < i ==> path@[j] != '?',
            decreases n - i,
        {
            i += 1;
        }
        proof {
            lemma_sep_index_unique(path@, i as int);
        }
        let p: String = path.as_str().substring_char(0, i).to_owned();
        let q: Option<String> = if i < n {
            Some(path.as_str().substring_char(i + 1, n).to_owned())
        } else {
            None
        };
        Request { method, path: p, query: q, data: Store::empty() }
    }

    /// Ingress validation: only a transport request whose target is an
    /// absolute path becomes a [`Request`]; every other target shape is
    /// rejected, and this is the only validation performed at the boundary.
    pub fn build(r: TransportRequest) -> (res: Result<Request, Error>)
        ensures
            match r.target {
                RequestTarget::AbsolutePath(p) => {
                    &&& res is Ok
                    &&& res->Ok_0@.method == r.method@
                    &&& res->Ok_0@.path == path_of(p@)
                    &&& res->Ok_0@.query == query_of(p@)
                },
                _ => res is Err && res->Err_0@ == ErrView::UnsupportedRequestPathFormat,
            },
    {
        match r.target {
            RequestTarget::AbsolutePath(path) => Ok(Request::new(r.method, path)),
            _ => Err(Error::UnsupportedRequestPathFormat),
        }
    }

    pub fn path(&self) -> (r: &str)
        ensures
            r@ == self@.path,
    {
        self.path.as_str()
    }

    pub fn query(&self) -> (r: Option<&str>)
        ensures
            match r {
                Some(q) => self@.query == Some(q@),
                None => self@.query is None,
            },
    {
        match &self.query {
            Some(q) => Some(q.as_str()),
            None => None,
        }
    }

    /// The value most recently attached under key type `T`, if any.
    pub fn get<T: 'static + Clone + Send + Sync>(&self) -> Option<&T> {
        self.data.get::<T>()
    }

    /// Attaches `value` under key type `T`, overwriting any earlier `T`.
    pub fn set<T: 'static + Clone + Send + Sync>(&mut self, value: T)
        ensures
            final(self)@ == old(self)@,
    {
        self.data.set::<T>(value);
    }
}

impl Clone for Request {
    /// Copies verb, path and query exactly; the store is duplicated, so
    /// later mutations of the copy's store stay invisible to the original
    /// and vice versa.
    fn clone(&self) -> (r: Request)
        ensures
            r@ == self@,
    {
        Request {
            method: self.method.clone(),
            path: self.path.clone(),
            query: match &self.query {
                Some(q) => Some(q.clone()),
                None => None,
            },
            data: self.data.duplicate(),
        }
    }
}


} // verus!
