//! Requests, responses and the route registry.

use crate::error::EmberError;
use crate::text::{
    chars_of, find_char, lemma_position, opt_view, position, slice_of, string_of,
};
use vstd::prelude::*;
use vstd::std_specs::convert::FromSpecImpl;
use vstd::string::StrSliceExecFns;
use vstd::utf8::encode_utf8;

verus! {

/// A value that a handler returns as JSON.
#[derive(Debug, Clone)]
pub struct Json<T>(pub T);

impl<T> Json<T> {
    /// Wraps `value`.
    pub fn new(value: T) -> (j: Self)
        ensures
            j.0 == value,
    {
        Json(value)
    }
}

impl<T> From<T> for Json<T> {
    fn from(value: T) -> (r: Self) {
        Json(value)
    }
}

impl<T> FromSpecImpl<T> for Json<T> {
    open spec fn obeys_from_spec() -> bool {
        true
    }

    open spec fn from_spec(value: T) -> Self {
        Json(value)
    }
}

/// A response: status code, content type and body.
#[derive(Debug)]
pub struct HttpResponse {
    /// HTTP status code.
    pub status: u16,
    /// Content type header value.
    pub content_type: &'static str,
    /// Response body bytes.
    pub body: Vec<u8>,
}

/// An [`HttpResponse`] as plain values.
pub struct ResponseView {
    pub status: u16,
    pub content_type: Seq<char>,
    pub body: Seq<u8>,
}

impl View for HttpResponse {
    type V = ResponseView;

    open spec fn view(&self) -> ResponseView {
        ResponseView { status: self.status, content_type: self.content_type@, body: self.body@ }
    }
}

/// The plain-text response with this status and body text.
pub open spec fn text_response(status: u16, body: Seq<char>) -> ResponseView {
    ResponseView { status, content_type: "text/plain"@, body: encode_utf8(body) }
}

/// The JSON response with this status and body.
pub open spec fn json_response(status: u16, body: Seq<u8>) -> ResponseView {
    ResponseView { status, content_type: "application/json"@, body }
}

impl HttpResponse {
    /// A plain-text response without a body.
    pub fn empty(status: u16) -> (r: Self)
        ensures
            r@ == (ResponseView {
                status,
                content_type: "text/plain"@,
                body: Seq::<u8>::empty(),
            }),
    {
        HttpResponse { status, content_type: "text/plain", body: Vec::new() }
    }

    /// A plain-text response whose body is `body` in UTF-8.
    pub fn text(status: u16, body: &str) -> (r: Self)
        ensures
            r@ == text_response(status, body@),
    {
        HttpResponse { status, content_type: "text/plain", body: body.as_bytes_vec() }
    }

    /// A JSON response with the given body.
    pub fn json(status: u16, body: Vec<u8>) -> (r: Self)
        ensures
            r@ == json_response(status, body@),
    {
        HttpResponse { status, content_type: "application/json", body }
    }
}

/// What answers requests: a controller with its routes, or anything else
/// that can turn a method, a request target and a body into a response.
pub trait HttpHandler {
    /// Handles one request.
    fn handle(&self, method: &str, path: &str, body: &[u8]) -> Result<HttpResponse, EmberError>;
}

/// A request target split at its first `?`: the path, and the query string
/// if there is one.
pub open spec fn split_target(target: Seq<char>) -> (Seq<char>, Option<Seq<char>>) {
    let at = position(target, '?');
    if at < target.len() {
        (target.take(at), Some(target.skip(at + 1)))
    } else {
        (target, None)
    }
}

/// A request as the dispatcher sees it.
#[derive(Debug)]
pub struct HttpRequest {
    pub method: String,
    /// The request target without its query string.
    pub path: String,
    pub query: Option<String>,
    pub body: Vec<u8>,
}

/// Splits a request target at its first `?`; see [`split_target`].
pub fn split_query(target: &str) -> (r: (String, Option<String>))
    ensures
        r.0@ == split_target(target@).0,
        opt_view(r.1) == split_target(target@).1,
{
    let t = chars_of(target);
    let at = find_char(&t, '?');
    proof {
        lemma_position(t@, '?');
    }
    if at < t.len() {
        let path = string_of(&slice_of(&t, 0, at));
        let query = string_of(&slice_of(&t, at + 1, t.len()));
        (path, Some(query))
    } else {
        (target.to_owned(), None)
    }
}

impl HttpRequest {
    /// The request with this method, target and body; the target is split
    /// into path and query string at its first `?`.
    pub fn new(method: &str, target: &str, body: Vec<u8>) -> (r: Self)
        ensures
            r.method@ == method@,
            r.path@ == split_target(target@).0,
            opt_view(r.query) == split_target(target@).1,
            r.body@ == body@,
    {
        let (path, query) = split_query(target);
        HttpRequest { method: method.to_owned(), path, query, body }
    }
}

/// A registered route: a method and a path template.
#[derive(Debug)]
pub struct Route {
    /// HTTP method.
    pub method: String,
    /// Route path.
    pub path: String,
}

impl View for Route {
    type V = (Seq<char>, Seq<char>);

    open spec fn view(&self) -> (Seq<char>, Seq<char>) {
        (self.method@, self.path@)
    }
}

/// An append-only registry of routes.
#[derive(Debug)]
pub struct Router {
    routes: Vec<Route>,
}

impl View for Router {
    type V = Seq<(Seq<char>, Seq<char>)>;

    /// The registered routes, oldest first.
    closed spec fn view(&self) -> Seq<(Seq<char>, Seq<char>)> {
        Seq::new(self.routes@.len(), |i: int| self.routes@[i]@)
    }
}

impl Router {
    /// A registry without routes.
    pub fn new() -> (r: Self)
        ensures
            r@ == Seq::<(Seq<char>, Seq<char>)>::empty(),
    {
        let r = Router { routes: Vec::new() };
        assert(r@ =~= Seq::<(Seq<char>, Seq<char>)>::empty());
        r
    }

    /// Registers a route after those already there.
    pub fn register(&mut self, method: &str, path: &str)
        ensures
            final(self)@ == old(self)@.push((method@, path@)),
    {
        self.routes.push(Route { method: method.to_owned(), path: path.to_owned() });
        assert(self@ =~= old(self)@.push((method@, path@)));
    }

    /// The registered routes, oldest first.
    pub fn routes(&self) -> (r: &Vec<Route>)
        ensures
            r@.len() == self@.len(),
            forall|i: int| 0 <= i < r@.len() ==> (#[trigger] r@[i])@ == self@[i],
    {
        &self.routes
    }

    /// The number of registered routes.
    pub fn len(&self) -> (n: usize)
        ensures
            n == self@.len(),
    {
        self.routes.len()
    }
}

} // verus!
