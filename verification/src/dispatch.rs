//! The request dispatcher: finds the first route that a request matches,
//! binds the handler's arguments, and wraps what the handler returns.

use crate::binder::{
    bind_args, bound_each, bound_value, bound_values, value_views, ArgValue, ArgValueView,
};
use crate::error::{EmberError, ErrorKind, ErrorView};
use crate::http::{
    json_response, split_query, split_target, text_response, HttpHandler, HttpResponse,
    ResponseView,
};
use crate::json::{encode_json, json_encoded};
use crate::pattern::{param_value, parts_match, Verb};
use crate::routes::{route_views, ArgSource, BindingView, RouteDescriptor, RouteView};
use crate::text::{ends_with, starts_with};
use vstd::prelude::*;

verus! {

/// Whether a request with this method and path matches the route.
pub open spec fn accepts(route: RouteView, method: Seq<char>, path: Seq<char>) -> bool {
    method == route.verb.name() && parts_match(route.parts, path)
}

/// Whether the `i`-th route is the first that the request matches.
pub open spec fn is_first_match(
    routes: Seq<RouteView>,
    method: Seq<char>,
    path: Seq<char>,
    i: int,
) -> bool {
    &&& 0 <= i < routes.len()
    &&& accepts(routes[i], method, path)
    &&& forall|j: int| 0 <= j < i ==> !accepts(#[trigger] routes[j], method, path)
}

/// The index of the first route that the request matches.
pub open spec fn route_index(routes: Seq<RouteView>, method: Seq<char>, path: Seq<char>) -> Option<
    int,
> {
    if exists|i: int| is_first_match(routes, method, path, i) {
        Some(choose|i: int| is_first_match(routes, method, path, i))
    } else {
        None
    }
}

/// There is at most one first match.
pub proof fn lemma_first_match_unique(
    routes: Seq<RouteView>,
    method: Seq<char>,
    path: Seq<char>,
    i: int,
)
    requires
        is_first_match(routes, method, path, i),
    ensures
        route_index(routes, method, path) == Some(i),
{
    let k = choose|k: int| is_first_match(routes, method, path, k);
    if k < i {
        assert(!accepts(routes[k], method, path));
    } else if i < k {
        assert(!accepts(routes[i], method, path));
    }
}

/// The first match wins: where the request matches a route, it is routed
/// to that route or to a matching route before it.
pub proof fn lemma_first_match_wins(
    routes: Seq<RouteView>,
    method: Seq<char>,
    path: Seq<char>,
    i: int,
)
    requires
        0 <= i < routes.len(),
        accepts(routes[i], method, path),
    ensures
        route_index(routes, method, path) matches Some(j) && 0 <= j <= i && accepts(
            routes[j],
            method,
            path,
        ),
    decreases i,
{
    if forall|j: int| 0 <= j < i ==> !accepts(#[trigger] routes[j], method, path) {
        lemma_first_match_unique(routes, method, path, i);
    } else {
        let j = choose|j: int| 0 <= j < i && accepts(#[trigger] routes[j], method, path);
        lemma_first_match_wins(routes, method, path, j);
    }
}

/// The text that the request path binds to the route's parameter: empty
/// for an exact pattern.
pub open spec fn bound_param(route: RouteView, path: Seq<char>) -> Seq<char> {
    if route.parts.param is Some {
        param_value(route.parts, path)
    } else {
        Seq::empty()
    }
}

/// Finds the first route that the request matches, and the text bound to
/// its parameter.
pub fn find_route(routes: &Vec<RouteDescriptor>, method: &str, path: &str) -> (r: Option<
    (usize, String),
>)
    ensures
        match r {
            Some((i, value)) => route_index(route_views(routes@), method@, path@) == Some(
                i as int,
            ) && i < routes@.len() && value@ == bound_param(routes@[i as int]@, path@),
            None => route_index(route_views(routes@), method@, path@) is None,
        },
{
    let ghost rs = route_views(routes@);
    let mut i: usize = 0;
    while i < routes.len()
        invariant
            i <= routes@.len(),
            rs == route_views(routes@),
            forall|j: int| 0 <= j < i ==> !accepts(#[trigger] rs[j], method@, path@),
        decreases routes@.len() - i,
    {
        let route = &routes[i];
        assert(rs[i as int] == route@);
        if route.pattern.verb.is_method(method) {
            match route.pattern.match_path(path) {
                Some(value) => {
                    proof {
                        lemma_first_match_unique(rs, method@, path@, i as int);
                    }
                    return Some((i, value));
                },
                None => {},
            }
        }
        i += 1;
    }
    assert(!exists|k: int| is_first_match(rs, method@, path@, k));
    None
}

/// What the dispatcher decides before any handler runs.
#[derive(Debug)]
pub enum Plan {
    /// No route matches: the answer is 404.
    NotFound,
    /// A route matches but an argument cannot be bound: a binding error.
    Reject(EmberError),
    /// The handler of route `route` is to be called with `args`.
    Invoke { route: usize, args: Vec<ArgValue> },
}

/// A [`Plan`] as plain values.
pub enum PlanView {
    NotFound,
    Reject(Seq<char>),
    Invoke { route: int, args: Seq<ArgValueView> },
}

impl View for Plan {
    type V = PlanView;

    open spec fn view(&self) -> PlanView {
        match self {
            Plan::NotFound => PlanView::NotFound,
            Plan::Reject(e) => PlanView::Reject(e@),
            Plan::Invoke { route, args } => PlanView::Invoke {
                route: *route as int,
                args: value_views(args@),
            },
        }
    }
}

/// The plan for a request: the target is split at its first `?`; the first
/// route that matches method and path is taken; its arguments are bound in
/// declaration order.
pub open spec fn plan_for(
    routes: Seq<RouteView>,
    method: Seq<char>,
    target: Seq<char>,
    body: Seq<u8>,
) -> PlanView {
    let (path, query) = split_target(target);
    match route_index(routes, method, path) {
        None => PlanView::NotFound,
        Some(i) => match bound_values(
            routes[i].bindings,
            bound_param(routes[i], path),
            query,
            body,
        ) {
            Ok(args) => PlanView::Invoke { route: i, args },
            Err(message) => PlanView::Reject(message),
        },
    }
}

/// Decides what to do with a request; see [`plan_for`].
pub fn plan(routes: &Vec<RouteDescriptor>, method: &str, target: &str, body: &[u8]) -> (p: Plan)
    ensures
        p@ == plan_for(route_views(routes@), method@, target@, body@),
        p matches Plan::Invoke { route, .. } ==> route < routes@.len(),
        p matches Plan::Reject(e) ==> e.kind() == ErrorKind::Binding,
{
    let (path, query) = split_query(target);
    let query: Option<&str> = match &query {
        Some(q) => Some(q.as_str()),
        None => None,
    };
    match find_route(routes, method, path.as_str()) {
        None => Plan::NotFound,
        Some((i, value)) => {
            assert(route_views(routes@)[i as int] == routes@[i as int]@);
            match bind_args(&routes[i].bindings, value.as_str(), query, body) {
                Ok(args) => Plan::Invoke { route: i, args },
                Err(e) => Plan::Reject(e),
            }
        },
    }
}

/// The status of a successful answer: 201 under POST, else 200.
pub open spec fn success_status(verb: Verb) -> u16 {
    if verb == Verb::Post {
        201
    } else {
        200
    }
}

/// The status of a successful answer: 201 under POST, else 200.
pub fn status_for(verb: Verb) -> (s: u16)
    ensures
        s == success_status(verb),
{
    match verb {
        Verb::Post => 201,
        _ => 200,
    }
}

/// The result of a request as plain values.
pub open spec fn result_view(r: Result<HttpResponse, EmberError>) -> Result<
    ResponseView,
    ErrorView,
> {
    match r {
        Ok(response) => Ok(response@),
        Err(e) => Err(e.classed()),
    }
}

/// What a handler returned, as plain values.
pub open spec fn outcome_view(r: Result<serde_json::Value, EmberError>) -> Result<
    serde_json::Value,
    ErrorView,
> {
    match r {
        Ok(doc) => Ok(doc),
        Err(e) => Err(e.classed()),
    }
}

/// The result of a request whose handler returned `outcome`: the document
/// printed as the body of a JSON response with the verb's status. A
/// handler's error is the request's error, and the printer's failure is a
/// failure of the request.
pub open spec fn completed(verb: Verb, outcome: Result<serde_json::Value, ErrorView>) -> Result<
    ResponseView,
    ErrorView,
> {
    match outcome {
        Err(error) => Err(error),
        Ok(doc) => match json_encoded(doc) {
            Ok(bytes) => Ok(json_response(success_status(verb), bytes)),
            Err(text) => Err(
                ErrorView { kind: ErrorKind::Failure, message: "encode failed: "@ + text },
            ),
        },
    }
}

/// Wraps what a handler returned; see [`completed`].
pub fn complete(verb: Verb, outcome: Result<serde_json::Value, EmberError>) -> (r: Result<
    HttpResponse,
    EmberError,
>)
    ensures
        result_view(r) == completed(verb, outcome_view(outcome)),
{
    match outcome {
        Err(e) => Err(e),
        Ok(doc) => match encode_json(&doc) {
            Ok(bytes) => Ok(HttpResponse::json(status_for(verb), bytes)),
            Err(text) => Err(EmberError::with_detail("encode failed: ", text.as_str())),
        },
    }
}

/// The answer to a request that no route matches.
pub open spec fn not_found() -> ResponseView {
    text_response(404, "not found"@)
}

/// The handlers of a controller, called by name.
pub trait Endpoints {
    /// Calls the handler `handler` with its bound arguments, in
    /// declaration order.
    fn invoke(&self, handler: &str, args: Vec<ArgValue>) -> Result<serde_json::Value, EmberError>;
}

/// A route table together with the handlers it dispatches to.
pub struct Dispatcher<E: Endpoints> {
    pub routes: Vec<RouteDescriptor>,
    pub endpoints: E,
}

impl<E: Endpoints> Dispatcher<E> {
    /// A dispatcher over `routes` that calls `endpoints`.
    pub fn new(routes: Vec<RouteDescriptor>, endpoints: E) -> (d: Self)
        ensures
            d.routes == routes,
            d.endpoints == endpoints,
    {
        Dispatcher { routes, endpoints }
    }
}

impl<E: Endpoints> HttpHandler for Dispatcher<E> {
    /// Dispatches one request. Without a matching route the answer is 404
    /// with the body `not found`. Where an argument cannot be bound the
    /// request fails with a binding error, and no handler runs. Else the
    /// handler of the first
    /// matching route is called once, and whatever it returns is wrapped
    /// as [`completed`] says.
    fn handle(&self, method: &str, path: &str, body: &[u8]) -> (r: Result<
        HttpResponse,
        EmberError,
    >)
        ensures
            match plan_for(route_views(self.routes@), method@, path@, body@) {
                PlanView::NotFound => result_view(r) == Ok::<ResponseView, ErrorView>(
                    not_found(),
                ),
                PlanView::Reject(message) => result_view(r) == Err::<ResponseView, ErrorView>(
                    ErrorView { kind: ErrorKind::Binding, message },
                ),
                PlanView::Invoke { route, args } => exists|
                    outcome: Result<serde_json::Value, ErrorView>,
                |
                    result_view(r) == completed(route_views(self.routes@)[route].verb, outcome),
            },
    {
        match plan(&self.routes, method, path, body) {
            Plan::NotFound => Ok(HttpResponse::text(404, "not found")),
            Plan::Reject(e) => Err(e),
            Plan::Invoke { route, args } => {
                let descriptor = &self.routes[route];
                let outcome = self.endpoints.invoke(descriptor.handler.as_str(), args);
                let r = complete(descriptor.pattern.verb, outcome);
                assert(route_views(self.routes@)[route as int] == descriptor@);
                assert(result_view(r) == completed(
                    route_views(self.routes@)[route as int].verb,
                    outcome_view(outcome),
                ));
                r
            },
        }
    }
}

/// Binding reads the body only for an argument that comes from the body.
pub proof fn lemma_body_unread(
    bindings: Seq<BindingView>,
    param: Seq<char>,
    query: Option<Seq<char>>,
    body: Seq<u8>,
    other: Seq<u8>,
)
    requires
        forall|i: int|
            0 <= i < bindings.len() ==> (#[trigger] bindings[i]).source != ArgSource::JsonBody,
    ensures
        bound_values(bindings, param, query, body) == bound_values(bindings, param, query, other),
{
    assert(bound_each(bindings, param, query, body) =~= bound_each(
        bindings,
        param,
        query,
        other,
    )) by {
        assert forall|i: int| 0 <= i < bindings.len() implies bound_value(
            bindings[i],
            param,
            query,
            body,
        ) == bound_value(bindings[i], param, query, other) by {
            assert(bindings[i].source != ArgSource::JsonBody);
        }
    }
}

/// A route whose handler declares no body argument is dispatched the same
/// whatever the body holds, an empty body included: the plan is the plan
/// for the empty body.
pub proof fn lemma_dispatch_without_body_argument(
    routes: Seq<RouteView>,
    method: Seq<char>,
    target: Seq<char>,
    body: Seq<u8>,
)
    requires
        route_index(routes, method, split_target(target).0) matches Some(i) && forall|k: int|
            0 <= k < routes[i].bindings.len() ==> (#[trigger] routes[i].bindings[k]).source
                != ArgSource::JsonBody,
    ensures
        plan_for(routes, method, target, body) == plan_for(
            routes,
            method,
            target,
            Seq::<u8>::empty(),
        ),
{
    let (path, query) = split_target(target);
    let i = route_index(routes, method, path)->0;
    lemma_body_unread(
        routes[i].bindings,
        bound_param(routes[i], path),
        query,
        body,
        Seq::<u8>::empty(),
    );
}

/// A document that is echoed comes back as the printer prints it, in a
/// JSON response with the verb's status.
pub proof fn lemma_echo_is_json(verb: Verb, doc: serde_json::Value, bytes: Seq<u8>)
    ensures
        json_encoded(doc) == Ok::<Seq<u8>, Seq<char>>(bytes) ==> completed(verb, Ok(doc)) == Ok::<
            ResponseView,
            ErrorView,
        >(
            ResponseView {
                status: success_status(verb),
                content_type: "application/json"@,
                body: bytes,
            },
        ),
{
}

/// A handler without arguments is always invoked once its route matches.
pub proof fn lemma_no_arguments_always_bind(
    param: Seq<char>,
    query: Option<Seq<char>>,
    body: Seq<u8>,
)
    ensures
        bound_values(Seq::<BindingView>::empty(), param, query, body) == Ok::<
            Seq<ArgValueView>,
            Seq<char>,
        >(Seq::<ArgValueView>::empty()),
{
    let each = bound_each(Seq::<BindingView>::empty(), param, query, body);
    crate::outcome::lemma_all_ok(each);
    assert(Seq::new(each.len(), |i: int| each[i]->Ok_0) =~= Seq::<ArgValueView>::empty());
}

/// A request that no route matches is answered 404.
pub proof fn lemma_unmatched_is_not_found(
    routes: Seq<RouteView>,
    method: Seq<char>,
    target: Seq<char>,
    body: Seq<u8>,
)
    requires
        forall|i: int|
            0 <= i < routes.len() ==> !accepts(
                #[trigger] routes[i],
                method,
                split_target(target).0,
            ),
    ensures
        plan_for(routes, method, target, body) == PlanView::NotFound,
{
}

/// With a single route whose template has no placeholder, a request of the
/// route's method is routed if and only if its path equals the template.
pub proof fn lemma_exact_route(route: RouteView, path: Seq<char>)
    requires
        route.parts.param is None,
    ensures
        route_index(seq![route], route.verb.name(), path) is Some <==> path
            == route.parts.prefix,
{
    let routes = seq![route];
    if path == route.parts.prefix {
        assert(is_first_match(routes, route.verb.name(), path, 0));
    }
}

/// With a single route whose template has a placeholder between prefix
/// `a` and suffix `b`, the path `a + x + b` is routed and binds `x`.
pub proof fn lemma_placeholder_route(route: RouteView, x: Seq<char>)
    requires
        route.parts.param is Some,
    ensures
        route_index(
            seq![route],
            route.verb.name(),
            route.parts.prefix + x + route.parts.suffix,
        ) == Some(0int),
        bound_param(route, route.parts.prefix + x + route.parts.suffix) == x,
{
    let path = route.parts.prefix + x + route.parts.suffix;
    crate::pattern::lemma_placeholder_binds(route.parts, x);
    assert(is_first_match(seq![route], route.verb.name(), path, 0));
    lemma_first_match_unique(seq![route], route.verb.name(), path, 0);
}

/// With a single route whose template has a placeholder, a request whose
/// path lacks the prefix, or lacks a suffix that is not empty, is answered
/// 404.
pub proof fn lemma_placeholder_miss_is_not_found(
    route: RouteView,
    method: Seq<char>,
    target: Seq<char>,
    body: Seq<u8>,
)
    requires
        route.parts.param is Some,
        !starts_with(split_target(target).0, route.parts.prefix) || (route.parts.suffix.len() > 0
            && !ends_with(split_target(target).0, route.parts.suffix)),
    ensures
        plan_for(seq![route], method, target, body) == PlanView::NotFound,
{
    lemma_unmatched_is_not_found(seq![route], method, target, body);
}

} // verus!
