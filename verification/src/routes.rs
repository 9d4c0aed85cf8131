//! The route table: for each annotated handler, its verb, its path pattern
//! and where each of its arguments comes from.

use crate::outcome::{
    all_or_first_err, lemma_all_ok, lemma_first_err_decides, lemma_ok_means_all_ok,
};
use crate::pattern::{template_parts, verb_of, RoutePattern, TemplateParts, Verb};
use crate::text::{opt_view, str_eq};
use vstd::prelude::*;

verus! {

/// The type a handler declares for an argument.
#[derive(Debug, Clone, Copy, PartialEq, Eq, Structural)]
pub enum ArgType {
    /// A string, taken as it stands.
    Text,
    /// `true` or `false`.
    Bool,
    I8,
    I16,
    I32,
    I64,
    U8,
    U16,
    U32,
    U64,
}

/// Where the value of a handler argument comes from.
#[derive(Debug, Clone, Copy, PartialEq, Eq, Structural)]
pub enum ArgSource {
    /// The text the request path binds to the pattern's parameter.
    PathParam,
    /// The query-string pair of the argument's name.
    QueryParam,
    /// The request body, read as one JSON document.
    JsonBody,
}

/// Why a route table cannot be built.
#[derive(Debug, Clone, Copy, PartialEq, Eq, Structural)]
pub enum BuildError {
    /// A route's path template is empty.
    EmptyPath,
    /// A handler asks for a second argument from the request body.
    MultipleBodyArguments,
    /// A handler argument is neither the path parameter nor, under the
    /// route's verb, a query or body argument.
    UnboundArgument,
}

impl BuildError {
    /// The text of the error.
    pub open spec fn text(self) -> Seq<char> {
        match self {
            BuildError::EmptyPath => "route path must not be empty"@,
            BuildError::MultipleBodyArguments => "only one body parameter supported"@,
            BuildError::UnboundArgument => "argument has no source under this verb"@,
        }
    }

    /// The text of the error.
    pub fn message(&self) -> (s: &'static str)
        ensures
            s@ == self.text(),
    {
        match self {
            BuildError::EmptyPath => "route path must not be empty",
            BuildError::MultipleBodyArguments => "only one body parameter supported",
            BuildError::UnboundArgument => "argument has no source under this verb",
        }
    }
}

/// A handler argument as declared: its name and its type.
#[derive(Debug)]
pub struct ArgSpec {
    pub name: String,
    pub ty: ArgType,
}

/// An [`ArgSpec`] as plain values.
pub struct ArgSpecView {
    pub name: Seq<char>,
    pub ty: ArgType,
}

impl View for ArgSpec {
    type V = ArgSpecView;

    open spec fn view(&self) -> ArgSpecView {
        ArgSpecView { name: self.name@, ty: self.ty }
    }
}

impl ArgSpec {
    /// The argument `name` of type `ty`.
    pub fn new(name: &str, ty: ArgType) -> (a: ArgSpec)
        ensures
            a@ == (ArgSpecView { name: name@, ty }),
    {
        ArgSpec { name: name.to_owned(), ty }
    }
}

/// The declared arguments of a handler, as plain values.
pub open spec fn arg_views(args: Seq<ArgSpec>) -> Seq<ArgSpecView> {
    Seq::new(args.len(), |i: int| args[i]@)
}

/// A handler argument with the source its value is taken from.
#[derive(Debug)]
pub struct ArgumentBinding {
    pub name: String,
    pub ty: ArgType,
    pub source: ArgSource,
}

/// An [`ArgumentBinding`] as plain values.
pub struct BindingView {
    pub name: Seq<char>,
    pub ty: ArgType,
    pub source: ArgSource,
}

impl View for ArgumentBinding {
    type V = BindingView;

    open spec fn view(&self) -> BindingView {
        BindingView { name: self.name@, ty: self.ty, source: self.source }
    }
}

/// The bindings of a route, as plain values.
pub open spec fn binding_views(bindings: Seq<ArgumentBinding>) -> Seq<BindingView> {
    Seq::new(bindings.len(), |i: int| bindings[i]@)
}

/// The source of the argument `name` in a route with this verb and
/// parameter: the path where the names agree; else the query string under
/// GET and the body under POST, PUT and PATCH; under any other verb, none.
pub open spec fn source_for(verb: Verb, param: Option<Seq<char>>, name: Seq<char>) -> Option<
    ArgSource,
> {
    if param == Some(name) {
        Some(ArgSource::PathParam)
    } else if verb == Verb::Get {
        Some(ArgSource::QueryParam)
    } else if verb.carries_body() {
        Some(ArgSource::JsonBody)
    } else {
        None
    }
}

/// Whether an argument before the `i`-th is taken from the body.
pub open spec fn body_before(
    verb: Verb,
    param: Option<Seq<char>>,
    args: Seq<ArgSpecView>,
    i: int,
) -> bool {
    exists|j: int|
        0 <= j < i && #[trigger] source_for(verb, param, args[j].name) == Some(
            ArgSource::JsonBody,
        )
}

/// What is wrong with the `i`-th argument, if anything: it has no source,
/// or it is a second body argument.
pub open spec fn offence(
    verb: Verb,
    param: Option<Seq<char>>,
    args: Seq<ArgSpecView>,
    i: int,
) -> Option<BuildError> {
    match source_for(verb, param, args[i].name) {
        None => Some(BuildError::UnboundArgument),
        Some(ArgSource::JsonBody) => if body_before(verb, param, args, i) {
            Some(BuildError::MultipleBodyArguments)
        } else {
            None
        },
        Some(_) => None,
    }
}

/// The binding of the `i`-th argument, or what is wrong with it.
pub open spec fn binding_of(
    verb: Verb,
    param: Option<Seq<char>>,
    args: Seq<ArgSpecView>,
    i: int,
) -> Result<BindingView, BuildError> {
    match offence(verb, param, args, i) {
        Some(e) => Err(e),
        None => Ok(
            BindingView {
                name: args[i].name,
                ty: args[i].ty,
                source: source_for(verb, param, args[i].name)->0,
            },
        ),
    }
}

/// The binding of each argument, or what is wrong with it.
pub open spec fn bindings_each(verb: Verb, param: Option<Seq<char>>, args: Seq<ArgSpecView>) -> Seq<
    Result<BindingView, BuildError>,
> {
    Seq::new(args.len(), |i: int| binding_of(verb, param, args, i))
}

/// The bindings of a handler's arguments, in declaration order, or what is
/// wrong with the first argument that cannot be bound.
pub open spec fn bindings_for(verb: Verb, param: Option<Seq<char>>, args: Seq<ArgSpecView>) -> Result<
    Seq<BindingView>,
    BuildError,
> {
    all_or_first_err(bindings_each(verb, param, args))
}

/// The source of the argument `name`; see [`source_for`].
pub fn source_of(verb: Verb, param: &Option<String>, name: &str) -> (r: Option<ArgSource>)
    ensures
        r == source_for(verb, opt_view(*param), name@),
{
    let is_param = match param {
        Some(p) => str_eq(p.as_str(), name),
        None => false,
    };
    if is_param {
        Some(ArgSource::PathParam)
    } else if verb == Verb::Get {
        Some(ArgSource::QueryParam)
    } else if verb.has_body() {
        Some(ArgSource::JsonBody)
    } else {
        None
    }
}

/// Binds each declared argument to its source.
pub fn bind_sources(verb: Verb, param: &Option<String>, args: &Vec<ArgSpec>) -> (r: Result<
    Vec<ArgumentBinding>,
    BuildError,
>)
    ensures
        match r {
            Ok(bs) => bindings_for(verb, opt_view(*param), arg_views(args@)) == Ok::<
                Seq<BindingView>,
                BuildError,
            >(binding_views(bs@)),
            Err(e) => bindings_for(verb, opt_view(*param), arg_views(args@)) == Err::<
                Seq<BindingView>,
                BuildError,
            >(e),
        },
{
    let ghost p = opt_view(*param);
    let ghost a = arg_views(args@);
    let ghost each = bindings_each(verb, p, a);
    let mut out: Vec<ArgumentBinding> = Vec::new();
    let mut seen_body = false;
    let mut i: usize = 0;
    while i < args.len()
        invariant
            i <= args@.len(),
            p == opt_view(*param),
            a == arg_views(args@),
            each == bindings_each(verb, p, a),
            out@.len() == i,
            seen_body == body_before(verb, p, a, i as int),
            forall|j: int| 0 <= j < i ==> (#[trigger] each[j]) is Ok,
            forall|j: int| 0 <= j < i ==> (#[trigger] out@[j])@ == each[j]->Ok_0,
        decreases args@.len() - i,
    {
        let arg = &args[i];
        assert(a[i as int] == arg@);
        let source = match source_of(verb, param, arg.name.as_str()) {
            Some(s) => s,
            None => {
                proof {
                    lemma_first_err_decides(each, i as int);
                }
                return Err(BuildError::UnboundArgument);
            },
        };
        if source == ArgSource::JsonBody {
            if seen_body {
                proof {
                    lemma_first_err_decides(each, i as int);
                }
                return Err(BuildError::MultipleBodyArguments);
            }
            seen_body = true;
        }
        proof {
            if source != ArgSource::JsonBody {
                if body_before(verb, p, a, i + 1) {
                    let j = choose|j: int|
                        0 <= j < i + 1 && #[trigger] source_for(verb, p, a[j].name) == Some(
                            ArgSource::JsonBody,
                        );
                    assert(j < i);
                }
            } else {
                assert(source_for(verb, p, a[i as int].name) == Some(ArgSource::JsonBody));
            }
        }
        out.push(ArgumentBinding { name: arg.name.clone(), ty: arg.ty, source });
        i += 1;
    }
    proof {
        lemma_all_ok(each);
        assert(binding_views(out@) =~= Seq::new(each.len(), |k: int| each[k]->Ok_0));
    }
    Ok(out)
}

/// A handler with one recognised verb annotation: the material of one
/// route.
#[derive(Debug)]
pub struct HandlerRoute {
    pub verb: Verb,
    /// The path template of the annotation.
    pub path: String,
    /// The handler's name.
    pub handler: String,
    /// The handler's arguments, in declaration order.
    pub args: Vec<ArgSpec>,
}

/// A [`HandlerRoute`] as plain values.
pub struct HandlerRouteView {
    pub verb: Verb,
    pub path: Seq<char>,
    pub handler: Seq<char>,
    pub args: Seq<ArgSpecView>,
}

impl View for HandlerRoute {
    type V = HandlerRouteView;

    open spec fn view(&self) -> HandlerRouteView {
        HandlerRouteView {
            verb: self.verb,
            path: self.path@,
            handler: self.handler@,
            args: arg_views(self.args@),
        }
    }
}

/// The handlers of a table, as plain values.
pub open spec fn handler_views(handlers: Seq<HandlerRoute>) -> Seq<HandlerRouteView> {
    Seq::new(handlers.len(), |i: int| handlers[i]@)
}

/// A route: verb and path pattern, the handler that answers it, and the
/// source of each of the handler's arguments.
#[derive(Debug)]
pub struct RouteDescriptor {
    pub pattern: RoutePattern,
    pub bindings: Vec<ArgumentBinding>,
    /// The handler's name.
    pub handler: String,
}

/// A [`RouteDescriptor`] as plain values.
pub struct RouteView {
    pub verb: Verb,
    pub parts: TemplateParts,
    pub bindings: Seq<BindingView>,
    pub handler: Seq<char>,
}

impl View for RouteDescriptor {
    type V = RouteView;

    open spec fn view(&self) -> RouteView {
        RouteView {
            verb: self.pattern.verb,
            parts: self.pattern.parts(),
            bindings: binding_views(self.bindings@),
            handler: self.handler@,
        }
    }
}

/// The routes of a table, as plain values.
pub open spec fn route_views(routes: Seq<RouteDescriptor>) -> Seq<RouteView> {
    Seq::new(routes.len(), |i: int| routes[i]@)
}

/// The declared arguments that a route's bindings stand for.
pub open spec fn declared(bindings: Seq<BindingView>) -> Seq<ArgSpecView> {
    Seq::new(bindings.len(), |i: int| ArgSpecView { name: bindings[i].name, ty: bindings[i].ty })
}

impl RouteView {
    /// A route is well formed when an exact pattern has no suffix and each
    /// binding has the source that its verb and parameter assign to it,
    /// with at most one binding from the body.
    pub open spec fn wf(self) -> bool {
        &&& self.parts.param is None ==> self.parts.suffix.len() == 0
        &&& bindings_for(self.verb, self.parts.param, declared(self.bindings)) == Ok::<
            Seq<BindingView>,
            BuildError,
        >(self.bindings)
    }
}

/// The route of one handler: its path must not be empty, and each of its
/// arguments must have a source.
pub open spec fn route_for(h: HandlerRouteView) -> Result<RouteView, BuildError> {
    if h.path.len() == 0 {
        Err(BuildError::EmptyPath)
    } else {
        match bindings_for(h.verb, template_parts(h.path).param, h.args) {
            Ok(bindings) => Ok(
                RouteView {
                    verb: h.verb,
                    parts: template_parts(h.path),
                    bindings,
                    handler: h.handler,
                },
            ),
            Err(e) => Err(e),
        }
    }
}

/// The route of each handler of a list, or why it has none.
pub open spec fn routes_for(handlers: Seq<HandlerRouteView>) -> Seq<Result<RouteView, BuildError>> {
    Seq::new(handlers.len(), |i: int| route_for(handlers[i]))
}

/// The table of a list of handlers: one route each, in order, or the error
/// of the first handler whose route cannot be built.
pub open spec fn table_for(handlers: Seq<HandlerRouteView>) -> Result<Seq<RouteView>, BuildError> {
    all_or_first_err(routes_for(handlers))
}

/// Bindings that the builder assigned are the builder's answer for the
/// arguments they stand for.
pub proof fn lemma_bindings_are_stable(
    verb: Verb,
    param: Option<Seq<char>>,
    args: Seq<ArgSpecView>,
)
    requires
        bindings_for(verb, param, args) is Ok,
    ensures
        declared(bindings_for(verb, param, args)->Ok_0) == args,
        bindings_for(verb, param, declared(bindings_for(verb, param, args)->Ok_0))
            == bindings_for(verb, param, args),
{
    let each = bindings_each(verb, param, args);
    let bs = bindings_for(verb, param, args)->Ok_0;
    assert forall|i: int| 0 <= i < args.len() implies declared(bs)[i] == args[i] by {
        lemma_ok_means_all_ok(each, i);
    }
    if args.len() > 0 {
        lemma_ok_means_all_ok(each, 0);
    } else {
        lemma_all_ok(each);
    }
    assert(declared(bs) =~= args);
}

/// A route that the builder made is well formed.
pub proof fn lemma_built_route_wf(h: HandlerRouteView)
    requires
        route_for(h) is Ok,
    ensures
        route_for(h)->Ok_0.wf(),
{
    lemma_bindings_are_stable(h.verb, template_parts(h.path).param, h.args);
}

/// In a well-formed route at most one argument comes from the body, and
/// only under POST, PUT or PATCH.
pub proof fn lemma_one_body_binding(r: RouteView, i: int, j: int)
    requires
        r.wf(),
        0 <= i < r.bindings.len(),
        0 <= j < r.bindings.len(),
        r.bindings[i].source == ArgSource::JsonBody,
        r.bindings[j].source == ArgSource::JsonBody,
    ensures
        i == j,
        r.verb.carries_body(),
{
    let args = declared(r.bindings);
    let each = bindings_each(r.verb, r.parts.param, args);
    lemma_ok_means_all_ok(each, i);
    lemma_ok_means_all_ok(each, j);
    assert(source_for(r.verb, r.parts.param, args[i].name) == Some(ArgSource::JsonBody));
    assert(source_for(r.verb, r.parts.param, args[j].name) == Some(ArgSource::JsonBody));
    if i < j {
        assert(body_before(r.verb, r.parts.param, args, j));
    } else if j < i {
        assert(body_before(r.verb, r.parts.param, args, i));
    }
}

/// Builds the route of one handler.
pub fn build_route(h: &HandlerRoute) -> (r: Result<RouteDescriptor, BuildError>)
    ensures
        match r {
            Ok(route) => route_for(h@) == Ok::<RouteView, BuildError>(route@) && route@.wf(),
            Err(e) => route_for(h@) == Err::<RouteView, BuildError>(e),
        },
{
    if h.path.as_str().is_empty() {
        return Err(BuildError::EmptyPath);
    }
    let pattern = RoutePattern::parse(h.verb, h.path.as_str());
    match bind_sources(h.verb, &pattern.param, &h.args) {
        Ok(bindings) => {
            let route = RouteDescriptor { pattern, bindings, handler: h.handler.clone() };
            proof {
                lemma_built_route_wf(h@);
            }
            Ok(route)
        },
        Err(e) => Err(e),
    }
}

/// Builds the route table of a list of handlers, in order. The first
/// handler whose route cannot be built fails the whole table.
pub fn build_http_handler(handlers: &Vec<HandlerRoute>) -> (r: Result<
    Vec<RouteDescriptor>,
    BuildError,
>)
    ensures
        match r {
            Ok(table) => table_for(handler_views(handlers@)) == Ok::<Seq<RouteView>, BuildError>(
                route_views(table@),
            ) && forall|i: int| 0 <= i < table@.len() ==> (#[trigger] table@[i])@.wf(),
            Err(e) => table_for(handler_views(handlers@)) == Err::<Seq<RouteView>, BuildError>(e),
        },
{
    let ghost hs = handler_views(handlers@);
    let ghost each = routes_for(hs);
    let mut table: Vec<RouteDescriptor> = Vec::new();
    let mut i: usize = 0;
    while i < handlers.len()
        invariant
            i <= handlers@.len(),
            hs == handler_views(handlers@),
            each == routes_for(hs),
            table@.len() == i,
            forall|j: int| 0 <= j < i ==> (#[trigger] each[j]) is Ok,
            forall|j: int| 0 <= j < i ==> (#[trigger] table@[j])@ == each[j]->Ok_0,
            forall|j: int| 0 <= j < i ==> (#[trigger] table@[j])@.wf(),
        decreases handlers@.len() - i,
    {
        assert(hs[i as int] == handlers@[i as int]@);
        match build_route(&handlers[i]) {
            Ok(route) => {
                table.push(route);
            },
            Err(e) => {
                proof {
                    lemma_first_err_decides(each, i as int);
                }
                return Err(e);
            },
        }
        i += 1;
    }
    proof {
        lemma_all_ok(each);
        assert(route_views(table@) =~= Seq::new(each.len(), |k: int| each[k]->Ok_0));
    }
    Ok(table)
}

/// In a built table every handler has its route, and every route is well
/// formed: it has at most one body argument, and that only under POST,
/// PUT or PATCH.
pub proof fn lemma_built_table_wf(handlers: Seq<HandlerRouteView>, i: int)
    requires
        table_for(handlers) is Ok,
        0 <= i < handlers.len(),
    ensures
        table_for(handlers)->Ok_0.len() == handlers.len(),
        route_for(handlers[i]) == Ok::<RouteView, BuildError>(table_for(handlers)->Ok_0[i]),
        table_for(handlers)->Ok_0[i].wf(),
{
    lemma_ok_means_all_ok(routes_for(handlers), i);
    lemma_built_route_wf(handlers[i]);
}

/// A verb annotation on a handler: the annotation's word and the path
/// template it gives.
#[derive(Debug)]
pub struct Annotation {
    pub word: String,
    pub path: String,
}

/// An [`Annotation`] as plain values.
pub struct AnnotationView {
    pub word: Seq<char>,
    pub path: Seq<char>,
}

impl View for Annotation {
    type V = AnnotationView;

    open spec fn view(&self) -> AnnotationView {
        AnnotationView { word: self.word@, path: self.path@ }
    }
}

/// Checks the path of a route annotation: it must not be empty.
pub fn parse_route_attr(path: &str, word: &str) -> (r: Result<Annotation, BuildError>)
    ensures
        path@.len() == 0 ==> r == Err::<Annotation, BuildError>(BuildError::EmptyPath),
        path@.len() > 0 ==> r is Ok && r->Ok_0@ == (AnnotationView { word: word@, path: path@ }),
{
    if path.is_empty() {
        Err(BuildError::EmptyPath)
    } else {
        Ok(Annotation { word: word.to_owned(), path: path.to_owned() })
    }
}

/// The annotation of a GET handler at `path`.
pub fn get(path: &str) -> (r: Result<Annotation, BuildError>)
    ensures
        path@.len() == 0 ==> r == Err::<Annotation, BuildError>(BuildError::EmptyPath),
        path@.len() > 0 ==> r is Ok && r->Ok_0@ == (AnnotationView {
            word: Verb::Get.annotation(),
            path: path@,
        }),
{
    parse_route_attr(path, "get")
}

/// The annotation of a POST handler at `path`.
pub fn post(path: &str) -> (r: Result<Annotation, BuildError>)
    ensures
        path@.len() == 0 ==> r == Err::<Annotation, BuildError>(BuildError::EmptyPath),
        path@.len() > 0 ==> r is Ok && r->Ok_0@ == (AnnotationView {
            word: Verb::Post.annotation(),
            path: path@,
        }),
{
    parse_route_attr(path, "post")
}

/// The annotation of a PUT handler at `path`.
pub fn put(path: &str) -> (r: Result<Annotation, BuildError>)
    ensures
        path@.len() == 0 ==> r == Err::<Annotation, BuildError>(BuildError::EmptyPath),
        path@.len() > 0 ==> r is Ok && r->Ok_0@ == (AnnotationView {
            word: Verb::Put.annotation(),
            path: path@,
        }),
{
    parse_route_attr(path, "put")
}

/// The annotation of a PATCH handler at `path`.
pub fn patch(path: &str) -> (r: Result<Annotation, BuildError>)
    ensures
        path@.len() == 0 ==> r == Err::<Annotation, BuildError>(BuildError::EmptyPath),
        path@.len() > 0 ==> r is Ok && r->Ok_0@ == (AnnotationView {
            word: Verb::Patch.annotation(),
            path: path@,
        }),
{
    parse_route_attr(path, "patch")
}

/// The annotation of a DELETE handler at `path`.
pub fn delete(path: &str) -> (r: Result<Annotation, BuildError>)
    ensures
        path@.len() == 0 ==> r == Err::<Annotation, BuildError>(BuildError::EmptyPath),
        path@.len() > 0 ==> r is Ok && r->Ok_0@ == (AnnotationView {
            word: Verb::Delete.annotation(),
            path: path@,
        }),
{
    parse_route_attr(path, "delete")
}

/// The annotation of a HEAD handler at `path`.
pub fn head(path: &str) -> (r: Result<Annotation, BuildError>)
    ensures
        path@.len() == 0 ==> r == Err::<Annotation, BuildError>(BuildError::EmptyPath),
        path@.len() > 0 ==> r is Ok && r->Ok_0@ == (AnnotationView {
            word: Verb::Head.annotation(),
            path: path@,
        }),
{
    parse_route_attr(path, "head")
}

/// The annotation of an OPTIONS handler at `path`.
pub fn options(path: &str) -> (r: Result<Annotation, BuildError>)
    ensures
        path@.len() == 0 ==> r == Err::<Annotation, BuildError>(BuildError::EmptyPath),
        path@.len() > 0 ==> r is Ok && r->Ok_0@ == (AnnotationView {
            word: Verb::Options.annotation(),
            path: path@,
        }),
{
    parse_route_attr(path, "options")
}

/// A method of a controller: its name, its annotations and its arguments.
#[derive(Debug)]
pub struct HandlerMethod {
    pub name: String,
    pub annotations: Vec<Annotation>,
    pub args: Vec<ArgSpec>,
}

/// A [`HandlerMethod`] as plain values.
pub struct HandlerMethodView {
    pub name: Seq<char>,
    pub annotations: Seq<AnnotationView>,
    pub args: Seq<ArgSpecView>,
}

impl View for HandlerMethod {
    type V = HandlerMethodView;

    open spec fn view(&self) -> HandlerMethodView {
        HandlerMethodView {
            name: self.name@,
            annotations: Seq::new(self.annotations@.len(), |i: int| self.annotations@[i]@),
            args: arg_views(self.args@),
        }
    }
}

/// The methods of a controller, as plain values.
pub open spec fn method_views(methods: Seq<HandlerMethod>) -> Seq<HandlerMethodView> {
    Seq::new(methods.len(), |i: int| methods[i]@)
}

/// The handlers that the first `k` annotations of a method declare: one
/// for each annotation whose word names a verb, in order.
pub open spec fn declared_by(m: HandlerMethodView, k: int) -> Seq<HandlerRouteView>
    decreases k,
{
    if k <= 0 {
        Seq::empty()
    } else {
        let before = declared_by(m, k - 1);
        match verb_of(m.annotations[k - 1].word) {
            Some(verb) => before.push(
                HandlerRouteView {
                    verb,
                    path: m.annotations[k - 1].path,
                    handler: m.name,
                    args: m.args,
                },
            ),
            None => before,
        }
    }
}

/// The handlers that the first `n` methods declare, method by method.
pub open spec fn collected(methods: Seq<HandlerMethodView>, n: int) -> Seq<HandlerRouteView>
    decreases n,
{
    if n <= 0 {
        Seq::empty()
    } else {
        collected(methods, n - 1) + declared_by(
            methods[n - 1],
            methods[n - 1].annotations.len() as int,
        )
    }
}

/// A copy of a handler's declared arguments.
pub fn copy_args(args: &Vec<ArgSpec>) -> (out: Vec<ArgSpec>)
    ensures
        arg_views(out@) == arg_views(args@),
{
    let mut out: Vec<ArgSpec> = Vec::new();
    let mut i: usize = 0;
    while i < args.len()
        invariant
            i <= args@.len(),
            out@.len() == i,
            forall|j: int| 0 <= j < i ==> (#[trigger] out@[j])@ == args@[j]@,
        decreases args@.len() - i,
    {
        out.push(ArgSpec { name: args[i].name.clone(), ty: args[i].ty });
        i += 1;
    }
    assert(arg_views(out@) =~= arg_views(args@));
    out
}

/// The handlers that a controller's methods declare: for every method, in
/// order, one for each of its annotations that names a verb.
pub fn collect_handlers(methods: &Vec<HandlerMethod>) -> (out: Vec<HandlerRoute>)
    ensures
        handler_views(out@) == collected(method_views(methods@), methods@.len() as int),
{
    let ghost ms = method_views(methods@);
    let mut out: Vec<HandlerRoute> = Vec::new();
    let mut i: usize = 0;
    assert(handler_views(out@) =~= collected(ms, 0));
    while i < methods.len()
        invariant
            i <= methods@.len(),
            ms == method_views(methods@),
            handler_views(out@) == collected(ms, i as int),
        decreases methods@.len() - i,
    {
        let method = &methods[i];
        let ghost m = ms[i as int];
        let ghost base = handler_views(out@);
        assert(m == method@);
        let mut k: usize = 0;
        assert(handler_views(out@) =~= base + declared_by(m, 0));
        while k < method.annotations.len()
            invariant
                k <= method.annotations@.len(),
                m == method@,
                handler_views(out@) == base + declared_by(m, k as int),
            decreases method.annotations@.len() - k,
        {
            let note = &method.annotations[k];
            assert(m.annotations[k as int] == note@);
            let ghost before = handler_views(out@);
            match Verb::from_annotation(note.word.as_str()) {
                Some(verb) => {
                    let h = HandlerRoute {
                        verb,
                        path: note.path.clone(),
                        handler: method.name.clone(),
                        args: copy_args(&method.args),
                    };
                    out.push(h);
                    assert(handler_views(out@) =~= before.push(h@));
                    assert(before.push(h@) =~= base + declared_by(m, k + 1));
                },
                None => {},
            }
            k += 1;
        }
        i += 1;
    }
    out
}

/// Builds the route table of a controller from its methods. A method
/// contributes one route for each of its annotations that names a verb;
/// other annotations are passed over. The table fails on the first route
/// with an empty path or with an argument that cannot be bound.
pub fn controller(methods: &Vec<HandlerMethod>) -> (r: Result<Vec<RouteDescriptor>, BuildError>)
    ensures
        match r {
            Ok(table) => table_for(collected(method_views(methods@), methods@.len() as int))
                == Ok::<Seq<RouteView>, BuildError>(route_views(table@)) && forall|i: int|
                0 <= i < table@.len() ==> (#[trigger] table@[i])@.wf(),
            Err(e) => table_for(collected(method_views(methods@), methods@.len() as int))
                == Err::<Seq<RouteView>, BuildError>(e),
        },
{
    let handlers = collect_handlers(methods);
    build_http_handler(&handlers)
}

} // verus!
