use ember::binder::{bind_args, parse_scalar, query_param, url_decode, ArgValue};
use ember::dispatch::{complete, find_route, plan, status_for, Dispatcher, Endpoints, Plan};
use ember::error::{EmberError, ErrorKind};
use ember::transport::settle;
use ember::http::{HttpHandler, HttpRequest, HttpResponse};
use ember::pattern::{parse_path_template, RoutePattern, Verb};
use ember::routes::{
    build_http_handler, build_route, controller, delete, get, head, options, patch, post, put,
    Annotation, ArgSource, ArgSpec, ArgType, BuildError, HandlerMethod, HandlerRoute,
    RouteDescriptor,
};

struct Books;

impl Endpoints for Books {
    fn invoke(&self, handler: &str, args: Vec<ArgValue>) -> Result<serde_json::Value, EmberError> {
        match handler {
            "get_book" => Ok(serde_json::Value::Null),
            "echo" => match args.into_iter().next() {
                Some(ArgValue::Json(doc)) => Ok(doc),
                _ => Err(EmberError::msg("echo needs a body")),
            },
            "search_by_author" => match args.into_iter().next() {
                Some(ArgValue::Text(author)) => Ok(serde_json::Value::String(author)),
                _ => Err(EmberError::msg("search needs an author")),
            },
            "ping" => Ok(serde_json::Value::Bool(true)),
            "fail" => Err(EmberError::msg("handler failed")),
            other => Err(EmberError::msg(other)),
        }
    }
}

fn method(name: &str, note: Annotation, args: Vec<ArgSpec>) -> HandlerMethod {
    HandlerMethod { name: name.to_string(), annotations: vec![note], args }
}

fn bookstore() -> Vec<RouteDescriptor> {
    let methods = vec![
        method("list_books", get("/books").unwrap(), vec![]),
        method("get_book", get("/books/{id}").unwrap(), vec![ArgSpec::new("id", ArgType::I64)]),
        method(
            "search_by_author",
            get("/search").unwrap(),
            vec![ArgSpec::new("author", ArgType::Text)],
        ),
        method("echo", post("/echo").unwrap(), vec![ArgSpec::new("input", ArgType::Text)]),
        method("ping", post("/ping").unwrap(), vec![]),
        method("ping", put("/ping").unwrap(), vec![]),
        method("ping", patch("/ping").unwrap(), vec![]),
        method("fail", delete("/books/{id}").unwrap(), vec![ArgSpec::new("id", ArgType::U8)]),
    ];
    controller(&methods).unwrap()
}

#[test]
fn template_without_placeholder_is_the_prefix() {
    let (prefix, param, suffix) = parse_path_template("/books");
    assert_eq!(prefix, "/books");
    assert_eq!(param, None);
    assert_eq!(suffix, "");
}

#[test]
fn template_with_placeholder_splits_in_three() {
    let (prefix, param, suffix) = parse_path_template("/books/{id}/pages");
    assert_eq!(prefix, "/books/");
    assert_eq!(param, Some("id".to_string()));
    assert_eq!(suffix, "/pages");
}

#[test]
fn template_honours_only_the_first_placeholder() {
    let (prefix, param, suffix) = parse_path_template("/a/{x}/b/{y}");
    assert_eq!(prefix, "/a/");
    assert_eq!(param, Some("x".to_string()));
    assert_eq!(suffix, "/b/{y}");
}

#[test]
fn template_with_unclosed_brace_is_exact() {
    let (prefix, param, suffix) = parse_path_template("/a/{x");
    assert_eq!(prefix, "/a/{x");
    assert_eq!(param, None);
    assert_eq!(suffix, "");
}

#[test]
fn template_with_brace_closed_before_it_opens() {
    let (prefix, param, suffix) = parse_path_template("/a}/{x}");
    assert_eq!(prefix, "/a}/");
    assert_eq!(param, Some("x".to_string()));
    assert_eq!(suffix, "");
}

#[test]
fn exact_pattern_matches_only_itself() {
    let p = RoutePattern::parse(Verb::Get, "/books");
    assert_eq!(p.match_path("/books"), Some(String::new()));
    assert_eq!(p.match_path("/books/"), None);
    assert_eq!(p.match_path("/book"), None);
    assert_eq!(p.match_path(""), None);
}

#[test]
fn placeholder_binds_what_lies_between() {
    let p = RoutePattern::parse(Verb::Get, "/books/{id}/pages");
    assert_eq!(p.match_path("/books/7/pages"), Some("7".to_string()));
    assert_eq!(p.match_path("/books//pages"), Some(String::new()));
    assert_eq!(p.match_path("/books/a/b/pages"), Some("a/b".to_string()));
    assert_eq!(p.match_path("/book/7/pages"), None);
    assert_eq!(p.match_path("/books/7/page"), None);
}

#[test]
fn overlapping_prefix_and_suffix_bind_the_empty_text() {
    let p = RoutePattern::parse(Verb::Get, "/a/{x}/a/");
    assert_eq!(p.match_path("/a/"), Some(String::new()));
    let q = RoutePattern::parse(Verb::Get, "/ab{x}bc");
    assert_eq!(q.match_path("/abc"), Some(String::new()));
}

#[test]
fn placeholder_binds_text_that_is_not_ascii() {
    let p = RoutePattern::parse(Verb::Get, "/é/{x}/ü");
    assert_eq!(p.match_path("/é/ß∂/ü"), Some("ß∂".to_string()));
}

#[test]
fn verbs_read_their_own_names_only() {
    assert!(Verb::Get.is_method("GET"));
    assert!(!Verb::Get.is_method("get"));
    assert!(!Verb::Get.is_method("POST"));
    assert_eq!(Verb::Options.as_str(), "OPTIONS");
    assert_eq!(Verb::from_annotation("head"), Some(Verb::Head));
    assert_eq!(Verb::from_annotation("HEAD"), None);
    assert_eq!(Verb::from_annotation("column"), None);
}

#[test]
fn annotations_refuse_the_empty_path() {
    assert_eq!(get("").err(), Some(BuildError::EmptyPath));
    assert_eq!(post("").err(), Some(BuildError::EmptyPath));
    assert_eq!(put("").err(), Some(BuildError::EmptyPath));
    assert_eq!(patch("").err(), Some(BuildError::EmptyPath));
    assert_eq!(delete("").err(), Some(BuildError::EmptyPath));
    assert_eq!(head("").err(), Some(BuildError::EmptyPath));
    assert_eq!(options("").err(), Some(BuildError::EmptyPath));
    assert_eq!(BuildError::EmptyPath.message(), "route path must not be empty");
    let note = options("/x").unwrap();
    assert_eq!(note.word, "options");
    assert_eq!(note.path, "/x");
}

#[test]
fn controller_builds_one_route_for_each_verb_annotation() {
    let table = bookstore();
    assert_eq!(table.len(), 8);
    assert_eq!(table[1].handler, "get_book");
    assert_eq!(table[1].pattern.verb, Verb::Get);
    assert_eq!(table[1].pattern.prefix, "/books/");
    assert_eq!(table[1].pattern.param, Some("id".to_string()));
    assert_eq!(table[1].bindings.len(), 1);
    assert_eq!(table[1].bindings[0].source, ArgSource::PathParam);
    assert_eq!(table[2].bindings[0].source, ArgSource::QueryParam);
    assert_eq!(table[3].bindings[0].source, ArgSource::JsonBody);
    assert_eq!(table[3].bindings[0].name, "input");
}

#[test]
fn controller_passes_over_other_annotations() {
    let methods = vec![HandlerMethod {
        name: "both".to_string(),
        annotations: vec![
            Annotation { word: "inline".to_string(), path: String::new() },
            get("/a").unwrap(),
            Annotation { word: "doc".to_string(), path: "x".to_string() },
            post("/a").unwrap(),
        ],
        args: vec![],
    }];
    let table = controller(&methods).unwrap();
    assert_eq!(table.len(), 2);
    assert_eq!(table[0].pattern.verb, Verb::Get);
    assert_eq!(table[1].pattern.verb, Verb::Post);
    assert_eq!(table[1].handler, "both");
}

#[test]
fn controller_refuses_an_empty_path() {
    let methods = vec![HandlerMethod {
        name: "h".to_string(),
        annotations: vec![Annotation { word: "get".to_string(), path: String::new() }],
        args: vec![],
    }];
    assert_eq!(controller(&methods).err(), Some(BuildError::EmptyPath));
}

#[test]
fn second_body_argument_is_refused() {
    let h = HandlerRoute {
        verb: Verb::Post,
        path: "/books".to_string(),
        handler: "add".to_string(),
        args: vec![ArgSpec::new("a", ArgType::Text), ArgSpec::new("b", ArgType::Text)],
    };
    assert_eq!(build_route(&h).err(), Some(BuildError::MultipleBodyArguments));
    assert_eq!(
        BuildError::MultipleBodyArguments.message(),
        "only one body parameter supported"
    );
}

#[test]
fn argument_without_a_source_is_refused() {
    let h = HandlerRoute {
        verb: Verb::Delete,
        path: "/books/{id}".to_string(),
        handler: "remove".to_string(),
        args: vec![ArgSpec::new("id", ArgType::I64), ArgSpec::new("force", ArgType::Bool)],
    };
    assert_eq!(build_route(&h).err(), Some(BuildError::UnboundArgument));
}

#[test]
fn table_fails_on_its_first_bad_route() {
    let good = HandlerRoute {
        verb: Verb::Get,
        path: "/a".to_string(),
        handler: "a".to_string(),
        args: vec![],
    };
    let unbound = HandlerRoute {
        verb: Verb::Head,
        path: "/b".to_string(),
        handler: "b".to_string(),
        args: vec![ArgSpec::new("x", ArgType::Text)],
    };
    let empty = HandlerRoute {
        verb: Verb::Get,
        path: String::new(),
        handler: "c".to_string(),
        args: vec![],
    };
    assert_eq!(
        build_http_handler(&vec![good, unbound, empty]).err(),
        Some(BuildError::UnboundArgument)
    );
}

#[test]
fn path_and_body_arguments_can_stand_together() {
    let h = HandlerRoute {
        verb: Verb::Put,
        path: "/books/{id}".to_string(),
        handler: "update".to_string(),
        args: vec![ArgSpec::new("update", ArgType::Text), ArgSpec::new("id", ArgType::U32)],
    };
    let route = build_route(&h).unwrap();
    assert_eq!(route.bindings[0].source, ArgSource::JsonBody);
    assert_eq!(route.bindings[1].source, ArgSource::PathParam);
}

#[test]
fn scalars_parse_as_their_type_says() {
    assert!(matches!(parse_scalar(ArgType::Text, " a b "), Some(ArgValue::Text(s)) if s == " a b "));
    assert!(matches!(parse_scalar(ArgType::Bool, "true"), Some(ArgValue::Bool(true))));
    assert!(matches!(parse_scalar(ArgType::Bool, "false"), Some(ArgValue::Bool(false))));
    assert!(parse_scalar(ArgType::Bool, "True").is_none());
    assert!(matches!(parse_scalar(ArgType::I64, "7"), Some(ArgValue::Int(7))));
    assert!(matches!(parse_scalar(ArgType::I64, "+7"), Some(ArgValue::Int(7))));
    assert!(matches!(parse_scalar(ArgType::I64, "-7"), Some(ArgValue::Int(-7))));
    assert!(matches!(parse_scalar(ArgType::I64, "-0"), Some(ArgValue::Int(0))));
    assert!(matches!(parse_scalar(ArgType::I64, "007"), Some(ArgValue::Int(7))));
    assert!(matches!(
        parse_scalar(ArgType::I64, "-9223372036854775808"),
        Some(ArgValue::Int(i64::MIN))
    ));
    assert!(matches!(
        parse_scalar(ArgType::I64, "9223372036854775807"),
        Some(ArgValue::Int(i64::MAX))
    ));
    assert!(parse_scalar(ArgType::I64, "9223372036854775808").is_none());
    assert!(parse_scalar(ArgType::I64, "-9223372036854775809").is_none());
    assert!(parse_scalar(ArgType::I64, "").is_none());
    assert!(parse_scalar(ArgType::I64, "-").is_none());
    assert!(parse_scalar(ArgType::I64, "+").is_none());
    assert!(parse_scalar(ArgType::I64, "1 ").is_none());
    assert!(parse_scalar(ArgType::I64, "1_000").is_none());
    assert!(parse_scalar(ArgType::I64, "٣").is_none());
    assert!(matches!(
        parse_scalar(ArgType::U64, "18446744073709551615"),
        Some(ArgValue::Uint(u64::MAX))
    ));
    assert!(parse_scalar(ArgType::U64, "18446744073709551616").is_none());
    assert!(parse_scalar(ArgType::U64, "99999999999999999999999").is_none());
    assert!(parse_scalar(ArgType::U64, "-1").is_none());
    assert!(parse_scalar(ArgType::U64, "-0").is_none());
    assert!(matches!(parse_scalar(ArgType::U64, "+1"), Some(ArgValue::Uint(1))));
    assert!(matches!(parse_scalar(ArgType::U8, "255"), Some(ArgValue::Uint(255))));
    assert!(parse_scalar(ArgType::U8, "256").is_none());
    assert!(matches!(parse_scalar(ArgType::I8, "-128"), Some(ArgValue::Int(-128))));
    assert!(parse_scalar(ArgType::I8, "-129").is_none());
    assert!(parse_scalar(ArgType::I8, "128").is_none());
    assert!(matches!(parse_scalar(ArgType::I16, "-32768"), Some(ArgValue::Int(-32768))));
    assert!(parse_scalar(ArgType::I16, "32768").is_none());
    assert!(matches!(parse_scalar(ArgType::U16, "65535"), Some(ArgValue::Uint(65535))));
    assert!(parse_scalar(ArgType::U16, "65536").is_none());
    assert!(matches!(
        parse_scalar(ArgType::I32, "-2147483648"),
        Some(ArgValue::Int(-2147483648))
    ));
    assert!(parse_scalar(ArgType::I32, "2147483648").is_none());
    assert!(matches!(
        parse_scalar(ArgType::U32, "4294967295"),
        Some(ArgValue::Uint(4294967295))
    ));
    assert!(parse_scalar(ArgType::U32, "4294967296").is_none());
}

#[test]
fn query_decodes_percent_and_plus() {
    assert_eq!(query_param(Some("author=Jim%20Blandy"), "author"), Some("Jim Blandy".to_string()));
    assert_eq!(query_param(Some("author=Jim+Blandy"), "author"), Some("Jim Blandy".to_string()));
    assert_eq!(url_decode("a%2Fb%2fc"), "a/b/c");
    assert_eq!(url_decode("%e9"), "é");
}

#[test]
fn query_drops_malformed_percent_sequences() {
    assert_eq!(url_decode("a%zzb"), "ab");
    assert_eq!(url_decode("a%4"), "a");
    assert_eq!(url_decode("a%"), "a");
    assert_eq!(url_decode("a%4zb"), "ab");
    assert_eq!(url_decode("100%"), "100");
    assert_eq!(url_decode(""), "");
}

#[test]
fn query_takes_the_first_pair_of_the_name() {
    assert_eq!(query_param(Some("a=1&b=2&a=3"), "a"), Some("1".to_string()));
    assert_eq!(query_param(Some("a=1&b=2&a=3"), "b"), Some("2".to_string()));
    assert_eq!(query_param(Some("ab=1&a=2"), "a"), Some("2".to_string()));
    assert_eq!(query_param(Some("a=1"), "c"), None);
    assert_eq!(query_param(Some("a"), "a"), None);
    assert_eq!(query_param(Some("a="), "a"), Some(String::new()));
    assert_eq!(query_param(Some("a=b=c"), "a"), Some("b=c".to_string()));
    assert_eq!(query_param(Some(""), "a"), None);
    assert_eq!(query_param(None, "a"), None);
}

#[test]
fn request_target_splits_at_the_first_question_mark() {
    let r = HttpRequest::new("GET", "/search?author=a?b", vec![1, 2]);
    assert_eq!(r.method, "GET");
    assert_eq!(r.path, "/search");
    assert_eq!(r.query, Some("author=a?b".to_string()));
    assert_eq!(r.body, vec![1, 2]);
    let plain = HttpRequest::new("GET", "/search", vec![]);
    assert_eq!(plain.path, "/search");
    assert_eq!(plain.query, None);
    let bare = HttpRequest::new("GET", "/search?", vec![]);
    assert_eq!(bare.query, Some(String::new()));
}

#[test]
fn first_matching_route_wins() {
    let table = controller(&vec![
        method("wide", get("/books/{id}").unwrap(), vec![]),
        method("narrow", get("/books/search").unwrap(), vec![]),
    ])
    .unwrap();
    assert_eq!(find_route(&table, "GET", "/books/search"), Some((0, "search".to_string())));
    assert_eq!(find_route(&table, "GET", "/books"), None);
    assert_eq!(find_route(&table, "POST", "/books/search"), None);
}

#[test]
fn get_book_binds_the_id_and_answers_null() {
    let table = bookstore();
    match plan(&table, "GET", "/books/7", b"") {
        Plan::Invoke { route, args } => {
            assert_eq!(route, 1);
            assert_eq!(args.len(), 1);
            assert!(matches!(args[0], ArgValue::Int(7)));
        }
        other => panic!("unexpected plan: {:?}", other),
    }
    let d = Dispatcher::new(table, Books);
    let response = d.handle("GET", "/books/7", b"").unwrap();
    assert_eq!(response.status, 200);
    assert_eq!(response.content_type, "application/json");
    assert_eq!(response.body, b"null".to_vec());
}

#[test]
fn unmatched_request_is_not_found() {
    let d = Dispatcher::new(bookstore(), Books);
    for (m, p) in [("GET", "/nothing"), ("HEAD", "/books"), ("get", "/books"), ("GET", "/book")] {
        let response = d.handle(m, p, b"").unwrap();
        assert_eq!(response.status, 404);
        assert_eq!(response.content_type, "text/plain");
        assert_eq!(response.body, b"not found".to_vec());
    }
}

#[test]
fn path_parameter_that_does_not_parse_fails_the_request() {
    let d = Dispatcher::new(bookstore(), Books);
    let e = d.handle("GET", "/books/seven", b"").unwrap_err();
    assert_eq!(e.to_string(), "invalid parameter");
    assert_eq!(e.class(), ErrorKind::Binding);
    assert_eq!(e.status(), 400);
    let e = d.handle("DELETE", "/books/256", b"").unwrap_err();
    assert_eq!(e.to_string(), "invalid parameter");
}

#[test]
fn binding_error_is_answered_400_and_handler_failure_500() {
    let d = Dispatcher::new(bookstore(), Books);
    let bad = settle(d.handle("GET", "/books/seven", b""));
    assert_eq!(bad.status, 400);
    assert_eq!(bad.content_type, "text/plain");
    assert_eq!(bad.body, b"invalid parameter".to_vec());
    let json = settle(d.handle("POST", "/echo", b"[1,"));
    assert_eq!(json.status, 400);
    assert!(json.body.starts_with(b"invalid JSON: "));
    let failed = settle(d.handle("DELETE", "/books/7", b""));
    assert_eq!(failed.status, 500);
    assert_eq!(failed.body, b"handler failed".to_vec());
    let e = d.handle("DELETE", "/books/7", b"").unwrap_err();
    assert_eq!(e.class(), ErrorKind::Failure);
    assert_eq!(EmberError::binding("x").status(), 400);
    assert_eq!(EmberError::binding_with_detail("a", "b").to_string(), "ab");
    assert_eq!(EmberError::msg("x").status(), 500);
}

#[test]
fn query_argument_of_string_type_defaults_to_empty() {
    let d = Dispatcher::new(bookstore(), Books);
    let response = d.handle("GET", "/search", b"").unwrap();
    assert_eq!(response.body, b"\"\"".to_vec());
    let response = d.handle("GET", "/search?author=Jim%20Blandy", b"").unwrap();
    assert_eq!(response.body, b"\"Jim Blandy\"".to_vec());
}

#[test]
fn query_argument_of_other_type_is_required() {
    let table = controller(&vec![method(
        "page",
        get("/page").unwrap(),
        vec![ArgSpec::new("n", ArgType::U32)],
    )])
    .unwrap();
    let e = bind_args(&table[0].bindings, "", None, b"").unwrap_err();
    assert_eq!(e.to_string(), "missing query parameter");
    assert_eq!(e.class(), ErrorKind::Binding);
    let e = bind_args(&table[0].bindings, "", Some("m=1"), b"").unwrap_err();
    assert_eq!(e.to_string(), "missing query parameter");
    let e = bind_args(&table[0].bindings, "", Some("n=x"), b"").unwrap_err();
    assert_eq!(e.to_string(), "invalid query parameter");
    let values = bind_args(&table[0].bindings, "", Some("n=12"), b"").unwrap();
    assert!(matches!(values[0], ArgValue::Uint(12)));
}

#[test]
fn body_that_is_no_json_fails_the_request() {
    let d = Dispatcher::new(bookstore(), Books);
    let e = d.handle("POST", "/echo", b"{").unwrap_err();
    assert!(e.to_string().starts_with("invalid JSON: "));
    assert!(e.to_string().len() > "invalid JSON: ".len());
    let e = d.handle("POST", "/echo", b"").unwrap_err();
    assert!(e.to_string().starts_with("invalid JSON: "));
}

#[test]
fn echoed_json_comes_back_as_it_went() {
    let d = Dispatcher::new(bookstore(), Books);
    let body = b"{\"author\":\"Jim Blandy\",\"id\":7,\"tags\":[\"rust\",null,true]}";
    let response = d.handle("POST", "/echo", body).unwrap();
    assert_eq!(response.status, 201);
    assert_eq!(response.content_type, "application/json");
    assert_eq!(response.body, body.to_vec());
    let spaced = d.handle("POST", "/echo", b" { \"a\" : [ 1 , 2 ] } ").unwrap();
    assert_eq!(spaced.body, b"{\"a\":[1,2]}".to_vec());
}

#[test]
fn handler_without_body_argument_ignores_the_body() {
    let d = Dispatcher::new(bookstore(), Books);
    for m in ["POST", "PUT", "PATCH"] {
        let response = d.handle(m, "/ping", b"").unwrap();
        assert_eq!(response.body, b"true".to_vec());
        assert_eq!(response.status, if m == "POST" { 201 } else { 200 });
        let again = d.handle(m, "/ping", b"not json at all").unwrap();
        assert_eq!(again.body, b"true".to_vec());
    }
}

#[test]
fn handler_failure_is_the_request_failure() {
    let d = Dispatcher::new(bookstore(), Books);
    let e = d.handle("DELETE", "/books/7", b"").unwrap_err();
    assert_eq!(e.to_string(), "handler failed");
}

#[test]
fn status_is_created_under_post_only() {
    assert_eq!(status_for(Verb::Post), 201);
    for v in [Verb::Get, Verb::Put, Verb::Patch, Verb::Delete, Verb::Head, Verb::Options] {
        assert_eq!(status_for(v), 200);
    }
    let r = complete(Verb::Put, Ok(serde_json::Value::from(3u8))).unwrap();
    assert_eq!(r.status, 200);
    assert_eq!(r.body, b"3".to_vec());
    let e = complete(Verb::Post, Err(EmberError::msg("no"))).unwrap_err();
    assert_eq!(e.to_string(), "no");
}

#[test]
fn responses_are_built_as_asked() {
    let e = HttpResponse::empty(204);
    assert_eq!(e.status, 204);
    assert_eq!(e.content_type, "text/plain");
    assert!(e.body.is_empty());
    let t = HttpResponse::text(500, "né");
    assert_eq!(t.status, 500);
    assert_eq!(t.content_type, "text/plain");
    assert_eq!(t.body, "né".as_bytes().to_vec());
}
