use route_table::{
    add_entries, compile, setup_router, OperationDeclaration, RouteAnnotation, Router,
    StaticHandler,
};

fn handler(msg: &str, path: &str) -> StaticHandler {
    StaticHandler { message: msg.to_string(), path: path.to_string() }
}

#[test]
fn new_router_is_empty() {
    let router: Router<StaticHandler> = Router::new();
    assert!(router.list_routes().is_empty());
    assert!(router.handle_request("/api").is_err());
}

#[test]
fn duplicate_path_last_added_wins() {
    let mut router: Router<StaticHandler> = Router::new();
    let first = router.add_route("/api/x".to_string(), handler("first", "/api/x"));
    let second = router.add_route("/api/x".to_string(), handler("second", "/api/x"));
    assert!(!first);
    assert!(second);
    let routes = router.list_routes();
    assert_eq!(routes.iter().filter(|p| p.as_str() == "/api/x").count(), 1);
    let resp = router.handle_request("/api/x").unwrap();
    assert_eq!(resp.message, "second");
}

#[test]
fn compiled_duplicates_resolve_to_last() {
    let decls = vec![
        OperationDeclaration {
            name: "one".to_string(),
            annotation: Some(RouteAnnotation { suffix: Some("/x".to_string()) }),
            handler: handler("one", "/api/x"),
        },
        OperationDeclaration {
            name: "two".to_string(),
            annotation: Some(RouteAnnotation { suffix: Some("/x".to_string()) }),
            handler: handler("two", "/api/x"),
        },
    ];
    let entries = compile("/api", decls).unwrap();
    let mut router = Router::new();
    add_entries(&mut router, entries);
    let routes = router.list_routes();
    assert_eq!(routes.iter().filter(|p| p.as_str() == "/api/x").count(), 1);
    assert_eq!(router.handle_request("/api/x").unwrap().message, "two");
}

#[test]
fn miss_reports_not_found_with_exact_path() {
    let router = setup_router();
    let err = router.handle_request("/unknown").unwrap_err();
    assert_eq!(err.path, "/unknown");
}

#[test]
fn miss_keeps_requested_path_before_normalization() {
    let router = setup_router();
    let err = router.handle_request("/Unknown/").unwrap_err();
    assert_eq!(err.path, "/Unknown/");
}

#[test]
fn trailing_slash_request_resolves_like_bare_one() {
    let router = setup_router();
    let bare = router.handle_request("/api/example").unwrap();
    let slashed = router.handle_request("/api/example/").unwrap();
    assert_eq!(bare.message, slashed.message);
    assert_eq!(bare.message, "Hello from example");
    assert_eq!(slashed.path, "/api/example");
}

#[test]
fn setup_router_serves_the_declared_surface() {
    let router = setup_router();
    let mut routes = router.list_routes();
    routes.sort();
    assert_eq!(routes, vec!["/api".to_string(), "/api/example".to_string()]);
    assert_eq!(router.handle_request("/api").unwrap().message, "Hello from index");
    assert_eq!(
        router.handle_request("/api/example").unwrap().message,
        "Hello from example"
    );
}

#[test]
fn untagged_declaration_never_listed() {
    let decls = vec![
        OperationDeclaration {
            name: "silent".to_string(),
            annotation: None,
            handler: handler("silent", "/api/silent"),
        },
        OperationDeclaration {
            name: "loud".to_string(),
            annotation: Some(RouteAnnotation { suffix: Some("/loud".to_string()) }),
            handler: handler("loud", "/api/loud"),
        },
    ];
    let entries = compile("/api", decls).unwrap();
    let mut router = Router::new();
    add_entries(&mut router, entries);
    let routes = router.list_routes();
    assert_eq!(routes, vec!["/api/loud".to_string()]);
    assert!(router.handle_request("/api/silent").is_err());
}
