use route_table::{compile, OperationDeclaration, RouteAnnotation, StaticHandler, ValidationError};

fn handler(msg: &str, path: &str) -> StaticHandler {
    StaticHandler { message: msg.to_string(), path: path.to_string() }
}

fn decl(name: &str, annotation: Option<Option<&str>>) -> OperationDeclaration<StaticHandler> {
    OperationDeclaration {
        name: name.to_string(),
        annotation: annotation.map(|s| RouteAnnotation { suffix: s.map(|x| x.to_string()) }),
        handler: handler(name, "/p"),
    }
}

#[test]
fn tagged_with_suffix_yields_one_entry() {
    let entries = compile("/api", vec![decl("example", Some(Some("/example")))]).unwrap();
    assert_eq!(entries.len(), 1);
    assert_eq!(entries[0].full_path, "/api/example");
}

#[test]
fn tagged_without_suffix_yields_base_exactly() {
    let entries = compile("/api", vec![decl("index", Some(None))]).unwrap();
    assert_eq!(entries.len(), 1);
    assert_eq!(entries[0].full_path, "/api");
}

#[test]
fn base_without_leading_slash_is_rejected() {
    let r = compile("api", vec![decl("example", Some(Some("/example")))]);
    assert!(matches!(r, Err(ValidationError::InvalidBasePath)));
}

#[test]
fn empty_base_is_rejected() {
    let r = compile("", vec![decl("example", Some(Some("/example")))]);
    assert!(matches!(r, Err(ValidationError::InvalidBasePath)));
}

#[test]
fn base_trailing_slash_is_stripped() {
    let with_slash = compile(
        "/api/",
        vec![decl("example", Some(Some("/example"))), decl("index", Some(None))],
    )
    .unwrap();
    let without_slash = compile(
        "/api",
        vec![decl("example", Some(Some("/example"))), decl("index", Some(None))],
    )
    .unwrap();
    let a: Vec<String> = with_slash.into_iter().map(|e| e.full_path).collect();
    let b: Vec<String> = without_slash.into_iter().map(|e| e.full_path).collect();
    assert_eq!(a, b);
    assert_eq!(a, vec!["/api/example".to_string(), "/api".to_string()]);
}

#[test]
fn suffix_without_leading_slash_gets_one() {
    let entries = compile("/api", vec![decl("x", Some(Some("x")))]).unwrap();
    assert_eq!(entries[0].full_path, "/api/x");
}

#[test]
fn suffix_trailing_slash_is_stripped() {
    let entries = compile("/api", vec![decl("x", Some(Some("/x/")))]).unwrap();
    assert_eq!(entries[0].full_path, "/api/x");
}

#[test]
fn empty_suffix_argument_names_the_base() {
    let entries = compile("/api", vec![decl("x", Some(Some("")))]).unwrap();
    assert_eq!(entries[0].full_path, "/api");
}

#[test]
fn root_base_is_valid() {
    let entries = compile("/", vec![decl("x", Some(Some("/x")))]).unwrap();
    assert_eq!(entries[0].full_path, "/x");
}

#[test]
fn untagged_declaration_produces_no_entry() {
    let entries = compile(
        "/api",
        vec![decl("silent", None), decl("example", Some(Some("/example"))), decl("mute", None)],
    )
    .unwrap();
    assert_eq!(entries.len(), 1);
    assert_eq!(entries[0].full_path, "/api/example");
}

#[test]
fn entries_keep_declaration_order() {
    let entries = compile(
        "/api",
        vec![decl("b", Some(Some("/b"))), decl("a", Some(Some("/a"))), decl("c", Some(None))],
    )
    .unwrap();
    let paths: Vec<String> = entries.into_iter().map(|e| e.full_path).collect();
    assert_eq!(
        paths,
        vec!["/api/b".to_string(), "/api/a".to_string(), "/api".to_string()]
    );
}

#[test]
fn duplicate_full_paths_are_permitted_at_compile_time() {
    let entries = compile(
        "/api",
        vec![decl("one", Some(Some("/x"))), decl("two", Some(Some("/x")))],
    )
    .unwrap();
    assert_eq!(entries.len(), 2);
    assert_eq!(entries[0].full_path, "/api/x");
    assert_eq!(entries[1].full_path, "/api/x");
    assert_eq!(entries[0].handler.message, "one");
    assert_eq!(entries[1].handler.message, "two");
}
