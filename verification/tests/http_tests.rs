use route_table::{extract_request_path, process_request, setup_router, ApiResponse};

#[test]
fn to_json_renders_message_and_path() {
    let resp = ApiResponse {
        message: "Hello from example".to_string(),
        path: "/api/example".to_string(),
    };
    assert_eq!(
        resp.to_json(),
        "{\"message\":\"Hello from example\",\"path\":\"/api/example\"}"
    );
}

#[test]
fn request_path_is_second_token_of_first_line() {
    assert_eq!(
        extract_request_path("GET /api/example HTTP/1.1\r\nHost: localhost\r\n\r\n"),
        "/api/example"
    );
}

#[test]
fn request_without_path_token_gives_empty_path() {
    assert_eq!(extract_request_path("GET\r\nHost: localhost\r\n\r\n"), "");
    assert_eq!(extract_request_path(""), "");
}

#[test]
fn hit_produces_exact_ok_response() {
    let router = setup_router();
    let response = process_request("GET /api/example HTTP/1.1\r\nHost: localhost\r\n\r\n", &router);
    let body = "{\"message\":\"Hello from example\",\"path\":\"/api/example\"}";
    let expected = format!(
        "HTTP/1.1 200 OK\r\nContent-Type: application/json\r\nContent-Length: {}\r\n\r\n{}",
        body.len(),
        body
    );
    assert_eq!(response, expected);
}

#[test]
fn index_route_answers_on_the_bare_base() {
    let router = setup_router();
    let response = process_request("GET /api HTTP/1.1\r\nHost: localhost\r\n\r\n", &router);
    let body = "{\"message\":\"Hello from index\",\"path\":\"/api\"}";
    let expected = format!(
        "HTTP/1.1 200 OK\r\nContent-Type: application/json\r\nContent-Length: {}\r\n\r\n{}",
        body.len(),
        body
    );
    assert_eq!(response, expected);
}

#[test]
fn trailing_slash_request_is_served_by_the_same_route() {
    let router = setup_router();
    let bare = process_request("GET /api/example HTTP/1.1\r\n\r\n", &router);
    let slashed = process_request("GET /api/example/ HTTP/1.1\r\n\r\n", &router);
    assert_eq!(bare, slashed);
}

#[test]
fn miss_produces_exact_not_found_response() {
    let router = setup_router();
    let response = process_request("GET /unknown HTTP/1.1\r\nHost: localhost\r\n\r\n", &router);
    let body = "{\"message\":\"Route not found\",\"path\":\"/unknown\"}";
    let expected = format!(
        "HTTP/1.1 404 Not Found\r\nContent-Type: application/json\r\nContent-Length: {}\r\n\r\n{}",
        body.len(),
        body
    );
    assert_eq!(response, expected);
}
