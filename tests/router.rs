use web_server::router::{
    classify, frame_response, Reply, Response, Route, Router, ERROR_ROUTE, SLEEP_SECS,
};

fn reply_to(line: Option<&str>) -> Reply {
    Router::new(line.map(String::from)).respond()
}

fn descriptor(reply: Reply) -> (&'static str, &'static str) {
    Router::prepare_response(reply.response)
}

#[test]
fn prepared_response_ok() {
    let filename = "file";
    let (code, file) = Router::prepare_response(Response::Success(filename));

    assert_eq!(filename, file);
    assert!(code.contains("200 OK"));
}

#[test]
fn prepared_response_not_found() {
    let (code, file) = Router::prepare_response(Response::NotFound);

    assert_eq!(file, "error.html");
    assert!(code.contains("404 NOT FOUND"));
}

#[test]
fn prepared_response_bad_request() {
    let (code, file) = Router::prepare_response(Response::BadRequest);

    assert_eq!(file, "error.html");
    assert!(code.contains("400 BAD REQUEST"));
}

#[test]
fn get_router_error() {
    let request_line: Option<String> = None;
    let route = Router::get_route(&request_line);

    assert_eq!(route.as_str(), ERROR_ROUTE);
}

#[test]
fn get_router_ok() {
    let http_response = "GET / HTTP/1.1";
    let request_line = Some(String::from(http_response));
    let route = Router::get_route(&request_line);

    assert_eq!(route.as_str(), "/");
}

#[test]
fn route_is_second_token() {
    let route = Router::get_route(&Some(String::from("POST /a/b?c=d HTTP/1.0")));
    assert_eq!(route.as_str(), "/a/b?c=d");
}

#[test]
fn route_of_single_token_is_sentinel() {
    let route = Router::get_route(&Some(String::from("GET")));
    assert_eq!(route.as_str(), "/error");
    let route = Router::get_route(&Some(String::new()));
    assert_eq!(route.as_str(), "/error");
}

#[test]
fn route_splits_on_single_spaces() {
    let route = Router::get_route(&Some(String::from("GET  / HTTP/1.1")));
    assert_eq!(route.as_str(), "");
    let route = Router::get_route(&Some(String::from("GET /")));
    assert_eq!(route.as_str(), "/");
    let route = Router::get_route(&Some(String::from("GET ")));
    assert_eq!(route.as_str(), "");
}

#[test]
fn route_keeps_non_ascii() {
    let route = Router::get_route(&Some(String::from("GET /caf\u{e9} HTTP/1.1")));
    assert_eq!(route.as_str(), "/caf\u{e9}");
}

#[test]
fn classify_tells_routes_apart() {
    assert_eq!(classify(&String::from("/")), Route::Root);
    assert_eq!(classify(&String::from("/sleep")), Route::Sleep);
    assert_eq!(classify(&String::from("/Sleep")), Route::Unknown);
    assert_eq!(classify(&String::from("/error")), Route::Unknown);
    assert_eq!(classify(&String::new()), Route::Unknown);
}

#[test]
fn root_line_served_index() {
    let reply = reply_to(Some("GET / HTTP/1.1"));
    assert_eq!(reply.delay_secs, 0);
    assert!(matches!(reply.response, Response::Success("index.html")));
    assert_eq!(descriptor(reply), ("HTTP/1.1 200 OK", "index.html"));
}

#[test]
fn sleep_line_served_index_after_delay() {
    let reply = reply_to(Some("GET /sleep HTTP/1.1"));
    assert_eq!(reply.delay_secs, 5);
    assert_eq!(SLEEP_SECS, 5);
    assert_eq!(descriptor(reply), ("HTTP/1.1 200 OK", "index.html"));
}

#[test]
fn unknown_route_not_found() {
    let reply = reply_to(Some("GET /nope HTTP/1.1"));
    assert_eq!(reply.delay_secs, 0);
    assert!(matches!(reply.response, Response::NotFound));
    assert_eq!(descriptor(reply), ("HTTP/1.1 404 NOT FOUND", "error.html"));
}

#[test]
fn absent_line_bad_request() {
    let reply = reply_to(None);
    assert_eq!(reply.delay_secs, 0);
    assert!(matches!(reply.response, Response::BadRequest));
    assert_eq!(descriptor(reply), ("HTTP/1.1 400 BAD REQUEST", "error.html"));
}

#[test]
fn single_token_line_not_found() {
    let reply = reply_to(Some("GET"));
    assert_eq!(reply.delay_secs, 0);
    assert!(matches!(reply.response, Response::NotFound));
    assert_eq!(descriptor(reply), ("HTTP/1.1 404 NOT FOUND", "error.html"));
}

#[test]
fn method_and_version_ignored() {
    let reply = reply_to(Some("DELETE / whatever"));
    assert_eq!(descriptor(reply), ("HTTP/1.1 200 OK", "index.html"));
    let reply = reply_to(Some("GET /sleep"));
    assert_eq!(reply.delay_secs, 5);
}

#[test]
fn dispatch_repeats_itself() {
    let router = Router::new(Some(String::from("GET /sleep HTTP/1.1")));
    let first = router.respond();
    let second = router.respond();
    assert_eq!(first.delay_secs, second.delay_secs);
    assert_eq!(descriptor(first), descriptor(second));
    let other = reply_to(Some("GET /nope HTTP/1.1"));
    let again = reply_to(Some("GET /sleep HTTP/1.1"));
    assert_eq!(again.delay_secs, 5);
    assert_eq!(descriptor(other), ("HTTP/1.1 404 NOT FOUND", "error.html"));
    assert_eq!(descriptor(again), ("HTTP/1.1 200 OK", "index.html"));
}

#[test]
fn framed_response_exact_bytes() {
    let bytes = frame_response("HTTP/1.1 200 OK", "hi");
    assert_eq!(bytes, b"HTTP/1.1 200 OK\r\nContent-Length: 2\r\n\r\nhi".to_vec());
}

#[test]
fn framed_response_empty_body() {
    let bytes = frame_response("HTTP/1.1 404 NOT FOUND", "");
    assert_eq!(bytes, b"HTTP/1.1 404 NOT FOUND\r\nContent-Length: 0\r\n\r\n".to_vec());
}

#[test]
fn framed_response_counts_bytes() {
    let body = "<p>caf\u{e9}</p>";
    let bytes = frame_response("HTTP/1.1 200 OK", body);
    let expected = format!("HTTP/1.1 200 OK\r\nContent-Length: 12\r\n\r\n{body}");
    assert_eq!(bytes, expected.into_bytes());
}

#[test]
fn framed_response_long_body() {
    let body = "x".repeat(1234);
    let bytes = frame_response("HTTP/1.1 200 OK", &body);
    let expected = format!("HTTP/1.1 200 OK\r\nContent-Length: 1234\r\n\r\n{body}");
    assert_eq!(bytes, expected.into_bytes());
}
