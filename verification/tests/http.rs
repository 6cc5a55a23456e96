use tm20::http::{HttpMethod, HttpRequest, HttpResponse, HttpStatus, HttpTransport, MockHttp, RequestBody, TransportError};

#[test]
fn mock_http_is_an_exact_protocol_transcript() {
    let request = HttpRequest::get("/v1/items").query("after", "41");
    let mut http = MockHttp::new();
    http.expect_json(request.clone(), 200, br#"{"value":42}"#.to_vec())
        .expect("fixture");
    let response = http.execute(request).expect("exchange");
    let body = response.success_body().expect("success");
    let value: serde_json::Value = serde_json::from_slice(body).expect("json");
    assert_eq!(value.get("value").and_then(serde_json::Value::as_u64), Some(42));
    assert_eq!(http.finish().expect("complete").len(), 1);
}

#[test]
fn request_builders_keep_query_order() {
    let request = HttpRequest::get("/a").query("x", "1").query("y", "2");
    assert_eq!(request.method, HttpMethod::Get);
    assert_eq!(request.path, "/a");
    assert_eq!(request.query, vec![("x".to_string(), "1".to_string()), ("y".to_string(), "2".to_string())]);
    assert_eq!(request.body, RequestBody::Empty);
    let post = HttpRequest::post_json("/b", b"{}".to_vec());
    assert_eq!(post.method, HttpMethod::Post);
    assert_eq!(post.body, RequestBody::Json(b"{}".to_vec()));
    assert_eq!(HttpRequest::put_json("/c", Vec::new()).method, HttpMethod::Put);
}

#[test]
fn status_codes_outside_the_http_range_are_refused() {
    assert!(matches!(HttpStatus::parse(99), Err(TransportError::InvalidStatus(99))));
    assert!(matches!(HttpStatus::parse(600), Err(TransportError::InvalidStatus(600))));
    assert_eq!(HttpStatus::parse(204).expect("status").code(), 204);
    assert!(HttpStatus::parse(299).expect("status").is_success());
    assert!(!HttpStatus::parse(300).expect("status").is_success());
}

#[test]
fn an_error_status_has_no_body() {
    let status = HttpStatus::parse(503).expect("status");
    let response = HttpResponse { status, body: b"down".to_vec() };
    assert!(matches!(response.success_body(), Err(TransportError::Http(s)) if s == status));
}

#[test]
fn mock_http_reports_every_deviation() {
    let mut http = MockHttp::new();
    assert!(matches!(
        http.expect_json(HttpRequest::get("/a"), 42, Vec::new()),
        Err(TransportError::InvalidStatus(42))
    ));
    http.expect_json(HttpRequest::get("/a"), 200, b"1".to_vec()).expect("a");
    http.expect_json(HttpRequest::get("/b"), 200, b"2".to_vec()).expect("b");
    match http.execute(HttpRequest::get("/c")) {
        Err(TransportError::RequestMismatch { expected, actual }) => {
            assert_eq!(expected.path, "/a");
            assert_eq!(actual.path, "/c");
        }
        other => panic!("expected a mismatch, got {other:?}"),
    }
    assert!(matches!(http.finish(), Err(TransportError::UnconsumedExchanges(1))));
    let mut empty = MockHttp::new();
    assert!(matches!(
        empty.execute(HttpRequest::get("/x")),
        Err(TransportError::UnexpectedRequest(r)) if r.path == "/x"
    ));
}

#[test]
fn transport_errors_read_as_sentences() {
    assert_eq!(TransportError::InvalidStatus(42).message(), "invalid HTTP status 42");
    let status = HttpStatus::parse(503).expect("status");
    assert_eq!(TransportError::Http(status).message(), "provider returned HTTP 503");
    assert_eq!(TransportError::UnconsumedExchanges(2).message(), "2 mock HTTP exchanges were not consumed");
    assert_eq!(
        TransportError::UnexpectedRequest(Box::new(HttpRequest::get("/x"))).message(),
        "unexpected request Get /x"
    );
    assert_eq!(
        TransportError::RequestMismatch {
            expected: Box::new(HttpRequest::get("/a")),
            actual: Box::new(HttpRequest::post_json("/b", Vec::new())),
        }
        .message(),
        "request mismatch: expected Get /a, got Post /b"
    );
    assert_eq!(
        TransportError::ResponseJson("EOF".into()).message(),
        "could not decode response JSON: EOF"
    );
}
