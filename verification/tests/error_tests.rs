use worker_route::error::accept_json;
use worker_route::Error;
use worker_route::ErrorCause;

#[test]
fn json_body_has_the_wire_format() {
    let e = Error::new("bad input".to_string(), 400, ErrorCause::Query);
    assert_eq!(
        e.to_json_body(),
        "{\"message\":\"bad input\",\"statusCode\":400,\"success\":false}"
    );
}

#[test]
fn json_body_escapes_the_message() {
    let e = Error::new("a \"quoted\" \\ item".to_string(), 500, ErrorCause::Json);
    assert_eq!(
        e.to_json_body(),
        "{\"message\":\"a \\\"quoted\\\" \\\\ item\",\"statusCode\":500,\"success\":false}"
    );

    let e = Error::new("line\nbreak".to_string(), 400, ErrorCause::Query);
    assert_eq!(
        e.to_json_body(),
        "{\"message\":\"line\\u000abreak\",\"statusCode\":400,\"success\":false}"
    );
}

#[test]
fn accept_json_reads_the_accept_header() {
    assert!(accept_json(Some("*/*")));
    assert!(accept_json(Some("text/html, application/json")));
    assert!(!accept_json(Some("text/html")));
    assert!(!accept_json(None));
}

#[test]
fn error_response_sets_content_type_only_when_accepted() {
    let e = Error::new("nope".to_string(), 400, ErrorCause::Query);
    let r = e.error_response(Some("*/*"));
    assert_eq!(r.status_code, 400);
    assert!(r.content_type_json);
    assert_eq!(r.body, "{\"message\":\"nope\",\"statusCode\":400,\"success\":false}");

    let r = e.error_response(Some("text/plain"));
    assert!(!r.content_type_json);
    assert_eq!(r.body, "{\"message\":\"nope\",\"statusCode\":400,\"success\":false}");
}

#[test]
fn transport_errors_default_to_internal() {
    let e = Error::from_transport("upstream broke".to_string(), None);
    assert_eq!(e.status_code(), 500);
    assert_eq!(e.description(), "upstream broke");
    assert!(matches!(e.cause(), ErrorCause::Worker(_)));

    let e = Error::from_transport("not found".to_string(), Some(404));
    assert_eq!(e.status_code(), 404);
}
