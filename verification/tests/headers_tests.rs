use worker_route::CookieHelper;
use worker_route::CorsPolicy;
use worker_route::HeadersOp;
use worker_route::HttpHeaders;
use worker_route::Wrap;

#[test]
fn append_keeps_and_set_replaces() {
    let mut h = HttpHeaders::new();
    assert!(h.is_empty());
    h.append("x-token", "one");
    h.append("x-token", "two");
    assert_eq!(h.len(), 2);
    assert_eq!(h.get("x-token"), Some("one".to_string()));
    assert!(h.has("x-token"));

    h.set("x-token", "three");
    assert_eq!(h.len(), 1);
    assert_eq!(h.get("x-token"), Some("three".to_string()));

    h.delete("x-token");
    assert!(h.is_empty());
    assert!(!h.has("x-token"));
    assert_eq!(h.get("x-token"), None);
}

#[test]
fn headers_op_selects_the_write() {
    let mut h = HttpHeaders::new();
    HeadersOp::Append.set("a", "1", &mut h);
    HeadersOp::Append.set("a", "2", &mut h);
    assert_eq!(h.len(), 2);
    HeadersOp::Insert.set("a", "3", &mut h);
    assert_eq!(h.len(), 1);
    assert_eq!(h.get("a"), Some("3".to_string()));
}

#[test]
fn entries_keys_values_are_ordered() {
    let mut h = HttpHeaders::new();
    h.append("a", "1");
    h.append("b", "2");
    assert_eq!(
        h.entries(),
        vec![("a".to_string(), "1".to_string()), ("b".to_string(), "2".to_string())]
    );
    assert_eq!(h.keys(), vec!["a".to_string(), "b".to_string()]);
    assert_eq!(h.values(), vec!["1".to_string(), "2".to_string()]);
}

#[test]
fn apply_cors_adds_the_six_headers() {
    let mut h = HttpHeaders::new();
    let policy = CorsPolicy {
        allow_origin: Some("*".to_string()),
        allow_methods: Some("GET, OPTIONS".to_string()),
        allow_headers: Some("content-type".to_string()),
        max_age: Some(86400),
        allow_credentials: Some(true),
        expose_headers: Some("x-trace".to_string()),
    };
    h.apply_cors(&policy);
    assert_eq!(h.len(), 6);
    assert_eq!(h.get("access-control-allow-origin"), Some("*".to_string()));
    assert_eq!(h.get("access-control-allow-methods"), Some("GET, OPTIONS".to_string()));
    assert_eq!(h.get("access-control-allow-headers"), Some("content-type".to_string()));
    assert_eq!(h.get("access-control-max-age"), Some("86400".to_string()));
    assert_eq!(h.get("access-control-allow-credentials"), Some("true".to_string()));
    assert_eq!(h.get("access-control-expose-headers"), Some("x-trace".to_string()));
}

#[test]
fn apply_cors_skips_absent_values() {
    let mut h = HttpHeaders::new();
    let policy = CorsPolicy {
        allow_origin: Some("https://example.test".to_string()),
        allow_methods: None,
        allow_headers: None,
        max_age: None,
        allow_credentials: None,
        expose_headers: None,
    };
    h.apply_cors(&policy);
    assert_eq!(h.len(), 1);
    assert_eq!(
        h.get("access-control-allow-origin"),
        Some("https://example.test".to_string())
    );
}

#[test]
fn cookies_round_trip_through_headers() {
    let mut h = HttpHeaders::new();
    CookieHelper::SetCookie.set(&mut h, "session", "abc123");
    assert_eq!(h.get("set-cookie"), Some("session=abc123".to_string()));
    let cookies = CookieHelper::SetCookie.get(&h);
    assert_eq!(cookies, vec![("session".to_string(), "abc123".to_string())]);

    h.append("cookie", "a=1");
    h.append("cookie", "b=2");
    let cookies = CookieHelper::GetCookie.get(&h);
    assert_eq!(
        cookies,
        vec![("a".to_string(), "1".to_string()), ("b".to_string(), "2".to_string())]
    );
    assert_eq!(CookieHelper::GetCookie.header_name(), "cookie");
    assert_eq!(CookieHelper::SetCookie.header_name(), "set-cookie");
}

struct StarCors;

impl Wrap for StarCors {
    type Output = CorsPolicy;

    fn wrap(_req: &HttpHeaders) -> CorsPolicy {
        CorsPolicy {
            allow_origin: Some("*".to_string()),
            allow_methods: None,
            allow_headers: None,
            max_age: None,
            allow_credentials: None,
            expose_headers: None,
        }
    }
}

#[test]
fn wrap_computes_a_policy_per_request() {
    let request_headers = HttpHeaders::new();
    let policy = StarCors::wrap(&request_headers);
    let mut response_headers = HttpHeaders::new();
    response_headers.apply_cors(&policy);
    assert_eq!(
        response_headers.get("access-control-allow-origin"),
        Some("*".to_string())
    );
}
