use asupersync::web::middleware::{
    eq_ignoring_ascii_case, header_value, is_idempotent, is_idempotent_name, CorsAction,
    CorsAllowOrigin, CorsMiddleware, CorsPolicy, MiddlewareStack, TimeoutMiddleware,
};
use std::time::Duration;

fn headers(pairs: &[(&str, &str)]) -> Vec<(String, String)> {
    pairs
        .iter()
        .map(|(n, v)| (n.to_string(), v.to_string()))
        .collect()
}

fn get(action: &CorsAction, name: &str) -> Option<String> {
    let hs = match action {
        CorsAction::PassThrough => return None,
        CorsAction::Preflight { headers } | CorsAction::Decorate { headers } => headers,
    };
    // Later insertions replace earlier ones, as in a header map.
    hs.iter()
        .rev()
        .find(|(n, _)| n == name)
        .map(|(_, v)| v.clone())
}

#[test]
fn idempotent_methods() {
    assert!(is_idempotent("GET"));
    assert!(is_idempotent("HEAD"));
    assert!(is_idempotent("OPTIONS"));
    assert!(is_idempotent("PUT"));
    assert!(is_idempotent("DELETE"));
    assert!(is_idempotent("TRACE"));
    assert!(!is_idempotent("POST"));
    assert!(!is_idempotent("PATCH"));
}

#[test]
fn idempotence_ignores_case() {
    assert!(is_idempotent("get"));
    assert!(is_idempotent("Options"));
    assert!(!is_idempotent("post"));
    assert!(!is_idempotent(""));
    assert!(is_idempotent_name("TRACE"));
    assert!(!is_idempotent_name("trace"));
}

#[test]
fn ascii_case_folding() {
    assert!(eq_ignoring_ascii_case("Origin", "origin"));
    assert!(eq_ignoring_ascii_case("ACCESS-control", "access-CONTROL"));
    assert!(!eq_ignoring_ascii_case("origin", "origins"));
    assert!(!eq_ignoring_ascii_case("Ä", "ä"));
    let hs = headers(&[("Origin", "https://a"), ("origin", "https://b")]);
    assert_eq!(header_value(&hs, "ORIGIN"), Some("https://a".to_string()));
    assert_eq!(header_value(&hs, "vary"), None);
}

#[test]
fn cors_adds_headers_for_simple_request() {
    let mw = CorsMiddleware::new((), CorsPolicy::default());
    let action = mw.decide("GET", &headers(&[("Origin", "https://example.com")]));
    assert!(matches!(action, CorsAction::Decorate { .. }));
    assert_eq!(
        get(&action, "access-control-allow-origin"),
        Some("*".to_string())
    );
    assert_eq!(get(&action, "vary"), Some("origin".to_string()));
    assert_eq!(get(&action, "access-control-allow-credentials"), None);
}

#[test]
fn cors_preflight_short_circuits_inner_handler() {
    let mw = CorsMiddleware::new((), CorsPolicy::default());
    let action = mw.decide(
        "OPTIONS",
        &headers(&[
            ("Origin", "https://example.com"),
            ("Access-Control-Request-Method", "POST"),
            ("Access-Control-Request-Headers", "content-type"),
        ]),
    );
    assert!(matches!(action, CorsAction::Preflight { .. }));
    assert_eq!(
        get(&action, "access-control-allow-origin"),
        Some("*".to_string())
    );
    assert_eq!(
        get(&action, "access-control-allow-methods"),
        Some("GET, POST, PUT, PATCH, DELETE, HEAD, OPTIONS".to_string())
    );
    assert_eq!(
        get(&action, "access-control-allow-headers"),
        Some("*".to_string())
    );
    assert_eq!(
        get(&action, "access-control-max-age"),
        Some("600".to_string())
    );
    assert_eq!(
        get(&action, "vary"),
        Some("origin, access-control-request-method, access-control-request-headers".to_string())
    );
}

#[test]
fn options_without_requested_method_is_not_a_preflight() {
    let mw = CorsMiddleware::new((), CorsPolicy::default());
    let action = mw.decide("options", &headers(&[("origin", "https://x")]));
    assert!(matches!(action, CorsAction::Decorate { .. }));
}

#[test]
fn cors_exact_origins_blocks_unknown_origin() {
    let policy = CorsPolicy::with_exact_origins(vec![
        "https://allowed.example".to_string(),
        "https://another.example".to_string(),
    ]);
    assert!(matches!(policy.allow_origin, CorsAllowOrigin::Exact(_)));
    let mw = CorsMiddleware::new((), policy);

    let blocked = mw.decide("GET", &headers(&[("Origin", "https://blocked.example")]));
    assert_eq!(blocked, CorsAction::PassThrough);

    let allowed = mw.decide("GET", &headers(&[("Origin", "https://ALLOWED.example")]));
    assert_eq!(
        get(&allowed, "access-control-allow-origin"),
        Some("https://allowed.example".to_string())
    );
}

#[test]
fn cors_without_origin_passes_through() {
    let mw = CorsMiddleware::new((), CorsPolicy::default());
    assert_eq!(mw.decide("GET", &headers(&[])), CorsAction::PassThrough);
}

#[test]
fn cors_with_credentials_echoes_origin() {
    let policy = CorsPolicy {
        allow_credentials: true,
        expose_headers: vec!["x-a".to_string(), "x-b".to_string()],
        ..CorsPolicy::default()
    };
    let mw = CorsMiddleware::new((), policy);
    let action = mw.decide("GET", &headers(&[("Origin", "https://cred.example")]));
    assert_eq!(
        get(&action, "access-control-allow-origin"),
        Some("https://cred.example".to_string())
    );
    assert_eq!(
        get(&action, "access-control-allow-credentials"),
        Some("true".to_string())
    );
    assert_eq!(
        get(&action, "access-control-expose-headers"),
        Some("x-a, x-b".to_string())
    );
    assert_eq!(
        mw.allowed_origin_value("https://other"),
        Some("https://other".to_string())
    );
}

#[test]
fn timeout_layer_reports_overruns() {
    let mw = TimeoutMiddleware::new((), Duration::from_millis(5));
    assert_eq!(mw.deadline(), Duration::from_millis(5));
    assert!(!mw.overran(&Duration::from_millis(5)));
    assert!(mw.overran(&Duration::from_millis(6)));
}

#[test]
fn middleware_stack_composition() {
    let stack = MiddlewareStack::new(7u8)
        .with_timeout(Duration::from_secs(5))
        .with_cors(CorsPolicy::default())
        .build();
    let timeout = stack.inner_handler();
    assert_eq!(timeout.deadline(), Duration::from_secs(5));
}
