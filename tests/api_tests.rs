use ghostdock::number::u64_to_decimal;
use ghostdock::access::{access_result, action_for_method, AccessDecision, Action};
use ghostdock::auth::{
    create_auth_state, extract_token_from_header, generate_scopes_for_role, has_scope,
    is_public_endpoint, requires_auth, Claims, JwtConfig,
};
use ghostdock::range::{find_char, format_content_range, handle_range_request, parse_content_range};
use ghostdock::error::RegistryError;

#[test]
fn test_range_request_parsing() {
    let data = b"Hello, World!";

    let range = handle_range_request(data, "bytes=0-4").unwrap();
    assert_eq!(range.start, 0);
    assert_eq!(range.end, 4);
    assert_eq!(range.data, b"Hello");

    let range = handle_range_request(data, "bytes=7-").unwrap();
    assert_eq!(range.start, 7);
    assert_eq!(range.end, 12);
    assert_eq!(range.data, b"World!");
}

#[test]
fn test_public_endpoints() {
    assert!(is_public_endpoint("/health"));
    assert!(is_public_endpoint("/"));
    assert!(is_public_endpoint("/auth/login"));
    assert!(!is_public_endpoint("/dashboard"));
    assert!(!is_public_endpoint("/repositories"));
}

#[test]
fn test_auth_required_endpoints() {
    assert!(requires_auth("/v2/myrepo/manifests/latest"));
    assert!(requires_auth("/api/stacks"));
    assert!(requires_auth("/dashboard"));
    assert!(!requires_auth("/v2/"));
    assert!(!requires_auth("/health"));
}

#[test]
fn range_edges() {
    let data = b"hello\n";
    let r = handle_range_request(data, "bytes=0-0").unwrap();
    assert_eq!((r.start, r.end), (0, 0));
    assert_eq!(r.data, b"h");
    let r = handle_range_request(data, "bytes=5-").unwrap();
    assert_eq!((r.start, r.end), (5, 5));
    assert_eq!(r.data, b"\n");
    let r = handle_range_request(data, "bytes=2-100").unwrap();
    assert_eq!((r.start, r.end), (2, 5));
    assert!(handle_range_request(data, "bytes=6-").is_none());
    assert!(handle_range_request(data, "bytes=3-1").is_none());
    assert!(handle_range_request(data, "bytes=a-1").is_none());
    assert!(handle_range_request(data, "items=0-1").is_none());
    assert!(handle_range_request(data, "bytes=01").is_none());
    assert!(handle_range_request(b"", "bytes=0-").is_none());
    let r = handle_range_request(data, "bytes=+1-+2").unwrap();
    assert_eq!(r.data, b"el");
}

#[test]
fn content_range_parse_and_format() {
    assert_eq!(parse_content_range("0-5"), Ok((0, 5)));
    assert_eq!(parse_content_range("bytes=3-5"), Ok((3, 5)));
    assert_eq!(parse_content_range("bytes=3-"), Ok((3, u64::MAX)));
    assert_eq!(parse_content_range("5-3"), Err(RegistryError::RangeInvalid));
    assert_eq!(parse_content_range("1-2-3"), Err(RegistryError::RangeInvalid));
    assert_eq!(parse_content_range("12"), Err(RegistryError::RangeInvalid));
    assert_eq!(parse_content_range("x-3"), Err(RegistryError::RangeInvalid));
    assert_eq!(parse_content_range("18446744073709551616-1"), Err(RegistryError::RangeInvalid));
    assert_eq!(format_content_range(1, 3, Some(6)), "bytes 1-3/6");
    assert_eq!(format_content_range(0, 1023, None), "bytes 0-1023/*");
    assert_eq!(format_content_range(10, 20, Some(12345678901)), "bytes 10-20/12345678901");
}

#[test]
fn find_char_positions() {
    assert_eq!(find_char("a-b-c", '-', 0), Some(1));
    assert_eq!(find_char("a-b-c", '-', 2), Some(3));
    assert_eq!(find_char("abc", '-', 0), None);
}

#[test]
fn bearer_tokens_and_scopes() {
    assert_eq!(extract_token_from_header("Bearer abc.def"), Some("abc.def"));
    assert_eq!(extract_token_from_header("Basic abc"), None);
    assert_eq!(extract_token_from_header("Bearer "), Some(""));

    let scopes = generate_scopes_for_role("developer");
    assert_eq!(scopes, vec!["registry:read", "registry:write", "stack:manage"]);
    assert_eq!(generate_scopes_for_role("reader"), vec!["registry:read"]);
    assert_eq!(generate_scopes_for_role("someone"), vec!["registry:read"]);
    assert_eq!(generate_scopes_for_role("admin").len(), 6);

    let claims = Claims {
        sub: "user123".to_string(),
        name: "Test User".to_string(),
        email: "test@example.com".to_string(),
        exp: 0,
        iat: 0,
        iss: "ghostdock".to_string(),
        scope: scopes,
    };
    assert!(has_scope(&claims, "registry:read"));
    assert!(has_scope(&claims, "registry:write"));
    assert!(!has_scope(&claims, "admin"));
    let admin = Claims { scope: generate_scopes_for_role("admin"), ..claims };
    assert!(has_scope(&admin, "anything:at-all"));

    let cfg = JwtConfig::new("test-secret".to_string());
    assert_eq!(cfg.issuer, "ghostdock");
    assert_eq!(cfg.expiration_hours, 24);
    let st = create_auth_state("s".to_string(), true);
    assert!(st.require_auth);
    assert_eq!(st.jwt_config.secret, "s");
}

#[test]
fn access_decisions() {
    assert_eq!(access_result(AccessDecision::Allow), Ok(()));
    assert_eq!(access_result(AccessDecision::Deny), Err(RegistryError::Denied));
    assert_eq!(access_result(AccessDecision::Unauthenticated), Err(RegistryError::Unauthorized));
    assert_eq!(action_for_method("GET"), Action::Read);
    assert_eq!(action_for_method("HEAD"), Action::Read);
    assert_eq!(action_for_method("PATCH"), Action::Write);
    assert_eq!(action_for_method("DELETE"), Action::Delete);
}

#[test]
fn decimal_texts() {
    assert_eq!(u64_to_decimal(0), "0");
    assert_eq!(u64_to_decimal(9), "9");
    assert_eq!(u64_to_decimal(10), "10");
    assert_eq!(u64_to_decimal(u64::MAX), "18446744073709551615");
}
