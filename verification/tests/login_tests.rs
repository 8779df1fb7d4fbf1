use docuram_sync::remote::{extract_server_url, parse_domain};

#[test]
fn test_parse_domain_subdomain() {
    assert_eq!(parse_domain("example"), "https://example.teamturbo.io");
    assert_eq!(parse_domain("my-team"), "https://my-team.teamturbo.io");
    assert_eq!(parse_domain("test123"), "https://test123.teamturbo.io");
}

#[test]
fn test_parse_domain_https() {
    assert_eq!(parse_domain("https://example.com"), "https://example.com");
    assert_eq!(parse_domain("https://api.example.com"), "https://api.example.com");
    assert_eq!(parse_domain("https://example.com/"), "https://example.com");
}

#[test]
fn test_parse_domain_http() {
    assert_eq!(parse_domain("http://localhost:3000"), "http://localhost:3000");
    assert_eq!(parse_domain("http://192.168.1.100"), "http://192.168.1.100");
    assert_eq!(parse_domain("http://example.com/"), "http://example.com");
}

#[test]
fn test_parse_domain_whitespace() {
    assert_eq!(parse_domain("  example  "), "https://example.teamturbo.io");
    assert_eq!(parse_domain(" https://example.com/ "), "https://example.com");
}

#[test]
fn server_url_from_config_url() {
    assert_eq!(
        extract_server_url("https://example.com/docuram/categories/7/generate_config"),
        Some("https://example.com".to_string())
    );
    assert_eq!(
        extract_server_url("http://127.0.0.1:3100/somewhere"),
        Some("http://127.0.0.1:3001".to_string())
    );
    assert_eq!(
        extract_server_url("http://127.0.0.1:3100/api/things"),
        Some("http://127.0.0.1:3100".to_string())
    );
    assert_eq!(
        extract_server_url("http://localhost:3001/api/things"),
        Some("http://localhost:3001".to_string())
    );
    assert_eq!(extract_server_url("not a url at all"), None);
}

#[test]
fn login_id_draws_from_charset() {
    let id = docuram_sync::auth::generate_login_id();
    assert_eq!(id.chars().count(), 32);
    for c in id.chars() {
        assert!(c.is_ascii_lowercase() || c.is_ascii_digit());
    }
}
