use pake::url_match::{allowed_host, extract_url_arg, is_on_host, url_host};

fn args(list: &[&str]) -> Vec<String> {
    list.iter().map(|s| s.to_string()).collect()
}

#[test]
fn finds_the_first_url_on_the_configured_host() {
    let found = extract_url_arg(
        &args(&["exe", "https://example.com/page", "irrelevant"]),
        "https://example.com",
    );
    assert_eq!(found, Some("https://example.com/page".to_string()));
}

#[test]
fn rejects_a_url_on_another_host() {
    let found = extract_url_arg(&args(&["exe", "https://evil.com/x"]), "https://example.com");
    assert_eq!(found, None);
}

#[test]
fn rejects_an_argument_that_is_no_url() {
    for config in ["https://example.com", "http://example.com/app", "example.com", ""] {
        assert_eq!(extract_url_arg(&args(&["exe", "not-a-url"]), config), None);
    }
}

#[test]
fn never_returns_the_executable_path() {
    let found = extract_url_arg(
        &args(&["https://example.com/first", "https://example.com/second"]),
        "https://example.com",
    );
    assert_eq!(found, Some("https://example.com/second".to_string()));
    assert_eq!(extract_url_arg(&args(&["https://example.com/only"]), "https://example.com"), None);
    assert_eq!(extract_url_arg(&args(&[]), "https://example.com"), None);
}

#[test]
fn returns_the_first_of_several_matches() {
    let found = extract_url_arg(
        &args(&["exe", "--flag", "http://example.com/a", "https://example.com/b"]),
        "https://example.com/start",
    );
    assert_eq!(found, Some("http://example.com/a".to_string()));
}

#[test]
fn host_stops_at_the_first_slash() {
    assert_eq!(allowed_host("https://example.com/a/b"), "example.com");
    assert_eq!(allowed_host("http://example.com/"), "example.com");
    assert_eq!(allowed_host("https://example.com"), "example.com");
    assert_eq!(allowed_host("https://example.com:8080/x"), "example.com:8080");
    assert_eq!(allowed_host("https://user@example.com?q=1"), "user@example.com?q=1");
}

#[test]
fn host_is_empty_without_a_scheme() {
    assert_eq!(allowed_host("example.com/path"), "");
    assert_eq!(allowed_host("ftp://example.com"), "");
    assert_eq!(allowed_host("HTTPS://example.com"), "");
    assert_eq!(allowed_host(""), "");
    assert_eq!(url_host("example.com/path"), None);
    assert_eq!(url_host("https://"), Some(""));
    assert_eq!(url_host("https:///path"), Some(""));
    assert_eq!(url_host("http://h"), Some("h"));
    assert_eq!(url_host("http:/h"), None);
}

#[test]
fn empty_host_matches_empty_host() {
    assert_eq!(
        extract_url_arg(&args(&["exe", "http://"]), "no-scheme"),
        Some("http://".to_string())
    );
    assert_eq!(
        extract_url_arg(&args(&["exe", "https:///deep/path"]), "https://"),
        Some("https:///deep/path".to_string())
    );
    assert_eq!(extract_url_arg(&args(&["exe", "plain"]), "no-scheme"), None);
    assert_eq!(extract_url_arg(&args(&["exe", "https://example.com"]), "no-scheme"), None);
}

#[test]
fn host_comparison_is_exact() {
    assert!(is_on_host("https://example.com/x", "example.com"));
    assert!(is_on_host("http://example.com", "example.com"));
    assert!(!is_on_host("https://Example.com/x", "example.com"));
    assert!(!is_on_host("https://example.com.evil.org/x", "example.com"));
    assert!(!is_on_host("https://sub.example.com/x", "example.com"));
    assert!(!is_on_host("https://example.co/x", "example.com"));
    assert!(!is_on_host("https://example.com:443/x", "example.com"));
    assert!(!is_on_host("example.com", "example.com"));
}

#[test]
fn hosts_outside_ascii_are_compared_by_character() {
    assert_eq!(allowed_host("https://bücher.example/läden"), "bücher.example");
    assert_eq!(
        extract_url_arg(&args(&["exe", "https://bücher.example/x"]), "http://bücher.example"),
        Some("https://bücher.example/x".to_string())
    );
    assert_eq!(
        extract_url_arg(&args(&["exe", "https://bucher.example/x"]), "http://bücher.example"),
        None
    );
}
