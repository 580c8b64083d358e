use clearlane::omnibox::{decide_from_parse, guess_host_address, normalize_omnibox};
use clearlane::weburl::ParsedUrl;

#[test]
fn keeps_http_urls() {
    assert_eq!(
        normalize_omnibox(" https://example.com/a "),
        Some("https://example.com/a".into())
    );
}

#[test]
fn adds_https_to_hosts() {
    assert_eq!(
        normalize_omnibox("example.com/path"),
        Some("https://example.com/path".into())
    );
}

#[test]
fn localhost_defaults_to_http() {
    assert_eq!(
        normalize_omnibox("localhost:3000"),
        Some("http://localhost:3000".into())
    );
}

#[test]
fn searches_plain_text() {
    assert_eq!(
        normalize_omnibox("clear lane browser"),
        Some("https://www.google.com/search?q=clear+lane+browser".into())
    );
}

#[test]
fn does_not_open_file_or_custom_schemes() {
    let result = normalize_omnibox("file:///C:/secret.txt").unwrap();
    assert!(result.starts_with("https://www.google.com/search?q="));
    let custom = normalize_omnibox("mailto:test@example.com").unwrap();
    assert!(custom.starts_with("https://www.google.com/search?q="));
}

#[test]
fn blank_input_opens_nothing() {
    assert_eq!(normalize_omnibox(""), None);
    assert_eq!(normalize_omnibox(" \t\n"), None);
}

#[test]
fn loopback_addresses_default_to_http() {
    assert_eq!(
        normalize_omnibox("127.0.0.1:8080/x"),
        Some("http://127.0.0.1:8080/x".into())
    );
    assert_eq!(
        normalize_omnibox("LocalHost"),
        Some("http://LocalHost".into())
    );
}

#[test]
fn serializes_parsed_urls() {
    assert_eq!(
        normalize_omnibox("HTTP://Example.COM"),
        Some("http://example.com/".into())
    );
}

#[test]
fn search_query_is_form_encoded() {
    assert_eq!(
        normalize_omnibox("a&b=c"),
        Some("https://www.google.com/search?q=a%26b%3Dc".into())
    );
    assert_eq!(
        normalize_omnibox("caf\u{e9}"),
        Some("https://www.google.com/search?q=caf%C3%A9".into())
    );
    assert_eq!(
        normalize_omnibox("a\\b.c"),
        Some("https://www.google.com/search?q=a%5Cb.c".into())
    );
}

#[test]
fn host_with_port_is_opened_but_custom_schemes_are_searched() {
    assert_eq!(
        normalize_omnibox("example.com:8080/x"),
        Some("https://example.com:8080/x".into())
    );
    assert_eq!(
        normalize_omnibox("javascript:alert(1)"),
        Some("https://www.google.com/search?q=javascript%3Aalert%281%29".into())
    );
}

#[test]
fn parse_decision_opens_web_urls_and_searches_other_schemes() {
    let web = ParsedUrl {
        scheme: "https".into(),
        href: "https://example.com/".into(),
        host: Some("example.com".into()),
    };
    assert_eq!(
        decide_from_parse("https://example.com", Some(web)),
        Some("https://example.com/".into())
    );
    let mail = ParsedUrl {
        scheme: "mailto".into(),
        href: "mailto:a@b.c".into(),
        host: None,
    };
    assert_eq!(
        decide_from_parse("mailto:a@b.c", Some(mail)),
        Some("https://www.google.com/search?q=mailto%3Aa%40b.c".into())
    );
    let port = ParsedUrl {
        scheme: "localhost".into(),
        href: "localhost:3000".into(),
        host: None,
    };
    assert_eq!(decide_from_parse("localhost:3000", Some(port)), None);
    assert_eq!(decide_from_parse("example.com/path", None), None);
}

#[test]
fn host_guess_adds_a_scheme_to_host_like_text() {
    assert_eq!(
        guess_host_address("example.com/path"),
        Some("https://example.com/path".into())
    );
    assert_eq!(
        guess_host_address("localhost:3000"),
        Some("http://localhost:3000".into())
    );
    assert_eq!(guess_host_address("plain"), None);
    assert_eq!(guess_host_address("two words.com"), None);
    assert_eq!(guess_host_address("a\\b.c"), None);
}

#[test]
fn every_address_starts_with_a_web_scheme_and_slashes() {
    for text in ["HTTP://Example.COM", "example.com", "localhost", "mailto:x@y.z", "file:///C:/a", "plain words"] {
        let address = normalize_omnibox(text).unwrap();
        assert!(address.starts_with("http://") || address.starts_with("https://"));
    }
}
