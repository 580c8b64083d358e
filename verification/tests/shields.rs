use clearlane::shields::{site_host, Shields};

#[test]
fn fallback_rules_block_known_tracker() {
    let mut shields = Shields::load(Vec::new(), Vec::new());
    assert!(shields.should_block(
        1,
        "https://example.com/",
        "https://stats.doubleclick.net/pixel"
    ));
    assert_eq!(shields.blocked_count(1), 1);
}

#[test]
fn per_site_override_disables_blocking() {
    let mut shields = Shields::load(Vec::new(), Vec::new());
    shields.set_enabled_for_url("https://example.com", false);
    assert!(!shields.should_block(
        1,
        "https://example.com/",
        "https://stats.doubleclick.net/pixel"
    ));
}

#[test]
fn allowed_requests_are_not_counted() {
    let mut shields = Shields::fallback(Vec::new());
    assert!(!shields.should_block(3, "https://example.com/", "https://example.com/app.js"));
    assert_eq!(shields.blocked_count(3), 0);
}

#[test]
fn counts_are_per_tab_and_cleared() {
    let mut shields = Shields::fallback(Vec::new());
    assert!(shields.should_block(1, "https://example.com/", "https://stats.doubleclick.net/a"));
    assert!(shields.should_block(1, "https://example.com/", "https://ads-twitter.com/b"));
    assert!(shields.should_block(2, "https://example.com/", "https://stats.doubleclick.net/c"));
    assert_eq!(shields.blocked_count(1), 2);
    assert_eq!(shields.blocked_count(2), 1);
    shields.clear_tab(1);
    assert_eq!(shields.blocked_count(1), 0);
    assert_eq!(shields.blocked_count(2), 1);
}

#[test]
fn unparsable_request_is_let_through() {
    let mut shields = Shields::fallback(Vec::new());
    assert!(!shields.should_block(1, "https://example.com/", "not a url"));
    assert_eq!(shields.blocked_count(1), 0);
}

#[test]
fn overrides_follow_the_lower_cased_host() {
    let mut shields = Shields::fallback(vec!["example.com".to_string()]);
    assert!(!shields.enabled_for_url("https://EXAMPLE.com/page"));
    assert!(shields.enabled_for_url("https://other.example/"));
    assert!(shields.enabled_for_url("not a url"));
    assert_eq!(
        shields.set_enabled_for_url("https://Example.com/x", true),
        Some("example.com".to_string())
    );
    assert!(shields.enabled_for_url("https://example.com/"));
    assert!(shields.disabled_sites().is_empty());
    assert_eq!(shields.set_enabled_for_url("mailto:a@b", false), None);
}

#[test]
fn disabled_sites_are_listed_once() {
    let mut shields = Shields::fallback(vec!["a.example".to_string(), "a.example".to_string()]);
    shields.set_enabled_for_url("https://b.example/", false);
    shields.set_enabled_for_url("https://b.example/", false);
    let mut sites = shields.disabled_sites();
    sites.sort();
    assert_eq!(sites, vec!["a.example".to_string(), "b.example".to_string()]);
}

#[test]
fn extra_lists_are_compiled_with_the_fallback_rules() {
    let mut shields = Shields::load(vec!["||tracker.example^\n".to_string()], Vec::new());
    assert!(shields.should_block(1, "https://example.com/", "https://tracker.example/t.js"));
    assert!(shields.should_block(1, "https://example.com/", "https://stats.doubleclick.net/p"));
    let fallback = Shields::fallback(Vec::new());
    let mut replaced = Shields::fallback(Vec::new());
    drop(fallback);
    replaced.replace_engine(Shields::build_full_engine(vec!["||tracker.example^\n".to_string()]));
    assert!(replaced.should_block(4, "https://example.com/", "https://tracker.example/t.js"));
}

#[test]
fn site_host_is_lower_case_host() {
    assert_eq!(site_host("https://WWW.Example.com:8080/a"), Some("www.example.com".to_string()));
    assert_eq!(site_host("data:text/plain,x"), None);
    assert_eq!(site_host("::"), None);
}

#[test]
fn recorded_verdicts_count_only_blocked_requests() {
    let mut shields = Shields::fallback(Vec::new());
    assert!(shields.record_verdict(4, true));
    assert!(shields.record_verdict(4, true));
    assert!(!shields.record_verdict(4, false));
    assert_eq!(shields.blocked_count(4), 2);
    assert_eq!(shields.blocked_count(5), 0);
}

#[test]
fn blocked_count_restarts_after_clear() {
    let mut shields = Shields::load(Vec::new(), Vec::new());
    let tracker = "https://stats.doubleclick.net/pixel";
    assert!(shields.should_block(1, "https://example.com/", tracker));
    assert!(shields.should_block(1, "https://example.com/", tracker));
    assert!(shields.should_block(2, "https://example.com/", tracker));
    shields.clear_tab(1);
    assert_eq!(shields.blocked_count(1), 0);
    assert!(shields.should_block(1, "https://example.com/", tracker));
    shields.set_enabled_for_url("https://other.example", false);
    assert_eq!(shields.blocked_count(1), 1);
    assert_eq!(shields.blocked_count(2), 1);
}
