use clearlane::persistence::{decode_session, encode_session, PersistedState};

#[test]
fn round_trips_session_and_shield_overrides() {
    let urls = vec![
        "https://example.com/".to_string(),
        "https://rust-lang.org/".to_string(),
    ];
    let disabled = vec!["example.com".to_string()];
    let record = encode_session(&urls, 1, false, &disabled);
    let loaded = decode_session(
        record.tab_urls,
        Some(record.active_index),
        Some(record.sidebar_open),
        record.shield_keys,
    );
    assert_eq!(loaded.urls, urls);
    assert_eq!(loaded.active_index, 1);
    assert!(!loaded.sidebar_open);
    assert!(loaded.disabled_shields.contains(&"example.com".to_string()));
}

#[test]
fn encoded_rows_name_each_setting() {
    let record = encode_session(&["https://a.example/".to_string()], 12, true, &["x.example".to_string()]);
    assert_eq!(record.tab_urls, vec!["https://a.example/".to_string()]);
    assert_eq!(record.active_index, "12");
    assert_eq!(record.sidebar_open, "1");
    assert_eq!(record.shield_keys, vec!["shield_off:x.example".to_string()]);
}

#[test]
fn empty_store_gives_the_default_session() {
    let loaded = decode_session(Vec::new(), None, None, Vec::new());
    let default = PersistedState::default();
    assert_eq!(loaded.urls, vec!["https://www.google.com/".to_string()]);
    assert_eq!(loaded.urls, default.urls);
    assert_eq!(loaded.active_index, 0);
    assert!(loaded.sidebar_open);
    assert!(loaded.disabled_shields.is_empty());
}

#[test]
fn unreadable_settings_fall_back() {
    let loaded = decode_session(
        vec!["https://a.example/".to_string()],
        Some("seven".to_string()),
        Some("yes".to_string()),
        vec!["shield_off:shield_off:b.example".to_string(), "shield_off:c.example".to_string(), "shield_off:c.example".to_string()],
    );
    assert_eq!(loaded.active_index, 0);
    assert!(!loaded.sidebar_open);
    let mut sites = loaded.disabled_shields.clone();
    sites.sort();
    assert_eq!(sites, vec!["b.example".to_string(), "c.example".to_string()]);
}

#[test]
fn active_index_parses_like_usize() {
    let parse = |s: &str| decode_session(Vec::new(), Some(s.to_string()), None, Vec::new()).active_index;
    assert_eq!(parse("+5"), 5);
    assert_eq!(parse("007"), 7);
    assert_eq!(parse(" 5"), 0);
    assert_eq!(parse("-1"), 0);
    assert_eq!(parse("99999999999999999999999"), 0);
    assert_eq!(parse(&usize::MAX.to_string()), usize::MAX);
}
