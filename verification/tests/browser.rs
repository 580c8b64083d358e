use clearlane::browser::{BrowserState, TabId};

#[test]
fn closing_active_tab_selects_a_neighbor() {
    let mut browser = BrowserState::default();
    let first = browser.open_tab("https://one.example".into());
    let second = browser.open_tab("https://two.example".into());
    assert_eq!(browser.active_id(), Some(second));
    assert!(browser.close_tab(second));
    assert_eq!(browser.active_id(), Some(first));
}

#[test]
fn unknown_tab_operations_are_noops() {
    let mut browser = BrowserState::default();
    assert!(!browser.activate(TabId(99)));
    assert!(!browser.close_tab(TabId(99)));
}

#[test]
fn closing_a_middle_active_tab_selects_the_tab_after_it() {
    let mut browser = BrowserState::default();
    let a = browser.open_tab("https://a.example".into());
    let b = browser.open_tab("https://b.example".into());
    let c = browser.open_tab("https://c.example".into());
    assert!(browser.activate(b));
    assert!(browser.close_tab(b));
    assert_eq!(browser.active_id(), Some(c));
    let ids: Vec<TabId> = browser.tabs().iter().map(|t| t.id).collect();
    assert_eq!(ids, vec![a, c]);
}

#[test]
fn closing_an_inactive_tab_keeps_the_active_one() {
    let mut browser = BrowserState::default();
    let a = browser.open_tab("https://a.example".into());
    let b = browser.open_tab("https://b.example".into());
    assert!(browser.close_tab(a));
    assert_eq!(browser.active_id(), Some(b));
}

#[test]
fn closing_the_last_tab_leaves_no_active_tab() {
    let mut browser = BrowserState::default();
    let a = browser.open_tab("https://a.example".into());
    assert!(browser.close_tab(a));
    assert_eq!(browser.active_id(), None);
    assert!(browser.active().is_none());
    assert!(browser.tabs().is_empty());
}

#[test]
fn identifiers_are_not_reused_after_close() {
    let mut browser = BrowserState::default();
    let a = browser.open_tab("https://a.example".into());
    assert_eq!(a, TabId(1));
    assert!(browser.close_tab(a));
    let b = browser.open_tab("https://b.example".into());
    assert_eq!(b, TabId(2));
}

#[test]
fn open_then_close_restores_the_tab_list() {
    let mut browser = BrowserState::default();
    browser.open_tab("https://a.example".into());
    browser.open_tab("https://b.example".into());
    let before: Vec<String> = browser.tabs().iter().map(|t| t.url.clone()).collect();
    let extra = browser.open_tab("https://c.example".into());
    assert!(browser.close_tab(extra));
    let after: Vec<String> = browser.tabs().iter().map(|t| t.url.clone()).collect();
    assert_eq!(before, after);
}

#[test]
fn new_tab_starts_loading_with_placeholder_title() {
    let mut browser = BrowserState::default();
    let id = browser.open_tab("https://a.example".into());
    let tab = browser.tab(id).unwrap();
    assert_eq!(tab.title, "New tab");
    assert_eq!(tab.url, "https://a.example");
    assert!(tab.loading);
    assert!(!tab.can_go_back);
    assert!(!tab.can_go_forward);
    assert_eq!(browser.active().unwrap().id, id);
}

#[test]
fn blank_title_shows_the_address() {
    let mut browser = BrowserState::default();
    let id = browser.open_tab("https://a.example".into());
    browser.update_title(id, " \t\u{3000}".into());
    assert_eq!(browser.tab(id).unwrap().title, "https://a.example");
    browser.update_title(id, "Example".into());
    assert_eq!(browser.tab(id).unwrap().title, "Example");
}

#[test]
fn updates_reach_only_the_named_tab() {
    let mut browser = BrowserState::default();
    let a = browser.open_tab("https://a.example".into());
    let b = browser.open_tab("https://b.example".into());
    browser.update_address(a, "https://a.example/next".into());
    browser.update_loading(a, false, true, false);
    assert_eq!(browser.tab(a).unwrap().url, "https://a.example/next");
    assert!(!browser.tab(a).unwrap().loading);
    assert!(browser.tab(a).unwrap().can_go_back);
    assert_eq!(browser.tab(b).unwrap().url, "https://b.example");
    assert!(browser.tab(b).unwrap().loading);
    browser.update_address(TabId(42), "https://nowhere.example".into());
    assert_eq!(browser.tabs().len(), 2);
}

#[test]
fn tab_mut_changes_the_tab_in_place() {
    let mut browser = BrowserState::default();
    let a = browser.open_tab("https://a.example".into());
    browser.tab_mut(a).unwrap().title = "Changed".into();
    assert_eq!(browser.tab(a).unwrap().title, "Changed");
    assert!(browser.tab_mut(TabId(7)).is_none());
}

#[test]
fn first_tab_gets_identifier_one_and_ids_increase() {
    let mut browser = BrowserState::default();
    let a = browser.open_tab("https://a.example".into());
    let b = browser.open_tab("https://b.example".into());
    assert_eq!(a, TabId(1));
    assert_eq!(b, TabId(2));
    let ids: Vec<u64> = browser.tabs().iter().map(|t| t.id.0).collect();
    assert_eq!(ids, vec![1, 2]);
}

#[test]
fn lookups_find_the_first_tab_with_an_identifier() {
    let mut browser = BrowserState::default();
    let a = browser.open_tab("https://a.example".into());
    let b = browser.open_tab("https://b.example".into());
    browser.tab_mut(b).unwrap().id = a;
    assert!(browser.active().is_none());
    assert_eq!(browser.tab(a).unwrap().url, "https://a.example");
    assert!(browser.close_tab(a));
    assert_eq!(browser.tabs().len(), 1);
    assert_eq!(browser.tabs()[0].url, "https://b.example");
}
