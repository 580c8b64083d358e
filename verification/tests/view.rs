use clearlane::browser::BrowserState;
use clearlane::shields::Shields;
use clearlane::view::chrome_view;

#[test]
fn chrome_shows_the_active_tab() {
    let mut browser = BrowserState::default();
    let mut shields = Shields::fallback(vec!["b.example".to_string()]);
    let a = browser.open_tab("https://a.example/".into());
    let b = browser.open_tab("https://b.example/".into());
    browser.update_title(a, "Alpha".into());
    assert!(shields.should_block(a.0, "https://a.example/", "https://stats.doubleclick.net/x"));
    let v = chrome_view(&browser, &shields);
    assert_eq!(v.tab_labels, vec!["Alpha".to_string(), "New tab".to_string()]);
    assert_eq!(v.selected, Some(1));
    assert_eq!(v.omnibox, "https://b.example/");
    assert_eq!(v.shields_label, "Shields OFF 0");
    assert_eq!(v.window_title, Some("New tab \u{2014} ClearLane".to_string()));
    browser.activate(a);
    let v = chrome_view(&browser, &shields);
    assert_eq!(v.selected, Some(0));
    assert_eq!(v.shields_label, "Shields ON 1");
    assert_eq!(v.window_title, Some("Alpha \u{2014} ClearLane".to_string()));
    browser.update_title(b, "  ".into());
    browser.activate(b);
    let v = chrome_view(&browser, &shields);
    assert_eq!(v.tab_labels[1], "https://b.example/");
}

#[test]
fn chrome_without_tabs_is_empty() {
    let browser = BrowserState::default();
    let shields = Shields::fallback(Vec::new());
    let v = chrome_view(&browser, &shields);
    assert!(v.tab_labels.is_empty());
    assert_eq!(v.selected, None);
    assert_eq!(v.omnibox, "");
    assert_eq!(v.shields_label, "Shields ON 0");
    assert_eq!(v.window_title, None);
}
