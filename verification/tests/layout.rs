use clearlane::layout::{browser_bounds, chrome_layout, EngineBounds};

#[test]
fn page_area_sits_below_the_toolbar_and_beside_the_sidebar() {
    assert_eq!(
        browser_bounds(1280, 800, 96, true),
        EngineBounds { x: 224, y: 48, width: 1056, height: 752 }
    );
    assert_eq!(
        browser_bounds(1280, 800, 192, false),
        EngineBounds { x: 0, y: 96, width: 1280, height: 704 }
    );
    assert_eq!(
        browser_bounds(100, 10, 96, true),
        EngineBounds { x: 224, y: 48, width: 1, height: 1 }
    );
}

#[test]
fn toolbar_controls_are_laid_out_left_to_right() {
    let l = chrome_layout(1280, 800, 96, true);
    assert_eq!(l.sidebar_toggle, EngineBounds { x: 6, y: 6, width: 36, height: 34 });
    assert_eq!(l.back.x, 48);
    assert_eq!(l.stop.x, 174);
    assert_eq!(l.omnibox, EngineBounds { x: 216, y: 8, width: 1280 - 216 - 116 - 12, height: 30 });
    assert_eq!(l.shields.x, 216 + l.omnibox.width + 6);
    assert!(l.sidebar_visible);
    assert_eq!(l.tab_list, EngineBounds { x: 6, y: 92, width: 212, height: 702 });
    let narrow = chrome_layout(300, 800, 96, false);
    assert_eq!(narrow.omnibox.width, 140);
    assert!(!narrow.sidebar_visible);
    assert_eq!(narrow.page.x, 0);
}
