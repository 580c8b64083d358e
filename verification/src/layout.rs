//! Geometry of the browser window: where the toolbar controls, the sidebar and the page go
//! for a given client area and display scale.
use vstd::prelude::*;

verus! {

/// A rectangle in client coordinates.
#[derive(Clone, Copy, Debug, Default, PartialEq, Eq, Structural)]
pub struct EngineBounds {
    pub x: i32,
    pub y: i32,
    pub width: i32,
    pub height: i32,
}

/// A length of `v` device-independent pixels at `dpi` dots per inch (96 is 100%).
pub open spec fn scale(v: int, dpi: int) -> int {
    v * dpi / 96
}

/// The display scale is at least 100% and every scaled length up to the sidebar width fits.
pub open spec fn dpi_in_range(dpi: i32) -> bool {
    96 <= dpi && 224 * dpi <= i32::MAX
}

/// Scales `v` device-independent pixels to `dpi`.
fn scaled(v: i32, dpi: i32) -> (r: i32)
    requires
        0 <= v <= 224,
        dpi_in_range(dpi),
    ensures
        r == scale(v as int, dpi as int),
        0 <= r <= scale(224, dpi as int),
        r <= i32::MAX / 96,
{
    assert(0 <= v * dpi <= 224 * dpi) by (nonlinear_arith)
        requires
            0 <= v <= 224,
            96 <= dpi,
    ;
    assert(v * dpi / 96 <= 224 * dpi / 96) by (nonlinear_arith)
        requires
            0 <= v * dpi <= 224 * dpi,
    ;
    v * dpi / 96
}

/// The area the page takes: right of the sidebar (when open) and below the toolbar, at least
/// one pixel each way.
pub open spec fn page_bounds(right: int, bottom: int, dpi: int, sidebar_open: bool) -> EngineBounds {
    let toolbar = scale(48, dpi);
    let sidebar = if sidebar_open {
        scale(224, dpi)
    } else {
        0
    };
    EngineBounds {
        x: sidebar as i32,
        y: toolbar as i32,
        width: (if right - sidebar > 1 {
            right - sidebar
        } else {
            1
        }) as i32,
        height: (if bottom - toolbar > 1 {
            bottom - toolbar
        } else {
            1
        }) as i32,
    }
}

/// The area of the page for a client area `right` by `bottom` (see `page_bounds`).
pub fn browser_bounds(right: i32, bottom: i32, dpi: i32, sidebar_open: bool) -> (r: EngineBounds)
    requires
        dpi_in_range(dpi),
        right - scale(224, dpi as int) >= i32::MIN,
        bottom - scale(48, dpi as int) >= i32::MIN,
    ensures
        r == page_bounds(right as int, bottom as int, dpi as int, sidebar_open),
        r.width >= 1,
        r.height >= 1,
{
    let toolbar = scaled(48, dpi);
    let sidebar = if sidebar_open {
        scaled(224, dpi)
    } else {
        0
    };
    let w = right - sidebar;
    let h = bottom - toolbar;
    EngineBounds {
        x: sidebar,
        y: toolbar,
        width: if w > 1 {
            w
        } else {
            1
        },
        height: if h > 1 {
            h
        } else {
            1
        },
    }
}

/// Where each native control of the window goes, and which of them are shown.
#[derive(Clone, Copy, Debug, PartialEq, Eq, Structural)]
pub struct ChromeLayout {
    /// The sidebar toggle, back, forward, reload and stop buttons, left to right.
    pub sidebar_toggle: EngineBounds,
    pub back: EngineBounds,
    pub forward: EngineBounds,
    pub reload: EngineBounds,
    pub stop: EngineBounds,
    pub omnibox: EngineBounds,
    pub shields: EngineBounds,
    /// The sidebar panel and its controls; shown only while the sidebar is open.
    pub sidebar_visible: bool,
    pub sidebar: EngineBounds,
    pub new_tab: EngineBounds,
    pub close_tab: EngineBounds,
    pub tab_list: EngineBounds,
    /// The page area.
    pub page: EngineBounds,
}

/// A rectangle from integer coordinates.
pub open spec fn rect(x: int, y: int, width: int, height: int) -> EngineBounds {
    EngineBounds { x: x as i32, y: y as i32, width: width as i32, height: height as i32 }
}

/// All positions of the window chrome fit in 32 bits.
pub open spec fn layout_in_range(right: int, bottom: int, dpi: i32) -> bool {
    let d = dpi as int;
    &&& dpi_in_range(dpi)
    &&& right - (8 * scale(6, d) + 5 * scale(36, d) + scale(116, d)) >= i32::MIN
    &&& right - scale(224, d) >= i32::MIN
    &&& bottom - scale(48, d) - scale(50, d) >= i32::MIN
}

/// The toolbar holds five square buttons, then the omnibox filling the width that the
/// Shields button leaves (but at least 140 px wide), then the Shields button; the open
/// sidebar holds the new-tab and close-tab buttons above the tab list.
pub open spec fn chrome_layout_of(right: int, bottom: int, dpi: int, sidebar_open: bool) -> ChromeLayout {
    let toolbar = scale(48, dpi);
    let button = scale(36, dpi);
    let gap = scale(6, dpi);
    let sidebar_width = if sidebar_open {
        scale(224, dpi)
    } else {
        0
    };
    let shields_width = scale(116, dpi);
    let x0 = gap + 5 * (button + gap);
    let free = right - x0 - shields_width - gap * 2;
    let omnibox_width = if free > scale(140, dpi) {
        free
    } else {
        scale(140, dpi)
    };
    ChromeLayout {
        sidebar_toggle: rect(gap, scale(6, dpi), button, scale(34, dpi)),
        back: rect(gap + (button + gap), scale(6, dpi), button, scale(34, dpi)),
        forward: rect(gap + 2 * (button + gap), scale(6, dpi), button, scale(34, dpi)),
        reload: rect(gap + 3 * (button + gap), scale(6, dpi), button, scale(34, dpi)),
        stop: rect(gap + 4 * (button + gap), scale(6, dpi), button, scale(34, dpi)),
        omnibox: rect(x0, scale(8, dpi), omnibox_width, scale(30, dpi)),
        shields: rect(x0 + omnibox_width + gap, scale(6, dpi), shields_width, scale(34, dpi)),
        sidebar_visible: sidebar_open,
        sidebar: rect(0, toolbar, sidebar_width, bottom - toolbar),
        new_tab: rect(gap, toolbar + gap, scale(36, dpi), scale(30, dpi)),
        close_tab: rect(gap + scale(42, dpi), toolbar + gap, scale(36, dpi), scale(30, dpi)),
        tab_list: rect(gap, toolbar + scale(44, dpi), sidebar_width - gap * 2, bottom - toolbar - scale(50, dpi)),
        page: page_bounds(right, bottom, dpi, sidebar_open),
    }
}

/// Lays out the window chrome for a client area `right` by `bottom` (see `chrome_layout_of`).
pub fn chrome_layout(right: i32, bottom: i32, dpi: i32, sidebar_open: bool) -> (r: ChromeLayout)
    requires
        layout_in_range(right as int, bottom as int, dpi),
    ensures
        r == chrome_layout_of(right as int, bottom as int, dpi as int, sidebar_open),
{
    let s6 = scaled(6, dpi);
    let toolbar = scaled(48, dpi);
    let button = scaled(36, dpi);
    let gap = s6;
    let sidebar_width = if sidebar_open {
        scaled(224, dpi)
    } else {
        0
    };
    let shields_width = scaled(116, dpi);
    let s34 = scaled(34, dpi);
    let sidebar_toggle = EngineBounds { x: gap, y: s6, width: button, height: s34 };
    let back = EngineBounds { x: gap + (button + gap), y: s6, width: button, height: s34 };
    let forward = EngineBounds { x: gap + 2 * (button + gap), y: s6, width: button, height: s34 };
    let reload = EngineBounds { x: gap + 3 * (button + gap), y: s6, width: button, height: s34 };
    let stop = EngineBounds { x: gap + 4 * (button + gap), y: s6, width: button, height: s34 };
    let x0 = gap + 5 * (button + gap);
    let free = right - x0 - shields_width - gap * 2;
    let min_omnibox = scaled(140, dpi);
    let omnibox_width = if free > min_omnibox {
        free
    } else {
        min_omnibox
    };
    let omnibox = EngineBounds { x: x0, y: scaled(8, dpi), width: omnibox_width, height: scaled(30, dpi) };
    let shields = EngineBounds {
        x: x0 + omnibox_width + gap,
        y: s6,
        width: shields_width,
        height: s34,
    };
    let sidebar = EngineBounds { x: 0, y: toolbar, width: sidebar_width, height: bottom - toolbar };
    let new_tab = EngineBounds {
        x: gap,
        y: toolbar + gap,
        width: button,
        height: scaled(30, dpi),
    };
    let close_tab = EngineBounds {
        x: gap + scaled(42, dpi),
        y: toolbar + gap,
        width: button,
        height: scaled(30, dpi),
    };
    let tab_list = EngineBounds {
        x: gap,
        y: toolbar + scaled(44, dpi),
        width: sidebar_width - gap * 2,
        height: bottom - toolbar - scaled(50, dpi),
    };
    let page = browser_bounds(right, bottom, dpi, sidebar_open);
    ChromeLayout {
        sidebar_toggle,
        back,
        forward,
        reload,
        stop,
        omnibox,
        shields,
        sidebar_visible: sidebar_open,
        sidebar,
        new_tab,
        close_tab,
        tab_list,
        page,
    }
}


/// Whether `chrome_layout` (and so `browser_bounds`) can lay out a client area `right` by
/// `bottom` at `dpi` without leaving 32-bit coordinates.
pub fn layout_fits(right: i32, bottom: i32, dpi: i32) -> (r: bool)
    ensures
        r == layout_in_range(right as int, bottom as int, dpi),
{
    if dpi < 96 || dpi > i32::MAX / 224 {
        return false;
    }
    let d = dpi as i64;
    let s6 = 6 * d / 96;
    let s36 = 36 * d / 96;
    let s116 = 116 * d / 96;
    let s224 = 224 * d / 96;
    let s48 = 48 * d / 96;
    let s50 = 50 * d / 96;
    let min = i32::MIN as i64;
    (right as i64) - (8 * s6 + 5 * s36 + s116) >= min && (right as i64) - s224 >= min && (bottom as i64) - s48 - s50 >= min
}

} // verus!

verus! {

/// The page never covers the toolbar, and never the open sidebar.
pub proof fn law_page_clears_the_chrome(right: int, bottom: int, dpi: int, sidebar_open: bool)
    requires
        96 <= dpi,
        224 * dpi <= i32::MAX,
    ensures
        page_bounds(right, bottom, dpi, sidebar_open).y == scale(48, dpi),
        sidebar_open ==> page_bounds(right, bottom, dpi, sidebar_open).x == scale(224, dpi),
{
    assert(0 <= 48 * dpi <= 224 * dpi) by (nonlinear_arith)
        requires
            96 <= dpi,
    ;
}

/// The open sidebar is as wide as the scaled 224 px, and the page starts exactly where the
/// sidebar ends; the tab list fills the sidebar less a gap on each side. With the sidebar
/// closed, the page starts at the left edge.
pub proof fn law_sidebar_meets_page(right: int, bottom: int, dpi: i32, sidebar_open: bool)
    requires
        layout_in_range(right, bottom, dpi),
    ensures
        ({
            let l = chrome_layout_of(right, bottom, dpi as int, sidebar_open);
            &&& sidebar_open ==> l.sidebar.width == scale(224, dpi as int)
            &&& sidebar_open ==> l.page.x == scale(224, dpi as int)
            &&& l.sidebar.width == l.page.x
            &&& sidebar_open ==> l.tab_list.width == l.sidebar.width - 2 * scale(6, dpi as int)
            &&& !sidebar_open ==> l.page.x == 0
        }),
{
    let d = dpi as int;
    assert(0 <= 6 * d <= 224 * d) by (nonlinear_arith)
        requires
            96 <= d,
    ;
    assert(0 <= 224 * d / 96 <= 224 * d) by (nonlinear_arith)
        requires
            96 <= d,
    ;
    assert(6 * d / 96 <= 224 * d / 96) by (nonlinear_arith)
        requires
            0 <= 6 * d <= 224 * d,
    ;
}

} // verus!
