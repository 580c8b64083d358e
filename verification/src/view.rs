//! What the window chrome shows for the browser's state: the tab list, the omnibox text,
//! the Shields button and the window title.
use vstd::prelude::*;

use crate::browser::{active_tab, BrowserState, BrowserView, TabView};
use crate::session::active_position;
use crate::shields::{blocked_in, enabled_for, Shields, ShieldsView};
use crate::text::{decimal, push_decimal, trim, trim_str};

verus! {

/// The label of a tab in the tab list: its title, or its address while the title is blank.
pub open spec fn tab_label(t: TabView) -> Seq<char> {
    if trim(t.title).len() == 0 {
        t.url
    } else {
        t.title
    }
}

/// The Shields button text: whether Shields is on for the page, and the page's blocked count.
pub open spec fn shields_label(enabled: bool, count: u64) -> Seq<char> {
    "Shields "@ + (if enabled {
        "ON"@
    } else {
        "OFF"@
    }) + " "@ + decimal(count as nat)
}

/// The window title for a page titled `title`.
pub open spec fn window_title(title: Seq<char>) -> Seq<char> {
    if trim(title).len() == 0 {
        "ClearLane"@
    } else {
        title + " \u{2014} ClearLane"@
    }
}

/// The chrome's contents.
pub struct ChromeView {
    /// One label per tab, in tab order.
    pub tab_labels: Vec<String>,
    /// The position of the active tab in the list.
    pub selected: Option<usize>,
    pub omnibox: String,
    pub shields_label: String,
    /// The new window title; `None` keeps the current one.
    pub window_title: Option<String>,
}

/// The model of the chrome's contents.
pub struct ChromeModel {
    pub tab_labels: Seq<Seq<char>>,
    pub selected: Option<usize>,
    pub omnibox: Seq<char>,
    pub shields_label: Seq<char>,
    pub window_title: Option<Seq<char>>,
}

impl View for ChromeView {
    type V = ChromeModel;

    open spec fn view(&self) -> ChromeModel {
        ChromeModel {
            tab_labels: self.tab_labels@.map_values(|s: String| s@),
            selected: self.selected,
            omnibox: self.omnibox@,
            shields_label: self.shields_label@,
            window_title: match self.window_title {
                Some(t) => Some(t@),
                None => None,
            },
        }
    }
}

/// What the chrome shows: a label per tab with the active one selected; for the active tab
/// its address, its Shields state and count, and its title; with no active tab, an empty
/// omnibox and the Shields button of a fresh page.
pub open spec fn chrome_model(v: BrowserView, s: ShieldsView) -> ChromeModel {
    ChromeModel {
        tab_labels: v.tabs.map_values(|t: TabView| tab_label(t)),
        selected: match active_tab(v) {
            Some(t) => Some(active_position(v)),
            None => None,
        },
        omnibox: match active_tab(v) {
            Some(t) => t.url,
            None => Seq::empty(),
        },
        shields_label: match active_tab(v) {
            Some(t) => shields_label(enabled_for(s, t.url), blocked_in(s, t.id)),
            None => shields_label(true, 0),
        },
        window_title: match active_tab(v) {
            Some(t) => Some(window_title(t.title)),
            None => None,
        },
    }
}

fn shields_text(enabled: bool, count: u64) -> (r: String)
    ensures
        r@ == shields_label(enabled, count),
{
    let mut label = String::from_str("Shields ");
    if enabled {
        label.append("ON");
    } else {
        label.append("OFF");
    }
    label.append(" ");
    push_decimal(&mut label, count);
    label
}

/// Computes what the chrome shows (see `chrome_model`).
pub fn chrome_view(state: &BrowserState, shields: &Shields) -> (r: ChromeView)
    ensures
        r@ == chrome_model(state@, shields@),
{
    let (_, position) = crate::session::session_snapshot(state);
    let tabs = state.tabs();
    let mut labels: Vec<String> = Vec::new();
    let n = tabs.len();
    let mut i: usize = 0;
    let ghost v = state@;
    while i < n
        invariant
            i <= n,
            n == tabs@.len(),
            tabs@.map_values(|t: crate::browser::TabState| t@) == v.tabs,
            labels@.map_values(|s: String| s@) =~= v.tabs.take(i as int).map_values(|t: TabView| tab_label(t)),
        decreases n - i,
    {
        assert(v.tabs[i as int] == tabs@[i as int]@);
        let t = &tabs[i];
        let label = if trim_str(t.title.as_str()).is_empty() {
            t.url.clone()
        } else {
            t.title.clone()
        };
        labels.push(label);
        assert(v.tabs.take(i + 1).map_values(|t: TabView| tab_label(t)) =~= v.tabs.take(i as int).map_values(
            |t: TabView| tab_label(t),
        ).push(tab_label(v.tabs[i as int])));
        i = i + 1;
    }
    assert(v.tabs.take(n as int) =~= v.tabs);
    match state.active() {
        Some(tab) => {
            let enabled = shields.enabled_for_url(tab.url.as_str());
            let count = shields.blocked_count(tab.id.0);
            let title = if trim_str(tab.title.as_str()).is_empty() {
                String::from_str("ClearLane")
            } else {
                let mut t = tab.title.clone();
                t.append(" \u{2014} ClearLane");
                t
            };
            ChromeView {
                tab_labels: labels,
                selected: Some(position),
                omnibox: tab.url.clone(),
                shields_label: shields_text(enabled, count),
                window_title: Some(title),
            }
        },
        None => ChromeView {
            tab_labels: labels,
            selected: None,
            omnibox: String::new(),
            shields_label: shields_text(true, 0),
            window_title: None,
        },
    }
}

} // verus!

verus! {

/// The chrome lists every tab once, in tab order, and the selected entry is the active tab's.
pub proof fn law_chrome_selects_active_tab(v: BrowserView, s: ShieldsView)
    requires
        crate::browser::browser_wf(v),
        v.tabs.len() <= usize::MAX,
        v.active is Some,
    ensures
        chrome_model(v, s).tab_labels.len() == v.tabs.len(),
        chrome_model(v, s).selected matches Some(i) && i < v.tabs.len() && v.tabs[i as int].id
            == v.active->0 && chrome_model(v, s).tab_labels[i as int] == tab_label(v.tabs[i as int]),
{
    let a = v.active->0;
    crate::browser::lemma_tab_index_first(v, a);
    let k = crate::browser::tab_index(v, a);
    assert(v.tabs[k].id == a);
}

} // verus!
