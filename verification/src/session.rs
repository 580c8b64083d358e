//! Session decisions of the browser shell: what to restore at start-up, what to save, and
//! what follows when a tab's browser goes away.
use vstd::prelude::*;

use crate::browser::{closed, has_tab, tab_index, BrowserState, BrowserView, TabId};
use crate::persistence::start_page;
use crate::shields::{cleared, Shields};
use crate::text::{parse_usize, parse_usize_str, str_equals};

verus! {

/// The pages opened, in turn, by a performance run.
pub open spec fn perf_url(i: int) -> Seq<char> {
    if i == 0 {
        "https://example.com/"@
    } else if i == 1 {
        "https://www.rust-lang.org/"@
    } else if i == 2 {
        "https://www.wikipedia.org/"@
    } else if i == 3 {
        "https://developer.mozilla.org/"@
    } else if i == 4 {
        "https://news.ycombinator.com/"@
    } else if i == 5 {
        "https://github.com/"@
    } else if i == 6 {
        "https://www.bbc.com/"@
    } else if i == 7 {
        "https://www.nasa.gov/"@
    } else if i == 8 {
        "https://www.python.org/"@
    } else {
        "https://www.sqlite.org/"@
    }
}

/// The most tabs a performance run opens.
pub const MAX_PERF_TABS: usize = 30;

/// The models of a list of strings.
pub open spec fn strings(v: Seq<String>) -> Seq<Seq<char>> {
    v.map_values(|s: String| s@)
}

fn perf_url_string(i: usize) -> (r: String)
    requires
        i < 10,
    ensures
        r@ == perf_url(i as int),
{
    if i == 0 {
        String::from_str("https://example.com/")
    } else if i == 1 {
        String::from_str("https://www.rust-lang.org/")
    } else if i == 2 {
        String::from_str("https://www.wikipedia.org/")
    } else if i == 3 {
        String::from_str("https://developer.mozilla.org/")
    } else if i == 4 {
        String::from_str("https://news.ycombinator.com/")
    } else if i == 5 {
        String::from_str("https://github.com/")
    } else if i == 6 {
        String::from_str("https://www.bbc.com/")
    } else if i == 7 {
        String::from_str("https://www.nasa.gov/")
    } else if i == 8 {
        String::from_str("https://www.python.org/")
    } else {
        String::from_str("https://www.sqlite.org/")
    }
}

/// The `count` pages of a performance run: the ten benchmark sites, repeated in order.
pub fn perf_urls(count: usize) -> (r: Vec<String>)
    ensures
        r@.len() == count,
        forall|i: int| 0 <= i < count ==> (#[trigger] r@[i])@ == perf_url(i % 10),
{
    let mut urls: Vec<String> = Vec::new();
    let mut i: usize = 0;
    while i < count
        invariant
            i <= count,
            urls@.len() == i,
            forall|k: int| 0 <= k < i ==> (#[trigger] urls@[k])@ == perf_url(k % 10),
        decreases count - i,
    {
        urls.push(perf_url_string(i % 10));
        i = i + 1;
    }
    urls
}

/// The position of the first `--perf-tabs` argument that has a value after it.
pub open spec fn perf_flag_at(args: Seq<Seq<char>>, i: int) -> bool {
    &&& 0 <= i < args.len() - 1
    &&& args[i] == "--perf-tabs"@
    &&& forall|k: int| 0 <= k < i ==> #[trigger] args[k] != "--perf-tabs"@
}

/// How many tabs a performance run asks for: the number after the first `--perf-tabs`
/// that has one, at most `MAX_PERF_TABS`; zero when absent or unreadable.
pub open spec fn perf_tab_request(args: Seq<Seq<char>>) -> usize {
    if exists|i: int| perf_flag_at(args, i) {
        let i = choose|i: int| perf_flag_at(args, i);
        match parse_usize(args[i + 1]) {
            Some(n) => if n < MAX_PERF_TABS {
                n
            } else {
                MAX_PERF_TABS
            },
            None => 0,
        }
    } else {
        0
    }
}

/// Reads the number of tabs a performance run asks for from the command-line arguments.
pub fn perf_tab_count(args: &[String]) -> (r: usize)
    ensures
        r == perf_tab_request(strings(args@)),
        r <= MAX_PERF_TABS,
{
    let ghost a = strings(args@);
    let n = args.len();
    let mut i: usize = 0;
    while n > 0 && i < n - 1
        invariant
            i <= n,
            n == args@.len(),
            a == strings(args@),
            forall|k: int| 0 <= k < i && k < n ==> #[trigger] a[k] != "--perf-tabs"@,
        decreases n - i,
    {
        if str_equals(args[i].as_str(), "--perf-tabs") {
            proof {
                assert(perf_flag_at(a, i as int));
                assert forall|j: int| perf_flag_at(a, j) implies j == i by {
                    if j < i {
                        assert(a[j] != "--perf-tabs"@);
                    } else if j > i {
                        assert(a[i as int] != "--perf-tabs"@);
                    }
                }
            }
            return match parse_usize_str(args[i + 1].as_str()) {
                Some(v) => if v < MAX_PERF_TABS {
                    v
                } else {
                    MAX_PERF_TABS
                },
                None => 0,
            };
        }
        i = i + 1;
    }
    proof {
        assert forall|j: int| !perf_flag_at(a, j) by {
            if 0 <= j < a.len() - 1 {
                assert(a[j] != "--perf-tabs"@);
            }
        }
    }
    0
}

/// The tabs to open at start-up and the position of the one to activate: the performance
/// pages when a run asks for them (activating the first), else the saved tabs with the saved
/// position (kept within the list), and the start page when there is nothing to open.
pub open spec fn restore_plan(
    saved: Seq<Seq<char>>,
    saved_active: usize,
    perf_tabs: usize,
) -> (Seq<Seq<char>>, usize) {
    let urls = if perf_tabs > 0 {
        Seq::new(perf_tabs as nat, |i: int| perf_url(i % 10))
    } else {
        saved
    };
    let urls = if urls.len() == 0 {
        seq![start_page()]
    } else {
        urls
    };
    let active = if perf_tabs > 0 {
        0
    } else if saved_active < urls.len() - 1 {
        saved_active
    } else {
        (urls.len() - 1) as usize
    };
    (urls, active)
}

/// Decides the start-up tabs (see `restore_plan`).
pub fn plan_restore(saved_urls: Vec<String>, saved_active: usize, perf_tabs: usize) -> (r: (
    Vec<String>,
    usize,
))
    ensures
        (strings(r.0@), r.1) == restore_plan(strings(saved_urls@), saved_active, perf_tabs),
        r.1 < r.0@.len(),
{
    let mut urls = if perf_tabs > 0 {
        perf_urls(perf_tabs)
    } else {
        saved_urls
    };
    if urls.len() == 0 {
        urls.push(String::from_str("https://www.google.com/"));
        proof {
            reveal_strlit("https://www.google.com/");
        }
    }
    let active = if perf_tabs > 0 {
        0
    } else if saved_active < urls.len() - 1 {
        saved_active
    } else {
        urls.len() - 1
    };
    proof {
        let p = restore_plan(strings(saved_urls@), saved_active, perf_tabs);
        if perf_tabs > 0 {
            assert(strings(urls@) =~= Seq::new(perf_tabs as nat, |i: int| perf_url(i % 10)));
        }
        assert(strings(urls@) =~= p.0);
    }
    (urls, active)
}

/// The position of the active tab among `v`'s tabs, or the first position without one.
pub open spec fn active_position(v: BrowserView) -> usize {
    match v.active {
        Some(a) => if has_tab(v, a) {
            tab_index(v, a) as usize
        } else {
            0
        },
        None => 0,
    }
}

/// What is saved of the browser's tabs: their addresses in order, and the active position.
pub fn session_snapshot(state: &BrowserState) -> (r: (Vec<String>, usize))
    ensures
        strings(r.0@) == state@.tabs.map_values(|t: crate::browser::TabView| t.url),
        r.1 == active_position(state@),
{
    let tabs = state.tabs();
    let mut urls: Vec<String> = Vec::new();
    let mut position: Option<usize> = None;
    let active = state.active_id();
    let n = tabs.len();
    let mut i: usize = 0;
    let ghost v = state@;
    assert(tabs@.map_values(|t: crate::browser::TabState| t@) == v.tabs);
    assert(tabs@.len() == v.tabs.len());
    while i < n
        invariant
            i <= n,
            n == tabs@.len(),
            v == state@,
            tabs@.map_values(|t: crate::browser::TabState| t@) == v.tabs,
            strings(urls@) =~= v.tabs.take(i as int).map_values(|t: crate::browser::TabView| t.url),
            active == match v.active {
                Some(a) => Some(TabId(a)),
                None => None::<TabId>,
            },
            match position {
                Some(p) => v.active is Some && p < i && crate::browser::is_first_index(
                    v,
                    v.active->0,
                    p as int,
                ),
                None => v.active is None || forall|k: int| 0 <= k < i ==> (#[trigger] v.tabs[k]).id != v.active->0,
            },
        decreases n - i,
    {
        assert(v.tabs[i as int] == tabs@[i as int]@);
        urls.push(tabs[i].url.clone());
        if position.is_none() {
            if let Some(a) = active {
                if tabs[i].id.0 == a.0 {
                    position = Some(i);
                }
            }
        }
        assert(v.tabs.take(i + 1).map_values(|t: crate::browser::TabView| t.url) =~= v.tabs.take(
            i as int,
        ).map_values(|t: crate::browser::TabView| t.url).push(v.tabs[i as int].url));
        i = i + 1;
    }
    assert(v.tabs.take(n as int) =~= v.tabs);
    proof {
        if let Some(p) = position {
            crate::browser::lemma_first_index(v, v.active->0, p as int);
        } else if let Some(a) = v.active {
            if has_tab(v, a) {
                let k = choose|k: int| 0 <= k < v.tabs.len() && (#[trigger] v.tabs[k]).id == a;
                assert(v.tabs[k].id != a);
            }
        }
    }
    (urls, match position {
        Some(p) => p,
        None => 0,
    })
}

/// Restarting from a saved snapshot opens the same tabs and activates the same tab.
pub proof fn law_snapshot_restores_tabs(v: BrowserView)
    requires
        crate::browser::browser_wf(v),
        0 < v.tabs.len() <= usize::MAX,
    ensures
        restore_plan(v.tabs.map_values(|t: crate::browser::TabView| t.url), active_position(v), 0)
            == (v.tabs.map_values(|t: crate::browser::TabView| t.url), active_position(v)),
        v.tabs[active_position(v) as int].id == v.active->0,
{
    let a = v.active->0;
    crate::browser::lemma_tab_index_first(v, a);
    let k = tab_index(v, a);
    assert(v.tabs[k].id == a);
}


/// What the shell does after the browser of a tab has gone away.
#[derive(Clone, Copy, Debug, PartialEq, Eq, Structural)]
pub enum ClosedFollowUp {
    /// The window is closing and its last browser is gone: destroy the window.
    DestroyWindow,
    /// The window is closing and other browsers are still shutting down: wait for them.
    AwaitOtherBrowsers,
    /// The last tab was closed while the window stays open: open a new tab.
    OpenReplacementTab,
    /// Tabs remain: lay out the remaining browsers and refresh the chrome.
    Relayout,
}

/// The follow-up after a tab's browser closed, given whether the window is closing, whether
/// any browser is still attached, and whether any tab remains.
pub open spec fn closed_follow_up(closing: bool, engine_empty: bool, tabs_left: bool) -> ClosedFollowUp {
    if closing {
        if engine_empty {
            ClosedFollowUp::DestroyWindow
        } else {
            ClosedFollowUp::AwaitOtherBrowsers
        }
    } else if !tabs_left {
        ClosedFollowUp::OpenReplacementTab
    } else {
        ClosedFollowUp::Relayout
    }
}

/// Records that the browser of tab `tab` has closed: the tab leaves the tab list, its
/// Shields count is forgotten, and the follow-up is decided.
pub fn browser_closed(
    state: &mut BrowserState,
    shields: &mut Shields,
    tab: TabId,
    closing: bool,
    engine_empty: bool,
) -> (r: ClosedFollowUp)
    ensures
        old(state).wf() ==> final(state).wf(),
        final(state)@ == closed(old(state)@, tab.0),
        final(shields)@ == cleared(old(shields)@, tab.0),
        r == closed_follow_up(closing, engine_empty, final(state)@.tabs.len() > 0),
{
    state.close_tab(tab);
    shields.clear_tab(tab.0);
    follow_up_after_close(closing, engine_empty, state.tabs().len() > 0)
}

/// Decides the follow-up after a browser closed (see `closed_follow_up`).
pub fn follow_up_after_close(closing: bool, engine_empty: bool, tabs_left: bool) -> (r: ClosedFollowUp)
    ensures
        r == closed_follow_up(closing, engine_empty, tabs_left),
{
    if closing {
        if engine_empty {
            ClosedFollowUp::DestroyWindow
        } else {
            ClosedFollowUp::AwaitOtherBrowsers
        }
    } else if !tabs_left {
        ClosedFollowUp::OpenReplacementTab
    } else {
        ClosedFollowUp::Relayout
    }
}

/// While the window stays open it never shows zero tabs: closing the last tab asks for a
/// replacement, and every other close keeps at least one tab.
pub proof fn law_open_window_keeps_a_tab(v: BrowserView, id: u64, engine_empty: bool)
    requires
        crate::browser::browser_wf(v),
    ensures
        closed(v, id).tabs.len() == 0 <==> closed_follow_up(false, engine_empty, closed(v, id).tabs.len() > 0)
            == ClosedFollowUp::OpenReplacementTab,
{
}

/// While the window is closing, the only follow-ups are destroying the window (when its last
/// browser is gone) and waiting for the other browsers, whether or not tabs remain; while it
/// stays open, closing the last tab asks for a replacement and any other close relays out.
pub proof fn law_closing_window_only_waits_or_destroys(engine_empty: bool, tabs_left: bool)
    ensures
        closed_follow_up(true, engine_empty, tabs_left) == (if engine_empty {
            ClosedFollowUp::DestroyWindow
        } else {
            ClosedFollowUp::AwaitOtherBrowsers
        }),
        closed_follow_up(true, engine_empty, tabs_left) != ClosedFollowUp::Relayout,
        closed_follow_up(true, engine_empty, tabs_left) != ClosedFollowUp::OpenReplacementTab,
        closed_follow_up(false, engine_empty, tabs_left) == (if tabs_left {
            ClosedFollowUp::Relayout
        } else {
            ClosedFollowUp::OpenReplacementTab
        }),
{
}

} // verus!
