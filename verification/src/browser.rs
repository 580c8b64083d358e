//! Tabs of one browser window: which tabs are open, in what order, and which one is active.
use vstd::prelude::*;

use crate::text::{trim, trim_str};

verus! {

/// Identifier of a browser tab; identifiers are handed out once and never reused.
#[derive(Clone, Copy, Debug, PartialEq, Eq, Hash, Structural)]
pub struct TabId(pub u64);

/// What the browser shows about one tab.
#[derive(Clone, Debug, PartialEq, Eq)]
pub struct TabState {
    pub id: TabId,
    pub url: String,
    pub title: String,
    pub loading: bool,
    pub can_go_back: bool,
    pub can_go_forward: bool,
}

/// The mathematical model of a tab.
pub struct TabView {
    pub id: u64,
    pub url: Seq<char>,
    pub title: Seq<char>,
    pub loading: bool,
    pub can_go_back: bool,
    pub can_go_forward: bool,
}

impl View for TabState {
    type V = TabView;

    open spec fn view(&self) -> TabView {
        TabView {
            id: self.id.0,
            url: self.url@,
            title: self.title@,
            loading: self.loading,
            can_go_back: self.can_go_back,
            can_go_forward: self.can_go_forward,
        }
    }
}

/// The title a freshly opened tab shows until the page reports its own.
pub open spec fn new_tab_title() -> Seq<char> {
    "New tab"@
}

/// A tab as `open_tab` creates it.
pub open spec fn fresh_tab(id: u64, url: Seq<char>) -> TabView {
    TabView {
        id,
        url,
        title: new_tab_title(),
        loading: true,
        can_go_back: false,
        can_go_forward: false,
    }
}

impl TabState {
    fn new(id: TabId, url: String) -> (r: Self)
        ensures
            r@ == fresh_tab(id.0, url@),
    {
        TabState {
            id,
            title: String::from_str("New tab"),
            url,
            loading: true,
            can_go_back: false,
            can_go_forward: false,
        }
    }
}

/// The mathematical model of the browser: the tabs in display order, the active tab's
/// identifier, and the identifier the next opened tab receives.
pub struct BrowserView {
    pub tabs: Seq<TabView>,
    pub active: Option<u64>,
    pub next_id: nat,
}

/// A tab with identifier `id` is open.
pub open spec fn has_tab(v: BrowserView, id: u64) -> bool {
    exists|i: int| 0 <= i < v.tabs.len() && (#[trigger] v.tabs[i]).id == id
}

/// `i` is the first position of a tab with identifier `id`.
pub open spec fn is_first_index(v: BrowserView, id: u64, i: int) -> bool {
    &&& 0 <= i < v.tabs.len()
    &&& v.tabs[i].id == id
    &&& forall|k: int| 0 <= k < i ==> (#[trigger] v.tabs[k]).id != id
}

/// The position of the (first) open tab with identifier `id`, which every lookup by
/// identifier finds.
pub open spec fn tab_index(v: BrowserView, id: u64) -> int {
    choose|i: int| is_first_index(v, id, i)
}

/// The invariant every reachable browser state keeps: identifiers increase along the tab
/// order (so none repeats), are at least 1 and lie below `next_id`; the active tab is open,
/// and there is an active tab whenever a tab is open.
pub open spec fn browser_wf(v: BrowserView) -> bool {
    &&& v.next_id >= 1
    &&& forall|i: int| 0 <= i < v.tabs.len() ==> (#[trigger] v.tabs[i]).id >= 1
    &&& forall|i: int, j: int|
        0 <= i < j < v.tabs.len() ==> (#[trigger] v.tabs[i]).id < (#[trigger] v.tabs[j]).id
    &&& forall|i: int| 0 <= i < v.tabs.len() ==> (#[trigger] v.tabs[i]).id < v.next_id
    &&& (v.active is None <==> v.tabs.len() == 0)
    &&& (v.active matches Some(a) ==> has_tab(v, a))
}

/// `v` after `open_tab(url)`.
pub open spec fn opened(v: BrowserView, url: Seq<char>) -> BrowserView {
    BrowserView {
        tabs: v.tabs.push(fresh_tab(v.next_id as u64, url)),
        active: Some(v.next_id as u64),
        next_id: v.next_id + 1,
    }
}

/// The tab that becomes active when the active tab at position `i` of `v` is closed: the
/// one that moves into its position, or the new last tab.
pub open spec fn successor_after_close(rest: Seq<TabView>, i: int) -> Option<u64> {
    if rest.len() == 0 {
        None
    } else if i < rest.len() {
        Some(rest[i].id)
    } else {
        Some(rest.last().id)
    }
}

/// `v` after `close_tab(id)`.
pub open spec fn closed(v: BrowserView, id: u64) -> BrowserView {
    if has_tab(v, id) {
        let i = tab_index(v, id);
        let rest = v.tabs.remove(i);
        BrowserView {
            tabs: rest,
            active: if v.active == Some(id) {
                successor_after_close(rest, i)
            } else {
                v.active
            },
            next_id: v.next_id,
        }
    } else {
        v
    }
}

/// `v` after `activate(id)`.
pub open spec fn activated(v: BrowserView, id: u64) -> BrowserView {
    if has_tab(v, id) {
        BrowserView { active: Some(id), ..v }
    } else {
        v
    }
}

/// `v` with the tab `id`, if open, replaced by `f` applied to it.
pub open spec fn with_tab(v: BrowserView, id: u64, t: TabView) -> BrowserView {
    if has_tab(v, id) {
        BrowserView { tabs: v.tabs.update(tab_index(v, id), t), ..v }
    } else {
        v
    }
}

/// `v` after `update_address(id, url)`.
pub open spec fn with_address(v: BrowserView, id: u64, url: Seq<char>) -> BrowserView {
    with_tab(v, id, TabView { url, ..v.tabs[tab_index(v, id)] })
}

/// The title a tab shows after the page reports `title`: the page's title, or the tab's
/// address when the reported title is blank.
pub open spec fn shown_title(title: Seq<char>, url: Seq<char>) -> Seq<char> {
    if trim(title).len() == 0 {
        url
    } else {
        title
    }
}

/// `v` after `update_title(id, title)`.
pub open spec fn with_title(v: BrowserView, id: u64, title: Seq<char>) -> BrowserView {
    let t = v.tabs[tab_index(v, id)];
    with_tab(v, id, TabView { title: shown_title(title, t.url), ..t })
}

/// `v` after `update_loading(id, loading, back, forward)`.
pub open spec fn with_loading(
    v: BrowserView,
    id: u64,
    loading: bool,
    back: bool,
    forward: bool,
) -> BrowserView {
    with_tab(
        v,
        id,
        TabView { loading, can_go_back: back, can_go_forward: forward, ..v.tabs[tab_index(v, id)] },
    )
}

/// The tab with identifier `id`, if open.
pub open spec fn find_tab(v: BrowserView, id: u64) -> Option<TabView> {
    if has_tab(v, id) {
        Some(v.tabs[tab_index(v, id)])
    } else {
        None
    }
}

/// The active tab: the open tab that the active identifier names, if any.
pub open spec fn active_tab(v: BrowserView) -> Option<TabView> {
    match v.active {
        Some(a) => find_tab(v, a),
        None => None,
    }
}

/// The browser: its tabs in display order, the active tab, and the next identifier to hand out.
#[derive(Debug)]
pub struct BrowserState {
    tabs: Vec<TabState>,
    active: Option<TabId>,
    next_id: u64,
}

impl View for BrowserState {
    type V = BrowserView;

    closed spec fn view(&self) -> BrowserView {
        BrowserView {
            tabs: self.tabs@.map_values(|t: TabState| t@),
            active: match self.active {
                Some(a) => Some(a.0),
                None => None,
            },
            next_id: self.next_id as nat,
        }
    }
}

/// The first position of an identifier is the position that `tab_index` names.
pub proof fn lemma_first_index(v: BrowserView, id: u64, i: int)
    requires
        is_first_index(v, id, i),
    ensures
        has_tab(v, id),
        tab_index(v, id) == i,
{
    let j = tab_index(v, id);
    assert(is_first_index(v, id, j));
    if j < i {
        assert(v.tabs[j].id != id);
    } else if i < j {
        assert(v.tabs[i].id != id);
    }
    assert(v.tabs[i].id == id);
}

/// A tab with identifier `id` at position `i` means some position is the first one.
proof fn lemma_first_index_exists(v: BrowserView, id: u64, i: int)
    requires
        0 <= i < v.tabs.len(),
        v.tabs[i].id == id,
    ensures
        exists|j: int| is_first_index(v, id, j),
    decreases i,
{
    if exists|k: int| 0 <= k < i && (#[trigger] v.tabs[k]).id == id {
        let k = choose|k: int| 0 <= k < i && (#[trigger] v.tabs[k]).id == id;
        lemma_first_index_exists(v, id, k);
    } else {
        assert(is_first_index(v, id, i));
    }
}

/// The position of an open tab holds its identifier, and no earlier position does.
pub proof fn lemma_tab_index_first(v: BrowserView, id: u64)
    requires
        has_tab(v, id),
    ensures
        is_first_index(v, id, tab_index(v, id)),
{
    let i = choose|i: int| 0 <= i < v.tabs.len() && (#[trigger] v.tabs[i]).id == id;
    lemma_first_index_exists(v, id, i);
}

/// Under the invariant, the position of an open tab is the one position holding its identifier.
pub proof fn lemma_tab_index_unique(v: BrowserView, id: u64, i: int)
    requires
        browser_wf(v),
        0 <= i < v.tabs.len(),
        v.tabs[i].id == id,
    ensures
        has_tab(v, id),
        tab_index(v, id) == i,
{
    assert forall|k: int| 0 <= k < i implies (#[trigger] v.tabs[k]).id != id by {
        assert(v.tabs[k].id < v.tabs[i].id);
    }
    lemma_first_index(v, id, i);
}

/// Replacing one tab and then taking models is taking models and then replacing one model.
proof fn lemma_update_view(s: Seq<TabState>, i: int, t: TabState)
    requires
        0 <= i < s.len(),
    ensures
        s.update(i, t).map_values(|x: TabState| x@) == s.map_values(|x: TabState| x@).update(
            i,
            t@,
        ),
{
    assert(s.update(i, t).map_values(|x: TabState| x@) =~= s.map_values(|x: TabState| x@).update(
        i,
        t@,
    ));
}

/// Replacing an open tab by one with the same identifier keeps the invariant.
proof fn lemma_with_tab_wf(v: BrowserView, id: u64, w: BrowserView)
    requires
        browser_wf(v),
        has_tab(v, id) ==> (w == (BrowserView {
            tabs: v.tabs.update(tab_index(v, id), w.tabs[tab_index(v, id)]),
            ..v
        }) && w.tabs[tab_index(v, id)].id == id),
        !has_tab(v, id) ==> w == v,
    ensures
        browser_wf(w),
{
    if has_tab(v, id) {
        lemma_tab_index_first(v, id);
        let k = tab_index(v, id);
        assert(v.tabs[k].id == id);
        assert forall|i: int| 0 <= i < w.tabs.len() implies (#[trigger] w.tabs[i]).id == v.tabs[i].id by {}
        if let Some(a) = w.active {
            lemma_tab_index_first(v, a);
            let j = tab_index(v, a);
            assert(w.tabs[j].id == a);
        }
    }
}

/// The browser before any tab is opened: no tab, no active tab, and identifier 1 next.
pub open spec fn initial_browser() -> BrowserView {
    BrowserView { tabs: Seq::empty(), active: None, next_id: 1 }
}

impl Default for BrowserState {
    fn default() -> (r: Self)
        ensures
            r@ == initial_browser(),
            browser_wf(r@),
    {
        let r = BrowserState { tabs: Vec::new(), active: None, next_id: 1 };
        assert(r@.tabs =~= Seq::<TabView>::empty());
        r
    }
}

impl BrowserState {
    /// The invariant holds of this browser.
    pub open spec fn wf(&self) -> bool {
        browser_wf(self@)
    }

    /// The position of the tab `id`, if it is open.
    fn index_of(&self, id: TabId) -> (r: Option<usize>)
        ensures
            r is Some <==> has_tab(self@, id.0),
            r matches Some(i) ==> i == tab_index(self@, id.0) && i < self.tabs.len()
                && self@.tabs[i as int].id == id.0,
    {
        let n = self.tabs.len();
        let mut i: usize = 0;
        while i < n
            invariant
                i <= n,
                n == self.tabs.len(),
                n == self@.tabs.len(),
                forall|k: int| 0 <= k < i ==> (#[trigger] self@.tabs[k]).id != id.0,
            decreases n - i,
        {
            assert(self@.tabs[i as int] == self.tabs@[i as int]@);
            if self.tabs[i].id.0 == id.0 {
                proof {
                    lemma_first_index(self@, id.0, i as int);
                }
                return Some(i);
            }
            i = i + 1;
        }
        None
    }

    /// Whether one more tab can be given an identifier.
    pub fn can_open_tab(&self) -> (r: bool)
        ensures
            r == (self@.next_id < u64::MAX),
    {
        self.next_id < u64::MAX
    }

    /// Opens a tab at the end of the tab list, loading `url`, and makes it active.
    pub fn open_tab(&mut self, url: String) -> (id: TabId)
        requires
            old(self)@.next_id < u64::MAX,
        ensures
            id.0 == old(self)@.next_id,
            final(self)@ == opened(old(self)@, url@),
            old(self).wf() ==> !has_tab(old(self)@, id.0) && final(self).wf(),
    {
        let id = TabId(self.next_id);
        self.next_id = self.next_id + 1;
        self.tabs.push(TabState::new(id, url));
        self.active = Some(id);
        proof {
            let v = self@;
            let w = opened(old(self)@, url@);
            assert(v.tabs =~= w.tabs);
            if browser_wf(old(self)@) {
                assert(v.tabs.last().id == id.0);
                assert(v.tabs[v.tabs.len() - 1].id == id.0);
                assert(has_tab(v, id.0));
                if has_tab(old(self)@, id.0) {
                    let k = choose|k: int|
                        0 <= k < old(self)@.tabs.len() && (#[trigger] old(self)@.tabs[k]).id
                            == id.0;
                    assert(old(self)@.tabs[k].id < old(self)@.next_id);
                }
            }
        }
        id
    }

    /// Closes the tab `id`. When it was the active tab, the tab that moves into its position
    /// becomes active, or the new last tab when it was last. Returns whether the tab was open;
    /// an unknown identifier leaves the browser unchanged.
    pub fn close_tab(&mut self, id: TabId) -> (r: bool)
        ensures
            r == has_tab(old(self)@, id.0),
            final(self)@ == closed(old(self)@, id.0),
            old(self).wf() ==> final(self).wf(),
    {
        let Some(index) = self.index_of(id) else {
            return false;
        };
        let ghost old_v = self@;
        self.tabs.remove(index);
        let was_active = match self.active {
            Some(a) => a.0 == id.0,
            None => false,
        };
        if was_active {
            let len = self.tabs.len();
            self.active = if len == 0 {
                None
            } else {
                let j = if index < len - 1 {
                    index
                } else {
                    len - 1
                };
                Some(self.tabs[j].id)
            };
        }
        proof {
            let v = self@;
            let w = closed(old_v, id.0);
            assert(v.tabs =~= old_v.tabs.remove(index as int));
            assert(v.tabs =~= w.tabs);
            if was_active {
                if v.tabs.len() > 0 {
                    let j = if index < v.tabs.len() { index as int } else { v.tabs.len() - 1 };
                    assert(v.tabs[j].id == v.active->0);
                }
            }
            assert(v == w);
            if browser_wf(old_v) {
                lemma_closed_keeps_invariant(old_v, id.0);
            }
        }
        true
    }

    /// Makes the tab `id` active. Returns whether it is open; an unknown identifier leaves the
    /// browser unchanged.
    pub fn activate(&mut self, id: TabId) -> (r: bool)
        ensures
            r == has_tab(old(self)@, id.0),
            final(self)@ == activated(old(self)@, id.0),
            old(self).wf() ==> final(self).wf(),
    {
        if let Some(i) = self.index_of(id) {
            self.active = Some(id);
            assert(self@.tabs[i as int].id == id.0);
            assert(self@ == activated(old(self)@, id.0));
            true
        } else {
            false
        }
    }

    /// The identifier of the active tab.
    pub fn active_id(&self) -> (r: Option<TabId>)
        ensures
            r == match self@.active {
                Some(a) => Some(TabId(a)),
                None => None::<TabId>,
            },
    {
        self.active
    }

    /// The tab with identifier `id`, if open.
    pub fn tab(&self, id: TabId) -> (r: Option<&TabState>)
        ensures
            match r {
                Some(t) => find_tab(self@, id.0) == Some(t@),
                None => find_tab(self@, id.0) is None,
            },
    {
        match self.index_of(id) {
            Some(i) => Some(&self.tabs[i]),
            None => None,
        }
    }

    /// The active tab: the open tab that the active identifier names, if any.
    pub fn active(&self) -> (r: Option<&TabState>)
        ensures
            match r {
                Some(t) => active_tab(self@) == Some(t@),
                None => active_tab(self@) is None,
            },
    {
        match self.active {
            Some(id) => self.tab(id),
            None => None,
        }
    }

    /// The open tabs in display order.
    pub fn tabs(&self) -> (r: &[TabState])
        ensures
            r@.map_values(|t: TabState| t@) == self@.tabs,
    {
        self.tabs.as_slice()
    }

    /// The tab with identifier `id`, if open, for in-place changes. The browser afterwards
    /// holds whatever the caller leaves in the tab at that position.
    pub fn tab_mut(&mut self, id: TabId) -> (r: Option<&mut TabState>)
        ensures
            r is Some <==> has_tab(old(self)@, id.0),
            r matches Some(t) ==> {
                &&& find_tab(old(self)@, id.0) == Some((*t)@)
                &&& final(self)@ == (BrowserView {
                    tabs: old(self)@.tabs.update(tab_index(old(self)@, id.0), (*final(t))@),
                    ..old(self)@
                })
            },
            r is None ==> final(self)@ == old(self)@,
    {
        match self.index_of(id) {
            Some(i) => {
                let t = &mut self.tabs[i];
                proof {
                    lemma_update_view(old(self).tabs@, i as int, *final(t));
                }
                Some(t)
            },
            None => None,
        }
    }

    /// Records that the tab `id` now shows `url`; an unknown identifier changes nothing.
    pub fn update_address(&mut self, id: TabId, url: String)
        ensures
            final(self)@ == with_address(old(self)@, id.0, url@),
            old(self).wf() ==> final(self).wf(),
    {
        if let Some(tab) = self.tab_mut(id) {
            tab.url = url;
        }
        proof {
            if browser_wf(old(self)@) {
                if has_tab(old(self)@, id.0) {
                    lemma_tab_index_first(old(self)@, id.0);
                }
                lemma_with_tab_wf(old(self)@, id.0, self@);
            }
        }
    }

    /// Records the page title of the tab `id`; a blank title shows the tab's address instead.
    /// An unknown identifier changes nothing.
    pub fn update_title(&mut self, id: TabId, title: String)
        ensures
            final(self)@ == with_title(old(self)@, id.0, title@),
            old(self).wf() ==> final(self).wf(),
    {
        if let Some(tab) = self.tab_mut(id) {
            tab.title = if trim_str(title.as_str()).is_empty() {
                tab.url.clone()
            } else {
                title
            };
        }
        proof {
            if browser_wf(old(self)@) {
                if has_tab(old(self)@, id.0) {
                    lemma_tab_index_first(old(self)@, id.0);
                }
                lemma_with_tab_wf(old(self)@, id.0, self@);
            }
        }
    }

    /// Records the loading and history-navigation state of the tab `id`; an unknown
    /// identifier changes nothing.
    pub fn update_loading(&mut self, id: TabId, loading: bool, back: bool, forward: bool)
        ensures
            final(self)@ == with_loading(old(self)@, id.0, loading, back, forward),
            old(self).wf() ==> final(self).wf(),
    {
        if let Some(tab) = self.tab_mut(id) {
            tab.loading = loading;
            tab.can_go_back = back;
            tab.can_go_forward = forward;
        }
        proof {
            if browser_wf(old(self)@) {
                if has_tab(old(self)@, id.0) {
                    lemma_tab_index_first(old(self)@, id.0);
                }
                lemma_with_tab_wf(old(self)@, id.0, self@);
            }
        }
    }
}

} // verus!

verus! {

/// Closing the active tab, while other tabs stay open, makes the tab that moves into its
/// position active, or the previous tab when it was the last one.
pub proof fn law_closing_active_tab_selects_neighbor(v: BrowserView, id: u64)
    requires
        browser_wf(v),
        v.active == Some(id),
        v.tabs.len() >= 2,
    ensures
        ({
            let i = tab_index(v, id);
            let w = closed(v, id);
            &&& w.tabs.len() == v.tabs.len() - 1
            &&& i < w.tabs.len() ==> w.active == Some(v.tabs[i + 1].id)
            &&& i == w.tabs.len() ==> w.active == Some(v.tabs[i - 1].id)
        }),
{
    lemma_tab_index_first(v, id);
    let i = tab_index(v, id);
    assert(v.tabs[i].id == id);
}

/// Operations on an identifier that names no open tab leave the browser unchanged.
pub proof fn law_unknown_tab_operations_are_noops(
    v: BrowserView,
    id: u64,
    url: Seq<char>,
    title: Seq<char>,
    loading: bool,
    back: bool,
    forward: bool,
)
    requires
        !has_tab(v, id),
    ensures
        closed(v, id) == v,
        activated(v, id) == v,
        with_address(v, id, url) == v,
        with_title(v, id, title) == v,
        with_loading(v, id, loading, back, forward) == v,
        find_tab(v, id) is None,
{
}

/// Closing a tab that was just opened gives back the tab list from before it was opened,
/// and the identifier it had is not handed out again.
pub proof fn law_open_then_close_restores_tabs(v: BrowserView, url: Seq<char>)
    requires
        browser_wf(v),
        v.next_id < u64::MAX,
    ensures
        closed(opened(v, url), v.next_id as u64).tabs == v.tabs,
        closed(opened(v, url), v.next_id as u64).next_id == v.next_id + 1,
{
    let w = opened(v, url);
    let id = v.next_id as u64;
    assert(w.tabs[w.tabs.len() - 1].id == id);
    assert(browser_wf(w)) by {
        assert(w.tabs.last().id == id);
        assert(has_tab(w, id));
    }
    lemma_tab_index_unique(w, id, w.tabs.len() - 1);
    assert(w.tabs.remove(w.tabs.len() - 1) =~= v.tabs);
}

/// Activating an open tab makes it the active tab and leaves the tab list as it was.
pub proof fn law_activate_selects_tab(v: BrowserView, id: u64)
    requires
        has_tab(v, id),
    ensures
        activated(v, id).active == Some(id),
        activated(v, id).tabs == v.tabs,
{
}

/// Every operation keeps the browser invariant: the active tab is always an open tab,
/// there is one whenever a tab is open, and no two tabs share an identifier.
pub proof fn law_operations_keep_invariant(
    v: BrowserView,
    id: u64,
    url: Seq<char>,
)
    requires
        browser_wf(v),
    ensures
        v.next_id < u64::MAX ==> browser_wf(opened(v, url)),
        browser_wf(activated(v, id)),
        has_tab(v, id) ==> closed(v, id).tabs.len() + 1 == v.tabs.len(),
        !has_tab(v, id) ==> closed(v, id) == v,
{
    if v.next_id < u64::MAX {
        let w = opened(v, url);
        assert(w.tabs.last().id == v.next_id as u64);
        assert(has_tab(w, v.next_id as u64));
    }
    if has_tab(v, id) {
        lemma_tab_index_first(v, id);
        let i = tab_index(v, id);
        assert(v.tabs[i].id == id);
        assert(activated(v, id).tabs[i].id == id);
    }
}

/// Closing a tab keeps the browser invariant and the next identifier.
pub proof fn lemma_closed_keeps_invariant(v: BrowserView, id: u64)
    requires
        browser_wf(v),
    ensures
        browser_wf(closed(v, id)),
        closed(v, id).next_id == v.next_id,
{
    if has_tab(v, id) {
        lemma_tab_index_first(v, id);
        let index = tab_index(v, id);
        let w = closed(v, id);
        let rest = v.tabs.remove(index);
        assert(w.tabs == rest);
        assert forall|i: int, j: int|
            0 <= i < j < w.tabs.len() implies (#[trigger] w.tabs[i]).id < (
        #[trigger] w.tabs[j]).id by {
            let oi = if i < index { i } else { i + 1 };
            let oj = if j < index { j } else { j + 1 };
            assert(w.tabs[i] == v.tabs[oi]);
            assert(w.tabs[j] == v.tabs[oj]);
        }
        assert forall|i: int| 0 <= i < w.tabs.len() implies 1 <= (#[trigger] w.tabs[i]).id
            < w.next_id by {
            let oi = if i < index { i } else { i + 1 };
            assert(w.tabs[i] == v.tabs[oi]);
        }
        if v.active == Some(id) {
            if rest.len() > 0 {
                let j = if index < rest.len() { index } else { rest.len() - 1 };
                assert(w.tabs[j].id == w.active->0);
            }
        } else if let Some(a) = v.active {
            lemma_tab_index_first(v, a);
            let k = tab_index(v, a);
            assert(k != index);
            let nk = if k < index { k } else { k - 1 };
            assert(w.tabs[nk] == v.tabs[k]);
        }
    }
}

/// One call that changes the browser, as the laws over sequences of calls see it:
/// `open_tab`, `close_tab`, `activate`, `update_address`, `update_title` and `update_loading`
/// with their arguments.
pub enum BrowserCall {
    Open(Seq<char>),
    Close(u64),
    Activate(u64),
    Address(u64, Seq<char>),
    Title(u64, Seq<char>),
    Loading(u64, bool, bool, bool),
}

/// `v` after the call `c`.
pub open spec fn after_call(v: BrowserView, c: BrowserCall) -> BrowserView {
    match c {
        BrowserCall::Open(url) => opened(v, url),
        BrowserCall::Close(id) => closed(v, id),
        BrowserCall::Activate(id) => activated(v, id),
        BrowserCall::Address(id, url) => with_address(v, id, url),
        BrowserCall::Title(id, title) => with_title(v, id, title),
        BrowserCall::Loading(id, loading, back, forward) => with_loading(
            v,
            id,
            loading,
            back,
            forward,
        ),
    }
}

/// `v` after the calls `cs`, in order.
pub open spec fn after_calls(v: BrowserView, cs: Seq<BrowserCall>) -> BrowserView
    decreases cs.len(),
{
    if cs.len() == 0 {
        v
    } else {
        after_call(after_calls(v, cs.drop_last()), cs.last())
    }
}

/// Every `open_tab` among the calls `cs`, made from `v`, meets its precondition: an
/// identifier is left to hand out.
pub open spec fn calls_allowed(v: BrowserView, cs: Seq<BrowserCall>) -> bool {
    forall|i: int|
        0 <= i < cs.len() && (#[trigger] cs[i]) is Open ==> after_calls(v, cs.take(i)).next_id
            < u64::MAX
}

/// The identifier that the call at position `i` of `cs`, an `open_tab` made after the calls
/// before it, hands out.
pub open spec fn id_handed_out(v: BrowserView, cs: Seq<BrowserCall>, i: int) -> u64 {
    after_calls(v, cs.take(i)).next_id as u64
}

/// The state after the first `i + 1` calls is the state after the first `i` calls, followed by
/// call `i`.
proof fn lemma_after_calls_step(v: BrowserView, cs: Seq<BrowserCall>, i: int)
    requires
        0 <= i < cs.len(),
    ensures
        after_calls(v, cs.take(i + 1)) == after_call(after_calls(v, cs.take(i)), cs[i]),
{
    assert(cs.take(i + 1).drop_last() =~= cs.take(i));
}

/// Only `open_tab` moves the next identifier, by one.
proof fn lemma_call_next_id(v: BrowserView, c: BrowserCall)
    ensures
        after_call(v, c).next_id == v.next_id + (if c is Open {
            1int
        } else {
            0int
        }),
{
}

/// One call keeps the browser invariant.
proof fn lemma_call_keeps_invariant(v: BrowserView, c: BrowserCall)
    requires
        browser_wf(v),
        c is Open ==> v.next_id < u64::MAX,
    ensures
        browser_wf(after_call(v, c)),
{
    match c {
        BrowserCall::Open(url) => {
            law_operations_keep_invariant(v, 0, url);
        },
        BrowserCall::Close(id) => {
            lemma_closed_keeps_invariant(v, id);
        },
        BrowserCall::Activate(id) => {
            law_operations_keep_invariant(v, id, Seq::empty());
        },
        _ => {
            let id = match c {
                BrowserCall::Address(id, _) => id,
                BrowserCall::Title(id, _) => id,
                BrowserCall::Loading(id, _, _, _) => id,
                _ => 0,
            };
            if has_tab(v, id) {
                lemma_tab_index_first(v, id);
            }
            lemma_with_tab_wf(v, id, after_call(v, c));
        },
    }
}

/// The next identifier never goes down along a sequence of calls.
proof fn lemma_next_id_grows(v: BrowserView, cs: Seq<BrowserCall>, k: int, m: int)
    requires
        0 <= k <= m <= cs.len(),
    ensures
        after_calls(v, cs.take(k)).next_id <= after_calls(v, cs.take(m)).next_id,
    decreases m - k,
{
    if k < m {
        lemma_next_id_grows(v, cs, k, m - 1);
        lemma_after_calls_step(v, cs, m - 1);
        lemma_call_next_id(after_calls(v, cs.take(m - 1)), cs[m - 1]);
    }
}

/// Every state that a sequence of allowed calls reaches from a browser that keeps the
/// invariant keeps it too: tab identifiers increase along the tab order (so no two tabs share
/// one), are at least 1 and below the next identifier, and the active tab is open whenever a
/// tab is.
pub proof fn law_calls_keep_invariant(v: BrowserView, cs: Seq<BrowserCall>)
    requires
        browser_wf(v),
        calls_allowed(v, cs),
    ensures
        browser_wf(after_calls(v, cs)),
        after_calls(v, cs).next_id >= v.next_id,
    decreases cs.len(),
{
    if cs.len() > 0 {
        let n = cs.len() - 1;
        let prev = cs.drop_last();
        assert forall|i: int| 0 <= i < prev.len() && (#[trigger] prev[i]) is Open implies after_calls(
            v,
            prev.take(i),
        ).next_id < u64::MAX by {
            assert(prev.take(i) =~= cs.take(i));
            assert(prev[i] == cs[i]);
        }
        law_calls_keep_invariant(v, prev);
        assert(cs.take(n) =~= prev);
        assert(cs[n] == cs.last());
        lemma_call_keeps_invariant(after_calls(v, prev), cs.last());
        lemma_call_next_id(after_calls(v, prev), cs.last());
    }
}

/// The tabs of every browser reached from the initial one by allowed calls keep the
/// invariant: their identifiers are at least 1, pairwise distinct and increasing in tab order;
/// and the first tab ever opened gets identifier 1.
pub proof fn law_reachable_browsers_keep_invariant(cs: Seq<BrowserCall>)
    requires
        calls_allowed(initial_browser(), cs),
    ensures
        browser_wf(after_calls(initial_browser(), cs)),
        cs.len() > 0 && cs[0] is Open ==> id_handed_out(initial_browser(), cs, 0) == 1,
{
    law_calls_keep_invariant(initial_browser(), cs);
    assert(cs.take(0) =~= Seq::<BrowserCall>::empty());
}

/// Tab identifiers are never handed out twice: along any sequence of allowed calls, a later
/// `open_tab` hands out a larger identifier than an earlier one, also when the tab that held
/// the earlier one was closed in between; and no open tab holds it when it is handed out.
pub proof fn law_tab_ids_never_reused(v: BrowserView, cs: Seq<BrowserCall>, i: int, j: int)
    requires
        browser_wf(v),
        calls_allowed(v, cs),
        0 <= i < j < cs.len(),
        cs[i] is Open,
        cs[j] is Open,
    ensures
        id_handed_out(v, cs, i) < id_handed_out(v, cs, j),
        !has_tab(after_calls(v, cs.take(j)), id_handed_out(v, cs, j)),
{
    lemma_after_calls_step(v, cs, i);
    lemma_call_next_id(after_calls(v, cs.take(i)), cs[i]);
    lemma_next_id_grows(v, cs, i + 1, j);
    let w = after_calls(v, cs.take(j));
    assert(cs.take(j).take(j) =~= cs.take(j));
    assert forall|k: int| 0 <= k < cs.take(j).len() && (#[trigger] cs.take(j)[k]) is Open implies after_calls(
        v,
        cs.take(j).take(k),
    ).next_id < u64::MAX by {
        assert(cs.take(j).take(k) =~= cs.take(k));
        assert(cs.take(j)[k] == cs[k]);
    }
    law_calls_keep_invariant(v, cs.take(j));
    if has_tab(w, w.next_id as u64) {
        let k = choose|k: int| 0 <= k < w.tabs.len() && (#[trigger] w.tabs[k]).id == w.next_id as u64;
        assert(w.tabs[k].id < w.next_id);
    }
}

/// Closing a tab other than the active one leaves the active tab as it was; only the closed
/// tab leaves the tab list, and the identifier counter does not move.
pub proof fn law_closing_background_tab_keeps_active(v: BrowserView, id: u64)
    requires
        has_tab(v, id),
        v.active != Some(id),
    ensures
        closed(v, id).active == v.active,
        closed(v, id).tabs == v.tabs.remove(tab_index(v, id)),
        closed(v, id).tabs.len() + 1 == v.tabs.len(),
        closed(v, id).next_id == v.next_id,
{
    lemma_tab_index_first(v, id);
}

} // verus!
