//! Shields: network request blocking with the `adblock` engine, per-site overrides, and
//! per-tab counts of blocked requests.
use std::collections::HashMap;

use adblock::lists::FilterSet;
use adblock::request::{Request, RequestError};
use adblock::Engine;
use vstd::prelude::*;

use crate::text::{lower, str_equals, to_ascii_lower};
use crate::weburl::{parse_url, url_parse};

verus! {

broadcast use vstd::std_specs::hash::group_hash_axioms;

#[verifier::external_type_specification]
#[verifier::external_body]
pub struct ExFilterSet(FilterSet);

#[verifier::external_type_specification]
#[verifier::external_body]
pub struct ExEngine(Engine);

#[verifier::external_type_specification]
#[verifier::external_body]
pub struct ExRequest(Request);

#[verifier::external_type_specification]
#[verifier::external_body]
pub struct ExRequestError(RequestError);

/// The texts of the filter lists a `FilterSet` holds, in the order they were added.
pub uninterp spec fn filter_set_lists(set: FilterSet) -> Seq<Seq<char>>;

/// The texts of the filter lists an `Engine` was compiled from.
pub uninterp spec fn engine_lists(engine: Engine) -> Seq<Seq<char>>;

/// Whether `adblock::request::Request::new` accepts a request for `url` (its source shows that
/// this depends on whether its URL parser finds a host in `url`, and on nothing else).
pub uninterp spec fn request_accepted(url: Seq<char>) -> bool;

/// The verdict `BlockerResult::should_block` gives for `Engine::check_network_request` on an
/// engine compiled (with default parse options, without debug info) from `lists` and on the
/// request built from `url`, `source`, `kind` and `method`.
pub uninterp spec fn network_block(
    lists: Seq<Seq<char>>,
    url: Seq<char>,
    source: Seq<char>,
    kind: Seq<char>,
    method: Seq<char>,
) -> bool;

/// Calls `FilterSet::new(false)`. Claimed: the new set holds no list.
#[verifier::external_body]
fn new_filter_set() -> (r: FilterSet)
    ensures
        filter_set_lists(r) == Seq::<Seq<char>>::empty(),
{
    FilterSet::new(false)
}

/// Calls `FilterSet::add_filter_list` with default parse options. Claimed: the list text is
/// appended to the set's list sources, as the function's source does.
#[verifier::external_body]
fn add_filter_list(set: &mut FilterSet, list: String)
    ensures
        filter_set_lists(*final(set)) == filter_set_lists(*old(set)).push(list@),
{
    set.add_filter_list(list, adblock::lists::ParseOptions::default());
}

/// Calls `Engine::new_with_filter_set`. Claimed: the engine is compiled from the set's lists.
#[verifier::external_body]
fn engine_from_filter_set(set: FilterSet) -> (r: Engine)
    ensures
        engine_lists(r) == filter_set_lists(set),
{
    Engine::new_with_filter_set(set)
}

/// A request for the blocker, together with the values it was built from.
pub struct NetworkRequest {
    request: Request,
    url: String,
    source: String,
    kind: String,
    method: String,
}

impl View for NetworkRequest {
    type V = (Seq<char>, Seq<char>, Seq<char>, Seq<char>);

    closed spec fn view(&self) -> (Seq<char>, Seq<char>, Seq<char>, Seq<char>) {
        (self.url@, self.source@, self.kind@, self.method@)
    }
}

/// Calls `adblock::request::Request::new` and keeps its arguments beside the request.
/// Claimed: the call succeeds exactly when `request_accepted` holds of the URL, and the kept
/// values are the arguments.
#[verifier::external_body]
fn new_request(url: &str, source: &str, kind: &str, method: &str) -> (r: Result<
    NetworkRequest,
    RequestError,
>)
    ensures
        r is Ok <==> request_accepted(url@),
        r matches Ok(q) ==> q@ == (url@, source@, kind@, method@),
{
    Request::new(url, source, kind, method).map(
        |request| NetworkRequest {
            request,
            url: url.to_string(),
            source: source.to_string(),
            kind: kind.to_string(),
            method: method.to_string(),
        },
    )
}

/// Calls `Engine::check_network_request` and reads `BlockerResult::should_block` of the
/// answer. Claimed: the verdict is `network_block` of the engine's lists and the request.
#[verifier::external_body]
fn check_request(engine: &Engine, request: &NetworkRequest) -> (r: bool)
    ensures
        r == network_block(engine_lists(*engine), request@.0, request@.1, request@.2, request@.3),
{
    engine.check_network_request(&request.request).should_block()
}

} // verus!

verus! {

/// The small built-in list that blocks well-known trackers before any downloaded list is
/// compiled.
pub const FALLBACK_RULES: &'static str = "
||doubleclick.net^
||googlesyndication.com^
||google-analytics.com^
||adservice.google.com^
||connect.facebook.net^$third-party
||ads-twitter.com^
";

/// The request kind the browser reports for every intercepted resource.
pub open spec fn request_kind() -> Seq<char> {
    "other"@
}

/// The site a URL belongs to: its host, ASCII lower-cased, when the URL parses and has one.
pub open spec fn site_of(url: Seq<char>) -> Option<Seq<char>> {
    match url_parse(url) {
        Some(u) => match u.host {
            Some(h) => Some(lower(h)),
            None => None,
        },
        None => None,
    }
}

/// `site_host`: the lower-cased host of `url`, if it parses and has a host.
pub fn site_host(url: &str) -> (r: Option<String>)
    ensures
        match r {
            Some(h) => site_of(url@) == Some(h@),
            None => site_of(url@) is None,
        },
{
    match parse_url(url) {
        Some(u) => match u.host {
            Some(h) => Some(to_ascii_lower(h.as_str())),
            None => None,
        },
        None => None,
    }
}

/// The compiled filter engine.
pub struct FilterEngine {
    engine: Engine,
}

impl FilterEngine {
    /// The texts of the filter lists this engine was compiled from.
    pub closed spec fn lists(&self) -> Seq<Seq<char>> {
        engine_lists(self.engine)
    }
}

/// The model of Shields: the filter lists in force, the sites on which blocking is turned
/// off, and how many requests were blocked in each tab.
pub struct ShieldsView {
    pub lists: Seq<Seq<char>>,
    pub disabled: Set<Seq<char>>,
    pub blocked: Map<u64, u64>,
}

/// Shields is on for pages whose site has not been turned off (and for pages without a site).
pub open spec fn enabled_for(v: ShieldsView, url: Seq<char>) -> bool {
    match site_of(url) {
        Some(h) => !v.disabled.contains(h),
        None => true,
    }
}

/// The number of requests blocked so far in tab `tab`.
pub open spec fn blocked_in(v: ShieldsView, tab: u64) -> u64 {
    if v.blocked.contains_key(tab) {
        v.blocked[tab]
    } else {
        0
    }
}

/// Whether a request for `request_url` made by the page `page_url` is blocked: Shields is
/// on for the page, the blocker accepts the request, and the engine's lists block it.
pub open spec fn blocks(v: ShieldsView, page_url: Seq<char>, request_url: Seq<char>) -> bool {
    &&& enabled_for(v, page_url)
    &&& request_accepted(request_url)
    &&& network_block(v.lists, request_url, page_url, request_kind(), Seq::empty())
}

/// `v` with one more blocked request counted in tab `tab`.
pub open spec fn count_one(v: ShieldsView, tab: u64) -> ShieldsView {
    ShieldsView { blocked: v.blocked.insert(tab, (blocked_in(v, tab) + 1) as u64), ..v }
}

/// `v` after `should_block(tab, page_url, request_url)`: a blocked request is counted.
pub open spec fn counted(v: ShieldsView, tab: u64, page_url: Seq<char>, request_url: Seq<char>) -> ShieldsView {
    if blocks(v, page_url, request_url) {
        count_one(v, tab)
    } else {
        v
    }
}

/// `v` after `clear_tab(tab)`.
pub open spec fn cleared(v: ShieldsView, tab: u64) -> ShieldsView {
    ShieldsView { blocked: v.blocked.remove(tab), ..v }
}

/// `v` after `set_enabled_for_url(url, enabled)`.
pub open spec fn toggled(v: ShieldsView, url: Seq<char>, enabled: bool) -> ShieldsView {
    match site_of(url) {
        Some(h) => ShieldsView {
            disabled: if enabled {
                v.disabled.remove(h)
            } else {
                v.disabled.insert(h)
            },
            ..v
        },
        None => v,
    }
}

/// The sites of a list of host names.
pub open spec fn site_set(sites: Seq<String>) -> Set<Seq<char>> {
    sites.map_values(|s: String| s@).to_set()
}

/// A list of host names in which no name occurs twice.
pub struct SiteList {
    sites: Vec<String>,
}

impl View for SiteList {
    type V = Set<Seq<char>>;

    closed spec fn view(&self) -> Set<Seq<char>> {
        site_set(self.sites@)
    }
}

impl SiteList {
    /// No site is listed twice.
    #[verifier::type_invariant]
    closed spec fn unique(&self) -> bool {
        self.sites@.map_values(|s: String| s@).no_duplicates()
    }

    /// An empty list.
    pub(crate) fn new() -> (r: SiteList)
        ensures
            r@ == Set::<Seq<char>>::empty(),
    {
        let r = SiteList { sites: Vec::new() };
        assert(r.sites@.map_values(|s: String| s@).to_set() =~= Set::<Seq<char>>::empty());
        r
    }

    /// The position of `host` in the list.
    fn position(&self, host: &str) -> (r: Option<usize>)
        ensures
            r is Some <==> self@.contains(host@),
            r matches Some(i) ==> i < self.sites@.len() && self.sites@[i as int]@ == host@,
    {
        let n = self.sites.len();
        let mut i: usize = 0;
        while i < n
            invariant
                i <= n,
                n == self.sites@.len(),
                forall|k: int| 0 <= k < i ==> (#[trigger] self.sites@[k])@ != host@,
            decreases n - i,
        {
            if str_equals(self.sites[i].as_str(), host) {
                proof {
                    let s = self.sites@.map_values(|s: String| s@);
                    assert(s[i as int] == host@);
                }
                return Some(i);
            }
            i = i + 1;
        }
        proof {
            let s = self.sites@.map_values(|s: String| s@);
            if s.to_set().contains(host@) {
                let k = choose|k: int| 0 <= k < s.len() && s[k] == host@;
                assert(self.sites@[k]@ == host@);
            }
        }
        None
    }

    /// Whether `host` is listed.
    fn contains(&self, host: &str) -> (r: bool)
        ensures
            r == self@.contains(host@),
    {
        self.position(host).is_some()
    }

    /// Adds `host` unless it is listed already.
    pub(crate) fn insert(&mut self, host: String)
        ensures
            final(self)@ == old(self)@.insert(host@),
    {
        proof {
            use_type_invariant(&*self);
        }
        if self.position(host.as_str()).is_none() {
            let ghost old_seq = self.sites@.map_values(|s: String| s@);
            let mut sites = Vec::new();
            std::mem::swap(&mut sites, &mut self.sites);
            sites.push(host);
            proof {
                let new_seq = sites@.map_values(|s: String| s@);
                assert(new_seq =~= old_seq.push(host@));
                assert(!old_seq.contains(host@));
                old_seq.lemma_push_to_set_commute(host@);
            }
            self.sites = sites;
        } else {
            assert(self@ =~= old(self)@.insert(host@));
        }
    }

    /// Removes `host` if it is listed.
    fn remove(&mut self, host: &str)
        ensures
            final(self)@ == old(self)@.remove(host@),
    {
        proof {
            use_type_invariant(&*self);
        }
        if let Some(i) = self.position(host) {
            let ghost old_seq = self.sites@.map_values(|s: String| s@);
            let mut sites = Vec::new();
            std::mem::swap(&mut sites, &mut self.sites);
            sites.remove(i);
            proof {
                let new_seq = sites@.map_values(|s: String| s@);
                assert(new_seq =~= old_seq.remove(i as int));
                assert(old_seq[i as int] == host@);
                assert forall|x: Seq<char>| new_seq.to_set().contains(x) <==> old_seq.to_set().remove(
                    host@,
                ).contains(x) by {
                    if new_seq.to_set().contains(x) {
                        let k = choose|k: int| 0 <= k < new_seq.len() && new_seq[k] == x;
                        let ok = if k < i { k } else { k + 1 };
                        assert(old_seq[ok] == x);
                        assert(ok != i);
                    }
                    if old_seq.to_set().remove(host@).contains(x) {
                        let k = choose|k: int| 0 <= k < old_seq.len() && old_seq[k] == x;
                        assert(k != i);
                        let nk = if k < i { k } else { k - 1 };
                        assert(new_seq[nk] == x);
                    }
                }
                assert(new_seq.to_set() =~= old_seq.to_set().remove(host@));
                assert(new_seq.no_duplicates());
            }
            self.sites = sites;
        } else {
            assert(self@ =~= old(self)@.remove(host@));
        }
    }

    /// The listed sites, each once.
    pub(crate) fn to_vec(&self) -> (r: Vec<String>)
        ensures
            site_set(r@) == self@,
            r@.map_values(|s: String| s@).no_duplicates(),
    {
        proof {
            use_type_invariant(self);
        }
        self.sites.clone()
    }
}

/// Ad and tracker blocking for the whole browser.
pub struct Shields {
    engine: Engine,
    disabled_sites: SiteList,
    blocked_by_tab: HashMap<u64, u64>,
}

impl View for Shields {
    type V = ShieldsView;

    closed spec fn view(&self) -> ShieldsView {
        ShieldsView {
            lists: engine_lists(self.engine),
            disabled: self.disabled_sites@,
            blocked: self.blocked_by_tab@,
        }
    }
}

impl Shields {
    /// Shields with the built-in rules followed by `lists`, and blocking turned off on
    /// `disabled_sites` (the host names of the per-site overrides). No request is counted yet.
    pub fn load(lists: Vec<String>, disabled_sites: Vec<String>) -> (r: Shields)
        ensures
            r@.lists == seq![FALLBACK_RULES@] + lists@.map_values(|s: String| s@),
            r@.disabled == site_set(disabled_sites@),
            r@.blocked == Map::<u64, u64>::empty(),
    {
        let engine = Shields::build_full_engine(lists);
        let mut shields = Shields {
            engine: engine.engine,
            disabled_sites: SiteList::new(),
            blocked_by_tab: HashMap::new(),
        };
        let n = disabled_sites.len();
        let mut i: usize = 0;
        while i < n
            invariant
                i <= n,
                n == disabled_sites@.len(),
                shields@.lists == engine.lists(),
                shields@.blocked == Map::<u64, u64>::empty(),
                shields@.disabled == site_set(disabled_sites@.take(i as int)),
            decreases n - i,
        {
            shields.disabled_sites.insert(disabled_sites[i].clone());
            proof {
                let a = disabled_sites@.take(i as int).map_values(|s: String| s@);
                let b = disabled_sites@.take(i + 1).map_values(|s: String| s@);
                assert(b =~= a.push(disabled_sites@[i as int]@));
                a.lemma_push_to_set_commute(disabled_sites@[i as int]@);
            }
            i = i + 1;
        }
        assert(disabled_sites@.take(n as int) =~= disabled_sites@);
        shields
    }

    /// Shields with only the built-in rules, for use until the full lists are compiled.
    pub fn fallback(disabled_sites: Vec<String>) -> (r: Shields)
        ensures
            r@.lists == seq![FALLBACK_RULES@],
            r@.disabled == site_set(disabled_sites@),
            r@.blocked == Map::<u64, u64>::empty(),
    {
        let r = Shields::load(Vec::new(), disabled_sites);
        assert(seq![FALLBACK_RULES@] + Seq::<String>::empty().map_values(|s: String| s@) =~= seq![
            FALLBACK_RULES@,
        ]);
        r
    }

    /// Compiles the built-in rules followed by `lists` into an engine.
    pub fn build_full_engine(lists: Vec<String>) -> (r: FilterEngine)
        ensures
            r.lists() == seq![FALLBACK_RULES@] + lists@.map_values(|s: String| s@),
    {
        let mut set = new_filter_set();
        add_filter_list(&mut set, String::from_str(FALLBACK_RULES));
        let n = lists.len();
        let mut i: usize = 0;
        while i < n
            invariant
                i <= n,
                n == lists@.len(),
                filter_set_lists(set) == seq![FALLBACK_RULES@] + lists@.take(i as int).map_values(
                    |s: String| s@,
                ),
            decreases n - i,
        {
            add_filter_list(&mut set, lists[i].clone());
            assert(seq![FALLBACK_RULES@] + lists@.take(i + 1).map_values(|s: String| s@) =~= (seq![
                FALLBACK_RULES@,
            ] + lists@.take(i as int).map_values(|s: String| s@)).push(lists@[i as int]@));
            i = i + 1;
        }
        assert(lists@.take(n as int) =~= lists@);
        FilterEngine { engine: engine_from_filter_set(set) }
    }

    /// Puts a newly compiled engine in force; overrides and counts are kept.
    pub fn replace_engine(&mut self, engine: FilterEngine)
        ensures
            final(self)@ == (ShieldsView { lists: engine.lists(), ..old(self)@ }),
    {
        self.engine = engine.engine;
    }

    /// Whether to block a request for `request_url` made by the page `page_url` in tab
    /// `tab_id`. A blocked request is counted for the tab; nothing else changes.
    pub fn should_block(&mut self, tab_id: u64, page_url: &str, request_url: &str) -> (r: bool)
        requires
            blocked_in(old(self)@, tab_id) < u64::MAX,
        ensures
            r == blocks(old(self)@, page_url@, request_url@),
            final(self)@ == counted(old(self)@, tab_id, page_url@, request_url@),
    {
        if !self.enabled_for_url(page_url) {
            return false;
        }
        proof {
            reveal_strlit("");
            reveal_strlit("other");
            assert(""@ =~= Seq::<char>::empty());
        }
        let Ok(request) = new_request(request_url, page_url, "other", "") else {
            return false;
        };
        let blocked = check_request(&self.engine, &request);
        self.record_verdict(tab_id, blocked)
    }

    /// Records the blocker's verdict on a request made in tab `tab_id`: a blocked request is
    /// counted for the tab, and the verdict is handed back.
    pub fn record_verdict(&mut self, tab_id: u64, blocked: bool) -> (r: bool)
        requires
            blocked ==> blocked_in(old(self)@, tab_id) < u64::MAX,
        ensures
            r == blocked,
            final(self)@ == (if blocked {
                count_one(old(self)@, tab_id)
            } else {
                old(self)@
            }),
    {
        if blocked {
            let count = match self.blocked_by_tab.get(&tab_id) {
                Some(c) => *c,
                None => 0,
            };
            self.blocked_by_tab.insert(tab_id, count + 1);
        }
        blocked
    }

    /// How many requests were blocked in tab `tab_id`.
    pub fn blocked_count(&self, tab_id: u64) -> (r: u64)
        ensures
            r == blocked_in(self@, tab_id),
    {
        match self.blocked_by_tab.get(&tab_id) {
            Some(c) => *c,
            None => 0,
        }
    }

    /// Forgets the count of tab `tab_id`.
    pub fn clear_tab(&mut self, tab_id: u64)
        ensures
            final(self)@ == cleared(old(self)@, tab_id),
    {
        self.blocked_by_tab.remove(&tab_id);
    }

    /// Whether Shields is on for the page at `url`.
    pub fn enabled_for_url(&self, url: &str) -> (r: bool)
        ensures
            r == enabled_for(self@, url@),
    {
        match site_host(url) {
            Some(host) => !self.disabled_sites.contains(host.as_str()),
            None => true,
        }
    }

    /// Turns Shields on or off for the site of `url`, and returns that site; a URL without a
    /// site changes nothing and gives `None`.
    pub fn set_enabled_for_url(&mut self, url: &str, enabled: bool) -> (r: Option<String>)
        ensures
            match r {
                Some(h) => site_of(url@) == Some(h@),
                None => site_of(url@) is None,
            },
            final(self)@ == toggled(old(self)@, url@, enabled),
    {
        let host = match site_host(url) {
            Some(h) => h,
            None => return None,
        };
        if enabled {
            self.disabled_sites.remove(host.as_str());
        } else {
            self.disabled_sites.insert(host.clone());
        }
        Some(host)
    }

    /// The sites on which Shields is off, each once.
    pub fn disabled_sites(&self) -> (r: Vec<String>)
        ensures
            site_set(r@) == self@.disabled,
            r@.map_values(|s: String| s@).no_duplicates(),
    {
        self.disabled_sites.to_vec()
    }
}

} // verus!

verus! {

/// Turning Shields off for a page's site turns it off for every page of that site, and
/// turning it back on restores it; pages without a site are never affected.
pub proof fn law_site_override_applies(v: ShieldsView, url: Seq<char>, other: Seq<char>, enabled: bool)
    requires
        site_of(url) is Some,
        site_of(other) == site_of(url),
    ensures
        enabled_for(toggled(v, url, enabled), other) == enabled,
{
}

/// While Shields is off for a page, none of its requests is blocked and no count changes.
pub proof fn law_disabled_site_blocks_nothing(
    v: ShieldsView,
    tab: u64,
    page_url: Seq<char>,
    request_url: Seq<char>,
)
    requires
        !enabled_for(v, page_url),
    ensures
        !blocks(v, page_url, request_url),
        counted(v, tab, page_url, request_url) == v,
{
}

/// Each blocked request adds exactly one to its own tab's count and leaves every other
/// tab's count as it was; a request that is let through changes no count.
pub proof fn law_blocked_requests_are_counted(
    v: ShieldsView,
    tab: u64,
    other_tab: u64,
    page_url: Seq<char>,
    request_url: Seq<char>,
)
    requires
        blocked_in(v, tab) < u64::MAX,
        other_tab != tab,
    ensures
        blocked_in(counted(v, tab, page_url, request_url), tab) == blocked_in(v, tab) + (if blocks(
            v,
            page_url,
            request_url,
        ) {
            1int
        } else {
            0int
        }),
        blocked_in(counted(v, tab, page_url, request_url), other_tab) == blocked_in(v, other_tab),
{
}

/// After a tab's count is cleared it reads zero; other tabs keep theirs.
pub proof fn law_cleared_tab_counts_zero(v: ShieldsView, tab: u64, other_tab: u64)
    requires
        other_tab != tab,
    ensures
        blocked_in(cleared(v, tab), tab) == 0,
        blocked_in(cleared(v, tab), other_tab) == blocked_in(v, other_tab),
{
}

/// Turning Shields off for a site and then on again gives back the overrides from before,
/// when the site had not been turned off.
pub proof fn law_disable_then_enable_restores(v: ShieldsView, url: Seq<char>)
    requires
        site_of(url) matches Some(h) && !v.disabled.contains(h),
    ensures
        toggled(toggled(v, url, false), url, true) == v,
{
    let h = site_of(url)->0;
    assert(v.disabled.insert(h).remove(h) =~= v.disabled);
}

/// One call that changes Shields, as the laws over sequences of calls see it:
/// `should_block(tab, page_url, request_url)`, `clear_tab(tab)`,
/// `set_enabled_for_url(url, enabled)`, and `replace_engine` with an engine compiled from
/// the given lists.
pub enum ShieldsCall {
    Request(u64, Seq<char>, Seq<char>),
    Clear(u64),
    Toggle(Seq<char>, bool),
    Engine(Seq<Seq<char>>),
}

/// `v` after the call `c`.
pub open spec fn after_shields_call(v: ShieldsView, c: ShieldsCall) -> ShieldsView {
    match c {
        ShieldsCall::Request(tab, page_url, request_url) => counted(v, tab, page_url, request_url),
        ShieldsCall::Clear(tab) => cleared(v, tab),
        ShieldsCall::Toggle(url, enabled) => toggled(v, url, enabled),
        ShieldsCall::Engine(lists) => ShieldsView { lists, ..v },
    }
}

/// `v` after the calls `cs`, in order.
pub open spec fn after_shields_calls(v: ShieldsView, cs: Seq<ShieldsCall>) -> ShieldsView
    decreases cs.len(),
{
    if cs.len() == 0 {
        v
    } else {
        after_shields_call(after_shields_calls(v, cs.drop_last()), cs.last())
    }
}

/// Every `should_block` among the calls `cs`, made from `v`, meets its precondition: the
/// tab's count can grow by one.
pub open spec fn shields_calls_allowed(v: ShieldsView, cs: Seq<ShieldsCall>) -> bool {
    forall|i: int|
        0 <= i < cs.len() ==> match #[trigger] cs[i] {
            ShieldsCall::Request(tab, _, _) => blocked_in(after_shields_calls(v, cs.take(i)), tab)
                < u64::MAX,
            _ => true,
        }
}

/// The call at position `i` of `cs` is a `should_block` in tab `tab` that answered `true`.
pub open spec fn blocked_request_at(v: ShieldsView, cs: Seq<ShieldsCall>, tab: u64, i: int) -> bool {
    match cs[i] {
        ShieldsCall::Request(t, page_url, request_url) => t == tab && blocks(
            after_shields_calls(v, cs.take(i)),
            page_url,
            request_url,
        ),
        _ => false,
    }
}

/// How many of the calls at positions `lo` up to (not including) `hi` are a `should_block`
/// in tab `tab` that answered `true`.
pub open spec fn blocked_requests(v: ShieldsView, cs: Seq<ShieldsCall>, tab: u64, lo: int, hi: int) -> nat
    decreases hi - lo,
{
    if hi <= lo {
        0
    } else {
        blocked_requests(v, cs, tab, lo, hi - 1) + (if blocked_request_at(v, cs, tab, hi - 1) {
            1nat
        } else {
            0nat
        })
    }
}

/// The position just after the last `clear_tab(tab)` among the first `n` calls of `cs`, or 0
/// when there is none.
pub open spec fn after_last_clear(cs: Seq<ShieldsCall>, tab: u64, n: int) -> int
    decreases n,
{
    if n <= 0 {
        0
    } else if cs[n - 1] == ShieldsCall::Clear(tab) {
        n
    } else {
        after_last_clear(cs, tab, n - 1)
    }
}

/// The count of tab `tab` after the first `n` calls of `cs`: the requests blocked in it since
/// its last clear, added to its count in `v` when it was never cleared.
pub open spec fn expected_count(v: ShieldsView, cs: Seq<ShieldsCall>, tab: u64, n: int) -> int {
    let from = after_last_clear(cs, tab, n);
    (if from == 0 {
        blocked_in(v, tab) as int
    } else {
        0int
    }) + blocked_requests(v, cs, tab, from, n)
}

/// The last clear among the first `n` calls lies among them.
proof fn lemma_after_last_clear_bounds(cs: Seq<ShieldsCall>, tab: u64, n: int)
    requires
        0 <= n,
    ensures
        0 <= after_last_clear(cs, tab, n) <= n,
    decreases n,
{
    if n > 0 {
        lemma_after_last_clear_bounds(cs, tab, n - 1);
    }
}

/// The count of a tab after each prefix of an allowed sequence of calls is the expected one.
proof fn lemma_count_after_prefix(v: ShieldsView, cs: Seq<ShieldsCall>, tab: u64, n: int)
    requires
        shields_calls_allowed(v, cs),
        0 <= n <= cs.len(),
    ensures
        blocked_in(after_shields_calls(v, cs.take(n)), tab) == expected_count(v, cs, tab, n),
    decreases n,
{
    if n == 0 {
        assert(cs.take(0) =~= Seq::<ShieldsCall>::empty());
    } else {
        let k = n - 1;
        lemma_count_after_prefix(v, cs, tab, k);
        lemma_after_last_clear_bounds(cs, tab, k);
        assert(cs.take(n).drop_last() =~= cs.take(k));
        let before = after_shields_calls(v, cs.take(k));
        let after = after_shields_calls(v, cs.take(n));
        assert(after == after_shields_call(before, cs[k]));
        let c = cs[k];
        match c {
            ShieldsCall::Request(t, page_url, request_url) => {
                assert(blocked_in(before, t) < u64::MAX);
                if t == tab && blocks(before, page_url, request_url) {
                    assert(blocked_request_at(v, cs, tab, k));
                    assert(blocked_in(after, tab) == blocked_in(before, tab) + 1);
                } else {
                    assert(!blocked_request_at(v, cs, tab, k));
                    assert(blocked_in(after, tab) == blocked_in(before, tab));
                }
            },
            ShieldsCall::Clear(t) => {
                if t == tab {
                    assert(blocked_in(after, tab) == 0);
                } else {
                    assert(blocked_in(after, tab) == blocked_in(before, tab));
                }
            },
            _ => {
                assert(blocked_in(after, tab) == blocked_in(before, tab));
            },
        }
    }
}

/// A tab's blocked count is the number of `should_block` calls for that tab that answered
/// `true` since its last `clear_tab`; before any clear, that number is added to the count
/// the tab started with, which is 0 after `Shields::load`. Toggling sites, replacing the
/// engine and requests in other tabs leave it as it was.
pub proof fn law_blocked_count_counts_blocked_requests(v: ShieldsView, cs: Seq<ShieldsCall>, tab: u64)
    requires
        shields_calls_allowed(v, cs),
    ensures
        blocked_in(after_shields_calls(v, cs), tab) == expected_count(v, cs, tab, cs.len() as int),
        v.blocked == Map::<u64, u64>::empty() ==> blocked_in(after_shields_calls(v, cs), tab)
            == blocked_requests(v, cs, tab, after_last_clear(cs, tab, cs.len() as int), cs.len() as int),
{
    lemma_count_after_prefix(v, cs, tab, cs.len() as int);
    assert(cs.take(cs.len() as int) =~= cs);
}

/// The blocker judges a request whose source is the page that made it, of kind `other` and
/// with an empty method: a request is blocked exactly when Shields is on for the page, the
/// blocker accepts the request URL, and the engine's lists block the request for
/// `request_url` from `page_url`.
pub proof fn law_request_source_is_the_page(v: ShieldsView, page_url: Seq<char>, request_url: Seq<char>)
    ensures
        blocks(v, page_url, request_url) == (enabled_for(v, page_url) && request_accepted(
            request_url,
        ) && network_block(v.lists, request_url, page_url, "other"@, Seq::<char>::empty())),
{
}

} // verus!
