//! What the browser keeps between runs (open tabs, active tab, sidebar, Shields overrides)
//! and the rows of the settings store it is written as.
use vstd::prelude::*;

use crate::shields::{site_set, SiteList};
use crate::text::{
    decimal, has_prefix, lemma_parse_decimal, parse_usize, parse_usize_str, push_decimal, str_equals,
    strip_all_prefixes, strip_prefixes,
};

verus! {

/// The start page of a session with no saved tabs.
pub open spec fn start_page() -> Seq<char> {
    "https://www.google.com/"@
}

/// The prefix of the settings keys that record a site with Shields turned off.
pub open spec fn shield_key_prefix() -> Seq<char> {
    "shield_off:"@
}

/// The model of a persisted session.
pub struct SessionModel {
    pub urls: Seq<Seq<char>>,
    pub active_index: usize,
    pub sidebar_open: bool,
    pub disabled: Set<Seq<char>>,
}

/// The session restored when nothing was saved.
pub open spec fn default_session() -> SessionModel {
    SessionModel {
        urls: seq![start_page()],
        active_index: 0,
        sidebar_open: true,
        disabled: Set::empty(),
    }
}

/// The state read back at start-up.
#[derive(Debug)]
pub struct PersistedState {
    pub urls: Vec<String>,
    pub active_index: usize,
    pub sidebar_open: bool,
    pub disabled_shields: Vec<String>,
}

/// The models of a list of strings.
pub open spec fn string_seq(v: Seq<String>) -> Seq<Seq<char>> {
    v.map_values(|s: String| s@)
}

impl View for PersistedState {
    type V = SessionModel;

    open spec fn view(&self) -> SessionModel {
        SessionModel {
            urls: string_seq(self.urls@),
            active_index: self.active_index,
            sidebar_open: self.sidebar_open,
            disabled: site_set(self.disabled_shields@),
        }
    }
}

impl Default for PersistedState {
    fn default() -> (r: Self)
        ensures
            r@ == default_session(),
    {
        let mut urls = Vec::new();
        urls.push(String::from_str("https://www.google.com/"));
        let r = PersistedState {
            urls,
            active_index: 0,
            sidebar_open: true,
            disabled_shields: Vec::new(),
        };
        assert(r@.urls =~= default_session().urls);
        assert(r@.disabled =~= Set::<Seq<char>>::empty());
        r
    }
}

/// The rows a session is saved as: the tab URLs by position, the `active_index` and
/// `sidebar_open` setting values, and one settings key per site with Shields turned off.
#[derive(Debug)]
pub struct SessionRecord {
    pub tab_urls: Vec<String>,
    pub active_index: String,
    pub sidebar_open: String,
    pub shield_keys: Vec<String>,
}

/// The model of the saved rows.
pub struct RecordModel {
    pub tab_urls: Seq<Seq<char>>,
    pub active_index: Seq<char>,
    pub sidebar_open: Seq<char>,
    pub shield_keys: Seq<Seq<char>>,
}

impl View for SessionRecord {
    type V = RecordModel;

    open spec fn view(&self) -> RecordModel {
        RecordModel {
            tab_urls: string_seq(self.tab_urls@),
            active_index: self.active_index@,
            sidebar_open: self.sidebar_open@,
            shield_keys: string_seq(self.shield_keys@),
        }
    }
}

/// The stored value of the sidebar flag.
pub open spec fn flag_value(b: bool) -> Seq<char> {
    if b {
        "1"@
    } else {
        "0"@
    }
}

/// The settings key recording that Shields is off on `host`.
pub open spec fn shield_key(host: Seq<char>) -> Seq<char> {
    shield_key_prefix() + host
}

/// The rows written for a session.
pub open spec fn encoded(
    urls: Seq<Seq<char>>,
    active_index: usize,
    sidebar_open: bool,
    disabled: Seq<Seq<char>>,
) -> RecordModel {
    RecordModel {
        tab_urls: urls,
        active_index: decimal(active_index as nat),
        sidebar_open: flag_value(sidebar_open),
        shield_keys: disabled.map_values(|h: Seq<char>| shield_key(h)),
    }
}

/// The session read back from stored rows: the saved tabs (the start page when none was
/// saved), the saved active index when it parses (else the first tab), the sidebar open
/// unless it was saved as anything but `1`, and the sites named by the Shields keys.
pub open spec fn decoded(
    tab_urls: Seq<Seq<char>>,
    active_index: Option<Seq<char>>,
    sidebar_open: Option<Seq<char>>,
    shield_keys: Seq<Seq<char>>,
) -> SessionModel {
    SessionModel {
        urls: if tab_urls.len() == 0 {
            seq![start_page()]
        } else {
            tab_urls
        },
        active_index: match active_index {
            Some(v) => match parse_usize(v) {
                Some(n) => n,
                None => 0,
            },
            None => 0,
        },
        sidebar_open: match sidebar_open {
            Some(v) => v == "1"@,
            None => true,
        },
        disabled: shield_keys.map_values(|k: Seq<char>| strip_all_prefixes(k, shield_key_prefix())).to_set(),
    }
}

/// The rows for saving `urls` (in tab order), the active tab's position, the sidebar flag
/// and the sites with Shields turned off.
pub fn encode_session(
    urls: &[String],
    active_index: usize,
    sidebar_open: bool,
    disabled: &[String],
) -> (r: SessionRecord)
    ensures
        r@ == encoded(string_seq(urls@), active_index, sidebar_open, string_seq(disabled@)),
{
    let mut tab_urls: Vec<String> = Vec::new();
    let n = urls.len();
    let mut i: usize = 0;
    while i < n
        invariant
            i <= n,
            n == urls@.len(),
            string_seq(tab_urls@) =~= string_seq(urls@.take(i as int)),
        decreases n - i,
    {
        tab_urls.push(urls[i].clone());
        assert(string_seq(urls@.take(i + 1)) =~= string_seq(urls@.take(i as int)).push(urls@[i as int]@));
        i = i + 1;
    }
    assert(urls@.take(n as int) =~= urls@);
    let mut active = String::new();
    push_decimal(&mut active, active_index as u64);
    assert(Seq::<char>::empty() + decimal(active_index as nat) =~= decimal(active_index as nat));
    let flag = if sidebar_open {
        String::from_str("1")
    } else {
        String::from_str("0")
    };
    let mut keys: Vec<String> = Vec::new();
    let m = disabled.len();
    let mut j: usize = 0;
    while j < m
        invariant
            j <= m,
            m == disabled@.len(),
            string_seq(keys@) =~= string_seq(disabled@.take(j as int)).map_values(|h: Seq<char>| shield_key(h)),
        decreases m - j,
    {
        let mut key = String::from_str("shield_off:");
        key.append(disabled[j].as_str());
        let ghost before = string_seq(keys@);
        keys.push(key);
        proof {
            let a = string_seq(disabled@.take(j as int));
            let b = string_seq(disabled@.take(j + 1));
            assert(b =~= a.push(disabled@[j as int]@));
            assert(string_seq(keys@) =~= before.push(shield_key(disabled@[j as int]@)));
            assert(b.map_values(|h: Seq<char>| shield_key(h)) =~= a.map_values(|h: Seq<char>| shield_key(h)).push(shield_key(disabled@[j as int]@)));
        }
        j = j + 1;
    }
    assert(disabled@.take(m as int) =~= disabled@);
    SessionRecord { tab_urls, active_index: active, sidebar_open: flag, shield_keys: keys }
}


/// The models of an optional string.
pub open spec fn opt_view(s: Option<String>) -> Option<Seq<char>> {
    match s {
        Some(v) => Some(v@),
        None => None,
    }
}

/// The session stored in the given rows: the tab URLs ordered by position, the
/// `active_index` and `sidebar_open` setting values when present, and the settings keys that
/// start with the Shields prefix.
pub fn decode_session(
    tab_urls: Vec<String>,
    active_index: Option<String>,
    sidebar_open: Option<String>,
    shield_keys: Vec<String>,
) -> (r: PersistedState)
    ensures
        r@ == decoded(string_seq(tab_urls@), opt_view(active_index), opt_view(sidebar_open), string_seq(shield_keys@)),
        string_seq(r.disabled_shields@).no_duplicates(),
{
    let urls = if tab_urls.len() == 0 {
        let mut d = Vec::new();
        d.push(String::from_str("https://www.google.com/"));
        d
    } else {
        tab_urls
    };
    let index = match &active_index {
        Some(v) => match parse_usize_str(v.as_str()) {
            Some(n) => n,
            None => 0,
        },
        None => 0,
    };
    let sidebar = match &sidebar_open {
        Some(v) => str_equals(v.as_str(), "1"),
        None => true,
    };
    let mut sites = SiteList::new();
    let n = shield_keys.len();
    let mut i: usize = 0;
    let ghost stripped = string_seq(shield_keys@).map_values(
        |k: Seq<char>| strip_all_prefixes(k, shield_key_prefix()),
    );
    proof {
        reveal_strlit("shield_off:");
    }
    while i < n
        invariant
            i <= n,
            n == shield_keys@.len(),
            stripped == string_seq(shield_keys@).map_values(
                |k: Seq<char>| strip_all_prefixes(k, shield_key_prefix()),
            ),
            shield_key_prefix().len() > 0,
            sites@ == stripped.take(i as int).to_set(),
        decreases n - i,
    {
        let host = strip_prefixes(shield_keys[i].as_str(), "shield_off:");
        sites.insert(String::from_str(host));
        proof {
            assert(stripped.take(i + 1) =~= stripped.take(i as int).push(stripped[i as int]));
            stripped.take(i as int).lemma_push_to_set_commute(stripped[i as int]);
        }
        i = i + 1;
    }
    assert(stripped.take(n as int) =~= stripped);
    let disabled = sites.to_vec();
    let r = PersistedState { urls, active_index: index, sidebar_open: sidebar, disabled_shields: disabled };
    proof {
        reveal_strlit("https://www.google.com/");
        reveal_strlit("1");
        if tab_urls@.len() == 0 {
            assert(string_seq(r.urls@) =~= seq![start_page()]);
        }
    }
    r
}

/// No host is itself a copy of the Shields key prefix followed by more text, so stripping
/// the prefix from its key gives the host back.
pub open spec fn plain_host(h: Seq<char>) -> bool {
    !has_prefix(h, shield_key_prefix())
}

/// Reading back what was saved gives the saved session: the same tabs (the start page when
/// no tab was saved), active position, sidebar flag and turned-off sites. Hosts that begin
/// with the Shields key prefix are left out, since stripping repeats on them.
pub proof fn law_save_then_load_round_trips(
    urls: Seq<Seq<char>>,
    active_index: usize,
    sidebar_open: bool,
    disabled: Seq<Seq<char>>,
)
    requires
        forall|i: int| 0 <= i < disabled.len() ==> plain_host(#[trigger] disabled[i]),
    ensures
        ({
            let rec = encoded(urls, active_index, sidebar_open, disabled);
            let back = decoded(rec.tab_urls, Some(rec.active_index), Some(rec.sidebar_open), rec.shield_keys);
            &&& back.urls == (if urls.len() == 0 {
                seq![start_page()]
            } else {
                urls
            })
            &&& back.active_index == active_index
            &&& back.sidebar_open == sidebar_open
            &&& back.disabled == disabled.to_set()
        }),
{
    reveal_strlit("shield_off:");
    reveal_strlit("1");
    reveal_strlit("0");
    lemma_parse_decimal(active_index);
    let keys = disabled.map_values(|h: Seq<char>| shield_key(h));
    let back = keys.map_values(|k: Seq<char>| strip_all_prefixes(k, shield_key_prefix()));
    assert forall|i: int| 0 <= i < disabled.len() implies #[trigger] back[i] == disabled[i] by {
        let h = disabled[i];
        let k = shield_key(h);
        assert(k.take(shield_key_prefix().len() as int) =~= shield_key_prefix());
        assert(k.skip(shield_key_prefix().len() as int) =~= h);
        assert(strip_all_prefixes(h, shield_key_prefix()) == h);
    }
    assert(back =~= disabled);
    if !sidebar_open {
        assert("0"@ != "1"@) by {
            assert("0"@[0] != "1"@[0]);
        }
    }
}

} // verus!
