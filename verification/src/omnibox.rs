//! The omnibox: turning what the user typed into the address to load.
use vstd::prelude::*;

use crate::text::{
    contains_char, contains_space, has_prefix, has_space, lower, starts_with, str_equals,
    to_ascii_lower, trim, trim_str,
};
use crate::weburl::{parse_url, parsed_view, url_parse, ParsedUrl, UrlParts};

verus! {

/// The search page that plain text is sent to; the encoded query follows it.
pub open spec fn search_prefix() -> Seq<char> {
    "https://www.google.com/search?q="@
}

/// Bytes that `application/x-www-form-urlencoded` leaves as they are.
pub open spec fn form_unreserved(b: u8) -> bool {
    ||| b == 0x2a
    ||| b == 0x2d
    ||| b == 0x2e
    ||| 0x30 <= b <= 0x39
    ||| 0x41 <= b <= 0x5a
    ||| b == 0x5f
    ||| 0x61 <= b <= 0x7a
}

/// The upper-case hexadecimal digit for `d < 16`.
pub open spec fn hex_upper(d: u8) -> char {
    if d < 10 {
        ((d + 48) as u32) as char
    } else {
        ((d + 55) as u32) as char
    }
}

/// The form encoding of one byte: unreserved bytes stay, a space becomes `+`, any other
/// byte becomes `%` and two upper-case hexadecimal digits.
pub open spec fn form_encode_byte(b: u8) -> Seq<char> {
    if form_unreserved(b) {
        seq![(b as u32) as char]
    } else if b == 0x20 {
        seq!['+']
    } else {
        seq!['%', hex_upper(b / 16), hex_upper(b % 16)]
    }
}

/// The `application/x-www-form-urlencoded` byte serialization of `bytes`.
pub open spec fn form_urlencoded(bytes: Seq<u8>) -> Seq<char>
    decreases bytes.len(),
{
    if bytes.len() == 0 {
        Seq::empty()
    } else {
        form_urlencoded(bytes.drop_last()) + form_encode_byte(bytes.last())
    }
}

/// Calls `url::form_urlencoded::byte_serialize` and collects the pieces. Claimed: the
/// result is the serialization that `form_urlencoded` spells out, as that function's source
/// writes it.
#[verifier::external_body]
fn form_urlencode(bytes: &[u8]) -> (r: String)
    ensures
        r@ == form_urlencoded(bytes@),
{
    url::form_urlencoded::byte_serialize(bytes).collect()
}

/// The (lower-cased) input names the local machine.
pub open spec fn is_local_host(l: Seq<char>) -> bool {
    ||| l == "localhost"@
    ||| has_prefix(l, "localhost:"@)
    ||| has_prefix(l, "127."@)
    ||| has_prefix(l, "[::1]"@)
}

/// The scheme guessed for an address typed without one: plain HTTP for the local machine,
/// HTTPS otherwise.
pub open spec fn guessed_scheme(input: Seq<char>) -> Seq<char> {
    if is_local_host(lower(input)) {
        "http"@
    } else {
        "https"@
    }
}

/// The input looks like a host name: it names the local machine, or holds `.` or `:`.
pub open spec fn looks_like_host(input: Seq<char>) -> bool {
    is_local_host(lower(input)) || input.contains('.') || input.contains(':')
}

/// The address with a guessed scheme for typed text that holds no white space and no `\\`
/// and looks like a host.
pub open spec fn host_candidate(input: Seq<char>) -> Option<Seq<char>> {
    if !has_space(input) && !input.contains('\\') && looks_like_host(input) {
        Some(guessed_scheme(input) + "://"@ + input)
    } else {
        None
    }
}

/// The address guessed for typed text that is not a URL but looks like a host, when the
/// guess parses.
pub open spec fn guessed_address(input: Seq<char>) -> Option<Seq<char>> {
    match host_candidate(input) {
        Some(c) if url_parse(c) is Some => Some(c),
        _ => None,
    }
}

/// The text after the first `:` of `s` (empty when there is none).
pub open spec fn after_first_colon(s: Seq<char>) -> Seq<char>
    decreases s.len(),
{
    if s.len() == 0 {
        s
    } else if s[0] == ':' {
        s.drop_first()
    } else {
        after_first_colon(s.drop_first())
    }
}

/// The text reads as a host followed by a port: a digit comes right after its first `:`
/// (as in `localhost:3000`), so a URL parser's "scheme" there is really a host name.
pub open spec fn host_with_port(s: Seq<char>) -> bool {
    let rest = after_first_colon(s);
    rest.len() > 0 && '0' <= rest[0] <= '9'
}

/// The search address for the (trimmed) text `input`.
pub open spec fn search_address(input: Seq<char>) -> Seq<char> {
    search_prefix() + form_urlencoded(vstd::utf8::encode_utf8(input))
}

/// The scheme is one the browser opens directly.
pub open spec fn is_web_scheme(scheme: Seq<char>) -> bool {
    scheme == "http"@ || scheme == "https"@
}

/// What the parse `parsed` of the (trimmed) text `input` decides: an `http` or `https` URL
/// opens as the parser serializes it; a URL of any other scheme (`file:`, `mailto:`, custom
/// schemes) is searched for, unless the text is a host with a port; no parse, or a host with a
/// port, leaves the choice open.
pub open spec fn parse_decision(input: Seq<char>, parsed: Option<UrlParts>) -> Option<Seq<char>> {
    match parsed {
        Some(u) if is_web_scheme(u.scheme) => Some(u.href),
        Some(u) if !host_with_port(input) => Some(search_address(input)),
        _ => None,
    }
}

/// What the omnibox opens for the typed text `raw`: nothing for blank input; what the URL
/// parse of the trimmed text decides; else a host-like guess with a scheme, when it parses;
/// else a search for the trimmed text.
pub open spec fn omnibox_target(raw: Seq<char>) -> Option<Seq<char>> {
    let input = trim(raw);
    if input.len() == 0 {
        None
    } else {
        match parse_decision(input, url_parse(input)) {
            Some(a) => Some(a),
            None => match guessed_address(input) {
                Some(c) => Some(c),
                None => Some(search_address(input)),
            },
        }
    }
}

/// Every search address is an `https://` address.
pub proof fn lemma_search_address_is_https(input: Seq<char>)
    ensures
        has_prefix(search_address(input), "https://"@),
{
    reveal_strlit("https://www.google.com/search?q=");
    reveal_strlit("https://");
    assert(search_address(input).take(8) =~= "https://"@);
}

/// Turns omnibox text into the address to load: `None` exactly for blank input, and every
/// address it returns starts with `http://` or `https://`, so typed `file:` or custom-scheme
/// URLs are searched for rather than opened.
pub fn normalize_omnibox(input: &str) -> (r: Option<String>)
    ensures
        match r {
            Some(s) => omnibox_target(input@) == Some(s@),
            None => omnibox_target(input@) is None,
        },
        r is None <==> trim(input@).len() == 0,
        r matches Some(s) ==> has_prefix(s@, "http://"@) || has_prefix(s@, "https://"@),
{
    let input = trim_str(input);
    if input.is_empty() {
        return None;
    }
    proof {
        reveal_strlit("http");
        reveal_strlit("https");
        reveal_strlit("http://");
        reveal_strlit("https://");
        reveal_strlit("://");
        lemma_search_address_is_https(input@);
    }
    let parsed = parse_url(input);
    proof {
        if parsed is Some {
            let u = parsed->0;
            if is_web_scheme(u.scheme@) {
                let s = u.scheme@;
                assert(has_prefix(u.href@, s + "://"@));
                if s == "http"@ {
                    assert(s + "://"@ =~= "http://"@);
                } else {
                    assert(s + "://"@ =~= "https://"@);
                }
            }
        }
    }
    if let Some(address) = decide_from_parse(input, parsed) {
        return Some(address);
    }
    if let Some(candidate) = guess_host_address(input) {
        if parse_url(candidate.as_str()).is_some() {
            proof {
                if is_local_host(lower(input@)) {
                    assert(candidate@.take(7) =~= "http://"@);
                } else {
                    assert(candidate@.take(8) =~= "https://"@);
                }
            }
            return Some(candidate);
        }
    }
    Some(search_for(input))
}

/// What the parse `parsed` of the trimmed, non-blank text `input` decides (see
/// `parse_decision`); `None` leaves the choice to the host guess and the search.
pub fn decide_from_parse(input: &str, parsed: Option<ParsedUrl>) -> (r: Option<String>)
    ensures
        match r {
            Some(s) => parse_decision(input@, parsed_view(parsed)) == Some(s@),
            None => parse_decision(input@, parsed_view(parsed)) is None,
        },
{
    proof {
        reveal_strlit("http");
        reveal_strlit("https");
    }
    match parsed {
        Some(url) => {
            if str_equals(url.scheme.as_str(), "http") || str_equals(url.scheme.as_str(), "https") {
                Some(url.href)
            } else if !digit_after_first_colon(input) {
                Some(search_for(input))
            } else {
                None
            }
        },
        None => None,
    }
}

/// The address with a guessed scheme for host-like text (see `host_candidate`): `http://`
/// for the local machine, `https://` otherwise.
pub fn guess_host_address(input: &str) -> (r: Option<String>)
    ensures
        match r {
            Some(c) => host_candidate(input@) == Some(c@),
            None => host_candidate(input@) is None,
        },
{
    proof {
        reveal_strlit("http");
        reveal_strlit("https");
        reveal_strlit("://");
        reveal_strlit("localhost");
        reveal_strlit("localhost:");
        reveal_strlit("127.");
        reveal_strlit("[::1]");
    }
    if contains_space(input) || contains_char(input, '\\') {
        return None;
    }
    let lower_input = to_ascii_lower(input);
    let l = lower_input.as_str();
    let local = str_equals(l, "localhost") || starts_with(l, "localhost:") || starts_with(
        l,
        "127.",
    ) || starts_with(l, "[::1]");
    let host_like = local || contains_char(input, '.') || contains_char(input, ':');
    if !host_like {
        return None;
    }
    let mut candidate = if local {
        String::from_str("http")
    } else {
        String::from_str("https")
    };
    candidate.append("://");
    candidate.append(input);
    Some(candidate)
}

/// The search address for `input` (see `search_address`).
fn search_for(input: &str) -> (r: String)
    ensures
        r@ == search_address(input@),
        has_prefix(r@, "https:"@),
{
    let encoded = form_urlencode(input.as_bytes());
    let mut target = String::from_str("https://www.google.com/search?q=");
    target.append(encoded.as_str());
    proof {
        reveal_strlit("https://www.google.com/search?q=");
        reveal_strlit("https:");
        assert(target@.take(6) =~= "https:"@);
    }
    target
}

/// Whether a digit follows the first `:` of `s` (see `host_with_port`).
fn digit_after_first_colon(s: &str) -> (r: bool)
    ensures
        r == host_with_port(s@),
{
    let n = s.unicode_len();
    let mut i: usize = 0;
    assert(s@.skip(0) =~= s@);
    while i < n && s.get_char(i) != ':'
        invariant
            i <= n,
            n == s@.len(),
            after_first_colon(s@) == after_first_colon(s@.skip(i as int)),
        decreases n - i,
    {
        assert(s@.skip(i as int).drop_first() =~= s@.skip(i + 1));
        i = i + 1;
    }
    if i == n {
        assert(s@.skip(i as int).len() == 0);
        return false;
    }
    assert(s@.skip(i as int)[0] == ':');
    assert(s@.skip(i as int).drop_first() =~= s@.skip(i + 1));
    if i + 1 == n {
        return false;
    }
    assert(s@.skip(i + 1)[0] == s@[i + 1]);
    let c = s.get_char(i + 1);
    '0' <= c && c <= '9'
}

/// Text without white space or `\\` that holds `:` or `.` looks like a host: the guess puts a
/// scheme and `://` in front of it; and when the text does not parse as a URL but the guess
/// does, the omnibox opens the guess.
pub proof fn law_colon_or_dot_text_is_host_like(raw: Seq<char>)
    requires
        !has_space(trim(raw)),
        !trim(raw).contains('\\'),
        trim(raw).contains(':') || trim(raw).contains('.'),
    ensures
        host_candidate(trim(raw)) == Some(guessed_scheme(trim(raw)) + "://"@ + trim(raw)),
        url_parse(trim(raw)) is None && url_parse(guessed_scheme(trim(raw)) + "://"@ + trim(raw))
            is Some ==> omnibox_target(raw) == Some(guessed_scheme(trim(raw)) + "://"@ + trim(raw)),
{
    let s = trim(raw);
    if s.contains(':') {
        let i = choose|i: int| 0 <= i < s.len() && s[i] == ':';
        assert(s[i] == ':');
    } else {
        let i = choose|i: int| 0 <= i < s.len() && s[i] == '.';
        assert(s[i] == '.');
    }
    assert(s.len() > 0);
}

} // verus!
