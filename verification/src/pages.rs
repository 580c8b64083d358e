//! The browser's own pages: the HTML shown when a page fails to load or a tab crashes, and
//! the `data:` URL it is loaded as.
use base64::Engine as _;
use vstd::prelude::*;

use crate::text::{push_char, push_signed_decimal, signed_decimal};

verus! {

/// The HTML escape of one character.
pub open spec fn escape_char(c: char) -> Seq<char> {
    if c == '&' {
        "&amp;"@
    } else if c == '<' {
        "&lt;"@
    } else if c == '>' {
        "&gt;"@
    } else if c == '"' {
        "&quot;"@
    } else {
        seq![c]
    }
}

/// `s` with `&`, `<`, `>` and `"` replaced by their HTML entities.
pub open spec fn html_escaped(s: Seq<char>) -> Seq<char>
    decreases s.len(),
{
    if s.len() == 0 {
        Seq::empty()
    } else {
        html_escaped(s.drop_last()) + escape_char(s.last())
    }
}

/// An escaped text holds no markup character but the `&` of its entities.
pub proof fn lemma_escaped_has_no_markup(s: Seq<char>)
    ensures
        !html_escaped(s).contains('<'),
        !html_escaped(s).contains('>'),
        !html_escaped(s).contains('"'),
        html_escaped(s).len() <= 6 * s.len(),
    decreases s.len(),
{
    reveal_strlit("&amp;");
    reveal_strlit("&lt;");
    reveal_strlit("&gt;");
    reveal_strlit("&quot;");
    if s.len() > 0 {
        lemma_escaped_has_no_markup(s.drop_last());
        let a = html_escaped(s.drop_last());
        let b = escape_char(s.last());
        assert(html_escaped(s) == a + b);
        assert forall|c: char| (c == '<' || c == '>' || c == '"') implies !(a + b).contains(c) by {
            if (a + b).contains(c) {
                let k = choose|k: int| 0 <= k < (a + b).len() && (a + b)[k] == c;
                if k < a.len() {
                    assert(a[k] == c);
                } else {
                    assert(b[k - a.len()] == c);
                }
            }
        }
    }
}

/// Escapes `value` for use as HTML text.
pub fn html_escape(value: &str) -> (r: String)
    ensures
        r@ == html_escaped(value@),
{
    let n = value.unicode_len();
    let mut out = String::new();
    let mut i: usize = 0;
    proof {
        reveal_strlit("&amp;");
        reveal_strlit("&lt;");
        reveal_strlit("&gt;");
        reveal_strlit("&quot;");
    }
    while i < n
        invariant
            i <= n,
            n == value@.len(),
            out@ == html_escaped(value@.take(i as int)),
        decreases n - i,
    {
        let c = value.get_char(i);
        if c == '&' {
            out.append("&amp;");
        } else if c == '<' {
            out.append("&lt;");
        } else if c == '>' {
            out.append("&gt;");
        } else if c == '"' {
            out.append("&quot;");
        } else {
            push_char(&mut out, c);
        }
        assert(value@.take(i + 1).drop_last() =~= value@.take(i as int));
        i = i + 1;
    }
    assert(value@.take(n as int) =~= value@);
    out
}

/// The base64 digit for `v < 64` (standard alphabet).
pub open spec fn b64_digit(v: u8) -> char {
    if v < 26 {
        ((v + 65) as u32) as char
    } else if v < 52 {
        ((v + 71) as u32) as char
    } else if v < 62 {
        ((v - 4) as u32) as char
    } else if v == 62 {
        '+'
    } else {
        '/'
    }
}

/// Standard base64 with `=` padding (RFC 4648, section 4).
pub open spec fn base64_standard(b: Seq<u8>) -> Seq<char>
    decreases b.len(),
{
    if b.len() == 0 {
        Seq::empty()
    } else if b.len() == 1 {
        seq![b64_digit(b[0] / 4), b64_digit(((b[0] % 4) * 16) as u8), '=', '=']
    } else if b.len() == 2 {
        seq![
            b64_digit(b[0] / 4),
            b64_digit(((b[0] % 4) * 16 + b[1] / 16) as u8),
            b64_digit(((b[1] % 16) * 4) as u8),
            '=',
        ]
    } else {
        seq![
            b64_digit(b[0] / 4),
            b64_digit(((b[0] % 4) * 16 + b[1] / 16) as u8),
            b64_digit(((b[1] % 16) * 4 + b[2] / 64) as u8),
            b64_digit(b[2] % 64),
        ] + base64_standard(b.skip(3))
    }
}

/// Calls `base64::engine::general_purpose::STANDARD.encode`. Claimed: the result is standard
/// padded base64 (as the crate documents); the length bound keeps the encoder's size
/// computation from overflowing, which it would report by panicking.
#[verifier::external_body]
fn base64_encode(bytes: &[u8]) -> (r: String)
    requires
        bytes@.len() <= usize::MAX / 2,
    ensures
        r@ == base64_standard(bytes@),
{
    base64::engine::general_purpose::STANDARD.encode(bytes)
}

/// The style sheet of the browser's own pages.
pub open spec fn page_style() -> Seq<char> {
    "body{font-family:system-ui;margin:10vh auto;max-width:720px;padding:0 32px;color:#202124}h1{font-size:28px}p{line-height:1.55;color:#5f6368}"@
}

/// The HTML of an internal page: `heading` (escaped) as title and heading, then `detail`
/// (already HTML) and `footer` (escaped) as paragraphs.
pub open spec fn internal_page_html(heading: Seq<char>, detail: Seq<char>, footer: Seq<char>) -> Seq<char> {
    "<!doctype html><meta charset=utf-8><title>"@ + html_escaped(heading) + "</title><style>"@
        + page_style() + "</style><h1>"@ + html_escaped(heading) + "</h1><p>"@ + detail + "</p><p>"@
        + html_escaped(footer) + "</p>"@
}

/// The `data:` URL that loads an internal page.
pub open spec fn internal_page_url(heading: Seq<char>, detail: Seq<char>, footer: Seq<char>) -> Seq<char> {
    "data:text/html;base64,"@ + base64_standard(
        vstd::utf8::encode_utf8(internal_page_html(heading, detail, footer)),
    )
}

/// A UTF-8 encoding takes at most four bytes per character.
pub proof fn lemma_utf8_length(s: Seq<char>)
    ensures
        vstd::utf8::encode_utf8(s).len() <= 4 * s.len(),
    decreases s.len(),
{
    if s.len() > 0 {
        lemma_utf8_length(s.drop_first());
    }
}

/// The longest text, in characters, that the internal pages are built from.
pub const PAGE_TEXT_LIMIT: usize = usize::MAX / 128;

/// `PAGE_TEXT_LIMIT` as a mathematical integer.
pub open spec fn page_text_limit() -> int {
    PAGE_TEXT_LIMIT as int
}

/// The `data:` URL of an internal page (see `internal_page_url`).
pub fn internal_page(heading: &str, detail: &str, footer: &str) -> (r: String)
    requires
        heading@.len() + detail@.len() + footer@.len() <= page_text_limit(),
    ensures
        r@ == internal_page_url(heading@, detail@, footer@),
{
    let escaped_heading = html_escape(heading);
    let mut html = String::from_str("<!doctype html><meta charset=utf-8><title>");
    html.append(escaped_heading.as_str());
    html.append("</title><style>");
    html.append(
        "body{font-family:system-ui;margin:10vh auto;max-width:720px;padding:0 32px;color:#202124}h1{font-size:28px}p{line-height:1.55;color:#5f6368}",
    );
    html.append("</style><h1>");
    html.append(escaped_heading.as_str());
    html.append("</h1><p>");
    html.append(detail);
    html.append("</p><p>");
    html.append(html_escape(footer).as_str());
    html.append("</p>");
    let bytes = html.as_str().as_bytes();
    proof {
        lemma_escaped_has_no_markup(heading@);
        lemma_escaped_has_no_markup(footer@);
        reveal_strlit("<!doctype html><meta charset=utf-8><title>");
        reveal_strlit("</title><style>");
        reveal_strlit(
            "body{font-family:system-ui;margin:10vh auto;max-width:720px;padding:0 32px;color:#202124}h1{font-size:28px}p{line-height:1.55;color:#5f6368}",
        );
        reveal_strlit("</style><h1>");
        reveal_strlit("</h1><p>");
        reveal_strlit("</p><p>");
        reveal_strlit("</p>");
        lemma_utf8_length(html@);
        assert(html@ == internal_page_html(heading@, detail@, footer@));
    }
    let mut url = String::from_str("data:text/html;base64,");
    url.append(base64_encode(bytes).as_str());
    url
}


/// The error code the engine reports for a load the browser itself cancelled
/// (`ERR_ABORTED`); such loads get no error page.
pub const ERR_ABORTED: i32 = -3;

/// The error page for a failed load of a main frame: heading, the escaped error text with
/// the error code in brackets, and the failed address. Cancelled loads and sub-frames get no
/// page.
pub open spec fn load_error_page_url(
    code: i32,
    is_main_frame: bool,
    error_text: Option<Seq<char>>,
    failed_url: Option<Seq<char>>,
) -> Option<Seq<char>> {
    if code == ERR_ABORTED || !is_main_frame {
        None
    } else {
        let text = match error_text {
            Some(t) => t,
            None => "Unknown error"@,
        };
        let url = match failed_url {
            Some(u) => u,
            None => Seq::empty(),
        };
        Some(
            internal_page_url(
                "Page could not be loaded"@,
                html_escaped(text) + " ("@ + signed_decimal(code as int) + ")"@,
                url,
            ),
        )
    }
}

/// The models of an optional string.
pub open spec fn opt_chars(s: Option<&str>) -> Option<Seq<char>> {
    match s {
        Some(v) => Some(v@),
        None => None,
    }
}

/// The address of the error page to show for a failed load (see `load_error_page_url`).
pub fn load_error_page(
    code: i32,
    is_main_frame: bool,
    error_text: Option<&str>,
    failed_url: Option<&str>,
) -> (r: Option<String>)
    requires
        error_text matches Some(t) ==> t@.len() <= page_text_limit() / 16,
        failed_url matches Some(u) ==> u@.len() <= page_text_limit() / 2,
    ensures
        match r {
            Some(p) => load_error_page_url(code, is_main_frame, opt_chars(error_text), opt_chars(failed_url)) == Some(p@),
            None => load_error_page_url(code, is_main_frame, opt_chars(error_text), opt_chars(failed_url)) is None,
        },
{
    if code == ERR_ABORTED || !is_main_frame {
        return None;
    }
    let text = match error_text {
        Some(t) => t,
        None => "Unknown error",
    };
    let url = match failed_url {
        Some(u) => u,
        None => "",
    };
    let mut detail = html_escape(text);
    detail.append(" (");
    push_signed_decimal(&mut detail, code);
    detail.append(")");
    proof {
        reveal_strlit("");
        reveal_strlit("Unknown error");
        reveal_strlit("Page could not be loaded");
        reveal_strlit(" (");
        reveal_strlit(")");
        lemma_escaped_has_no_markup(text@);
        assert(""@ =~= Seq::<char>::empty());
        lemma_signed_decimal_length(code);
    }
    Some(internal_page("Page could not be loaded", detail.as_str(), url))
}

/// A 32-bit number takes at most eleven characters.
proof fn lemma_signed_decimal_length(n: i32)
    ensures
        signed_decimal(n as int).len() <= 11,
{
    reveal_with_fuel(crate::text::ten_pow, 11);
    assert(crate::text::ten_pow(10) == 10000000000);
    crate::text::lemma_decimal_length(if n < 0 { (-(n as int)) as nat } else { n as nat }, 10);
}

/// The crash page for a tab whose renderer ended: the reason the engine gives (escaped), or
/// the exit code when it gives none.
pub open spec fn crash_page_url(error_code: i32, error_text: Option<Seq<char>>) -> Seq<char> {
    let detail = match error_text {
        Some(t) => t,
        None => "Renderer exited with code "@ + signed_decimal(error_code as int),
    };
    internal_page_url("This tab crashed"@, html_escaped(detail), "Reload the page to try again."@)
}

/// The address of the crash page (see `crash_page_url`).
pub fn crash_page(error_code: i32, error_text: Option<&str>) -> (r: String)
    requires
        error_text matches Some(t) ==> t@.len() <= page_text_limit() / 16,
    ensures
        r@ == crash_page_url(error_code, opt_chars(error_text)),
{
    let detail = match error_text {
        Some(t) => String::from_str(t),
        None => {
            let mut d = String::from_str("Renderer exited with code ");
            push_signed_decimal(&mut d, error_code);
            d
        },
    };
    proof {
        reveal_strlit("Renderer exited with code ");
        reveal_strlit("This tab crashed");
        reveal_strlit("Reload the page to try again.");
        lemma_signed_decimal_length(error_code);
        lemma_escaped_has_no_markup(detail@);
    }
    internal_page("This tab crashed", html_escape(detail.as_str()).as_str(), "Reload the page to try again.")
}

/// The page a request is attributed to: the initiator the engine names when it is not
/// empty, else the tab's current address, else nothing.
pub open spec fn initiator_of(request_initiator: Option<Seq<char>>, current_url: Option<Seq<char>>) -> Seq<char> {
    match request_initiator {
        Some(i) if i.len() > 0 => i,
        _ => match current_url {
            Some(u) => u,
            None => Seq::empty(),
        },
    }
}

/// Chooses the page a resource request is attributed to (see `initiator_of`).
pub fn choose_initiator(request_initiator: Option<String>, current_url: Option<String>) -> (r: String)
    ensures
        r@ == initiator_of(
            match request_initiator { Some(s) => Some(s@), None => None },
            match current_url { Some(s) => Some(s@), None => None },
        ),
{
    match request_initiator {
        Some(i) if i.as_str().unicode_len() > 0 => i,
        _ => match current_url {
            Some(u) => u,
            None => String::new(),
        },
    }
}

} // verus!
