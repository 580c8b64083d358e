use base64::Engine as _;
use clearlane::pages::{choose_initiator, crash_page, html_escape, internal_page, load_error_page, ERR_ABORTED};

fn decode_page(url: &str) -> String {
    let prefix = "data:text/html;base64,";
    assert!(url.starts_with(prefix));
    let bytes = base64::engine::general_purpose::STANDARD.decode(&url[prefix.len()..]).unwrap();
    String::from_utf8(bytes).unwrap()
}

#[test]
fn escapes_markup_characters() {
    assert_eq!(html_escape("<a href=\"x\">&</a>"), "&lt;a href=&quot;x&quot;&gt;&amp;&lt;/a&gt;");
    assert_eq!(html_escape("plain 'text'"), "plain 'text'");
}

#[test]
fn internal_page_is_a_base64_data_url() {
    let url = internal_page("A<B", "<b>detail</b>", "foot&note");
    let html = decode_page(&url);
    assert!(html.starts_with("<!doctype html><meta charset=utf-8><title>A&lt;B</title><style>"));
    assert!(html.contains("<h1>A&lt;B</h1><p><b>detail</b></p><p>foot&amp;note</p>"));
    assert!(html.contains("p{line-height:1.55;color:#5f6368}"));
    assert_eq!(internal_page("", "", ""), format!("data:text/html;base64,{}", base64::engine::general_purpose::STANDARD.encode(decode_page(&internal_page("", "", "")))));
}

#[test]
fn load_errors_of_main_frames_get_a_page() {
    assert_eq!(load_error_page(ERR_ABORTED, true, Some("aborted"), Some("https://a/")), None);
    assert_eq!(load_error_page(-105, false, Some("x"), Some("https://a/")), None);
    let page = load_error_page(-105, true, Some("net::ERR_NAME_NOT_RESOLVED"), Some("https://a.example/")).unwrap();
    let html = decode_page(&page);
    assert!(html.contains("<h1>Page could not be loaded</h1><p>net::ERR_NAME_NOT_RESOLVED (-105)</p><p>https://a.example/</p>"));
    let page = load_error_page(7, true, None, None).unwrap();
    assert!(decode_page(&page).contains("<p>Unknown error (7)</p><p></p>"));
}

#[test]
fn crash_page_names_the_exit_code() {
    let html = decode_page(&crash_page(-2147483648, None));
    assert!(html.contains("<h1>This tab crashed</h1><p>Renderer exited with code -2147483648</p><p>Reload the page to try again.</p>"));
    let html = decode_page(&crash_page(1, Some("out of <memory>")));
    assert!(html.contains("<p>out of &lt;memory&gt;</p>"));
}

#[test]
fn initiator_falls_back_to_the_current_page() {
    assert_eq!(choose_initiator(Some("https://a/".into()), Some("https://b/".into())), "https://a/");
    assert_eq!(choose_initiator(Some(String::new()), Some("https://b/".into())), "https://b/");
    assert_eq!(choose_initiator(None, None), "");
}
