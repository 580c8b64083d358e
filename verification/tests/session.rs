use clearlane::process::{classify_process, ProcessStart};
use clearlane::browser::BrowserState;
use clearlane::session::{
    browser_closed, perf_tab_count, perf_urls, plan_restore, session_snapshot, ClosedFollowUp,
};
use clearlane::shields::Shields;

#[test]
fn perf_urls_cycle_through_the_benchmark_sites() {
    let urls = perf_urls(12);
    assert_eq!(urls.len(), 12);
    assert_eq!(urls[0], "https://example.com/");
    assert_eq!(urls[9], "https://www.sqlite.org/");
    assert_eq!(urls[10], "https://example.com/");
    assert_eq!(urls[11], "https://www.rust-lang.org/");
}

#[test]
fn perf_tab_count_reads_the_first_flag() {
    let args = |v: &[&str]| v.iter().map(|s| s.to_string()).collect::<Vec<_>>();
    assert_eq!(perf_tab_count(&args(&["app", "--perf-tabs", "7"])), 7);
    assert_eq!(perf_tab_count(&args(&["app", "--perf-tabs", "70"])), 30);
    assert_eq!(perf_tab_count(&args(&["app", "--perf-tabs", "x", "--perf-tabs", "3"])), 0);
    assert_eq!(perf_tab_count(&args(&["app", "--perf-tabs"])), 0);
    assert_eq!(perf_tab_count(&args(&["app"])), 0);
}

#[test]
fn restore_plan_clamps_and_defaults() {
    let (urls, active) = plan_restore(vec!["https://a/".into(), "https://b/".into()], 5, 0);
    assert_eq!(urls.len(), 2);
    assert_eq!(active, 1);
    let (urls, active) = plan_restore(Vec::new(), 3, 0);
    assert_eq!(urls, vec!["https://www.google.com/".to_string()]);
    assert_eq!(active, 0);
    let (urls, active) = plan_restore(vec!["https://a/".into()], 0, 3);
    assert_eq!(urls.len(), 3);
    assert_eq!(active, 0);
}

#[test]
fn snapshot_then_restore_reopens_the_session() {
    let mut browser = BrowserState::default();
    let a = browser.open_tab("https://a.example/".into());
    browser.open_tab("https://b.example/".into());
    browser.activate(a);
    let (urls, active) = session_snapshot(&browser);
    assert_eq!(urls, vec!["https://a.example/".to_string(), "https://b.example/".to_string()]);
    assert_eq!(active, 0);
    let (restored, restored_active) = plan_restore(urls.clone(), active, 0);
    assert_eq!(restored, urls);
    assert_eq!(restored_active, 0);
}

#[test]
fn closing_browsers_decides_the_follow_up() {
    let mut browser = BrowserState::default();
    let mut shields = Shields::fallback(Vec::new());
    let a = browser.open_tab("https://a.example/".into());
    let b = browser.open_tab("https://b.example/".into());
    assert!(shields.should_block(a.0, "https://a.example/", "https://stats.doubleclick.net/x"));
    assert_eq!(browser_closed(&mut browser, &mut shields, a, false, false), ClosedFollowUp::Relayout);
    assert_eq!(shields.blocked_count(a.0), 0);
    assert_eq!(browser_closed(&mut browser, &mut shields, b, false, true), ClosedFollowUp::OpenReplacementTab);
    let c = browser.open_tab("https://c.example/".into());
    assert_eq!(browser_closed(&mut browser, &mut shields, c, true, false), ClosedFollowUp::AwaitOtherBrowsers);
    assert_eq!(browser_closed(&mut browser, &mut shields, c, true, true), ClosedFollowUp::DestroyWindow);
}

#[test]
fn process_codes_decide_how_to_go_on() {
    assert_eq!(classify_process(true, 0), Ok(ProcessStart::HelperFinished));
    assert_eq!(classify_process(true, -2), Err("CEF subprocess failed".to_string()));
    assert_eq!(classify_process(false, -1), Ok(ProcessStart::RunBrowser));
    assert_eq!(
        classify_process(false, 3),
        Err("CEF browser process returned unexpected code 3".to_string())
    );
    assert_eq!(
        classify_process(false, -7),
        Err("CEF browser process returned unexpected code -7".to_string())
    );
}
