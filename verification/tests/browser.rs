use goose_core::browser::{
    choose_chrome, chrome_install_locations, chrome_program_names, content_wait_step,
    detect_proxy_server, document_ready_step, navigation_script, proxy_names, page_content_from_payload,
    retries_exhausted, scrape_attempt_step, screenshot_accepted, selector_script,
    wait_selector_step, ContentWait, ScrapeStep, WaitStep, MAX_ATTEMPTS,
};
use goose_core::config_env::EnvSnapshot;
use goose_core::json::Json;
use goose_core::scrape::{BrowserScrapeError, PageContent, PNG_SIGNATURE};

fn env(vars: &[(&str, &str)]) -> EnvSnapshot {
    EnvSnapshot {
        vars: vars.iter().map(|(k, v)| (k.to_string(), Some(v.to_string()))).collect(),
    }
}

fn content(title: &str, text: &str) -> PageContent {
    PageContent {
        url: "http://x".into(),
        title: title.into(),
        text: text.into(),
        html: String::new(),
        json_blobs: vec![],
        screenshot_png: None,
    }
}

#[test]
fn explicit_bad_chrome_path_errors() {
    match choose_chrome(Some("/nonexistent/chrome-binary-xyz"), false, None) {
        Err(BrowserScrapeError::ChromeNotFound(m)) => {
            assert_eq!(m, "configured path is not a file: /nonexistent/chrome-binary-xyz")
        }
        other => panic!("unexpected: {other:?}"),
    }
}

#[test]
fn find_chrome_returns_existing_binary_or_clear_error() {
    assert_eq!(
        choose_chrome(None, false, Some("/usr/bin/chromium".to_string())).unwrap(),
        "/usr/bin/chromium"
    );
    assert_eq!(choose_chrome(Some("/opt/chrome"), true, None).unwrap(), "/opt/chrome");
    match choose_chrome(None, false, None) {
        Err(BrowserScrapeError::ChromeNotFound(m)) => assert!(m.contains("no Chrome/Chromium binary")),
        other => panic!("unexpected error variant: {other:?}"),
    }
    assert_eq!(chrome_program_names()[0], "google-chrome");
    assert_eq!(chrome_install_locations().len(), 5);
}

#[test]
fn proxy_is_first_non_blank_variable_trimmed() {
    assert_eq!(detect_proxy_server(&env(&[])), None);
    let e = env(&[("HTTP_PROXY", " http://p:8080 "), ("HTTPS_PROXY", "  ")]);
    assert_eq!(detect_proxy_server(&e), Some("http://p:8080".to_string()));
    let e = env(&[("all_proxy", "socks5://s"), ("https_proxy", "http://h")]);
    assert_eq!(detect_proxy_server(&e), Some("http://h".to_string()));
}

#[test]
fn document_ready_steps() {
    assert!(matches!(document_ready_step(Ok("complete".into()), false), WaitStep::Ready));
    assert!(matches!(document_ready_step(Ok("interactive".into()), true), WaitStep::Ready));
    assert!(matches!(document_ready_step(Ok("loading".into()), false), WaitStep::Again));
    match document_ready_step(Ok("loading".into()), true) {
        WaitStep::Fail(BrowserScrapeError::ReadyTimeout(m)) => {
            assert_eq!(m, "document.readyState stuck at loading")
        }
        other => panic!("unexpected: {other:?}"),
    }
    assert!(matches!(document_ready_step(Err("boom".into()), false), WaitStep::Again));
    match document_ready_step(Err("Execution context was destroyed".into()), true) {
        WaitStep::Fail(BrowserScrapeError::ReadyTimeout(m)) => {
            assert_eq!(m, "document never became ready: Execution context was destroyed")
        }
        other => panic!("unexpected: {other:?}"),
    }
    assert!(matches!(
        document_ready_step(Err("boom".into()), true),
        WaitStep::Fail(BrowserScrapeError::Protocol(m)) if m == "boom"
    ));
}

#[test]
fn selector_steps() {
    assert!(matches!(wait_selector_step(Ok("true".into()), "#a", true), WaitStep::Ready));
    assert!(matches!(wait_selector_step(Ok("false".into()), "#a", false), WaitStep::Again));
    assert!(matches!(
        wait_selector_step(Err("x".into()), "#a", true),
        WaitStep::Fail(BrowserScrapeError::ReadyTimeout(m)) if m == "selector not found: #a"
    ));
}

#[test]
fn content_wait_needs_stable_text() {
    let s = ContentWait { last_len: 0, stable_ticks: 0 };
    let (s, step) = content_wait_step(s, 100, false);
    assert!(matches!(step, WaitStep::Again));
    assert_eq!((s.last_len, s.stable_ticks), (100, 0));
    let (s, step) = content_wait_step(s, 100, false);
    assert!(matches!(step, WaitStep::Again));
    let (s, step) = content_wait_step(s, 100, false);
    assert!(matches!(step, WaitStep::Ready));
    assert_eq!(s.stable_ticks, 2);

    let s = ContentWait { last_len: 600, stable_ticks: 0 };
    assert!(matches!(content_wait_step(s, 600, false).1, WaitStep::Ready));
    assert!(matches!(content_wait_step(s, 2500, false).1, WaitStep::Ready));
    assert!(matches!(content_wait_step(s, 10, false).1, WaitStep::Again));
    assert!(matches!(content_wait_step(s, 10, true).1, WaitStep::Ready));
    assert!(matches!(
        content_wait_step(s, 0, true).1,
        WaitStep::Fail(BrowserScrapeError::ReadyTimeout(_))
    ));
}

#[test]
fn retry_and_screenshot_rules() {
    assert!(!retries_exhausted(1, "boom"));
    assert!(retries_exhausted(2, "boom"));
    assert!(!retries_exhausted(3, "Target closed"));
    let mut png = PNG_SIGNATURE.to_vec();
    png.resize(65, 0);
    assert!(screenshot_accepted(&png));
    png.truncate(64);
    assert!(!screenshot_accepted(&png));
    assert!(!screenshot_accepted(&[0u8; 100]));
}

#[test]
fn scrape_attempts_retry_error_pages_then_finish() {
    assert_eq!(MAX_ATTEMPTS, 3);
    let page = content("", "This page couldn't load");
    match scrape_attempt_step("http://x", 1, Ok(page.clone())) {
        ScrapeStep::Retry(BrowserScrapeError::Navigation { url, message }, d) => {
            assert_eq!(url, "http://x");
            assert_eq!(message, "browser error page (attempt 1): This page couldn't load");
            assert_eq!(d, 1000);
        }
        other => panic!("unexpected: {other:?}"),
    }
    assert!(matches!(scrape_attempt_step("http://x", 3, Ok(page)), ScrapeStep::Finish(_)));
    let good = content("Markets", "Will it rain?");
    assert!(matches!(scrape_attempt_step("http://x", 1, Ok(good)), ScrapeStep::Finish(_)));
    let err = BrowserScrapeError::Launch("no".into());
    assert!(matches!(scrape_attempt_step("http://x", 2, Err(err.clone())), ScrapeStep::Retry(_, 2000)));
    assert!(matches!(scrape_attempt_step("http://x", 3, Err(err)), ScrapeStep::Fail(_)));
}

#[test]
fn payload_becomes_page_content() {
    let payload = Json::Object(vec![
        ("title".into(), Json::Str("Fixture".into())),
        ("text".into(), Json::Str("Header\nWill BTC exceed?".into())),
        (
            "cards".into(),
            Json::Array(vec![
                Json::Str("Will BTC exceed?".into()),
                Json::Str("Fed cut in June? Yes 40%".into()),
                Json::Number("3".into()),
            ]),
        ),
        ("html".into(), Json::Str("<html></html>".into())),
        ("json_blobs".into(), Json::Array(vec![Json::Str("{}".into()), Json::Null])),
    ]);
    let c = page_content_from_payload(&payload, "http://fallback");
    assert_eq!(c.url, "http://fallback");
    assert_eq!(c.title, "Fixture");
    assert_eq!(c.text, "Header\nWill BTC exceed?\n\nFed cut in June? Yes 40%");
    assert_eq!(c.html, "<html></html>");
    assert_eq!(c.json_blobs, vec!["{}".to_string()]);
    assert!(c.screenshot_png.is_none());
}

#[test]
fn scripts_quote_their_arguments_as_json() {
    assert_eq!(
        navigation_script("http://a/\"b\""),
        "window.location.assign(\"http://a/\\\"b\\\"\")"
    );
    assert_eq!(
        selector_script("[data-ready='true']"),
        "String(!!document.querySelector(\"[data-ready='true']\"))"
    );
}

#[test]
fn proxy_names_in_order_of_preference() {
    assert_eq!(
        proxy_names(),
        vec!["HTTPS_PROXY", "https_proxy", "HTTP_PROXY", "http_proxy", "ALL_PROXY", "all_proxy"]
    );
}
