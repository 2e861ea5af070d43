use goose_core::polymarket::{
    book_request_url, edge_check_skipped, events_url, intent_request_check, live_orders_check,
    live_orders_enabled, market_request_url, market_url_from_slug, markets_url,
    midpoint_request_url, parse_order_type, parse_side, place_order_mode, positions_request_url,
    price_request_url, risk_failure, search_request_url, token_id_check, urlencoding_simple,
    valid_screenshot, BrowserScrapeRequest, IntentOrderType, ListEventsParams, ListMarketsParams,
    ListQuery, OrderMode, OrderSide, RiskCheckResult, CLOB_API, DATA_API, GAMMA_API,
};
use goose_core::polymarket::screenshot_image_data;
use goose_core::polymarket::{analysis_book_tokens, analysis_prompt_hints};

#[test]
fn market_url_from_slug_variants() {
    assert_eq!(market_url_from_slug("foo-bar"), "https://polymarket.com/event/foo-bar");
    assert_eq!(market_url_from_slug("event/foo-bar"), "https://polymarket.com/event/foo-bar");
    assert_eq!(
        market_url_from_slug("https://polymarket.com/event/x"),
        "https://polymarket.com/event/x"
    );
}

#[test]
fn market_url_from_slug_trims_and_strips_slashes() {
    assert_eq!(market_url_from_slug("  //market/abc "), "https://polymarket.com/market/abc");
    let once = market_url_from_slug("foo");
    assert_eq!(market_url_from_slug(&once), once);
}

#[test]
fn urlencoding_keeps_unreserved_and_encodes_the_rest() {
    assert_eq!(urlencoding_simple("aZ09-_.~"), "aZ09-_.~");
    assert_eq!(urlencoding_simple("a b/c"), "a%20b%2Fc");
    assert_eq!(urlencoding_simple("é"), "%C3%A9");
    assert_eq!(urlencoding_simple(""), "");
}

#[test]
fn list_urls_use_defaults_and_clamp_limit() {
    let params = ListMarketsParams {
        limit: None,
        offset: None,
        active: None,
        closed: None,
        order: Some("volume 24hr".to_string()),
        ascending: None,
        tag_id: Some("7".to_string()),
    };
    assert_eq!(
        markets_url(GAMMA_API, &params.query()),
        "https://gamma-api.polymarket.com/markets?limit=20&offset=0&active=true&closed=false&order=volume%2024hr&tag_id=7"
    );
    let q = ListQuery {
        limit: 500,
        offset: 3,
        active: None,
        closed: Some(true),
        order: None,
        ascending: Some(false),
        tag_id: Some("9"),
    };
    assert_eq!(
        events_url("http://g", &q),
        "http://g/events?limit=100&offset=3&closed=true&ascending=false"
    );
    let q = ListQuery { limit: 0, ..q };
    assert!(markets_url("http://g", &q).starts_with("http://g/markets?limit=1&"));
    let events = ListEventsParams {
        limit: Some(5),
        offset: Some(10),
        active: Some(false),
        closed: None,
        order: None,
        ascending: Some(true),
    };
    assert_eq!(
        events_url("http://g", &events.query()),
        "http://g/events?limit=5&offset=10&active=false&closed=false&ascending=true"
    );
}

#[test]
fn request_urls_and_their_errors() {
    assert_eq!(
        market_request_url(GAMMA_API, " 559651 "),
        Ok("https://gamma-api.polymarket.com/markets/559651".to_string())
    );
    assert_eq!(
        market_request_url("http://g", "xi jinping"),
        Ok("http://g/markets/slug/xi%20jinping".to_string())
    );
    assert_eq!(market_request_url("http://g", "  "), Err("id_or_slug is required".to_string()));
    assert_eq!(
        search_request_url("http://g", " fed rates ", 50),
        Ok("http://g/public-search?q=fed%20rates&limit_per_type=20".to_string())
    );
    assert_eq!(
        search_request_url("http://g", "x", 0),
        Ok("http://g/public-search?q=x&limit_per_type=1".to_string())
    );
    assert_eq!(search_request_url("http://g", "", 5), Err("query is required".to_string()));
    assert_eq!(
        book_request_url(CLOB_API, "tok 1"),
        Ok("https://clob.polymarket.com/book?token_id=tok%201".to_string())
    );
    assert_eq!(
        midpoint_request_url("http://c", "t"),
        Ok("http://c/midpoint?token_id=t".to_string())
    );
    assert_eq!(book_request_url("http://c", " "), Err("token_id is required".to_string()));
    assert_eq!(
        price_request_url("http://c", "t", " SELL "),
        Ok("http://c/price?token_id=t&side=sell".to_string())
    );
    assert_eq!(
        price_request_url("http://c", "t", "hold"),
        Err("side must be 'buy' or 'sell'".to_string())
    );
    assert_eq!(price_request_url("http://c", "", "buy"), Err("token_id is required".to_string()));
    assert_eq!(
        positions_request_url(DATA_API, " 0xabc "),
        Ok("https://data-api.polymarket.com/positions?user=0xabc".to_string())
    );
    assert_eq!(
        positions_request_url(DATA_API, ""),
        Err("user wallet address is required".to_string())
    );
}

#[test]
fn sides_and_order_types() {
    assert_eq!(parse_side(" BUY "), Ok(OrderSide::Buy));
    assert_eq!(parse_side("s"), Ok(OrderSide::Sell));
    assert_eq!(parse_side(" Hold "), Err("side must be buy or sell, got 'hold'".to_string()));
    assert_eq!(parse_order_type(Some(" fok ")), IntentOrderType::Fok);
    assert_eq!(parse_order_type(Some("gtd")), IntentOrderType::Gtd);
    assert_eq!(parse_order_type(Some("FAK")), IntentOrderType::Fak);
    assert_eq!(parse_order_type(Some("other")), IntentOrderType::Gtc);
    assert_eq!(parse_order_type(None), IntentOrderType::Gtc);
    assert_eq!(IntentOrderType::default(), IntentOrderType::Gtc);
    assert_eq!(OrderSide::Buy.as_str(), "BUY");
    assert_eq!(IntentOrderType::Fak.as_str(), "FAK");
}

#[test]
fn live_orders_flag_values() {
    assert!(live_orders_enabled(Some("1")));
    assert!(live_orders_enabled(Some("TRUE")));
    assert!(!live_orders_enabled(Some("yes")));
    assert!(!live_orders_enabled(None));
}

fn check(name: &str, passed: bool, detail: &str) -> RiskCheckResult {
    RiskCheckResult { name: name.to_string(), passed, detail: detail.to_string() }
}

#[test]
fn risk_failure_lists_failed_checks_in_order() {
    let checks = vec![
        check("price_in_unit_interval", true, "price=0.4"),
        check("max_notional", false, "notional≈400.0000 max=50"),
        token_id_check("  "),
        edge_check_skipped(),
        live_orders_check(false),
    ];
    assert_eq!(
        risk_failure(&checks),
        Some(
            "risk checks failed: max_notional: notional≈400.0000 max=50; token_id_present: token_id empty; live_orders_enabled: Set POLYMARKET_ENABLE_LIVE_ORDERS=1 to allow live orders"
                .to_string()
        )
    );
    let ok = vec![token_id_check("tok"), edge_check_skipped(), live_orders_check(true)];
    assert_eq!(risk_failure(&ok), None);
    assert_eq!(risk_failure(&vec![]), None);
}

#[test]
fn live_without_env_fails() {
    let checks = vec![token_id_check("tok"), live_orders_check(live_orders_enabled(None))];
    let err = risk_failure(&checks).unwrap();
    assert!(err.contains("live_orders_enabled"));
}

#[test]
fn order_gates() {
    assert_eq!(place_order_mode(None, false, false, false), Ok(OrderMode::Paper));
    assert_eq!(
        place_order_mode(Some(false), false, true, true),
        Err("live place_order requires confirm_live=true".to_string())
    );
    assert_eq!(
        place_order_mode(Some(false), true, false, true),
        Err("live orders disabled: set POLYMARKET_ENABLE_LIVE_ORDERS=1".to_string())
    );
    assert!(place_order_mode(Some(false), true, true, false).unwrap_err().contains("signed_order"));
    assert_eq!(place_order_mode(Some(false), true, true, true), Ok(OrderMode::Live));
    assert_eq!(intent_request_check(None, false), Ok(()));
    assert_eq!(intent_request_check(Some(true), false), Ok(()));
    assert_eq!(intent_request_check(Some(false), true), Ok(()));
    assert!(intent_request_check(Some(false), false).is_err());
}

#[test]
fn browser_request_defaults_and_options() {
    let req = BrowserScrapeRequest::default();
    assert_eq!(req.url, "https://polymarket.com");
    assert_eq!(req.settle_ms, 3000);
    assert_eq!(req.timeout_secs, 45);
    assert!(!req.capture_screenshot);
    let opts = req.scrape_options();
    assert!(opts.no_sandbox);
    assert_eq!(opts.navigation_timeout_secs, 45);
    assert!(opts.chrome_path.is_none());
}

#[test]
fn screenshots_are_kept_only_when_valid() {
    let mut png = vec![0x89, b'P', b'N', b'G', 0x0D, 0x0A, 0x1A, 0x0A];
    png.resize(1100, 0);
    assert_eq!(valid_screenshot(Some(png.clone())), Some(png));
    assert_eq!(valid_screenshot(Some(b"not a png".to_vec())), None);
    assert_eq!(valid_screenshot(None), None);
}

#[test]
fn screenshots_are_attached_as_base64() {
    assert_eq!(screenshot_image_data(&Some(b"hello".to_vec())), Some("aGVsbG8=".to_string()));
    assert_eq!(screenshot_image_data(&Some(vec![])), Some(String::new()));
    assert_eq!(screenshot_image_data(&None), None);
}

#[test]
fn analysis_context_hints_and_book_tokens() {
    let hints = analysis_prompt_hints();
    assert_eq!(hints.len(), 5);
    assert!(hints[3].contains("clob_token_ids"));
    let ids = vec!["111".to_string(), "222".to_string(), "333".to_string()];
    assert_eq!(analysis_book_tokens(&ids, true), (Some("111".to_string()), Some("222".to_string())));
    assert_eq!(analysis_book_tokens(&ids, false), (None, None));
    assert_eq!(analysis_book_tokens(&ids[..1].to_vec(), true), (Some("111".to_string()), None));
}
