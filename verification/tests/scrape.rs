use goose_core::json::{Json, TextFacts};
use goose_core::market_json::{
    markets_from_json_blob, parse_string_or_array_numbers, parse_string_or_array_strings,
    script_json_bodies,
};
use goose_core::scrape::{
    dedupe_markets, extract_markets, is_browser_error_page, is_transient_context_error,
    is_valid_png, merge_markets, normalize_title, MarketEntry, PageContent, ScrapeOptions,
    PNG_SIGNATURE,
};

fn numeric_price(t: &str) -> bool {
    match t.parse::<f64>() {
        Ok(f) => (0.0..=1.0).contains(&f) || (1.0..=100.0).contains(&f),
        Err(_) => false,
    }
}

fn record(facts: &mut TextFacts, seen: &mut Vec<String>, text: &str) {
    if seen.iter().any(|s| s == text) {
        return;
    }
    seen.push(text.to_string());
    let parsed = serde_json::from_str::<serde_json::Value>(text).ok();
    facts.record(text.to_string(), numeric_price(text));
    if let Some(v) = parsed {
        walk(facts, seen, &v);
    }
}

fn walk(facts: &mut TextFacts, seen: &mut Vec<String>, v: &serde_json::Value) {
    match v {
        serde_json::Value::String(s) => {
            record(facts, seen, s);
            record(facts, seen, s.trim());
        }
        serde_json::Value::Number(n) => record(facts, seen, &n.to_string()),
        serde_json::Value::Array(a) => a.iter().for_each(|x| walk(facts, seen, x)),
        serde_json::Value::Object(m) => m.values().for_each(|x| walk(facts, seen, x)),
        _ => {}
    }
}

fn facts_for(content: &PageContent) -> TextFacts {
    let mut facts = TextFacts::new();
    let mut seen = Vec::new();
    for blob in &content.json_blobs {
        record(&mut facts, &mut seen, blob.trim());
    }
    for body in script_json_bodies(&content.html) {
        record(&mut facts, &mut seen, body.trim());
    }
    facts
}

fn facts_for_blob(blob: &str) -> TextFacts {
    let mut facts = TextFacts::new();
    let mut seen = Vec::new();
    record(&mut facts, &mut seen, blob.trim());
    facts
}

fn content(text: &str, html: &str, blobs: Vec<String>) -> PageContent {
    PageContent {
        url: "http://fixture/".into(),
        title: "Markets".into(),
        text: text.into(),
        html: html.into(),
        json_blobs: blobs,
        screenshot_png: None,
    }
}

#[test]
fn default_options_do_not_capture_screenshot() {
    let opts = ScrapeOptions::default();
    assert!(!opts.capture_screenshot);
}

#[test]
fn parse_fixture_html_extracts_markets_and_prices() {
    let rendered = r#"
        <div class="market-card" data-market-id="m1">
          <h2 class="market-title">Will BTC exceed $100k by year end?</h2>
          <div class="outcomes">
            <span class="outcome yes">Yes 62%</span>
            <span class="outcome no">No 38%</span>
          </div>
          <span class="status">Active</span>
        </div>
        <div class="market-card" data-market-id="m2">
          <h2 class="market-title">Fed rate cut in next meeting?</h2>
          <div class="outcomes">
            <span class="outcome yes">Yes 0.41</span>
            <span class="outcome no">No 0.59</span>
          </div>
          <span class="status">Open</span>
        </div>
        "#;

    let content = PageContent {
        url: "http://fixture/".into(),
        title: "Fixture Prediction Markets".into(),
        text: "Will BTC exceed $100k by year end?\nYes 62%\nNo 38%\nActive\nFed rate cut in next meeting?\nYes 0.41\nNo 0.59\nOpen".into(),
        html: rendered.into(),
        json_blobs: vec![],
        screenshot_png: None,
    };

    let result = extract_markets(&content, &facts_for(&content));
    assert!(
        result.markets.len() >= 2,
        "expected at least 2 markets, got {:?}",
        result.markets
    );
    assert!(
        result.markets.iter().any(|m| m.title.contains("BTC")),
        "missing BTC market: {:?}",
        result.markets
    );
    assert!(
        result.markets.iter().any(|m| {
            m.prices
                .iter()
                .any(|p| p.contains('%') || p.parse::<f64>().is_ok() || p.contains('¢'))
        }),
        "missing price/odds-like fields: {:?}",
        result.markets
    );
}

#[test]
fn parse_gamma_style_json_markets() {
    let json = r#"[
          {
            "question": "New Rihanna Album before GTA VI?",
            "outcomes": "[\"Yes\", \"No\"]",
            "outcomePrices": "[\"0.505\", \"0.495\"]",
            "active": true,
            "closed": false
          },
          {
            "question": "Will the Fed cut rates in September?",
            "outcomes": ["Yes", "No"],
            "outcomePrices": ["0.32", "0.68"],
            "active": true
          }
        ]"#;

    let content = PageContent {
        url: "https://example.com/".into(),
        title: "Markets".into(),
        text: String::new(),
        html: String::new(),
        json_blobs: vec![json.to_string()],
        screenshot_png: None,
    };

    let result = extract_markets(&content, &facts_for(&content));
    assert_eq!(result.markets.len(), 2);
    assert!(result.markets[0].title.contains("Rihanna"));
    assert!(!result.markets[0].prices.is_empty());
    assert!(result.markets[0].status.as_deref() == Some("active"));
    assert!(result.markets[1].title.contains("Fed"));
    assert_eq!(result.markets[1].prices.len(), 2);
}

#[test]
fn parse_text_blocks_with_cents_and_percent() {
    let text = "\
Will Argentina dollarize in 2026?
Yes 22¢
No 78¢
Active

Who will win the 2028 election?
Candidate A 41%
Candidate B 35%
Other 24%
Open
";
    let content = PageContent {
        url: "http://fixture/".into(),
        title: "Markets".into(),
        text: text.into(),
        html: String::new(),
        json_blobs: vec![],
        screenshot_png: None,
    };
    let result = extract_markets(&content, &facts_for(&content));
    assert!(
        result.markets.len() >= 2,
        "expected markets from text, got {:?}",
        result.markets
    );
    let argentina = result
        .markets
        .iter()
        .find(|m| m.title.contains("Argentina"))
        .expect("Argentina market");
    assert!(
        argentina
            .prices
            .iter()
            .any(|p| p.contains('¢') || p.contains('%')),
        "prices: {:?}",
        argentina.prices
    );
}

#[test]
fn extract_returns_empty_markets_for_blank_content() {
    let content = PageContent {
        url: "http://x".into(),
        title: "x".into(),
        text: String::new(),
        html: String::new(),
        json_blobs: vec![],
        screenshot_png: None,
    };
    let r = extract_markets(&content, &facts_for(&content));
    assert!(r.markets.is_empty());
    assert_eq!(r.url, "http://x");
    assert!(r.screenshot_png.is_none());
}

#[test]
fn extract_forwards_screenshot_png_bytes() {
    let mut png = PNG_SIGNATURE.to_vec();
    png.extend(std::iter::repeat_n(0u8, 1200));
    let content = PageContent {
        url: "http://x".into(),
        title: "x".into(),
        text: String::new(),
        html: String::new(),
        json_blobs: vec![],
        screenshot_png: Some(png.clone()),
    };
    let r = extract_markets(&content, &facts_for(&content));
    assert_eq!(r.screenshot_png.as_deref(), Some(png.as_slice()));
    assert!(is_valid_png(r.screenshot_png.as_ref().unwrap()));
}

#[test]
fn is_valid_png_rejects_empty_and_non_png() {
    assert!(!is_valid_png(&[]));
    assert!(!is_valid_png(b"not a png"));
    assert!(!is_valid_png(&PNG_SIGNATURE)); // too short
    let mut ok = PNG_SIGNATURE.to_vec();
    ok.resize(1100, 1);
    assert!(is_valid_png(&ok));
}

#[test]
fn gamma_outcome_prices_string_array_parsed() {
    let blob = r#"{"question":"Test market question here?","outcomePrices":"[\"0.7\",\"0.3\"]","outcomes":"[\"Yes\",\"No\"]","active":true}"#;
    let markets = markets_from_json_blob(blob, &facts_for_blob(blob));
    assert_eq!(markets.len(), 1);
    assert_eq!(markets[0].prices, vec!["0.7", "0.3"]);
    assert_eq!(markets[0].outcomes, vec!["Yes", "No"]);
    assert_eq!(markets[0].status.as_deref(), Some("active"));
}

fn market(title: &str) -> MarketEntry {
    MarketEntry {
        title: title.into(),
        prices: vec!["50%".into()],
        status: None,
        outcomes: vec![],
    }
}

#[test]
fn dedupe_keeps_first_of_each_normalized_title() {
    let ms = vec![
        market("Will  It Rain Tomorrow?"),
        market("will it rain tomorrow?"),
        market("Another market question?"),
        market("WILL IT RAIN\tTOMORROW?"),
    ];
    let out = dedupe_markets(ms);
    let titles: Vec<&str> = out.iter().map(|m| m.title.as_str()).collect();
    assert_eq!(titles, vec!["Will  It Rain Tomorrow?", "Another market question?"]);
    let again = dedupe_markets(out.clone());
    assert_eq!(again, out);
}

#[test]
fn merge_adds_only_new_titles() {
    let mut into = vec![market("First question here?")];
    merge_markets(
        &mut into,
        vec![market("first  QUESTION here?"), market("Second question here?")],
    );
    let titles: Vec<&str> = into.iter().map(|m| m.title.as_str()).collect();
    assert_eq!(titles, vec!["First question here?", "Second question here?"]);
}

#[test]
fn normalize_title_collapses_whitespace_and_lowercases() {
    assert_eq!(normalize_title("  Hello\t\nWORLD  Ünïcode "), "hello world ünïcode");
}

#[test]
fn text_block_status_and_outcomes() {
    let text = "Will the home team win tonight?\nYes 62%\nNo 38%\nActive\n";
    let c = content(text, "", vec![]);
    let r = extract_markets(&c, &facts_for(&c));
    assert_eq!(r.markets.len(), 1);
    let m = &r.markets[0];
    assert_eq!(m.title, "Will the home team win tonight?");
    assert_eq!(m.prices, vec!["62%", "38%"]);
    assert_eq!(m.outcomes, vec!["Yes", "No"]);
    assert_eq!(m.status.as_deref(), Some("active"));
    assert_eq!(r.text_excerpt, "Will the home team win tonight? Yes 62% No 38% Active");
}

#[test]
fn html_headings_give_markets_when_nothing_else_does() {
    let mut html = String::from(
        r#"<h2 class="market-title"><b>Will it snow in May?</b></h2><span>Yes 12%</span>"#,
    );
    html.push_str(&" ".repeat(400));
    let c = content("", &html, vec![]);
    let r = extract_markets(&c, &facts_for(&c));
    assert_eq!(r.markets.len(), 1);
    assert_eq!(r.markets[0].title, "Will it snow in May?");
    assert_eq!(r.markets[0].prices, vec!["12%"]);
}

#[test]
fn html_heading_near_end_of_page_has_no_price_window() {
    let html = r#"<h2 class="market-title">Will it snow in May?</h2><span>Yes 12%</span>"#;
    let c = content("", html, vec![]);
    let r = extract_markets(&c, &facts_for(&c));
    assert!(r.markets.is_empty());
}

#[test]
fn embedded_json_script_is_read_when_no_blobs() {
    let html = r#"<script type="application/json">{"markets":[{"question":"Embedded market question?","price":"0.25"}]}</script>"#;
    let c = content("", html, vec![]);
    let r = extract_markets(&c, &facts_for(&c));
    assert_eq!(r.markets.len(), 1);
    assert_eq!(r.markets[0].title, "Embedded market question?");
    assert_eq!(r.markets[0].prices, vec!["0.25"]);
}

#[test]
fn object_without_market_markers_is_skipped() {
    let blob = r#"{"title":"Just a page title here","description":"x"}"#;
    assert!(markets_from_json_blob(blob, &facts_for_blob(blob)).is_empty());
    let blob = r#"{"name":"Short","slug":"s"}"#;
    assert!(markets_from_json_blob(blob, &facts_for_blob(blob)).is_empty());
}

#[test]
fn closed_and_inactive_status_and_yes_no_prices() {
    let blob = r#"[{"question":"Closed market question?","closed":true,"yesPrice":0.9,"no":"0.1"},{"question":"Inactive market question?","active":false,"lastTradePrice":"42"}]"#;
    let ms = markets_from_json_blob(blob, &facts_for_blob(blob));
    assert_eq!(ms.len(), 2);
    assert_eq!(ms[0].status.as_deref(), Some("closed"));
    assert_eq!(ms[0].prices, vec!["0.9", "0.1"]);
    assert_eq!(ms[1].status.as_deref(), Some("inactive"));
    assert_eq!(ms[1].prices, vec!["42"]);
}

#[test]
fn non_price_strings_are_dropped_from_outcome_prices() {
    let blob = r#"{"question":"Which prices are kept here?","outcomePrices":["0.5","abc","150","12%"]}"#;
    let ms = markets_from_json_blob(blob, &facts_for_blob(blob));
    assert_eq!(ms.len(), 1);
    // "abc" ends in `c` and so reads as a cents price; "150" is out of range.
    assert_eq!(ms[0].prices, vec!["0.5", "abc", "12%"]);
}

#[test]
fn browser_error_pages_are_recognised() {
    let mut c = content("This page couldn’t load. Reload", "", vec![]);
    assert!(is_browser_error_page(&c));
    c.text = "Markets are open".into();
    assert!(!is_browser_error_page(&c));
    c.text = "This page couldn't load".into();
    assert!(is_browser_error_page(&c));
    c.text = "net::ERR_CONNECTION_RESET".into();
    assert!(is_browser_error_page(&c));
    c.title = String::new();
    c.text = "Reload or go back".into();
    assert!(is_browser_error_page(&c));
    c.title = "A page".into();
    assert!(!is_browser_error_page(&c));
}

#[test]
fn transient_context_errors_are_recognised() {
    assert!(is_transient_context_error("Execution context was destroyed, most likely"));
    assert!(is_transient_context_error("Target closed"));
    assert!(!is_transient_context_error("net::ERR_ABORTED"));
}

#[test]
fn string_values_holding_json_are_read_again() {
    let encoded = Json::Str(r#"["Yes","No"]"#.to_string());
    assert_eq!(parse_string_or_array_strings(&encoded), vec!["Yes", "No"]);
    assert_eq!(parse_string_or_array_strings(&Json::Str("Yes".to_string())), vec!["Yes"]);
    assert_eq!(parse_string_or_array_strings(&Json::Str(r#""inner""#.to_string())), vec!["inner"]);
    assert!(parse_string_or_array_strings(&Json::Null).is_empty());

    let prices = Json::Str(r#"["0.5","0.25","xyz","5c"]"#.to_string());
    let facts = facts_for_blob(r#"{"p":["0.5","0.25","xyz"]}"#);
    assert_eq!(parse_string_or_array_numbers(&prices, &facts), vec!["0.5", "0.25", "5c"]);
    assert_eq!(
        parse_string_or_array_numbers(&Json::Str(" 45% ".to_string()), &facts),
        vec!["45%"]
    );
    assert_eq!(
        parse_string_or_array_numbers(&Json::Number("7".to_string()), &facts),
        vec!["7"]
    );
}

#[test]
fn script_bodies_are_found_in_order() {
    let html = r#"<script type="application/json">{"a":1}</script><p>x</p><SCRIPT type='application/ld+json'> [2] </SCRIPT><script>no</script>"#;
    assert_eq!(script_json_bodies(html), vec![r#"{"a":1}"#, " [2] "]);
}
