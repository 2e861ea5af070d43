use goose_core::gamma::{browser_entry_fields, gamma_market_fields};
use goose_core::json::{json_or_null, TextFacts};

/// Records how every number in `v` (and in the JSON that its strings hold)
/// prints as `f64`.
fn learn(facts: &mut TextFacts, v: &serde_json::Value) {
    match v {
        serde_json::Value::String(s) => {
            if let Ok(p) = serde_json::from_str::<serde_json::Value>(s) {
                learn(facts, &p);
            }
        }
        serde_json::Value::Number(n) => {
            if let Some(f) = n.as_f64() {
                facts.record_float_text(n.to_string(), f.to_string());
            }
        }
        serde_json::Value::Array(a) => a.iter().for_each(|x| learn(facts, x)),
        serde_json::Value::Object(m) => m.values().for_each(|x| learn(facts, x)),
        _ => {}
    }
}

fn fields_of(text: &str) -> Option<goose_core::gamma::MarketFields> {
    let v: serde_json::Value = serde_json::from_str(text).unwrap();
    let mut facts = TextFacts::new();
    learn(&mut facts, &v);
    gamma_market_fields(&json_or_null(Some(text)), &facts)
}

#[test]
fn parse_gamma_market_with_stringified_arrays() {
    let m = fields_of(
        r#"{
            "id": "559651",
            "question": "Xi Jinping out before 2027?",
            "slug": "xi-jinping-out-before-2027",
            "conditionId": "0xabc",
            "outcomes": "[\"Yes\", \"No\"]",
            "outcomePrices": "[\"0.047\", \"0.953\"]",
            "clobTokenIds": "[\"111\", \"222\"]",
            "volume": "11968245.4",
            "liquidity": "264195.7",
            "endDate": "2026-12-31T00:00:00Z",
            "active": true,
            "closed": false
        }"#,
    )
    .unwrap();
    assert_eq!(m.question, "Xi Jinping out before 2027?");
    assert_eq!(m.id.as_deref(), Some("559651"));
    assert_eq!(m.outcomes, vec!["Yes", "No"]);
    assert_eq!(m.clob_token_ids, vec!["111", "222"]);
    assert_eq!(m.condition_id.as_deref(), Some("0xabc"));
    assert_eq!(m.end_date.as_deref(), Some("2026-12-31T00:00:00Z"));
    assert_eq!(m.active, Some(true));
    assert_eq!(m.closed, Some(false));
    assert_eq!(m.source, "api");
    assert_eq!(m.url.as_deref(), Some("https://polymarket.com/event/xi-jinping-out-before-2027"));
}

#[test]
fn gamma_fields_fallbacks() {
    let m = fields_of(
        r#"{"title":"Fed cut?","id":42,"condition_id":"0xdef","clob_token_ids":["a",1,"b"],
            "outcomes":"[\"Up\", 2, 3.5, null]","end_date":"2026-01-01"}"#,
    )
    .unwrap();
    assert_eq!(m.question, "Fed cut?");
    assert_eq!(m.id.as_deref(), Some("42"));
    assert_eq!(m.condition_id.as_deref(), Some("0xdef"));
    assert_eq!(m.clob_token_ids, vec!["a", "b"]);
    assert_eq!(m.outcomes, vec!["Up", "2", "3.5"]);
    assert_eq!(m.end_date.as_deref(), Some("2026-01-01"));
    assert_eq!(m.slug, None);
    assert_eq!(m.url, None);
    assert_eq!(m.active, None);

    let m = fields_of(r#"{"question":"Q?","id":-3,"conditionId":7,"condition_id":"0x1"}"#).unwrap();
    assert_eq!(m.id, None);
    // A present but non-string `conditionId` is not replaced by `condition_id`.
    assert_eq!(m.condition_id, None);
    assert!(m.outcomes.is_empty());

    assert!(fields_of(r#"{"question":5,"slug":"x"}"#).is_none());
}

#[test]
fn browser_entry_fields_status_and_default_outcomes() {
    let f = browser_entry_fields("Will it rain?", &[], Some("Market Closed"), "https://p/x", 2);
    assert_eq!(f.outcomes, vec!["Yes", "No"]);
    assert_eq!(f.closed, Some(true));
    assert_eq!(f.active, Some(false));
    assert_eq!(f.source, "browser");
    assert_eq!(f.url.as_deref(), Some("https://p/x"));
    assert_eq!(f.question, "Will it rain?");

    let outs = vec!["Up".to_string(), "Down".to_string()];
    let f = browser_entry_fields("Q", &outs, Some("OPEN"), "u", 2);
    assert_eq!(f.outcomes, outs);
    assert_eq!(f.active, Some(true));
    assert_eq!(f.closed, Some(false));

    let f = browser_entry_fields("Q", &[], None, "u", 1);
    assert!(f.outcomes.is_empty());
    assert_eq!(f.active, None);
    assert_eq!(f.closed, None);
}
