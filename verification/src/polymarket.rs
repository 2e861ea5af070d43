//! Polymarket: request building, order-intent risk decisions and the browser
//! path's request and URL handling. Prices are floating-point and are handled
//! by the caller; what is decided here is decided on text, integers and flags.

use vstd::prelude::*;
use base64::Engine;
use vstd::string::StringSliceAdditionalSpecFns;
use crate::scrape::{is_valid_png, opt_bytes, BrowserScrapeError, ScrapeOptions};
use crate::text::{
    ascii_lower, ascii_upper, chars_eq, chars_eq_ignore_ascii_case, chars_of, concat, decimal,
    eq_ignore_ascii_case, has_prefix, join, string_of, to_ascii_lower, to_ascii_upper, trim,
    trim_chars, trim_str, usize_to_string,
};

verus! {

/// Gamma API (markets, events, search).
pub const GAMMA_API: &'static str = "https://gamma-api.polymarket.com";

/// CLOB API (books, prices, orders).
pub const CLOB_API: &'static str = "https://clob.polymarket.com";

/// Data API (positions).
pub const DATA_API: &'static str = "https://data-api.polymarket.com";

/// The Polymarket web site.
pub const POLYMARKET_WEB: &'static str = "https://polymarket.com";

/// Side of an order intent.
#[derive(Debug, Clone, Copy, PartialEq, Eq)]
pub enum OrderSide {
    Buy,
    Sell,
}

impl OrderSide {
    /// The side as the CLOB spells it.
    pub open spec fn text(self) -> Seq<char> {
        match self {
            OrderSide::Buy => "BUY"@,
            OrderSide::Sell => "SELL"@,
        }
    }

    /// The side as the CLOB spells it (`BUY` / `SELL`).
    pub fn as_str(&self) -> (r: &'static str)
        ensures
            r@ == self.text(),
    {
        match self {
            OrderSide::Buy => "BUY",
            OrderSide::Sell => "SELL",
        }
    }
}

/// Order type for CLOB intents.
#[derive(Debug, Clone, Copy, PartialEq, Eq)]
pub enum IntentOrderType {
    Gtc,
    Gtd,
    Fok,
    Fak,
}

impl IntentOrderType {
    /// The order type as the CLOB spells it.
    pub open spec fn text(self) -> Seq<char> {
        match self {
            IntentOrderType::Gtc => "GTC"@,
            IntentOrderType::Gtd => "GTD"@,
            IntentOrderType::Fok => "FOK"@,
            IntentOrderType::Fak => "FAK"@,
        }
    }

    /// The order type as the CLOB spells it (`GTC`, `GTD`, `FOK`, `FAK`).
    pub fn as_str(&self) -> (r: &'static str)
        ensures
            r@ == self.text(),
    {
        match self {
            IntentOrderType::Gtc => "GTC",
            IntentOrderType::Gtd => "GTD",
            IntentOrderType::Fok => "FOK",
            IntentOrderType::Fak => "FAK",
        }
    }

    /// The default order type, good-till-cancelled.
    pub fn default() -> (r: IntentOrderType)
        ensures
            r == IntentOrderType::Gtc,
    {
        IntentOrderType::Gtc
    }
}

/// The outcome of one risk check on an order intent.
#[derive(Debug, Clone)]
pub struct RiskCheckResult {
    pub name: String,
    pub passed: bool,
    pub detail: String,
}

/// Shared query parameters for Gamma list endpoints.
#[derive(Debug, Clone)]
pub struct ListQuery<'a> {
    pub limit: u32,
    pub offset: u32,
    pub active: Option<bool>,
    pub closed: Option<bool>,
    pub order: Option<&'a str>,
    pub ascending: Option<bool>,
    pub tag_id: Option<&'a str>,
}

/// An unreserved URL byte: ASCII letters and digits, `-`, `_`, `.`, `~`.
pub open spec fn is_unreserved(b: u8) -> bool {
    (65 <= b <= 90) || (97 <= b <= 122) || (48 <= b <= 57) || b == 45 || b == 95 || b == 46
        || b == 126
}

/// An upper-case hexadecimal digit.
pub open spec fn hex_digit(d: nat) -> char {
    if d < 10 {
        (d + 48) as char
    } else {
        (d + 55) as char
    }
}

/// The percent-encoding of one byte.
pub open spec fn encode_byte(b: u8) -> Seq<char> {
    if is_unreserved(b) {
        seq![b as char]
    } else {
        seq!['%', hex_digit((b / 16) as nat), hex_digit((b % 16) as nat)]
    }
}

/// The percent-encoding of a byte sequence.
pub open spec fn percent_encode(bytes: Seq<u8>) -> Seq<char>
    decreases bytes.len(),
{
    if bytes.len() == 0 {
        seq![]
    } else {
        percent_encode(bytes.drop_last()) + encode_byte(bytes.last())
    }
}

/// An upper-case hexadecimal digit.
fn hex_char(d: u8) -> (r: char)
    requires
        d < 16,
    ensures
        r == hex_digit(d as nat),
{
    if d < 10 {
        (d + 48) as char
    } else {
        (d + 55) as char
    }
}

/// `urlencoding_simple`: percent-encodes every UTF-8 byte but the unreserved ones.
pub fn urlencoding_simple(s: &str) -> (r: String)
    ensures
        r@ == percent_encode(s.spec_bytes()),
{
    let bytes = s.as_bytes();
    let mut out: Vec<char> = Vec::new();
    let mut i: usize = 0;
    assert(bytes@.take(0) =~= Seq::<u8>::empty());
    while i < bytes.len()
        invariant
            i <= bytes@.len(),
            bytes@ == s.spec_bytes(),
            out@ == percent_encode(bytes@.take(i as int)),
        decreases bytes.len() - i,
    {
        let b = bytes[i];
        assert(bytes@.take(i + 1).drop_last() =~= bytes@.take(i as int));
        assert(bytes@.take(i + 1).last() == b);
        let ghost before = out@;
        if (65 <= b && b <= 90) || (97 <= b && b <= 122) || (48 <= b && b <= 57) || b == 45 || b
            == 95 || b == 46 || b == 126 {
            out.push(b as char);
        } else {
            out.push('%');
            out.push(hex_char(b / 16));
            out.push(hex_char(b % 16));
        }
        assert(out@ =~= before + encode_byte(b));
        i = i + 1;
    }
    assert(bytes@.take(i as int) =~= bytes@);
    string_of(&out)
}

/// `true` / `false`.
pub open spec fn bool_text(b: bool) -> Seq<char> {
    if b {
        "true"@
    } else {
        "false"@
    }
}

/// `true` / `false`.
fn bool_str(b: bool) -> (r: &'static str)
    ensures
        r@ == bool_text(b),
{
    if b {
        "true"
    } else {
        "false"
    }
}

/// The page size sent to Gamma: the requested limit clamped to 1..=100.
pub open spec fn clamped_limit(limit: u32) -> nat {
    if limit < 1 {
        1
    } else if limit > 100 {
        100
    } else {
        limit as nat
    }
}

/// `&name=value` for an optional flag.
pub open spec fn flag_param(name: Seq<char>, v: Option<bool>) -> Seq<char> {
    match v {
        Some(b) => "&"@ + name + "="@ + bool_text(b),
        None => seq![],
    }
}

/// `&name=value` for an optional text, percent-encoded.
pub open spec fn text_param(name: Seq<char>, v: Option<&str>) -> Seq<char> {
    match v {
        Some(t) => "&"@ + name + "="@ + percent_encode(t.spec_bytes()),
        None => seq![],
    }
}

/// The Gamma URL for listing `what` (`markets` or `events`); events take no tag filter.
pub open spec fn list_url(base: Seq<char>, what: Seq<char>, q: ListQuery, with_tag: bool) -> Seq<char> {
    base + "/"@ + what + "?limit="@ + decimal(clamped_limit(q.limit)) + "&offset="@ + decimal(
        q.offset as nat,
    ) + flag_param("active"@, q.active) + flag_param("closed"@, q.closed) + text_param(
        "order"@,
        q.order,
    ) + flag_param("ascending"@, q.ascending) + if with_tag {
        text_param("tag_id"@, q.tag_id)
    } else {
        seq![]
    }
}

/// Appends the characters of `b`.
fn append(a: &mut Vec<char>, b: &str)
    ensures
        final(a)@ == old(a)@ + b@,
{
    let cs = chars_of(b);
    let mut i: usize = 0;
    let ghost start = a@;
    while i < cs.len()
        invariant
            i <= cs@.len(),
            cs@ == b@,
            a@ == start + cs@.take(i as int),
        decreases cs.len() - i,
    {
        a.push(cs[i]);
        assert(cs@.take(i + 1) =~= cs@.take(i as int).push(cs@[i as int]));
        i = i + 1;
    }
    assert(cs@.take(i as int) =~= cs@);
}

/// Appends `&name=value` for an optional flag.
fn append_flag(url: &mut Vec<char>, name: &str, v: Option<bool>)
    ensures
        final(url)@ == old(url)@ + flag_param(name@, v),
{
    let ghost start = url@;
    match v {
        Some(b) => {
            append(url, "&");
            append(url, name);
            append(url, "=");
            append(url, bool_str(b));
            assert(url@ =~= start + flag_param(name@, v));
        },
        None => {
            assert(url@ =~= start + flag_param(name@, v));
        },
    }
}

/// Appends `&name=value` for an optional text, percent-encoded.
fn append_text(url: &mut Vec<char>, name: &str, v: Option<&str>)
    ensures
        final(url)@ == old(url)@ + text_param(name@, v),
{
    let ghost start = url@;
    match v {
        Some(t) => {
            append(url, "&");
            append(url, name);
            append(url, "=");
            append(url, urlencoding_simple(t).as_str());
            assert(url@ =~= start + text_param(name@, v));
        },
        None => {
            assert(url@ =~= start + text_param(name@, v));
        },
    }
}

/// The Gamma URL for listing `what`.
fn gamma_list_url(base: &str, what: &str, q: &ListQuery, with_tag: bool) -> (r: String)
    ensures
        r@ == list_url(base@, what@, *q, with_tag),
{
    let limit: u32 = if q.limit < 1 {
        1
    } else if q.limit > 100 {
        100
    } else {
        q.limit
    };
    let mut url: Vec<char> = Vec::new();
    append(&mut url, base);
    append(&mut url, "/");
    append(&mut url, what);
    append(&mut url, "?limit=");
    append(&mut url, usize_to_string(limit as usize).as_str());
    append(&mut url, "&offset=");
    append(&mut url, usize_to_string(q.offset as usize).as_str());
    append_flag(&mut url, "active", q.active);
    append_flag(&mut url, "closed", q.closed);
    append_text(&mut url, "order", q.order);
    append_flag(&mut url, "ascending", q.ascending);
    let ghost before_tag = url@;
    if with_tag {
        append_text(&mut url, "tag_id", q.tag_id);
    }
    assert(url@ =~= list_url(base@, what@, *q, with_tag));
    string_of(&url)
}

/// The Gamma URL that `list_markets` fetches.
pub fn markets_url(gamma: &str, q: &ListQuery) -> (r: String)
    ensures
        r@ == list_url(gamma@, "markets"@, *q, true),
{
    gamma_list_url(gamma, "markets", q, true)
}

/// The Gamma URL that `list_events` fetches.
pub fn events_url(gamma: &str, q: &ListQuery) -> (r: String)
    ensures
        r@ == list_url(gamma@, "events"@, *q, false),
{
    gamma_list_url(gamma, "events", q, false)
}

/// `POLYMARKET_ENABLE_LIVE_ORDERS` allows live orders when it is `1` or, in any
/// case, `true`.
pub open spec fn live_enabled_by(value: Option<Seq<char>>) -> bool {
    match value {
        Some(v) => v == "1"@ || eq_ignore_ascii_case(v, "true"@),
        None => false,
    }
}

/// Whether the value of `POLYMARKET_ENABLE_LIVE_ORDERS` allows live orders.
pub fn live_orders_enabled(value: Option<&str>) -> (r: bool)
    ensures
        r == live_enabled_by(
            match value {
                Some(v) => Some(v@),
                None => None,
            },
        ),
{
    match value {
        Some(v) => {
            let cs = chars_of(v);
            chars_eq(&cs, &chars_of("1")) || chars_eq_ignore_ascii_case(&cs, &chars_of("true"))
        },
        None => false,
    }
}

/// `parse_side`: `buy`/`b` or `sell`/`s`, trimmed and in any ASCII case.
pub open spec fn side_of(s: Seq<char>) -> Option<OrderSide> {
    let t = ascii_lower(trim(s));
    if t == "buy"@ || t == "b"@ {
        Some(OrderSide::Buy)
    } else if t == "sell"@ || t == "s"@ {
        Some(OrderSide::Sell)
    } else {
        None
    }
}

/// `parse_side`: the order side named by `s`, or an error naming what was given.
pub fn parse_side(s: &str) -> (r: Result<OrderSide, String>)
    ensures
        match r {
            Ok(side) => side_of(s@) == Some(side),
            Err(msg) => side_of(s@) is None && msg@ == "side must be buy or sell, got '"@
                + ascii_lower(trim(s@)) + "'"@,
        },
{
    let t = to_ascii_lower(&trim_chars(&chars_of(s)));
    if chars_eq(&t, &chars_of("buy")) || chars_eq(&t, &chars_of("b")) {
        return Ok(OrderSide::Buy);
    }
    if chars_eq(&t, &chars_of("sell")) || chars_eq(&t, &chars_of("s")) {
        return Ok(OrderSide::Sell);
    }
    let msg = concat(&concat(&chars_of("side must be buy or sell, got '"), &t), &chars_of("'"));
    Err(string_of(&msg))
}

/// `parse_order_type`: `GTD`, `FOK` or `FAK` (trimmed, any ASCII case), else `GTC`.
pub open spec fn order_type_of(s: Option<Seq<char>>) -> IntentOrderType {
    match s {
        Some(v) => {
            let t = ascii_upper(trim(v));
            if t == "GTD"@ {
                IntentOrderType::Gtd
            } else if t == "FOK"@ {
                IntentOrderType::Fok
            } else if t == "FAK"@ {
                IntentOrderType::Fak
            } else {
                IntentOrderType::Gtc
            }
        },
        None => IntentOrderType::Gtc,
    }
}

/// `parse_order_type`.
pub fn parse_order_type(s: Option<&str>) -> (r: IntentOrderType)
    ensures
        r == order_type_of(
            match s {
                Some(v) => Some(v@),
                None => None,
            },
        ),
{
    match s {
        Some(v) => {
            let t = to_ascii_upper(&trim_chars(&chars_of(v)));
            if chars_eq(&t, &chars_of("GTD")) {
                IntentOrderType::Gtd
            } else if chars_eq(&t, &chars_of("FOK")) {
                IntentOrderType::Fok
            } else if chars_eq(&t, &chars_of("FAK")) {
                IntentOrderType::Fak
            } else {
                IntentOrderType::Gtc
            }
        },
        None => IntentOrderType::Gtc,
    }
}

/// The token check: the token id must not be blank.
pub fn token_id_check(token_id: &str) -> (r: RiskCheckResult)
    ensures
        r.name@ == "token_id_present"@,
        r.passed == (trim(token_id@).len() > 0),
        r.detail@ == (if r.passed {
            "token_id set"@
        } else {
            "token_id empty"@
        }),
{
    let ok = !trim_str(token_id).as_str().is_empty();
    RiskCheckResult {
        name: "token_id_present".to_owned(),
        passed: ok,
        detail: if ok {
            "token_id set".to_owned()
        } else {
            "token_id empty".to_owned()
        },
    }
}

/// The edge check when no fair probability is given: it passes.
pub fn edge_check_skipped() -> (r: RiskCheckResult)
    ensures
        r.name@ == "min_edge"@,
        r.passed,
        r.detail@ == "fair_prob not provided; edge check skipped"@,
{
    RiskCheckResult {
        name: "min_edge".to_owned(),
        passed: true,
        detail: "fair_prob not provided; edge check skipped".to_owned(),
    }
}

/// The live-orders check for a non-dry-run intent.
pub fn live_orders_check(live_enabled: bool) -> (r: RiskCheckResult)
    ensures
        r.name@ == "live_orders_enabled"@,
        r.passed == live_enabled,
        r.detail@ == (if live_enabled {
            "POLYMARKET_ENABLE_LIVE_ORDERS is set"@
        } else {
            "Set POLYMARKET_ENABLE_LIVE_ORDERS=1 to allow live orders"@
        }),
{
    RiskCheckResult {
        name: "live_orders_enabled".to_owned(),
        passed: live_enabled,
        detail: if live_enabled {
            "POLYMARKET_ENABLE_LIVE_ORDERS is set".to_owned()
        } else {
            "Set POLYMARKET_ENABLE_LIVE_ORDERS=1 to allow live orders".to_owned()
        },
    }
}

/// `"{name}: {detail}"` for each failed check, in order.
pub open spec fn failed_parts(checks: Seq<RiskCheckResult>) -> Seq<Seq<char>>
    decreases checks.len(),
{
    if checks.len() == 0 {
        seq![]
    } else {
        let rest = failed_parts(checks.drop_last());
        let c = checks.last();
        if c.passed {
            rest
        } else {
            rest.push(c.name@ + ": "@ + c.detail@)
        }
    }
}

/// The verdict on a list of checks: `None` when every check passed, else the
/// error `"risk checks failed: "` followed by the failed checks joined by `"; "`.
pub open spec fn risk_verdict(checks: Seq<RiskCheckResult>) -> Option<Seq<char>> {
    let parts = failed_parts(checks);
    if parts.len() == 0 {
        None
    } else {
        Some("risk checks failed: "@ + join(parts, "; "@))
    }
}

/// The error that `build_order_intent` returns for a list of checks, if any failed.
pub fn risk_failure(checks: &Vec<RiskCheckResult>) -> (r: Option<String>)
    ensures
        match r {
            Some(m) => risk_verdict(checks@) == Some(m@),
            None => risk_verdict(checks@) is None,
        },
{
    let mut parts: Vec<Vec<char>> = Vec::new();
    let mut i: usize = 0;
    assert(checks@.take(0) =~= Seq::<RiskCheckResult>::empty());
    assert(crate::text::views(parts@) =~= Seq::<Seq<char>>::empty());
    while i < checks.len()
        invariant
            i <= checks@.len(),
            crate::text::views(parts@) == failed_parts(checks@.take(i as int)),
        decreases checks.len() - i,
    {
        assert(checks@.take(i + 1).drop_last() =~= checks@.take(i as int));
        assert(checks@.take(i + 1).last() == checks@[i as int]);
        let ghost before = crate::text::views(parts@);
        if !checks[i].passed {
            let p = concat(
                &concat(&chars_of(checks[i].name.as_str()), &chars_of(": ")),
                &chars_of(checks[i].detail.as_str()),
            );
            parts.push(p);
            assert(crate::text::views(parts@) =~= before.push(p@));
        }
        i = i + 1;
    }
    assert(checks@.take(i as int) =~= checks@);
    if parts.len() == 0 {
        return None;
    }
    let msg = concat(&chars_of("risk checks failed: "), &crate::text::join_chars(&parts, &chars_of("; ")));
    Some(string_of(&msg))
}

/// How `place_order` proceeds.
#[derive(Debug, Clone, Copy, PartialEq, Eq)]
pub enum OrderMode {
    /// Log a paper order only.
    Paper,
    /// Submit the pre-signed order.
    Live,
}

/// `place_order`'s gate: paper unless `dry_run` is false; a live order needs
/// `confirm_live`, live orders enabled, and a signed order, checked in that order.
pub open spec fn order_mode(dry_run: Option<bool>, confirm_live: bool, live_enabled: bool, has_signed_order: bool) -> Result<
    OrderMode,
    Seq<char>,
> {
    let dry = match dry_run {
        Some(d) => d,
        None => true,
    };
    if dry {
        Ok(OrderMode::Paper)
    } else if !confirm_live {
        Err("live place_order requires confirm_live=true"@)
    } else if !live_enabled {
        Err("live orders disabled: set POLYMARKET_ENABLE_LIVE_ORDERS=1"@)
    } else if !has_signed_order {
        Err(
            "live place_order requires signed_order JSON (EIP-712 signed via py-clob-client or official TS SDK). Unsigned intents are paper-only."@,
        )
    } else {
        Ok(OrderMode::Live)
    }
}

/// `place_order`'s gate.
pub fn place_order_mode(
    dry_run: Option<bool>,
    confirm_live: bool,
    live_enabled: bool,
    has_signed_order: bool,
) -> (r: Result<OrderMode, String>)
    ensures
        match r {
            Ok(m) => order_mode(dry_run, confirm_live, live_enabled, has_signed_order) == Ok::<
                OrderMode,
                Seq<char>,
            >(m),
            Err(e) => order_mode(dry_run, confirm_live, live_enabled, has_signed_order) == Err::<
                OrderMode,
                Seq<char>,
            >(e@),
        },
{
    let dry = match dry_run {
        Some(d) => d,
        None => true,
    };
    if dry {
        Ok(OrderMode::Paper)
    } else if !confirm_live {
        Err("live place_order requires confirm_live=true".to_owned())
    } else if !live_enabled {
        Err("live orders disabled: set POLYMARKET_ENABLE_LIVE_ORDERS=1".to_owned())
    } else if !has_signed_order {
        Err(
            "live place_order requires signed_order JSON (EIP-712 signed via py-clob-client or official TS SDK). Unsigned intents are paper-only.".to_owned(),
        )
    } else {
        Ok(OrderMode::Live)
    }
}

/// `build_order_intent`'s gate: a non-dry-run request needs `confirm_live`.
pub fn intent_request_check(dry_run: Option<bool>, confirm_live: bool) -> (r: Result<(), String>)
    ensures
        match r {
            Ok(_) => match dry_run {
                Some(d) => d || confirm_live,
                None => true,
            },
            Err(e) => dry_run == Some(false) && !confirm_live && e@
                == "non-dry-run requires confirm_live=true (prefer dry_run=true for paper intents)"@,
        },
{
    let dry = match dry_run {
        Some(d) => d,
        None => true,
    };
    if !dry && !confirm_live {
        return Err(
            "non-dry-run requires confirm_live=true (prefer dry_run=true for paper intents)".to_owned(),
        );
    }
    Ok(())
}

/// A browser scrape of Polymarket (or of a market URL).
#[derive(Debug, Clone)]
pub struct BrowserScrapeRequest {
    pub url: String,
    pub settle_ms: u64,
    pub timeout_secs: u64,
    pub ready_selector: Option<String>,
    pub capture_screenshot: bool,
}

impl BrowserScrapeRequest {
    /// The defaults: the Polymarket home page, 3 s settle time, 45 s timeout,
    /// no ready selector, no screenshot.
    pub fn default() -> (r: BrowserScrapeRequest)
        ensures
            r.url@ == POLYMARKET_WEB@,
            r.settle_ms == 3000,
            r.timeout_secs == 45,
            r.ready_selector is None,
            !r.capture_screenshot,
    {
        BrowserScrapeRequest {
            url: POLYMARKET_WEB.to_owned(),
            settle_ms: 3000,
            timeout_secs: 45,
            ready_selector: None,
            capture_screenshot: false,
        }
    }

    /// The browser options for this request: its settle time, ready selector,
    /// timeout and screenshot choice, Chrome found on the system, no sandbox.
    pub fn scrape_options(&self) -> (r: ScrapeOptions)
        ensures
            r.settle_ms == self.settle_ms,
            crate::scrape::opt_view(r.ready_selector) == crate::scrape::opt_view(self.ready_selector),
            r.navigation_timeout_secs == self.timeout_secs,
            r.chrome_path is None,
            r.no_sandbox,
            r.capture_screenshot == self.capture_screenshot,
    {
        ScrapeOptions {
            settle_ms: self.settle_ms,
            ready_selector: match &self.ready_selector {
                Some(s) => Some(s.clone()),
                None => None,
            },
            navigation_timeout_secs: self.timeout_secs,
            chrome_path: None,
            no_sandbox: true,
            capture_screenshot: self.capture_screenshot,
        }
    }
}

/// Why a Polymarket browser scrape failed.
#[derive(Debug, Clone)]
pub enum BrowserError {
    Scrape(BrowserScrapeError),
}

impl BrowserError {
    /// A scrape error as a browser error.
    pub fn from(e: BrowserScrapeError) -> (r: BrowserError)
        ensures
            r == BrowserError::Scrape(e),
    {
        BrowserError::Scrape(e)
    }
}

/// A captured screenshot is kept only when it is a valid PNG.
pub fn valid_screenshot(png: Option<Vec<u8>>) -> (r: Option<Vec<u8>>)
    ensures
        opt_bytes(r) == (match png {
            Some(b) => if b@.len() > 1024 && b@.take(8) == crate::scrape::png_signature() {
                Some(b@)
            } else {
                None
            },
            None => None,
        }),
{
    match png {
        Some(b) => {
            if is_valid_png(b.as_slice()) {
                Some(b)
            } else {
                None
            }
        },
        None => None,
    }
}

/// `market_url_from_slug`: a full URL is kept; `event/…` or `market/…` is put
/// under the Polymarket site; anything else is taken as an event slug.
pub open spec fn slug_url(slug: Seq<char>) -> Seq<char> {
    let s = strip_leading_slashes(trim(slug));
    if has_prefix(s, "http://"@) || has_prefix(s, "https://"@) {
        s
    } else if has_prefix(s, "event/"@) || has_prefix(s, "market/"@) {
        POLYMARKET_WEB@ + "/"@ + s
    } else {
        POLYMARKET_WEB@ + "/event/"@ + s
    }
}

/// `str::trim_start_matches('/')`.
pub open spec fn strip_leading_slashes(s: Seq<char>) -> Seq<char>
    decreases s.len(),
{
    if s.len() > 0 && s[0] == '/' {
        strip_leading_slashes(s.drop_first())
    } else {
        s
    }
}

/// Build a Polymarket event/market URL from a slug when possible.
pub fn market_url_from_slug(slug: &str) -> (r: String)
    ensures
        r@ == slug_url(slug@),
{
    let t = trim_chars(&chars_of(slug));
    let mut k: usize = 0;
    assert(t@.skip(0) =~= t@);
    while k < t.len() && t[k] == '/'
        invariant
            k <= t@.len(),
            strip_leading_slashes(t@) == strip_leading_slashes(t@.skip(k as int)),
        decreases t.len() - k,
    {
        assert(t@.skip(k as int).drop_first() =~= t@.skip(k + 1));
        k = k + 1;
    }
    let s = crate::text::copy_range(&t, k, t.len());
    assert(s@ =~= t@.skip(k as int));
    assert(strip_leading_slashes(s@) == s@);
    proof {
        reveal_strlit("https://polymarket.com/");
        reveal_strlit("https://polymarket.com");
        reveal_strlit("/");
        reveal_strlit("https://polymarket.com/event/");
        reveal_strlit("/event/");
    }
    if crate::text::starts_with(&s, &chars_of("http://")) || crate::text::starts_with(
        &s,
        &chars_of("https://"),
    ) {
        return string_of(&s);
    }
    if crate::text::starts_with(&s, &chars_of("event/")) || crate::text::starts_with(
        &s,
        &chars_of("market/"),
    ) {
        return string_of(&concat(&chars_of("https://polymarket.com/"), &s));
    }
    string_of(&concat(&chars_of("https://polymarket.com/event/"), &s))
}


/// Whether every character is an ASCII digit.
pub open spec fn all_digits(s: Seq<char>) -> bool {
    forall|i: int| 0 <= i < s.len() ==> '0' <= #[trigger] s[i] <= '9'
}

/// Whether every character is an ASCII digit.
fn only_digits(s: &[char]) -> (r: bool)
    ensures
        r == all_digits(s@),
{
    let mut i: usize = 0;
    while i < s.len()
        invariant
            i <= s@.len(),
            forall|k: int| 0 <= k < i ==> '0' <= #[trigger] s@[k] <= '9',
        decreases s.len() - i,
    {
        if !('0' <= s[i] && s[i] <= '9') {
            return false;
        }
        i = i + 1;
    }
    true
}

/// The Gamma URL for one market: by numeric id, or by (encoded) slug.
pub open spec fn market_request(gamma: Seq<char>, id_or_slug: Seq<char>) -> Result<Seq<char>, Seq<char>> {
    let t = trim(id_or_slug);
    if t.len() == 0 {
        Err("id_or_slug is required"@)
    } else if all_digits(t) {
        Ok(gamma + "/markets/"@ + t)
    } else {
        Ok(gamma + "/markets/slug/"@ + percent_encode(encode_utf8_of(t)))
    }
}

/// The UTF-8 bytes of a text.
pub open spec fn encode_utf8_of(s: Seq<char>) -> Seq<u8> {
    vstd::utf8::encode_utf8(s)
}

/// The Gamma URL that `get_market` fetches, or why there is none.
pub fn market_request_url(gamma: &str, id_or_slug: &str) -> (r: Result<String, String>)
    ensures
        match r {
            Ok(u) => market_request(gamma@, id_or_slug@) == Ok::<Seq<char>, Seq<char>>(u@),
            Err(e) => market_request(gamma@, id_or_slug@) == Err::<Seq<char>, Seq<char>>(e@),
        },
{
    let t = trim_str(id_or_slug);
    let tc = chars_of(t.as_str());
    if tc.len() == 0 {
        return Err("id_or_slug is required".to_owned());
    }
    let mut url: Vec<char> = Vec::new();
    append(&mut url, gamma);
    if only_digits(&tc) {
        append(&mut url, "/markets/");
        append(&mut url, t.as_str());
    } else {
        append(&mut url, "/markets/slug/");
        append(&mut url, urlencoding_simple(t.as_str()).as_str());
    }
    Ok(string_of(&url))
}

/// The search page size: the requested size clamped to 1..=20.
pub open spec fn clamped_search_limit(limit: u32) -> nat {
    if limit < 1 {
        1
    } else if limit > 20 {
        20
    } else {
        limit as nat
    }
}

/// The Gamma public-search URL, or why there is none.
pub open spec fn search_request(gamma: Seq<char>, query: Seq<char>, limit_per_type: u32) -> Result<
    Seq<char>,
    Seq<char>,
> {
    let q = trim(query);
    if q.len() == 0 {
        Err("query is required"@)
    } else {
        Ok(gamma + "/public-search?q="@ + percent_encode(encode_utf8_of(q)) + "&limit_per_type="@
            + decimal(clamped_search_limit(limit_per_type)))
    }
}

/// The Gamma public-search URL that `search` fetches, or why there is none.
pub fn search_request_url(gamma: &str, query: &str, limit_per_type: u32) -> (r: Result<String, String>)
    ensures
        match r {
            Ok(u) => search_request(gamma@, query@, limit_per_type) == Ok::<Seq<char>, Seq<char>>(u@),
            Err(e) => search_request(gamma@, query@, limit_per_type) == Err::<Seq<char>, Seq<char>>(
                e@,
            ),
        },
{
    let q = trim_str(query);
    if q.as_str().is_empty() {
        return Err("query is required".to_owned());
    }
    let limit: u32 = if limit_per_type < 1 {
        1
    } else if limit_per_type > 20 {
        20
    } else {
        limit_per_type
    };
    let mut url: Vec<char> = Vec::new();
    append(&mut url, gamma);
    append(&mut url, "/public-search?q=");
    append(&mut url, urlencoding_simple(q.as_str()).as_str());
    append(&mut url, "&limit_per_type=");
    append(&mut url, usize_to_string(limit as usize).as_str());
    Ok(string_of(&url))
}

/// A URL `{base}{path}{encoded token}` for a required token id, or why there is none.
pub open spec fn token_request(base: Seq<char>, path: Seq<char>, token_id: Seq<char>) -> Result<
    Seq<char>,
    Seq<char>,
> {
    let t = trim(token_id);
    if t.len() == 0 {
        Err("token_id is required"@)
    } else {
        Ok(base + path + percent_encode(encode_utf8_of(t)))
    }
}

/// `{base}{path}{encoded token}` for a required token id.
fn token_request_url(base: &str, path: &str, token_id: &str) -> (r: Result<String, String>)
    ensures
        match r {
            Ok(u) => token_request(base@, path@, token_id@) == Ok::<Seq<char>, Seq<char>>(u@),
            Err(e) => token_request(base@, path@, token_id@) == Err::<Seq<char>, Seq<char>>(e@),
        },
{
    let t = trim_str(token_id);
    if t.as_str().is_empty() {
        return Err("token_id is required".to_owned());
    }
    let mut url: Vec<char> = Vec::new();
    append(&mut url, base);
    append(&mut url, path);
    append(&mut url, urlencoding_simple(t.as_str()).as_str());
    Ok(string_of(&url))
}

/// The CLOB URL that `get_order_book` fetches, or why there is none.
pub fn book_request_url(clob: &str, token_id: &str) -> (r: Result<String, String>)
    ensures
        match r {
            Ok(u) => token_request(clob@, "/book?token_id="@, token_id@) == Ok::<
                Seq<char>,
                Seq<char>,
            >(u@),
            Err(e) => token_request(clob@, "/book?token_id="@, token_id@) == Err::<
                Seq<char>,
                Seq<char>,
            >(e@),
        },
{
    token_request_url(clob, "/book?token_id=", token_id)
}

/// The CLOB URL that `get_midpoint` fetches, or why there is none.
pub fn midpoint_request_url(clob: &str, token_id: &str) -> (r: Result<String, String>)
    ensures
        match r {
            Ok(u) => token_request(clob@, "/midpoint?token_id="@, token_id@) == Ok::<
                Seq<char>,
                Seq<char>,
            >(u@),
            Err(e) => token_request(clob@, "/midpoint?token_id="@, token_id@) == Err::<
                Seq<char>,
                Seq<char>,
            >(e@),
        },
{
    token_request_url(clob, "/midpoint?token_id=", token_id)
}

/// The CLOB price URL for a token and side, or why there is none: the side is
/// trimmed and lower-cased and must then be `buy` or `sell`.
pub open spec fn price_request(clob: Seq<char>, token_id: Seq<char>, side: Seq<char>) -> Result<
    Seq<char>,
    Seq<char>,
> {
    let t = trim(token_id);
    let s = crate::text::unicode_lower(trim(side));
    if t.len() == 0 {
        Err("token_id is required"@)
    } else if s != "buy"@ && s != "sell"@ {
        Err("side must be 'buy' or 'sell'"@)
    } else {
        Ok(clob + "/price?token_id="@ + percent_encode(encode_utf8_of(t)) + "&side="@ + s)
    }
}

/// The CLOB URL that `get_price` fetches, or why there is none.
pub fn price_request_url(clob: &str, token_id: &str, side: &str) -> (r: Result<String, String>)
    ensures
        match r {
            Ok(u) => price_request(clob@, token_id@, side@) == Ok::<Seq<char>, Seq<char>>(u@),
            Err(e) => price_request(clob@, token_id@, side@) == Err::<Seq<char>, Seq<char>>(e@),
        },
{
    let t = trim_str(token_id);
    let s = crate::text::to_lowercase(trim_str(side).as_str());
    if t.as_str().is_empty() {
        return Err("token_id is required".to_owned());
    }
    let sc = chars_of(s.as_str());
    if !chars_eq(&sc, &chars_of("buy")) && !chars_eq(&sc, &chars_of("sell")) {
        return Err("side must be 'buy' or 'sell'".to_owned());
    }
    let mut url: Vec<char> = Vec::new();
    append(&mut url, clob);
    append(&mut url, "/price?token_id=");
    append(&mut url, urlencoding_simple(t.as_str()).as_str());
    append(&mut url, "&side=");
    append(&mut url, s.as_str());
    Ok(string_of(&url))
}

/// The Data API URL for a wallet's positions, or why there is none.
pub open spec fn positions_request(data: Seq<char>, user: Seq<char>) -> Result<Seq<char>, Seq<char>> {
    let u = trim(user);
    if u.len() == 0 {
        Err("user wallet address is required"@)
    } else {
        Ok(data + "/positions?user="@ + percent_encode(encode_utf8_of(u)))
    }
}

/// The Data API URL that `get_positions` fetches, or why there is none.
pub fn positions_request_url(data: &str, user: &str) -> (r: Result<String, String>)
    ensures
        match r {
            Ok(u) => positions_request(data@, user@) == Ok::<Seq<char>, Seq<char>>(u@),
            Err(e) => positions_request(data@, user@) == Err::<Seq<char>, Seq<char>>(e@),
        },
{
    let u = trim_str(user);
    if u.as_str().is_empty() {
        return Err("user wallet address is required".to_owned());
    }
    let mut url: Vec<char> = Vec::new();
    append(&mut url, data);
    append(&mut url, "/positions?user=");
    append(&mut url, urlencoding_simple(u.as_str()).as_str());
    Ok(string_of(&url))
}

/// Parameters for `list_markets`.
#[derive(Debug, Clone)]
pub struct ListMarketsParams {
    /// Max markets to return (1–100, default 20).
    pub limit: Option<u32>,
    /// Offset for pagination (default 0).
    pub offset: Option<u32>,
    /// Only active markets (default true).
    pub active: Option<bool>,
    /// Include closed markets (default false).
    pub closed: Option<bool>,
    /// Sort field, e.g. volume24hr, liquidity, endDate.
    pub order: Option<String>,
    /// Sort ascending (default false = descending).
    pub ascending: Option<bool>,
    /// Optional Gamma tag id filter.
    pub tag_id: Option<String>,
}

/// Parameters for `list_events`.
#[derive(Debug, Clone)]
pub struct ListEventsParams {
    pub limit: Option<u32>,
    pub offset: Option<u32>,
    pub active: Option<bool>,
    pub closed: Option<bool>,
    pub order: Option<String>,
    pub ascending: Option<bool>,
}

/// Parameters for `get_market`.
#[derive(Debug, Clone)]
pub struct GetMarketParams {
    /// Market id (numeric) or slug.
    pub id_or_slug: String,
}

/// Parameters for `search`.
#[derive(Debug, Clone)]
pub struct SearchParams {
    pub query: String,
    /// Results per type (default 5, max 20).
    pub limit_per_type: Option<u32>,
}

/// Parameters for `get_order_book`.
#[derive(Debug, Clone)]
pub struct GetOrderBookParams {
    /// CLOB outcome token id.
    pub token_id: String,
    /// Max levels per side to return.
    pub depth: Option<u32>,
}

/// Parameters for `get_price`.
#[derive(Debug, Clone)]
pub struct GetPriceParams {
    pub token_id: String,
    /// buy or sell (default buy).
    pub side: Option<String>,
    /// Also fetch the midpoint (default true).
    pub include_midpoint: Option<bool>,
}

/// Parameters for `get_positions`.
#[derive(Debug, Clone)]
pub struct GetPositionsParams {
    /// Wallet address (0x…).
    pub user: String,
}

/// Parameters for `browser_scrape_markets`.
#[derive(Debug, Clone)]
pub struct BrowserScrapeMarketsParams {
    /// URL to open (default the Polymarket site).
    pub url: Option<String>,
    /// Or a market/event slug; ignored if `url` is set.
    pub slug: Option<String>,
    /// Extra wait after page ready for SPA render (ms, default 3000).
    pub settle_ms: Option<u64>,
    /// Navigation timeout seconds (default 45).
    pub timeout_secs: Option<u64>,
    /// Optional CSS selector that must appear before extraction.
    pub ready_selector: Option<String>,
    /// Capture a viewport PNG (default false).
    pub capture_screenshot: bool,
}

/// Parameters for `prepare_analysis_context`.
#[derive(Debug, Clone)]
pub struct PrepareAnalysisParams {
    /// Market id or slug (API path).
    pub id_or_slug: String,
    /// Include order books for YES/NO tokens when available (default true).
    pub include_books: Option<bool>,
    /// Book depth per side (default 5).
    pub book_depth: Option<u32>,
}

/// An optional string as an optional text.
pub open spec fn opt_str(o: Option<String>) -> Option<Seq<char>> {
    crate::scrape::opt_view(o)
}

/// An optional borrowed text as an optional text.
pub open spec fn opt_ref(o: Option<&str>) -> Option<Seq<char>> {
    match o {
        Some(s) => Some(s@),
        None => None,
    }
}

/// A string as a borrowed text.
fn as_ref_str<'a>(o: &'a Option<String>) -> (r: Option<&'a str>)
    ensures
        opt_ref(r) == opt_str(*o),
{
    match o {
        Some(s) => Some(s.as_str()),
        None => None,
    }
}

impl ListMarketsParams {
    /// The Gamma query `list_markets` sends: 20 markets from offset 0, active
    /// and not closed unless asked otherwise.
    pub fn query<'a>(&'a self) -> (r: ListQuery<'a>)
        ensures
            r.limit == (match self.limit {
                Some(l) => l,
                None => 20,
            }),
            r.offset == (match self.offset {
                Some(o) => o,
                None => 0,
            }),
            r.active == Some(
                match self.active {
                    Some(a) => a,
                    None => true,
                },
            ),
            r.closed == Some(
                match self.closed {
                    Some(c) => c,
                    None => false,
                },
            ),
            opt_ref(r.order) == opt_str(self.order),
            r.ascending == self.ascending,
            opt_ref(r.tag_id) == opt_str(self.tag_id),
    {
        ListQuery {
            limit: match self.limit {
                Some(l) => l,
                None => 20,
            },
            offset: match self.offset {
                Some(o) => o,
                None => 0,
            },
            active: Some(
                match self.active {
                    Some(a) => a,
                    None => true,
                },
            ),
            closed: Some(
                match self.closed {
                    Some(c) => c,
                    None => false,
                },
            ),
            order: as_ref_str(&self.order),
            ascending: self.ascending,
            tag_id: as_ref_str(&self.tag_id),
        }
    }
}

impl ListEventsParams {
    /// The Gamma query `list_events` sends: as for markets, with no tag filter.
    pub fn query<'a>(&'a self) -> (r: ListQuery<'a>)
        ensures
            r.limit == (match self.limit {
                Some(l) => l,
                None => 20,
            }),
            r.offset == (match self.offset {
                Some(o) => o,
                None => 0,
            }),
            r.active == Some(
                match self.active {
                    Some(a) => a,
                    None => true,
                },
            ),
            r.closed == Some(
                match self.closed {
                    Some(c) => c,
                    None => false,
                },
            ),
            opt_ref(r.order) == opt_str(self.order),
            r.ascending == self.ascending,
            r.tag_id is None,
    {
        ListQuery {
            limit: match self.limit {
                Some(l) => l,
                None => 20,
            },
            offset: match self.offset {
                Some(o) => o,
                None => 0,
            },
            active: Some(
                match self.active {
                    Some(a) => a,
                    None => true,
                },
            ),
            closed: Some(
                match self.closed {
                    Some(c) => c,
                    None => false,
                },
            ),
            order: as_ref_str(&self.order),
            ascending: self.ascending,
            tag_id: None,
        }
    }
}

/// A non-blank optional text.
pub open spec fn non_blank(o: Option<String>) -> Option<Seq<char>> {
    match o {
        Some(s) => if trim(s@).len() > 0 {
            Some(s@)
        } else {
            None
        },
        None => None,
    }
}

/// The page `browser_scrape_markets` opens: the URL when given and not blank,
/// else the slug's URL when given and not blank, else the Polymarket site.
pub open spec fn scrape_target(url: Option<String>, slug: Option<String>) -> Seq<char> {
    match non_blank(url) {
        Some(u) => u,
        None => match non_blank(slug) {
            Some(s) => slug_url(s),
            None => POLYMARKET_WEB@,
        },
    }
}

impl BrowserScrapeMarketsParams {
    /// The scrape that `browser_scrape_markets` runs for these parameters.
    pub fn request(&self) -> (r: BrowserScrapeRequest)
        ensures
            r.url@ == scrape_target(self.url, self.slug),
            r.settle_ms == (match self.settle_ms {
                Some(v) => v,
                None => 3000,
            }),
            r.timeout_secs == (match self.timeout_secs {
                Some(v) => v,
                None => 45,
            }),
            opt_str(r.ready_selector) == opt_str(self.ready_selector),
            r.capture_screenshot == self.capture_screenshot,
    {
        let given_url = match &self.url {
            Some(u) => if trim_str(u.as_str()).as_str().is_empty() {
                None
            } else {
                Some(u.clone())
            },
            None => None,
        };
        let url = match given_url {
            Some(u) => u,
            None => match &self.slug {
                Some(s) => if trim_str(s.as_str()).as_str().is_empty() {
                    POLYMARKET_WEB.to_owned()
                } else {
                    market_url_from_slug(s.as_str())
                },
                None => POLYMARKET_WEB.to_owned(),
            },
        };
        BrowserScrapeRequest {
            url,
            settle_ms: match self.settle_ms {
                Some(v) => v,
                None => 3000,
            },
            timeout_secs: match self.timeout_secs {
                Some(v) => v,
                None => 45,
            },
            ready_selector: match &self.ready_selector {
                Some(s) => Some(s.clone()),
                None => None,
            },
            capture_screenshot: self.capture_screenshot,
        }
    }
}

/// An order intent is refused exactly when some risk check failed.
pub proof fn law_risk_verdict(checks: Seq<RiskCheckResult>)
    ensures
        risk_verdict(checks) is None <==> forall|i: int| 0 <= i < checks.len() ==> #[trigger] checks[i].passed,
    decreases checks.len(),
{
    if checks.len() > 0 {
        law_risk_verdict(checks.drop_last());
        let rest = failed_parts(checks.drop_last());
        if checks.last().passed {
            assert forall|i: int| 0 <= i < checks.len() - 1 implies #[trigger] checks[i].passed
                == checks.drop_last()[i].passed by {}
            if forall|i: int| 0 <= i < checks.drop_last().len() ==> #[trigger] checks.drop_last()[i].passed {
                assert forall|i: int| 0 <= i < checks.len() implies #[trigger] checks[i].passed by {
                    if i < checks.len() - 1 {
                        assert(checks[i] == checks.drop_last()[i]);
                    }
                }
            } else {
                let j = choose|j: int| 0 <= j < checks.drop_last().len() && !#[trigger] checks.drop_last()[j].passed;
                assert(!checks[j].passed);
            }
        } else {
            assert(!checks[checks.len() - 1].passed);
        }
    }
}

/// A live order is submitted only when `dry_run` is explicitly false, live
/// submission is confirmed, live orders are enabled and the order is signed.
pub proof fn law_live_order_safety(dry_run: Option<bool>, confirm_live: bool, live_enabled: bool, has_signed_order: bool)
    ensures
        order_mode(dry_run, confirm_live, live_enabled, has_signed_order) == Ok::<OrderMode, Seq<char>>(
            OrderMode::Live,
        ) <==> (dry_run == Some(false) && confirm_live && live_enabled && has_signed_order),
        dry_run != Some(false) ==> order_mode(dry_run, confirm_live, live_enabled, has_signed_order)
            == Ok::<OrderMode, Seq<char>>(OrderMode::Paper),
{
}

/// A text whose first and last characters are not whitespace is its own trim.
proof fn lemma_trim_fixed(s: Seq<char>)
    requires
        s.len() > 0,
        !crate::text::is_ws(s[0]),
        !crate::text::is_ws(s.last()),
    ensures
        trim(s) == s,
{
}

/// A URL built from a slug is its own URL: `market_url_from_slug` is idempotent.
pub proof fn law_slug_url_idempotent(slug: Seq<char>)
    ensures
        slug_url(slug_url(slug)) == slug_url(slug),
{
    reveal_strlit("https://polymarket.com");
    reveal_strlit("/");
    reveal_strlit("/event/");
    reveal_strlit("http://");
    reveal_strlit("https://");
    reveal_strlit("event/");
    reveal_strlit("market/");
    let u = slug_url(slug);
    let t = trim(slug);
    let s = strip_leading_slashes(t);
    lemma_strip_suffix(t);
    assert(u.len() > 0 && u[0] == 'h') by {
        if has_prefix(s, "http://"@) {
            assert(s.subrange(0, 7)[0] == 'h');
        } else if has_prefix(s, "https://"@) {
            assert(s.subrange(0, 8)[0] == 'h');
        }
    }
    assert(!crate::text::is_ws(u.last())) by {
        if has_prefix(s, "http://"@) || has_prefix(s, "https://"@) {
            crate::text::lemma_trim_last(slug);
        } else if has_prefix(s, "event/"@) || has_prefix(s, "market/"@) {
            crate::text::lemma_trim_last(slug);
            assert(u.last() == s.last());
        } else if s.len() > 0 {
            crate::text::lemma_trim_last(slug);
            assert(u.last() == s.last());
        } else {
            assert(u.last() == '/');
        }
    }
    lemma_trim_fixed(u);
    assert(strip_leading_slashes(u) == u);
    assert(has_prefix(u, "http://"@) || has_prefix(u, "https://"@)) by {
        if has_prefix(s, "http://"@) || has_prefix(s, "https://"@) {
        } else {
            assert(u.subrange(0, 8) =~= "https://"@);
        }
    }
}

/// Stripping leading slashes leaves a suffix, which ends as the text did.
proof fn lemma_strip_suffix(t: Seq<char>)
    ensures
        strip_leading_slashes(t).len() <= t.len(),
        strip_leading_slashes(t).len() > 0 ==> strip_leading_slashes(t).last() == t.last(),
        strip_leading_slashes(t).len() > 0 ==> strip_leading_slashes(t)[0] != '/',
    decreases t.len(),
{
    if t.len() > 0 && t[0] == '/' {
        lemma_strip_suffix(t.drop_first());
    }
}
/// The character of a six-bit value in the standard base64 alphabet:
/// `A`-`Z`, `a`-`z`, `0`-`9`, `+`, `/`.
pub open spec fn base64_char(n: int) -> char {
    if n < 26 {
        ('A' as int + n) as char
    } else if n < 52 {
        ('a' as int + (n - 26)) as char
    } else if n < 62 {
        ('0' as int + (n - 52)) as char
    } else if n == 62 {
        '+'
    } else {
        '/'
    }
}

/// The standard base64 encoding of bytes (RFC 4648): each group of three
/// bytes as four characters of six bits each, high bits first; a last group
/// of one or two bytes padded with zero bits and `=` to four characters.
pub open spec fn base64_standard(b: Seq<u8>) -> Seq<char>
    decreases b.len(),
{
    if b.len() == 0 {
        seq![]
    } else {
        let x = b[0] as int;
        let y = if b.len() > 1 { b[1] as int } else { 0 };
        let z = if b.len() > 2 { b[2] as int } else { 0 };
        let c0 = base64_char(x / 4);
        let c1 = base64_char((x % 4) * 16 + y / 16);
        let c2 = base64_char((y % 16) * 4 + z / 64);
        let c3 = base64_char(z % 64);
        if b.len() == 1 {
            seq![c0, c1, '=', '=']
        } else if b.len() == 2 {
            seq![c0, c1, c2, '=']
        } else {
            seq![c0, c1, c2, c3] + base64_standard(b.skip(3))
        }
    }
}

/// Four characters for every three bytes begun.
pub proof fn lemma_base64_len(b: Seq<u8>)
    ensures
        base64_standard(b).len() == 4 * ((b.len() + 2) / 3),
    decreases b.len(),
{
    if b.len() >= 3 {
        lemma_base64_len(b.skip(3));
    }
}

/// `BASE64_STANDARD.encode` (base64 crate): the standard alphabet with `=`
/// padding. It panics only when the encoded length overflows, which
/// `requires` rules out.
#[verifier::external_body]
fn base64_encode(bytes: &[u8]) -> (r: String)
    requires
        bytes@.len() <= isize::MAX,
    ensures
        r@ == base64_standard(bytes@),
{
    base64::prelude::BASE64_STANDARD.encode(bytes)
}

/// The image data `browser_scrape_markets` attaches for a screenshot: the
/// PNG in standard base64.
pub fn screenshot_image_data(png: &Option<Vec<u8>>) -> (r: Option<String>)
    requires
        png matches Some(b) ==> b@.len() <= isize::MAX,
    ensures
        match png {
            Some(b) => r matches Some(d) && d@ == base64_standard(b@) && d@.len() == 4 * ((b@.len() + 2) / 3),
            None => r is None,
        },
{
    match png {
        Some(b) => {
            proof {
                lemma_base64_len(b@);
            }
            Some(base64_encode(b.as_slice()))
        },
        None => None,
    }
}

/// The hints `prepare_analysis_context` gives for scoring a market.
pub open spec fn analysis_hints() -> Seq<Seq<char>> {
    seq![
        "Estimate fair_prob for YES in [0,1] with calibrated confidence."@,
        "Compare fair_prob to best ask (buy) or best bid (sell); require edge > fees/spread."@,
        "Read resolution criteria carefully; flag ambiguous markets as skip."@,
        "Do not invent token_ids — use clob_token_ids from this context."@,
        "Return structured JSON: {fair_prob_yes, confidence, action, rationale, risks}."@,
    ]
}

/// The hints `prepare_analysis_context` gives for scoring a market.
pub fn analysis_prompt_hints() -> (r: Vec<String>)
    ensures
        crate::text::string_views(r@) == analysis_hints(),
{
    let r = vec![
        "Estimate fair_prob for YES in [0,1] with calibrated confidence.".to_owned(),
        "Compare fair_prob to best ask (buy) or best bid (sell); require edge > fees/spread.".to_owned(),
        "Read resolution criteria carefully; flag ambiguous markets as skip.".to_owned(),
        "Do not invent token_ids — use clob_token_ids from this context.".to_owned(),
        "Return structured JSON: {fair_prob_yes, confidence, action, rationale, risks}.".to_owned(),
    ];
    assert(crate::text::string_views(r@) =~= analysis_hints());
    r
}

/// The YES and NO tokens whose books `prepare_analysis_context` fetches: the
/// first and second token ids, when books are asked for.
pub fn analysis_book_tokens(clob_token_ids: &Vec<String>, include_books: bool) -> (r: (Option<String>, Option<String>))
    ensures
        opt_str(r.0) == (if include_books && clob_token_ids@.len() > 0 {
            Some(clob_token_ids@[0]@)
        } else {
            None
        }),
        opt_str(r.1) == (if include_books && clob_token_ids@.len() > 1 {
            Some(clob_token_ids@[1]@)
        } else {
            None
        }),
{
    if !include_books {
        return (None, None);
    }
    let yes = if clob_token_ids.len() > 0 {
        Some(clob_token_ids[0].clone())
    } else {
        None
    };
    let no = if clob_token_ids.len() > 1 {
        Some(clob_token_ids[1].clone())
    } else {
        None
    };
    (yes, no)
}


/// The search URL asks for the requested page size when it lies in 1..=20,
/// for 1 below that and for 20 above: the size is `clamp(limit, 1, 20)`, and
/// the rest of the URL does not depend on it.
pub proof fn law_search_limit_clamped(gamma: Seq<char>, query: Seq<char>, limit: u32)
    ensures
        search_request(gamma, query, limit) is Ok <==> trim(query).len() > 0,
        trim(query).len() > 0 ==> search_request(gamma, query, limit) == Ok::<Seq<char>, Seq<char>>(
            gamma + "/public-search?q="@ + percent_encode(encode_utf8_of(trim(query))) + "&limit_per_type="@
                + decimal(
                if limit < 1 {
                    1nat
                } else if limit > 20 {
                    20nat
                } else {
                    limit as nat
                },
            ),
        ),
        1 <= limit <= 20 ==> clamped_search_limit(limit) == limit,
        limit > 20 ==> clamped_search_limit(limit) == 20,
        limit == 0 ==> clamped_search_limit(limit) == 1,
{
}

} // verus!
