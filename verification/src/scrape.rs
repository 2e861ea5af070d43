//! Browser check-and-scrape: the pure part. Page content captured from a
//! controlled browser (or a fixture) is turned into market-like entries.

use vstd::prelude::*;
use crate::json::TextFacts;
use crate::market_json::{
    blobs_markets, embedded_markets, markets_from_html_embedded_json, markets_from_json_blobs,
};
use crate::market_text::{html_title_markets, markets_from_html_titles, markets_from_text, text_markets};
use crate::text::{
    ascii_lower, chars_of, contains, contains_chars, copy_range, join, join_chars, split_words, string_of, string_views, to_ascii_lower, utf8_len_below, to_lowercase, unicode_lower, utf8_len, words,
};

verus! {

/// Options controlling navigation and wait-for-ready behaviour.
#[derive(Debug, Clone)]
pub struct ScrapeOptions {
    /// Extra settle time after load / ready selector (milliseconds).
    pub settle_ms: u64,
    /// Optional CSS selector that must appear before extraction.
    pub ready_selector: Option<String>,
    /// Max time to wait for navigation and ready conditions, in seconds.
    pub navigation_timeout_secs: u64,
    /// Override Chrome/Chromium executable path.
    pub chrome_path: Option<String>,
    /// Run with `--no-sandbox` (often required in CI/containers).
    pub no_sandbox: bool,
    /// When true, capture a viewport PNG after the page is ready (default false).
    pub capture_screenshot: bool,
}

impl ScrapeOptions {
    /// The defaults: 2.5 s settle time, no ready selector, 90 s timeout,
    /// Chrome found on the system, no sandbox, no screenshot.
    pub fn default() -> (r: ScrapeOptions)
        ensures
            r.settle_ms == 2500,
            r.ready_selector is None,
            r.navigation_timeout_secs == 90,
            r.chrome_path is None,
            r.no_sandbox,
            !r.capture_screenshot,
    {
        ScrapeOptions {
            settle_ms: 2500,
            ready_selector: None,
            navigation_timeout_secs: 90,
            chrome_path: None,
            no_sandbox: true,
            capture_screenshot: false,
        }
    }
}

/// Why a browser scrape failed.
#[derive(Debug, Clone, PartialEq, Eq)]
pub enum BrowserScrapeError {
    /// No Chrome/Chromium executable.
    ChromeNotFound(String),
    /// The browser did not launch.
    Launch(String),
    /// Navigation to `url` failed.
    Navigation { url: String, message: String },
    /// The page never became ready.
    ReadyTimeout(String),
    /// Page content could not be read.
    Extract(String),
    /// A browser protocol call failed.
    Protocol(String),
}

/// One prediction-market style entry scraped from a page.
#[derive(Debug, Clone, PartialEq)]
pub struct MarketEntry {
    /// Market question / title.
    pub title: String,
    /// Associated prices or odds (percentages, cents, or 0–1 decimals).
    pub prices: Vec<String>,
    /// Optional status string when present (active, closed, open, …).
    pub status: Option<String>,
    /// Optional outcome labels paired with prices when known.
    pub outcomes: Vec<String>,
}

/// Structured result of a check-and-scrape run.
#[derive(Debug, Clone, PartialEq)]
pub struct ScrapeResult {
    pub url: String,
    pub title: String,
    pub markets: Vec<MarketEntry>,
    /// Short plain-text excerpt for debugging when markets are sparse.
    pub text_excerpt: String,
    /// Viewport PNG when the scrape was asked to capture one.
    pub screenshot_png: Option<Vec<u8>>,
}

/// Raw content acquired from a controlled browser (or a fixture).
#[derive(Debug, Clone)]
pub struct PageContent {
    pub url: String,
    pub title: String,
    pub text: String,
    pub html: String,
    /// In-page JSON blobs (e.g. `__NEXT_DATA__`, application/json scripts).
    pub json_blobs: Vec<String>,
    /// Optional viewport PNG captured from the live Chrome session.
    pub screenshot_png: Option<Vec<u8>>,
}

/// A market entry as mathematical values.
pub struct MarketView {
    pub title: Seq<char>,
    pub prices: Seq<Seq<char>>,
    pub status: Option<Seq<char>>,
    pub outcomes: Seq<Seq<char>>,
}

/// View of an optional string.
pub open spec fn opt_view(o: Option<String>) -> Option<Seq<char>> {
    match o {
        Some(s) => Some(s@),
        None => None,
    }
}

impl View for MarketEntry {
    type V = MarketView;

    open spec fn view(&self) -> MarketView {
        MarketView {
            title: self.title@,
            prices: string_views(self.prices@),
            status: opt_view(self.status),
            outcomes: string_views(self.outcomes@),
        }
    }
}

/// Views of market entries.
pub open spec fn market_views(ms: Seq<MarketEntry>) -> Seq<MarketView> {
    ms.map_values(|m: MarketEntry| m@)
}

/// PNG file signature (ISO/IEC 15948).
pub const PNG_SIGNATURE: [u8; 8] = [0x89, 0x50, 0x4E, 0x47, 0x0D, 0x0A, 0x1A, 0x0A];

/// The PNG signature as a sequence.
pub open spec fn png_signature() -> Seq<u8> {
    seq![0x89u8, 0x50u8, 0x4Eu8, 0x47u8, 0x0Du8, 0x0Au8, 0x1Au8, 0x0Au8]
}

/// True when `bytes` look like a non-empty PNG (signature + non-trivial size).
pub fn is_valid_png(bytes: &[u8]) -> (r: bool)
    ensures
        r == (bytes@.len() > 1024 && bytes@.take(8) == png_signature()),
{
    if bytes.len() <= 1024 {
        return false;
    }
    let sig = PNG_SIGNATURE;
    let mut i: usize = 0;
    while i < 8
        invariant
            bytes@.len() > 1024,
            i <= 8,
            sig@ == png_signature(),
            forall|k: int| 0 <= k < i ==> bytes@[k] == png_signature()[k],
        decreases 8 - i,
    {
        if bytes[i] != sig[i] {
            assert(bytes@.take(8)[i as int] != png_signature()[i as int]);
            return false;
        }
        i = i + 1;
    }
    assert(bytes@.take(8) =~= png_signature());
    true
}

/// Whether the captured page is one of Chrome's own network error pages.
pub open spec fn spec_is_browser_error_page(title: Seq<char>, text: Seq<char>) -> bool {
    let t = ascii_lower(text);
    ||| (contains(t, "this page"@) && contains(t, "couldn"@) && contains(t, "load"@))
    ||| contains(t, "err_connection"@)
    ||| contains(t, "err_name_not_resolved"@)
    ||| contains(t, "err_timed_out"@)
    ||| (title.len() == 0 && contains(t, "reload"@) && contains(t, "back"@) && utf8_len(text) < 200)
}

/// Whether the captured page is one of Chrome's own network error pages.
pub fn is_browser_error_page(content: &PageContent) -> (r: bool)
    ensures
        r == spec_is_browser_error_page(content.title@, content.text@),
{
    let t = to_ascii_lower(&chars_of(content.text.as_str()));
    (contains_chars(&t, &chars_of("this page")) && contains_chars(&t, &chars_of("couldn"))
        && contains_chars(&t, &chars_of("load"))) || contains_chars(&t, &chars_of("err_connection"))
        || contains_chars(&t, &chars_of("err_name_not_resolved")) || contains_chars(
        &t,
        &chars_of("err_timed_out"),
    ) || (content.title.as_str().is_empty() && contains_chars(&t, &chars_of("reload"))
        && contains_chars(&t, &chars_of("back")) && utf8_len_below(&chars_of(content.text.as_str()), 200))
}

/// Whether a browser-protocol error message means the page's JS context was
/// torn down mid-navigation (worth retrying).
pub open spec fn spec_is_transient_context_error(message: Seq<char>) -> bool {
    let m = ascii_lower(message);
    ||| contains(m, "cannot find context"@)
    ||| contains(m, "execution context was destroyed"@)
    ||| contains(m, "inspected target navigated or closed"@)
    ||| contains(m, "session with given id not found"@)
    ||| contains(m, "target closed"@)
    ||| contains(m, "most likely the page has been closed"@)
}

/// Whether a browser-protocol error message means the page's JS context was
/// torn down mid-navigation (worth retrying).
pub fn is_transient_context_error(message: &str) -> (r: bool)
    ensures
        r == spec_is_transient_context_error(message@),
{
    let m = to_ascii_lower(&chars_of(message));
    contains_chars(&m, &chars_of("cannot find context")) || contains_chars(
        &m,
        &chars_of("execution context was destroyed"),
    ) || contains_chars(&m, &chars_of("inspected target navigated or closed")) || contains_chars(
        &m,
        &chars_of("session with given id not found"),
    ) || contains_chars(&m, &chars_of("target closed")) || contains_chars(
        &m,
        &chars_of("most likely the page has been closed"),
    )
}

/// Title normalised for comparison: whitespace runs collapsed to one space, lower-cased.
pub open spec fn normalize(title: Seq<char>) -> Seq<char> {
    unicode_lower(join(words(title), " "@))
}

/// Title normalised for comparison: whitespace runs collapsed to one space, lower-cased.
pub fn normalize_title(title: &str) -> (r: String)
    ensures
        r@ == normalize(title@),
{
    let ws = split_words(&chars_of(title));
    let joined = string_of(&join_chars(&ws, &chars_of(" ")));
    to_lowercase(joined.as_str())
}

/// Some market in `ms` has a title that normalises to `n`.
pub open spec fn has_normal_title(ms: Seq<MarketView>, n: Seq<char>) -> bool {
    exists|i: int| 0 <= i < ms.len() && normalize(ms[i].title) == n
}

/// `merge_markets`: each extra market, in order, is appended unless a market
/// already in the list (including one appended before it) has the same normalised title.
pub open spec fn merged(into: Seq<MarketView>, extra: Seq<MarketView>) -> Seq<MarketView>
    decreases extra.len(),
{
    if extra.len() == 0 {
        into
    } else {
        let m = extra[0];
        let next = if has_normal_title(into, normalize(m.title)) {
            into
        } else {
            into.push(m)
        };
        merged(next, extra.drop_first())
    }
}

/// `dedupe_markets`: the first market of each normalised title, in order.
pub open spec fn deduped(ms: Seq<MarketView>) -> Seq<MarketView> {
    merged(seq![], ms)
}

/// Whether `n` is one of the first `k` strings of `ns`.
fn in_prefix(ns: &Vec<String>, k: usize, n: &String) -> (r: bool)
    requires
        k <= ns@.len(),
    ensures
        r == exists|i: int| 0 <= i < k && ns@[i]@ == n@,
{
    let mut i: usize = 0;
    while i < k
        invariant
            k <= ns@.len(),
            i <= k,
            forall|j: int| 0 <= j < i ==> ns@[j]@ != n@,
        decreases k - i,
    {
        if ns[i] == *n {
            return true;
        }
        i = i + 1;
    }
    false
}

/// Normalised titles of a list of markets.
fn normal_titles(ms: &Vec<MarketEntry>) -> (r: Vec<String>)
    ensures
        r@.len() == ms@.len(),
        forall|i: int| 0 <= i < ms@.len() ==> r@[i]@ == normalize(ms@[i]@.title),
{
    let mut r: Vec<String> = Vec::new();
    let mut i: usize = 0;
    while i < ms.len()
        invariant
            i <= ms@.len(),
            r@.len() == i,
            forall|j: int| 0 <= j < i ==> r@[j]@ == normalize(ms@[j]@.title),
        decreases ms.len() - i,
    {
        r.push(normalize_title(ms[i].title.as_str()));
        i = i + 1;
    }
    r
}

/// Adds the markets of `extra` whose normalised titles are new, in order.
pub fn merge_markets(into: &mut Vec<MarketEntry>, extra: Vec<MarketEntry>)
    ensures
        market_views(final(into)@) == merged(market_views(old(into)@), market_views(extra@)),
{
    let mut norms = normal_titles(into);
    let ghost goal = merged(market_views(into@), market_views(extra@));
    let mut extra = extra;
    while extra.len() > 0
        invariant
            norms@.len() == into@.len(),
            forall|j: int| 0 <= j < into@.len() ==> norms@[j]@ == normalize(into@[j]@.title),
            merged(market_views(into@), market_views(extra@)) == goal,
        decreases extra@.len(),
    {
        let ghost ex = market_views(extra@);
        let m = extra.remove(0);
        let n = normalize_title(m.title.as_str());
        let ghost before = market_views(into@);
        let found = in_prefix(&norms, norms.len(), &n);
        proof {
            assert(ex.drop_first() =~= market_views(extra@));
            assert(ex[0] == m@);
            if found {
                let j = choose|j: int| 0 <= j < norms@.len() && norms@[j]@ == n@;
                assert(normalize(before[j].title) == normalize(m@.title));
            } else {
                assert forall|j: int| 0 <= j < before.len() implies normalize(before[j].title)
                    != normalize(m@.title) by {
                    assert(norms@[j]@ == normalize(into@[j]@.title));
                }
            }
        }
        if !found {
            into.push(m);
            norms.push(n);
            assert(market_views(into@) =~= before.push(m@));
        }
    }
    assert(market_views(extra@) =~= Seq::<MarketView>::empty());
}

/// Keeps the first market of each normalised title, in order.
pub fn dedupe_markets(markets: Vec<MarketEntry>) -> (r: Vec<MarketEntry>)
    ensures
        market_views(r@) == deduped(market_views(markets@)),
{
    let mut out: Vec<MarketEntry> = Vec::new();
    assert(market_views(out@) =~= Seq::<MarketView>::empty());
    merge_markets(&mut out, markets);
    out
}


/// The markets that `extract_markets` finds: those in the JSON blobs; failing
/// any, those in JSON script tags; then, while fewer than two, those read from
/// the visible text; then, while none, those read from market headings; the
/// first market of each normalised title kept.
pub open spec fn found_markets(
    fs: Seq<crate::json::TextFact>,
    text: Seq<char>,
    html: Seq<char>,
    blobs: Seq<Seq<char>>,
) -> Seq<MarketView> {
    let m1 = blobs_markets(fs, blobs);
    let m2 = if m1.len() == 0 {
        embedded_markets(fs, html)
    } else {
        m1
    };
    let m3 = if m2.len() < 2 {
        merged(m2, text_markets(text))
    } else {
        m2
    };
    let m4 = if m3.len() == 0 {
        merged(m3, html_title_markets(html))
    } else {
        m3
    };
    deduped(m4)
}

/// The first 500 characters of a text with whitespace runs collapsed to one space.
pub open spec fn excerpt(text: Seq<char>) -> Seq<char> {
    join(words(text.take(if text.len() < 500 { text.len() as int } else { 500 })), " "@)
}

/// Optional bytes as an optional sequence.
pub open spec fn opt_bytes(o: Option<Vec<u8>>) -> Option<Seq<u8>> {
    match o {
        Some(b) => Some(b@),
        None => None,
    }
}

/// A copy of optional bytes.
fn copy_bytes(o: &Option<Vec<u8>>) -> (r: Option<Vec<u8>>)
    ensures
        opt_bytes(r) == opt_bytes(*o),
{
    match o {
        Some(b) => {
            let c = b.clone();
            assert(c@ =~= b@);
            Some(c)
        },
        None => None,
    }
}

/// The first 500 characters of a text with whitespace runs collapsed to one space.
pub fn text_excerpt(text: &str) -> (r: String)
    ensures
        r@ == excerpt(text@),
{
    let cs = chars_of(text);
    let n = if cs.len() < 500 {
        cs.len()
    } else {
        500
    };
    let head = copy_range(&cs, 0, n);
    assert(head@ =~= text@.take(n as int));
    let ws = split_words(&head);
    string_of(&join_chars(&ws, &chars_of(" ")))
}

/// `extract_markets`: market-like entries from captured page content. Pure and
/// offline: it does not launch a browser. `facts` records which texts of the
/// page read as decimal numbers in the price range.
pub fn extract_markets(content: &PageContent, facts: &TextFacts) -> (r: ScrapeResult)
    ensures
        r.url@ == content.url@,
        r.title@ == content.title@,
        market_views(r.markets@) == found_markets(
            facts.facts@,
            content.text@,
            content.html@,
            string_views(content.json_blobs@),
        ),
        r.text_excerpt@ == excerpt(content.text@),
        opt_bytes(r.screenshot_png) == opt_bytes(content.screenshot_png),
{
    let mut markets = markets_from_json_blobs(&content.json_blobs, facts);
    if markets.len() == 0 {
        markets = markets_from_html_embedded_json(content.html.as_str(), facts);
    }
    if markets.len() < 2 {
        let from_text = markets_from_text(content.text.as_str());
        merge_markets(&mut markets, from_text);
    }
    if markets.len() == 0 {
        let from_html_titles = markets_from_html_titles(content.html.as_str());
        merge_markets(&mut markets, from_html_titles);
    }
    let markets = dedupe_markets(markets);
    ScrapeResult {
        url: content.url.clone(),
        title: content.title.clone(),
        markets,
        text_excerpt: text_excerpt(content.text.as_str()),
        screenshot_png: copy_bytes(&content.screenshot_png),
    }
}

/// No two markets share a normalised title.
pub open spec fn distinct_titles(ms: Seq<MarketView>) -> bool {
    forall|i: int, j: int| 0 <= i < j < ms.len() ==> normalize(ms[i].title) != normalize(ms[j].title)
}

/// Merging keeps the markets already there, in front, and adds only markets
/// of `extra`: every market of the result is one of `into` or one of `extra`.
pub proof fn law_merge_keeps_and_adds(into: Seq<MarketView>, extra: Seq<MarketView>)
    ensures
        merged(into, extra).len() >= into.len(),
        merged(into, extra).take(into.len() as int) == into,
        forall|k: int| 0 <= k < merged(into, extra).len() ==> #[trigger] into.contains(merged(into, extra)[k])
            || extra.contains(merged(into, extra)[k]),
    decreases extra.len(),
{
    if extra.len() > 0 {
        let m = extra[0];
        let next = if has_normal_title(into, normalize(m.title)) {
            into
        } else {
            into.push(m)
        };
        law_merge_keeps_and_adds(next, extra.drop_first());
        let r = merged(into, extra);
        assert(r == merged(next, extra.drop_first()));
        assert(r.take(next.len() as int) == next);
        assert(r.take(into.len() as int) =~= next.take(into.len() as int));
        assert(next.take(into.len() as int) =~= into);
        assert forall|k: int| 0 <= k < r.len() implies #[trigger] into.contains(r[k]) || extra.contains(r[k]) by {
            if next.contains(r[k]) {
                let j = choose|j: int| 0 <= j < next.len() && next[j] == r[k];
                if j < into.len() {
                    assert(into[j] == r[k]);
                } else {
                    assert(extra[0] == r[k]);
                }
            } else {
                assert(extra.drop_first().contains(r[k]));
                let j = choose|j: int| 0 <= j < extra.drop_first().len() && extra.drop_first()[j] == r[k];
                assert(extra[j + 1] == r[k]);
            }
        }
    } else {
        assert(into.take(into.len() as int) =~= into);
    }
}

/// Merging into markets with distinct normalised titles keeps them distinct,
/// and every market of `extra` has its normalised title in the result.
pub proof fn law_merge_distinct(into: Seq<MarketView>, extra: Seq<MarketView>)
    requires
        distinct_titles(into),
    ensures
        distinct_titles(merged(into, extra)),
        forall|j: int| 0 <= j < extra.len() ==> has_normal_title(merged(into, extra), normalize(#[trigger] extra[j].title)),
        forall|j: int| 0 <= j < into.len() ==> has_normal_title(merged(into, extra), normalize(#[trigger] into[j].title)),
    decreases extra.len(),
{
    if extra.len() > 0 {
        let m = extra[0];
        let present = has_normal_title(into, normalize(m.title));
        let next = if present {
            into
        } else {
            into.push(m)
        };
        assert(distinct_titles(next)) by {
            if !present {
                assert forall|i: int, j: int| 0 <= i < j < next.len() implies normalize(next[i].title)
                    != normalize(next[j].title) by {
                    if j == next.len() - 1 {
                        assert(next[j] == m);
                        assert(next[i] == into[i]);
                    } else {
                        assert(next[i] == into[i]);
                        assert(next[j] == into[j]);
                    }
                }
            }
        }
        law_merge_distinct(next, extra.drop_first());
        let r = merged(into, extra);
        assert(r == merged(next, extra.drop_first()));
        assert forall|j: int| 0 <= j < extra.len() implies has_normal_title(r, normalize(#[trigger] extra[j].title)) by {
            if j == 0 {
                if present {
                    let i = choose|i: int| 0 <= i < into.len() && normalize(into[i].title) == normalize(m.title);
                    assert(has_normal_title(r, normalize(next[i].title)));
                } else {
                    assert(next[next.len() - 1] == m);
                    assert(has_normal_title(r, normalize(next[next.len() - 1].title)));
                }
            } else {
                assert(extra[j] == extra.drop_first()[j - 1]);
            }
        }
        assert forall|j: int| 0 <= j < into.len() implies has_normal_title(r, normalize(#[trigger] into[j].title)) by {
            assert(next[j] == into[j]);
        }
    } else {
        assert forall|j: int| 0 <= j < into.len() implies has_normal_title(merged(into, extra), normalize(
            #[trigger] into[j].title,
        )) by {
            assert(merged(into, extra) == into);
        }
    }
}

/// Merging markets whose normalised titles are all distinct, old and new,
/// appends them all.
pub proof fn law_merge_distinct_appends(into: Seq<MarketView>, extra: Seq<MarketView>)
    requires
        distinct_titles(into + extra),
    ensures
        merged(into, extra) == into + extra,
    decreases extra.len(),
{
    if extra.len() == 0 {
        assert(into + extra =~= into);
    } else {
        let m = extra[0];
        assert(!has_normal_title(into, normalize(m.title))) by {
            if has_normal_title(into, normalize(m.title)) {
                let i = choose|i: int| 0 <= i < into.len() && normalize(into[i].title) == normalize(m.title);
                assert((into + extra)[i] == into[i]);
                assert((into + extra)[into.len() as int] == m);
            }
        }
        assert(into.push(m) + extra.drop_first() =~= into + extra);
        law_merge_distinct_appends(into.push(m), extra.drop_first());
    }
}

/// Deduplication keeps the first market of each normalised title: the result
/// has distinct normalised titles, holds only markets of the input, and
/// covers every normalised title of the input.
pub proof fn law_dedupe_distinct(ms: Seq<MarketView>)
    ensures
        distinct_titles(deduped(ms)),
        forall|k: int| 0 <= k < deduped(ms).len() ==> ms.contains(#[trigger] deduped(ms)[k]),
        forall|j: int| 0 <= j < ms.len() ==> has_normal_title(deduped(ms), normalize(#[trigger] ms[j].title)),
{
    law_merge_distinct(seq![], ms);
    law_merge_keeps_and_adds(seq![], ms);
    assert forall|k: int| 0 <= k < deduped(ms).len() implies ms.contains(#[trigger] deduped(ms)[k]) by {
        assert(Seq::<MarketView>::empty().contains(deduped(ms)[k]) || ms.contains(deduped(ms)[k]));
    }
}

/// Deduplicating twice is deduplicating once.
pub proof fn law_dedupe_idempotent(ms: Seq<MarketView>)
    ensures
        deduped(deduped(ms)) == deduped(ms),
{
    law_dedupe_distinct(ms);
    assert(Seq::<MarketView>::empty() + deduped(ms) =~= deduped(ms));
    law_merge_distinct_appends(seq![], deduped(ms));
}

/// The markets `extract_markets` returns have distinct normalised titles.
pub proof fn law_extracted_titles_distinct(
    fs: Seq<crate::json::TextFact>,
    text: Seq<char>,
    html: Seq<char>,
    blobs: Seq<Seq<char>>,
)
    ensures
        distinct_titles(found_markets(fs, text, html, blobs)),
{
    let m1 = blobs_markets(fs, blobs);
    let m2 = if m1.len() == 0 {
        embedded_markets(fs, html)
    } else {
        m1
    };
    let m3 = if m2.len() < 2 {
        merged(m2, text_markets(text))
    } else {
        m2
    };
    let m4 = if m3.len() == 0 {
        merged(m3, html_title_markets(html))
    } else {
        m3
    };
    law_dedupe_distinct(m4);
}
} // verus!
