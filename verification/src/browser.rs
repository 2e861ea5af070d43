//! Decisions of the browser session that a check-and-scrape drives: which
//! proxy Chrome is given, which Chrome binary is used, when waiting for a page
//! ends, how page state captured by the browser becomes [`PageContent`], and
//! when a failed attempt is retried. The browser itself is driven by the caller.

use vstd::prelude::*;
use crate::config_env::{env_get, env_value, EnvSnapshot};
use crate::json::{get, get_member, json_string_literal, literal, Json};
use crate::scrape::{
    is_transient_context_error, opt_view, png_signature, spec_is_browser_error_page,
    spec_is_transient_context_error, BrowserScrapeError, PageContent, PNG_SIGNATURE,
};
use crate::text::{chars_of, concat, contains, contains_chars, string_of, string_views, trim, trim_str};

verus! {

impl BrowserScrapeError {
    /// The error's message.
    pub open spec fn text(self) -> Seq<char> {
        match self {
            BrowserScrapeError::ChromeNotFound(m) => "failed to locate Chrome/Chromium executable: "@ + m@,
            BrowserScrapeError::Launch(m) => "failed to launch browser: "@ + m@,
            BrowserScrapeError::Navigation { url, message } => "navigation failed for "@ + url@ + ": "@
                + message@,
            BrowserScrapeError::ReadyTimeout(m) => "timed out waiting for page ready: "@ + m@,
            BrowserScrapeError::Extract(m) => "failed to extract page content: "@ + m@,
            BrowserScrapeError::Protocol(m) => "browser protocol error: "@ + m@,
        }
    }

    /// The error's message.
    pub fn message(&self) -> (r: String)
        ensures
            r@ == self.text(),
    {
        let (head, tail) = match self {
            BrowserScrapeError::ChromeNotFound(m) => (
                chars_of("failed to locate Chrome/Chromium executable: "),
                chars_of(m.as_str()),
            ),
            BrowserScrapeError::Launch(m) => (chars_of("failed to launch browser: "), chars_of(m.as_str())),
            BrowserScrapeError::Navigation { url, message } => (
                concat(&concat(&chars_of("navigation failed for "), &chars_of(url.as_str())), &chars_of(": ")),
                chars_of(message.as_str()),
            ),
            BrowserScrapeError::ReadyTimeout(m) => (
                chars_of("timed out waiting for page ready: "),
                chars_of(m.as_str()),
            ),
            BrowserScrapeError::Extract(m) => (
                chars_of("failed to extract page content: "),
                chars_of(m.as_str()),
            ),
            BrowserScrapeError::Protocol(m) => (chars_of("browser protocol error: "), chars_of(m.as_str())),
        };
        string_of(&concat(&head, &tail))
    }
}

/// The proxy variables Chrome is given, in order of preference.
pub open spec fn proxy_keys() -> Seq<Seq<char>> {
    seq!["HTTPS_PROXY"@, "https_proxy"@, "HTTP_PROXY"@, "http_proxy"@, "ALL_PROXY"@, "all_proxy"@]
}

/// The first proxy variable, among `keys`, set to a Unicode value that is not
/// blank; its value trimmed.
pub open spec fn proxy_among(vars: Seq<(String, Option<String>)>, keys: Seq<Seq<char>>) -> Option<Seq<char>>
    decreases keys.len(),
{
    if keys.len() == 0 {
        None
    } else {
        match env_get(vars, keys[0]) {
            Some(Some(v)) if trim(v).len() > 0 => Some(trim(v)),
            _ => proxy_among(vars, keys.drop_first()),
        }
    }
}

/// The proxy variables, in order of preference: the names to read the
/// environment under for [`detect_proxy_server`].
pub fn proxy_names() -> (r: Vec<String>)
    ensures
        crate::text::string_views(r@) == proxy_keys(),
{
    let r = vec![
        "HTTPS_PROXY".to_owned(),
        "https_proxy".to_owned(),
        "HTTP_PROXY".to_owned(),
        "http_proxy".to_owned(),
        "ALL_PROXY".to_owned(),
        "all_proxy".to_owned(),
    ];
    assert(crate::text::string_views(r@) =~= proxy_keys());
    r
}

/// `detect_proxy_server`: the proxy for Chrome's `--proxy-server`, from the
/// usual proxy variables.
pub fn detect_proxy_server(env: &EnvSnapshot) -> (r: Option<String>)
    ensures
        opt_view(r) == proxy_among(env.vars@, proxy_keys()),
{
    let keys = vec!["HTTPS_PROXY", "https_proxy", "HTTP_PROXY", "http_proxy", "ALL_PROXY", "all_proxy"];
    let ghost ks = proxy_keys();
    assert(keys@.map_values(|k: &str| k@) =~= ks);
    let mut i: usize = 0;
    assert(ks.skip(0) =~= ks);
    while i < keys.len()
        invariant
            i <= keys@.len(),
            keys@.len() == 6,
            keys@.map_values(|k: &str| k@) == ks,
            ks == proxy_keys(),
            proxy_among(env.vars@, ks) == proxy_among(env.vars@, ks.skip(i as int)),
        decreases keys.len() - i,
    {
        assert(ks.skip(i as int).drop_first() =~= ks.skip(i + 1));
        assert(ks.skip(i as int)[0] == keys@[i as int]@);
        match env_value(env, &chars_of(keys[i])) {
            Some(Some(v)) => {
                let t = trim_str(v.as_str());
                if !t.as_str().is_empty() {
                    return Some(t);
                }
            },
            _ => {},
        }
        i = i + 1;
    }
    assert(ks.skip(i as int) =~= Seq::<Seq<char>>::empty());
    None
}

/// The Chrome program names looked up on `PATH`, in order.
pub open spec fn chrome_names() -> Seq<Seq<char>> {
    seq!["google-chrome"@, "google-chrome-stable"@, "chromium"@, "chromium-browser"@, "chrome"@]
}

/// Usual Chrome install locations (Linux / macOS), in order.
pub open spec fn chrome_install_paths() -> Seq<Seq<char>> {
    seq![
        "/usr/bin/google-chrome"@,
        "/usr/bin/google-chrome-stable"@,
        "/usr/bin/chromium"@,
        "/usr/bin/chromium-browser"@,
        "/Applications/Google Chrome.app/Contents/MacOS/Google Chrome"@,
    ]
}

/// The Chrome program names looked up on `PATH`, in order.
pub fn chrome_program_names() -> (r: Vec<String>)
    ensures
        string_views(r@) == chrome_names(),
{
    let r = vec![
        "google-chrome".to_owned(),
        "google-chrome-stable".to_owned(),
        "chromium".to_owned(),
        "chromium-browser".to_owned(),
        "chrome".to_owned(),
    ];
    assert(string_views(r@) =~= chrome_names());
    r
}

/// Usual Chrome install locations, in order.
pub fn chrome_install_locations() -> (r: Vec<String>)
    ensures
        string_views(r@) == chrome_install_paths(),
{
    let r = vec![
        "/usr/bin/google-chrome".to_owned(),
        "/usr/bin/google-chrome-stable".to_owned(),
        "/usr/bin/chromium".to_owned(),
        "/usr/bin/chromium-browser".to_owned(),
        "/Applications/Google Chrome.app/Contents/MacOS/Google Chrome".to_owned(),
    ];
    assert(string_views(r@) =~= chrome_install_paths());
    r
}

/// `find_chrome_executable`'s decision: a configured path must be a file; else
/// the first Chrome found (on `PATH`, then at an install location) is used.
pub fn choose_chrome(explicit: Option<&str>, explicit_is_file: bool, found: Option<String>) -> (r: Result<
    String,
    BrowserScrapeError,
>)
    ensures
        match explicit {
            Some(p) => if explicit_is_file {
                r matches Ok(s) && s@ == p@
            } else {
                r matches Err(BrowserScrapeError::ChromeNotFound(m)) && m@
                    == "configured path is not a file: "@ + p@
            },
            None => match found {
                Some(f) => r matches Ok(s) && s@ == f@,
                None => r matches Err(BrowserScrapeError::ChromeNotFound(m)) && m@
                    == "no Chrome/Chromium binary found on PATH or common install locations"@,
            },
        },
{
    match explicit {
        Some(p) => {
            if explicit_is_file {
                Ok(p.to_owned())
            } else {
                Err(
                    BrowserScrapeError::ChromeNotFound(
                        string_of(&concat(&chars_of("configured path is not a file: "), &chars_of(p))),
                    ),
                )
            }
        },
        None => match found {
            Some(f) => Ok(f),
            None => Err(
                BrowserScrapeError::ChromeNotFound(
                    "no Chrome/Chromium binary found on PATH or common install locations".to_owned(),
                ),
            ),
        },
    }
}

/// How a wait for the page continues.
#[derive(Debug, Clone)]
pub enum WaitStep {
    /// The page is ready.
    Ready,
    /// Poll again after a pause.
    Again,
    /// Give up with this error.
    Fail(BrowserScrapeError),
}

/// A wait step as mathematical values: each failure with its messages.
pub enum WaitView {
    Ready,
    Again,
    Timeout(Seq<char>),
    Protocol(Seq<char>),
    ChromeNotFound(Seq<char>),
    Launch(Seq<char>),
    Navigation(Seq<char>, Seq<char>),
    Extract(Seq<char>),
}

/// The view of a wait step.
pub open spec fn wait_view(w: WaitStep) -> WaitView {
    match w {
        WaitStep::Ready => WaitView::Ready,
        WaitStep::Again => WaitView::Again,
        WaitStep::Fail(BrowserScrapeError::ReadyTimeout(m)) => WaitView::Timeout(m@),
        WaitStep::Fail(BrowserScrapeError::Protocol(m)) => WaitView::Protocol(m@),
        WaitStep::Fail(BrowserScrapeError::ChromeNotFound(m)) => WaitView::ChromeNotFound(m@),
        WaitStep::Fail(BrowserScrapeError::Launch(m)) => WaitView::Launch(m@),
        WaitStep::Fail(BrowserScrapeError::Navigation { url, message }) => WaitView::Navigation(url@, message@),
        WaitStep::Fail(BrowserScrapeError::Extract(m)) => WaitView::Extract(m@),
    }
}

/// `wait_for_document_ready`'s step on one reading of `document.readyState`
/// (or the evaluation error): ready once `complete` or `interactive`; past the
/// deadline, a timeout (for a state or a torn-down context) or a protocol error.
pub open spec fn ready_step(reading: Result<Seq<char>, Seq<char>>, past_deadline: bool) -> WaitView {
    match reading {
        Ok(state) => if state == "complete"@ || state == "interactive"@ {
            WaitView::Ready
        } else if past_deadline {
            WaitView::Timeout("document.readyState stuck at "@ + state)
        } else {
            WaitView::Again
        },
        Err(e) => if !past_deadline {
            WaitView::Again
        } else if spec_is_transient_context_error(e) {
            WaitView::Timeout("document never became ready: "@ + e)
        } else {
            WaitView::Protocol(e)
        },
    }
}

/// A reading as mathematical values.
pub open spec fn reading_view(r: Result<String, String>) -> Result<Seq<char>, Seq<char>> {
    match r {
        Ok(s) => Ok(s@),
        Err(e) => Err(e@),
    }
}

/// `wait_for_document_ready`'s step.
pub fn document_ready_step(reading: Result<String, String>, past_deadline: bool) -> (r: WaitStep)
    ensures
        wait_view(r) == ready_step(reading_view(reading), past_deadline),
{
    match reading {
        Ok(state) => {
            let c = chars_of(state.as_str());
            if crate::text::chars_eq(&c, &chars_of("complete")) || crate::text::chars_eq(
                &c,
                &chars_of("interactive"),
            ) {
                WaitStep::Ready
            } else if past_deadline {
                WaitStep::Fail(
                    BrowserScrapeError::ReadyTimeout(
                        string_of(&concat(&chars_of("document.readyState stuck at "), &c)),
                    ),
                )
            } else {
                WaitStep::Again
            }
        },
        Err(e) => {
            if !past_deadline {
                WaitStep::Again
            } else if is_transient_context_error(e.as_str()) {
                WaitStep::Fail(
                    BrowserScrapeError::ReadyTimeout(
                        string_of(&concat(&chars_of("document never became ready: "), &chars_of(e.as_str()))),
                    ),
                )
            } else {
                WaitStep::Fail(BrowserScrapeError::Protocol(e))
            }
        },
    }
}

/// `wait_for_selector`'s step on one evaluation of the selector test: ready on
/// `"true"`; past the deadline, a timeout naming the selector.
pub open spec fn selector_step(reading: Result<Seq<char>, Seq<char>>, selector: Seq<char>, past_deadline: bool) -> WaitView {
    if reading == Ok::<Seq<char>, Seq<char>>("true"@) {
        WaitView::Ready
    } else if past_deadline {
        WaitView::Timeout("selector not found: "@ + selector)
    } else {
        WaitView::Again
    }
}

/// `wait_for_selector`'s step.
pub fn wait_selector_step(reading: Result<String, String>, selector: &str, past_deadline: bool) -> (r: WaitStep)
    ensures
        wait_view(r) == selector_step(reading_view(reading), selector@, past_deadline),
{
    let found = match &reading {
        Ok(v) => crate::text::chars_eq(&chars_of(v.as_str()), &chars_of("true")),
        Err(_) => false,
    };
    if found {
        WaitStep::Ready
    } else if past_deadline {
        WaitStep::Fail(
            BrowserScrapeError::ReadyTimeout(
                string_of(&concat(&chars_of("selector not found: "), &chars_of(selector))),
            ),
        )
    } else {
        WaitStep::Again
    }
}

/// What `wait_for_meaningful_content` remembers between readings.
#[derive(Debug, Clone, Copy)]
pub struct ContentWait {
    /// The body text length last seen at 80 or more characters.
    pub last_len: usize,
    /// How many readings in a row saw that length again.
    pub stable_ticks: u32,
}

/// `wait_for_meaningful_content`'s step on one reading of the body text length
/// (0 when it could not be read): once the text has 80 characters or more, it
/// is ready when the length held for two readings, or at 500 characters held
/// once, or at 2000 characters; past the deadline, ready if any text appeared.
pub open spec fn content_step(s: ContentWait, len: usize, past_deadline: bool) -> (ContentWait, WaitView) {
    if len >= 80 {
        let s1 = if len == s.last_len {
            ContentWait { last_len: s.last_len, stable_ticks: (s.stable_ticks + 1) as u32 }
        } else {
            ContentWait { last_len: len, stable_ticks: 0 }
        };
        if len == s.last_len && s1.stable_ticks >= 2 {
            (s1, WaitView::Ready)
        } else if len >= 500 && s1.stable_ticks >= 1 {
            (s1, WaitView::Ready)
        } else if len >= 2000 {
            (s1, WaitView::Ready)
        } else if past_deadline {
            (s1, WaitView::Ready)
        } else {
            (s1, WaitView::Again)
        }
    } else if past_deadline {
        if len > 0 {
            (s, WaitView::Ready)
        } else {
            (
                s,
                WaitView::Timeout(
                    "page body never became non-empty (check proxy reachability and timeout)"@,
                ),
            )
        }
    } else {
        (s, WaitView::Again)
    }
}

/// `wait_for_meaningful_content`'s step.
pub fn content_wait_step(s: ContentWait, len: usize, past_deadline: bool) -> (r: (ContentWait, WaitStep))
    requires
        s.stable_ticks < u32::MAX,
    ensures
        r.0 == content_step(s, len, past_deadline).0,
        wait_view(r.1) == content_step(s, len, past_deadline).1,
        s.stable_ticks <= 1 && r.1 is Again ==> r.0.stable_ticks <= 1,
{
    if len >= 80 {
        let s1 = if len == s.last_len {
            ContentWait { last_len: s.last_len, stable_ticks: s.stable_ticks + 1 }
        } else {
            ContentWait { last_len: len, stable_ticks: 0 }
        };
        if len == s.last_len && s1.stable_ticks >= 2 {
            return (s1, WaitStep::Ready);
        }
        if len >= 500 && s1.stable_ticks >= 1 {
            return (s1, WaitStep::Ready);
        }
        if len >= 2000 {
            return (s1, WaitStep::Ready);
        }
        if past_deadline {
            return (s1, WaitStep::Ready);
        }
        return (s1, WaitStep::Again);
    }
    if past_deadline {
        if len > 0 {
            return (s, WaitStep::Ready);
        }
        return (
            s,
            WaitStep::Fail(
                BrowserScrapeError::ReadyTimeout(
                    "page body never became non-empty (check proxy reachability and timeout)".to_owned(),
                ),
            ),
        );
    }
    (s, WaitStep::Again)
}

/// Whether a failed browser evaluation ends its retries: from the second
/// attempt on, an error that is not a torn-down context.
pub fn retries_exhausted(attempt: u32, error: &str) -> (r: bool)
    ensures
        r == (!spec_is_transient_context_error(error@) && attempt >= 2),
{
    !is_transient_context_error(error) && attempt >= 2
}

/// Whether a screenshot is accepted: a PNG of more than 64 bytes.
pub fn screenshot_accepted(bytes: &[u8]) -> (r: bool)
    ensures
        r == (bytes@.len() > 64 && bytes@.take(8) == png_signature()),
{
    if bytes.len() <= 64 {
        return false;
    }
    let sig = PNG_SIGNATURE;
    let mut i: usize = 0;
    while i < 8
        invariant
            bytes@.len() > 64,
            i <= 8,
            sig@ == png_signature(),
            forall|k: int| 0 <= k < i ==> bytes@[k] == png_signature()[k],
        decreases 8 - i,
    {
        if bytes[i] != sig[i] {
            assert(bytes@.take(8)[i as int] != png_signature()[i as int]);
            return false;
        }
        i = i + 1;
    }
    assert(bytes@.take(8) =~= png_signature());
    true
}


/// How a check-and-scrape goes on after one attempt.
#[derive(Debug, Clone)]
pub enum ScrapeStep {
    /// Extract markets from this content; the scrape is done.
    Finish(PageContent),
    /// Wait this many milliseconds and try again; this error stands if no
    /// later attempt succeeds.
    Retry(BrowserScrapeError, u64),
    /// Give up with this error.
    Fail(BrowserScrapeError),
}

/// The most attempts a check-and-scrape makes.
pub const MAX_ATTEMPTS: u32 = 3;

/// The first 120 characters of a text.
pub open spec fn head120(s: Seq<char>) -> Seq<char> {
    if s.len() < 120 {
        s
    } else {
        s.take(120)
    }
}

/// `check_and_scrape`'s decision after attempt `attempt` (1 to 3): content that
/// is a browser error page is retried, as is a failure, while attempts remain,
/// after `attempt` seconds; otherwise content is extracted and a failure stands.
pub fn scrape_attempt_step(url: &str, attempt: u32, outcome: Result<PageContent, BrowserScrapeError>) -> (r: ScrapeStep)
    requires
        1 <= attempt <= 3,
    ensures
        match outcome {
            Ok(content) => if spec_is_browser_error_page(content.title@, content.text@) && attempt < 3 {
                r matches ScrapeStep::Retry(BrowserScrapeError::Navigation { url: u, message: m }, d)
                    && u@ == url@ && m@ == "browser error page (attempt "@ + crate::text::decimal(
                    attempt as nat,
                ) + "): "@ + head120(content.text@) && d == 1000 * attempt
            } else {
                r == ScrapeStep::Finish(content)
            },
            Err(e) => if attempt < 3 {
                r == ScrapeStep::Retry(e, (1000 * attempt) as u64)
            } else {
                r == ScrapeStep::Fail(e)
            },
        },
{
    match outcome {
        Ok(content) => {
            if crate::scrape::is_browser_error_page(&content) && attempt < MAX_ATTEMPTS {
                let text = chars_of(content.text.as_str());
                let n = if text.len() < 120 {
                    text.len()
                } else {
                    120
                };
                let head = crate::text::copy_range(&text, 0, n);
                assert(head@ =~= head120(content.text@));
                let mut m = chars_of("browser error page (attempt ");
                m = concat(&m, &crate::text::decimal_chars(attempt as usize));
                m = concat(&m, &chars_of("): "));
                m = concat(&m, &head);
                let err = BrowserScrapeError::Navigation { url: url.to_owned(), message: string_of(&m) };
                ScrapeStep::Retry(err, 1000 * (attempt as u64))
            } else {
                ScrapeStep::Finish(content)
            }
        },
        Err(e) => {
            if attempt < MAX_ATTEMPTS {
                ScrapeStep::Retry(e, 1000 * (attempt as u64))
            } else {
                ScrapeStep::Fail(e)
            }
        },
    }
}

/// The text of a string member, or `default`.
pub open spec fn str_or(v: Json, key: Seq<char>, default: Seq<char>) -> Seq<char> {
    match get(v, key) {
        Some(Json::Str(s)) => s@,
        _ => default,
    }
}

/// The page text with each card's text that it does not contain yet appended
/// after a blank line, cards taken from position `i` on.
pub open spec fn with_cards(text: Seq<char>, cards: Seq<Json>, i: int) -> Seq<char>
    decreases cards.len() - i,
{
    if i < 0 || i >= cards.len() {
        text
    } else {
        let next = match cards[i] {
            Json::Str(c) => if contains(text, c@) {
                text
            } else {
                text + "\n\n"@ + c@
            },
            _ => text,
        };
        with_cards(next, cards, i + 1)
    }
}

/// The string items of an array member, or nothing.
pub open spec fn string_items(v: Json, key: Seq<char>) -> Seq<Seq<char>> {
    match get(v, key) {
        Some(Json::Array(items)) => crate::market_json::array_strings(items@),
        _ => seq![],
    }
}

/// The page text of a captured page state: its text with its market cards.
pub open spec fn payload_text(payload: Json) -> Seq<char> {
    match get(payload, "cards"@) {
        Some(Json::Array(cards)) => with_cards(str_or(payload, "text"@, seq![]), cards@, 0),
        _ => str_or(payload, "text"@, seq![]),
    }
}

/// The text of a string member, or `default`.
fn str_member_or(v: &Json, key: &str, default: &str) -> (r: String)
    ensures
        r@ == str_or(*v, key@, default@),
{
    match get_member(v, key) {
        Some(Json::Str(s)) => s.clone(),
        _ => default.to_owned(),
    }
}

/// The string items of an array.
fn array_string_texts(items: &Vec<Json>) -> (r: Vec<String>)
    ensures
        string_views(r@) == crate::market_json::array_strings(items@),
{
    let mut r: Vec<String> = Vec::new();
    let mut i: usize = 0;
    assert(items@.take(0) =~= Seq::<Json>::empty());
    assert(string_views(r@) =~= Seq::<Seq<char>>::empty());
    while i < items.len()
        invariant
            i <= items@.len(),
            string_views(r@) == crate::market_json::array_strings(items@.take(i as int)),
        decreases items.len() - i,
    {
        assert(items@.take(i + 1).drop_last() =~= items@.take(i as int));
        assert(items@.take(i + 1).last() == items@[i as int]);
        match &items[i] {
            Json::Str(s) => {
                let ghost before = string_views(r@);
                r.push(s.clone());
                assert(string_views(r@) =~= before.push(s@));
            },
            _ => {},
        }
        i = i + 1;
    }
    assert(items@.take(i as int) =~= items@);
    r
}

/// `extract_page_content`'s reading of the page state the browser returned:
/// its text (with card texts appended), HTML, title, URL (`url` when missing)
/// and JSON blobs.
pub fn page_content_from_payload(payload: &Json, url: &str) -> (r: PageContent)
    ensures
        r.url@ == str_or(*payload, "url"@, url@),
        r.title@ == str_or(*payload, "title"@, seq![]),
        r.text@ == payload_text(*payload),
        r.html@ == str_or(*payload, "html"@, seq![]),
        string_views(r.json_blobs@) == string_items(*payload, "json_blobs"@),
        r.screenshot_png is None,
{
    proof {
        reveal_strlit("");
    }
    let mut text = chars_of(str_member_or(payload, "text", "").as_str());
    match get_member(payload, "cards") {
        Some(Json::Array(cards)) => {
            let ghost start = text@;
            let mut i: usize = 0;
            while i < cards.len()
                invariant
                    i <= cards@.len(),
                    with_cards(text@, cards@, i as int) == with_cards(start, cards@, 0),
                decreases cards.len() - i,
            {
                match &cards[i] {
                    Json::Str(c) => {
                        let cc = chars_of(c.as_str());
                        if !contains_chars(&text, &cc) {
                            text = concat(&concat(&text, &chars_of("\n\n")), &cc);
                        }
                    },
                    _ => {},
                }
                i = i + 1;
            }
            assert(with_cards(text@, cards@, i as int) == text@);
            assert(text@ == with_cards(start, cards@, 0));
            assert(start == str_or(*payload, "text"@, seq![]));
        },
        _ => {},
    }
    let json_blobs = match get_member(payload, "json_blobs") {
        Some(Json::Array(items)) => array_string_texts(items),
        _ => {
            let r: Vec<String> = Vec::new();
            assert(string_views(r@) =~= Seq::<Seq<char>>::empty());
            r
        },
    };
    PageContent {
        url: str_member_or(payload, "url", url),
        title: str_member_or(payload, "title", ""),
        text: string_of(&text),
        html: str_member_or(payload, "html", ""),
        json_blobs,
        screenshot_png: None,
    }
}

/// The script that navigates to `url`: `window.location.assign(<url as JSON>)`.
/// (Should serialising fail, the URL would be quoted as is; for a string it
/// does not fail.)
pub open spec fn navigation_script_text(url: Seq<char>) -> Seq<char> {
    "window.location.assign("@ + literal(url) + ")"@
}

/// The script that navigates the page to `url`.
pub fn navigation_script(url: &str) -> (r: String)
    ensures
        r@ == navigation_script_text(url@),
{
    let lit = match json_string_literal(url) {
        Some(l) => chars_of(l.as_str()),
        None => concat(&concat(&chars_of("\""), &chars_of(url)), &chars_of("\"")),
    };
    string_of(&concat(&concat(&chars_of("window.location.assign("), &lit), &chars_of(")")))
}

/// The script that tests for `selector`: `String(!!document.querySelector(<selector as JSON>))`.
/// (Should serialising fail, `null` would stand for the selector; for a
/// string it does not fail.)
pub open spec fn selector_script_text(selector: Seq<char>) -> Seq<char> {
    "String(!!document.querySelector("@ + literal(selector) + "))"@
}

/// The script that tests whether `selector` matches an element, as `"true"` or `"false"`.
pub fn selector_script(selector: &str) -> (r: String)
    ensures
        r@ == selector_script_text(selector@),
{
    let lit = match json_string_literal(selector) {
        Some(l) => chars_of(l.as_str()),
        None => chars_of("null"),
    };
    string_of(&concat(&concat(&chars_of("String(!!document.querySelector("), &lit), &chars_of("))")))
}

/// Past the deadline, no wait goes on: every step either finds the page
/// ready or fails.
pub proof fn law_waits_end_at_deadline(
    reading: Result<Seq<char>, Seq<char>>,
    selector: Seq<char>,
    s: ContentWait,
    len: usize,
)
    ensures
        !(ready_step(reading, true) is Again),
        !(selector_step(reading, selector, true) is Again),
        !(content_step(s, len, true).1 is Again),
{
}

/// Before the deadline, a page that is not ready is polled again, never failed.
pub proof fn law_waits_patient_before_deadline(reading: Result<Seq<char>, Seq<char>>, selector: Seq<char>, s: ContentWait, len: usize)
    ensures
        ready_step(reading, false) is Ready || ready_step(reading, false) is Again,
        selector_step(reading, selector, false) is Ready || selector_step(reading, selector, false) is Again,
        content_step(s, len, false).1 is Ready || content_step(s, len, false).1 is Again,
{
}
} // verus!
