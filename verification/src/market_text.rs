//! Market entries found in a page's visible text and in its HTML headings.

use vstd::prelude::*;
use crate::pattern::{re_group_one, re_is_match, re_replace_all, regex_group_one, regex_is_match, regex_replace_all, group_views};
use crate::scrape::{market_views, MarketEntry, MarketView};
use crate::text::{
    ascii_lower, chars_eq_ignore_ascii_case, chars_of, contains, contains_chars, eq_ignore_ascii_case, has_prefix, split_nonblank_lines, split_words, starts_with, string_of, string_views, to_ascii_lower, to_lowercase, trim, unicode_lower, views, words, nonblank_lines,
};

verus! {

/// Prices in a text line: a percentage, a price in cents, a decimal below one,
/// or one, optionally after a yes/no label.
pub const PRICE_PATTERN: &'static str = r"(?:Yes|No|YES|NO)?\s*(\d{1,3}(?:\.\d+)?%|\d{1,3}(?:\.\d+)?¢|0?\.\d{1,4}|1(?:\.0+)?)";

/// A line that is only a market status.
pub const STATUS_PATTERN: &'static str = r"(?i)^(active|open|closed|resolved|inactive|paused)$";

/// A heading or link whose class names a market, with its inner HTML.
pub const TITLE_PATTERN: &'static str = r#"(?is)<(?:h[1-3]|a)[^>]*class="[^"]*market[^"]*"[^>]*>(.*?)</(?:h[1-3]|a)>"#;

/// An HTML tag.
pub const TAG_PATTERN: &'static str = r"<[^>]+>";

/// A price near a market heading.
pub const NEAR_PRICE_PATTERN: &'static str = r"(\d{1,3}(?:\.\d+)?%|\d{1,3}(?:\.\d+)?¢|0?\.\d{2,4})";

/// A digit or one of the characters of a bare price line (`%`, `¢`, `.`, space).
pub open spec fn is_price_char(c: char) -> bool {
    ('0' <= c && c <= '9') || c == '%' || c == '¢' || c == '.' || c == ' '
}

/// `looks_like_title`: 12 to 200 characters, and either a question, or at
/// least three words that are not only a price, a sign-up/log-in link or a URL.
pub open spec fn looks_like_title(line: Seq<char>) -> bool {
    if !(12 <= line.len() <= 200) {
        false
    } else if line.last() == '?' {
        true
    } else if forall|i: int| 0 <= i < line.len() ==> is_price_char(#[trigger] line[i]) {
        false
    } else {
        words(line).len() >= 3 && !eq_ignore_ascii_case(line, "sign up"@) && !eq_ignore_ascii_case(
            line,
            "log in"@,
        ) && !has_prefix(line, "http"@)
    }
}

/// Whether every character of `line` is a price character.
fn only_price_chars(line: &[char]) -> (r: bool)
    ensures
        r == forall|i: int| 0 <= i < line@.len() ==> is_price_char(#[trigger] line@[i]),
{
    let mut i: usize = 0;
    while i < line.len()
        invariant
            i <= line@.len(),
            forall|k: int| 0 <= k < i ==> is_price_char(#[trigger] line@[k]),
        decreases line.len() - i,
    {
        let c = line[i];
        if !(('0' <= c && c <= '9') || c == '%' || c == '¢' || c == '.' || c == ' ') {
            assert(!is_price_char(line@[i as int]));
            return false;
        }
        i = i + 1;
    }
    true
}

/// `looks_like_title`.
pub fn is_title_like(line: &[char]) -> (r: bool)
    ensures
        r == looks_like_title(line@),
{
    let n = line.len();
    if n < 12 || n > 200 {
        return false;
    }
    if line[n - 1] == '?' {
        return true;
    }
    if only_price_chars(line) {
        return false;
    }
    split_words(line).len() >= 3 && !chars_eq_ignore_ascii_case(line, &chars_of("sign up"))
        && !chars_eq_ignore_ascii_case(line, &chars_of("log in")) && !starts_with(
        line,
        &chars_of("http"),
    )
}


/// The prices and outcome labels gathered so far, after the captures `caps` of
/// the price pattern in `line`: each new price in turn, and a "Yes" (or "No")
/// label once for a line that mentions yes (or no) and has a price.
pub open spec fn absorb_captures(
    line: Seq<char>,
    caps: Seq<Option<(nat, Seq<char>)>>,
    prices: Seq<Seq<char>>,
    outcomes: Seq<Seq<char>>,
) -> (Seq<Seq<char>>, Seq<Seq<char>>)
    decreases caps.len(),
{
    if caps.len() == 0 {
        (prices, outcomes)
    } else {
        let (p0, o0) = absorb_captures(line, caps.drop_last(), prices, outcomes);
        let p1 = match caps.last() {
            Some(c) => if p0.contains(c.1) {
                p0
            } else {
                p0.push(c.1)
            },
            None => p0,
        };
        let lower = ascii_lower(line);
        let o1 = if contains(lower, "yes"@) && !o0.contains("Yes"@) {
            o0.push("Yes"@)
        } else {
            o0
        };
        let o2 = if contains(lower, "no"@) && !o1.contains("No"@) {
            o1.push("No"@)
        } else {
            o1
        };
        (p1, o2)
    }
}

/// The block under the title at line `i`, read from line `j` on: the prices,
/// outcome labels and status it holds, and the line after it. A block ends
/// after a status line, before another title line that holds no price, at the
/// end of the text, or seven lines below its title.
pub open spec fn scan_block(
    lines: Seq<Seq<char>>,
    i: int,
    j: int,
    prices: Seq<Seq<char>>,
    outcomes: Seq<Seq<char>>,
) -> (Seq<Seq<char>>, Seq<Seq<char>>, Option<Seq<char>>, int)
    decreases lines.len() - j,
{
    if j < 0 || j >= lines.len() || j >= i + 8 {
        (prices, outcomes, None, j)
    } else {
        let l = lines[j];
        if re_is_match(STATUS_PATTERN@, l) {
            (prices, outcomes, Some(unicode_lower(l)), j + 1)
        } else if looks_like_title(l) && !re_is_match(PRICE_PATTERN@, l) {
            (prices, outcomes, None, j)
        } else {
            let (p, o) = absorb_captures(l, re_group_one(PRICE_PATTERN@, l), prices, outcomes);
            scan_block(lines, i, j + 1, p, o)
        }
    }
}

/// A block read from line `j` ends at or after `j`, and within the text.
pub proof fn lemma_scan_block_ends_after(
    lines: Seq<Seq<char>>,
    i: int,
    j: int,
    prices: Seq<Seq<char>>,
    outcomes: Seq<Seq<char>>,
)
    requires
        0 <= j <= lines.len(),
    ensures
        j <= scan_block(lines, i, j, prices, outcomes).3 <= lines.len(),
    decreases lines.len() - j,
{
    if !(j < 0 || j >= lines.len() || j >= i + 8) {
        let l = lines[j];
        if !re_is_match(STATUS_PATTERN@, l) && !(looks_like_title(l) && !re_is_match(
            PRICE_PATTERN@,
            l,
        )) {
            let (p, o) = absorb_captures(l, re_group_one(PRICE_PATTERN@, l), prices, outcomes);
            lemma_scan_block_ends_after(lines, i, j + 1, p, o);
        }
    }
}

/// `markets_from_text` on the lines from `i` on: each title line followed by a
/// block holding at least one price gives a market, and reading resumes after
/// that block.
pub open spec fn text_markets_from(lines: Seq<Seq<char>>, i: int) -> Seq<MarketView>
    decreases lines.len() - i,
{
    if i < 0 || i >= lines.len() {
        seq![]
    } else if looks_like_title(lines[i]) {
        let b = scan_block(lines, i, i + 1, seq![], seq![]);
        if b.0.len() > 0 {
            proof {
                lemma_scan_block_ends_after(lines, i, i + 1, seq![], seq![]);
            }
            seq![MarketView { title: lines[i], prices: b.0, status: b.2, outcomes: b.1 }]
                + text_markets_from(lines, b.3)
        } else {
            text_markets_from(lines, i + 1)
        }
    } else {
        text_markets_from(lines, i + 1)
    }
}

/// `markets_from_text`: markets read from the trimmed, non-blank lines of a page's text.
pub open spec fn text_markets(text: Seq<char>) -> Seq<MarketView> {
    text_markets_from(nonblank_lines(text), 0)
}


/// Whether `v` holds the text `s`.
pub fn holds_text(v: &Vec<String>, s: &str) -> (r: bool)
    ensures
        r == string_views(v@).contains(s@),
{
    let t = chars_of(s);
    let mut i: usize = 0;
    while i < v.len()
        invariant
            i <= v@.len(),
            t@ == s@,
            forall|k: int| 0 <= k < i ==> string_views(v@)[k] != s@,
        decreases v.len() - i,
    {
        if crate::text::chars_eq(&chars_of(v[i].as_str()), &t) {
            assert(string_views(v@)[i as int] == s@);
            return true;
        }
        i = i + 1;
    }
    false
}

/// Adds the prices and outcome labels of one line of a block.
fn absorb_line(line: &Vec<char>, prices: &mut Vec<String>, outcomes: &mut Vec<String>)
    ensures
        (string_views(final(prices)@), string_views(final(outcomes)@)) == absorb_captures(
            line@,
            re_group_one(PRICE_PATTERN@, line@),
            string_views(old(prices)@),
            string_views(old(outcomes)@),
        ),
{
    let text = string_of(line);
    let caps = regex_group_one(PRICE_PATTERN, text.as_str());
    let ghost gs = group_views(caps@);
    let ghost p0 = string_views(prices@);
    let ghost o0 = string_views(outcomes@);
    let lower = to_ascii_lower(line);
    let says_yes = contains_chars(&lower, &chars_of("yes"));
    let says_no = contains_chars(&lower, &chars_of("no"));
    let mut k: usize = 0;
    assert(gs.take(0) =~= Seq::<Option<(nat, Seq<char>)>>::empty());
    while k < caps.len()
        invariant
            k <= caps@.len(),
            gs == group_views(caps@),
            gs == re_group_one(PRICE_PATTERN@, line@),
            lower@ == ascii_lower(line@),
            says_yes == contains(lower@, "yes"@),
            says_no == contains(lower@, "no"@),
            (string_views(prices@), string_views(outcomes@)) == absorb_captures(
                line@,
                gs.take(k as int),
                p0,
                o0,
            ),
        decreases caps.len() - k,
    {
        assert(gs.take(k + 1).drop_last() =~= gs.take(k as int));
        assert(gs.take(k + 1).last() == gs[k as int]);
        let ghost pb = string_views(prices@);
        let ghost ob = string_views(outcomes@);
        match &caps[k] {
            Some(c) => {
                if !holds_text(prices, c.1.as_str()) {
                    prices.push(c.1.clone());
                    assert(string_views(prices@) =~= pb.push(c.1@));
                }
            },
            None => {},
        }
        let ghost ob1 = string_views(outcomes@);
        if says_yes && !holds_text(outcomes, "Yes") {
            outcomes.push("Yes".to_owned());
            assert(string_views(outcomes@) =~= ob1.push("Yes"@));
        }
        let ghost ob2 = string_views(outcomes@);
        if says_no && !holds_text(outcomes, "No") {
            outcomes.push("No".to_owned());
            assert(string_views(outcomes@) =~= ob2.push("No"@));
        }
        k = k + 1;
    }
    assert(gs.take(caps@.len() as int) =~= gs);
}

/// A block read as mathematical values.
pub open spec fn block_of(b: (Vec<String>, Vec<String>, Option<String>, usize)) -> (
    Seq<Seq<char>>,
    Seq<Seq<char>>,
    Option<Seq<char>>,
    int,
) {
    (string_views(b.0@), string_views(b.1@), crate::scrape::opt_view(b.2), b.3 as int)
}

/// Reads the block under the title at line `i`.
fn read_block(lines: &Vec<Vec<char>>, i: usize) -> (r: (Vec<String>, Vec<String>, Option<String>, usize))
    requires
        i < lines@.len(),
    ensures
        block_of(r) == scan_block(views(lines@), i as int, i + 1, seq![], seq![]),
{
    let n = lines.len();
    let ghost ls = views(lines@);
    let ghost goal = scan_block(ls, i as int, i + 1, seq![], seq![]);
    let mut prices: Vec<String> = Vec::new();
    let mut outcomes: Vec<String> = Vec::new();
    assert(string_views(prices@) =~= Seq::<Seq<char>>::empty());
    assert(string_views(outcomes@) =~= Seq::<Seq<char>>::empty());
    let mut j: usize = i + 1;
    loop
        invariant
            i < j <= lines@.len(),
            ls == views(lines@),
            ls.len() == lines@.len(),
            goal == scan_block(ls, i as int, i + 1, seq![], seq![]),
            scan_block(ls, i as int, j as int, string_views(prices@), string_views(outcomes@)) == goal,
        decreases lines.len() - j,
    {
        if j >= lines.len() || j - i >= 8 {
            return (prices, outcomes, None, j);
        }
        let l = &lines[j];
        assert(ls[j as int] == l@);
        let text = string_of(l);
        if regex_is_match(STATUS_PATTERN, text.as_str()) {
            return (prices, outcomes, Some(to_lowercase(text.as_str())), j + 1);
        }
        if is_title_like(l) && !regex_is_match(PRICE_PATTERN, text.as_str()) {
            return (prices, outcomes, None, j);
        }
        absorb_line(l, &mut prices, &mut outcomes);
        j = j + 1;
    }
}

/// `markets_from_text`: markets read from the lines of a page's visible text.
pub fn markets_from_text(text: &str) -> (r: Vec<MarketEntry>)
    ensures
        market_views(r@) == text_markets(text@),
{
    let lines = split_nonblank_lines(&chars_of(text));
    let ghost ls = views(lines@);
    let mut markets: Vec<MarketEntry> = Vec::new();
    let mut i: usize = 0;
    assert(market_views(markets@) =~= Seq::<MarketView>::empty());
    assert(market_views(markets@) + text_markets_from(ls, 0) =~= text_markets(text@));
    while i < lines.len()
        invariant
            i <= lines@.len(),
            ls == views(lines@),
            ls == nonblank_lines(text@),
            market_views(markets@) + text_markets_from(ls, i as int) == text_markets(text@),
        decreases lines.len() - i,
    {
        let ghost before = market_views(markets@);
        let mut next = i + 1;
        if is_title_like(&lines[i]) {
            let (p, o, st, j) = read_block(&lines, i);
            proof {
                lemma_scan_block_ends_after(ls, i as int, i + 1, seq![], seq![]);
            }
            if p.len() > 0 {
                let m = MarketEntry { title: string_of(&lines[i]), prices: p, status: st, outcomes: o };
                markets.push(m);
                assert(market_views(markets@) =~= before.push(m@));
                assert(seq![m@] + text_markets_from(ls, j as int) == text_markets_from(ls, i as int));
                assert(market_views(markets@) + text_markets_from(ls, j as int) =~= before + (seq![m@]
                    + text_markets_from(ls, j as int)));
                next = j;
            }
        }
        i = next;
    }
    assert(market_views(markets@) + text_markets_from(ls, i as int) =~= market_views(markets@));
    markets
}


/// The texts of the captures that took part, in order.
pub open spec fn group_texts(caps: Seq<Option<(nat, Seq<char>)>>) -> Seq<Seq<char>>
    decreases caps.len(),
{
    if caps.len() == 0 {
        seq![]
    } else {
        let rest = group_texts(caps.drop_last());
        match caps.last() {
            Some(c) => rest.push(c.1),
            None => rest,
        }
    }
}

/// At most the first four of `ps`.
pub open spec fn first_four(ps: Seq<Seq<char>>) -> Seq<Seq<char>> {
    if ps.len() > 4 {
        ps.take(4)
    } else {
        ps
    }
}

/// `start + 400`, saturating at `usize::MAX`.
pub open spec fn window_end(start: nat) -> nat {
    if start + 400 > usize::MAX {
        usize::MAX as nat
    } else {
        start + 400
    }
}

/// The market that a heading capture gives, if any: its text with tags
/// stripped and trimmed must look like a title (or be a question), and the 400
/// bytes of HTML after it must hold a price; the first four such prices count.
pub open spec fn heading_market(html: Seq<char>, cap: Option<(nat, Seq<char>)>) -> Option<MarketView> {
    match cap {
        Some(c) => {
            let title = trim(re_replace_all(TAG_PATTERN@, c.1, ""@));
            if !looks_like_title(title) && !(title.len() > 0 && title.last() == '?') {
                None
            } else {
                let window = match crate::text::byte_slice(html, c.0, window_end(c.0)) {
                    Some(w) => w,
                    None => seq![],
                };
                let prices = first_four(group_texts(re_group_one(NEAR_PRICE_PATTERN@, window)));
                if prices.len() > 0 {
                    Some(MarketView { title, prices, status: None, outcomes: seq![] })
                } else {
                    None
                }
            }
        },
        None => None,
    }
}

/// The markets that the heading captures `caps` give, in order.
pub open spec fn heading_markets(html: Seq<char>, caps: Seq<Option<(nat, Seq<char>)>>) -> Seq<
    MarketView,
>
    decreases caps.len(),
{
    if caps.len() == 0 {
        seq![]
    } else {
        let rest = heading_markets(html, caps.drop_last());
        match heading_market(html, caps.last()) {
            Some(m) => rest.push(m),
            None => rest,
        }
    }
}

/// `markets_from_html_titles`: markets read from market headings and the prices after them.
pub open spec fn html_title_markets(html: Seq<char>) -> Seq<MarketView> {
    heading_markets(html, re_group_one(TITLE_PATTERN@, html))
}

/// The first four texts of the captures that took part.
fn first_four_texts(caps: &Vec<Option<(usize, String)>>) -> (r: Vec<String>)
    ensures
        string_views(r@) == first_four(group_texts(group_views(caps@))),
{
    let ghost gs = group_views(caps@);
    let mut r: Vec<String> = Vec::new();
    let mut k: usize = 0;
    assert(gs.take(0) =~= Seq::<Option<(nat, Seq<char>)>>::empty());
    assert(string_views(r@) =~= Seq::<Seq<char>>::empty());
    while k < caps.len()
        invariant
            k <= caps@.len(),
            gs == group_views(caps@),
            string_views(r@) == first_four(group_texts(gs.take(k as int))),
            r@.len() <= 4,
        decreases caps.len() - k,
    {
        assert(gs.take(k + 1).drop_last() =~= gs.take(k as int));
        assert(gs.take(k + 1).last() == gs[k as int]);
        let ghost all = group_texts(gs.take(k as int));
        let ghost before = string_views(r@);
        match &caps[k] {
            Some(c) => {
                if r.len() < 4 {
                    r.push(c.1.clone());
                    assert(string_views(r@) =~= before.push(c.1@));
                    assert(first_four(all.push(c.1@)) =~= before.push(c.1@));
                } else {
                    assert(first_four(all.push(c.1@)) =~= first_four(all));
                }
            },
            None => {},
        }
        k = k + 1;
    }
    assert(gs.take(caps@.len() as int) =~= gs);
    r
}

/// The market that a heading capture gives, if any.
fn market_from_heading(html: &Vec<char>, cap: &Option<(usize, String)>) -> (r: Option<MarketEntry>)
    ensures
        crate::market_json::opt_market_view(r) == heading_market(
            html@,
            match cap {
                Some(p) => Some((p.0 as nat, p.1@)),
                None => None,
            },
        ),
{
    let c = match cap {
        Some(c) => c,
        None => {
            return None;
        },
    };
    let stripped = regex_replace_all(TAG_PATTERN, c.1.as_str(), "");
    let title = crate::text::trim_chars(&chars_of(stripped.as_str()));
    let question = title.len() > 0 && title[title.len() - 1] == '?';
    if !is_title_like(&title) && !question {
        return None;
    }
    let end = if c.0 > usize::MAX - 400 {
        usize::MAX
    } else {
        c.0 + 400
    };
    let window = match crate::text::slice_bytes(html, c.0, end) {
        Some(w) => w,
        None => Vec::new(),
    };
    let near = regex_group_one(NEAR_PRICE_PATTERN, string_of(&window).as_str());
    let prices = first_four_texts(&near);
    if prices.len() == 0 {
        return None;
    }
    let outcomes: Vec<String> = Vec::new();
    let m = MarketEntry { title: string_of(&title), prices, status: None, outcomes };
    assert(m@.outcomes =~= Seq::<Seq<char>>::empty());
    Some(m)
}

/// `markets_from_html_titles`: markets read from market headings in the HTML.
pub fn markets_from_html_titles(html: &str) -> (r: Vec<MarketEntry>)
    ensures
        market_views(r@) == html_title_markets(html@),
{
    let hs = chars_of(html);
    let caps = regex_group_one(TITLE_PATTERN, html);
    let ghost gs = group_views(caps@);
    let mut r: Vec<MarketEntry> = Vec::new();
    let mut k: usize = 0;
    assert(gs.take(0) =~= Seq::<Option<(nat, Seq<char>)>>::empty());
    assert(market_views(r@) =~= Seq::<MarketView>::empty());
    while k < caps.len()
        invariant
            k <= caps@.len(),
            hs@ == html@,
            gs == group_views(caps@),
            gs == re_group_one(TITLE_PATTERN@, html@),
            market_views(r@) == heading_markets(html@, gs.take(k as int)),
        decreases caps.len() - k,
    {
        assert(gs.take(k + 1).drop_last() =~= gs.take(k as int));
        assert(gs.take(k + 1).last() == gs[k as int]);
        let ghost before = market_views(r@);
        match market_from_heading(&hs, &caps[k]) {
            Some(m) => {
                r.push(m);
                assert(market_views(r@) =~= before.push(m@));
            },
            None => {},
        }
        k = k + 1;
    }
    assert(gs.take(caps@.len() as int) =~= gs);
    r
}

} // verus!
