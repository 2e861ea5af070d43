//! Market entries found in JSON documents: Polymarket Gamma-style market
//! objects, Next.js page state and JSON embedded in `<script>` tags.

use vstd::prelude::*;
use crate::json::{
    as_bool, as_str, contains_member, fact_numeric, has_member, json_parse, member, member_index_from,
    member_ref, or_else, parse_json,
    Json, TextFacts,
};
use crate::pattern::{group_views, re_group_one, regex_group_one};
use crate::scrape::{market_views, opt_view, MarketEntry, MarketView};
use crate::text::{chars_eq, chars_of, string_of, string_views, trim, trim_chars, trim_str, utf8_len, utf8_len_below};

verus! {

/// `json_number_or_string`: a non-blank string (trimmed) or a number's text.
pub open spec fn number_or_string(v: Json) -> Option<Seq<char>> {
    match v {
        Json::Str(s) => if trim(s@).len() == 0 {
            None
        } else {
            Some(trim(s@))
        },
        Json::Number(n) => Some(n@),
        _ => None,
    }
}

/// `is_price_like`: the trimmed text ends in `%`, `¢` or `c`, or reads as a
/// decimal number between 0 and 100.
pub open spec fn price_like(fs: Seq<crate::json::TextFact>, s: Seq<char>) -> bool {
    let t = trim(s);
    t.len() > 0 && (t.last() == '%' || t.last() == '¢' || t.last() == 'c' || fact_numeric(fs, t))
}

/// The JSON document a string value holds, if it holds one.
///
/// A JSON string literal is longer than the string it denotes (it has quotes),
/// so a string never holds a string at least as long as itself; the check on
/// lengths below never rejects a real parse, and it bounds the re-parsing.
pub open spec fn inner_json(s: Seq<char>) -> Option<Json> {
    match json_parse(s) {
        Some(j) => match j {
            Json::Str(t) => if t@.len() < s.len() {
                Some(j)
            } else {
                None
            },
            _ => Some(j),
        },
        None => None,
    }
}

/// Size measure for re-parsing strings: the length of a string value, plus one.
pub open spec fn str_measure(v: Json) -> nat {
    match v {
        Json::Str(s) => s@.len() + 1,
        _ => 0,
    }
}

/// The prices that the items of an array give, in order.
pub open spec fn array_prices(fs: Seq<crate::json::TextFact>, items: Seq<Json>) -> Seq<Seq<char>>
    decreases items.len(),
{
    if items.len() == 0 {
        seq![]
    } else {
        let rest = array_prices(fs, items.drop_last());
        match number_or_string(items.last()) {
            Some(x) => if price_like(fs, x) {
                rest.push(x)
            } else {
                rest
            },
            None => rest,
        }
    }
}

/// `parse_string_or_array_numbers`.
pub open spec fn numbers_of(fs: Seq<crate::json::TextFact>, v: Json) -> Seq<Seq<char>>
    decreases str_measure(v),
{
    match v {
        Json::Str(s) => match inner_json(s@) {
            Some(j) => numbers_of(fs, j),
            None => if price_like(fs, s@) {
                seq![trim(s@)]
            } else {
                seq![]
            },
        },
        Json::Array(items) => array_prices(fs, items@),
        Json::Number(n) => seq![n@],
        _ => seq![],
    }
}

/// The string items of an array, in order.
pub open spec fn array_strings(items: Seq<Json>) -> Seq<Seq<char>>
    decreases items.len(),
{
    if items.len() == 0 {
        seq![]
    } else {
        let rest = array_strings(items.drop_last());
        match items.last() {
            Json::Str(s) => rest.push(s@),
            _ => rest,
        }
    }
}

/// `parse_string_or_array_strings`.
pub open spec fn strings_of(v: Json) -> Seq<Seq<char>>
    decreases str_measure(v),
{
    match v {
        Json::Str(s) => match inner_json(s@) {
            Some(j) => strings_of(j),
            None => seq![s@],
        },
        Json::Array(items) => array_strings(items@),
        _ => seq![],
    }
}

/// The value of an optional member read with `json_number_or_string`.
pub open spec fn number_or_string_of(o: Option<Json>) -> Option<Seq<char>> {
    match o {
        Some(j) => number_or_string(j),
        None => None,
    }
}

/// Zero or one text.
pub open spec fn one_if(o: Option<Seq<char>>) -> Seq<Seq<char>> {
    match o {
        Some(x) => seq![x],
        None => seq![],
    }
}

/// The prices of a market object: `outcomePrices`, else `price`, else
/// `lastTradePrice`, else the yes and no prices.
pub open spec fn object_prices(fs: Seq<crate::json::TextFact>, ms: Seq<(String, Json)>) -> Seq<Seq<char>> {
    let p0 = match member(ms, "outcomePrices"@) {
        Some(op) => numbers_of(fs, op),
        None => seq![],
    };
    let p1 = if p0.len() > 0 {
        p0
    } else {
        one_if(number_or_string_of(member(ms, "price"@)))
    };
    let p2 = if p1.len() > 0 {
        p1
    } else {
        one_if(number_or_string_of(member(ms, "lastTradePrice"@)))
    };
    if p2.len() > 0 {
        p2
    } else {
        one_if(number_or_string_of(or_else(member(ms, "yesPrice"@), member(ms, "yes"@)))) + one_if(
            number_or_string_of(or_else(member(ms, "noPrice"@), member(ms, "no"@))),
        )
    }
}

/// `market_status_from_object`.
pub open spec fn object_status(ms: Seq<(String, Json)>) -> Option<Seq<char>> {
    match as_str(member(ms, "status"@)) {
        Some(s) => Some(s),
        None => if as_bool(member(ms, "closed"@)) == Some(true) {
            Some("closed"@)
        } else if as_bool(member(ms, "active"@)) == Some(true) {
            Some("active"@)
        } else if as_bool(member(ms, "active"@)) == Some(false) {
            Some("inactive"@)
        } else {
            None
        },
    }
}

/// The title of a market object: `question`, else `title`, else `name` (the
/// first that is present), which must be a string of at least 8 bytes once trimmed.
pub open spec fn object_title(ms: Seq<(String, Json)>) -> Option<Seq<char>> {
    match as_str(or_else(member(ms, "question"@), or_else(member(ms, "title"@), member(ms, "name"@)))) {
        Some(t) => if utf8_len(trim(t)) >= 8 {
            Some(trim(t))
        } else {
            None
        },
        None => None,
    }
}

/// `market_from_object`.
pub open spec fn market_of(fs: Seq<crate::json::TextFact>, v: Json) -> Option<MarketView> {
    match v {
        Json::Object(m) => {
            let ms = m@;
            match object_title(ms) {
                Some(title) => {
                    let prices = object_prices(fs, ms);
                    let looks_like_market = has_member(ms, "outcomePrices"@) || has_member(
                        ms,
                        "conditionId"@,
                    ) || has_member(ms, "slug"@) || has_member(ms, "active"@) || has_member(
                        ms,
                        "closed"@,
                    ) || prices.len() > 0;
                    if looks_like_market {
                        Some(
                            MarketView {
                                title,
                                prices,
                                status: object_status(ms),
                                outcomes: match member(ms, "outcomes"@) {
                                    Some(oc) => strings_of(oc),
                                    None => seq![],
                                },
                            },
                        )
                    } else {
                        None
                    }
                },
                None => None,
            }
        },
        _ => None,
    }
}

/// The market objects among the items of an array, in order.
pub open spec fn array_markets(fs: Seq<crate::json::TextFact>, items: Seq<Json>) -> Seq<MarketView>
    decreases items.len(),
{
    if items.len() == 0 {
        seq![]
    } else {
        let rest = array_markets(fs, items.drop_last());
        match market_of(fs, items.last()) {
            Some(m) => rest.push(m),
            None => rest,
        }
    }
}


/// `json_number_or_string`.
pub fn json_number_or_string(v: &Json) -> (r: Option<String>)
    ensures
        opt_view(r) == number_or_string(*v),
{
    match v {
        Json::Str(s) => {
            let t = trim_str(s.as_str());
            if t.as_str().is_empty() {
                None
            } else {
                Some(t)
            }
        },
        Json::Number(n) => Some(n.clone()),
        _ => None,
    }
}

/// `is_price_like`.
pub fn is_price_like(s: &str, facts: &TextFacts) -> (r: bool)
    ensures
        r == price_like(facts.facts@, s@),
{
    let t = trim_chars(&chars_of(s));
    if t.len() == 0 {
        return false;
    }
    let last = t[t.len() - 1];
    if last == '%' || last == '¢' || last == 'c' {
        return true;
    }
    facts.is_numeric_price(&string_of(&t))
}

/// The JSON document that the string value `s` holds, if any.
fn inner_json_of(s: &String) -> (r: Option<Json>)
    ensures
        r == inner_json(s@),
{
    match parse_json(s.as_str()) {
        Some(j) => {
            let shorter = match &j {
                Json::Str(t) => chars_of(t.as_str()).len() < chars_of(s.as_str()).len(),
                _ => true,
            };
            if shorter {
                Some(j)
            } else {
                None
            }
        },
        None => None,
    }
}

/// The prices that the items of an array give, in order.
fn array_numbers(items: &Vec<Json>, facts: &TextFacts) -> (r: Vec<String>)
    ensures
        string_views(r@) == array_prices(facts.facts@, items@),
{
    let mut r: Vec<String> = Vec::new();
    let mut i: usize = 0;
    assert(items@.take(0) =~= Seq::<Json>::empty());
    assert(string_views(r@) =~= Seq::<Seq<char>>::empty());
    while i < items.len()
        invariant
            i <= items@.len(),
            string_views(r@) == array_prices(facts.facts@, items@.take(i as int)),
        decreases items.len() - i,
    {
        assert(items@.take(i + 1).drop_last() =~= items@.take(i as int));
        assert(items@.take(i + 1).last() == items@[i as int]);
        let ghost before = string_views(r@);
        match json_number_or_string(&items[i]) {
            Some(x) => {
                if is_price_like(x.as_str(), facts) {
                    r.push(x);
                    assert(string_views(r@) =~= before.push(x@));
                }
            },
            None => {},
        }
        i = i + 1;
    }
    assert(items@.take(i as int) =~= items@);
    r
}

/// `parse_string_or_array_numbers`.
pub fn parse_string_or_array_numbers(v: &Json, facts: &TextFacts) -> (r: Vec<String>)
    ensures
        string_views(r@) == numbers_of(facts.facts@, *v),
    decreases str_measure(*v),
{
    match v {
        Json::Str(s) => match inner_json_of(s) {
            Some(j) => parse_string_or_array_numbers(&j, facts),
            None => {
                if is_price_like(s.as_str(), facts) {
                    let r = vec![trim_str(s.as_str())];
                    assert(string_views(r@) =~= seq![trim(s@)]);
                    r
                } else {
                    let r: Vec<String> = Vec::new();
                    assert(string_views(r@) =~= Seq::<Seq<char>>::empty());
                    r
                }
            },
        },
        Json::Array(items) => array_numbers(items, facts),
        Json::Number(n) => {
            let r = vec![n.clone()];
            assert(string_views(r@) =~= seq![n@]);
            r
        },
        _ => {
            let r: Vec<String> = Vec::new();
            assert(string_views(r@) =~= Seq::<Seq<char>>::empty());
            r
        },
    }
}

/// The string items of an array, in order.
fn array_string_items(items: &Vec<Json>) -> (r: Vec<String>)
    ensures
        string_views(r@) == array_strings(items@),
{
    let mut r: Vec<String> = Vec::new();
    let mut i: usize = 0;
    assert(items@.take(0) =~= Seq::<Json>::empty());
    assert(string_views(r@) =~= Seq::<Seq<char>>::empty());
    while i < items.len()
        invariant
            i <= items@.len(),
            string_views(r@) == array_strings(items@.take(i as int)),
        decreases items.len() - i,
    {
        assert(items@.take(i + 1).drop_last() =~= items@.take(i as int));
        assert(items@.take(i + 1).last() == items@[i as int]);
        let ghost before = string_views(r@);
        match &items[i] {
            Json::Str(s) => {
                r.push(s.clone());
                assert(string_views(r@) =~= before.push(s@));
            },
            _ => {},
        }
        i = i + 1;
    }
    assert(items@.take(i as int) =~= items@);
    r
}

/// `parse_string_or_array_strings`.
pub fn parse_string_or_array_strings(v: &Json) -> (r: Vec<String>)
    ensures
        string_views(r@) == strings_of(*v),
    decreases str_measure(*v),
{
    match v {
        Json::Str(s) => match inner_json_of(s) {
            Some(j) => parse_string_or_array_strings(&j),
            None => {
                let r = vec![s.clone()];
                assert(string_views(r@) =~= seq![s@]);
                r
            },
        },
        Json::Array(items) => array_string_items(items),
        _ => {
            let r: Vec<String> = Vec::new();
            assert(string_views(r@) =~= Seq::<Seq<char>>::empty());
            r
        },
    }
}

/// An optional reference read as an optional value.
pub open spec fn deref_opt(o: Option<&Json>) -> Option<Json> {
    match o {
        Some(j) => Some(*j),
        None => None,
    }
}

/// `json_number_or_string` on an optional member.
fn number_or_string_opt(o: Option<&Json>) -> (r: Option<String>)
    ensures
        opt_view(r) == number_or_string_of(deref_opt(o)),
{
    match o {
        Some(j) => json_number_or_string(j),
        None => None,
    }
}

/// `a.or_else(|| b)` on optional members.
fn first_present<'a>(a: Option<&'a Json>, b: Option<&'a Json>) -> (r: Option<&'a Json>)
    ensures
        deref_opt(r) == or_else(deref_opt(a), deref_opt(b)),
{
    match a {
        Some(j) => Some(j),
        None => b,
    }
}

/// Appends zero or one text.
fn push_opt(v: &mut Vec<String>, o: Option<String>)
    ensures
        string_views(final(v)@) == string_views(old(v)@) + one_if(opt_view(o)),
{
    let ghost before = string_views(v@);
    match o {
        Some(x) => {
            v.push(x);
            assert(string_views(v@) =~= before + one_if(opt_view(Some(x))));
        },
        None => {
            assert(string_views(v@) =~= before + one_if(opt_view(o)));
        },
    }
}

/// The prices of a market object.
fn market_prices(ms: &Vec<(String, Json)>, facts: &TextFacts) -> (r: Vec<String>)
    ensures
        string_views(r@) == object_prices(facts.facts@, ms@),
{
    let mut prices = match member_ref(ms, "outcomePrices") {
        Some(op) => parse_string_or_array_numbers(op, facts),
        None => {
            let r: Vec<String> = Vec::new();
            assert(string_views(r@) =~= Seq::<Seq<char>>::empty());
            r
        },
    };
    if prices.len() == 0 {
        assert(string_views(prices@) =~= Seq::<Seq<char>>::empty());
        push_opt(&mut prices, number_or_string_opt(member_ref(ms, "price")));
        assert(string_views(prices@) =~= one_if(number_or_string_of(member(ms@, "price"@))));
    }
    if prices.len() == 0 {
        assert(string_views(prices@) =~= Seq::<Seq<char>>::empty());
        push_opt(&mut prices, number_or_string_opt(member_ref(ms, "lastTradePrice")));
        assert(string_views(prices@) =~= one_if(number_or_string_of(member(ms@, "lastTradePrice"@))));
    }
    if prices.len() == 0 {
        assert(string_views(prices@) =~= Seq::<Seq<char>>::empty());
        let yes = first_present(member_ref(ms, "yesPrice"), member_ref(ms, "yes"));
        push_opt(&mut prices, number_or_string_opt(yes));
        let no = first_present(member_ref(ms, "noPrice"), member_ref(ms, "no"));
        push_opt(&mut prices, number_or_string_opt(no));
        assert(string_views(prices@) =~= Seq::<Seq<char>>::empty() + one_if(
            number_or_string_of(or_else(member(ms@, "yesPrice"@), member(ms@, "yes"@))),
        ) + one_if(number_or_string_of(or_else(member(ms@, "noPrice"@), member(ms@, "no"@)))));
    }
    prices
}

/// Whether an optional member is the boolean `b`.
fn member_is_bool(ms: &Vec<(String, Json)>, key: &str, b: bool) -> (r: bool)
    ensures
        r == (as_bool(member(ms@, key@)) == Some(b)),
{
    match member_ref(ms, key) {
        Some(Json::Bool(x)) => *x == b,
        _ => false,
    }
}

/// `market_status_from_object`.
pub fn market_status_from_object(ms: &Vec<(String, Json)>) -> (r: Option<String>)
    ensures
        opt_view(r) == object_status(ms@),
{
    match member_ref(ms, "status") {
        Some(Json::Str(s)) => {
            return Some(s.clone());
        },
        _ => {},
    }
    if member_is_bool(ms, "closed", true) {
        return Some("closed".to_owned());
    }
    if member_is_bool(ms, "active", true) {
        return Some("active".to_owned());
    }
    if member_is_bool(ms, "active", false) {
        return Some("inactive".to_owned());
    }
    None
}

/// An optional market entry as an optional view.
pub open spec fn opt_market_view(o: Option<MarketEntry>) -> Option<MarketView> {
    match o {
        Some(m) => Some(m@),
        None => None,
    }
}

/// `market_from_object`: the market entry that a JSON object describes, if any.
pub fn market_from_object(v: &Json, facts: &TextFacts) -> (r: Option<MarketEntry>)
    ensures
        opt_market_view(r) == market_of(facts.facts@, *v),
{
    let ms = match v {
        Json::Object(m) => m,
        _ => {
            return None;
        },
    };
    let named = first_present(member_ref(ms, "question"), first_present(member_ref(ms, "title"), member_ref(ms, "name")));
    let title = match named {
        Some(Json::Str(t)) => trim_str(t.as_str()),
        _ => {
            return None;
        },
    };
    if utf8_len_below(&chars_of(title.as_str()), 8) {
        return None;
    }
    let prices = market_prices(ms, facts);
    let looks_like_market = contains_member(ms, "outcomePrices") || contains_member(ms, "conditionId")
        || contains_member(ms, "slug") || contains_member(ms, "active") || contains_member(ms, "closed")
        || prices.len() > 0;
    if !looks_like_market {
        return None;
    }
    let status = market_status_from_object(ms);
    let outcomes = match member_ref(ms, "outcomes") {
        Some(oc) => parse_string_or_array_strings(oc),
        None => {
            let r: Vec<String> = Vec::new();
            assert(string_views(r@) =~= Seq::<Seq<char>>::empty());
            r
        },
    };
    let m = MarketEntry { title, prices, status, outcomes };
    assert(m@ =~= market_of(facts.facts@, *v)->0);
    Some(m)
}

/// The market objects among the items of an array, in order.
fn markets_in_array(items: &Vec<Json>, facts: &TextFacts) -> (r: Vec<MarketEntry>)
    ensures
        market_views(r@) == array_markets(facts.facts@, items@),
{
    let mut r: Vec<MarketEntry> = Vec::new();
    let mut i: usize = 0;
    assert(items@.take(0) =~= Seq::<Json>::empty());
    assert(market_views(r@) =~= Seq::<MarketView>::empty());
    while i < items.len()
        invariant
            i <= items@.len(),
            market_views(r@) == array_markets(facts.facts@, items@.take(i as int)),
        decreases items.len() - i,
    {
        assert(items@.take(i + 1).drop_last() =~= items@.take(i as int));
        assert(items@.take(i + 1).last() == items@[i as int]);
        let ghost before = market_views(r@);
        match market_from_object(&items[i], facts) {
            Some(m) => {
                r.push(m);
                assert(market_views(r@) =~= before.push(m@));
            },
            None => {},
        }
        i = i + 1;
    }
    assert(items@.take(i as int) =~= items@);
    r
}

/// Keys under which application state commonly nests market lists.
pub open spec fn is_nested_key(k: Seq<char>) -> bool {
    ||| k == "markets"@
    ||| k == "data"@
    ||| k == "props"@
    ||| k == "pageProps"@
    ||| k == "queries"@
    ||| k == "events"@
}

/// `collect_markets_from_value`: the markets found in `v` appended to `acc`,
/// where `depth` is how deep `v` lies in the document.
///
/// An array whose items include market objects contributes those; other arrays
/// are searched item by item. An object contributes itself when it is a market,
/// then what lies under the nested-state keys, then (near the top of the
/// document) what lies under its other array or object members. The search stops
/// below depth 12 and once more than 200 markets are found.
pub open spec fn collected(
    fs: Seq<crate::json::TextFact>,
    v: Json,
    acc: Seq<MarketView>,
    depth: nat,
) -> Seq<MarketView>
    decreases v, 0int,
{
    if depth > 12 || acc.len() > 200 {
        acc
    } else {
        match v {
            Json::Array(items) => {
                let found = array_markets(fs, items@);
                if found.len() > 0 {
                    acc + found
                } else {
                    collected_items(fs, items@, 0, acc, depth + 1)
                }
            },
            Json::Object(m) => {
                let a0 = match market_of(fs, v) {
                    Some(x) => acc.push(x),
                    None => acc,
                };
                let a1 = collected_key(fs, m@, "markets"@, 0, a0, depth + 1);
                let a2 = collected_key(fs, m@, "data"@, 0, a1, depth + 1);
                let a3 = collected_key(fs, m@, "props"@, 0, a2, depth + 1);
                let a4 = collected_key(fs, m@, "pageProps"@, 0, a3, depth + 1);
                let a5 = collected_key(fs, m@, "queries"@, 0, a4, depth + 1);
                let a6 = collected_key(fs, m@, "events"@, 0, a5, depth + 1);
                if depth < 4 {
                    collected_rest(fs, m@, 0, a6, depth + 1)
                } else {
                    a6
                }
            },
            _ => acc,
        }
    }
}

/// The items of an array from position `i` on, searched in turn.
pub open spec fn collected_items(
    fs: Seq<crate::json::TextFact>,
    items: Seq<Json>,
    i: int,
    acc: Seq<MarketView>,
    depth: nat,
) -> Seq<MarketView>
    decreases items, items.len() - i,
{
    if i < 0 || i >= items.len() {
        acc
    } else {
        collected_items(fs, items, i + 1, collected(fs, items[i], acc, depth), depth)
    }
}

/// The first member named `key` at or after position `i`, searched (`Map::get`).
pub open spec fn collected_key(
    fs: Seq<crate::json::TextFact>,
    ms: Seq<(String, Json)>,
    key: Seq<char>,
    i: int,
    acc: Seq<MarketView>,
    depth: nat,
) -> Seq<MarketView>
    decreases ms, ms.len() - i,
{
    if i < 0 || i >= ms.len() {
        acc
    } else if ms[i].0@ == key {
        collected(fs, ms[i].1, acc, depth)
    } else {
        collected_key(fs, ms, key, i + 1, acc, depth)
    }
}

/// The array and object members other than the nested-state keys, from
/// position `i` on, searched in turn.
pub open spec fn collected_rest(
    fs: Seq<crate::json::TextFact>,
    ms: Seq<(String, Json)>,
    i: int,
    acc: Seq<MarketView>,
    depth: nat,
) -> Seq<MarketView>
    decreases ms, ms.len() - i,
{
    if i < 0 || i >= ms.len() {
        acc
    } else {
        let next = if !is_nested_key(ms[i].0@) && (ms[i].1 is Array || ms[i].1 is Object) {
            collected(fs, ms[i].1, acc, depth)
        } else {
            acc
        };
        collected_rest(fs, ms, i + 1, next, depth)
    }
}


/// Market views of two lists, one after the other.
pub proof fn lemma_market_views_append(a: Seq<MarketEntry>, b: Seq<MarketEntry>)
    ensures
        market_views(a + b) == market_views(a) + market_views(b),
{
    assert(market_views(a + b) =~= market_views(a) + market_views(b));
}

/// Searching for the first member named `key` from position `i` searches the
/// member that `Map::get` finds.
proof fn lemma_collected_key(
    fs: Seq<crate::json::TextFact>,
    ms: Seq<(String, Json)>,
    key: Seq<char>,
    i: int,
    acc: Seq<MarketView>,
    depth: nat,
)
    requires
        0 <= i <= ms.len(),
    ensures
        collected_key(fs, ms, key, i, acc, depth) == (if member_index_from(ms, key, i) >= 0 {
            collected(fs, ms[member_index_from(ms, key, i)].1, acc, depth)
        } else {
            acc
        }),
    decreases ms.len() - i,
{
    if i < ms.len() && ms[i].0@ != key {
        lemma_collected_key(fs, ms, key, i + 1, acc, depth);
    }
}

/// Whether `k` is one of the nested-state keys.
fn nested_key(k: &String) -> (r: bool)
    ensures
        r == is_nested_key(k@),
{
    let c = chars_of(k.as_str());
    chars_eq(&c, &chars_of("markets")) || chars_eq(&c, &chars_of("data")) || chars_eq(
        &c,
        &chars_of("props"),
    ) || chars_eq(&c, &chars_of("pageProps")) || chars_eq(&c, &chars_of("queries")) || chars_eq(
        &c,
        &chars_of("events"),
    )
}

/// Searches the member `key` of an object (`Map::get`), if present.
fn collect_from_member(
    ms: &Vec<(String, Json)>,
    key: &str,
    out: &mut Vec<MarketEntry>,
    depth: usize,
    facts: &TextFacts,
)
    ensures
        market_views(final(out)@) == collected_key(
            facts.facts@,
            ms@,
            key@,
            0,
            market_views(old(out)@),
            depth as nat,
        ),
    decreases ms@, 1int,
{
    proof {
        lemma_collected_key(facts.facts@, ms@, key@, 0, market_views(out@), depth as nat);
        crate::json::lemma_member_index_from(ms@, key@, 0);
    }
    match crate::json::find_member(ms, key) {
        Some(j) => collect_markets_from_value(&ms[j].1, out, depth, facts),
        None => {},
    }
}

/// Searches the items of an array from position `i` on, in turn.
fn collect_from_items(
    items: &Vec<Json>,
    i: usize,
    out: &mut Vec<MarketEntry>,
    depth: usize,
    facts: &TextFacts,
)
    requires
        i <= items@.len(),
    ensures
        market_views(final(out)@) == collected_items(
            facts.facts@,
            items@,
            i as int,
            market_views(old(out)@),
            depth as nat,
        ),
    decreases items@, items@.len() - i,
{
    if i < items.len() {
        collect_markets_from_value(&items[i], out, depth, facts);
        collect_from_items(items, i + 1, out, depth, facts);
    }
}

/// Searches the array and object members other than the nested-state keys,
/// from position `i` on, in turn.
fn collect_from_members(
    ms: &Vec<(String, Json)>,
    i: usize,
    out: &mut Vec<MarketEntry>,
    depth: usize,
    facts: &TextFacts,
)
    requires
        i <= ms@.len(),
    ensures
        market_views(final(out)@) == collected_rest(
            facts.facts@,
            ms@,
            i as int,
            market_views(old(out)@),
            depth as nat,
        ),
    decreases ms@, ms@.len() - i,
{
    if i < ms.len() {
        let is_container = match &ms[i].1 {
            Json::Array(_) => true,
            Json::Object(_) => true,
            _ => false,
        };
        if !nested_key(&ms[i].0) && is_container {
            collect_markets_from_value(&ms[i].1, out, depth, facts);
        }
        collect_from_members(ms, i + 1, out, depth, facts);
    }
}

/// `collect_markets_from_value`: appends to `out` the markets found in `v`,
/// which lies `depth` levels deep in its document.
pub fn collect_markets_from_value(
    v: &Json,
    out: &mut Vec<MarketEntry>,
    depth: usize,
    facts: &TextFacts,
)
    ensures
        market_views(final(out)@) == collected(
            facts.facts@,
            *v,
            market_views(old(out)@),
            depth as nat,
        ),
    decreases v, 0int,
{
    if depth > 12 || out.len() > 200 {
        return;
    }
    match v {
        Json::Array(items) => {
            let mut found = markets_in_array(items, facts);
            if found.len() > 0 {
                proof {
                    lemma_market_views_append(out@, found@);
                }
                out.append(&mut found);
                return;
            }
            collect_from_items(items, 0, out, depth + 1, facts);
        },
        Json::Object(m) => {
            let ghost before = market_views(out@);
            match market_from_object(v, facts) {
                Some(x) => {
                    out.push(x);
                    assert(market_views(out@) =~= before.push(x@));
                },
                None => {},
            }
            collect_from_member(m, "markets", out, depth + 1, facts);
            collect_from_member(m, "data", out, depth + 1, facts);
            collect_from_member(m, "props", out, depth + 1, facts);
            collect_from_member(m, "pageProps", out, depth + 1, facts);
            collect_from_member(m, "queries", out, depth + 1, facts);
            collect_from_member(m, "events", out, depth + 1, facts);
            if depth < 4 {
                collect_from_members(m, 0, out, depth + 1, facts);
            }
        },
        _ => {},
    }
}


/// A `<script>` tag of type `application/json` or `application/ld+json`, with its body.
pub const SCRIPT_JSON_PATTERN: &'static str = r#"(?is)<script[^>]*type=["']application/(?:ld\+)?json["'][^>]*>(.*?)</script>"#;

/// `markets_from_json_blob`: the markets found in a JSON text, if it is a JSON document.
pub open spec fn blob_markets(fs: Seq<crate::json::TextFact>, blob: Seq<char>) -> Seq<MarketView> {
    let t = trim(blob);
    if t.len() == 0 {
        seq![]
    } else {
        match json_parse(t) {
            Some(v) => collected(fs, v, seq![], 0),
            None => seq![],
        }
    }
}

/// The markets found in each JSON text, one text after the other.
pub open spec fn blobs_markets(fs: Seq<crate::json::TextFact>, blobs: Seq<Seq<char>>) -> Seq<
    MarketView,
>
    decreases blobs.len(),
{
    if blobs.len() == 0 {
        seq![]
    } else {
        blobs_markets(fs, blobs.drop_last()) + blob_markets(fs, blobs.last())
    }
}

/// The markets found in the bodies of the captured script tags, in order.
pub open spec fn script_markets(
    fs: Seq<crate::json::TextFact>,
    caps: Seq<Option<(nat, Seq<char>)>>,
) -> Seq<MarketView>
    decreases caps.len(),
{
    if caps.len() == 0 {
        seq![]
    } else {
        script_markets(fs, caps.drop_last()) + match caps.last() {
            Some(c) => blob_markets(fs, c.1),
            None => seq![],
        }
    }
}

/// `markets_from_html_embedded_json`: the markets found in a page's JSON script tags.
pub open spec fn embedded_markets(fs: Seq<crate::json::TextFact>, html: Seq<char>) -> Seq<
    MarketView,
> {
    script_markets(fs, re_group_one(SCRIPT_JSON_PATTERN@, html))
}

/// `markets_from_json_blob`: the markets found in a JSON text.
pub fn markets_from_json_blob(blob: &str, facts: &TextFacts) -> (r: Vec<MarketEntry>)
    ensures
        market_views(r@) == blob_markets(facts.facts@, blob@),
{
    let trimmed = trim_str(blob);
    let mut out: Vec<MarketEntry> = Vec::new();
    assert(market_views(out@) =~= Seq::<MarketView>::empty());
    if trimmed.as_str().is_empty() {
        return out;
    }
    match parse_json(trimmed.as_str()) {
        Some(v) => collect_markets_from_value(&v, &mut out, 0, facts),
        None => {},
    }
    out
}

/// `markets_from_html_embedded_json`: the markets found in a page's JSON script tags.
pub fn markets_from_html_embedded_json(html: &str, facts: &TextFacts) -> (r: Vec<MarketEntry>)
    ensures
        market_views(r@) == embedded_markets(facts.facts@, html@),
{
    let caps = regex_group_one(SCRIPT_JSON_PATTERN, html);
    let ghost gs = group_views(caps@);
    let mut r: Vec<MarketEntry> = Vec::new();
    let mut k: usize = 0;
    assert(gs.take(0) =~= Seq::<Option<(nat, Seq<char>)>>::empty());
    assert(market_views(r@) =~= Seq::<MarketView>::empty());
    while k < caps.len()
        invariant
            k <= caps@.len(),
            gs == group_views(caps@),
            gs == re_group_one(SCRIPT_JSON_PATTERN@, html@),
            market_views(r@) == script_markets(facts.facts@, gs.take(k as int)),
        decreases caps.len() - k,
    {
        assert(gs.take(k + 1).drop_last() =~= gs.take(k as int));
        assert(gs.take(k + 1).last() == gs[k as int]);
        match &caps[k] {
            Some(c) => {
                let mut found = markets_from_json_blob(c.1.as_str(), facts);
                proof {
                    lemma_market_views_append(r@, found@);
                }
                r.append(&mut found);
            },
            None => {
                assert(market_views(r@) =~= market_views(r@) + Seq::<MarketView>::empty());
            },
        }
        k = k + 1;
    }
    assert(gs.take(caps@.len() as int) =~= gs);
    r
}

/// The texts of the captures in which the group took part, in order.
pub open spec fn captured_texts(caps: Seq<Option<(nat, Seq<char>)>>) -> Seq<Seq<char>>
    decreases caps.len(),
{
    if caps.len() == 0 {
        seq![]
    } else {
        captured_texts(caps.drop_last()) + match caps.last() {
            Some(c) => seq![c.1],
            None => seq![],
        }
    }
}

/// The bodies of a page's JSON script tags, in order (the texts that
/// `markets_from_html_embedded_json` reads as JSON).
pub fn script_json_bodies(html: &str) -> (r: Vec<String>)
    ensures
        string_views(r@) == captured_texts(re_group_one(SCRIPT_JSON_PATTERN@, html@)),
{
    let caps = regex_group_one(SCRIPT_JSON_PATTERN, html);
    let ghost gs = group_views(caps@);
    let mut r: Vec<String> = Vec::new();
    let mut k: usize = 0;
    assert(gs.take(0) =~= Seq::<Option<(nat, Seq<char>)>>::empty());
    assert(string_views(r@) =~= Seq::<Seq<char>>::empty());
    while k < caps.len()
        invariant
            k <= caps@.len(),
            gs == group_views(caps@),
            gs == re_group_one(SCRIPT_JSON_PATTERN@, html@),
            string_views(r@) == captured_texts(gs.take(k as int)),
        decreases caps.len() - k,
    {
        assert(gs.take(k + 1).drop_last() =~= gs.take(k as int));
        assert(gs.take(k + 1).last() == gs[k as int]);
        let ghost before = string_views(r@);
        match &caps[k] {
            Some(c) => {
                r.push(c.1.clone());
                assert(string_views(r@) =~= before + seq![c.1@]);
            },
            None => {
                assert(string_views(r@) =~= before + Seq::<Seq<char>>::empty());
            },
        }
        k = k + 1;
    }
    assert(gs.take(caps@.len() as int) =~= gs);
    r
}

/// The markets found in each JSON text, one text after the other.
pub fn markets_from_json_blobs(blobs: &Vec<String>, facts: &TextFacts) -> (r: Vec<MarketEntry>)
    ensures
        market_views(r@) == blobs_markets(facts.facts@, string_views(blobs@)),
{
    let ghost bs = string_views(blobs@);
    let mut r: Vec<MarketEntry> = Vec::new();
    let mut k: usize = 0;
    assert(bs.take(0) =~= Seq::<Seq<char>>::empty());
    assert(market_views(r@) =~= Seq::<MarketView>::empty());
    while k < blobs.len()
        invariant
            k <= blobs@.len(),
            bs == string_views(blobs@),
            market_views(r@) == blobs_markets(facts.facts@, bs.take(k as int)),
        decreases blobs.len() - k,
    {
        assert(bs.take(k + 1).drop_last() =~= bs.take(k as int));
        assert(bs.take(k + 1).last() == bs[k as int]);
        let mut found = markets_from_json_blob(blobs[k].as_str(), facts);
        proof {
            lemma_market_views_append(r@, found@);
        }
        r.append(&mut found);
        k = k + 1;
    }
    assert(bs.take(blobs@.len() as int) =~= bs);
    r
}


/// A market's status: the object's `status` string when it has one; otherwise
/// `closed` whenever `closed` is true, whatever `active` holds (a settled market
/// stays closed); otherwise `active` or `inactive` as `active` is true or false;
/// otherwise none. A market entry read from an object carries that status.
pub proof fn law_market_status(fs: Seq<crate::json::TextFact>, m: Vec<(String, Json)>)
    ensures
        as_str(member(m@, "status"@)) matches Some(s) ==> object_status(m@) == Some(s),
        as_str(member(m@, "status"@)) is None && as_bool(member(m@, "closed"@)) == Some(true)
            ==> object_status(m@) == Some("closed"@),
        as_str(member(m@, "status"@)) is None && as_bool(member(m@, "closed"@)) != Some(true) && as_bool(
            member(m@, "active"@),
        ) == Some(true) ==> object_status(m@) == Some("active"@),
        as_str(member(m@, "status"@)) is None && as_bool(member(m@, "closed"@)) != Some(true) && as_bool(
            member(m@, "active"@),
        ) == Some(false) ==> object_status(m@) == Some("inactive"@),
        as_str(member(m@, "status"@)) is None && as_bool(member(m@, "closed"@)) != Some(true) && as_bool(
            member(m@, "active"@),
        ) is None ==> object_status(m@) is None,
        market_of(fs, Json::Object(m)) matches Some(mv) ==> mv.status == object_status(m@),
{
}

} // verus!
