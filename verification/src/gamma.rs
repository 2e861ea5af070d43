//! The text fields of a Polymarket market summary: read from a Gamma API
//! market object, or from a market entry that a browser scrape found.
//!
//! Prices, volume and liquidity are floating-point values and are read by the
//! caller; everything else a summary holds is decided here.

use vstd::prelude::*;
use crate::json::{as_bool, as_str, fact_float_text, get, get_member, json_parse, or_else, parse_json, Json, TextFacts};
use crate::market_json::array_strings;
use crate::polymarket::POLYMARKET_WEB;
use crate::scrape::opt_view;
use crate::text::{chars_of, concat, contains, contains_chars, string_of, string_views, unicode_lower};

verus! {

/// The text fields of a market summary.
#[derive(Debug, Clone)]
pub struct MarketFields {
    pub id: Option<String>,
    pub question: String,
    pub slug: Option<String>,
    pub condition_id: Option<String>,
    pub outcomes: Vec<String>,
    pub clob_token_ids: Vec<String>,
    pub end_date: Option<String>,
    pub active: Option<bool>,
    pub closed: Option<bool>,
    /// Where the summary came from: `api` or `browser`.
    pub source: String,
    pub url: Option<String>,
}

/// Market fields as mathematical values.
pub struct FieldsView {
    pub id: Option<Seq<char>>,
    pub question: Seq<char>,
    pub slug: Option<Seq<char>>,
    pub condition_id: Option<Seq<char>>,
    pub outcomes: Seq<Seq<char>>,
    pub clob_token_ids: Seq<Seq<char>>,
    pub end_date: Option<Seq<char>>,
    pub active: Option<bool>,
    pub closed: Option<bool>,
    pub source: Seq<char>,
    pub url: Option<Seq<char>>,
}

/// The view of market fields.
pub open spec fn fields_view(f: MarketFields) -> FieldsView {
    FieldsView {
        id: opt_view(f.id),
        question: f.question@,
        slug: opt_view(f.slug),
        condition_id: opt_view(f.condition_id),
        outcomes: string_views(f.outcomes@),
        clob_token_ids: string_views(f.clob_token_ids@),
        end_date: opt_view(f.end_date),
        active: f.active,
        closed: f.closed,
        source: f.source@,
        url: opt_view(f.url),
    }
}

/// A non-empty run of ASCII digits: how `serde_json` prints an unsigned integer.
pub open spec fn unsigned_text(t: Seq<char>) -> bool {
    t.len() > 0 && forall|i: int| 0 <= i < t.len() ==> '0' <= #[trigger] t[i] <= '9'
}

/// A market id: a string, or a number that is an unsigned integer, as text.
pub open spec fn id_of(v: Option<Json>) -> Option<Seq<char>> {
    match v {
        Some(Json::Str(s)) => Some(s@),
        Some(Json::Number(t)) => if unsigned_text(t@) {
            Some(t@)
        } else {
            None
        },
        _ => None,
    }
}

/// The items of an array decoded from a string: strings as they are, numbers
/// as their floating-point display (when recorded); other items are left out.
pub open spec fn encoded_items(items: Seq<Json>, floats: Seq<(String, String)>) -> Seq<Seq<char>>
    decreases items.len(),
{
    if items.len() == 0 {
        seq![]
    } else {
        let rest = encoded_items(items.drop_last(), floats);
        match items.last() {
            Json::Str(s) => rest.push(s@),
            Json::Number(t) => match fact_float_text(floats, t@) {
                Some(d) => rest.push(d),
                None => rest,
            },
            _ => rest,
        }
    }
}

/// `parse_string_list`: the strings of an array, or of an array encoded in a
/// string; nothing for anything else.
pub open spec fn string_list(v: Option<Json>, facts: TextFacts) -> Seq<Seq<char>> {
    match v {
        Some(Json::Array(items)) => array_strings(items@),
        Some(Json::Str(s)) => match json_parse(s@) {
            Some(Json::Array(items)) => encoded_items(items@, facts.float_texts@),
            _ => seq![],
        },
        _ => seq![],
    }
}

/// The event page of a slug.
pub open spec fn event_url(slug: Seq<char>) -> Seq<char> {
    POLYMARKET_WEB@ + "/event/"@ + slug
}

/// `parse_gamma_market` without its numbers: nothing without a `question` (or
/// `title`) string; otherwise the id, slug, condition id, outcomes, token ids,
/// end date, flags and event URL that the object gives, from the `api`.
pub open spec fn gamma_fields(v: Json, facts: TextFacts) -> Option<FieldsView> {
    match or_else(as_str(get(v, "question"@)), as_str(get(v, "title"@))) {
        None => None,
        Some(question) => {
            let slug = as_str(get(v, "slug"@));
            Some(
                FieldsView {
                    id: id_of(get(v, "id"@)),
                    question,
                    slug,
                    condition_id: as_str(or_else(get(v, "conditionId"@), get(v, "condition_id"@))),
                    outcomes: string_list(get(v, "outcomes"@), facts),
                    clob_token_ids: string_list(
                        or_else(get(v, "clobTokenIds"@), get(v, "clob_token_ids"@)),
                        facts,
                    ),
                    end_date: as_str(or_else(get(v, "endDate"@), get(v, "end_date"@))),
                    active: as_bool(get(v, "active"@)),
                    closed: as_bool(get(v, "closed"@)),
                    source: "api"@,
                    url: match slug {
                        Some(s) => Some(event_url(s)),
                        None => None,
                    },
                },
            )
        },
    }
}

/// The first member present among two names.
fn member_either<'a>(v: &'a Json, a: &str, b: &str) -> (r: Option<&'a Json>)
    ensures
        match r {
            Some(j) => or_else(get(*v, a@), get(*v, b@)) == Some(*j),
            None => or_else(get(*v, a@), get(*v, b@)) is None,
        },
{
    match get_member(v, a) {
        Some(j) => Some(j),
        None => get_member(v, b),
    }
}

/// `Value::as_str`, owned.
fn str_of(v: Option<&Json>) -> (r: Option<String>)
    ensures
        opt_view(r) == as_str(
            match v {
                Some(j) => Some(*j),
                None => None,
            },
        ),
{
    match v {
        Some(Json::Str(s)) => Some(s.clone()),
        _ => None,
    }
}

/// `Value::as_bool`.
fn bool_of(v: Option<&Json>) -> (r: Option<bool>)
    ensures
        r == as_bool(
            match v {
                Some(j) => Some(*j),
                None => None,
            },
        ),
{
    match v {
        Some(Json::Bool(b)) => Some(*b),
        _ => None,
    }
}

/// Whether a number text is an unsigned integer.
fn is_unsigned_text(t: &str) -> (r: bool)
    ensures
        r == unsigned_text(t@),
{
    let cs = chars_of(t);
    if cs.len() == 0 {
        return false;
    }
    let mut i: usize = 0;
    while i < cs.len()
        invariant
            i <= cs@.len(),
            cs@ == t@,
            forall|k: int| 0 <= k < i ==> '0' <= #[trigger] cs@[k] <= '9',
        decreases cs.len() - i,
    {
        if !('0' <= cs[i] && cs[i] <= '9') {
            return false;
        }
        i = i + 1;
    }
    true
}

/// The market id of an `id` member.
fn market_id(v: Option<&Json>) -> (r: Option<String>)
    ensures
        opt_view(r) == id_of(
            match v {
                Some(j) => Some(*j),
                None => None,
            },
        ),
{
    match v {
        Some(Json::Str(s)) => Some(s.clone()),
        Some(Json::Number(t)) => {
            if is_unsigned_text(t.as_str()) {
                Some(t.clone())
            } else {
                None
            }
        },
        _ => None,
    }
}

/// The strings of an array.
fn strings_in(items: &Vec<Json>) -> (r: Vec<String>)
    ensures
        string_views(r@) == array_strings(items@),
{
    let mut r: Vec<String> = Vec::new();
    let mut i: usize = 0;
    while i < items.len()
        invariant
            i <= items@.len(),
            string_views(r@) == array_strings(items@.take(i as int)),
        decreases items.len() - i,
    {
        assert(items@.take(i + 1).drop_last() =~= items@.take(i as int));
        match &items[i] {
            Json::Str(s) => {
                let ghost before = string_views(r@);
                r.push(s.clone());
                assert(string_views(r@) =~= before.push(s@));
            },
            _ => {},
        }
        i = i + 1;
    }
    assert(items@.take(i as int) =~= items@);
    r
}

/// The items of an array decoded from a string (what `parse_string_list`
/// keeps of a string-encoded array): strings, and numbers as they print once
/// read as floating-point values.
pub fn encoded_strings(items: &Vec<Json>, facts: &TextFacts) -> (r: Vec<String>)
    ensures
        string_views(r@) == encoded_items(items@, facts.float_texts@),
{
    let mut r: Vec<String> = Vec::new();
    let mut i: usize = 0;
    while i < items.len()
        invariant
            i <= items@.len(),
            string_views(r@) == encoded_items(items@.take(i as int), facts.float_texts@),
        decreases items.len() - i,
    {
        assert(items@.take(i + 1).drop_last() =~= items@.take(i as int));
        let ghost before = string_views(r@);
        match &items[i] {
            Json::Str(s) => {
                r.push(s.clone());
                assert(string_views(r@) =~= before.push(s@));
            },
            Json::Number(t) => {
                match facts.float_text_of(t.as_str()) {
                    Some(d) => {
                        r.push(d);
                        assert(string_views(r@) =~= before.push(r@[r@.len() - 1]@));
                    },
                    None => {},
                }
            },
            _ => {},
        }
        i = i + 1;
    }
    assert(items@.take(i as int) =~= items@);
    r
}

/// `parse_string_list`.
fn string_list_of(v: Option<&Json>, facts: &TextFacts) -> (r: Vec<String>)
    ensures
        string_views(r@) == string_list(
            match v {
                Some(j) => Some(*j),
                None => None,
            },
            *facts,
        ),
{
    let none: Vec<String> = Vec::new();
    assert(string_views(none@) =~= Seq::<Seq<char>>::empty());
    match v {
        Some(Json::Array(items)) => strings_in(items),
        Some(Json::Str(s)) => match parse_json(s.as_str()) {
            Some(Json::Array(items)) => encoded_strings(&items, facts),
            _ => none,
        },
        _ => none,
    }
}

/// The text fields of a Gamma market object (`parse_gamma_market` without its
/// prices, volume and liquidity); `facts` tells how the numbers of arrays
/// encoded in strings print as floating-point values.
pub fn gamma_market_fields(v: &Json, facts: &TextFacts) -> (r: Option<MarketFields>)
    ensures
        match r {
            Some(f) => gamma_fields(*v, *facts) == Some(fields_view(f)),
            None => gamma_fields(*v, *facts) is None,
        },
{
    let question = match str_of(get_member(v, "question")) {
        Some(q) => q,
        None => match str_of(get_member(v, "title")) {
            Some(q) => q,
            None => {
                return None;
            },
        },
    };
    let slug = str_of(get_member(v, "slug"));
    let url = match &slug {
        Some(s) => Some(string_of(&concat(&chars_of("https://polymarket.com/event/"), &chars_of(s.as_str())))),
        None => None,
    };
    proof {
        reveal_strlit("https://polymarket.com/event/");
        reveal_strlit("https://polymarket.com");
        reveal_strlit("/event/");
        assert("https://polymarket.com/event/"@ =~= POLYMARKET_WEB@ + "/event/"@);
    }
    let f = MarketFields {
        id: market_id(get_member(v, "id")),
        question,
        slug,
        condition_id: str_of(member_either(v, "conditionId", "condition_id")),
        outcomes: string_list_of(get_member(v, "outcomes"), facts),
        clob_token_ids: string_list_of(member_either(v, "clobTokenIds", "clob_token_ids"), facts),
        end_date: str_of(member_either(v, "endDate", "end_date")),
        active: bool_of(get_member(v, "active")),
        closed: bool_of(get_member(v, "closed")),
        source: "api".to_owned(),
        url,
    };
    Some(f)
}

/// A status read as `(active, closed)`: lower-cased, `active` or `open` marks
/// it active, `closed` or `resolved` closed; no status gives neither.
pub open spec fn status_flags_of(status: Option<Seq<char>>) -> (Option<bool>, Option<bool>) {
    match status {
        Some(s) => {
            let l = unicode_lower(s);
            (Some(contains(l, "active"@) || contains(l, "open"@)), Some(contains(l, "closed"@) || contains(l, "resolved"@)))
        },
        None => (None, None),
    }
}

/// `browser_entry_to_summary` without its prices: the title as the question,
/// the outcomes (`Yes`/`No` when none are given and two prices were read), the
/// status flags and the page URL, from the `browser`.
pub open spec fn browser_fields(
    title: Seq<char>,
    outcomes: Seq<Seq<char>>,
    status: Option<Seq<char>>,
    page_url: Seq<char>,
    prices_read: nat,
) -> FieldsView {
    FieldsView {
        id: None,
        question: title,
        slug: None,
        condition_id: None,
        outcomes: if outcomes.len() == 0 && prices_read == 2 {
            seq!["Yes"@, "No"@]
        } else {
            outcomes
        },
        clob_token_ids: seq![],
        end_date: None,
        active: status_flags_of(status).0,
        closed: status_flags_of(status).1,
        source: "browser"@,
        url: Some(page_url),
    }
}

/// The text fields of a market entry found by a browser scrape; `prices_read`
/// is how many of its prices read as numbers.
pub fn browser_entry_fields(
    title: &str,
    outcomes: &[String],
    status: Option<&str>,
    page_url: &str,
    prices_read: usize,
) -> (r: MarketFields)
    ensures
        fields_view(r) == browser_fields(
            title@,
            string_views(outcomes@),
            match status {
                Some(s) => Some(s@),
                None => None,
            },
            page_url@,
            prices_read as nat,
        ),
{
    let mut outs: Vec<String> = Vec::new();
    if outcomes.len() == 0 && prices_read == 2 {
        outs.push("Yes".to_owned());
        outs.push("No".to_owned());
        proof {
            assert(string_views(outs@) =~= seq!["Yes"@, "No"@]);
        }
    } else {
        let mut i: usize = 0;
        while i < outcomes.len()
            invariant
                i <= outcomes@.len(),
                string_views(outs@) == string_views(outcomes@).take(i as int),
            decreases outcomes.len() - i,
        {
            let ghost before = string_views(outs@);
            let c = outcomes[i].clone();
            outs.push(c);
            assert(string_views(outs@) =~= before.push(c@));
            assert(string_views(outcomes@).take(i + 1) =~= string_views(outcomes@).take(i as int).push(
                outcomes@[i as int]@,
            ));
            i = i + 1;
        }
        assert(string_views(outcomes@).take(i as int) =~= string_views(outcomes@));
    }
    let (active, closed) = match status {
        Some(s) => {
            let l = chars_of(crate::text::to_lowercase(s).as_str());
            (
                Some(contains_chars(&l, &chars_of("active")) || contains_chars(&l, &chars_of("open"))),
                Some(contains_chars(&l, &chars_of("closed")) || contains_chars(&l, &chars_of("resolved"))),
            )
        },
        None => (None, None),
    };
    let clob: Vec<String> = Vec::new();
    assert(string_views(clob@) =~= Seq::<Seq<char>>::empty());
    MarketFields {
        id: None,
        question: title.to_owned(),
        slug: None,
        condition_id: None,
        outcomes: outs,
        clob_token_ids: clob,
        end_date: None,
        active,
        closed,
        source: "browser".to_owned(),
        url: Some(page_url.to_owned()),
    }
}

} // verus!
