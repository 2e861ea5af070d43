//! A JSON document model, how `serde_json` parses a text into it, and the
//! facts about number texts that the extraction logic reads but does not
//! compute itself: whether a text is a decimal number in the price range, and
//! how a number prints once read as a floating-point value.
//!
//! Parsing is done by `serde_json` behind [`parse_json`]; the floating-point
//! facts are recorded by the caller in a [`TextFacts`] table.

use vstd::prelude::*;


verus! {

/// A JSON value. Object members keep their document (map iteration) order;
/// a number keeps the text that `serde_json` prints for it.
#[derive(Debug)]
pub enum Json {
    Null,
    Bool(bool),
    Number(String),
    Str(String),
    Array(Vec<Json>),
    Object(Vec<(String, Json)>),
}

/// `serde_json`'s document type, carried only inside the parser's wrapper.
#[verifier::external_type_specification]
#[verifier::external_body]
pub struct ExValue(serde_json::Value);

/// What `serde_json::from_str::<Value>` gives for a text, taken into [`Json`]:
/// `None` when the text is not one JSON document.
pub uninterp spec fn json_parse(text: Seq<char>) -> Option<Json>;

/// Takes a `serde_json::Value` into [`Json`], variant for variant: a number
/// as the text it prints, members in the map's iteration order.
#[verifier::external_body]
fn json_from_value(v: &serde_json::Value) -> Json {
    match v {
        serde_json::Value::Null => Json::Null,
        serde_json::Value::Bool(b) => Json::Bool(*b),
        serde_json::Value::Number(n) => Json::Number(n.to_string()),
        serde_json::Value::String(s) => Json::Str(s.clone()),
        serde_json::Value::Array(a) => Json::Array(a.iter().map(json_from_value).collect()),
        serde_json::Value::Object(m) => Json::Object(
            m.iter().map(|(k, x)| (k.clone(), json_from_value(x))).collect(),
        ),
    }
}

/// `serde_json::from_str::<Value>(text).ok()`: the document that `text`
/// holds, or `None` when it holds none. The result is named, not stated: it
/// depends on the text alone, so two parses of one text agree.
#[verifier::external_body]
pub(crate) fn parse_json(text: &str) -> (r: Option<Json>)
    ensures
        r == json_parse(text@),
{
    serde_json::from_str::<serde_json::Value>(text).ok().map(|v| json_from_value(&v))
}

/// The document that a file's contents hold: `Null` when there are no
/// contents or they are not JSON (`read_json`'s fallback).
pub open spec fn document_or_null(contents: Option<Seq<char>>) -> Json {
    match contents {
        Some(c) => match json_parse(c) {
            Some(j) => j,
            None => Json::Null,
        },
        None => Json::Null,
    }
}

/// Parses a file's contents as JSON, `Null` when there are none or they are
/// not a JSON document.
pub fn json_or_null(contents: Option<&str>) -> (r: Json)
    ensures
        r == document_or_null(match contents {
            Some(c) => Some(c@),
            None => None,
        }),
{
    match contents {
        Some(c) => match parse_json(c) {
            Some(j) => j,
            None => Json::Null,
        },
        None => Json::Null,
    }
}

/// What is known of one number text.
#[derive(Debug)]
pub struct TextFact {
    /// The text.
    pub text: String,
    /// The text parses as a decimal floating-point number `f` with `0 <= f <= 100`.
    pub numeric_price: bool,
}

/// A table of facts about texts; the first entry for a text counts. Beside
/// them, for number texts, how the number reads once converted to a
/// floating-point value and printed back (Rust's `f64` display).
#[derive(Debug)]
pub struct TextFacts {
    pub facts: Vec<TextFact>,
    pub float_texts: Vec<(String, String)>,
}

/// The recorded floating-point display of the number text `t`, the first
/// record counting.
pub open spec fn fact_float_text(ft: Seq<(String, String)>, t: Seq<char>) -> Option<Seq<char>>
    decreases ft.len(),
{
    if ft.len() == 0 {
        None
    } else if ft[0].0@ == t {
        Some(ft[0].1@)
    } else {
        fact_float_text(ft.drop_first(), t)
    }
}

/// Index of the first fact about `t`, from position `i` on, or `-1`.
pub open spec fn fact_index_from(fs: Seq<TextFact>, t: Seq<char>, i: int) -> int
    decreases fs.len() - i,
{
    if i < 0 || i >= fs.len() {
        -1
    } else if fs[i].text@ == t {
        i
    } else {
        fact_index_from(fs, t, i + 1)
    }
}

/// Index of the first fact about `t`, or `-1`.
pub open spec fn fact_index(fs: Seq<TextFact>, t: Seq<char>) -> int {
    fact_index_from(fs, t, 0)
}

/// Whether `t` is recorded as a decimal number in the price range.
pub open spec fn fact_numeric(fs: Seq<TextFact>, t: Seq<char>) -> bool {
    let i = fact_index(fs, t);
    i >= 0 && fs[i].numeric_price
}

proof fn lemma_fact_index_from(fs: Seq<TextFact>, t: Seq<char>, i: int)
    requires
        0 <= i <= fs.len(),
    ensures
        -1 <= fact_index_from(fs, t, i) < fs.len(),
        fact_index_from(fs, t, i) >= 0 ==> fact_index_from(fs, t, i) >= i && fs[fact_index_from(
            fs,
            t,
            i,
        )].text@ == t,
    decreases fs.len() - i,
{
    if i < fs.len() && fs[i].text@ != t {
        lemma_fact_index_from(fs, t, i + 1);
    }
}

impl TextFacts {
    /// An empty table.
    pub fn new() -> (r: TextFacts)
        ensures
            r.facts@.len() == 0,
            r.float_texts@.len() == 0,
    {
        TextFacts { facts: Vec::new(), float_texts: Vec::new() }
    }

    /// Records how the number text `number` prints as a floating-point value.
    pub fn record_float_text(&mut self, number: String, display: String)
        ensures
            final(self).facts@ == old(self).facts@,
            final(self).float_texts@ == old(self).float_texts@.push((number, display)),
    {
        self.float_texts.push((number, display));
    }

    /// The recorded floating-point display of the number text `t`.
    pub fn float_text_of(&self, t: &str) -> (r: Option<String>)
        ensures
            crate::scrape::opt_view(r) == fact_float_text(self.float_texts@, t@),
    {
        let tc = crate::text::chars_of(t);
        let mut i: usize = 0;
        assert(self.float_texts@.skip(0) =~= self.float_texts@);
        while i < self.float_texts.len()
            invariant
                i <= self.float_texts@.len(),
                tc@ == t@,
                fact_float_text(self.float_texts@, t@) == fact_float_text(self.float_texts@.skip(i as int), t@),
            decreases self.float_texts.len() - i,
        {
            assert(self.float_texts@.skip(i as int).drop_first() =~= self.float_texts@.skip(i + 1));
            if crate::text::chars_eq(&crate::text::chars_of(self.float_texts[i].0.as_str()), &tc) {
                return Some(self.float_texts[i].1.clone());
            }
            i = i + 1;
        }
        None
    }

    /// Appends a fact.
    pub fn record(&mut self, text: String, numeric_price: bool)
        ensures
            final(self).facts@ == old(self).facts@.push(TextFact { text, numeric_price }),
            final(self).float_texts@ == old(self).float_texts@,
    {
        self.facts.push(TextFact { text, numeric_price });
    }

    /// Index of the first fact about `t`.
    pub fn find(&self, t: &String) -> (r: Option<usize>)
        ensures
            match r {
                Some(i) => i as int == fact_index(self.facts@, t@) && i < self.facts@.len(),
                None => fact_index(self.facts@, t@) == -1,
            },
    {
        let mut i: usize = 0;
        while i < self.facts.len()
            invariant
                i <= self.facts@.len(),
                fact_index(self.facts@, t@) == fact_index_from(self.facts@, t@, i as int),
            decreases self.facts.len() - i,
        {
            if self.facts[i].text == *t {
                return Some(i);
            }
            i = i + 1;
        }
        None
    }

    /// Whether `t` is recorded as a decimal number in the price range.
    pub fn is_numeric_price(&self, t: &String) -> (r: bool)
        ensures
            r == fact_numeric(self.facts@, t@),
    {
        match self.find(t) {
            Some(i) => self.facts[i].numeric_price,
            None => false,
        }
    }
}

/// Index of the first member named `key`, from position `i` on, or `-1`.
pub open spec fn member_index_from(m: Seq<(String, Json)>, key: Seq<char>, i: int) -> int
    decreases m.len() - i,
{
    if i < 0 || i >= m.len() {
        -1
    } else if m[i].0@ == key {
        i
    } else {
        member_index_from(m, key, i + 1)
    }
}

/// Index of the first member named `key`, or `-1` (`Map::get`).
pub open spec fn member_index(m: Seq<(String, Json)>, key: Seq<char>) -> int {
    member_index_from(m, key, 0)
}

/// `Value::get(key)` on an object's members.
pub open spec fn member(m: Seq<(String, Json)>, key: Seq<char>) -> Option<Json> {
    let i = member_index(m, key);
    if 0 <= i < m.len() {
        Some(m[i].1)
    } else {
        None
    }
}

/// `Value::get(key)`: the member `key` of an object, `None` for other values.
pub open spec fn get(v: Json, key: Seq<char>) -> Option<Json> {
    match v {
        Json::Object(m) => member(m@, key),
        _ => None,
    }
}

/// `Map::contains_key`.
pub open spec fn has_member(m: Seq<(String, Json)>, key: Seq<char>) -> bool {
    member_index(m, key) >= 0
}

/// `Value::as_str`.
pub open spec fn as_str(v: Option<Json>) -> Option<Seq<char>> {
    match v {
        Some(Json::Str(s)) => Some(s@),
        _ => None,
    }
}

/// `Value::as_bool`.
pub open spec fn as_bool(v: Option<Json>) -> Option<bool> {
    match v {
        Some(Json::Bool(b)) => Some(b),
        _ => None,
    }
}

/// `a.or_else(|| b)`.
pub open spec fn or_else<T>(a: Option<T>, b: Option<T>) -> Option<T> {
    match a {
        Some(x) => Some(x),
        None => b,
    }
}

pub proof fn lemma_member_index_from(m: Seq<(String, Json)>, key: Seq<char>, i: int)
    requires
        0 <= i <= m.len(),
    ensures
        -1 <= member_index_from(m, key, i) < m.len(),
        member_index_from(m, key, i) >= 0 ==> member_index_from(m, key, i) >= i && m[member_index_from(
            m,
            key,
            i,
        )].0@ == key,
    decreases m.len() - i,
{
    if i < m.len() && m[i].0@ != key {
        lemma_member_index_from(m, key, i + 1);
    }
}

/// Index of the first member named `key` (`Map::get`).
pub fn find_member(m: &Vec<(String, Json)>, key: &str) -> (r: Option<usize>)
    ensures
        match r {
            Some(i) => i as int == member_index(m@, key@) && i < m@.len(),
            None => member_index(m@, key@) == -1,
        },
{
    let k = key.to_owned();
    let mut i: usize = 0;
    while i < m.len()
        invariant
            i <= m@.len(),
            k@ == key@,
            member_index(m@, key@) == member_index_from(m@, key@, i as int),
        decreases m.len() - i,
    {
        if m[i].0 == k {
            return Some(i);
        }
        i = i + 1;
    }
    None
}

/// `Value::get(key)`.
pub fn get_member<'a>(v: &'a Json, key: &str) -> (r: Option<&'a Json>)
    ensures
        match r {
            Some(j) => get(*v, key@) == Some(*j),
            None => get(*v, key@) is None,
        },
{
    match v {
        Json::Object(m) => match find_member(m, key) {
            Some(i) => Some(&m[i].1),
            None => None,
        },
        _ => None,
    }
}


/// `Map::get(key)` on an object's members.
pub fn member_ref<'a>(m: &'a Vec<(String, Json)>, key: &str) -> (r: Option<&'a Json>)
    ensures
        match r {
            Some(j) => member(m@, key@) == Some(*j),
            None => member(m@, key@) is None,
        },
{
    proof {
        lemma_member_index_from(m@, key@, 0);
    }
    match find_member(m, key) {
        Some(i) => Some(&m[i].1),
        None => None,
    }
}

/// `Map::contains_key(key)` on an object's members.
pub fn contains_member(m: &Vec<(String, Json)>, key: &str) -> (r: bool)
    ensures
        r == has_member(m@, key@),
{
    proof {
        lemma_member_index_from(m@, key@, 0);
    }
    find_member(m, key).is_some()
}
/// The hexadecimal digit of `n` (`0 <= n < 16`), in lower case.
pub open spec fn hex_digit(n: int) -> char {
    seq!['0', '1', '2', '3', '4', '5', '6', '7', '8', '9', 'a', 'b', 'c', 'd', 'e', 'f'][n]
}

/// How `serde_json` writes one character inside a string literal: `"` and `\`
/// after a backslash; backspace, tab, line feed, form feed and carriage return
/// as `\b`, `\t`, `\n`, `\f`, `\r`; other characters below U+0020 as `\u00`
/// and two lower-case hexadecimal digits; every other character as itself.
pub open spec fn escaped_char(c: char) -> Seq<char> {
    if c == '"' {
        seq!['\\', '"']
    } else if c == '\\' {
        seq!['\\', '\\']
    } else if c == '\u{8}' {
        seq!['\\', 'b']
    } else if c == '\t' {
        seq!['\\', 't']
    } else if c == '\n' {
        seq!['\\', 'n']
    } else if c == '\u{c}' {
        seq!['\\', 'f']
    } else if c == '\r' {
        seq!['\\', 'r']
    } else if (c as int) < 0x20 {
        seq!['\\', 'u', '0', '0', hex_digit((c as int) / 16), hex_digit((c as int) % 16)]
    } else {
        seq![c]
    }
}

/// The characters of a string, each written as inside a string literal.
pub open spec fn escaped(s: Seq<char>) -> Seq<char>
    decreases s.len(),
{
    if s.len() == 0 {
        seq![]
    } else {
        escaped(s.drop_last()) + escaped_char(s.last())
    }
}

/// The JSON literal of a string, as `serde_json` writes it: quoted, escaped.
pub open spec fn literal(s: Seq<char>) -> Seq<char> {
    seq!['"'] + escaped(s) + seq!['"']
}

/// `serde_json::to_string` on a string (`format_escaped_str`): its JSON
/// string literal. Serialising a string writes to memory and cannot fail.
#[verifier::external_body]
pub(crate) fn json_string_literal(s: &str) -> (r: Option<String>)
    ensures
        r is Some,
        r->0@ == literal(s@),
{
    serde_json::to_string(s).ok()
}

/// A value written as compact JSON (`Value`'s `Display`): numbers as their
/// text, strings and member names as literals, no spaces.
pub open spec fn compact(v: Json) -> Seq<char>
    decreases v, 0int,
{
    match v {
        Json::Null => "null"@,
        Json::Bool(b) => if b {
            "true"@
        } else {
            "false"@
        },
        Json::Number(t) => t@,
        Json::Str(s) => literal(s@),
        Json::Array(items) => "["@ + compact_items(items@, 0) + "]"@,
        Json::Object(m) => "{"@ + compact_members(m@, 0) + "}"@,
    }
}

/// The items from position `i` on, each after a comma but the first.
pub open spec fn compact_items(items: Seq<Json>, i: int) -> Seq<char>
    decreases items, items.len() - i,
{
    if i < 0 || i >= items.len() {
        seq![]
    } else {
        (if i > 0 {
            ","@
        } else {
            seq![]
        }) + compact(items[i]) + compact_items(items, i + 1)
    }
}

/// The members from position `i` on, `"name":value`, each after a comma but the first.
pub open spec fn compact_members(ms: Seq<(String, Json)>, i: int) -> Seq<char>
    decreases ms, ms.len() - i,
{
    if i < 0 || i >= ms.len() {
        seq![]
    } else {
        (if i > 0 {
            ","@
        } else {
            seq![]
        }) + literal(ms[i].0@) + ":"@ + compact(ms[i].1) + compact_members(ms, i + 1)
    }
}

/// Appends the characters of `s`.
fn push_all(out: &mut Vec<char>, s: &str)
    ensures
        final(out)@ == old(out)@ + s@,
{
    let cs = crate::text::chars_of(s);
    let ghost start = out@;
    let mut i: usize = 0;
    while i < cs.len()
        invariant
            i <= cs@.len(),
            cs@ == s@,
            out@ == start + cs@.take(i as int),
        decreases cs.len() - i,
    {
        out.push(cs[i]);
        assert(cs@.take(i + 1) =~= cs@.take(i as int).push(cs@[i as int]));
        i = i + 1;
    }
    assert(cs@.take(i as int) =~= cs@);
}

/// Appends the JSON literal of a string.
fn push_literal(out: &mut Vec<char>, s: &str)
    ensures
        final(out)@ == old(out)@ + literal(s@),
{
    match json_string_literal(s) {
        Some(l) => push_all(out, l.as_str()),
        None => {},
    }
}

/// Appends the items from position `i` on.
fn write_items(items: &Vec<Json>, i: usize, out: &mut Vec<char>)
    requires
        i <= items@.len(),
    ensures
        final(out)@ == old(out)@ + compact_items(items@, i as int),
    decreases items@, items@.len() - i,
{
    proof {
        reveal_strlit(",");
    }
    if i < items.len() {
        let ghost start = out@;
        if i > 0 {
            out.push(',');
        }
        let ghost sep = if i > 0 { ","@ } else { Seq::<char>::empty() };
        assert(out@ =~= start + sep);
        write_compact(&items[i], out);
        write_items(items, i + 1, out);
        assert(out@ =~= start + (sep + compact(items@[i as int]) + compact_items(items@, i + 1)));
    } else {
        assert(old(out)@ + compact_items(items@, i as int) =~= old(out)@);
    }
}

/// Appends the members from position `i` on.
fn write_members(ms: &Vec<(String, Json)>, i: usize, out: &mut Vec<char>)
    requires
        i <= ms@.len(),
    ensures
        final(out)@ == old(out)@ + compact_members(ms@, i as int),
    decreases ms@, ms@.len() - i,
{
    proof {
        reveal_strlit(",");
        reveal_strlit(":");
    }
    if i < ms.len() {
        let ghost start = out@;
        if i > 0 {
            out.push(',');
        }
        let ghost sep = if i > 0 { ","@ } else { Seq::<char>::empty() };
        assert(out@ =~= start + sep);
        push_literal(out, ms[i].0.as_str());
        out.push(':');
        write_compact(&ms[i].1, out);
        write_members(ms, i + 1, out);
        assert(out@ =~= start + (sep + literal(ms@[i as int].0@) + ":"@ + compact(ms@[i as int].1)
            + compact_members(ms@, i + 1)));
    } else {
        assert(old(out)@ + compact_members(ms@, i as int) =~= old(out)@);
    }
}

/// Appends a value written as compact JSON.
fn write_compact(v: &Json, out: &mut Vec<char>)
    ensures
        final(out)@ == old(out)@ + compact(*v),
    decreases v, 0int,
{
    match v {
        Json::Null => push_all(out, "null"),
        Json::Bool(b) => {
            if *b {
                push_all(out, "true")
            } else {
                push_all(out, "false")
            }
        },
        Json::Number(t) => push_all(out, t.as_str()),
        Json::Str(s) => push_literal(out, s.as_str()),
        Json::Array(items) => {
            let ghost start = out@;
            out.push('[');
            write_items(items, 0, out);
            out.push(']');
            proof {
                reveal_strlit("[");
                reveal_strlit("]");
            }
            assert(out@ =~= start + ("["@ + compact_items(items@, 0) + "]"@));
        },
        Json::Object(m) => {
            let ghost start = out@;
            out.push('{');
            write_members(m, 0, out);
            out.push('}');
            proof {
                reveal_strlit("{");
                reveal_strlit("}");
            }
            assert(out@ =~= start + ("{"@ + compact_members(m@, 0) + "}"@));
        },
    }
}

/// A value written as compact JSON (`Value::to_string`).
pub fn compact_text(v: &Json) -> (r: String)
    ensures
        r@ == compact(*v),
{
    let mut out: Vec<char> = Vec::new();
    write_compact(v, &mut out);
    assert(out@ =~= compact(*v));
    crate::text::string_of(&out)
}

/// Two values are the same document: same kind, same texts, same items and
/// members in the same order.
pub open spec fn same_json(a: Json, b: Json) -> bool
    decreases a, 0int,
{
    match (a, b) {
        (Json::Null, Json::Null) => true,
        (Json::Bool(x), Json::Bool(y)) => x == y,
        (Json::Number(x), Json::Number(y)) => x@ == y@,
        (Json::Str(x), Json::Str(y)) => x@ == y@,
        (Json::Array(xs), Json::Array(ys)) => xs@.len() == ys@.len() && same_items(xs@, ys@, 0),
        (Json::Object(xs), Json::Object(ys)) => xs@.len() == ys@.len() && same_members(xs@, ys@, 0),
        _ => false,
    }
}

/// The items from position `i` on are the same documents.
pub open spec fn same_items(xs: Seq<Json>, ys: Seq<Json>, i: int) -> bool
    decreases xs, xs.len() - i,
{
    if i < 0 || i >= xs.len() {
        true
    } else {
        i < ys.len() && same_json(xs[i], ys[i]) && same_items(xs, ys, i + 1)
    }
}

/// The members from position `i` on have the same names and documents.
pub open spec fn same_members(xs: Seq<(String, Json)>, ys: Seq<(String, Json)>, i: int) -> bool
    decreases xs, xs.len() - i,
{
    if i < 0 || i >= xs.len() {
        true
    } else {
        i < ys.len() && xs[i].0@ == ys[i].0@ && same_json(xs[i].1, ys[i].1) && same_members(xs, ys, i + 1)
    }
}

/// Copies of the items from position `i` on, appended.
fn copy_items(items: &Vec<Json>, i: usize, out: &mut Vec<Json>)
    requires
        i <= items@.len(),
        old(out)@.len() == i,
        same_items(items@.take(i as int), old(out)@, 0),
    ensures
        final(out)@.len() == items@.len(),
        same_items(items@, final(out)@, 0),
    decreases items@, items@.len() - i,
{
    if i < items.len() {
        let c = copy_json(&items[i]);
        let ghost before = out@;
        out.push(c);
        proof {
            lemma_same_items_extend(items@, before, c, i as int);
        }
        copy_items(items, i + 1, out);
    } else {
        assert(items@.take(i as int) =~= items@);
    }
}

/// Copies of the members from position `i` on, appended.
fn copy_members(ms: &Vec<(String, Json)>, i: usize, out: &mut Vec<(String, Json)>)
    requires
        i <= ms@.len(),
        old(out)@.len() == i,
        same_members(ms@.take(i as int), old(out)@, 0),
    ensures
        final(out)@.len() == ms@.len(),
        same_members(ms@, final(out)@, 0),
    decreases ms@, ms@.len() - i,
{
    if i < ms.len() {
        let c = (ms[i].0.clone(), copy_json(&ms[i].1));
        let ghost before = out@;
        out.push(c);
        proof {
            lemma_same_members_extend(ms@, before, c, i as int);
        }
        copy_members(ms, i + 1, out);
    } else {
        assert(ms@.take(i as int) =~= ms@);
    }
}

/// Sameness of a prefix, from position `k` on, extends by one matching item.
proof fn lemma_same_items_extend(xs: Seq<Json>, ys: Seq<Json>, y: Json, i: int)
    requires
        0 <= i < xs.len(),
        ys.len() == i,
        same_items(xs.take(i), ys, 0),
        same_json(xs[i], y),
    ensures
        same_items(xs.take(i + 1), ys.push(y), 0),
{
    lemma_same_items_from(xs.take(i), ys, xs.take(i + 1), ys.push(y), 0);
}

/// Sameness from position `k` carries over to longer sequences that agree
/// on the first ones, when the last new item is the same.
proof fn lemma_same_items_from(a: Seq<Json>, b: Seq<Json>, a2: Seq<Json>, b2: Seq<Json>, k: int)
    requires
        0 <= k <= a.len(),
        a.len() == b.len(),
        a2.len() == a.len() + 1,
        b2.len() == b.len() + 1,
        forall|j: int| 0 <= j < a.len() ==> a2[j] == a[j] && b2[j] == b[j],
        same_json(a2[a.len() as int], b2[b.len() as int]),
        same_items(a, b, k),
    ensures
        same_items(a2, b2, k),
    decreases a.len() - k,
{
    if k < a.len() {
        lemma_same_items_from(a, b, a2, b2, k + 1);
    } else {
        assert(same_items(a2, b2, k + 1));
    }
}

/// Sameness of a prefix of members extends by one matching member.
proof fn lemma_same_members_extend(xs: Seq<(String, Json)>, ys: Seq<(String, Json)>, y: (String, Json), i: int)
    requires
        0 <= i < xs.len(),
        ys.len() == i,
        same_members(xs.take(i), ys, 0),
        xs[i].0@ == y.0@,
        same_json(xs[i].1, y.1),
    ensures
        same_members(xs.take(i + 1), ys.push(y), 0),
{
    lemma_same_members_from(xs.take(i), ys, xs.take(i + 1), ys.push(y), 0);
}

proof fn lemma_same_members_from(
    a: Seq<(String, Json)>,
    b: Seq<(String, Json)>,
    a2: Seq<(String, Json)>,
    b2: Seq<(String, Json)>,
    k: int,
)
    requires
        0 <= k <= a.len(),
        a.len() == b.len(),
        a2.len() == a.len() + 1,
        b2.len() == b.len() + 1,
        forall|j: int| 0 <= j < a.len() ==> a2[j] == a[j] && b2[j] == b[j],
        a2[a.len() as int].0@ == b2[b.len() as int].0@,
        same_json(a2[a.len() as int].1, b2[b.len() as int].1),
        same_members(a, b, k),
    ensures
        same_members(a2, b2, k),
    decreases a.len() - k,
{
    if k < a.len() {
        lemma_same_members_from(a, b, a2, b2, k + 1);
    } else {
        assert(same_members(a2, b2, k + 1));
    }
}

/// A copy of an object's members (`Map::clone`).
pub fn copy_object(ms: &Vec<(String, Json)>) -> (r: Vec<(String, Json)>)
    ensures
        r@.len() == ms@.len(),
        same_members(ms@, r@, 0),
{
    let mut out: Vec<(String, Json)> = Vec::new();
    assert(ms@.take(0) =~= Seq::<(String, Json)>::empty());
    copy_members(ms, 0, &mut out);
    out
}

/// A copy of a document (`Value::clone`).
pub fn copy_json(v: &Json) -> (r: Json)
    ensures
        same_json(*v, r),
    decreases v, 0int,
{
    match v {
        Json::Null => Json::Null,
        Json::Bool(b) => Json::Bool(*b),
        Json::Number(t) => Json::Number(t.clone()),
        Json::Str(s) => Json::Str(s.clone()),
        Json::Array(items) => {
            let mut out: Vec<Json> = Vec::new();
            assert(items@.take(0) =~= Seq::<Json>::empty());
            copy_items(items, 0, &mut out);
            Json::Array(out)
        },
        Json::Object(ms) => {
            let mut out: Vec<(String, Json)> = Vec::new();
            assert(ms@.take(0) =~= Seq::<(String, Json)>::empty());
            copy_members(ms, 0, &mut out);
            Json::Object(out)
        },
    }
}

} // verus!
