//! Character-sequence helpers with their specifications.
//!
//! Strings are modelled by their view, a `Seq<char>`. The logic of the library
//! works on `Vec<char>` copies of its strings and converts back at its edges.

use vstd::prelude::*;
use vstd::std_specs::iter::IteratorSpec;

verus! {

/// Unicode `White_Space` property, as used by `char::is_whitespace`.
pub open spec fn is_ws(c: char) -> bool {
    ||| c == '\t'
    ||| c == '\n'
    ||| c == '\x0B'
    ||| c == '\x0C'
    ||| c == '\r'
    ||| c == ' '
    ||| c == '\u{85}'
    ||| c == '\u{A0}'
    ||| c == '\u{1680}'
    ||| ('\u{2000}' <= c && c <= '\u{200A}')
    ||| c == '\u{2028}'
    ||| c == '\u{2029}'
    ||| c == '\u{202F}'
    ||| c == '\u{205F}'
    ||| c == '\u{3000}'
}

/// `char::is_whitespace`.
pub fn char_is_ws(c: char) -> (r: bool)
    ensures
        r == is_ws(c),
{
    c == '\t' || c == '\n' || c == '\x0B' || c == '\x0C' || c == '\r' || c == ' ' || c == '\u{85}'
        || c == '\u{A0}' || c == '\u{1680}' || ('\u{2000}' <= c && c <= '\u{200A}') || c
        == '\u{2028}' || c == '\u{2029}' || c == '\u{202F}' || c == '\u{205F}' || c == '\u{3000}'
}

/// `str::trim_start`: leading whitespace removed.
pub open spec fn trim_start(s: Seq<char>) -> Seq<char>
    decreases s.len(),
{
    if s.len() > 0 && is_ws(s[0]) {
        trim_start(s.drop_first())
    } else {
        s
    }
}

/// `str::trim_end`: trailing whitespace removed.
pub open spec fn trim_end(s: Seq<char>) -> Seq<char>
    decreases s.len(),
{
    if s.len() > 0 && is_ws(s.last()) {
        trim_end(s.drop_last())
    } else {
        s
    }
}

/// `str::trim`.
pub open spec fn trim(s: Seq<char>) -> Seq<char> {
    trim_end(trim_start(s))
}

/// `s` begins with `p`.
pub open spec fn has_prefix(s: Seq<char>, p: Seq<char>) -> bool {
    p.len() <= s.len() && s.subrange(0, p.len() as int) == p
}

/// `s` ends with `p`.
pub open spec fn has_suffix(s: Seq<char>, p: Seq<char>) -> bool {
    p.len() <= s.len() && s.subrange(s.len() - p.len(), s.len() as int) == p
}

/// `p` occurs in `s` at position `i`.
pub open spec fn occurs_at(s: Seq<char>, p: Seq<char>, i: int) -> bool {
    0 <= i && i + p.len() <= s.len() && s.subrange(i, i + p.len()) == p
}

/// `str::contains` with a string pattern.
pub open spec fn contains(s: Seq<char>, p: Seq<char>) -> bool {
    exists|i: int| occurs_at(s, p, i)
}

/// `s` contains the character `c`.
pub open spec fn has_char(s: Seq<char>, c: char) -> bool {
    exists|i: int| 0 <= i < s.len() && s[i] == c
}

/// ASCII lower-casing of one character (`char::to_ascii_lowercase`).
pub open spec fn ascii_lower_char(c: char) -> char {
    if 'A' <= c && c <= 'Z' {
        ((c as u32) + 32) as char
    } else {
        c
    }
}

/// ASCII upper-casing of one character (`char::to_ascii_uppercase`).
pub open spec fn ascii_upper_char(c: char) -> char {
    if 'a' <= c && c <= 'z' {
        ((c as u32) - 32) as char
    } else {
        c
    }
}

/// `str::to_ascii_lowercase`.
pub open spec fn ascii_lower(s: Seq<char>) -> Seq<char> {
    s.map_values(|c: char| ascii_lower_char(c))
}

/// `str::to_ascii_uppercase`.
pub open spec fn ascii_upper(s: Seq<char>) -> Seq<char> {
    s.map_values(|c: char| ascii_upper_char(c))
}

/// `str::eq_ignore_ascii_case`.
pub open spec fn eq_ignore_ascii_case(a: Seq<char>, b: Seq<char>) -> bool {
    ascii_lower(a) == ascii_lower(b)
}

/// The word being read is closed and emitted, if it is not empty.
pub open spec fn flush_word(cur: Seq<char>) -> Seq<Seq<char>> {
    if cur.len() > 0 {
        seq![cur]
    } else {
        seq![]
    }
}

/// Words of `s` when the word `cur` has already been read before it.
pub open spec fn words_from(s: Seq<char>, cur: Seq<char>) -> Seq<Seq<char>>
    decreases s.len(),
{
    if s.len() == 0 {
        flush_word(cur)
    } else if is_ws(s[0]) {
        flush_word(cur) + words_from(s.drop_first(), seq![])
    } else {
        words_from(s.drop_first(), cur.push(s[0]))
    }
}

/// `str::split_whitespace`: the maximal runs of non-whitespace characters.
pub open spec fn words(s: Seq<char>) -> Seq<Seq<char>> {
    words_from(s, seq![])
}

/// The line being read is closed and emitted, trimmed, if anything is left of it.
pub open spec fn flush_line(cur: Seq<char>) -> Seq<Seq<char>> {
    if trim(cur).len() > 0 {
        seq![trim(cur)]
    } else {
        seq![]
    }
}

/// Trimmed, non-blank lines of `s` when the line `cur` has already been read before it.
pub open spec fn lines_from(s: Seq<char>, cur: Seq<char>) -> Seq<Seq<char>>
    decreases s.len(),
{
    if s.len() == 0 {
        flush_line(cur)
    } else if s[0] == '\n' {
        flush_line(cur) + lines_from(s.drop_first(), seq![])
    } else {
        lines_from(s.drop_first(), cur.push(s[0]))
    }
}

/// `str::lines`, each line trimmed, blank lines dropped.
///
/// Splitting at `'\n'` gives the same trimmed lines as `str::lines`: the `'\r'`
/// that `lines` strips before a `'\n'` is whitespace, and a final empty piece is blank.
pub open spec fn nonblank_lines(s: Seq<char>) -> Seq<Seq<char>> {
    lines_from(s, seq![])
}

/// Views of a sequence of character vectors.
pub open spec fn views(v: Seq<Vec<char>>) -> Seq<Seq<char>> {
    v.map_values(|w: Vec<char>| w@)
}

/// Views of a sequence of strings.
pub open spec fn string_views(v: Seq<String>) -> Seq<Seq<char>> {
    v.map_values(|w: String| w@)
}

/// A copy of a string's characters.
pub fn chars_of(s: &str) -> (r: Vec<char>)
    ensures
        r@ == s@,
{
    broadcast use vstd::string::group_string_axioms;

    let mut r: Vec<char> = Vec::new();
    let mut it = s.chars();
    loop
        invariant
            r@ + it.remaining() == s@,
            it.decrease() is Some,
        ensures
            r@ == s@,
        decreases it.decrease()->0,
    {
        let ghost before = it.remaining();
        match it.next() {
            Some(c) => {
                r.push(c);
                assert(r@ + it.remaining() =~= s@) by {
                    assert(before =~= seq![c] + it.remaining());
                }
            },
            None => {
                assert(r@ =~= s@);
                break ;
            },
        }
    }
    r
}

/// `String::push` (appends one character).
#[verifier::external_body]
fn push_char(s: &mut String, c: char)
    ensures
        final(s)@ == old(s)@.push(c),
{
    s.push(c);
}

/// The string made of `cs`.
pub fn string_of(cs: &[char]) -> (r: String)
    ensures
        r@ == cs@,
{
    let mut r = String::new();
    let mut i: usize = 0;
    while i < cs.len()
        invariant
            i <= cs.len(),
            r@ == cs@.subrange(0, i as int),
        decreases cs.len() - i,
    {
        push_char(&mut r, cs[i]);
        i = i + 1;
        assert(r@ == cs@.subrange(0, i as int));
    }
    assert(cs@.subrange(0, cs.len() as int) == cs@);
    r
}

/// A copy of `s[from..to]`.
pub fn copy_range(s: &[char], from: usize, to: usize) -> (r: Vec<char>)
    requires
        from <= to <= s.len(),
    ensures
        r@ == s@.subrange(from as int, to as int),
{
    let mut r: Vec<char> = Vec::new();
    let mut i = from;
    while i < to
        invariant
            from <= i <= to <= s.len(),
            r@ == s@.subrange(from as int, i as int),
        decreases to - i,
    {
        r.push(s[i]);
        i = i + 1;
        assert(r@ == s@.subrange(from as int, i as int));
    }
    r
}

/// A copy of `a` followed by `b`.
pub fn concat(a: &[char], b: &[char]) -> (r: Vec<char>)
    ensures
        r@ == a@ + b@,
{
    let mut r = copy_range(a, 0, a.len());
    let mut i: usize = 0;
    assert(a@.subrange(0, a.len() as int) == a@);
    while i < b.len()
        invariant
            i <= b.len(),
            r@ == a@ + b@.subrange(0, i as int),
        decreases b.len() - i,
    {
        r.push(b[i]);
        i = i + 1;
        assert(r@ == a@ + b@.subrange(0, i as int));
    }
    assert(b@.subrange(0, b.len() as int) == b@);
    r
}

/// Equality of two character sequences.
pub fn chars_eq(a: &[char], b: &[char]) -> (r: bool)
    ensures
        r == (a@ == b@),
{
    if a.len() != b.len() {
        return false;
    }
    let mut i: usize = 0;
    while i < a.len()
        invariant
            a.len() == b.len(),
            i <= a.len(),
            forall|k: int| 0 <= k < i ==> a@[k] == b@[k],
        decreases a.len() - i,
    {
        if a[i] != b[i] {
            return false;
        }
        i = i + 1;
    }
    assert(a@ =~= b@);
    true
}

/// `s.starts_with(p)`.
pub fn starts_with(s: &[char], p: &[char]) -> (r: bool)
    ensures
        r == has_prefix(s@, p@),
{
    if p.len() > s.len() {
        return false;
    }
    let mut i: usize = 0;
    while i < p.len()
        invariant
            p.len() <= s.len(),
            i <= p.len(),
            forall|k: int| 0 <= k < i ==> s@[k] == p@[k],
        decreases p.len() - i,
    {
        if s[i] != p[i] {
            assert(s@.subrange(0, p.len() as int)[i as int] != p@[i as int]);
            return false;
        }
        i = i + 1;
    }
    assert(s@.subrange(0, p.len() as int) =~= p@);
    true
}

/// `s.ends_with(p)`.
pub fn ends_with(s: &[char], p: &[char]) -> (r: bool)
    ensures
        r == has_suffix(s@, p@),
{
    if p.len() > s.len() {
        return false;
    }
    let off = s.len() - p.len();
    let mut i: usize = 0;
    while i < p.len()
        invariant
            p.len() <= s.len(),
            off == s.len() - p.len(),
            i <= p.len(),
            forall|k: int| 0 <= k < i ==> s@[off + k] == p@[k],
        decreases p.len() - i,
    {
        if s[off + i] != p[i] {
            assert(s@.subrange(off as int, s.len() as int)[i as int] != p@[i as int]);
            return false;
        }
        i = i + 1;
    }
    assert(s@.subrange(off as int, s.len() as int) =~= p@);
    true
}

/// `s` has `p` at position `i`.
pub fn matches_at(s: &[char], p: &[char], i: usize) -> (r: bool)
    ensures
        r == occurs_at(s@, p@, i as int),
{
    if i > s.len() || p.len() > s.len() - i {
        return false;
    }
    let mut k: usize = 0;
    while k < p.len()
        invariant
            i + p.len() <= s.len(),
            k <= p.len(),
            forall|m: int| 0 <= m < k ==> s@[i + m] == p@[m],
        decreases p.len() - k,
    {
        if s[i + k] != p[k] {
            assert(s@.subrange(i as int, i + p.len())[k as int] != p@[k as int]);
            return false;
        }
        k = k + 1;
    }
    assert(s@.subrange(i as int, i + p.len()) =~= p@);
    true
}

/// `s.contains(p)` for a string pattern.
pub fn contains_chars(s: &[char], p: &[char]) -> (r: bool)
    ensures
        r == contains(s@, p@),
{
    if p.len() > s.len() {
        return false;
    }
    let last = s.len() - p.len();
    let mut i: usize = 0;
    loop
        invariant
            p.len() <= s.len(),
            last == s.len() - p.len(),
            i <= last,
            forall|j: int| 0 <= j < i ==> !occurs_at(s@, p@, j),
        decreases last - i,
    {
        if matches_at(s, p, i) {
            return true;
        }
        if i == last {
            assert forall|j: int| !occurs_at(s@, p@, j) by {
                if 0 <= j && j + p@.len() <= s@.len() {
                    assert(j <= i);
                }
            }
            return false;
        }
        i = i + 1;
    }
}

/// `s.contains(c)` for a character.
pub fn contains_char(s: &[char], c: char) -> (r: bool)
    ensures
        r == has_char(s@, c),
{
    let mut i: usize = 0;
    while i < s.len()
        invariant
            i <= s.len(),
            forall|k: int| 0 <= k < i ==> s@[k] != c,
        decreases s.len() - i,
    {
        if s[i] == c {
            return true;
        }
        i = i + 1;
    }
    false
}

proof fn lemma_trim_start_skip(s: Seq<char>, i: int)
    requires
        0 <= i <= s.len(),
        forall|k: int| 0 <= k < i ==> is_ws(s[k]),
    ensures
        trim_start(s) == trim_start(s.skip(i)),
    decreases i,
{
    if i > 0 {
        assert(s.drop_first().skip(i - 1) =~= s.skip(i));
        lemma_trim_start_skip(s.drop_first(), i - 1);
    } else {
        assert(s.skip(0) =~= s);
    }
}

proof fn lemma_trim_end_take(s: Seq<char>, j: int)
    requires
        0 <= j <= s.len(),
        forall|k: int| j <= k < s.len() ==> is_ws(s[k]),
    ensures
        trim_end(s) == trim_end(s.take(j)),
    decreases s.len() - j,
{
    if j < s.len() {
        assert(s.drop_last().take(j) =~= s.take(j));
        lemma_trim_end_take(s.drop_last(), j);
    } else {
        assert(s.take(j) =~= s);
    }
}

/// Bounds `(a, b)` such that `s[a..b]` is `s` trimmed.
pub fn trim_bounds(s: &[char]) -> (r: (usize, usize))
    ensures
        r.0 <= r.1 <= s.len(),
        s@.subrange(r.0 as int, r.1 as int) == trim(s@),
        s@.subrange(r.0 as int, s.len() as int) == trim_start(s@),
{
    let mut a: usize = 0;
    while a < s.len() && char_is_ws(s[a])
        invariant
            a <= s.len(),
            forall|k: int| 0 <= k < a ==> is_ws(s@[k]),
        decreases s.len() - a,
    {
        a = a + 1;
    }
    proof {
        lemma_trim_start_skip(s@, a as int);
        assert(s@.skip(a as int) =~= s@.subrange(a as int, s.len() as int));
    }
    let ghost t = s@.subrange(a as int, s.len() as int);
    let mut b: usize = s.len();
    while b > a && char_is_ws(s[b - 1])
        invariant
            a <= b <= s.len(),
            t == s@.subrange(a as int, s.len() as int),
            forall|k: int| b <= k < s.len() ==> is_ws(s@[k]),
        decreases b - a,
    {
        b = b - 1;
    }
    proof {
        assert forall|k: int| b - a <= k < t.len() implies is_ws(t[k]) by {
            assert(t[k] == s@[a + k]);
        }
        lemma_trim_end_take(t, b - a);
        assert(t.take(b - a) =~= s@.subrange(a as int, b as int));
    }
    (a, b)
}

/// `s.trim()`, copied.
pub fn trim_chars(s: &[char]) -> (r: Vec<char>)
    ensures
        r@ == trim(s@),
{
    let (a, b) = trim_bounds(s);
    copy_range(s, a, b)
}

/// `s.trim_end()`, copied.
pub fn trim_end_chars(s: &[char]) -> (r: Vec<char>)
    ensures
        r@ == trim_end(s@),
{
    let mut b: usize = s.len();
    while b > 0 && char_is_ws(s[b - 1])
        invariant
            b <= s.len(),
            forall|k: int| b <= k < s.len() ==> is_ws(s@[k]),
        decreases b,
    {
        b = b - 1;
    }
    proof {
        lemma_trim_end_take(s@, b as int);
        assert(s@.take(b as int) =~= s@.subrange(0, b as int));
    }
    copy_range(s, 0, b)
}

/// `s.to_ascii_lowercase()`.
pub fn to_ascii_lower(s: &[char]) -> (r: Vec<char>)
    ensures
        r@ == ascii_lower(s@),
{
    let mut r: Vec<char> = Vec::new();
    let mut i: usize = 0;
    while i < s.len()
        invariant
            i <= s.len(),
            r@ == ascii_lower(s@.subrange(0, i as int)),
        decreases s.len() - i,
    {
        let c = s[i];
        let d = if 'A' <= c && c <= 'Z' {
            ((c as u32) + 32) as u8 as char
        } else {
            c
        };
        proof {
            if 'A' <= c && c <= 'Z' {
                assert(((c as u32) + 32) as u8 as char == ((c as u32) + 32) as char);
            }
        }
        r.push(d);
        i = i + 1;
        assert(r@ =~= ascii_lower(s@.subrange(0, i as int)));
    }
    assert(s@.subrange(0, s.len() as int) =~= s@);
    r
}

/// `s.to_ascii_uppercase()`.
pub fn to_ascii_upper(s: &[char]) -> (r: Vec<char>)
    ensures
        r@ == ascii_upper(s@),
{
    let mut r: Vec<char> = Vec::new();
    let mut i: usize = 0;
    while i < s.len()
        invariant
            i <= s.len(),
            r@ == ascii_upper(s@.subrange(0, i as int)),
        decreases s.len() - i,
    {
        let c = s[i];
        let d = if 'a' <= c && c <= 'z' {
            ((c as u32) - 32) as u8 as char
        } else {
            c
        };
        proof {
            if 'a' <= c && c <= 'z' {
                assert(((c as u32) - 32) as u8 as char == ((c as u32) - 32) as char);
            }
        }
        r.push(d);
        i = i + 1;
        assert(r@ =~= ascii_upper(s@.subrange(0, i as int)));
    }
    assert(s@.subrange(0, s.len() as int) =~= s@);
    r
}

/// `a.eq_ignore_ascii_case(b)`.
pub fn chars_eq_ignore_ascii_case(a: &[char], b: &[char]) -> (r: bool)
    ensures
        r == eq_ignore_ascii_case(a@, b@),
{
    let la = to_ascii_lower(a);
    let lb = to_ascii_lower(b);
    chars_eq(&la, &lb)
}

/// `s.split_whitespace()`, each word copied.
pub fn split_words(s: &[char]) -> (r: Vec<Vec<char>>)
    ensures
        views(r@) == words(s@),
{
    let mut r: Vec<Vec<char>> = Vec::new();
    let mut cur: Vec<char> = Vec::new();
    let mut i: usize = 0;
    assert(s@.skip(0) =~= s@);
    while i < s.len()
        invariant
            i <= s.len(),
            views(r@) + words_from(s@.skip(i as int), cur@) == words(s@),
        decreases s.len() - i,
    {
        let ghost rest = s@.skip(i as int);
        assert(rest.drop_first() =~= s@.skip(i + 1));
        let ghost before = views(r@);
        let ghost old_cur = cur@;
        if char_is_ws(s[i]) {
            assert(words_from(rest, old_cur) == flush_word(old_cur) + words_from(rest.drop_first(), seq![]));
            if cur.len() > 0 {
                r.push(cur);
                assert(views(r@) =~= before + seq![old_cur]);
            } else {
                assert(flush_word(old_cur) =~= Seq::<Seq<char>>::empty());
                assert(views(r@) =~= before + flush_word(old_cur));
            }
            cur = Vec::new();
            assert(cur@ =~= Seq::<char>::empty());
            assert(views(r@) + words_from(s@.skip(i + 1), cur@) =~= before + words_from(rest, old_cur));
        } else {
            assert(words_from(rest, old_cur) == words_from(rest.drop_first(), old_cur.push(s@[i as int])));
            cur.push(s[i]);
        }
        i = i + 1;
    }
    assert(s@.skip(i as int) =~= Seq::<char>::empty());
    let ghost before = views(r@);
    if cur.len() > 0 {
        let ghost c = cur@;
        r.push(cur);
        assert(views(r@) =~= before + seq![c]);
    } else {
        assert(views(r@) =~= before + flush_word(cur@));
    }
    r
}

/// Trimmed non-blank lines of `s`, each copied.
pub fn split_nonblank_lines(s: &[char]) -> (r: Vec<Vec<char>>)
    ensures
        views(r@) == nonblank_lines(s@),
{
    let mut r: Vec<Vec<char>> = Vec::new();
    let mut cur: Vec<char> = Vec::new();
    let mut i: usize = 0;
    assert(s@.skip(0) =~= s@);
    while i < s.len()
        invariant
            i <= s.len(),
            views(r@) + lines_from(s@.skip(i as int), cur@) == nonblank_lines(s@),
        decreases s.len() - i,
    {
        let ghost rest = s@.skip(i as int);
        assert(rest.drop_first() =~= s@.skip(i + 1));
        let ghost before = views(r@);
        let ghost old_cur = cur@;
        if s[i] == '\n' {
            assert(lines_from(rest, old_cur) == flush_line(old_cur) + lines_from(rest.drop_first(), seq![]));
            let t = trim_chars(&cur);
            if t.len() > 0 {
                r.push(t);
                assert(views(r@) =~= before + flush_line(old_cur));
            } else {
                assert(views(r@) =~= before + flush_line(old_cur));
            }
            cur = Vec::new();
            assert(cur@ =~= Seq::<char>::empty());
            assert(views(r@) + lines_from(s@.skip(i + 1), cur@) =~= before + lines_from(rest, old_cur));
        } else {
            assert(lines_from(rest, old_cur) == lines_from(rest.drop_first(), old_cur.push(s@[i as int])));
            cur.push(s[i]);
        }
        i = i + 1;
    }
    assert(s@.skip(i as int) =~= Seq::<char>::empty());
    let ghost before = views(r@);
    let t = trim_chars(&cur);
    if t.len() > 0 {
        r.push(t);
    }
    assert(views(r@) =~= before + flush_line(cur@));
    r
}

/// `str::to_lowercase`: Unicode lower-casing, which takes tables to state.
pub uninterp spec fn unicode_lower(s: Seq<char>) -> Seq<char>;

/// `str::to_lowercase` (Unicode lower-casing). The contract names the result.
#[verifier::external_body]
pub(crate) fn to_lowercase(s: &str) -> (r: String)
    ensures
        r@ == unicode_lower(s@),
{
    s.to_lowercase()
}

/// `parts.join(sep)`.
pub open spec fn join(parts: Seq<Seq<char>>, sep: Seq<char>) -> Seq<char>
    decreases parts.len(),
{
    if parts.len() == 0 {
        seq![]
    } else if parts.len() == 1 {
        parts[0]
    } else {
        join(parts.drop_last(), sep) + sep + parts.last()
    }
}

/// `parts.join(sep)`.
pub fn join_chars(parts: &Vec<Vec<char>>, sep: &[char]) -> (r: Vec<char>)
    ensures
        r@ == join(views(parts@), sep@),
{
    let mut r: Vec<char> = Vec::new();
    let mut i: usize = 0;
    while i < parts.len()
        invariant
            i <= parts@.len(),
            r@ == join(views(parts@).take(i as int), sep@),
        decreases parts.len() - i,
    {
        let ghost prev = views(parts@).take(i as int);
        assert(views(parts@).take(i + 1).drop_last() =~= prev);
        if i > 0 {
            r = concat(&r, sep);
        }
        r = concat(&r, &parts[i]);
        i = i + 1;
        proof {
            let cur = views(parts@).take(i as int);
            assert(cur.last() == parts@[i - 1]@);
            if i == 1 {
                assert(prev =~= Seq::<Seq<char>>::empty());
            }
        }
    }
    assert(views(parts@).take(parts@.len() as int) =~= views(parts@));
    r
}

/// Number of UTF-8 bytes of a text (`str::len`).
pub open spec fn utf8_len(s: Seq<char>) -> nat {
    vstd::utf8::encode_utf8(s).len()
}


/// Number of UTF-8 bytes of one character.
pub open spec fn char_width(c: char) -> nat {
    vstd::utf8::encode_scalar(c as u32).len()
}

/// The byte count of a text is its first character's width plus that of the rest.
pub proof fn lemma_utf8_len_first(s: Seq<char>)
    requires
        s.len() > 0,
    ensures
        utf8_len(s) == char_width(s[0]) + utf8_len(s.drop_first()),
{
}

/// Number of UTF-8 bytes of one character.
pub fn char_utf8_width(c: char) -> (r: usize)
    ensures
        r == char_width(c),
        1 <= r <= 4,
{
    proof {
        vstd::utf8::char_is_scalar(c);
    }
    let v = c as u32;
    if v <= 0x7F {
        1
    } else if v <= 0x7FF {
        2
    } else if v <= 0xFFFF {
        3
    } else {
        4
    }
}

/// Whether the UTF-8 encoding of `s` has fewer than `bound` bytes.
pub fn utf8_len_below(s: &[char], bound: usize) -> (r: bool)
    ensures
        r == (utf8_len(s@) < bound),
{
    if bound == 0 {
        return false;
    }
    let mut acc: usize = 0;
    let mut i: usize = 0;
    assert(s@.skip(0) =~= s@);
    while i < s.len()
        invariant
            i <= s@.len(),
            acc < bound,
            acc + utf8_len(s@.skip(i as int)) == utf8_len(s@),
        decreases s.len() - i,
    {
        let w = char_utf8_width(s[i]);
        proof {
            lemma_utf8_len_first(s@.skip(i as int));
            assert(s@.skip(i as int).drop_first() =~= s@.skip(i + 1));
        }
        if w >= bound - acc {
            return false;
        }
        acc = acc + w;
        i = i + 1;
    }
    assert(s@.skip(i as int) =~= Seq::<char>::empty());
    true
}

/// The first characters of `s` that take exactly `n` UTF-8 bytes, if `n` bytes
/// end on a character boundary within `s` (`str::get(..n)`).
pub open spec fn byte_prefix(s: Seq<char>, n: nat) -> Option<Seq<char>> {
    if exists|k: int| 0 <= k <= s.len() && utf8_len(#[trigger] s.take(k)) == n {
        Some(s.take(choose|k: int| 0 <= k <= s.len() && utf8_len(#[trigger] s.take(k)) == n))
    } else {
        None
    }
}

/// Prefixes of a text that take more characters take more bytes.
pub proof fn lemma_utf8_len_take_step(s: Seq<char>, k: int)
    requires
        0 <= k < s.len(),
    ensures
        utf8_len(s.take(k + 1)) == utf8_len(s.take(k)) + char_width(s[k]),
    decreases k,
{
    if k == 0 {
        assert(s.take(1).drop_first() =~= Seq::<char>::empty());
        assert(s.take(0) =~= Seq::<char>::empty());
    } else {
        lemma_utf8_len_take_step(s.drop_first(), k - 1);
        assert(s.take(k + 1).drop_first() =~= s.drop_first().take(k));
        assert(s.take(k).drop_first() =~= s.drop_first().take(k - 1));
        vstd::utf8::char_is_scalar(s[0]);
    }
}

/// Prefixes of a text that take more characters take strictly more bytes.
pub proof fn lemma_utf8_len_take_mono(s: Seq<char>, k: int, l: int)
    requires
        0 <= k < l <= s.len(),
    ensures
        utf8_len(s.take(k)) < utf8_len(s.take(l)),
    decreases l - k,
{
    lemma_utf8_len_take_step(s, l - 1);
    vstd::utf8::char_is_scalar(s[l - 1]);
    if k < l - 1 {
        lemma_utf8_len_take_mono(s, k, l - 1);
    }
}

/// The characters of `s` that take exactly its first `n` bytes, or `None`
/// when `n` bytes do not end on a character boundary inside `s`.
pub fn prefix_of_bytes(s: &[char], n: usize) -> (r: Option<Vec<char>>)
    ensures
        match r {
            Some(p) => byte_prefix(s@, n as nat) == Some(p@),
            None => byte_prefix(s@, n as nat) is None,
        },
{
    let mut acc: usize = 0;
    let mut i: usize = 0;
    assert(s@.take(0) =~= Seq::<char>::empty());
    while i < s.len() && acc < n
        invariant
            i <= s@.len(),
            acc <= n,
            acc == utf8_len(s@.take(i as int)),
        decreases s.len() - i,
    {
        let w = char_utf8_width(s[i]);
        proof {
            lemma_utf8_len_take_step(s@, i as int);
        }
        if w > n - acc {
            proof {
                assert forall|k: int| 0 <= k <= s@.len() implies utf8_len(#[trigger] s@.take(k))
                    != n by {
                    if k <= i {
                        if k < i {
                            lemma_utf8_len_take_mono(s@, k, i as int);
                        }
                    } else {
                        if k > i + 1 {
                            lemma_utf8_len_take_mono(s@, i + 1, k);
                        }
                    }
                }
            }
            return None;
        }
        acc = acc + w;
        i = i + 1;
    }
    if acc == n {
        proof {
            assert forall|k: int| 0 <= k <= s@.len() && utf8_len(#[trigger] s@.take(k)) == n
                implies k == i by {
                if k < i {
                    lemma_utf8_len_take_mono(s@, k, i as int);
                } else if k > i {
                    lemma_utf8_len_take_mono(s@, i as int, k);
                }
            }
        }
        Some(copy_range(s, 0, i))
    } else {
        proof {
            assert(i == s@.len());
            assert forall|k: int| 0 <= k <= s@.len() implies utf8_len(#[trigger] s@.take(k)) != n by {
                if k < i {
                    lemma_utf8_len_take_mono(s@, k, i as int);
                }
            }
        }
        None
    }
}

/// `str::trim`, copied into a new string.
pub fn trim_str(s: &str) -> (r: String)
    ensures
        r@ == trim(s@),
{
    string_of(&trim_chars(&chars_of(s)))
}

/// The characters of `s` between byte offsets `from` and `to`, when both end on
/// character boundaries inside `s` and `from <= to` (`str::get(from..to)`).
pub open spec fn byte_slice(s: Seq<char>, from: nat, to: nat) -> Option<Seq<char>> {
    match (byte_prefix(s, from), byte_prefix(s, to)) {
        (Some(a), Some(b)) => if a.len() <= b.len() {
            Some(s.subrange(a.len() as int, b.len() as int))
        } else {
            None
        },
        _ => None,
    }
}

/// `str::get(from..to)` on the characters of a text.
pub fn slice_bytes(s: &[char], from: usize, to: usize) -> (r: Option<Vec<char>>)
    ensures
        match r {
            Some(p) => byte_slice(s@, from as nat, to as nat) == Some(p@),
            None => byte_slice(s@, from as nat, to as nat) is None,
        },
{
    let a = prefix_of_bytes(s, from);
    let b = prefix_of_bytes(s, to);
    match (a, b) {
        (Some(a), Some(b)) => {
            proof {
                let ka = choose|k: int| 0 <= k <= s@.len() && utf8_len(#[trigger] s@.take(k)) == from;
                let kb = choose|k: int| 0 <= k <= s@.len() && utf8_len(#[trigger] s@.take(k)) == to;
                assert(a@ == s@.take(ka));
                assert(b@ == s@.take(kb));
            }
            if a.len() <= b.len() {
                Some(copy_range(s, a.len(), b.len()))
            } else {
                None
            }
        },
        _ => None,
    }
}

/// The decimal digit `d` (`0 <= d < 10`) as a character.
pub open spec fn digit_char(d: nat) -> char {
    (d + 48) as char
}

/// The decimal numeral of `n`, without leading zeros (`n.to_string()`).
pub open spec fn decimal(n: nat) -> Seq<char>
    decreases n,
{
    if n < 10 {
        seq![digit_char(n)]
    } else {
        decimal(n / 10).push(digit_char(n % 10))
    }
}

/// The decimal numeral of `n`.
pub fn decimal_chars(n: usize) -> (r: Vec<char>)
    ensures
        r@ == decimal(n as nat),
    decreases n,
{
    let d = (n % 10) as u8;
    let c = (d + 48) as char;
    if n < 10 {
        let r = vec![c];
        assert(r@ =~= seq![digit_char(n as nat)]);
        r
    } else {
        let mut r = decimal_chars(n / 10);
        r.push(c);
        r
    }
}

/// `n.to_string()`.
pub fn usize_to_string(n: usize) -> (r: String)
    ensures
        r@ == decimal(n as nat),
{
    string_of(&decimal_chars(n))
}

/// A text made of whitespace only is the same as the text after it, for
/// splitting into words.
pub proof fn lemma_words_skip_ws(s: Seq<char>, i: int)
    requires
        0 <= i <= s.len(),
        forall|k: int| 0 <= k < i ==> is_ws(s[k]),
    ensures
        words_from(s, seq![]) == words_from(s.skip(i), seq![]),
    decreases i,
{
    if i == 0 {
        assert(s.skip(0) =~= s);
    } else {
        assert(flush_word(seq![]) =~= Seq::<Seq<char>>::empty());
        assert(words_from(s, seq![]) =~= words_from(s.drop_first(), seq![]));
        assert(s.drop_first().skip(i - 1) =~= s.skip(i));
        lemma_words_skip_ws(s.drop_first(), i - 1);
    }
}

/// Reading a run of non-whitespace characters extends the current word.
pub proof fn lemma_words_read_word(s: Seq<char>, cur: Seq<char>, j: int)
    requires
        0 <= j <= s.len(),
        forall|k: int| 0 <= k < j ==> !is_ws(s[k]),
    ensures
        words_from(s, cur) == words_from(s.skip(j), cur + s.take(j)),
    decreases j,
{
    if j == 0 {
        assert(s.skip(0) =~= s);
        assert(cur + s.take(0) =~= cur);
    } else {
        assert(s.drop_first().skip(j - 1) =~= s.skip(j));
        assert(cur.push(s[0]) + s.drop_first().take(j - 1) =~= cur + s.take(j));
        lemma_words_read_word(s.drop_first(), cur.push(s[0]), j - 1);
    }
}

/// The first word of `s`, as character positions: where it starts and ends.
pub fn first_word_bounds(s: &[char]) -> (r: Option<(usize, usize)>)
    ensures
        match r {
            Some((i, j)) => i < j <= s@.len() && words(s@).len() > 0 && words(s@)[0] == s@.subrange(
                i as int,
                j as int,
            ),
            None => words(s@).len() == 0,
        },
{
    let mut i: usize = 0;
    while i < s.len() && char_is_ws(s[i])
        invariant
            i <= s@.len(),
            forall|k: int| 0 <= k < i ==> is_ws(s@[k]),
        decreases s.len() - i,
    {
        i = i + 1;
    }
    proof {
        lemma_words_skip_ws(s@, i as int);
    }
    if i == s.len() {
        assert(s@.skip(i as int) =~= Seq::<char>::empty());
        assert(words(s@) =~= flush_word(seq![]));
        return None;
    }
    let mut j: usize = i;
    while j < s.len() && !char_is_ws(s[j])
        invariant
            i <= j <= s@.len(),
            forall|k: int| i <= k < j ==> !is_ws(s@[k]),
        decreases s.len() - j,
    {
        j = j + 1;
    }
    proof {
        let t = s@.skip(i as int);
        assert forall|k: int| 0 <= k < j - i implies !is_ws(t[k]) by {
            assert(t[k] == s@[i + k]);
        }
        lemma_words_read_word(t, seq![], j - i);
        let w = Seq::<char>::empty() + t.take(j - i);
        assert(w =~= s@.subrange(i as int, j as int));
        assert(t.skip(j - i) =~= s@.skip(j as int));
        let rest = s@.skip(j as int);
        if j < s.len() {
            assert(rest[0] == s@[j as int]);
            assert(words_from(rest, w) == flush_word(w) + words_from(rest.drop_first(), seq![]));
        } else {
            assert(rest =~= Seq::<char>::empty());
        }
        assert(flush_word(w) =~= seq![w]);
    }
    Some((i, j))
}

/// The UTF-8 length of two texts one after the other is the sum of theirs.
pub proof fn lemma_utf8_len_concat(a: Seq<char>, b: Seq<char>)
    ensures
        utf8_len(a + b) == utf8_len(a) + utf8_len(b),
    decreases a.len(),
{
    if a.len() == 0 {
        assert(a + b =~= b);
    } else {
        lemma_utf8_len_concat(a.drop_first(), b);
        assert((a + b).drop_first() =~= a.drop_first() + b);
        assert((a + b)[0] == a[0]);
    }
}

/// A part of a text takes no more UTF-8 bytes than the text.
pub proof fn lemma_utf8_len_subrange(s: Seq<char>, i: int, j: int)
    requires
        0 <= i <= j <= s.len(),
    ensures
        utf8_len(s.subrange(i, j)) <= utf8_len(s),
        utf8_len(s.take(i)) + utf8_len(s.subrange(i, j)) + utf8_len(s.skip(j)) == utf8_len(s),
{
    lemma_utf8_len_concat(s.take(i), s.subrange(i, j));
    lemma_utf8_len_concat(s.take(i) + s.subrange(i, j), s.skip(j));
    assert(s.take(i) + s.subrange(i, j) + s.skip(j) =~= s);
}

/// Number of UTF-8 bytes of a text that fits in `usize`.
pub fn utf8_len_of(s: &[char]) -> (r: usize)
    requires
        utf8_len(s@) <= usize::MAX,
    ensures
        r == utf8_len(s@),
{
    let mut acc: usize = 0;
    let mut i: usize = 0;
    assert(s@.take(0) =~= Seq::<char>::empty());
    while i < s.len()
        invariant
            i <= s@.len(),
            utf8_len(s@) <= usize::MAX,
            acc == utf8_len(s@.take(i as int)),
        decreases s.len() - i,
    {
        proof {
            lemma_utf8_len_take_step(s@, i as int);
            lemma_utf8_len_subrange(s@, 0, i + 1);
            assert(s@.subrange(0, i + 1) =~= s@.take(i + 1));
        }
        acc = acc + char_utf8_width(s[i]);
        i = i + 1;
    }
    assert(s@.take(i as int) =~= s@);
    acc
}

/// Splitting into words after a whitespace character: the words before it,
/// then the words after it.
pub proof fn lemma_words_split_at_ws(a: Seq<char>, b: Seq<char>, cur: Seq<char>)
    requires
        a.len() > 0,
        is_ws(a.last()),
    ensures
        words_from(a + b, cur) == words_from(a, cur) + words_from(b, seq![]),
    decreases a.len(),
{
    let c = a[0];
    let a1 = a.drop_first();
    assert((a + b).drop_first() =~= a1 + b);
    assert((a + b)[0] == c);
    if is_ws(c) {
        if a1.len() == 0 {
            assert(a1 + b =~= b);
            assert(words_from(a1, seq![]) =~= Seq::<Seq<char>>::empty());
            assert(words_from(a, cur) =~= flush_word(cur));
        } else {
            assert(a1.last() == a.last());
            lemma_words_split_at_ws(a1, b, seq![]);
        }
    } else {
        assert(a1.len() > 0);
        assert(a1.last() == a.last());
        lemma_words_split_at_ws(a1, b, cur.push(c));
    }
}

/// A word followed by whitespace only is one word.
pub proof fn lemma_words_single(w: Seq<char>, t: Seq<char>)
    requires
        w.len() > 0,
        forall|k: int| 0 <= k < w.len() ==> !is_ws(w[k]),
        forall|k: int| 0 <= k < t.len() ==> is_ws(t[k]),
    ensures
        words(w + t) == seq![w],
{
    let s = w + t;
    assert forall|k: int| 0 <= k < w.len() implies !is_ws(s[k]) by {
        assert(s[k] == w[k]);
    }
    lemma_words_read_word(s, seq![], w.len() as int);
    assert(s.skip(w.len() as int) =~= t);
    assert(Seq::<char>::empty() + s.take(w.len() as int) =~= w);
    if t.len() == 0 {
        assert(flush_word(w) =~= seq![w]);
    } else {
        let t1 = t.drop_first();
        assert forall|k: int| 0 <= k < t1.len() implies is_ws(t1[k]) by {
            assert(t1[k] == t[k + 1]);
        }
        lemma_words_skip_ws(t1, t1.len() as int);
        assert(t1.skip(t1.len() as int) =~= Seq::<char>::empty());
        assert(words_from(t1, seq![]) =~= Seq::<Seq<char>>::empty());
        assert(flush_word(w) =~= seq![w]);
        assert(words_from(t, w) =~= seq![w]);
    }
}

/// The last word of `s`, as character positions: where it starts and ends.
pub fn last_word_bounds(s: &[char]) -> (r: Option<(usize, usize)>)
    ensures
        match r {
            Some((i, j)) => i < j <= s@.len() && words(s@).len() > 0 && words(s@).last()
                == s@.subrange(i as int, j as int),
            None => words(s@).len() == 0,
        },
{
    let mut j: usize = s.len();
    while j > 0 && char_is_ws(s[j - 1])
        invariant
            j <= s@.len(),
            forall|k: int| j <= k < s@.len() ==> is_ws(s@[k]),
        decreases j,
    {
        j = j - 1;
    }
    if j == 0 {
        proof {
            lemma_words_skip_ws(s@, s@.len() as int);
            assert(s@.skip(s@.len() as int) =~= Seq::<char>::empty());
            assert(words(s@) =~= flush_word(seq![]));
        }
        return None;
    }
    let mut i: usize = j - 1;
    while i > 0 && !char_is_ws(s[i - 1])
        invariant
            i < j,
            j <= s@.len(),
            forall|k: int| i <= k < j ==> !is_ws(s@[k]),
        decreases i,
    {
        i = i - 1;
    }
    proof {
        let w = s@.subrange(i as int, j as int);
        let t = s@.skip(j as int);
        assert forall|k: int| 0 <= k < w.len() implies !is_ws(w[k]) by {
            assert(w[k] == s@[i + k]);
        }
        assert forall|k: int| 0 <= k < t.len() implies is_ws(t[k]) by {
            assert(t[k] == s@[j + k]);
        }
        lemma_words_single(w, t);
        assert(s@.skip(i as int) =~= w + t);
        if i == 0 {
            assert(s@ =~= w + t);
        } else {
            let a = s@.take(i as int);
            assert(a.last() == s@[i - 1]);
            lemma_words_split_at_ws(a, w + t, seq![]);
            assert(a + (w + t) =~= s@);
        }
    }
    Some((i, j))
}

/// Whether the UTF-8 encoding of `s` has at most `bound` bytes.
pub fn utf8_len_at_most(s: &[char], bound: usize) -> (r: bool)
    ensures
        r == (utf8_len(s@) <= bound),
{
    let mut acc: usize = 0;
    let mut i: usize = 0;
    assert(s@.skip(0) =~= s@);
    while i < s.len()
        invariant
            i <= s@.len(),
            acc <= bound,
            acc + utf8_len(s@.skip(i as int)) == utf8_len(s@),
        decreases s.len() - i,
    {
        let w = char_utf8_width(s[i]);
        proof {
            lemma_utf8_len_first(s@.skip(i as int));
            assert(s@.skip(i as int).drop_first() =~= s@.skip(i + 1));
        }
        if w > bound - acc {
            return false;
        }
        acc = acc + w;
        i = i + 1;
    }
    assert(s@.skip(i as int) =~= Seq::<char>::empty());
    true
}

/// What `trim_start` leaves starts with a non-whitespace character, and is a suffix.
pub proof fn lemma_trim_start_first(s: Seq<char>)
    ensures
        trim_start(s).len() > 0 ==> !is_ws(trim_start(s)[0]),
        trim_start(s).len() <= s.len(),
        trim_start(s) == s.skip(s.len() - trim_start(s).len()),
    decreases s.len(),
{
    if s.len() > 0 && is_ws(s[0]) {
        lemma_trim_start_first(s.drop_first());
        assert(s.drop_first().skip(s.drop_first().len() - trim_start(s).len()) =~= s.skip(
            s.len() - trim_start(s).len(),
        ));
    } else {
        assert(s.skip(0) =~= s);
    }
}

/// What `trim_end` leaves ends with a non-whitespace character, and is a prefix.
pub proof fn lemma_trim_end_last(s: Seq<char>)
    ensures
        trim_end(s).len() > 0 ==> !is_ws(trim_end(s).last()),
        trim_end(s).len() <= s.len(),
        trim_end(s) == s.take(trim_end(s).len() as int),
    decreases s.len(),
{
    if s.len() > 0 && is_ws(s.last()) {
        lemma_trim_end_last(s.drop_last());
        assert(s.drop_last().take(trim_end(s).len() as int) =~= s.take(trim_end(s).len() as int));
    } else {
        assert(s.take(s.len() as int) =~= s);
    }
}

/// A trimmed text, when not empty, starts and ends with non-whitespace characters.
pub proof fn lemma_trim_last(s: Seq<char>)
    ensures
        trim(s).len() > 0 ==> !is_ws(trim(s)[0]) && !is_ws(trim(s).last()),
{
    lemma_trim_start_first(s);
    lemma_trim_end_last(trim_start(s));
    if trim(s).len() > 0 {
        assert(trim(s)[0] == trim_start(s)[0]);
    }
}

/// Every word is a non-empty run of non-whitespace characters.
pub proof fn lemma_words_are_tokens(s: Seq<char>, cur: Seq<char>)
    requires
        forall|k: int| 0 <= k < cur.len() ==> !is_ws(#[trigger] cur[k]),
    ensures
        forall|i: int| 0 <= i < words_from(s, cur).len() ==> (#[trigger] words_from(s, cur)[i]).len() > 0
            && forall|k: int| 0 <= k < words_from(s, cur)[i].len() ==> !is_ws(#[trigger] words_from(s, cur)[i][k]),
    decreases s.len(),
{
    if s.len() == 0 {
        let r = words_from(s, cur);
        assert(r == flush_word(cur));
        assert forall|i: int| 0 <= i < r.len() implies (#[trigger] r[i]).len() > 0 && forall|k: int| 0 <= k < r[i].len()
            ==> !is_ws(#[trigger] r[i][k]) by {
            assert(r[i] == cur);
        }
    } else if is_ws(s[0]) {
        lemma_words_are_tokens(s.drop_first(), seq![]);
        let r = words_from(s, cur);
        let f = flush_word(cur);
        let rest = words_from(s.drop_first(), seq![]);
        assert(r == f + rest);
        assert forall|i: int| 0 <= i < r.len() implies (#[trigger] r[i]).len() > 0 && forall|k: int| 0 <= k < r[i].len()
            ==> !is_ws(#[trigger] r[i][k]) by {
            if i < f.len() {
                assert(r[i] == cur);
            } else {
                assert(r[i] == rest[i - f.len()]);
            }
        }
    } else {
        let c2 = cur.push(s[0]);
        assert forall|k: int| 0 <= k < c2.len() implies !is_ws(#[trigger] c2[k]) by {
            if k < cur.len() {
                assert(c2[k] == cur[k]);
            }
        }
        lemma_words_are_tokens(s.drop_first(), c2);
        assert(words_from(s, cur) == words_from(s.drop_first(), c2));
    }
}
} // verus!
