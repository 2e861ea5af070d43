//! Choosing a saved session to resume with `/resume`: which sessions can be
//! picked, how they are listed, and how the command's argument is read.

use vstd::prelude::*;
use vstd::string::StrSliceExecFns;
use crate::text::{
    chars_of, decimal, first_word_bounds, join, string_of, usize_to_string, words,
};

verus! {

/// A session resolved for `/resume`: its id, its name and its conversation
/// (the message texts, oldest first).
#[derive(Debug, Clone)]
pub struct ResumedSession {
    pub session_id: String,
    pub name: String,
    pub conversation: Vec<String>,
}

/// One row in the `/resume` session list (bare `/resume` with no target).
#[derive(Debug, Clone)]
pub struct ResumeSessionListEntry {
    pub session_id: String,
    pub name: String,
    pub message_count: usize,
    pub is_current: bool,
}

/// The rows that can be picked: all but the current session, in order.
pub open spec fn selectable(entries: Seq<ResumeSessionListEntry>) -> Seq<ResumeSessionListEntry>
    decreases entries.len(),
{
    if entries.len() == 0 {
        seq![]
    } else {
        let rest = selectable(entries.drop_last());
        if entries.last().is_current {
            rest
        } else {
            rest.push(entries.last())
        }
    }
}

/// A stored session as `/resume` reads it: its id, name and message count.
#[derive(Debug, Clone)]
pub struct StoredSession {
    pub id: String,
    pub name: String,
    pub message_count: usize,
}

/// A list row as mathematical values: id, name, message count, current.
pub open spec fn entry_view(e: ResumeSessionListEntry) -> (Seq<char>, Seq<char>, nat, bool) {
    (e.session_id@, e.name@, e.message_count as nat, e.is_current)
}

/// The rows listed for `/resume`: each stored session with at least one
/// message, in order, marked current when its id is the current session's.
pub open spec fn resume_list(sessions: Seq<StoredSession>, current: Option<Seq<char>>) -> Seq<
    (Seq<char>, Seq<char>, nat, bool),
>
    decreases sessions.len(),
{
    if sessions.len() == 0 {
        seq![]
    } else {
        let rest = resume_list(sessions.drop_last(), current);
        let s = sessions.last();
        if s.message_count > 0 {
            rest.push((s.id@, s.name@, s.message_count as nat, current == Some(s.id@)))
        } else {
            rest
        }
    }
}

/// The `/resume` rows for the stored sessions (most recent first, as given):
/// empty sessions are left out and the current one is marked.
pub fn list_resume_sessions(sessions: &[StoredSession], current_session_id: Option<&str>) -> (r: Vec<
    ResumeSessionListEntry,
>)
    ensures
        r@.map_values(|e: ResumeSessionListEntry| entry_view(e)) == resume_list(
            sessions@,
            match current_session_id {
                Some(c) => Some(c@),
                None => None,
            },
        ),
{
    let ghost cur = match current_session_id {
        Some(c) => Some(c@),
        None => None::<Seq<char>>,
    };
    let mut r: Vec<ResumeSessionListEntry> = Vec::new();
    let mut i: usize = 0;
    while i < sessions.len()
        invariant
            i <= sessions@.len(),
            cur == (match current_session_id {
                Some(c) => Some(c@),
                None => None::<Seq<char>>,
            }),
            r@.map_values(|e: ResumeSessionListEntry| entry_view(e)) == resume_list(
                sessions@.take(i as int),
                cur,
            ),
        decreases sessions.len() - i,
    {
        let s = &sessions[i];
        assert(sessions@.take(i + 1).drop_last() =~= sessions@.take(i as int));
        if s.message_count > 0 {
            let is_current = match current_session_id {
                Some(c) => crate::text::chars_eq(&chars_of(c), &chars_of(s.id.as_str())),
                None => false,
            };
            let e = ResumeSessionListEntry {
                session_id: s.id.clone(),
                name: s.name.clone(),
                message_count: s.message_count,
                is_current,
            };
            let ghost before = r@.map_values(|e: ResumeSessionListEntry| entry_view(e));
            r.push(e);
            assert(r@.map_values(|e: ResumeSessionListEntry| entry_view(e)) =~= before.push(
                entry_view(e),
            ));
        }
        i = i + 1;
    }
    assert(sessions@.take(i as int) =~= sessions@);
    r
}

/// The target of a resume, trimmed, or the error for a blank one.
pub open spec fn resume_lookup_of(target: Seq<char>) -> Result<Seq<char>, Seq<char>> {
    let t = crate::text::trim(target);
    if t.len() == 0 {
        Err("Specify a session name or id. Use `/resume` to list saved sessions."@)
    } else {
        Ok(t)
    }
}

/// The session id to look up first when resuming `target` (its trimmed text),
/// or why there is none.
pub fn resume_lookup(target: &str) -> (r: Result<String, String>)
    ensures
        match r {
            Ok(t) => resume_lookup_of(target@) == Ok::<Seq<char>, Seq<char>>(t@),
            Err(e) => resume_lookup_of(target@) == Err::<Seq<char>, Seq<char>>(e@),
        },
{
    let t = crate::text::trim_str(target);
    if t.as_str().is_empty() {
        return Err("Specify a session name or id. Use `/resume` to list saved sessions.".to_owned());
    }
    Ok(t)
}

/// Index of the first stored session named `target` or with id `target`, from `i` on.
pub open spec fn session_match_from(sessions: Seq<StoredSession>, target: Seq<char>, i: int) -> Option<int>
    decreases sessions.len() - i,
{
    if i < 0 || i >= sessions.len() {
        None
    } else if sessions[i].name@ == target || sessions[i].id@ == target {
        Some(i)
    } else {
        session_match_from(sessions, target, i + 1)
    }
}

/// The id of the session to resume when `target` is not itself a session id:
/// the first stored session named `target` or with id `target`.
pub open spec fn found_session(sessions: Seq<StoredSession>, target: Seq<char>) -> Result<Seq<char>, Seq<char>> {
    match session_match_from(sessions, target, 0) {
        Some(i) => Ok(sessions[i].id@),
        None => Err("No session found with name or id '"@ + target + "'"@),
    }
}

/// The id of the first stored session whose name or id is `target`, or the
/// error naming the missing target.
pub fn find_resume_session(sessions: &[StoredSession], target: &str) -> (r: Result<String, String>)
    ensures
        match r {
            Ok(id) => found_session(sessions@, target@) == Ok::<Seq<char>, Seq<char>>(id@),
            Err(e) => found_session(sessions@, target@) == Err::<Seq<char>, Seq<char>>(e@),
        },
{
    let t = chars_of(target);
    let mut i: usize = 0;
    while i < sessions.len()
        invariant
            i <= sessions@.len(),
            t@ == target@,
            session_match_from(sessions@, target@, 0) == session_match_from(sessions@, target@, i as int),
        decreases sessions.len() - i,
    {
        let s = &sessions[i];
        if crate::text::chars_eq(&chars_of(s.name.as_str()), &t) || crate::text::chars_eq(
            &chars_of(s.id.as_str()),
            &t,
        ) {
            return Ok(s.id.clone());
        }
        i = i + 1;
    }
    let mut msg = chars_of("No session found with name or id '");
    msg = crate::text::concat(&msg, &t);
    msg = crate::text::concat(&msg, &chars_of("'"));
    Err(string_of(&msg))
}

/// Sessions that can be selected from the tip menu (not the current one), in order.
pub fn selectable_resume_sessions<'a>(entries: &'a [ResumeSessionListEntry]) -> (r: Vec<
    &'a ResumeSessionListEntry,
>)
    ensures
        r@.map_values(|e: &ResumeSessionListEntry| *e) == selectable(entries@),
{
    let mut r: Vec<&'a ResumeSessionListEntry> = Vec::new();
    let mut i: usize = 0;
    assert(entries@.take(0) =~= Seq::<ResumeSessionListEntry>::empty());
    assert(r@.map_values(|e: &ResumeSessionListEntry| *e) =~= Seq::<ResumeSessionListEntry>::empty());
    while i < entries.len()
        invariant
            i <= entries@.len(),
            r@.map_values(|e: &ResumeSessionListEntry| *e) == selectable(entries@.take(i as int)),
        decreases entries.len() - i,
    {
        assert(entries@.take(i + 1).drop_last() =~= entries@.take(i as int));
        assert(entries@.take(i + 1).last() == entries@[i as int]);
        let ghost before = r@.map_values(|e: &ResumeSessionListEntry| *e);
        if !entries[i].is_current {
            r.push(&entries[i]);
            assert(r@.map_values(|e: &ResumeSessionListEntry| *e) =~= before.push(entries@[i as int]));
        }
        i = i + 1;
    }
    assert(entries@.take(i as int) =~= entries@);
    r
}

/// `"{n} msgs"`, or `"1 msg"` for one.
pub open spec fn message_count_text(n: nat) -> Seq<char> {
    if n == 1 {
        "1 msg"@
    } else {
        decimal(n) + " msgs"@
    }
}

/// The label of a row: `"{name}  ({count})  [{id}]"`, the name being
/// `(unnamed)` when empty, followed by `" · current"` for the current session.
pub open spec fn session_label(e: ResumeSessionListEntry) -> Seq<char> {
    let name = if e.name@.len() == 0 {
        "(unnamed)"@
    } else {
        e.name@
    };
    let current = if e.is_current {
        " · current"@
    } else {
        ""@
    };
    name + "  ("@ + message_count_text(e.message_count as nat) + ")  ["@ + e.session_id@ + "]"@
        + current
}

/// Appends `b` to the characters `a`.
fn push_str(a: &mut Vec<char>, b: &str)
    ensures
        final(a)@ == old(a)@ + b@,
{
    let cs = chars_of(b);
    let mut i: usize = 0;
    let ghost start = a@;
    while i < cs.len()
        invariant
            i <= cs@.len(),
            cs@ == b@,
            a@ == start + cs@.take(i as int),
        decreases cs.len() - i,
    {
        a.push(cs[i]);
        assert(cs@.take(i + 1) =~= cs@.take(i as int).push(cs@[i as int]));
        i = i + 1;
    }
    assert(cs@.take(i as int) =~= cs@);
}

/// Display label for a resume-list entry (used by the tip menu and the text list).
pub fn format_resume_session_label(entry: &ResumeSessionListEntry) -> (r: String)
    ensures
        r@ == session_label(*entry),
{
    proof {
        reveal_strlit("");
    }
    let mut out: Vec<char> = Vec::new();
    if entry.name.as_str().is_empty() {
        push_str(&mut out, "(unnamed)");
    } else {
        push_str(&mut out, entry.name.as_str());
    }
    push_str(&mut out, "  (");
    let ghost prefix = out@;
    if entry.message_count == 1 {
        push_str(&mut out, "1 msg");
    } else {
        push_str(&mut out, usize_to_string(entry.message_count).as_str());
        push_str(&mut out, " msgs");
        assert(out@ =~= prefix + message_count_text(entry.message_count as nat));
    }
    push_str(&mut out, ")  [");
    push_str(&mut out, entry.session_id.as_str());
    push_str(&mut out, "]");
    if entry.is_current {
        push_str(&mut out, " · current");
    }
    let r = string_of(&out);
    assert(r@ =~= session_label(*entry));
    r
}

/// The text for an empty list.
pub open spec fn empty_list_text() -> Seq<char> {
    "No other saved sessions with messages found.\n\nChat in a session first, then use `/resume` to pick one."@
}

/// The lines of a non-empty list: a header, a blank line, one indented label
/// per selectable session, a blank line and two lines of usage.
pub open spec fn list_lines(sel: Seq<ResumeSessionListEntry>) -> Seq<Seq<char>> {
    seq!["Saved sessions with messages (most recent first):"@, ""@]
        + sel.map_values(|e: ResumeSessionListEntry| "  "@ + session_label(e))
        + seq![
        ""@,
        "In the interactive CLI, `/resume` opens a tip menu to pick one."@,
        "Or resume directly: `/resume <name-or-id>`"@,
    ]
}

/// The text of `format_resume_session_list`.
pub open spec fn session_list_text(entries: Seq<ResumeSessionListEntry>) -> Seq<char> {
    let sel = selectable(entries);
    if sel.len() == 0 {
        empty_list_text()
    } else {
        join(list_lines(sel), "\n"@)
    }
}

/// Format a human-readable list of saved sessions for non-interactive `/resume`.
pub fn format_resume_session_list(
    entries: &[ResumeSessionListEntry],
    current_session_id: Option<&str>,
) -> (r: String)
    ensures
        r@ == session_list_text(entries@),
{
    let picks = selectable_resume_sessions(entries);
    let ghost sel = selectable(entries@);
    if picks.len() == 0 {
        return "No other saved sessions with messages found.\n\nChat in a session first, then use `/resume` to pick one.".to_owned();
    }
    let mut lines: Vec<Vec<char>> = Vec::new();
    lines.push(chars_of("Saved sessions with messages (most recent first):"));
    lines.push(Vec::new());
    let mut i: usize = 0;
    let ghost head = seq!["Saved sessions with messages (most recent first):"@, ""@];
    proof {
        reveal_strlit("");
    }
    assert(crate::text::views(lines@)[1] =~= ""@);
    assert(crate::text::views(lines@) =~= head);
    while i < picks.len()
        invariant
            i <= picks@.len(),
            picks@.map_values(|e: &ResumeSessionListEntry| *e) == sel,
            crate::text::views(lines@) == head + sel.take(i as int).map_values(
                |e: ResumeSessionListEntry| "  "@ + session_label(e),
            ),
        decreases picks.len() - i,
    {
        let mut line: Vec<char> = Vec::new();
        push_str(&mut line, "  ");
        push_str(&mut line, format_resume_session_label(picks[i]).as_str());
        let ghost before = crate::text::views(lines@);
        lines.push(line);
        assert(sel[i as int] == *picks@[i as int]);
        assert(sel.take(i + 1).map_values(|e: ResumeSessionListEntry| "  "@ + session_label(e))
            =~= sel.take(i as int).map_values(|e: ResumeSessionListEntry| "  "@ + session_label(e)).push(
            "  "@ + session_label(sel[i as int]),
        ));
        assert(crate::text::views(lines@) =~= before.push(line@));
        i = i + 1;
    }
    lines.push(Vec::new());
    lines.push(chars_of("In the interactive CLI, `/resume` opens a tip menu to pick one."));
    lines.push(chars_of("Or resume directly: `/resume <name-or-id>`"));
    proof {
        assert(sel.take(i as int) =~= sel);
        assert(crate::text::views(lines@)[lines@.len() - 3] =~= ""@);
        assert(crate::text::views(lines@) =~= list_lines(sel));
    }
    string_of(&crate::text::join_chars(&lines, &chars_of("\n")))
}

/// The target of `/resume`: the first whitespace-separated token of its
/// arguments, or none when they are blank.
pub open spec fn resume_target(params: Seq<char>) -> Option<Seq<char>> {
    if words(params).len() == 0 {
        None
    } else {
        Some(words(params)[0])
    }
}

/// Parse `/resume` arguments: bare command, or a single name/id token.
pub fn parse_resume_target(params_str: &str) -> (r: Option<&str>)
    ensures
        match r {
            Some(t) => resume_target(params_str@) == Some(t@),
            None => resume_target(params_str@) is None,
        },
{
    let cs = chars_of(params_str);
    match first_word_bounds(&cs) {
        Some((i, j)) => Some(params_str.substring_char(i, j)),
        None => None,
    }
}


/// The current session is never offered, and every other session is.
pub proof fn law_selectable(entries: Seq<ResumeSessionListEntry>)
    ensures
        forall|k: int| 0 <= k < selectable(entries).len() ==> !(#[trigger] selectable(entries)[k]).is_current
            && entries.contains(selectable(entries)[k]),
        forall|k: int| 0 <= k < entries.len() && !(#[trigger] entries[k]).is_current ==> selectable(entries).contains(
            entries[k],
        ),
    decreases entries.len(),
{
    if entries.len() > 0 {
        let p = entries.drop_last();
        law_selectable(p);
        let r = selectable(entries);
        let rp = selectable(p);
        assert forall|k: int| 0 <= k < r.len() implies !(#[trigger] r[k]).is_current && entries.contains(r[k]) by {
            if k < rp.len() {
                assert(r[k] == rp[k]);
                let j = choose|j: int| 0 <= j < p.len() && p[j] == rp[k];
                assert(entries[j] == r[k]);
            } else {
                assert(r[k] == entries.last());
                assert(entries[entries.len() - 1] == r[k]);
            }
        }
        assert forall|k: int| 0 <= k < entries.len() && !(#[trigger] entries[k]).is_current implies r.contains(entries[k]) by {
            if k < entries.len() - 1 {
                assert(p[k] == entries[k]);
                let j = choose|j: int| 0 <= j < rp.len() && rp[j] == p[k];
                assert(r[j] == entries[k]);
            } else {
                assert(r[r.len() - 1] == entries[k]);
            }
        }
    }
}

/// The target read from `/resume` arguments is a single non-empty token with
/// no whitespace, and reading it again gives it back.
pub proof fn law_resume_target_token(params: Seq<char>)
    ensures
        match resume_target(params) {
            Some(t) => t.len() > 0 && (forall|k: int| 0 <= k < t.len() ==> !crate::text::is_ws(#[trigger] t[k]))
                && resume_target(t) == Some(t),
            None => true,
        },
{
    crate::text::lemma_words_are_tokens(params, seq![]);
    match resume_target(params) {
        Some(t) => {
            assert(t == words(params)[0]);
            crate::text::lemma_words_single(t, seq![]);
            assert(t + Seq::<char>::empty() =~= t);
        },
        None => {},
    }
}
} // verus!
