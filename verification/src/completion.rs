//! Tab completion and hints for the goose CLI prompt: slash commands, prompt
//! names, flags and arguments, `/mode`, `/skills` and `/resume` arguments, and
//! the slash-command tip menu.
//!
//! The line editor, the terminal and the file system stay with the caller:
//! completion here decides on the line and on data the caller supplies (the
//! agent's commands, cached prompts, saved sessions, skills, modes).

use vstd::prelude::*;
use crate::text::{
    chars_eq, chars_of, concat, copy_range, has_char, has_prefix, is_ws, string_of, string_views,
    trim_end, trim_end_chars, trim_start, words, starts_with, utf8_len,
};

verus! {

/// A completion candidate: what the menu shows and what Tab writes into the line.
#[derive(Debug, Clone)]
pub struct Candidate {
    pub display: String,
    pub replacement: String,
}

/// A candidate as mathematical values.
pub open spec fn candidate_view(c: Candidate) -> (Seq<char>, Seq<char>) {
    (c.display@, c.replacement@)
}

/// Views of candidates.
pub open spec fn candidate_views(cs: Seq<Candidate>) -> Seq<(Seq<char>, Seq<char>)> {
    cs.map_values(|c: Candidate| candidate_view(c))
}

/// Views of (name, description) pairs.
pub open spec fn pair_views(v: Seq<(String, String)>) -> Seq<(Seq<char>, Seq<char>)> {
    v.map_values(|p: (String, String)| (p.0@, p.1@))
}

/// CLI-local slash commands (name and tip-menu description), besides the agent's.
pub open spec fn cli_slash_commands() -> Seq<(Seq<char>, Seq<char>)> {
    seq![
        ("/exit"@, "quit session"@),
        ("/quit"@, "quit session"@),
        ("/help"@, "show all commands"@),
        ("/?"@, "show all commands"@),
        ("/t"@, "toggle theme"@),
        ("/r"@, "toggle full tool output"@),
        ("/extension"@, "add a stdio extension"@),
        ("/builtin"@, "add builtin extensions by name"@),
        ("/mode"@, "set goose mode (auto, approve, chat, …)"@),
        ("/model"@, "show or switch model"@),
        ("/plan"@, "enter plan mode"@),
        ("/endplan"@, "exit plan mode"@),
        ("/recipe"@, "save conversation as a recipe"@),
        ("/edit"@, "open prompt editor"@),
    ]
}

/// The splash-guide order: these commands come first in the tip menu.
pub open spec fn splash_order() -> Seq<Seq<char>> {
    seq![
        "/help"@,
        "/status"@,
        "/model"@,
        "/mode"@,
        "/plan"@,
        "/compact"@,
        "/skills"@,
        "/clear"@,
        "/exit"@,
    ]
}

/// The CLI-local slash commands.
fn cli_slash_command_list() -> (r: Vec<(String, String)>)
    ensures
        pair_views(r@) == cli_slash_commands(),
{
    let r = vec![
        ("/exit".to_owned(), "quit session".to_owned()),
        ("/quit".to_owned(), "quit session".to_owned()),
        ("/help".to_owned(), "show all commands".to_owned()),
        ("/?".to_owned(), "show all commands".to_owned()),
        ("/t".to_owned(), "toggle theme".to_owned()),
        ("/r".to_owned(), "toggle full tool output".to_owned()),
        ("/extension".to_owned(), "add a stdio extension".to_owned()),
        ("/builtin".to_owned(), "add builtin extensions by name".to_owned()),
        ("/mode".to_owned(), "set goose mode (auto, approve, chat, …)".to_owned()),
        ("/model".to_owned(), "show or switch model".to_owned()),
        ("/plan".to_owned(), "enter plan mode".to_owned()),
        ("/endplan".to_owned(), "exit plan mode".to_owned()),
        ("/recipe".to_owned(), "save conversation as a recipe".to_owned()),
        ("/edit".to_owned(), "open prompt editor".to_owned()),
    ];
    assert(pair_views(r@) =~= cli_slash_commands());
    r
}

/// Whether some entry is named `name`.
pub open spec fn has_name(v: Seq<(Seq<char>, Seq<char>)>, name: Seq<char>) -> bool {
    exists|i: int| 0 <= i < v.len() && v[i].0 == name
}

/// The CLI commands followed by each agent command (named with a leading `/`)
/// whose name is not taken yet, in order.
pub open spec fn with_agent_commands(acc: Seq<(Seq<char>, Seq<char>)>, agent: Seq<(Seq<char>, Seq<char>)>) -> Seq<
    (Seq<char>, Seq<char>),
>
    decreases agent.len(),
{
    if agent.len() == 0 {
        acc
    } else {
        let name = "/"@ + agent[0].0;
        let next = if has_name(acc, name) {
            acc
        } else {
            acc.push((name, agent[0].1))
        };
        with_agent_commands(next, agent.drop_first())
    }
}

/// Where a command stands in the splash order, or `usize::MAX`.
pub open spec fn splash_rank(name: Seq<char>) -> nat {
    let i = splash_order().index_of_first(name);
    match i {
        Some(k) => k as nat,
        None => usize::MAX as nat,
    }
}

/// `String` order: lexicographic by character (which is the order of the
/// UTF-8 bytes).
pub open spec fn lex_less(a: Seq<char>, b: Seq<char>) -> bool
    decreases a.len(),
{
    if a.len() == 0 {
        b.len() > 0
    } else if b.len() == 0 {
        false
    } else if a[0] != b[0] {
        a[0] < b[0]
    } else {
        lex_less(a.drop_first(), b.drop_first())
    }
}

/// Tip-menu order: by splash rank, then by name.
pub open spec fn entry_less(a: (Seq<char>, Seq<char>), b: (Seq<char>, Seq<char>)) -> bool {
    splash_rank(a.0) < splash_rank(b.0) || (splash_rank(a.0) == splash_rank(b.0) && lex_less(a.0, b.0))
}

/// `x` inserted into `s` before the first entry that it precedes.
pub open spec fn insert_entry(x: (Seq<char>, Seq<char>), s: Seq<(Seq<char>, Seq<char>)>) -> Seq<
    (Seq<char>, Seq<char>),
>
    decreases s.len(),
{
    if s.len() == 0 {
        seq![x]
    } else if entry_less(x, s[0]) {
        seq![x] + s
    } else {
        seq![s[0]] + insert_entry(x, s.drop_first())
    }
}

/// The stable sort of `s` in tip-menu order.
pub open spec fn sort_entries(s: Seq<(Seq<char>, Seq<char>)>) -> Seq<(Seq<char>, Seq<char>)>
    decreases s.len(),
{
    if s.len() == 0 {
        seq![]
    } else {
        insert_entry(s.last(), sort_entries(s.drop_last()))
    }
}

/// `slash_command_entries`: every slash command with its description, the
/// agent's commands added, in tip-menu order.
pub open spec fn slash_entries(agent: Seq<(Seq<char>, Seq<char>)>) -> Seq<(Seq<char>, Seq<char>)> {
    sort_entries(with_agent_commands(cli_slash_commands(), agent))
}

/// Where a command stands in the splash order, or `usize::MAX`.
fn rank_of(name: &String) -> (r: usize)
    ensures
        r == splash_rank(name@),
{
    let order = vec![
        "/help", "/status", "/model", "/mode", "/plan", "/compact", "/skills", "/clear", "/exit",
    ];
    let ghost so = splash_order();
    assert(order@.map_values(|s: &str| s@) =~= so);
    let c = chars_of(name.as_str());
    let mut i: usize = 0;
    while i < order.len()
        invariant
            i <= order@.len(),
            order@.len() == 9,
            order@.map_values(|s: &str| s@) == so,
            so == splash_order(),
            c@ == name@,
            forall|k: int| 0 <= k < i ==> so[k] != name@,
        decreases order.len() - i,
    {
        assert(so[i as int] == order@[i as int]@);
        if chars_eq(&chars_of(order[i]), &c) {
            proof {
                assert(so[i as int] == name@);
                assert(so.index_of_first(name@) == Some(i as int)) by {
                    so.index_of_first_ensures(name@);
                }
            }
            return i;
        }
        i = i + 1;
    }
    proof {
        assert(!so.contains(name@));
        so.index_of_first_ensures(name@);
    }
    usize::MAX
}

/// `String` order.
pub fn lex_less_chars(a: &[char], b: &[char]) -> (r: bool)
    ensures
        r == lex_less(a@, b@),
{
    let mut i: usize = 0;
    assert(a@.skip(0) =~= a@);
    assert(b@.skip(0) =~= b@);
    while i < a.len() && i < b.len() && a[i] == b[i]
        invariant
            i <= a@.len(),
            i <= b@.len(),
            lex_less(a@, b@) == lex_less(a@.skip(i as int), b@.skip(i as int)),
        decreases a.len() - i,
    {
        assert(a@.skip(i as int).drop_first() =~= a@.skip(i + 1));
        assert(b@.skip(i as int).drop_first() =~= b@.skip(i + 1));
        i = i + 1;
    }
    if i == a.len() {
        i < b.len()
    } else if i == b.len() {
        false
    } else {
        a[i] < b[i]
    }
}

/// Whether `a` comes before `b` in tip-menu order.
fn entry_before(a: &(String, String), b: &(String, String)) -> (r: bool)
    ensures
        r == entry_less((a.0@, a.1@), (b.0@, b.1@)),
{
    let ra = rank_of(&a.0);
    let rb = rank_of(&b.0);
    ra < rb || (ra == rb && lex_less_chars(&chars_of(a.0.as_str()), &chars_of(b.0.as_str())))
}

/// Inserting before the first entry that `x` precedes is cutting there.
proof fn lemma_insert_entry_at(x: (Seq<char>, Seq<char>), s: Seq<(Seq<char>, Seq<char>)>, p: int)
    requires
        0 <= p <= s.len(),
        forall|k: int| 0 <= k < p ==> !entry_less(x, #[trigger] s[k]),
        p == s.len() || entry_less(x, s[p]),
    ensures
        insert_entry(x, s) == s.take(p) + seq![x] + s.skip(p),
    decreases p,
{
    if p == 0 {
        assert(s.take(0) + seq![x] + s.skip(0) =~= seq![x] + s);
        if s.len() == 0 {
            assert(seq![x] + s =~= seq![x]);
        }
    } else {
        assert forall|k: int| 0 <= k < p - 1 implies !entry_less(x, #[trigger] s.drop_first()[k]) by {
            assert(s.drop_first()[k] == s[k + 1]);
        }
        if p - 1 < s.len() - 1 {
            assert(s.drop_first()[p - 1] == s[p]);
        }
        lemma_insert_entry_at(x, s.drop_first(), p - 1);
        assert(seq![s[0]] + (s.drop_first().take(p - 1) + seq![x] + s.drop_first().skip(p - 1))
            =~= s.take(p) + seq![x] + s.skip(p));
    }
}

/// Sorts entries in tip-menu order, stably.
fn sort_slash_entries(v: Vec<(String, String)>) -> (r: Vec<(String, String)>)
    ensures
        pair_views(r@) == sort_entries(pair_views(v@)),
{
    let ghost pv = pair_views(v@);
    let n = v.len();
    let mut out: Vec<(String, String)> = Vec::new();
    let mut rest = v;
    let mut i: usize = 0;
    assert(pv.take(0) =~= Seq::<(Seq<char>, Seq<char>)>::empty());
    assert(pair_views(out@) =~= Seq::<(Seq<char>, Seq<char>)>::empty());
    while rest.len() > 0
        invariant
            i + rest@.len() == pv.len(),
            pv.len() == n,
            pair_views(rest@) == pv.skip(i as int),
            pair_views(out@) == sort_entries(pv.take(i as int)),
        decreases rest@.len(),
    {
        let x = rest.remove(0);
        proof {
            assert(pv.skip(i as int)[0] == (x.0@, x.1@));
            assert(pv.skip(i as int).drop_first() =~= pv.skip(i + 1));
            assert(pair_views(rest@) =~= pv.skip(i + 1));
            assert(pv.take(i + 1).drop_last() =~= pv.take(i as int));
            assert(pv.take(i + 1).last() == (x.0@, x.1@));
        }
        let mut p: usize = 0;
        while p < out.len() && !entry_before(&x, &out[p])
            invariant
                p <= out@.len(),
                forall|k: int| 0 <= k < p ==> !entry_less((x.0@, x.1@), #[trigger] pair_views(out@)[k]),
            decreases out.len() - p,
        {
            p = p + 1;
        }
        proof {
            lemma_insert_entry_at((x.0@, x.1@), pair_views(out@), p as int);
        }
        let ghost before = pair_views(out@);
        out.insert(p, x);
        assert(pair_views(out@) =~= before.take(p as int) + seq![(x.0@, x.1@)] + before.skip(p as int));
        i = i + 1;
    }
    assert(pv.take(i as int) =~= pv);
    out
}

/// All slash-command entries (name with a leading `/`, description) for
/// autocomplete and the tip menu; `agent` lists the agent's commands (name
/// without `/`, description).
pub fn slash_command_entries(agent: &Vec<(String, String)>) -> (r: Vec<(String, String)>)
    ensures
        pair_views(r@) == slash_entries(pair_views(agent@)),
{
    let mut commands = cli_slash_command_list();
    let ghost av = pair_views(agent@);
    let mut i: usize = 0;
    assert(av.skip(0) =~= av);
    while i < agent.len()
        invariant
            i <= agent@.len(),
            av == pair_views(agent@),
            with_agent_commands(pair_views(commands@), av.skip(i as int)) == with_agent_commands(
                cli_slash_commands(),
                av,
            ),
        decreases agent.len() - i,
    {
        assert(av.skip(i as int).drop_first() =~= av.skip(i + 1));
        assert(av.skip(i as int)[0] == (agent@[i as int].0@, agent@[i as int].1@));
        let name = concat(&chars_of("/"), &chars_of(agent[i].0.as_str()));
        let mut taken = false;
        let mut k: usize = 0;
        while k < commands.len()
            invariant
                k <= commands@.len(),
                !taken ==> forall|j: int| 0 <= j < k ==> pair_views(commands@)[j].0 != name@,
                taken ==> has_name(pair_views(commands@), name@),
            decreases commands.len() - k,
        {
            if !taken && chars_eq(&chars_of(commands[k].0.as_str()), &name) {
                taken = true;
                assert(pair_views(commands@)[k as int].0 == name@);
            }
            k = k + 1;
        }
        if !taken {
            let ghost before = pair_views(commands@);
            commands.push((string_of(&name), agent[i].1.clone()));
            assert(pair_views(commands@) =~= before.push((name@, agent@[i as int].1@)));
        }
        i = i + 1;
    }
    assert(av.skip(i as int) =~= Seq::<(Seq<char>, Seq<char>)>::empty());
    sort_slash_entries(commands)
}

/// The entries whose name starts with `prefix`, in order.
pub open spec fn with_prefix(v: Seq<(Seq<char>, Seq<char>)>, prefix: Seq<char>) -> Seq<(Seq<char>, Seq<char>)>
    decreases v.len(),
{
    if v.len() == 0 {
        seq![]
    } else {
        let rest = with_prefix(v.drop_last(), prefix);
        if has_prefix(v.last().0, prefix) {
            rest.push(v.last())
        } else {
            rest
        }
    }
}

/// Slash commands whose name starts with `prefix` (e.g. `/`, `/pl`, `/ex`).
pub fn matching_slash_commands(prefix: &str, agent: &Vec<(String, String)>) -> (r: Vec<(String, String)>)
    ensures
        pair_views(r@) == with_prefix(slash_entries(pair_views(agent@)), prefix@),
{
    let all = slash_command_entries(agent);
    let p = chars_of(prefix);
    let ghost av = pair_views(all@);
    let mut r: Vec<(String, String)> = Vec::new();
    let mut i: usize = 0;
    assert(av.take(0) =~= Seq::<(Seq<char>, Seq<char>)>::empty());
    assert(pair_views(r@) =~= Seq::<(Seq<char>, Seq<char>)>::empty());
    while i < all.len()
        invariant
            i <= all@.len(),
            av == pair_views(all@),
            p@ == prefix@,
            pair_views(r@) == with_prefix(av.take(i as int), prefix@),
        decreases all.len() - i,
    {
        assert(av.take(i + 1).drop_last() =~= av.take(i as int));
        assert(av.take(i + 1).last() == (all@[i as int].0@, all@[i as int].1@));
        if starts_with(&chars_of(all[i].0.as_str()), &p) {
            let ghost before = pair_views(r@);
            r.push((all[i].0.clone(), all[i].1.clone()));
            assert(pair_views(r@) =~= before.push((all@[i as int].0@, all@[i as int].1@)));
        }
        i = i + 1;
    }
    assert(av.take(i as int) =~= av);
    r
}


/// `is_slash_command_name_input`: the cursor is at the end of the line and the
/// line (without trailing whitespace) is empty or a `/` word with no space or tab.
pub open spec fn naming_slash_command(line: Seq<char>, pos: nat) -> bool {
    if pos < utf8_len(line) {
        false
    } else {
        let t = trim_end(line);
        t.len() == 0 || (t[0] == '/' && !has_char(t.skip(1), ' ') && !has_char(t.skip(1), '\t'))
    }
}

/// True while the line is still naming a slash command (no arguments yet).
pub fn is_slash_command_name_input(line: &str, pos: usize) -> (r: bool)
    requires
        utf8_len(line@) <= usize::MAX,
    ensures
        r == naming_slash_command(line@, pos as nat),
{
    if pos < line.len() {
        return false;
    }
    let t = trim_end_chars(&chars_of(line));
    if t.len() == 0 {
        return true;
    }
    if t[0] != '/' {
        return false;
    }
    let rest = copy_range(&t, 1, t.len());
    assert(rest@ =~= t@.skip(1));
    !crate::text::contains_char(&rest, ' ') && !crate::text::contains_char(&rest, '\t')
}

/// `cycle_menu_index`: the next (or previous) menu position, wrapping around;
/// an out-of-range position counts as the last.
pub open spec fn cycled(len: nat, idx: nat, forward: bool) -> nat {
    if len == 0 {
        0
    } else {
        let i = if idx < len {
            idx
        } else {
            (len - 1) as nat
        };
        if forward {
            ((i + 1) % len) as nat
        } else if i == 0 {
            (len - 1) as nat
        } else {
            (i - 1) as nat
        }
    }
}

/// Advance (or reverse) a menu cursor with wrap-around.
pub fn cycle_menu_index(len: usize, idx: usize, forward: bool) -> (r: usize)
    ensures
        r == cycled(len as nat, idx as nat, forward),
        len > 0 ==> r < len,
{
    if len == 0 {
        return 0;
    }
    let i = if idx < len - 1 {
        idx
    } else {
        len - 1
    };
    if forward {
        if i + 1 == len {
            assert(((i + 1) as nat) % (len as nat) == 0) by (nonlinear_arith)
                requires
                    i + 1 == len,
                    len > 0,
            ;
            0
        } else {
            assert(((i + 1) as nat) % (len as nat) == i + 1) by (nonlinear_arith)
                requires
                    i + 1 < len,
            ;
            i + 1
        }
    } else if i == 0 {
        len - 1
    } else {
        i - 1
    }
}

/// What asking for the tip menu leads to.
#[derive(Debug, Clone)]
pub enum TipMenu {
    /// No command matches.
    NoMatch,
    /// Exactly one command matches: it is chosen without a menu.
    Unique(String),
    /// Several commands match: the menu offers them (name, description).
    Choose(Vec<(String, String)>),
}

/// `prompt_slash_command_tip_menu` up to the menu: the commands matching the
/// prefix (`/` when empty).
pub open spec fn tip_menu_of(prefix: Seq<char>, agent: Seq<(Seq<char>, Seq<char>)>) -> Seq<
    (Seq<char>, Seq<char>),
> {
    let p = if prefix.len() == 0 {
        "/"@
    } else {
        prefix
    };
    with_prefix(slash_entries(agent), p)
}

/// The tip menu for slash commands matching `prefix`: none, a unique command,
/// or a choice among several (which the caller presents; see [`menu_step`]).
pub fn prompt_slash_command_tip_menu(prefix: &str, agent: &Vec<(String, String)>) -> (r: TipMenu)
    ensures
        ({
            let m = tip_menu_of(prefix@, pair_views(agent@));
            match r {
                TipMenu::NoMatch => m.len() == 0,
                TipMenu::Unique(name) => m.len() == 1 && name@ == m[0].0,
                TipMenu::Choose(items) => m.len() > 1 && pair_views(items@) == m,
            }
        }),
{
    let matching = if prefix.is_empty() {
        matching_slash_commands("/", agent)
    } else {
        matching_slash_commands(prefix, agent)
    };
    if matching.len() == 0 {
        return TipMenu::NoMatch;
    }
    if matching.len() == 1 {
        return TipMenu::Unique(matching[0].0.clone());
    }
    TipMenu::Choose(matching)
}

/// A key read while the tip menu is open.
#[derive(Debug, Clone, Copy, PartialEq, Eq)]
pub enum MenuKey {
    Tab,
    BackTab,
    ArrowUp,
    ArrowDown,
    Enter,
    Escape,
    Char(char),
    Other,
}

/// What the tip menu does on a key.
#[derive(Debug, Clone, Copy, PartialEq, Eq)]
pub enum MenuStep {
    /// Move the cursor to this position and redraw.
    Move(usize),
    /// Complete the prompt with the item at this position.
    Choose(usize),
    /// Close the menu without a choice.
    Cancel,
    /// Ignore the key.
    Stay,
}

/// The tip menu's response to a key: Tab, ↓, `j` and `l` move forward; Shift+Tab,
/// ↑, `k` and `h` move back (both wrapping); Enter chooses; Esc cancels.
pub open spec fn menu_response(n: nat, cursor: nat, key: MenuKey) -> MenuStep {
    match key {
        MenuKey::Tab | MenuKey::ArrowDown => MenuStep::Move(cycled(n, cursor, true) as usize),
        MenuKey::Char(c) => if c == 'j' || c == 'l' {
            MenuStep::Move(cycled(n, cursor, true) as usize)
        } else if c == 'k' || c == 'h' {
            MenuStep::Move(cycled(n, cursor, false) as usize)
        } else {
            MenuStep::Stay
        },
        MenuKey::BackTab | MenuKey::ArrowUp => MenuStep::Move(cycled(n, cursor, false) as usize),
        MenuKey::Enter => MenuStep::Choose(cursor as usize),
        MenuKey::Escape => MenuStep::Cancel,
        MenuKey::Other => MenuStep::Stay,
    }
}

/// One step of the tip menu with `n` items and the cursor at `cursor`.
pub fn menu_step(n: usize, cursor: usize, key: MenuKey) -> (r: MenuStep)
    ensures
        r == menu_response(n as nat, cursor as nat, key),
{
    match key {
        MenuKey::Tab | MenuKey::ArrowDown => MenuStep::Move(cycle_menu_index(n, cursor, true)),
        MenuKey::Char(c) => {
            if c == 'j' || c == 'l' {
                MenuStep::Move(cycle_menu_index(n, cursor, true))
            } else if c == 'k' || c == 'h' {
                MenuStep::Move(cycle_menu_index(n, cursor, false))
            } else {
                MenuStep::Stay
            }
        },
        MenuKey::BackTab | MenuKey::ArrowUp => MenuStep::Move(cycle_menu_index(n, cursor, false)),
        MenuKey::Enter => MenuStep::Choose(cursor),
        MenuKey::Escape => MenuStep::Cancel,
        MenuKey::Other => MenuStep::Stay,
    }
}

/// `SlashCommandMenuHandler::handle`: the prefix to open the tip menu with
/// (the line without trailing whitespace, `/` when empty), when the line is
/// still naming a slash command; Tab then ends the line so the menu can run.
pub open spec fn menu_prefix(line: Seq<char>, pos: nat) -> Option<Seq<char>> {
    if !naming_slash_command(line, pos) {
        None
    } else if trim_end(line).len() == 0 {
        Some("/"@)
    } else {
        Some(trim_end(line))
    }
}

/// `SlashCommandMenuHandler::handle`.
pub fn slash_menu_prefix(line: &str, pos: usize) -> (r: Option<String>)
    requires
        utf8_len(line@) <= usize::MAX,
    ensures
        crate::scrape::opt_view(r) == menu_prefix(line@, pos as nat),
{
    if !is_slash_command_name_input(line, pos) {
        return None;
    }
    let t = trim_end_chars(&chars_of(line));
    if t.len() == 0 {
        Some("/".to_owned())
    } else {
        Some(string_of(&t))
    }
}

/// Index of the first entry named `name`.
pub open spec fn name_index(v: Seq<(Seq<char>, Seq<char>)>, name: Seq<char>) -> Option<int>
    decreases v.len(),
{
    if v.len() == 0 {
        None
    } else if v[0].0 == name {
        Some(0)
    } else {
        match name_index(v.drop_first(), name) {
            Some(i) => Some(i + 1),
            None => None,
        }
    }
}

/// A found index is in range and names the entry.
proof fn lemma_name_index(v: Seq<(Seq<char>, Seq<char>)>, name: Seq<char>)
    ensures
        match name_index(v, name) {
            Some(i) => 0 <= i < v.len() && v[i].0 == name && forall|k: int| 0 <= k < i ==> v[k].0
                != name,
            None => forall|k: int| 0 <= k < v.len() ==> v[k].0 != name,
        },
    decreases v.len(),
{
    if v.len() > 0 && v[0].0 != name {
        lemma_name_index(v.drop_first(), name);
        assert forall|k: int| 1 <= k < v.len() implies v[k].0 == v.drop_first()[k - 1].0 by {}
    }
}

/// Index of the first entry named `name`.
fn find_name(v: &Vec<(String, String)>, name: &[char]) -> (r: Option<usize>)
    ensures
        match r {
            Some(i) => name_index(pair_views(v@), name@) == Some(i as int),
            None => name_index(pair_views(v@), name@) is None,
        },
{
    proof {
        lemma_name_index(pair_views(v@), name@);
    }
    let mut i: usize = 0;
    while i < v.len()
        invariant
            i <= v@.len(),
            forall|k: int| 0 <= k < i ==> pair_views(v@)[k].0 != name@,
        decreases v.len() - i,
    {
        if chars_eq(&chars_of(v[i].0.as_str()), name) {
            proof {
                lemma_name_index(pair_views(v@), name@);
                assert(pair_views(v@)[i as int].0 == name@);
            }
            return Some(i);
        }
        i = i + 1;
    }
    None
}

/// The commands that Tab cycles through for a line naming a slash command: the
/// matching ones, or, for an exact full command, every command, starting after it.
pub open spec fn slash_cycle(prefix: Seq<char>, agent: Seq<(Seq<char>, Seq<char>)>) -> Seq<
    (Seq<char>, Seq<char>),
> {
    let matching = with_prefix(slash_entries(agent), prefix);
    if matching.len() == 1 && matching[0].0 == prefix {
        let all = slash_entries(agent);
        match name_index(all, prefix) {
            Some(idx) => all.skip(idx + 1) + all.take(idx + 1),
            None => matching,
        }
    } else {
        matching
    }
}

/// A tip-menu row: `"{name}  {description}"`, written as `"{name} "`.
pub open spec fn slash_candidate(e: (Seq<char>, Seq<char>)) -> (Seq<char>, Seq<char>) {
    (e.0 + "  "@ + e.1, e.0 + " "@)
}

/// `complete_slash_commands`: the line up to its trailing whitespace is the
/// prefix; candidates replace from the start of the line.
pub open spec fn slash_completion(line: Seq<char>, agent: Seq<(Seq<char>, Seq<char>)>) -> (
    nat,
    Seq<(Seq<char>, Seq<char>)>,
) {
    let prefix = trim_end(line);
    if with_prefix(slash_entries(agent), prefix).len() == 0 {
        (utf8_len(line), seq![])
    } else {
        (0, slash_cycle(prefix, agent).map_values(|e: (Seq<char>, Seq<char>)| slash_candidate(e)))
    }
}

/// Tip-menu rows for entries.
fn slash_candidates(v: &Vec<(String, String)>) -> (r: Vec<Candidate>)
    ensures
        candidate_views(r@) == pair_views(v@).map_values(
            |e: (Seq<char>, Seq<char>)| slash_candidate(e),
        ),
{
    let mut r: Vec<Candidate> = Vec::new();
    let mut i: usize = 0;
    while i < v.len()
        invariant
            i <= v@.len(),
            candidate_views(r@) == pair_views(v@).take(i as int).map_values(
                |e: (Seq<char>, Seq<char>)| slash_candidate(e),
            ),
        decreases v.len() - i,
    {
        let name = chars_of(v[i].0.as_str());
        let display = concat(&concat(&name, &chars_of("  ")), &chars_of(v[i].1.as_str()));
        let replacement = concat(&name, &chars_of(" "));
        let c = Candidate { display: string_of(&display), replacement: string_of(&replacement) };
        let ghost before = candidate_views(r@);
        r.push(c);
        assert(pair_views(v@).take(i + 1) =~= pair_views(v@).take(i as int).push(pair_views(v@)[i as int]));
        assert(candidate_views(r@) =~= before.push(candidate_view(c)));
        i = i + 1;
    }
    assert(pair_views(v@).take(i as int) =~= pair_views(v@));
    r
}

/// The commands that Tab cycles through for the prefix.
fn slash_cycle_list(prefix: &[char], agent: &Vec<(String, String)>) -> (r: Vec<(String, String)>)
    ensures
        pair_views(r@) == slash_cycle(prefix@, pair_views(agent@)),
{
    let matching = matching_slash_commands(string_of(prefix).as_str(), agent);
    if matching.len() == 1 && chars_eq(&chars_of(matching[0].0.as_str()), prefix) {
        let all = slash_command_entries(agent);
        match find_name(&all, prefix) {
            Some(idx) => {
                proof {
                    lemma_name_index(pair_views(all@), prefix@);
                }
                let n = all.len();
                let mut rotated: Vec<(String, String)> = Vec::new();
                let mut k: usize = idx + 1;
                while k < all.len()
                    invariant
                        idx < all@.len(),
                        idx + 1 <= k <= all@.len(),
                        pair_views(rotated@) == pair_views(all@).subrange(idx + 1, k as int),
                    decreases all.len() - k,
                {
                    let ghost before = pair_views(rotated@);
                    rotated.push((all[k].0.clone(), all[k].1.clone()));
                    assert(pair_views(rotated@) =~= before.push(pair_views(all@)[k as int]));
                    assert(pair_views(all@).subrange(idx + 1, k + 1) =~= pair_views(all@).subrange(
                        idx + 1,
                        k as int,
                    ).push(pair_views(all@)[k as int]));
                    k = k + 1;
                }
                let mut k: usize = 0;
                while k <= idx
                    invariant
                        idx < all@.len(),
                        idx < n,
                        k <= idx + 1,
                        pair_views(rotated@) == pair_views(all@).skip(idx + 1) + pair_views(
                            all@,
                        ).take(k as int),
                    decreases idx + 1 - k,
                {
                    let ghost before = pair_views(rotated@);
                    rotated.push((all[k].0.clone(), all[k].1.clone()));
                    assert(pair_views(rotated@) =~= before.push(pair_views(all@)[k as int]));
                    assert(pair_views(all@).take(k + 1) =~= pair_views(all@).take(k as int).push(
                        pair_views(all@)[k as int],
                    ));
                    k = k + 1;
                }
                rotated
            },
            None => matching,
        }
    } else {
        matching
    }
}

/// `complete_slash_commands`: Tab circular completion of slash commands.
pub fn complete_slash_commands(line: &str, agent: &Vec<(String, String)>) -> (r: (usize, Vec<Candidate>))
    requires
        utf8_len(line@) <= usize::MAX,
    ensures
        r.0 as nat == slash_completion(line@, pair_views(agent@)).0,
        candidate_views(r.1@) == slash_completion(line@, pair_views(agent@)).1,
{
    let prefix = trim_end_chars(&chars_of(line));
    let matching = matching_slash_commands(string_of(&prefix).as_str(), agent);
    if matching.len() == 0 {
        let r: Vec<Candidate> = Vec::new();
        assert(candidate_views(r@) =~= Seq::<(Seq<char>, Seq<char>)>::empty());
        return (line.len(), r);
    }
    let cycle = slash_cycle_list(&prefix, agent);
    (0, slash_candidates(&cycle))
}

/// What the prompt hint is about.
#[derive(Debug, Clone, Copy, PartialEq, Eq, Structural)]
pub enum HintStatus {
    Default,
    Interrupted,
    MaybeExit,
}

/// The hint shown while typing, and whether the hint status goes back to
/// `Default`. A non-empty line clears an interrupted or exit hint; while a
/// slash command is being named, the hint names the command that Tab cycles
/// to next; an empty line gets the status's hint.
pub open spec fn hint_of(line: Seq<char>, status: HintStatus, newline_key: char, agent: Seq<(Seq<char>, Seq<char>)>) -> (
    Option<Seq<char>>,
    bool,
) {
    if line.len() > 0 && status != HintStatus::Default {
        (None, true)
    } else if line.len() > 0 && line[0] == '/' && !has_char(line.skip(1), ' ') {
        let matches = with_prefix(slash_entries(agent), line);
        if matches.len() == 0 {
            (None, false)
        } else {
            let current = trim_end(line);
            let cycle = if matches.len() == 1 && matches[0].0 == current {
                slash_entries(agent)
            } else {
                matches
            };
            let next = match name_index(cycle, current) {
                Some(i) => cycle[(i + 1) % (cycle.len() as int)].0,
                None => cycle[0].0,
            };
            (Some(" Tab · complete via menu ("@ + next + "…)"@), false)
        }
    } else if line.len() > 0 {
        (None, false)
    } else {
        match status {
            HintStatus::Interrupted => (Some("Interrupted, what should goose work on instead?"@), false),
            HintStatus::MaybeExit => (
                Some("Press Ctrl+C again to exit, or type new instructions to continue"@),
                false,
            ),
            HintStatus::Default => (
                Some(
                    "Enter to send · Tab complete /commands · Ctrl+"@ + seq![
                        crate::text::ascii_upper_char(newline_key),
                    ] + " newline"@,
                ),
                false,
            ),
        }
    }
}

/// `GooseCompleter::hint`: the hint, and whether to reset the hint status to
/// `Default`. `newline_key` is the key that inserts a newline.
pub fn hint(line: &str, status: HintStatus, newline_key: char, agent: &Vec<(String, String)>) -> (r: (
    Option<String>,
    bool,
))
    ensures
        crate::scrape::opt_view(r.0) == hint_of(line@, status, newline_key, pair_views(agent@)).0,
        r.1 == hint_of(line@, status, newline_key, pair_views(agent@)).1,
{
    let cs = chars_of(line);
    if cs.len() > 0 && status != HintStatus::Default {
        return (None, true);
    }
    if cs.len() > 0 && cs[0] == '/' {
        let rest = copy_range(&cs, 1, cs.len());
        assert(rest@ =~= cs@.skip(1));
        if !crate::text::contains_char(&rest, ' ') {
            let matches = matching_slash_commands(line, agent);
            if matches.len() == 0 {
                return (None, false);
            }
            let current = trim_end_chars(&cs);
            let cycle = if matches.len() == 1 && chars_eq(&chars_of(matches[0].0.as_str()), &current) {
                slash_command_entries(agent)
            } else {
                matches
            };
            proof {
                lemma_name_index(pair_views(cycle@), current@);
            }
            let next = match find_name(&cycle, &current) {
                Some(i) => {
                    let n = cycle.len();
                    let j = if i == n - 1 {
                        0
                    } else {
                        i + 1
                    };
                    assert(j == (i + 1) % (cycle@.len() as int)) by (nonlinear_arith)
                        requires
                            i < cycle@.len(),
                            j == (if i + 1 == cycle@.len() {
                                0
                            } else {
                                i + 1
                            }),
                    ;
                    cycle[j].0.clone()
                },
                None => cycle[0].0.clone(),
            };
            let mut out = chars_of(" Tab · complete via menu (");
            out = concat(&out, &chars_of(next.as_str()));
            out = concat(&out, &chars_of("…)"));
            return (Some(string_of(&out)), false);
        }
    }
    if cs.len() > 0 {
        return (None, false);
    }
    match status {
        HintStatus::Interrupted => (Some("Interrupted, what should goose work on instead?".to_owned()), false),
        HintStatus::MaybeExit => (
            Some("Press Ctrl+C again to exit, or type new instructions to continue".to_owned()),
            false,
        ),
        HintStatus::Default => {
            let key = crate::text::to_ascii_upper(&vec![newline_key]);
            let mut out = chars_of("Enter to send · Tab complete /commands · Ctrl+");
            out = concat(&out, &key);
            out = concat(&out, &chars_of(" newline"));
            proof {
                assert(key@ =~= seq![crate::text::ascii_upper_char(newline_key)]);
            }
            (Some(string_of(&out)), false)
        },
    }
}

/// A tip-menu row split for styling: the command name and the rest (from the
/// two spaces on), when the row starts with a `/` name.
pub open spec fn tip_row_parts(candidate: Seq<char>) -> Option<(Seq<char>, Seq<char>)> {
    match double_space_index(candidate, 0) {
        Some(k) => if candidate.take(k).len() > 0 && candidate[0] == '/' {
            Some((candidate.take(k), candidate.skip(k + 2)))
        } else {
            None
        },
        None => None,
    }
}

/// The first position at or after `i` where two spaces begin.
pub open spec fn double_space_index(s: Seq<char>, i: int) -> Option<int>
    decreases s.len() - i,
{
    if i < 0 || i + 1 >= s.len() {
        None
    } else if s[i] == ' ' && s[i + 1] == ' ' {
        Some(i)
    } else {
        double_space_index(s, i + 1)
    }
}

/// `GooseCompleter::highlight_candidate`'s split of a tip-menu row
/// (`split_once("  ")`, kept when the name starts with `/`).
pub fn split_tip_row(candidate: &str) -> (r: Option<(String, String)>)
    ensures
        match r {
            Some((name, rest)) => tip_row_parts(candidate@) == Some((name@, rest@)),
            None => tip_row_parts(candidate@) is None,
        },
{
    let cs = chars_of(candidate);
    let n = cs.len();
    let mut i: usize = 0;
    while i < n && i + 1 < n && !(cs[i] == ' ' && cs[i + 1] == ' ')
        invariant
            double_space_index(cs@, 0) == double_space_index(cs@, i as int),
            cs@ == candidate@,
            n == cs@.len(),
            i <= n,
        decreases n - i,
    {
        i = i + 1;
    }
    if i >= n || i + 1 >= n {
        return None;
    }
    if i > 0 && cs[0] == '/' {
        Some((string_of(&copy_range(&cs, 0, i)), string_of(&copy_range(&cs, i + 2, cs.len()))))
    } else {
        None
    }
}

/// The text of `line` from byte offset `n` on (`str::get(n..)`), empty when
/// `n` is past its end or inside a character.
pub open spec fn after_byte(line: Seq<char>, n: nat) -> Seq<char> {
    match crate::text::byte_prefix(line, n) {
        Some(p) => line.skip(p.len() as int),
        None => seq![],
    }
}

/// The text of `line` from byte offset `n` on.
fn text_after_byte(line: &[char], n: usize) -> (r: Vec<char>)
    ensures
        r@ == after_byte(line@, n as nat),
{
    match crate::text::prefix_of_bytes(line, n) {
        Some(p) => {
            proof {
                let k = choose|k: int| 0 <= k <= line@.len() && utf8_len(#[trigger] line@.take(k)) == n;
                assert(p@ == line@.take(k));
            }
            let r = copy_range(line, p.len(), line.len());
            assert(r@ =~= line@.skip(p@.len() as int));
            r
        },
        None => Vec::new(),
    }
}

/// The texts of `names` that start with `p`, in order.
pub open spec fn names_with_prefix(names: Seq<Seq<char>>, p: Seq<char>) -> Seq<Seq<char>>
    decreases names.len(),
{
    if names.len() == 0 {
        seq![]
    } else {
        let rest = names_with_prefix(names.drop_last(), p);
        if has_prefix(names.last(), p) {
            rest.push(names.last())
        } else {
            rest
        }
    }
}

/// `complete_prompt_names`: the cached prompt names that start with the
/// (trimmed) text after `/prompt `, replacing from byte 8.
pub open spec fn prompt_name_completion(line: Seq<char>, names: Seq<Seq<char>>) -> (nat, Seq<(Seq<char>, Seq<char>)>) {
    (8, names_with_prefix(names, crate::text::trim(after_byte(line, 8))).map_values(|n: Seq<char>| (n, n)))
}

/// `complete_prompt_names`.
pub fn complete_prompt_names(line: &str, names: &Vec<String>) -> (r: (usize, Vec<Candidate>))
    ensures
        r.0 as nat == prompt_name_completion(line@, string_views(names@)).0,
        candidate_views(r.1@) == prompt_name_completion(line@, string_views(names@)).1,
{
    let t = crate::text::trim_chars(&text_after_byte(&chars_of(line), 8));
    let ghost nv = string_views(names@);
    let mut r: Vec<Candidate> = Vec::new();
    let mut i: usize = 0;
    assert(nv.take(0) =~= Seq::<Seq<char>>::empty());
    assert(candidate_views(r@) =~= Seq::<(Seq<char>, Seq<char>)>::empty());
    while i < names.len()
        invariant
            i <= names@.len(),
            nv == string_views(names@),
            t@ == crate::text::trim(after_byte(line@, 8)),
            candidate_views(r@) == names_with_prefix(nv.take(i as int), t@).map_values(
                |n: Seq<char>| (n, n),
            ),
        decreases names.len() - i,
    {
        assert(nv.take(i + 1).drop_last() =~= nv.take(i as int));
        assert(nv.take(i + 1).last() == names@[i as int]@);
        if starts_with(&chars_of(names[i].as_str()), &t) {
            let ghost before = names_with_prefix(nv.take(i as int), t@);
            let c = Candidate { display: names[i].clone(), replacement: names[i].clone() };
            let ghost cv = candidate_views(r@);
            r.push(c);
            assert(before.push(names@[i as int]@).map_values(|n: Seq<char>| (n, n)) =~= before.map_values(
                |n: Seq<char>| (n, n),
            ).push((names@[i as int]@, names@[i as int]@)));
            assert(candidate_views(r@) =~= cv.push(candidate_view(c)));
        }
        i = i + 1;
    }
    assert(nv.take(i as int) =~= nv);
    (8, r)
}

/// `complete_prompt_flags`: `--info` while the last word is a prefix of it
/// starting with `-`, replacing from `line.len() - last.len()` bytes.
pub open spec fn prompt_flag_completion(line: Seq<char>) -> (nat, Seq<(Seq<char>, Seq<char>)>) {
    let parts = words(line);
    if parts.len() > 0 && has_prefix(parts.last(), "-"@) && has_prefix("--info"@, parts.last()) {
        ((utf8_len(line) - utf8_len(parts.last())) as nat, seq![("--info"@, "--info"@)])
    } else {
        (utf8_len(line), seq![])
    }
}

/// The last word of a line, with its byte length, which is at most the line's.
fn last_word_of(line: &[char]) -> (r: Option<(Vec<char>, usize)>)
    requires
        utf8_len(line@) <= usize::MAX,
    ensures
        match r {
            Some((w, n)) => words(line@).len() > 0 && w@ == words(line@).last() && n
                == utf8_len(w@) && n <= utf8_len(line@) && w@.len() > 0,
            None => words(line@).len() == 0,
        },
{
    match crate::text::last_word_bounds(line) {
        Some((i, j)) => {
            proof {
                crate::text::lemma_utf8_len_subrange(line@, i as int, j as int);
            }
            let w = copy_range(line, i, j);
            let n = crate::text::utf8_len_of(&w);
            Some((w, n))
        },
        None => None,
    }
}

/// `complete_prompt_flags`.
pub fn complete_prompt_flags(line: &str) -> (r: (usize, Vec<Candidate>))
    requires
        utf8_len(line@) <= usize::MAX,
    ensures
        r.0 as nat == prompt_flag_completion(line@).0,
        candidate_views(r.1@) == prompt_flag_completion(line@).1,
{
    let cs = chars_of(line);
    match last_word_of(&cs) {
        Some((w, n)) => {
            if starts_with(&w, &chars_of("-")) && starts_with(&chars_of("--info"), &w) {
                let c = Candidate { display: "--info".to_owned(), replacement: "--info".to_owned() };
                let r = vec![c];
                assert(candidate_views(r@) =~= seq![("--info"@, "--info"@)]);
                return (line.len() - n, r);
            }
        },
        None => {},
    }
    let r: Vec<Candidate> = Vec::new();
    assert(candidate_views(r@) =~= Seq::<(Seq<char>, Seq<char>)>::empty());
    (line.len(), r)
}

/// Modes whose lower-cased name starts with the lower-cased `partial`, each
/// written with a trailing space.
pub open spec fn mode_candidates(modes: Seq<Seq<char>>, partial: Seq<char>) -> Seq<(Seq<char>, Seq<char>)>
    decreases modes.len(),
{
    if modes.len() == 0 {
        seq![]
    } else {
        let rest = mode_candidates(modes.drop_last(), partial);
        let m = modes.last();
        if has_prefix(crate::text::unicode_lower(m), crate::text::unicode_lower(partial)) {
            rest.push((m, m + " "@))
        } else {
            rest
        }
    }
}

/// Whether `/mode` completion's replacement position is defined: for a
/// two-word line, the lower-cased second word takes no more bytes than the line.
pub open spec fn mode_position_fits(line: Seq<char>) -> bool {
    line == "/mode "@ || words(line).len() != 2 || utf8_len(crate::text::unicode_lower(words(line)[1]))
        <= utf8_len(line)
}

/// `complete_mode_flags`: every mode after `/mode `; the modes matching the
/// second word of a two-word line, replacing from `line.len() - partial.len()`
/// bytes where `partial` is that word lower-cased.
pub open spec fn mode_completion(line: Seq<char>, modes: Seq<Seq<char>>) -> (nat, Seq<(Seq<char>, Seq<char>)>) {
    if line == "/mode "@ {
        (utf8_len(line), modes.map_values(|m: Seq<char>| (m, m + " "@)))
    } else if words(line).len() == 2 {
        let partial = crate::text::unicode_lower(words(line)[1]);
        ((utf8_len(line) - utf8_len(partial)) as nat, mode_candidates(modes, partial))
    } else {
        (utf8_len(line), seq![])
    }
}

/// Modes matching `partial`, each written with a trailing space.
fn modes_matching(modes: &Vec<String>, partial: &str, all: bool) -> (r: Vec<Candidate>)
    ensures
        candidate_views(r@) == (if all {
            string_views(modes@).map_values(|m: Seq<char>| (m, m + " "@))
        } else {
            mode_candidates(string_views(modes@), partial@)
        }),
{
    let ghost mv = string_views(modes@);
    let lp = chars_of(crate::text::to_lowercase(partial).as_str());
    let mut r: Vec<Candidate> = Vec::new();
    let mut i: usize = 0;
    assert(mv.take(0) =~= Seq::<Seq<char>>::empty());
    assert(candidate_views(r@) =~= Seq::<(Seq<char>, Seq<char>)>::empty());
    while i < modes.len()
        invariant
            i <= modes@.len(),
            mv == string_views(modes@),
            lp@ == crate::text::unicode_lower(partial@),
            candidate_views(r@) == (if all {
                mv.take(i as int).map_values(|m: Seq<char>| (m, m + " "@))
            } else {
                mode_candidates(mv.take(i as int), partial@)
            }),
        decreases modes.len() - i,
    {
        assert(mv.take(i + 1).drop_last() =~= mv.take(i as int));
        assert(mv.take(i + 1).last() == modes@[i as int]@);
        let m = chars_of(modes[i].as_str());
        let keep = all || starts_with(&chars_of(crate::text::to_lowercase(modes[i].as_str()).as_str()), &lp);
        if keep {
            let c = Candidate {
                display: modes[i].clone(),
                replacement: string_of(&concat(&m, &chars_of(" "))),
            };
            let ghost cv = candidate_views(r@);
            r.push(c);
            assert(candidate_views(r@) =~= cv.push(candidate_view(c)));
            assert(mv.take(i + 1).map_values(|m: Seq<char>| (m, m + " "@)) =~= mv.take(
                i as int,
            ).map_values(|m: Seq<char>| (m, m + " "@)).push((m@, m@ + " "@)));
        } else {
        }
        i = i + 1;
    }
    assert(mv.take(i as int) =~= mv);
    r
}

/// `complete_mode_flags`; `modes` are the mode names.
fn complete_mode_flags(line: &str, modes: &Vec<String>) -> (r: (usize, Vec<Candidate>))
    requires
        utf8_len(line@) <= usize::MAX,
        mode_position_fits(line@),
    ensures
        r.0 as nat == mode_completion(line@, string_views(modes@)).0,
        candidate_views(r.1@) == mode_completion(line@, string_views(modes@)).1,
{
    let cs = chars_of(line);
    if chars_eq(&cs, &chars_of("/mode ")) {
        return (line.len(), modes_matching(modes, "", true));
    }
    let parts = crate::text::split_words(&cs);
    if parts.len() == 2 {
        assert(parts@[1]@ == words(line@)[1]);
        let partial = crate::text::to_lowercase(string_of(&parts[1]).as_str());
        let pc = chars_of(partial.as_str());
        let n = crate::text::utf8_len_of(&pc);
        return (line.len() - n, modes_matching(modes, partial.as_str(), false));
    }
    let r: Vec<Candidate> = Vec::new();
    assert(candidate_views(r@) =~= Seq::<(Seq<char>, Seq<char>)>::empty());
    (line.len(), r)
}

/// Whether the `/mode` replacement position is defined for `line`.
fn mode_fits(line: &str) -> (r: bool)
    requires
        utf8_len(line@) <= usize::MAX,
    ensures
        r == mode_position_fits(line@),
{
    let cs = chars_of(line);
    if chars_eq(&cs, &chars_of("/mode ")) {
        return true;
    }
    let parts = crate::text::split_words(&cs);
    if parts.len() != 2 {
        return true;
    }
    assert(parts@[1]@ == words(line@)[1]);
    let partial = crate::text::to_lowercase(string_of(&parts[1]).as_str());
    crate::text::utf8_len_at_most(&chars_of(partial.as_str()), line.len())
}


/// Position of the last space.
pub open spec fn last_space_index(s: Seq<char>) -> Option<int>
    decreases s.len(),
{
    if s.len() == 0 {
        None
    } else if s.last() == ' ' {
        Some(s.len() - 1)
    } else {
        last_space_index(s.drop_last())
    }
}

/// The text after the last space (`rsplit_once(' ')`), empty when there is none.
pub open spec fn after_last_space(s: Seq<char>) -> Seq<char> {
    match last_space_index(s) {
        Some(k) => s.skip(k + 1),
        None => seq![],
    }
}

/// Skills whose lower-cased name starts with `partial`, each written with a trailing space.
pub open spec fn skill_candidates(names: Seq<Seq<char>>, partial: Seq<char>) -> Seq<(Seq<char>, Seq<char>)>
    decreases names.len(),
{
    if names.len() == 0 {
        seq![]
    } else {
        let rest = skill_candidates(names.drop_last(), partial);
        let n = names.last();
        if has_prefix(crate::text::unicode_lower(n), partial) {
            rest.push((n, n + " "@))
        } else {
            rest
        }
    }
}

/// `complete_skill_names`: the installed skills matching the text after the
/// last space, replacing from the start of that text.
pub open spec fn skill_completion(line: Seq<char>, skills: Seq<Seq<char>>) -> (nat, Seq<(Seq<char>, Seq<char>)>) {
    let last = after_last_space(line);
    ((utf8_len(line) - utf8_len(last)) as nat, skill_candidates(skills, crate::text::unicode_lower(last)))
}

/// `complete_skill_names`; `skills` are the names of the installed skills.
pub fn complete_skill_names(line: &str, skills: &Vec<String>) -> (r: (usize, Vec<Candidate>))
    requires
        utf8_len(line@) <= usize::MAX,
    ensures
        r.0 as nat == skill_completion(line@, string_views(skills@)).0,
        candidate_views(r.1@) == skill_completion(line@, string_views(skills@)).1,
{
    let cs = chars_of(line);
    let mut k: usize = cs.len();
    assert(cs@.take(cs@.len() as int) =~= cs@);
    while k > 0 && cs[k - 1] != ' '
        invariant
            k <= cs@.len(),
            last_space_index(cs@) == last_space_index(cs@.take(k as int)),
        decreases k,
    {
        assert(cs@.take(k as int).drop_last() =~= cs@.take(k - 1));
        k = k - 1;
    }
    let last = if k == 0 {
        assert(cs@.take(0) =~= Seq::<char>::empty());
        Vec::new()
    } else {
        assert(cs@.take(k as int).last() == ' ');
        copy_range(&cs, k, cs.len())
    };
    assert(last@ =~= after_last_space(line@));
    proof {
        crate::text::lemma_utf8_len_subrange(cs@, (cs@.len() - last@.len()) as int, cs@.len() as int);
        assert(cs@.subrange((cs@.len() - last@.len()) as int, cs@.len() as int) =~= last@);
    }
    let n = crate::text::utf8_len_of(&last);
    let partial = chars_of(crate::text::to_lowercase(string_of(&last).as_str()).as_str());
    let ghost sv = string_views(skills@);
    let mut r: Vec<Candidate> = Vec::new();
    let mut i: usize = 0;
    assert(sv.take(0) =~= Seq::<Seq<char>>::empty());
    assert(candidate_views(r@) =~= Seq::<(Seq<char>, Seq<char>)>::empty());
    while i < skills.len()
        invariant
            i <= skills@.len(),
            sv == string_views(skills@),
            partial@ == crate::text::unicode_lower(after_last_space(line@)),
            candidate_views(r@) == skill_candidates(sv.take(i as int), partial@),
        decreases skills.len() - i,
    {
        assert(sv.take(i + 1).drop_last() =~= sv.take(i as int));
        assert(sv.take(i + 1).last() == skills@[i as int]@);
        if starts_with(&chars_of(crate::text::to_lowercase(skills[i].as_str()).as_str()), &partial) {
            let c = Candidate {
                display: skills[i].clone(),
                replacement: string_of(&concat(&chars_of(skills[i].as_str()), &chars_of(" "))),
            };
            let ghost cv = candidate_views(r@);
            r.push(c);
            assert(candidate_views(r@) =~= cv.push(candidate_view(c)));
        }
        i = i + 1;
    }
    assert(sv.take(i as int) =~= sv);
    (line.len() - n, r)
}

/// What completing a line calls for.
#[derive(Debug, Clone)]
pub enum Completion {
    /// Replace from this byte offset with one of these candidates.
    Done(usize, Vec<Candidate>),
    /// Complete a skill name: list the installed skills and call [`complete_skill_names`].
    Skills,
    /// Complete the file path `word`, which starts at this byte offset: the
    /// line editor's file-name completer is asked, and its offset added.
    FilePath(usize, String),
}

/// A completion as mathematical values.
pub enum CompletionView {
    Done(nat, Seq<(Seq<char>, Seq<char>)>),
    Skills,
    FilePath(nat, Seq<char>),
}

/// The view of a completion.
pub open spec fn completion_view(c: Completion) -> CompletionView {
    match c {
        Completion::Done(p, cs) => CompletionView::Done(p as nat, candidate_views(cs@)),
        Completion::Skills => CompletionView::Skills,
        Completion::FilePath(p, w) => CompletionView::FilePath(p as nat, w@),
    }
}

/// `complete_file_path`: a path word is handed to the file-name completer,
/// except a bare `/`, a flag (`-…`) or a `key=value` word, which get nothing.
pub open spec fn file_path_completion(line: Seq<char>) -> CompletionView {
    let parts = words(line);
    if parts.len() == 0 {
        CompletionView::Done(utf8_len(line), seq![])
    } else {
        let last = parts.last();
        if last == "/"@ || last[0] == '-' || has_char(last, '=') {
            CompletionView::Done(utf8_len(line), seq![])
        } else {
            CompletionView::FilePath((utf8_len(line) - utf8_len(last)) as nat, last)
        }
    }
}

/// `complete_file_path`.
fn complete_file_path(line: &str) -> (r: Completion)
    requires
        utf8_len(line@) <= usize::MAX,
    ensures
        completion_view(r) == file_path_completion(line@),
{
    let cs = chars_of(line);
    match last_word_of(&cs) {
        Some((w, n)) => {
            if chars_eq(&w, &chars_of("/")) || w[0] == '-' || crate::text::contains_char(&w, '=') {
                let r: Vec<Candidate> = Vec::new();
                assert(candidate_views(r@) =~= Seq::<(Seq<char>, Seq<char>)>::empty());
                return Completion::Done(line.len(), r);
            }
            Completion::FilePath(line.len() - n, string_of(&w))
        },
        None => {
            let r: Vec<Candidate> = Vec::new();
            assert(candidate_views(r@) =~= Seq::<(Seq<char>, Seq<char>)>::empty());
            Completion::Done(line.len(), r)
        },
    }
}


/// A saved session offered for `/resume` completion.
#[derive(Debug, Clone)]
pub struct ResumeCompletionEntry {
    pub session_id: String,
    pub name: String,
    pub message_count: usize,
    pub is_current: bool,
}

/// `"{name}  ({count})  [{id}]"`, the name being `(unnamed)` when empty.
pub open spec fn resume_display(e: ResumeCompletionEntry) -> Seq<char> {
    let name = if e.name@.len() == 0 {
        "(unnamed)"@
    } else {
        e.name@
    };
    name + "  ("@ + crate::resume::message_count_text(e.message_count as nat) + ")  ["@ + e.session_id@
        + "]"@
}

/// What Tab writes for a session: its name when that is what is being typed,
/// else its id; with a trailing space.
pub open spec fn resume_replacement(e: ResumeCompletionEntry, typed: Seq<char>) -> Seq<char> {
    if e.name@.len() > 0 && has_prefix(crate::text::unicode_lower(e.name@), typed) {
        e.name@ + " "@
    } else {
        e.session_id@ + " "@
    }
}

/// Sessions offered: not the current one, with messages, and with a name or id
/// that starts with what is typed (all lower-cased).
pub open spec fn resume_offered(e: ResumeCompletionEntry, typed: Seq<char>) -> bool {
    !e.is_current && e.message_count > 0 && (has_prefix(crate::text::unicode_lower(e.name@), typed)
        || has_prefix(crate::text::unicode_lower(e.session_id@), typed))
}

/// The candidates for the offered sessions, in order.
pub open spec fn resume_candidates(entries: Seq<ResumeCompletionEntry>, typed: Seq<char>) -> Seq<
    (Seq<char>, Seq<char>),
>
    decreases entries.len(),
{
    if entries.len() == 0 {
        seq![]
    } else {
        let rest = resume_candidates(entries.drop_last(), typed);
        let e = entries.last();
        if resume_offered(e, typed) {
            rest.push((resume_display(e), resume_replacement(e, typed)))
        } else {
            rest
        }
    }
}

/// `x` inserted into `s` before the first candidate whose display it precedes.
pub open spec fn insert_by_display(x: (Seq<char>, Seq<char>), s: Seq<(Seq<char>, Seq<char>)>) -> Seq<
    (Seq<char>, Seq<char>),
>
    decreases s.len(),
{
    if s.len() == 0 {
        seq![x]
    } else if lex_less(x.0, s[0].0) {
        seq![x] + s
    } else {
        seq![s[0]] + insert_by_display(x, s.drop_first())
    }
}

/// The stable sort of candidates by display text.
pub open spec fn sort_by_display(s: Seq<(Seq<char>, Seq<char>)>) -> Seq<(Seq<char>, Seq<char>)>
    decreases s.len(),
{
    if s.len() == 0 {
        seq![]
    } else {
        insert_by_display(s.last(), sort_by_display(s.drop_last()))
    }
}

/// Consecutive candidates with the same replacement reduced to the first (`Vec::dedup_by`).
pub open spec fn dedup_replacements(s: Seq<(Seq<char>, Seq<char>)>) -> Seq<(Seq<char>, Seq<char>)>
    decreases s.len(),
{
    if s.len() == 0 {
        seq![]
    } else {
        let r = dedup_replacements(s.drop_last());
        if r.len() > 0 && r.last().1 == s.last().1 {
            r
        } else {
            r.push(s.last())
        }
    }
}

/// `complete_resume_sessions`: for `/resume` followed by nothing or by a space
/// and a single word, the offered sessions sorted by display text, with
/// repeated replacements dropped, replacing from the start of the word.
pub open spec fn resume_completion(line: Seq<char>, entries: Seq<ResumeCompletionEntry>) -> (
    nat,
    Seq<(Seq<char>, Seq<char>)>,
) {
    if !has_prefix(line, "/resume"@) {
        (utf8_len(line), seq![])
    } else {
        let rest = line.skip(7);
        if rest.len() > 0 && rest[0] != ' ' {
            (utf8_len(line), seq![])
        } else {
            let partial = trim_start(rest);
            if exists|k: int| 0 <= k < partial.len() && is_ws(#[trigger] partial[k]) {
                (utf8_len(line), seq![])
            } else {
                let typed = crate::text::unicode_lower(partial);
                (
                    (utf8_len(line) - utf8_len(partial)) as nat,
                    dedup_replacements(sort_by_display(resume_candidates(entries, typed))),
                )
            }
        }
    }
}

/// Inserting before the first candidate whose display `x` precedes is cutting there.
proof fn lemma_insert_by_display_at(x: (Seq<char>, Seq<char>), s: Seq<(Seq<char>, Seq<char>)>, p: int)
    requires
        0 <= p <= s.len(),
        forall|k: int| 0 <= k < p ==> !lex_less(x.0, #[trigger] s[k].0),
        p == s.len() || lex_less(x.0, s[p].0),
    ensures
        insert_by_display(x, s) == s.take(p) + seq![x] + s.skip(p),
    decreases p,
{
    if p == 0 {
        assert(s.take(0) + seq![x] + s.skip(0) =~= seq![x] + s);
        if s.len() == 0 {
            assert(seq![x] + s =~= seq![x]);
        }
    } else {
        assert forall|k: int| 0 <= k < p - 1 implies !lex_less(x.0, #[trigger] s.drop_first()[k].0) by {
            assert(s.drop_first()[k] == s[k + 1]);
        }
        if p - 1 < s.len() - 1 {
            assert(s.drop_first()[p - 1] == s[p]);
        }
        lemma_insert_by_display_at(x, s.drop_first(), p - 1);
        assert(seq![s[0]] + (s.drop_first().take(p - 1) + seq![x] + s.drop_first().skip(p - 1))
            =~= s.take(p) + seq![x] + s.skip(p));
    }
}

/// Sorts candidates by display text, stably, then drops repeated replacements.
fn sort_and_dedup(v: Vec<Candidate>) -> (r: Vec<Candidate>)
    ensures
        candidate_views(r@) == dedup_replacements(sort_by_display(candidate_views(v@))),
{
    let ghost cv = candidate_views(v@);
    let n = v.len();
    let mut out: Vec<Candidate> = Vec::new();
    let mut rest = v;
    let mut i: usize = 0;
    assert(cv.take(0) =~= Seq::<(Seq<char>, Seq<char>)>::empty());
    assert(candidate_views(out@) =~= Seq::<(Seq<char>, Seq<char>)>::empty());
    while rest.len() > 0
        invariant
            i + rest@.len() == cv.len(),
            cv.len() == n,
            candidate_views(rest@) == cv.skip(i as int),
            candidate_views(out@) == sort_by_display(cv.take(i as int)),
        decreases rest@.len(),
    {
        let x = rest.remove(0);
        proof {
            assert(cv.skip(i as int)[0] == candidate_view(x));
            assert(cv.skip(i as int).drop_first() =~= cv.skip(i + 1));
            assert(candidate_views(rest@) =~= cv.skip(i + 1));
            assert(cv.take(i + 1).drop_last() =~= cv.take(i as int));
            assert(cv.take(i + 1).last() == candidate_view(x));
        }
        let xd = chars_of(x.display.as_str());
        let mut p: usize = 0;
        while p < out.len() && !lex_less_chars(&xd, &chars_of(out[p].display.as_str()))
            invariant
                p <= out@.len(),
                xd@ == x.display@,
                forall|k: int| 0 <= k < p ==> !lex_less(x.display@, #[trigger] candidate_views(out@)[k].0),
            decreases out.len() - p,
        {
            p = p + 1;
        }
        proof {
            lemma_insert_by_display_at(candidate_view(x), candidate_views(out@), p as int);
        }
        let ghost before = candidate_views(out@);
        out.insert(p, x);
        assert(candidate_views(out@) =~= before.take(p as int) + seq![candidate_view(x)] + before.skip(
            p as int,
        ));
        i = i + 1;
    }
    assert(cv.take(i as int) =~= cv);
    let ghost sorted = candidate_views(out@);
    let n2 = out.len();
    let mut kept: Vec<Candidate> = Vec::new();
    let mut k: usize = 0;
    assert(sorted.take(0) =~= Seq::<(Seq<char>, Seq<char>)>::empty());
    assert(candidate_views(kept@) =~= Seq::<(Seq<char>, Seq<char>)>::empty());
    while out.len() > 0
        invariant
            k + out@.len() == sorted.len(),
            sorted.len() == n2,
            candidate_views(out@) == sorted.skip(k as int),
            candidate_views(kept@) == dedup_replacements(sorted.take(k as int)),
        decreases out@.len(),
    {
        let x = out.remove(0);
        proof {
            assert(sorted.skip(k as int)[0] == candidate_view(x));
            assert(sorted.skip(k as int).drop_first() =~= sorted.skip(k + 1));
            assert(candidate_views(out@) =~= sorted.skip(k + 1));
            assert(sorted.take(k + 1).drop_last() =~= sorted.take(k as int));
            assert(sorted.take(k + 1).last() == candidate_view(x));
        }
        let ghost before = candidate_views(kept@);
        let repeat = kept.len() > 0 && chars_eq(
            &chars_of(kept[kept.len() - 1].replacement.as_str()),
            &chars_of(x.replacement.as_str()),
        );
        if !repeat {
            kept.push(x);
            assert(candidate_views(kept@) =~= before.push(candidate_view(x)));
        }
        k = k + 1;
    }
    assert(sorted.take(k as int) =~= sorted);
    kept
}

/// The candidates for the offered sessions, in order.
fn resume_candidate_list(entries: &Vec<ResumeCompletionEntry>, typed: &[char]) -> (r: Vec<Candidate>)
    ensures
        candidate_views(r@) == resume_candidates(entries@, typed@),
{
    let mut r: Vec<Candidate> = Vec::new();
    let mut i: usize = 0;
    assert(entries@.take(0) =~= Seq::<ResumeCompletionEntry>::empty());
    assert(candidate_views(r@) =~= Seq::<(Seq<char>, Seq<char>)>::empty());
    while i < entries.len()
        invariant
            i <= entries@.len(),
            candidate_views(r@) == resume_candidates(entries@.take(i as int), typed@),
        decreases entries.len() - i,
    {
        assert(entries@.take(i + 1).drop_last() =~= entries@.take(i as int));
        assert(entries@.take(i + 1).last() == entries@[i as int]);
        let e = &entries[i];
        let name_matches = starts_with(
            &chars_of(crate::text::to_lowercase(e.name.as_str()).as_str()),
            typed,
        );
        let id_matches = starts_with(
            &chars_of(crate::text::to_lowercase(e.session_id.as_str()).as_str()),
            typed,
        );
        if !e.is_current && e.message_count > 0 && (name_matches || id_matches) {
            let mut display: Vec<char> = Vec::new();
            if e.name.as_str().is_empty() {
                display = chars_of("(unnamed)");
            } else {
                display = chars_of(e.name.as_str());
            }
            display = concat(&display, &chars_of("  ("));
            if e.message_count == 1 {
                display = concat(&display, &chars_of("1 msg"));
            } else {
                display = concat(&display, &crate::text::decimal_chars(e.message_count));
                display = concat(&display, &chars_of(" msgs"));
            }
            display = concat(&display, &chars_of(")  ["));
            display = concat(&display, &chars_of(e.session_id.as_str()));
            display = concat(&display, &chars_of("]"));
            let replacement = if !e.name.as_str().is_empty() && name_matches {
                concat(&chars_of(e.name.as_str()), &chars_of(" "))
            } else {
                concat(&chars_of(e.session_id.as_str()), &chars_of(" "))
            };
            let c = Candidate { display: string_of(&display), replacement: string_of(&replacement) };
            assert(c.display@ =~= resume_display(*e));
            let ghost before = candidate_views(r@);
            r.push(c);
            assert(candidate_views(r@) =~= before.push(candidate_view(c)));
        }
        i = i + 1;
    }
    assert(entries@.take(i as int) =~= entries@);
    r
}

/// Whether some character is whitespace.
fn any_ws(s: &[char]) -> (r: bool)
    ensures
        r == exists|k: int| 0 <= k < s@.len() && is_ws(#[trigger] s@[k]),
{
    let mut k: usize = 0;
    while k < s.len()
        invariant
            k <= s@.len(),
            forall|j: int| 0 <= j < k ==> !is_ws(#[trigger] s@[j]),
        decreases s.len() - k,
    {
        if crate::text::char_is_ws(s[k]) {
            return true;
        }
        k = k + 1;
    }
    false
}

/// `complete_resume_sessions`.
pub fn complete_resume_sessions(line: &str, entries: &Vec<ResumeCompletionEntry>) -> (r: (usize, Vec<Candidate>))
    requires
        utf8_len(line@) <= usize::MAX,
    ensures
        r.0 as nat == resume_completion(line@, entries@).0,
        candidate_views(r.1@) == resume_completion(line@, entries@).1,
{
    let cs = chars_of(line);
    let none: Vec<Candidate> = Vec::new();
    assert(candidate_views(none@) =~= Seq::<(Seq<char>, Seq<char>)>::empty());
    if !starts_with(&cs, &chars_of("/resume")) {
        return (line.len(), none);
    }
    proof {
        reveal_strlit("/resume");
    }
    let rest = copy_range(&cs, 7, cs.len());
    assert(rest@ =~= line@.skip(7));
    if rest.len() > 0 && rest[0] != ' ' {
        return (line.len(), none);
    }
    let (a, b) = crate::text::trim_bounds(&rest);
    let partial = copy_range(&rest, a, rest.len());
    assert(partial@ =~= rest@.subrange(a as int, rest@.len() as int));
    if any_ws(&partial) {
        return (line.len(), none);
    }
    proof {
        crate::text::lemma_utf8_len_subrange(cs@, (cs@.len() - partial@.len()) as int, cs@.len() as int);
        assert(cs@.subrange((cs@.len() - partial@.len()) as int, cs@.len() as int) =~= partial@);
    }
    let n = crate::text::utf8_len_of(&partial);
    let typed = chars_of(crate::text::to_lowercase(string_of(&partial).as_str()).as_str());
    let candidates = resume_candidate_list(entries, &typed);
    (line.len() - n, sort_and_dedup(candidates))
}


/// An argument of a cached prompt.
#[derive(Debug, Clone)]
pub struct PromptArgument {
    pub name: String,
    /// Whether the argument is required, when the prompt says.
    pub required: Option<bool>,
}

/// The arguments recorded for the prompt `name` (the first record counts):
/// `None` when the prompt is unknown, `Some(None)` when it declares none.
pub open spec fn prompt_args_of(pa: Seq<(String, Option<Vec<PromptArgument>>)>, name: Seq<char>) -> Option<
    Option<Seq<PromptArgument>>,
>
    decreases pa.len(),
{
    if pa.len() == 0 {
        None
    } else if pa[0].0@ == name {
        Some(
            match pa[0].1 {
                Some(v) => Some(v@),
                None => None,
            },
        )
    } else {
        prompt_args_of(pa.drop_first(), name)
    }
}

/// The text before the first `=` (`split('=').next()`).
pub open spec fn before_eq(p: Seq<char>) -> Seq<char> {
    match p.index_of_first('=') {
        Some(k) => p.take(k),
        None => p,
    }
}

/// The argument names already given (`key=value` words), in order.
pub open spec fn given_names(parts: Seq<Seq<char>>) -> Seq<Seq<char>>
    decreases parts.len(),
{
    if parts.len() == 0 {
        seq![]
    } else {
        let rest = given_names(parts.drop_last());
        if has_char(parts.last(), '=') {
            rest.push(before_eq(parts.last()))
        } else {
            rest
        }
    }
}

/// `name=` candidates for the arguments whose name starts with `last` and
/// that are not given yet.
pub open spec fn arg_name_candidates(args: Seq<PromptArgument>, last: Seq<char>, given: Seq<Seq<char>>) -> Seq<
    (Seq<char>, Seq<char>),
>
    decreases args.len(),
{
    if args.len() == 0 {
        seq![]
    } else {
        let rest = arg_name_candidates(args.drop_last(), last, given);
        let a = args.last();
        if has_prefix(a.name@, last) && !given.contains(a.name@) {
            rest.push((a.name@ + "="@, a.name@ + "="@))
        } else {
            rest
        }
    }
}

/// `name=` candidates for the arguments marked required (or, for `req`
/// false, marked optional) that are not given yet.
pub open spec fn args_marked(args: Seq<PromptArgument>, given: Seq<Seq<char>>, req: bool) -> Seq<
    (Seq<char>, Seq<char>),
>
    decreases args.len(),
{
    if args.len() == 0 {
        seq![]
    } else {
        let rest = args_marked(args.drop_last(), given, req);
        let a = args.last();
        if a.required == Some(req) && !given.contains(a.name@) {
            rest.push((a.name@ + "="@, a.name@ + "="@))
        } else {
            rest
        }
    }
}

/// `complete_argument_keys`: for a known prompt with arguments, the argument
/// names that complete the last word, or else (on the prompt name itself, or
/// after a `key=value`) the required arguments not given yet, or else the
/// optional ones.
pub open spec fn arg_key_completion(line: Seq<char>, pa: Seq<(String, Option<Vec<PromptArgument>>)>) -> (
    nat,
    Seq<(Seq<char>, Seq<char>)>,
) {
    let parts = words(after_byte(line, 8));
    let len = utf8_len(line);
    if parts.len() == 0 {
        (len, seq![])
    } else {
        match prompt_args_of(pa, parts[0]) {
            Some(Some(args)) => {
                let given = given_names(parts.skip(1));
                let last = parts.last();
                let names = arg_name_candidates(args, last, given);
                if last[0] == '=' || last[0] == '/' || last[0] == '\\' {
                    (len, seq![])
                } else if !has_char(last, '=') && names.len() > 0 {
                    ((len - utf8_len(last)) as nat, names)
                } else if !has_char(last, '=') && last != parts[0] {
                    (len, seq![])
                } else if args_marked(args, given, true).len() > 0 {
                    (len, args_marked(args, given, true))
                } else {
                    (len, args_marked(args, given, false))
                }
            },
            _ => (len, seq![]),
        }
    }
}

/// The text after byte `n` takes no more bytes than the line.
proof fn lemma_after_byte_len(line: Seq<char>, n: nat)
    ensures
        utf8_len(after_byte(line, n)) <= utf8_len(line),
{
    match crate::text::byte_prefix(line, n) {
        Some(p) => {
            let k = choose|k: int| 0 <= k <= line.len() && utf8_len(#[trigger] line.take(k)) == n;
            assert(p == line.take(k));
            crate::text::lemma_utf8_len_subrange(line, k, line.len() as int);
            assert(line.subrange(k, line.len() as int) =~= line.skip(k));
        },
        None => {
            assert(after_byte(line, n) =~= Seq::<char>::empty());
        },
    }
}

/// The arguments recorded for the prompt `name`.
fn find_prompt_args<'a>(pa: &'a Vec<(String, Option<Vec<PromptArgument>>)>, name: &[char]) -> (r: Option<
    &'a Option<Vec<PromptArgument>>,
>)
    ensures
        match r {
            Some(o) => prompt_args_of(pa@, name@) == Some(
                match *o {
                    Some(v) => Some(v@),
                    None => None,
                },
            ),
            None => prompt_args_of(pa@, name@) is None,
        },
{
    let mut i: usize = 0;
    assert(pa@.skip(0) =~= pa@);
    while i < pa.len()
        invariant
            i <= pa@.len(),
            prompt_args_of(pa@, name@) == prompt_args_of(pa@.skip(i as int), name@),
        decreases pa.len() - i,
    {
        assert(pa@.skip(i as int).drop_first() =~= pa@.skip(i + 1));
        assert(pa@.skip(i as int)[0] == pa@[i as int]);
        if chars_eq(&chars_of(pa[i].0.as_str()), name) {
            return Some(&pa[i].1);
        }
        i = i + 1;
    }
    None
}

/// Whether `v` holds the text `s`.
fn holds(v: &Vec<Vec<char>>, s: &[char]) -> (r: bool)
    ensures
        r == crate::text::views(v@).contains(s@),
{
    let mut i: usize = 0;
    while i < v.len()
        invariant
            i <= v@.len(),
            forall|k: int| 0 <= k < i ==> crate::text::views(v@)[k] != s@,
        decreases v.len() - i,
    {
        if chars_eq(&v[i], s) {
            assert(crate::text::views(v@)[i as int] == s@);
            return true;
        }
        i = i + 1;
    }
    false
}

/// The text before the first `=`.
fn text_before_eq(p: &[char]) -> (r: Vec<char>)
    ensures
        r@ == before_eq(p@),
{
    let mut k: usize = 0;
    while k < p.len() && p[k] != '='
        invariant
            k <= p@.len(),
            forall|j: int| 0 <= j < k ==> p@[j] != '=',
        decreases p.len() - k,
    {
        k = k + 1;
    }
    proof {
        p@.index_of_first_ensures('=');
        if k < p@.len() {
            assert(p@.index_of_first('=') == Some(k as int));
        } else {
            assert(!p@.contains('='));
        }
    }
    if k == p.len() {
        assert(p@.take(k as int) =~= p@);
    }
    copy_range(p, 0, k)
}

/// `name=` candidates of the arguments that pass a test, in order: with
/// `by_prefix`, those starting with `last`; otherwise those marked `req`.
fn arg_candidates(args: &Vec<PromptArgument>, last: &[char], given: &Vec<Vec<char>>, by_prefix: bool, req: bool) -> (r: Vec<
    Candidate,
>)
    ensures
        candidate_views(r@) == (if by_prefix {
            arg_name_candidates(args@, last@, crate::text::views(given@))
        } else {
            args_marked(args@, crate::text::views(given@), req)
        }),
{
    let ghost gv = crate::text::views(given@);
    let mut r: Vec<Candidate> = Vec::new();
    let mut i: usize = 0;
    assert(args@.take(0) =~= Seq::<PromptArgument>::empty());
    assert(candidate_views(r@) =~= Seq::<(Seq<char>, Seq<char>)>::empty());
    while i < args.len()
        invariant
            i <= args@.len(),
            gv == crate::text::views(given@),
            candidate_views(r@) == (if by_prefix {
                arg_name_candidates(args@.take(i as int), last@, gv)
            } else {
                args_marked(args@.take(i as int), gv, req)
            }),
        decreases args.len() - i,
    {
        assert(args@.take(i + 1).drop_last() =~= args@.take(i as int));
        assert(args@.take(i + 1).last() == args@[i as int]);
        let a = &args[i];
        let name = chars_of(a.name.as_str());
        let test = if by_prefix {
            starts_with(&name, last)
        } else {
            match a.required {
                Some(b) => b == req,
                None => false,
            }
        };
        if test && !holds(given, &name) {
            let t = concat(&name, &chars_of("="));
            let c = Candidate { display: string_of(&t), replacement: string_of(&t) };
            let ghost before = candidate_views(r@);
            r.push(c);
            assert(candidate_views(r@) =~= before.push(candidate_view(c)));
        }
        i = i + 1;
    }
    assert(args@.take(i as int) =~= args@);
    r
}

/// `complete_argument_keys`.
pub fn complete_argument_keys(line: &str, prompt_arguments: &Vec<(String, Option<Vec<PromptArgument>>)>) -> (r: (
    usize,
    Vec<Candidate>,
))
    requires
        utf8_len(line@) <= usize::MAX,
    ensures
        r.0 as nat == arg_key_completion(line@, prompt_arguments@).0,
        candidate_views(r.1@) == arg_key_completion(line@, prompt_arguments@).1,
{
    let none: Vec<Candidate> = Vec::new();
    assert(candidate_views(none@) =~= Seq::<(Seq<char>, Seq<char>)>::empty());
    let cs = chars_of(line);
    let t = text_after_byte(&cs, 8);
    proof {
        lemma_after_byte_len(line@, 8);
    }
    let parts = crate::text::split_words(&t);
    if parts.len() == 0 {
        return (line.len(), none);
    }
    let args = match find_prompt_args(prompt_arguments, &parts[0]) {
        Some(Some(a)) => a,
        _ => {
            return (line.len(), none);
        },
    };
    let ghost pv = crate::text::views(parts@);
    let mut given: Vec<Vec<char>> = Vec::new();
    let mut k: usize = 1;
    assert(pv.skip(1).take(0) =~= Seq::<Seq<char>>::empty());
    assert(crate::text::views(given@) =~= Seq::<Seq<char>>::empty());
    while k < parts.len()
        invariant
            1 <= k <= parts@.len(),
            pv == crate::text::views(parts@),
            crate::text::views(given@) == given_names(pv.skip(1).take(k - 1)),
        decreases parts.len() - k,
    {
        assert(pv.skip(1).take(k as int).drop_last() =~= pv.skip(1).take(k - 1));
        assert(pv.skip(1).take(k as int).last() == parts@[k as int]@);
        if crate::text::contains_char(&parts[k], '=') {
            let b = text_before_eq(&parts[k]);
            let ghost before = crate::text::views(given@);
            given.push(b);
            assert(crate::text::views(given@) =~= before.push(b@));
        }
        k = k + 1;
    }
    assert(pv.skip(1).take(k - 1) =~= pv.skip(1));
    let lastw = match last_word_of(&t) {
        Some((w, n)) => (w, n),
        None => {
            return (line.len(), none);
        },
    };
    let last = lastw.0;
    let n = lastw.1;
    let c0 = last[0];
    if c0 == '=' || c0 == '/' || c0 == '\\' {
        return (line.len(), none);
    }
    let has_eq = crate::text::contains_char(&last, '=');
    if !has_eq {
        let names = arg_candidates(args, &last, &given, true, true);
        if names.len() > 0 {
            return (line.len() - n, names);
        }
        if !chars_eq(&last, &parts[0]) {
            return (line.len(), none);
        }
    }
    let required = arg_candidates(args, &last, &given, false, true);
    if required.len() > 0 {
        return (line.len(), required);
    }
    (line.len(), arg_candidates(args, &last, &given, false, false))
}


/// What completion reads besides the line: the agent's commands, the cached
/// prompts (their names, in the cache's order, and their arguments), the
/// modes, and the saved sessions.
#[derive(Debug, Clone)]
pub struct CompletionData {
    /// The agent's commands: name without `/`, description.
    pub agent_commands: Vec<(String, String)>,
    /// Names of the cached prompts.
    pub prompt_names: Vec<String>,
    /// Arguments of each cached prompt, by prompt name.
    pub prompt_arguments: Vec<(String, Option<Vec<PromptArgument>>)>,
    /// Names of the modes, in order.
    pub modes: Vec<String>,
    /// Saved sessions for `/resume`.
    pub resume_sessions: Vec<ResumeCompletionEntry>,
}

/// A finished completion.
pub open spec fn done(r: (nat, Seq<(Seq<char>, Seq<char>)>)) -> CompletionView {
    CompletionView::Done(r.0, r.1)
}

/// The single `--extension` candidate of `/prompts`.
pub open spec fn extension_flag() -> Seq<(Seq<char>, Seq<char>)> {
    seq![("--extension"@, "--extension "@)]
}

/// `GooseCompleter::complete`: nothing unless the cursor is at the end of the
/// line; slash-command names while a `/` line has no space; then the argument
/// completers of `/prompt`, `/prompts`, `/model`, `/mode`, `/skills` and
/// `/resume`; file paths for other lines.
pub open spec fn completion_of(line: Seq<char>, pos: nat, d: CompletionData) -> CompletionView {
    let len = utf8_len(line);
    if pos < len {
        CompletionView::Done(pos, seq![])
    } else if line.len() > 0 && line[0] == '/' {
        let parts = words(line);
        if !has_char(line, ' ') {
            done(slash_completion(line, pair_views(d.agent_commands@)))
        } else if has_prefix(line, "/prompt"@) && (line == "/prompt"@ || line == "/prompt "@ || (
        parts.len() == 2 && line.last() != ' ')) {
            done(prompt_name_completion(line, string_views(d.prompt_names@)))
        } else if has_prefix(line, "/prompt"@) && parts.len() > 0 && has_prefix(parts.last(), "-"@) {
            done(prompt_flag_completion(line))
        } else if has_prefix(line, "/prompt"@) && parts.len() >= 2 {
            done(arg_key_completion(line, d.prompt_arguments@))
        } else if has_prefix(line, "/prompts"@) && line == "/prompts "@ {
            CompletionView::Done(len, extension_flag())
        } else if has_prefix(line, "/prompts"@) && parts.len() == 2 && has_prefix(parts[1], "-"@)
            && has_prefix("--extension"@, parts[1]) {
            CompletionView::Done((len - utf8_len(parts[1])) as nat, extension_flag())
        } else if has_prefix(line, "/model"@) {
            CompletionView::Done(len, seq![])
        } else if has_prefix(line, "/mode"@) {
            if mode_position_fits(line) {
                done(mode_completion(line, string_views(d.modes@)))
            } else {
                CompletionView::Done(len, seq![])
            }
        } else if has_prefix(line, "/skills "@) {
            CompletionView::Skills
        } else if has_prefix(line, "/resume"@) {
            done(resume_completion(line, d.resume_sessions@))
        } else {
            CompletionView::Done(pos, seq![])
        }
    } else {
        file_path_completion(line)
    }
}

/// A finished completion from a completer's result.
fn finished(r: (usize, Vec<Candidate>)) -> (c: Completion)
    ensures
        completion_view(c) == CompletionView::Done(r.0 as nat, candidate_views(r.1@)),
{
    Completion::Done(r.0, r.1)
}

/// The `--extension` candidate.
fn extension_candidates() -> (r: Vec<Candidate>)
    ensures
        candidate_views(r@) == extension_flag(),
{
    let r = vec![Candidate { display: "--extension".to_owned(), replacement: "--extension ".to_owned() }];
    assert(candidate_views(r@) =~= extension_flag());
    r
}

/// `GooseCompleter::complete`: what to complete for `line` with the cursor at
/// byte `pos`. A `/mode` line whose lower-cased second word takes more bytes
/// than the line gets no candidates.
pub fn complete(line: &str, pos: usize, data: &CompletionData) -> (r: Completion)
    requires
        utf8_len(line@) <= usize::MAX,
    ensures
        completion_view(r) == completion_of(line@, pos as nat, *data),
{
    let none: Vec<Candidate> = Vec::new();
    assert(candidate_views(none@) =~= Seq::<(Seq<char>, Seq<char>)>::empty());
    if pos < line.len() {
        return Completion::Done(pos, none);
    }
    let cs = chars_of(line);
    if !(cs.len() > 0 && cs[0] == '/') {
        return complete_file_path(line);
    }
    if !crate::text::contains_char(&cs, ' ') {
        return finished(complete_slash_commands(line, &data.agent_commands));
    }
    let parts = crate::text::split_words(&cs);
    assert(crate::text::views(parts@) == words(line@));
    let is_prompt = starts_with(&cs, &chars_of("/prompt"));
    if is_prompt {
        let ends_in_space = cs[cs.len() - 1] == ' ';
        if chars_eq(&cs, &chars_of("/prompt")) || chars_eq(&cs, &chars_of("/prompt ")) || (parts.len()
            == 2 && !ends_in_space) {
            return finished(complete_prompt_names(line, &data.prompt_names));
        }
        if parts.len() > 0 && starts_with(&parts[parts.len() - 1], &chars_of("-")) {
            return finished(complete_prompt_flags(line));
        }
        if parts.len() >= 2 {
            return finished(complete_argument_keys(line, &data.prompt_arguments));
        }
    }
    if starts_with(&cs, &chars_of("/prompts")) {
        if chars_eq(&cs, &chars_of("/prompts ")) {
            return Completion::Done(line.len(), extension_candidates());
        }
        if parts.len() == 2 && starts_with(&parts[1], &chars_of("-")) && starts_with(
            &chars_of("--extension"),
            &parts[1],
        ) {
            match last_word_of(&cs) {
                Some((w, n)) => {
                    assert(w@ == parts@[1]@);
                    return Completion::Done(line.len() - n, extension_candidates());
                },
                None => {},
            }
        }
    }
    if starts_with(&cs, &chars_of("/model")) {
        return Completion::Done(line.len(), none);
    }
    if starts_with(&cs, &chars_of("/mode")) {
        if mode_fits(line) {
            return finished(complete_mode_flags(line, &data.modes));
        }
        return Completion::Done(line.len(), none);
    }
    if starts_with(&cs, &chars_of("/skills ")) {
        return Completion::Skills;
    }
    if starts_with(&cs, &chars_of("/resume")) {
        return finished(complete_resume_sessions(line, &data.resume_sessions));
    }
    Completion::Done(pos, none)
}


/// Tab then Shift+Tab (or Shift+Tab then Tab) returns to the same menu position.
pub proof fn law_cycle_inverse(len: nat, idx: nat)
    requires
        idx < len,
    ensures
        cycled(len, cycled(len, idx, true), false) == idx,
        cycled(len, cycled(len, idx, false), true) == idx,
        cycled(len, idx, true) < len,
        cycled(len, idx, false) < len,
{
    if idx + 1 == len {
        assert((idx + 1) % len == 0) by (nonlinear_arith)
            requires
                idx + 1 == len,
        ;
    } else {
        assert((idx + 1) % len == idx + 1) by (nonlinear_arith)
            requires
                idx + 1 < len,
        ;
    }
    if idx == 0 {
        assert(((len - 1) as nat + 1) % len == 0) by (nonlinear_arith)
            requires
                len > 0,
        ;
    } else {
        assert(((idx - 1) as nat + 1) % len == idx) by (nonlinear_arith)
            requires
                0 < idx < len,
        ;
    }
}

/// Every entry that matches a prefix starts with it and is one of the entries.
pub proof fn law_with_prefix(v: Seq<(Seq<char>, Seq<char>)>, prefix: Seq<char>)
    ensures
        forall|k: int| 0 <= k < with_prefix(v, prefix).len() ==> has_prefix(
            #[trigger] with_prefix(v, prefix)[k].0,
            prefix,
        ) && v.contains(with_prefix(v, prefix)[k]),
        forall|k: int| 0 <= k < v.len() && has_prefix(#[trigger] v[k].0, prefix) ==> with_prefix(
            v,
            prefix,
        ).contains(v[k]),
    decreases v.len(),
{
    if v.len() > 0 {
        law_with_prefix(v.drop_last(), prefix);
        let r = with_prefix(v, prefix);
        let rest = with_prefix(v.drop_last(), prefix);
        assert forall|k: int| 0 <= k < r.len() implies has_prefix(#[trigger] r[k].0, prefix) && v.contains(r[k]) by {
            if k < rest.len() {
                assert(r[k] == rest[k]);
                let j = choose|j: int| 0 <= j < v.drop_last().len() && v.drop_last()[j] == rest[k];
                assert(v[j] == r[k]);
            } else {
                assert(r[k] == v.last());
                assert(v[v.len() - 1] == r[k]);
            }
        }
        assert forall|k: int| 0 <= k < v.len() && has_prefix(#[trigger] v[k].0, prefix) implies r.contains(v[k]) by {
            if k < v.len() - 1 {
                assert(v.drop_last()[k] == v[k]);
                let j = choose|j: int| 0 <= j < rest.len() && rest[j] == v[k];
                assert(r[j] == v[k]);
            } else {
                assert(r[r.len() - 1] == v[k]);
            }
        }
    }
}

/// `String` order is irreflexive.
proof fn lemma_lex_irreflexive(a: Seq<char>)
    ensures
        !lex_less(a, a),
    decreases a.len(),
{
    if a.len() > 0 {
        lemma_lex_irreflexive(a.drop_first());
    }
}

/// `String` order is transitive.
proof fn lemma_lex_transitive(a: Seq<char>, b: Seq<char>, c: Seq<char>)
    requires
        lex_less(a, b),
        lex_less(b, c),
    ensures
        lex_less(a, c),
    decreases a.len(),
{
    if a.len() > 0 && b.len() > 0 && c.len() > 0 && a[0] == b[0] && b[0] == c[0] {
        lemma_lex_transitive(a.drop_first(), b.drop_first(), c.drop_first());
    }
}

/// Tip-menu order is a strict order.
proof fn lemma_entry_order(a: (Seq<char>, Seq<char>), b: (Seq<char>, Seq<char>), c: (Seq<char>, Seq<char>))
    ensures
        !entry_less(a, a),
        entry_less(a, b) && entry_less(b, c) ==> entry_less(a, c),
        entry_less(a, b) ==> !entry_less(b, a),
{
    lemma_lex_irreflexive(a.0);
    if entry_less(a, b) && entry_less(b, c) && splash_rank(a.0) == splash_rank(b.0) && splash_rank(b.0)
        == splash_rank(c.0) {
        lemma_lex_transitive(a.0, b.0, c.0);
    }
    if entry_less(a, b) && splash_rank(a.0) == splash_rank(b.0) && lex_less(b.0, a.0) {
        lemma_lex_transitive(a.0, b.0, a.0);
    }
}

/// Entries in tip-menu order: no entry comes before one in front of it.
pub open spec fn in_menu_order(s: Seq<(Seq<char>, Seq<char>)>) -> bool {
    forall|i: int, j: int| 0 <= i < j < s.len() ==> !entry_less(#[trigger] s[j], #[trigger] s[i])
}

/// Inserting keeps every entry and adds `x`.
proof fn lemma_insert_entry_elements(x: (Seq<char>, Seq<char>), s: Seq<(Seq<char>, Seq<char>)>)
    ensures
        insert_entry(x, s).len() == s.len() + 1,
        insert_entry(x, s).contains(x),
        forall|k: int| 0 <= k < s.len() ==> insert_entry(x, s).contains(#[trigger] s[k]),
        forall|k: int| 0 <= k < insert_entry(x, s).len() ==> #[trigger] insert_entry(x, s)[k] == x || s.contains(
            insert_entry(x, s)[k],
        ),
    decreases s.len(),
{
    let r = insert_entry(x, s);
    if s.len() == 0 {
        assert(r[0] == x);
    } else if entry_less(x, s[0]) {
        assert(r[0] == x);
        assert forall|k: int| 0 <= k < s.len() implies r.contains(#[trigger] s[k]) by {
            assert(r[k + 1] == s[k]);
        }
        assert forall|k: int| 0 <= k < r.len() implies #[trigger] r[k] == x || s.contains(r[k]) by {
            if k > 0 {
                assert(s[k - 1] == r[k]);
            }
        }
    } else {
        let t = s.drop_first();
        lemma_insert_entry_elements(x, t);
        let rt = insert_entry(x, t);
        assert(r == seq![s[0]] + rt);
        assert(r.contains(x)) by {
            let j = choose|j: int| 0 <= j < rt.len() && rt[j] == x;
            assert(r[j + 1] == x);
        }
        assert forall|k: int| 0 <= k < s.len() implies r.contains(#[trigger] s[k]) by {
            if k == 0 {
                assert(r[0] == s[0]);
            } else {
                assert(t[k - 1] == s[k]);
                let j = choose|j: int| 0 <= j < rt.len() && rt[j] == t[k - 1];
                assert(r[j + 1] == s[k]);
            }
        }
        assert forall|k: int| 0 <= k < r.len() implies #[trigger] r[k] == x || s.contains(r[k]) by {
            if k == 0 {
                assert(s[0] == r[k]);
            } else {
                assert(r[k] == rt[k - 1]);
                if rt[k - 1] != x {
                    let j = choose|j: int| 0 <= j < t.len() && t[j] == rt[k - 1];
                    assert(s[j + 1] == r[k]);
                }
            }
        }
    }
}

/// Inserting into entries in tip-menu order keeps them in order.
proof fn lemma_insert_entry_ordered(x: (Seq<char>, Seq<char>), s: Seq<(Seq<char>, Seq<char>)>)
    requires
        in_menu_order(s),
    ensures
        in_menu_order(insert_entry(x, s)),
    decreases s.len(),
{
    let r = insert_entry(x, s);
    if s.len() == 0 {
    } else if entry_less(x, s[0]) {
        assert forall|i: int, j: int| 0 <= i < j < r.len() implies !entry_less(#[trigger] r[j], #[trigger] r[i]) by {
            if i == 0 {
                assert(r[j] == s[j - 1]);
                lemma_entry_order(s[j - 1], x, s[0]);
                if j - 1 > 0 {
                    assert(!entry_less(s[j - 1], s[0]));
                }
            } else {
                assert(r[i] == s[i - 1]);
                assert(r[j] == s[j - 1]);
            }
        }
    } else {
        let t = s.drop_first();
        assert(in_menu_order(t)) by {
            assert forall|i: int, j: int| 0 <= i < j < t.len() implies !entry_less(#[trigger] t[j], #[trigger] t[i]) by {
                assert(t[i] == s[i + 1]);
                assert(t[j] == s[j + 1]);
            }
        }
        lemma_insert_entry_ordered(x, t);
        lemma_insert_entry_elements(x, t);
        let rt = insert_entry(x, t);
        assert(r == seq![s[0]] + rt);
        assert forall|i: int, j: int| 0 <= i < j < r.len() implies !entry_less(#[trigger] r[j], #[trigger] r[i]) by {
            if i == 0 {
                assert(r[j] == rt[j - 1]);
                if rt[j - 1] != x {
                    let k = choose|k: int| 0 <= k < t.len() && t[k] == rt[j - 1];
                    assert(s[k + 1] == r[j]);
                }
            } else {
                assert(r[i] == rt[i - 1]);
                assert(r[j] == rt[j - 1]);
            }
        }
    }
}

/// Sorting keeps every entry, adds none, and puts them in tip-menu order.
pub proof fn law_sort_entries(s: Seq<(Seq<char>, Seq<char>)>)
    ensures
        in_menu_order(sort_entries(s)),
        sort_entries(s).len() == s.len(),
        forall|k: int| 0 <= k < s.len() ==> sort_entries(s).contains(#[trigger] s[k]),
        forall|k: int| 0 <= k < sort_entries(s).len() ==> s.contains(#[trigger] sort_entries(s)[k]),
    decreases s.len(),
{
    if s.len() > 0 {
        let p = s.drop_last();
        law_sort_entries(p);
        let sp = sort_entries(p);
        lemma_insert_entry_ordered(s.last(), sp);
        lemma_insert_entry_elements(s.last(), sp);
        let r = sort_entries(s);
        assert forall|k: int| 0 <= k < s.len() implies r.contains(#[trigger] s[k]) by {
            if k < s.len() - 1 {
                assert(p[k] == s[k]);
                let j = choose|j: int| 0 <= j < sp.len() && sp[j] == p[k];
                assert(sp.contains(sp[j]));
            }
        }
        assert forall|k: int| 0 <= k < r.len() implies s.contains(#[trigger] r[k]) by {
            if r[k] == s.last() {
                assert(s[s.len() - 1] == r[k]);
            } else {
                let j = choose|j: int| 0 <= j < sp.len() && sp[j] == r[k];
                let m = choose|m: int| 0 <= m < p.len() && p[m] == sp[j];
                assert(s[m] == r[k]);
            }
        }
    }
}

/// The slash commands come in tip-menu order (splash commands first), hold
/// every CLI-local command and a `/`-named entry for every agent command, and
/// every name starts with `/`.
pub proof fn law_slash_entries(agent: Seq<(Seq<char>, Seq<char>)>)
    ensures
        in_menu_order(slash_entries(agent)),
        forall|k: int| 0 <= k < cli_slash_commands().len() ==> slash_entries(agent).contains(
            #[trigger] cli_slash_commands()[k],
        ),
        forall|k: int| 0 <= k < agent.len() ==> has_name(slash_entries(agent), "/"@ + #[trigger] agent[k].0),
        forall|k: int| 0 <= k < slash_entries(agent).len() ==> (#[trigger] slash_entries(agent)[k]).0.len() > 0
            && slash_entries(agent)[k].0[0] == '/',
{
    let c = with_agent_commands(cli_slash_commands(), agent);
    lemma_cli_names_slashed();
    lemma_with_agent_commands(cli_slash_commands(), agent);
    law_sort_entries(c);
    let e = slash_entries(agent);
    assert forall|k: int| 0 <= k < cli_slash_commands().len() implies e.contains(#[trigger] cli_slash_commands()[k]) by {
        assert(c[k] == cli_slash_commands()[k]);
    }
    assert forall|k: int| 0 <= k < agent.len() implies has_name(e, "/"@ + #[trigger] agent[k].0) by {
        let j = choose|j: int| 0 <= j < c.len() && c[j].0 == "/"@ + agent[k].0;
        let m = choose|m: int| 0 <= m < e.len() && e[m] == c[j];
    }
    assert forall|k: int| 0 <= k < e.len() implies (#[trigger] e[k]).0.len() > 0 && e[k].0[0] == '/' by {
        let j = choose|j: int| 0 <= j < c.len() && c[j] == e[k];
    }
}

/// Every CLI-local command's name starts with `/`.
proof fn lemma_cli_names_slashed()
    ensures
        forall|k: int| 0 <= k < cli_slash_commands().len() ==> (#[trigger] cli_slash_commands()[k]).0.len() > 0
            && cli_slash_commands()[k].0[0] == '/',
{
    reveal_strlit("/exit");
    reveal_strlit("/quit");
    reveal_strlit("/help");
    reveal_strlit("/?");
    reveal_strlit("/t");
    reveal_strlit("/r");
    reveal_strlit("/extension");
    reveal_strlit("/builtin");
    reveal_strlit("/mode");
    reveal_strlit("/model");
    reveal_strlit("/plan");
    reveal_strlit("/endplan");
    reveal_strlit("/recipe");
    reveal_strlit("/edit");
    let c = cli_slash_commands();
    assert forall|k: int| 0 <= k < c.len() implies (#[trigger] c[k]).0.len() > 0 && c[k].0[0] == '/' by {
        if k == 0 { assert(c[k].0 == "/exit"@); }
        else if k == 1 { assert(c[k].0 == "/quit"@); }
        else if k == 2 { assert(c[k].0 == "/help"@); }
        else if k == 3 { assert(c[k].0 == "/?"@); }
        else if k == 4 { assert(c[k].0 == "/t"@); }
        else if k == 5 { assert(c[k].0 == "/r"@); }
        else if k == 6 { assert(c[k].0 == "/extension"@); }
        else if k == 7 { assert(c[k].0 == "/builtin"@); }
        else if k == 8 { assert(c[k].0 == "/mode"@); }
        else if k == 9 { assert(c[k].0 == "/model"@); }
        else if k == 10 { assert(c[k].0 == "/plan"@); }
        else if k == 11 { assert(c[k].0 == "/endplan"@); }
        else if k == 12 { assert(c[k].0 == "/recipe"@); }
        else { assert(c[k].0 == "/edit"@); }
    }
}

/// Adding the agent's commands keeps the commands there in front, adds a
/// `/`-named entry for each agent command, and every name starts with `/`
/// when every name there did.
proof fn lemma_with_agent_commands(acc: Seq<(Seq<char>, Seq<char>)>, agent: Seq<(Seq<char>, Seq<char>)>)
    ensures
        with_agent_commands(acc, agent).len() >= acc.len(),
        forall|k: int| 0 <= k < acc.len() ==> with_agent_commands(acc, agent)[k] == #[trigger] acc[k],
        forall|k: int| 0 <= k < agent.len() ==> has_name(with_agent_commands(acc, agent), "/"@ + #[trigger] agent[k].0),
        (forall|k: int| 0 <= k < acc.len() ==> (#[trigger] acc[k]).0.len() > 0 && acc[k].0[0] == '/') ==> (forall|k: int|
            0 <= k < with_agent_commands(acc, agent).len() ==> (#[trigger] with_agent_commands(acc, agent)[k]).0.len() > 0
                && with_agent_commands(acc, agent)[k].0[0] == '/'),
    decreases agent.len(),
{
    reveal_strlit("/");
    if agent.len() > 0 {
        let name = "/"@ + agent[0].0;
        let next = if has_name(acc, name) {
            acc
        } else {
            acc.push((name, agent[0].1))
        };
        lemma_with_agent_commands(next, agent.drop_first());
        let r = with_agent_commands(acc, agent);
        assert(r == with_agent_commands(next, agent.drop_first()));
        assert forall|k: int| 0 <= k < acc.len() implies r[k] == #[trigger] acc[k] by {
            assert(next[k] == acc[k]);
        }
        assert(has_name(next, name)) by {
            if has_name(acc, name) {
                let j = choose|j: int| 0 <= j < acc.len() && acc[j].0 == name;
                assert(next[j].0 == name);
            } else {
                assert(next[acc.len() as int].0 == name);
            }
        }
        assert(has_name(r, name)) by {
            let j = choose|j: int| 0 <= j < next.len() && next[j].0 == name;
            assert(r[j] == next[j]);
        }
        assert forall|k: int| 0 <= k < agent.len() implies has_name(r, "/"@ + #[trigger] agent[k].0) by {
            if k > 0 {
                assert(agent.drop_first()[k - 1] == agent[k]);
            }
        }
        if forall|k: int| 0 <= k < acc.len() ==> (#[trigger] acc[k]).0.len() > 0 && acc[k].0[0] == '/' {
            assert forall|k: int| 0 <= k < next.len() implies (#[trigger] next[k]).0.len() > 0 && next[k].0[0] == '/' by {
                if k < acc.len() {
                    assert(next[k] == acc[k]);
                } else {
                    assert(next[k].0 == name);
                }
            }
        }
    }
}

/// The tip-menu rows that Tab cycles through replace from the command's
/// leading `/`, and for a partial name every replacement starts with it.
pub proof fn law_slash_rows(line: Seq<char>, agent: Seq<(Seq<char>, Seq<char>)>)
    ensures
        forall|k: int| 0 <= k < slash_completion(line, agent).1.len() ==> (#[trigger] slash_completion(
            line,
            agent,
        ).1[k]).1.len() > 0 && slash_completion(line, agent).1[k].1[0] == '/',
        ({
            let m = with_prefix(slash_entries(agent), trim_end(line));
            !(m.len() == 1 && m[0].0 == trim_end(line)) ==> forall|k: int| 0 <= k < slash_completion(line, agent).1.len()
                ==> has_prefix((#[trigger] slash_completion(line, agent).1[k]).1, trim_end(line))
        }),
{
    let prefix = trim_end(line);
    let all = slash_entries(agent);
    let m = with_prefix(all, prefix);
    law_with_prefix(all, prefix);
    law_slash_entries(agent);
    let c = slash_cycle(prefix, agent);
    let rows = slash_completion(line, agent).1;
    assert forall|k: int| 0 <= k < c.len() implies all.contains(#[trigger] c[k]) by {
        if m.len() == 1 && m[0].0 == prefix {
            lemma_name_index(all, prefix);
            match name_index(all, prefix) {
                Some(idx) => {
                    let j = if k < all.len() - (idx + 1) {
                        k + idx + 1
                    } else {
                        k - (all.len() - (idx + 1))
                    };
                    assert(c == all.skip(idx + 1) + all.take(idx + 1));
                    assert(all[j] == c[k]);
                },
                None => {
                    assert(c == m);
                    assert(has_prefix(m[k].0, prefix));
                    assert(all.contains(m[k]));
                },
            }
        } else {
            assert(c == m);
            assert(has_prefix(m[k].0, prefix));
            assert(all.contains(m[k]));
        }
    }
    if m.len() > 0 {
        assert forall|k: int| 0 <= k < rows.len() implies (#[trigger] rows[k]).1.len() > 0 && rows[k].1[0] == '/' by {
            assert(rows[k] == slash_candidate(c[k]));
            let j = choose|j: int| 0 <= j < all.len() && all[j] == c[k];
            assert(all[j].0.len() > 0 && all[j].0[0] == '/');
            assert(rows[k].1[0] == c[k].0[0]);
        }
        if !(m.len() == 1 && m[0].0 == prefix) {
            assert forall|k: int| 0 <= k < rows.len() implies has_prefix((#[trigger] rows[k]).1, prefix) by {
                assert(rows[k] == slash_candidate(m[k]));
                assert(has_prefix(m[k].0, prefix));
                assert((m[k].0 + " "@).subrange(0, prefix.len() as int) =~= m[k].0.subrange(0, prefix.len() as int));
            }
        }
    }
}

/// On a non-empty line, an interrupted or exit hint is cleared: no hint is
/// shown and the status goes back to `Default`.
pub proof fn law_hint_clears(line: Seq<char>, status: HintStatus, key: char, agent: Seq<(Seq<char>, Seq<char>)>)
    requires
        line.len() > 0,
        status != HintStatus::Default,
    ensures
        hint_of(line, status, key, agent) == (None::<Seq<char>>, true),
{
}

/// Filtering by a prefix that every name has keeps every entry, in order.
proof fn lemma_with_prefix_all(v: Seq<(Seq<char>, Seq<char>)>, p: Seq<char>)
    requires
        forall|k: int| 0 <= k < v.len() ==> has_prefix(#[trigger] v[k].0, p),
    ensures
        with_prefix(v, p) == v,
    decreases v.len(),
{
    if v.len() > 0 {
        let d = v.drop_last();
        assert forall|k: int| 0 <= k < d.len() implies has_prefix(#[trigger] d[k].0, p) by {
            assert(d[k] == v[k]);
        }
        lemma_with_prefix_all(d, p);
        assert(has_prefix(v[v.len() - 1].0, p));
        assert(d.push(v.last()) =~= v);
    }
}

/// Filtering by a prefix that no name has keeps nothing.
proof fn lemma_with_prefix_none(v: Seq<(Seq<char>, Seq<char>)>, p: Seq<char>)
    requires
        forall|k: int| 0 <= k < v.len() ==> !has_prefix(#[trigger] v[k].0, p),
    ensures
        with_prefix(v, p).len() == 0,
    decreases v.len(),
{
    if v.len() > 0 {
        let d = v.drop_last();
        assert forall|k: int| 0 <= k < d.len() implies !has_prefix(#[trigger] d[k].0, p) by {
            assert(d[k] == v[k]);
        }
        lemma_with_prefix_none(d, p);
        assert(!has_prefix(v[v.len() - 1].0, p));
    }
}

/// Every entry after adding the agent's commands was there before or is an
/// agent command named with a leading `/`.
proof fn lemma_with_agent_members(acc: Seq<(Seq<char>, Seq<char>)>, agent: Seq<(Seq<char>, Seq<char>)>)
    ensures
        forall|k: int| 0 <= k < with_agent_commands(acc, agent).len() ==> acc.contains(
            #[trigger] with_agent_commands(acc, agent)[k],
        ) || exists|j: int| 0 <= j < agent.len() && with_agent_commands(acc, agent)[k] == ("/"@ + agent[j].0, agent[j].1),
    decreases agent.len(),
{
    if agent.len() > 0 {
        let name = "/"@ + agent[0].0;
        let next = if has_name(acc, name) {
            acc
        } else {
            acc.push((name, agent[0].1))
        };
        let rest = agent.drop_first();
        lemma_with_agent_members(next, rest);
        let r = with_agent_commands(acc, agent);
        assert(r == with_agent_commands(next, rest));
        assert forall|k: int| 0 <= k < r.len() implies acc.contains(#[trigger] r[k]) || exists|j: int|
            0 <= j < agent.len() && r[k] == ("/"@ + agent[j].0, agent[j].1) by {
            if next.contains(r[k]) {
                let i = choose|i: int| 0 <= i < next.len() && next[i] == r[k];
                if i < acc.len() {
                    assert(acc[i] == r[k]);
                } else {
                    assert(r[k] == ("/"@ + agent[0].0, agent[0].1));
                }
            } else {
                let j = choose|j: int| 0 <= j < rest.len() && r[k] == ("/"@ + rest[j].0, rest[j].1);
                assert(rest[j] == agent[j + 1]);
            }
        }
    }
}

/// Every CLI-local command's name is at most ten characters long.
proof fn lemma_cli_names_short()
    ensures
        forall|k: int| 0 <= k < cli_slash_commands().len() ==> (#[trigger] cli_slash_commands()[k]).0.len() <= 10,
{
    reveal_strlit("/exit");
    reveal_strlit("/quit");
    reveal_strlit("/help");
    reveal_strlit("/?");
    reveal_strlit("/t");
    reveal_strlit("/r");
    reveal_strlit("/extension");
    reveal_strlit("/builtin");
    reveal_strlit("/mode");
    reveal_strlit("/model");
    reveal_strlit("/plan");
    reveal_strlit("/endplan");
    reveal_strlit("/recipe");
    reveal_strlit("/edit");
    let c = cli_slash_commands();
    assert forall|k: int| 0 <= k < c.len() implies (#[trigger] c[k]).0.len() <= 10 by {
        if k == 0 { assert(c[k].0 == "/exit"@); }
        else if k == 1 { assert(c[k].0 == "/quit"@); }
        else if k == 2 { assert(c[k].0 == "/help"@); }
        else if k == 3 { assert(c[k].0 == "/?"@); }
        else if k == 4 { assert(c[k].0 == "/t"@); }
        else if k == 5 { assert(c[k].0 == "/r"@); }
        else if k == 6 { assert(c[k].0 == "/extension"@); }
        else if k == 7 { assert(c[k].0 == "/builtin"@); }
        else if k == 8 { assert(c[k].0 == "/mode"@); }
        else if k == 9 { assert(c[k].0 == "/model"@); }
        else if k == 10 { assert(c[k].0 == "/plan"@); }
        else if k == 11 { assert(c[k].0 == "/endplan"@); }
        else if k == 12 { assert(c[k].0 == "/recipe"@); }
        else { assert(c[k].0 == "/edit"@); }
    }
}

/// `matching_slash_commands` is the prefix filter of the slash commands in
/// tip-menu order: `/` matches every command (more than five, `/help`
/// first), and a prefix that no name has matches none (here `/zzznomatch`,
/// when no agent command's name starts with `zzznomatch`).
pub proof fn law_slash_prefix_filter(agent: Seq<(Seq<char>, Seq<char>)>)
    ensures
        with_prefix(slash_entries(agent), "/"@) == slash_entries(agent),
        slash_entries(agent).len() > 5,
        slash_entries(agent)[0].0 == "/help"@,
        (forall|k: int| 0 <= k < agent.len() ==> !has_prefix("/"@ + #[trigger] agent[k].0, "/zzznomatch"@))
            ==> with_prefix(slash_entries(agent), "/zzznomatch"@).len() == 0,
{
    reveal_strlit("/");
    reveal_strlit("/help");
    reveal_strlit("/zzznomatch");
    let c = with_agent_commands(cli_slash_commands(), agent);
    let e = slash_entries(agent);
    law_slash_entries(agent);
    lemma_with_agent_commands(cli_slash_commands(), agent);
    law_sort_entries(c);
    assert forall|k: int| 0 <= k < e.len() implies has_prefix(#[trigger] e[k].0, "/"@) by {
        assert(e[k].0.subrange(0, 1) =~= "/"@);
    }
    lemma_with_prefix_all(e, "/"@);
    assert(cli_slash_commands().len() == 14);
    // `/help` ranks first, and only `/help` does.
    let so = splash_order();
    so.index_of_first_ensures("/help"@);
    assert(so[0] == "/help"@);
    assert(splash_rank("/help"@) == 0);
    let help = cli_slash_commands()[2];
    assert(help.0 == "/help"@);
    assert(e.contains(help));
    let m = choose|m: int| 0 <= m < e.len() && e[m] == help;
    if m > 0 {
        assert(!entry_less(e[m], e[0]));
    }
    assert(splash_rank(e[0].0) == 0);
    so.index_of_first_ensures(e[0].0);
    if forall|k: int| 0 <= k < agent.len() ==> !has_prefix("/"@ + #[trigger] agent[k].0, "/zzznomatch"@) {
        lemma_with_agent_members(cli_slash_commands(), agent);
        lemma_cli_names_short();
        assert forall|k: int| 0 <= k < e.len() implies !has_prefix(#[trigger] e[k].0, "/zzznomatch"@) by {
            assert(c.contains(e[k]));
            let i = choose|i: int| 0 <= i < c.len() && c[i] == e[k];
            if cli_slash_commands().contains(c[i]) {
                let q = choose|q: int| 0 <= q < cli_slash_commands().len() && cli_slash_commands()[q] == c[i];
                assert(cli_slash_commands()[q].0.len() <= 10);
            } else {
                let j = choose|j: int| 0 <= j < agent.len() && c[i] == ("/"@ + agent[j].0, agent[j].1);
                assert(!has_prefix("/"@ + agent[j].0, "/zzznomatch"@));
            }
        }
        lemma_with_prefix_none(e, "/zzznomatch"@);
    }
}

/// `c` is the offer of some mode of `modes` whose lower-cased name starts with
/// the lower-cased `partial`: its name, then its name and a space.
pub open spec fn offers_matching_mode(modes: Seq<Seq<char>>, partial: Seq<char>, c: (Seq<char>, Seq<char>)) -> bool {
    exists|i: int|
        0 <= i < modes.len() && c == (#[trigger] modes[i], modes[i] + " "@) && has_prefix(
            crate::text::unicode_lower(modes[i]),
            crate::text::unicode_lower(partial),
        )
}

/// Each mode matching `partial` is offered, with a trailing space, and nothing
/// else is: a mode is offered exactly when its lower-cased name starts with the
/// lower-cased `partial`; there is at most one offer per mode, and when every
/// mode matches, every mode is offered, in order.
pub proof fn law_mode_candidates(modes: Seq<Seq<char>>, partial: Seq<char>)
    ensures
        forall|i: int| 0 <= i < modes.len() && has_prefix(
            crate::text::unicode_lower(#[trigger] modes[i]),
            crate::text::unicode_lower(partial),
        ) ==> mode_candidates(modes, partial).contains((modes[i], modes[i] + " "@)),
        forall|k: int| 0 <= k < mode_candidates(modes, partial).len() ==> offers_matching_mode(
            modes,
            partial,
            #[trigger] mode_candidates(modes, partial)[k],
        ),
        mode_candidates(modes, partial).len() <= modes.len(),
        (forall|i: int| 0 <= i < modes.len() ==> has_prefix(
            crate::text::unicode_lower(#[trigger] modes[i]),
            crate::text::unicode_lower(partial),
        )) ==> mode_candidates(modes, partial) == modes.map_values(|m: Seq<char>| (m, m + " "@)),
    decreases modes.len(),
{
    if modes.len() > 0 {
        let d = modes.drop_last();
        law_mode_candidates(d, partial);
        let r = mode_candidates(modes, partial);
        let rd = mode_candidates(d, partial);
        assert forall|i: int| 0 <= i < modes.len() && has_prefix(
            crate::text::unicode_lower(#[trigger] modes[i]),
            crate::text::unicode_lower(partial),
        ) implies r.contains((modes[i], modes[i] + " "@)) by {
            if i < modes.len() - 1 {
                assert(d[i] == modes[i]);
                let j = choose|j: int| 0 <= j < rd.len() && rd[j] == (d[i], d[i] + " "@);
                assert(r[j] == rd[j]);
            } else {
                assert(r[rd.len() as int] == (modes[i], modes[i] + " "@));
            }
        }
        assert forall|k: int| 0 <= k < r.len() implies offers_matching_mode(modes, partial, #[trigger] r[k]) by {
            if k < rd.len() {
                assert(r[k] == rd[k]);
                assert(offers_matching_mode(d, partial, rd[k]));
                let i = choose|i: int|
                    0 <= i < d.len() && rd[k] == (#[trigger] d[i], d[i] + " "@) && has_prefix(
                        crate::text::unicode_lower(d[i]),
                        crate::text::unicode_lower(partial),
                    );
                assert(modes[i] == d[i]);
            } else {
                let n = modes.len() - 1;
                assert(modes[n] == modes.last());
                assert(r[k] == (modes[n], modes[n] + " "@));
            }
        }
        if forall|i: int| 0 <= i < modes.len() ==> has_prefix(
            crate::text::unicode_lower(#[trigger] modes[i]),
            crate::text::unicode_lower(partial),
        ) {
            assert forall|i: int| 0 <= i < d.len() implies has_prefix(
                crate::text::unicode_lower(#[trigger] d[i]),
                crate::text::unicode_lower(partial),
            ) by {
                assert(d[i] == modes[i]);
            }
            assert(has_prefix(crate::text::unicode_lower(modes[modes.len() - 1]), crate::text::unicode_lower(partial)));
            assert(r =~= modes.map_values(|m: Seq<char>| (m, m + " "@)));
        }
    } else {
        assert(mode_candidates(modes, partial) =~= modes.map_values(|m: Seq<char>| (m, m + " "@)));
    }
}

/// For a two-word `/mode` line, the offers are exactly the modes matching the
/// second word, lower-cased (e.g. `/mode ap` offers `approve`).
pub proof fn law_mode_completion_two_words(line: Seq<char>, modes: Seq<Seq<char>>)
    requires
        line != "/mode "@,
        words(line).len() == 2,
    ensures
        forall|i: int| 0 <= i < modes.len() && has_prefix(
            crate::text::unicode_lower(#[trigger] modes[i]),
            crate::text::unicode_lower(crate::text::unicode_lower(words(line)[1])),
        ) ==> mode_completion(line, modes).1.contains((modes[i], modes[i] + " "@)),
        forall|k: int| 0 <= k < mode_completion(line, modes).1.len() ==> offers_matching_mode(
            modes,
            crate::text::unicode_lower(words(line)[1]),
            #[trigger] mode_completion(line, modes).1[k],
        ),
{
    law_mode_candidates(modes, crate::text::unicode_lower(words(line)[1]));
}

} // verus!
