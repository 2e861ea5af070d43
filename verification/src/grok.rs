//! Grok Build CLI extension: the command lines handed to the `grok` binary,
//! how its output is reported, and where its files are found.

use vstd::prelude::*;
use crate::json::{get, get_member, json_parse, parse_json, Json};
use crate::text::{chars_of, concat, decimal, string_of, trim, trim_str, usize_to_string};

verus! {

/// Parameters of `grok_run`.
#[derive(Debug, Clone)]
pub struct GrokRunParams {
    /// Prompt for Grok Build to execute.
    pub prompt: String,
    /// Working directory for the Grok session (default: goose's project directory).
    pub cwd: Option<String>,
    /// Existing Grok session id to resume (`grok --resume`).
    pub session_id: Option<String>,
    /// Continue the most recent Grok session in the working directory (`grok --continue`).
    pub continue_last: bool,
    /// Grok model id (for example grok-4.6); Grok's default when absent.
    pub model: Option<String>,
    /// Maximum Grok agent turns before stopping.
    pub max_turns: Option<u32>,
}

/// Parameters of `grok_sessions`.
#[derive(Debug, Clone)]
pub struct GrokSessionsParams {
    /// Optional search query over session titles and prompts.
    pub query: Option<String>,
    /// Maximum number of sessions to list (default 20).
    pub limit: Option<u32>,
}

/// Parameters of `grok_status`.
#[derive(Debug, Clone)]
pub struct GrokStatusParams {
    /// Grok session id from `grok_run` or `grok_sessions`.
    pub session_id: String,
}

/// A text trimmed, when something is left of it.
pub open spec fn trimmed_non_blank(o: Option<String>) -> Option<Seq<char>> {
    match o {
        Some(s) => if trim(s@).len() > 0 {
            Some(trim(s@))
        } else {
            None
        },
        None => None,
    }
}

/// The arguments of `grok` for a run: headless with JSON output and tools
/// approved; then `--resume <id>` for a given session (else `--continue` when
/// asked), `-m <model>` for a given model and `--max-turns <n>` when set.
pub open spec fn run_args(p: GrokRunParams) -> Seq<Seq<char>> {
    let base = seq!["-p"@, p.prompt@, "--output-format"@, "json"@, "--always-approve"@];
    let resume = match trimmed_non_blank(p.session_id) {
        Some(id) => seq!["--resume"@, id],
        None => if p.continue_last {
            seq!["--continue"@]
        } else {
            seq![]
        },
    };
    let model = match trimmed_non_blank(p.model) {
        Some(m) => seq!["-m"@, m],
        None => seq![],
    };
    let turns = match p.max_turns {
        Some(n) => seq!["--max-turns"@, decimal(n as nat)],
        None => seq![],
    };
    base + resume + model + turns
}

/// A text trimmed, when something is left of it.
fn non_blank_trimmed(o: &Option<String>) -> (r: Option<String>)
    ensures
        crate::scrape::opt_view(r) == trimmed_non_blank(*o),
{
    match o {
        Some(s) => {
            let t = trim_str(s.as_str());
            if t.as_str().is_empty() {
                None
            } else {
                Some(t)
            }
        },
        None => None,
    }
}

/// The arguments of `grok` for `grok_run`.
pub fn build_run_args(params: &GrokRunParams) -> (r: Vec<String>)
    ensures
        crate::text::string_views(r@) == run_args(*params),
{
    let mut args: Vec<String> = vec![
        "-p".to_owned(),
        params.prompt.clone(),
        "--output-format".to_owned(),
        "json".to_owned(),
        "--always-approve".to_owned(),
    ];
    let ghost base = crate::text::string_views(args@);
    match non_blank_trimmed(&params.session_id) {
        Some(id) => {
            args.push("--resume".to_owned());
            args.push(id);
        },
        None => {
            if params.continue_last {
                args.push("--continue".to_owned());
            }
        },
    }
    let ghost after_resume = crate::text::string_views(args@);
    match non_blank_trimmed(&params.model) {
        Some(m) => {
            args.push("-m".to_owned());
            args.push(m);
        },
        None => {},
    }
    let ghost after_model = crate::text::string_views(args@);
    match params.max_turns {
        Some(n) => {
            args.push("--max-turns".to_owned());
            args.push(usize_to_string(n as usize));
        },
        None => {},
    }
    proof {
        let p = *params;
        let resume = match trimmed_non_blank(p.session_id) {
            Some(id) => seq!["--resume"@, id],
            None => if p.continue_last {
                seq!["--continue"@]
            } else {
                seq![]
            },
        };
        let model = match trimmed_non_blank(p.model) {
            Some(m) => seq!["-m"@, m],
            None => seq![],
        };
        let turns = match p.max_turns {
            Some(n) => seq!["--max-turns"@, decimal(n as nat)],
            None => seq![],
        };
        assert(base =~= seq!["-p"@, p.prompt@, "--output-format"@, "json"@, "--always-approve"@]);
        assert(after_resume =~= base + resume);
        assert(after_model =~= base + resume + model);
        assert(crate::text::string_views(args@) =~= base + resume + model + turns);
    }
    args
}

/// The arguments of `grok` for `grok_sessions`: `sessions search <query>` for a
/// non-blank query (trimmed), else `sessions list`; then `--limit <n>` when set.
pub open spec fn sessions_args(p: GrokSessionsParams) -> Seq<Seq<char>> {
    let what = match trimmed_non_blank(p.query) {
        Some(q) => seq!["sessions"@, "search"@, q],
        None => seq!["sessions"@, "list"@],
    };
    match p.limit {
        Some(n) => what + seq!["--limit"@, decimal(n as nat)],
        None => what,
    }
}

/// The arguments of `grok` for `grok_sessions`.
pub fn build_sessions_args(params: &GrokSessionsParams) -> (r: Vec<String>)
    ensures
        crate::text::string_views(r@) == sessions_args(*params),
{
    let mut args: Vec<String> = vec!["sessions".to_owned()];
    match non_blank_trimmed(&params.query) {
        Some(q) => {
            args.push("search".to_owned());
            args.push(q);
        },
        None => {
            args.push("list".to_owned());
        },
    }
    let ghost what = crate::text::string_views(args@);
    match params.limit {
        Some(n) => {
            args.push("--limit".to_owned());
            args.push(usize_to_string(n as usize));
        },
        None => {},
    }
    proof {
        let p = *params;
        let w = match trimmed_non_blank(p.query) {
            Some(q) => seq!["sessions"@, "search"@, q],
            None => seq!["sessions"@, "list"@],
        };
        assert(what =~= w);
        match p.limit {
            Some(n) => {
                assert(crate::text::string_views(args@) =~= w + seq!["--limit"@, decimal(n as nat)]);
            },
            None => {},
        }
    }
    args
}

/// The text of a string member of a JSON value, or `default`.
pub open spec fn str_member_or(v: Json, key: Seq<char>, default: Seq<char>) -> Seq<char> {
    match get(v, key) {
        Some(Json::Str(s)) => s@,
        _ => default,
    }
}

/// The report of a run: for JSON output, its session id, stop reason and text
/// (`(unknown)`, `unknown` and the raw output when missing); other output as is.
pub open spec fn run_report(stdout: Seq<char>, parsed: Option<Json>) -> Seq<char> {
    match parsed {
        Some(v) => "session_id: "@ + str_member_or(v, "sessionId"@, "(unknown)"@) + "\nstop_reason: "@
            + str_member_or(v, "stopReason"@, "unknown"@) + "\n\n"@ + str_member_or(
            v,
            "text"@,
            stdout,
        ),
        None => stdout,
    }
}

/// The text of a string member of a JSON value, or `default`.
fn str_member_or_default(v: &Json, key: &str, default: &str) -> (r: String)
    ensures
        r@ == str_member_or(*v, key@, default@),
{
    match get_member(v, key) {
        Some(Json::Str(s)) => s.clone(),
        _ => default.to_owned(),
    }
}

/// The report of a run whose standard output `stdout` parsed as `parsed`
/// (`None` when it is not JSON).
pub fn format_run_report(stdout: &str, parsed: Option<&Json>) -> (r: String)
    ensures
        r@ == run_report(
            stdout@,
            match parsed {
                Some(v) => Some(*v),
                None => None,
            },
        ),
{
    match parsed {
        None => stdout.to_owned(),
        Some(v) => {
            let text = str_member_or_default(v, "text", stdout);
            let session_id = str_member_or_default(v, "sessionId", "(unknown)");
            let stop = str_member_or_default(v, "stopReason", "unknown");
            let mut out = chars_of("session_id: ");
            out = concat(&out, &chars_of(session_id.as_str()));
            out = concat(&out, &chars_of("\nstop_reason: "));
            out = concat(&out, &chars_of(stop.as_str()));
            out = concat(&out, &chars_of("\n\n"));
            out = concat(&out, &chars_of(text.as_str()));
            string_of(&out)
        },
    }
}

/// `format_run_output`: the report of a run, from its standard output read as
/// a JSON document when it is one.
pub fn format_run_output(stdout: &str) -> (r: String)
    ensures
        r@ == run_report(stdout@, json_parse(stdout@)),
{
    let parsed = parse_json(stdout);
    match &parsed {
        Some(v) => format_run_report(stdout, Some(v)),
        None => format_run_report(stdout, None),
    }
}

/// The session id that `grok_status` inspects, or why there is none.
pub fn status_session_id(params: &GrokStatusParams) -> (r: Result<String, String>)
    ensures
        match r {
            Ok(id) => trim(params.session_id@).len() > 0 && id@ == trim(params.session_id@),
            Err(e) => trim(params.session_id@).len() == 0 && e@ == "session_id must not be empty"@,
        },
{
    let id = trim_str(params.session_id.as_str());
    if id.as_str().is_empty() {
        return Err("session_id must not be empty".to_owned());
    }
    Ok(id)
}

/// The working directory of a run: the explicit one when not blank (trimmed),
/// else the one the client announced, else the process's, else `.`.
pub open spec fn run_cwd(explicit: Option<String>, announced: Option<String>, current: Option<String>) -> Seq<
    char,
> {
    match trimmed_non_blank(explicit) {
        Some(c) => c,
        None => match announced {
            Some(a) if a@.len() > 0 => a@,
            _ => match current {
                Some(c) => c@,
                None => "."@,
            },
        },
    }
}

/// `resolve_cwd`: the working directory of a run.
pub fn resolve_cwd(explicit: &Option<String>, announced: &Option<String>, current: &Option<String>) -> (r: String)
    ensures
        r@ == run_cwd(*explicit, *announced, *current),
{
    match non_blank_trimmed(explicit) {
        Some(c) => c,
        None => {
            match announced {
                Some(a) => {
                    if !a.as_str().is_empty() {
                        return a.clone();
                    }
                },
                None => {},
            }
            match current {
                Some(c) => c.clone(),
                None => ".".to_owned(),
            }
        },
    }
}

/// Grok's home directory: `GROK_HOME` when set and not empty, else `.grok`
/// under the user's home (`HOME`, else `USERPROFILE`), else `.grok`; `sep`
/// is the platform's main path separator.
pub open spec fn grok_home_of(
    grok_home: Option<String>,
    home: Option<String>,
    user_profile: Option<String>,
    sep: char,
) -> Seq<char> {
    match grok_home {
        Some(g) if g@.len() > 0 => g@,
        _ => match home {
            Some(h) => crate::paths::join_path(h@, ".grok"@, sep),
            None => match user_profile {
                Some(h) => crate::paths::join_path(h@, ".grok"@, sep),
                None => ".grok"@,
            },
        },
    }
}

/// Where the join in [`grok_home_of`] is modelled (see `paths::join_modelled`).
pub open spec fn grok_home_modelled(
    grok_home: Option<String>,
    home: Option<String>,
    user_profile: Option<String>,
    sep: char,
) -> bool {
    match grok_home {
        Some(g) if g@.len() > 0 => true,
        _ => match home {
            Some(h) => crate::paths::join_modelled(h@, ".grok"@, sep),
            None => match user_profile {
                Some(h) => crate::paths::join_modelled(h@, ".grok"@, sep),
                None => true,
            },
        },
    }
}

/// `grok_home`, from the values of `GROK_HOME`, `HOME` and `USERPROFILE`.
pub fn grok_home(
    grok_home_var: &Option<String>,
    home: &Option<String>,
    user_profile: &Option<String>,
    sep: char,
) -> (r: String)
    ensures
        grok_home_modelled(*grok_home_var, *home, *user_profile, sep) ==> r@ == grok_home_of(
            *grok_home_var,
            *home,
            *user_profile,
            sep,
        ),
{
    match grok_home_var {
        Some(g) => {
            if !g.as_str().is_empty() {
                return g.clone();
            }
        },
        None => {},
    }
    match home {
        Some(h) => crate::paths::join(h.as_str(), ".grok", sep),
        None => match user_profile {
            Some(h) => crate::paths::join(h.as_str(), ".grok", sep),
            None => ".grok".to_owned(),
        },
    }
}

/// The decimal numeral of a signed integer.
pub open spec fn signed_decimal(n: int) -> Seq<char> {
    if n < 0 {
        "-"@ + decimal((-n) as nat)
    } else {
        decimal(n as nat)
    }
}

/// The decimal numeral of a signed integer.
fn i32_to_string(n: i32) -> (r: String)
    ensures
        r@ == signed_decimal(n as int),
{
    if n < 0 {
        let m: usize = if n == i32::MIN {
            2147483648
        } else {
            (-n) as usize
        };
        string_of(&concat(&chars_of("-"), &crate::text::decimal_chars(m)))
    } else {
        usize_to_string(n as usize)
    }
}

/// What a finished `grok` process gives: its trimmed standard output on
/// success; otherwise an error with its exit code (`-1` when killed by a
/// signal) and its trimmed standard error, or standard output when that is empty.
pub open spec fn run_result(success: bool, code: Option<i32>, stdout: Seq<char>, stderr: Seq<char>) -> Result<
    Seq<char>,
    Seq<char>,
> {
    let out = trim(stdout);
    let err = trim(stderr);
    if success {
        Ok(out)
    } else {
        let detail = if err.len() == 0 {
            out
        } else {
            err
        };
        let c = match code {
            Some(c) => c as int,
            None => -1,
        };
        Err("grok exited with "@ + signed_decimal(c) + ": "@ + detail)
    }
}

/// What a finished `grok` process gives (`run_grok`).
pub fn grok_outcome(success: bool, code: Option<i32>, stdout: &str, stderr: &str) -> (r: Result<String, String>)
    ensures
        match r {
            Ok(o) => run_result(success, code, stdout@, stderr@) == Ok::<Seq<char>, Seq<char>>(o@),
            Err(e) => run_result(success, code, stdout@, stderr@) == Err::<Seq<char>, Seq<char>>(
                e@,
            ),
        },
{
    let out = trim_str(stdout);
    let err = trim_str(stderr);
    if success {
        return Ok(out);
    }
    let detail = if err.as_str().is_empty() {
        out
    } else {
        err
    };
    let c: i32 = match code {
        Some(c) => c,
        None => -1,
    };
    let mut msg = chars_of("grok exited with ");
    msg = concat(&msg, &chars_of(i32_to_string(c).as_str()));
    msg = concat(&msg, &chars_of(": "));
    msg = concat(&msg, &chars_of(detail.as_str()));
    Err(string_of(&msg))
}

/// A field of a session file as shown by `grok_status`: a string member as
/// it is, another member as compact JSON, `-` when missing.
pub open spec fn status_field(obj: Json, key: Seq<char>) -> Seq<char> {
    match get(obj, key) {
        Some(Json::Str(s)) => s@,
        Some(v) => crate::json::compact(v),
        None => "-"@,
    }
}

/// The report of `grok_status` on a session directory, from its
/// `summary.json` and `signals.json` (`Null` when missing or unreadable).
pub open spec fn session_status_text(session_id: Seq<char>, summary: Json, signals: Json, path: Seq<char>) -> Seq<char> {
    let info = match get(summary, "info"@) {
        Some(i) => i,
        None => Json::Null,
    };
    "session_id: "@ + session_id + "\ncwd: "@ + status_field(info, "cwd"@) + "\ntitle: "@ + status_field(
        summary,
        "generated_title"@,
    ) + "\nsummary: "@ + status_field(summary, "session_summary"@) + "\nmodel: "@ + status_field(
        summary,
        "current_model_id"@,
    ) + "\nagent: "@ + status_field(summary, "agent_name"@) + "\ncreated_at: "@ + status_field(
        summary,
        "created_at"@,
    ) + "\nupdated_at: "@ + status_field(summary, "updated_at"@) + "\nlast_active_at: "@
        + status_field(summary, "last_active_at"@) + "\nmessages: "@ + status_field(summary, "num_messages"@)
        + "\nchat_messages: "@ + status_field(summary, "num_chat_messages"@) + "\nlast_turn_summary: "@
        + status_field(summary, "last_turn_summary"@) + "\nturns: "@ + status_field(signals, "turnCount"@)
        + "\ntool_calls: "@ + status_field(signals, "toolCallCount"@) + "\ncontext_tokens_used: "@
        + status_field(signals, "contextTokensUsed"@) + "\ncontext_window: "@ + status_field(
        signals,
        "contextWindowTokens"@,
    ) + "\nerrors: "@ + status_field(signals, "errorCount"@) + "\npath: "@ + path
}

/// A field of a session file, as shown.
fn status_field_text(obj: &Json, key: &str) -> (r: Vec<char>)
    ensures
        r@ == status_field(*obj, key@),
{
    match get_member(obj, key) {
        Some(Json::Str(s)) => chars_of(s.as_str()),
        Some(v) => chars_of(crate::json::compact_text(v).as_str()),
        None => chars_of("-"),
    }
}

/// Appends a labelled line: `label` then the field.
fn push_field(out: &mut Vec<char>, label: &str, obj: &Json, key: &str)
    ensures
        final(out)@ == old(out)@ + label@ + status_field(*obj, key@),
{
    let f = status_field_text(obj, key);
    let with_label = concat(&chars_of(label), &f);
    let joined = concat(out, &with_label);
    *out = joined;
    assert(out@ =~= old(out)@ + label@ + status_field(*obj, key@));
}

/// `format_session_status`: the report on the session `session_id` kept at
/// `path`, from the parsed `summary.json` and `signals.json`.
pub fn format_session_status(session_id: &str, summary: &Json, signals: &Json, path: &str) -> (r: String)
    ensures
        r@ == session_status_text(session_id@, *summary, *signals, path@),
{
    let null = Json::Null;
    let info = match get_member(summary, "info") {
        Some(i) => i,
        None => &null,
    };
    let mut out = concat(&chars_of("session_id: "), &chars_of(session_id));
    push_field(&mut out, "\ncwd: ", info, "cwd");
    push_field(&mut out, "\ntitle: ", summary, "generated_title");
    push_field(&mut out, "\nsummary: ", summary, "session_summary");
    push_field(&mut out, "\nmodel: ", summary, "current_model_id");
    push_field(&mut out, "\nagent: ", summary, "agent_name");
    push_field(&mut out, "\ncreated_at: ", summary, "created_at");
    push_field(&mut out, "\nupdated_at: ", summary, "updated_at");
    push_field(&mut out, "\nlast_active_at: ", summary, "last_active_at");
    push_field(&mut out, "\nmessages: ", summary, "num_messages");
    push_field(&mut out, "\nchat_messages: ", summary, "num_chat_messages");
    push_field(&mut out, "\nlast_turn_summary: ", summary, "last_turn_summary");
    push_field(&mut out, "\nturns: ", signals, "turnCount");
    push_field(&mut out, "\ntool_calls: ", signals, "toolCallCount");
    push_field(&mut out, "\ncontext_tokens_used: ", signals, "contextTokensUsed");
    push_field(&mut out, "\ncontext_window: ", signals, "contextWindowTokens");
    push_field(&mut out, "\nerrors: ", signals, "errorCount");
    out = concat(&out, &concat(&chars_of("\npath: "), &chars_of(path)));
    let r = string_of(&out);
    assert(r@ =~= session_status_text(session_id@, *summary, *signals, path@));
    r
}

/// The places looked at for `grok` after `PATH`, under the user's home.
pub open spec fn grok_fallbacks(home: Option<Seq<char>>, sep: char) -> Seq<Seq<char>> {
    match home {
        Some(h) => seq![
            crate::paths::join_path(h, ".local/bin/grok"@, sep),
            crate::paths::join_path(h, ".grok/bin/grok"@, sep),
        ],
        None => seq![],
    }
}

/// The places looked at for `grok` after `PATH` (`HOME`, else `USERPROFILE`).
pub fn grok_fallback_paths(home: Option<&str>, sep: char) -> (r: Vec<String>)
    ensures
        home is None ==> r@.len() == 0,
        (home matches Some(h) && crate::paths::join_modelled(h@, ".local/bin/grok"@, sep)
            && crate::paths::join_modelled(h@, ".grok/bin/grok"@, sep)) ==> crate::text::string_views(r@)
            == grok_fallbacks(
            match home {
                Some(h) => Some(h@),
                None => None,
            },
            sep,
        ),
{
    match home {
        Some(h) => {
            let r = vec![crate::paths::join(h, ".local/bin/grok", sep), crate::paths::join(h, ".grok/bin/grok", sep)];
            proof {
                if crate::paths::join_modelled(h@, ".local/bin/grok"@, sep) && crate::paths::join_modelled(
                    h@,
                    ".grok/bin/grok"@,
                    sep,
                ) {
                    assert(crate::text::string_views(r@) =~= grok_fallbacks(Some(h@), sep));
                }
            }
            r
        },
        None => {
            let r: Vec<String> = Vec::new();
            assert(crate::text::string_views(r@) =~= Seq::<Seq<char>>::empty());
            r
        },
    }
}

/// Why no `grok` could be found.
pub open spec fn grok_missing() -> Seq<char> {
    "Could not find the Grok Build CLI. Install it with `curl -fsSL https://x.ai/cli/install.sh | bash`, then run `grok login`. Set GROK_COMMAND if grok is not on PATH."@
}

/// `resolve_grok_command`'s decision: `GROK_COMMAND`, when set, must name a
/// file; else `grok` found on `PATH`; else the first fallback that is a file.
pub open spec fn grok_command_choice(
    explicit: Option<Seq<char>>,
    explicit_is_file: bool,
    on_path: Option<Seq<char>>,
    fallback: Option<Seq<char>>,
) -> Result<Seq<char>, Seq<char>> {
    match explicit {
        Some(p) => if explicit_is_file {
            Ok(p)
        } else {
            Err("GROK_COMMAND is set but not a file: "@ + p)
        },
        None => match on_path {
            Some(p) => Ok(p),
            None => match fallback {
                Some(p) => Ok(p),
                None => Err(grok_missing()),
            },
        },
    }
}

/// `resolve_grok_command`: the `grok` binary to run, from the value of
/// `GROK_COMMAND` (and whether it names a file), what a `PATH` search found,
/// and the first fallback location that is a file.
pub fn choose_grok_command(
    explicit: Option<&str>,
    explicit_is_file: bool,
    on_path: Option<String>,
    fallback: Option<String>,
) -> (r: Result<String, String>)
    ensures
        match r {
            Ok(p) => grok_command_choice(
                match explicit {
                    Some(e) => Some(e@),
                    None => None,
                },
                explicit_is_file,
                crate::scrape::opt_view(on_path),
                crate::scrape::opt_view(fallback),
            ) == Ok::<Seq<char>, Seq<char>>(p@),
            Err(e) => grok_command_choice(
                match explicit {
                    Some(e) => Some(e@),
                    None => None,
                },
                explicit_is_file,
                crate::scrape::opt_view(on_path),
                crate::scrape::opt_view(fallback),
            ) == Err::<Seq<char>, Seq<char>>(e@),
        },
{
    match explicit {
        Some(p) => {
            if explicit_is_file {
                Ok(p.to_owned())
            } else {
                Err(string_of(&concat(&chars_of("GROK_COMMAND is set but not a file: "), &chars_of(p))))
            }
        },
        None => match on_path {
            Some(p) => Ok(p),
            None => match fallback {
                Some(p) => Ok(p),
                None => Err(
                    "Could not find the Grok Build CLI. Install it with `curl -fsSL https://x.ai/cli/install.sh | bash`, then run `grok login`. Set GROK_COMMAND if grok is not on PATH.".to_owned(),
                ),
            },
        },
    }
}

/// `grok_run`'s check on its prompt: it must not be blank.
pub fn run_prompt_check(params: &GrokRunParams) -> (r: Result<(), String>)
    ensures
        match r {
            Ok(_) => trim(params.prompt@).len() > 0,
            Err(e) => trim(params.prompt@).len() == 0 && e@ == "prompt must not be empty"@,
        },
{
    if trim_str(params.prompt.as_str()).as_str().is_empty() {
        return Err("prompt must not be empty".to_owned());
    }
    Ok(())
}

/// `grok_status`'s error when no session directory holds the id.
pub fn missing_session_message(session_id: &str) -> (r: String)
    ensures
        r@ == "No Grok session found for id "@ + session_id@,
{
    string_of(&concat(&chars_of("No Grok session found for id "), &chars_of(session_id)))
}

/// Every run is headless and approves its tools: the arguments always begin
/// with `-p <prompt> --output-format json --always-approve`; a given session
/// id wins over `--continue`, which appears only when no session is named.
pub proof fn law_run_headless_always_approve(p: GrokRunParams)
    ensures
        run_args(p).len() >= 5,
        run_args(p).take(5) == seq!["-p"@, p.prompt@, "--output-format"@, "json"@, "--always-approve"@],
        trimmed_non_blank(p.session_id) is Some ==> run_args(p)[5] == "--resume"@,
        trimmed_non_blank(p.session_id) is None && p.continue_last ==> run_args(p)[5] == "--continue"@,
{
    let base = seq!["-p"@, p.prompt@, "--output-format"@, "json"@, "--always-approve"@];
    let a = run_args(p);
    assert(a.take(5) =~= base);
}

} // verus!
