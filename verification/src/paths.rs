//! Where OpenDuck keeps its configuration, data and state.
//!
//! The directories are decided from facts that the caller gathers: the
//! `OPENDUCK_PATH_ROOT` / `GOOSE_PATH_ROOT` variables, the directories the
//! platform's application strategy gives for the current and the legacy
//! application, and which directories already hold something (after the
//! caller has migrated legacy directories), with the platform's path rules
//! that the caller reads from `std::path`: whether a root value is absolute,
//! and the main separator. Paths are held as text.

use vstd::prelude::*;
use crate::text::{chars_eq, chars_of, concat, string_of};

verus! {

/// Names of the per-project directory, preferred first.
pub open spec fn project_dir_name_list() -> Seq<Seq<char>> {
    seq![".openduck"@, ".goose"@]
}

/// Kinds of directory.
#[derive(Debug, Clone, Copy, PartialEq, Eq)]
pub enum DirType {
    Config,
    Data,
    State,
    Plugins,
    Agents,
    AgentsHome,
}

/// The directories that the platform's application strategy gives for one
/// application name.
#[derive(Debug, Clone)]
pub struct AppDirs {
    pub config: String,
    pub data: String,
    /// `None` on platforms without a separate state directory.
    pub state: Option<String>,
    pub home: String,
}

/// The value of a path-root variable, and whether it is an absolute path on
/// this platform (`Path::is_absolute`).
#[derive(Debug, Clone)]
pub struct RootVar {
    pub value: String,
    pub absolute: bool,
}

/// What the directory decisions depend on.
#[derive(Debug, Clone)]
pub struct DirFacts {
    /// Value of `OPENDUCK_PATH_ROOT`, if set.
    pub openduck_path_root: Option<RootVar>,
    /// Value of `GOOSE_PATH_ROOT`, if set.
    pub goose_path_root: Option<RootVar>,
    /// The platform's main path separator (`std::path::MAIN_SEPARATOR`).
    pub separator: char,
    /// Directories of the current application (`dev` / `` / `OpenDuck`).
    pub current: AppDirs,
    /// Directories of the legacy application (`Block` / `Block` / `goose`).
    pub legacy: AppDirs,
    /// Directories found to hold something (or to be files).
    pub populated: Vec<String>,
}

/// OpenDuck's directory layout.
pub struct Paths;

/// A path separator where `sep` is the platform's main one: `/` everywhere,
/// and `sep` itself (`\\` on Windows).
pub open spec fn is_separator(c: char, sep: char) -> bool {
    c == '/' || c == sep
}

/// A path that starts at a separator.
pub open spec fn starts_at_separator(p: Seq<char>, sep: char) -> bool {
    p.len() > 0 && is_separator(p[0], sep)
}

/// `PathBuf::join` with main separator `sep`, where [`join_modelled`] holds: a
/// subpath that starts at a separator replaces `base` (an absolute Unix path);
/// otherwise it is appended after `sep`, unless `base` is empty or already
/// ends at a separator.
pub open spec fn join_path(base: Seq<char>, sub: Seq<char>, sep: char) -> Seq<char> {
    if starts_at_separator(sub, sep) {
        sub
    } else if base.len() == 0 || is_separator(base.last(), sep) {
        base + sub
    } else {
        base + seq![sep] + sub
    }
}

/// A subpath in which Windows reads a root or a prefix: it starts at a
/// separator, or with a drive (`X:`).
pub open spec fn prefixed_sub(sub: Seq<char>, sep: char) -> bool {
    starts_at_separator(sub, sep) || (sub.len() >= 2 && sub[1] == ':')
}

/// A base that Windows joins to by its prefix rules: a bare drive (`X:`) or a
/// verbatim path (`\\?\...`).
pub open spec fn prefix_base(base: Seq<char>, sep: char) -> bool {
    ||| (base.len() == 2 && base[1] == ':')
    ||| (base.len() >= 4 && is_separator(base[0], sep) && is_separator(base[1], sep) && base[2] == '?'
        && is_separator(base[3], sep))
}

/// Where [`join_path`] is what `PathBuf::join` gives on the platform whose main
/// separator is `sep`: always with `/` (Unix, where no prefixes exist); with
/// `\\` (Windows), unless the subpath has a root or a drive, or the base is a
/// bare drive or a verbatim path, which `std` joins by its own prefix rules.
pub open spec fn join_modelled(base: Seq<char>, sub: Seq<char>, sep: char) -> bool {
    sep == '/' || !(prefixed_sub(sub, sep) || prefix_base(base, sep))
}

/// `Path::join` of `std`, by the platform's own path rules. Nothing is stated
/// of its result: prefixes and roots are read differently on each platform.
#[verifier::external_body]
fn std_path_join(base: &str, sub: &str) -> String {
    std::path::Path::new(base).join(sub).to_string_lossy().into_owned()
}

/// `PathBuf::join` with main separator `sep` (the platform's): computed here
/// where [`join_modelled`] holds, left to `std` where Windows prefixes decide.
pub fn join(base: &str, sub: &str, sep: char) -> (r: String)
    ensures
        join_modelled(base@, sub@, sep) ==> r@ == join_path(base@, sub@, sep),
{
    let b = chars_of(base);
    let s = chars_of(sub);
    if sep != '/' {
        let sub_prefixed = (s.len() > 0 && (s[0] == '/' || s[0] == sep)) || (s.len() >= 2 && s[1] == ':');
        let base_prefixed = (b.len() == 2 && b[1] == ':') || (b.len() >= 4 && (b[0] == '/' || b[0] == sep)
            && (b[1] == '/' || b[1] == sep) && b[2] == '?' && (b[3] == '/' || b[3] == sep));
        if sub_prefixed || base_prefixed {
            return std_path_join(base, sub);
        }
    }
    if s.len() > 0 && (s[0] == '/' || s[0] == sep) {
        return string_of(&s);
    }
    if b.len() == 0 || b[b.len() - 1] == '/' || b[b.len() - 1] == sep {
        return string_of(&concat(&b, &s));
    }
    let mut bs = b;
    bs.push(sep);
    assert(bs@ =~= base@ + seq![sep]);
    string_of(&concat(&bs, &s))
}

/// A path-root value that counts: set and absolute.
pub open spec fn valid_root(v: Option<RootVar>) -> bool {
    v matches Some(r) && r.absolute
}

/// The path root: `OPENDUCK_PATH_ROOT` when it is absolute, else
/// `GOOSE_PATH_ROOT` when it is absolute; relative values are ignored.
pub open spec fn root_of(openduck: Option<RootVar>, goose: Option<RootVar>) -> Option<Seq<char>> {
    if valid_root(openduck) {
        Some(openduck->0.value@)
    } else if valid_root(goose) {
        Some(goose->0.value@)
    } else {
        None
    }
}

/// The warning for an `OPENDUCK_PATH_ROOT` that is set but not absolute.
pub open spec fn relative_root_warning() -> Seq<char> {
    "OPENDUCK_PATH_ROOT is set but is not an absolute path; ignoring"@
}

/// A directory under an explicit path root.
pub open spec fn rooted_dir(base: Seq<char>, t: DirType, sep: char) -> Seq<char> {
    match t {
        DirType::Config => join_path(base, "config"@, sep),
        DirType::Data => join_path(base, "data"@, sep),
        DirType::State => join_path(base, "state"@, sep),
        DirType::Plugins => join_path(join_path(base, ".agents"@, sep), "plugins"@, sep),
        DirType::Agents => join_path(join_path(base, ".agents"@, sep), "agents"@, sep),
        DirType::AgentsHome => join_path(base, ".agents"@, sep),
    }
}

/// Where every join of [`rooted_dir`] is modelled.
pub open spec fn rooted_modelled(base: Seq<char>, t: DirType, sep: char) -> bool {
    let agents = join_path(base, ".agents"@, sep);
    match t {
        DirType::Config => join_modelled(base, "config"@, sep),
        DirType::Data => join_modelled(base, "data"@, sep),
        DirType::State => join_modelled(base, "state"@, sep),
        DirType::Plugins => join_modelled(base, ".agents"@, sep) && join_modelled(agents, "plugins"@, sep),
        DirType::Agents => join_modelled(base, ".agents"@, sep) && join_modelled(agents, "agents"@, sep),
        DirType::AgentsHome => join_modelled(base, ".agents"@, sep),
    }
}

/// Where every join of [`strategy_dir`] is modelled.
pub open spec fn strategy_modelled(d: AppDirs, t: DirType, sep: char) -> bool {
    match t {
        DirType::Config | DirType::Data | DirType::State => true,
        _ => rooted_modelled(d.home@, t, sep),
    }
}

/// Where every join of [`dir_of`] is modelled.
pub open spec fn dir_modelled(f: DirFacts, t: DirType) -> bool {
    match root_of(f.openduck_path_root, f.goose_path_root) {
        Some(base) => rooted_modelled(base, t, f.separator),
        None => strategy_modelled(f.current, t, f.separator),
    }
}

/// A directory that an application strategy gives.
pub open spec fn strategy_dir(d: AppDirs, t: DirType, sep: char) -> Seq<char> {
    match t {
        DirType::Config => d.config@,
        DirType::Data => d.data@,
        DirType::State => match d.state {
            Some(s) => s@,
            None => d.data@,
        },
        DirType::Plugins => join_path(join_path(d.home@, ".agents"@, sep), "plugins"@, sep),
        DirType::Agents => join_path(join_path(d.home@, ".agents"@, sep), "agents"@, sep),
        DirType::AgentsHome => join_path(d.home@, ".agents"@, sep),
    }
}

/// Whether `p` is one of the directories found to hold something.
pub open spec fn is_populated(populated: Seq<String>, p: Seq<char>) -> bool {
    exists|i: int| 0 <= i < populated.len() && populated[i]@ == p
}

/// Whether a kind of directory is migrated from the legacy application.
pub open spec fn migrates(t: DirType) -> bool {
    t is Config || t is Data || t is State
}

/// `Paths::get_dir`: under the path root when one is set; otherwise the
/// current application's directory, except that configuration, data and state
/// fall back to the legacy directory when only that one holds something.
pub open spec fn dir_of(f: DirFacts, t: DirType) -> Seq<char> {
    match root_of(f.openduck_path_root, f.goose_path_root) {
        Some(base) => rooted_dir(base, t, f.separator),
        None => {
            let new_dir = strategy_dir(f.current, t, f.separator);
            if migrates(t) {
                let legacy_dir = strategy_dir(f.legacy, t, f.separator);
                if is_populated(f.populated@, new_dir) {
                    new_dir
                } else if is_populated(f.populated@, legacy_dir) {
                    legacy_dir
                } else {
                    new_dir
                }
            } else {
                new_dir
            }
        },
    }
}

/// Whether `p` is one of `dirs`.
fn listed(dirs: &Vec<String>, p: &str) -> (r: bool)
    ensures
        r == exists|i: int| 0 <= i < dirs@.len() && dirs@[i]@ == p@,
{
    let t = chars_of(p);
    let mut i: usize = 0;
    while i < dirs.len()
        invariant
            i <= dirs@.len(),
            t@ == p@,
            forall|k: int| 0 <= k < i ==> dirs@[k]@ != p@,
        decreases dirs.len() - i,
    {
        if chars_eq(&chars_of(dirs[i].as_str()), &t) {
            return true;
        }
        i = i + 1;
    }
    false
}

/// A directory under an explicit path root.
fn dir_under_root(base: &str, t: DirType, sep: char) -> (r: String)
    ensures
        rooted_modelled(base@, t, sep) ==> r@ == rooted_dir(base@, t, sep),
{
    match t {
        DirType::Config => join(base, "config", sep),
        DirType::Data => join(base, "data", sep),
        DirType::State => join(base, "state", sep),
        DirType::Plugins => join(join(base, ".agents", sep).as_str(), "plugins", sep),
        DirType::Agents => join(join(base, ".agents", sep).as_str(), "agents", sep),
        DirType::AgentsHome => join(base, ".agents", sep),
    }
}

/// A directory that an application strategy gives.
pub fn app_strategy_dir(d: &AppDirs, t: DirType, sep: char) -> (r: String)
    ensures
        strategy_modelled(*d, t, sep) ==> r@ == strategy_dir(*d, t, sep),
{
    match t {
        DirType::Config => d.config.clone(),
        DirType::Data => d.data.clone(),
        DirType::State => match &d.state {
            Some(s) => s.clone(),
            None => d.data.clone(),
        },
        DirType::Plugins => join(join(d.home.as_str(), ".agents", sep).as_str(), "plugins", sep),
        DirType::Agents => join(join(d.home.as_str(), ".agents", sep).as_str(), "agents", sep),
        DirType::AgentsHome => join(d.home.as_str(), ".agents", sep),
    }
}

impl Paths {
    /// The path root: `OPENDUCK_PATH_ROOT`, else `GOOSE_PATH_ROOT`, when absolute.
    pub fn path_root(facts: &DirFacts) -> (r: Option<String>)
        ensures
            match r {
                Some(p) => root_of(facts.openduck_path_root, facts.goose_path_root) == Some(p@),
                None => root_of(facts.openduck_path_root, facts.goose_path_root) is None,
            },
    {
        match &facts.openduck_path_root {
            Some(p) => {
                if p.absolute {
                    return Some(p.value.clone());
                }
            },
            None => {},
        }
        match &facts.goose_path_root {
            Some(p) => {
                if p.absolute {
                    return Some(p.value.clone());
                }
            },
            None => {},
        }
        None
    }

    /// The warnings `path_root` owes: that `OPENDUCK_PATH_ROOT` is ignored
    /// when it is set but not absolute, and whether the legacy
    /// `GOOSE_PATH_ROOT` is the root used (a deprecation, warned of once).
    pub fn path_root_notices(facts: &DirFacts) -> (r: (Option<String>, bool))
        ensures
            crate::scrape::opt_view(r.0) == (if facts.openduck_path_root is Some && !valid_root(
                facts.openduck_path_root,
            ) {
                Some(relative_root_warning())
            } else {
                None
            }),
            r.1 == (!valid_root(facts.openduck_path_root) && valid_root(facts.goose_path_root)),
    {
        let openduck_valid = match &facts.openduck_path_root {
            Some(p) => p.absolute,
            None => false,
        };
        let goose_valid = match &facts.goose_path_root {
            Some(p) => p.absolute,
            None => false,
        };
        let ignored = if facts.openduck_path_root.is_some() && !openduck_valid {
            Some("OPENDUCK_PATH_ROOT is set but is not an absolute path; ignoring".to_owned())
        } else {
            None
        };
        (ignored, !openduck_valid && goose_valid)
    }

    /// The directory pair to migrate before `t` is chosen: the current and the
    /// legacy application's directory, for configuration, data and state when
    /// no path root is set.
    pub fn migration_pair(facts: &DirFacts, t: DirType) -> (r: Option<(String, String)>)
        ensures
            match r {
                Some(p) => root_of(facts.openduck_path_root, facts.goose_path_root) is None
                    && migrates(t) && p.0@ == strategy_dir(facts.current, t, facts.separator) && p.1@
                    == strategy_dir(facts.legacy, t, facts.separator),
                None => root_of(facts.openduck_path_root, facts.goose_path_root) is Some
                    || !migrates(t),
            },
    {
        if Self::path_root(facts).is_some() {
            return None;
        }
        match t {
            DirType::Config | DirType::Data | DirType::State => Some(
                (
                    app_strategy_dir(&facts.current, t, facts.separator),
                    app_strategy_dir(&facts.legacy, t, facts.separator),
                ),
            ),
            _ => None,
        }
    }

    /// `Paths::get_dir`.
    pub fn get_dir(facts: &DirFacts, t: DirType) -> (r: String)
        ensures
            dir_modelled(*facts, t) ==> r@ == dir_of(*facts, t),
    {
        match Self::path_root(facts) {
            Some(base) => dir_under_root(base.as_str(), t, facts.separator),
            None => {
                let new_dir = app_strategy_dir(&facts.current, t, facts.separator);
                match t {
                    DirType::Config | DirType::Data | DirType::State => {
                        let legacy_dir = app_strategy_dir(&facts.legacy, t, facts.separator);
                        if listed(&facts.populated, new_dir.as_str()) {
                            new_dir
                        } else if listed(&facts.populated, legacy_dir.as_str()) {
                            legacy_dir
                        } else {
                            new_dir
                        }
                    },
                    _ => new_dir,
                }
            },
        }
    }

    /// The legacy goose configuration directory (the Block/goose strategy).
    pub fn legacy_config_dir(facts: &DirFacts) -> (r: String)
        ensures
            r@ == facts.legacy.config@,
    {
        facts.legacy.config.clone()
    }

    /// The configuration directory.
    pub fn config_dir(facts: &DirFacts) -> (r: String)
        ensures
            dir_modelled(*facts, DirType::Config) ==> r@ == dir_of(*facts, DirType::Config),
    {
        Self::get_dir(facts, DirType::Config)
    }

    /// The data directory.
    pub fn data_dir(facts: &DirFacts) -> (r: String)
        ensures
            dir_modelled(*facts, DirType::Data) ==> r@ == dir_of(*facts, DirType::Data),
    {
        Self::get_dir(facts, DirType::Data)
    }

    /// The state directory.
    pub fn state_dir(facts: &DirFacts) -> (r: String)
        ensures
            dir_modelled(*facts, DirType::State) ==> r@ == dir_of(*facts, DirType::State),
    {
        Self::get_dir(facts, DirType::State)
    }

    /// The plugins directory.
    pub fn plugins_dir(facts: &DirFacts) -> (r: String)
        ensures
            dir_modelled(*facts, DirType::Plugins) ==> r@ == dir_of(*facts, DirType::Plugins),
    {
        Self::get_dir(facts, DirType::Plugins)
    }

    /// The agents directory.
    pub fn agents_dir(facts: &DirFacts) -> (r: String)
        ensures
            dir_modelled(*facts, DirType::Agents) ==> r@ == dir_of(*facts, DirType::Agents),
    {
        Self::get_dir(facts, DirType::Agents)
    }

    /// The `.agents` home directory.
    pub fn agents_home_dir(facts: &DirFacts) -> (r: String)
        ensures
            dir_modelled(*facts, DirType::AgentsHome) ==> r@ == dir_of(*facts, DirType::AgentsHome),
    {
        Self::get_dir(facts, DirType::AgentsHome)
    }

    /// A path inside the `.agents` home directory.
    pub fn in_agents_home_dir(facts: &DirFacts, subpath: &str) -> (r: String)
        ensures
            dir_modelled(*facts, DirType::AgentsHome) && join_modelled(dir_of(*facts, DirType::AgentsHome), subpath@, facts.separator)
                ==> r@ == join_path(dir_of(*facts, DirType::AgentsHome), subpath@, facts.separator),
    {
        join(Self::agents_home_dir(facts).as_str(), subpath, facts.separator)
    }

    /// A path inside the state directory.
    pub fn in_state_dir(facts: &DirFacts, subpath: &str) -> (r: String)
        ensures
            dir_modelled(*facts, DirType::State) && join_modelled(dir_of(*facts, DirType::State), subpath@, facts.separator)
                ==> r@ == join_path(dir_of(*facts, DirType::State), subpath@, facts.separator),
    {
        join(Self::state_dir(facts).as_str(), subpath, facts.separator)
    }

    /// A path inside the configuration directory.
    pub fn in_config_dir(facts: &DirFacts, subpath: &str) -> (r: String)
        ensures
            dir_modelled(*facts, DirType::Config) && join_modelled(dir_of(*facts, DirType::Config), subpath@, facts.separator)
                ==> r@ == join_path(dir_of(*facts, DirType::Config), subpath@, facts.separator),
    {
        join(Self::config_dir(facts).as_str(), subpath, facts.separator)
    }

    /// A path inside the data directory.
    pub fn in_data_dir(facts: &DirFacts, subpath: &str) -> (r: String)
        ensures
            dir_modelled(*facts, DirType::Data) && join_modelled(dir_of(*facts, DirType::Data), subpath@, facts.separator)
                ==> r@ == join_path(dir_of(*facts, DirType::Data), subpath@, facts.separator),
    {
        join(Self::data_dir(facts).as_str(), subpath, facts.separator)
    }

    /// The names of the per-project directory, preferred first.
    pub fn project_dir_names() -> (r: Vec<String>)
        ensures
            crate::text::string_views(r@) == project_dir_name_list(),
    {
        let r = vec![".openduck".to_owned(), ".goose".to_owned()];
        assert(crate::text::string_views(r@) =~= project_dir_name_list());
        r
    }

    /// Prefer an existing `.openduck/` directory, then `.goose/`, else
    /// `.openduck/`; `existing_dirs` lists the paths that are directories and
    /// `sep` is the platform's main path separator.
    pub fn find_project_dir(cwd: &str, existing_dirs: &Vec<String>, sep: char) -> (r: String)
        ensures
            join_modelled(cwd@, ".openduck"@, sep) && join_modelled(cwd@, ".goose"@, sep) ==> r@ == (if is_populated(existing_dirs@, join_path(cwd@, ".openduck"@, sep)) {
                join_path(cwd@, ".openduck"@, sep)
            } else if is_populated(existing_dirs@, join_path(cwd@, ".goose"@, sep)) {
                join_path(cwd@, ".goose"@, sep)
            } else {
                join_path(cwd@, ".openduck"@, sep)
            }),
    {
        let openduck = join(cwd, ".openduck", sep);
        if listed(existing_dirs, openduck.as_str()) {
            return openduck;
        }
        let goose = join(cwd, ".goose", sep);
        if listed(existing_dirs, goose.as_str()) {
            return goose;
        }
        openduck
    }
}


/// `OPENDUCK_PATH_ROOT` wins over `GOOSE_PATH_ROOT` when it is absolute; a
/// relative value is ignored; the legacy root is used when it alone is absolute.
pub proof fn law_path_root_precedence(openduck: Option<RootVar>, goose: Option<RootVar>)
    ensures
        valid_root(openduck) ==> root_of(openduck, goose) == Some(openduck->0.value@),
        !valid_root(openduck) && valid_root(goose) ==> root_of(openduck, goose) == Some(goose->0.value@),
        !valid_root(openduck) && !valid_root(goose) ==> root_of(openduck, goose) is None,
{
}

/// A subpath that does not start at a separator, joined to a base, lies inside the base.
pub proof fn law_join_inside(base: Seq<char>, sub: Seq<char>, sep: char)
    requires
        !starts_at_separator(sub, sep),
    ensures
        crate::text::has_prefix(join_path(base, sub, sep), base),
{
    assert(join_path(base, sub, sep).subrange(0, base.len() as int) =~= base);
}

/// Under a path root, every directory lies inside the root (the separator
/// being `/` or `\\`).
pub proof fn law_rooted_dirs_inside_root(base: Seq<char>, t: DirType, sep: char)
    requires
        sep == '/' || sep == '\\',
    ensures
        crate::text::has_prefix(rooted_dir(base, t, sep), base),
{
    reveal_strlit("config");
    reveal_strlit("data");
    reveal_strlit("state");
    reveal_strlit(".agents");
    reveal_strlit("plugins");
    reveal_strlit("agents");
    law_join_inside(base, ".agents"@, sep);
    let a = join_path(base, ".agents"@, sep);
    match t {
        DirType::Config => law_join_inside(base, "config"@, sep),
        DirType::Data => law_join_inside(base, "data"@, sep),
        DirType::State => law_join_inside(base, "state"@, sep),
        DirType::Plugins => {
            law_join_inside(a, "plugins"@, sep);
            assert(rooted_dir(base, t, sep).subrange(0, base.len() as int) =~= a.subrange(0, base.len() as int));
        },
        DirType::Agents => {
            law_join_inside(a, "agents"@, sep);
            assert(rooted_dir(base, t, sep).subrange(0, base.len() as int) =~= a.subrange(0, base.len() as int));
        },
        DirType::AgentsHome => {},
    }
}


/// Without a path root, a directory of a migrated kind (configuration, data,
/// state) is the current application's whenever that one holds something,
/// whatever the legacy one holds; the legacy one only when it alone holds
/// something; the current one when neither does. Other kinds are always the
/// current application's. Under a path root, every kind lies under the root.
pub proof fn law_dir_prefers_current(f: DirFacts, t: DirType)
    ensures
        root_of(f.openduck_path_root, f.goose_path_root) is None && is_populated(
            f.populated@,
            strategy_dir(f.current, t, f.separator),
        ) ==> dir_of(f, t) == strategy_dir(f.current, t, f.separator),
        root_of(f.openduck_path_root, f.goose_path_root) is None && migrates(t) && !is_populated(
            f.populated@,
            strategy_dir(f.current, t, f.separator),
        ) && is_populated(f.populated@, strategy_dir(f.legacy, t, f.separator)) ==> dir_of(f, t)
            == strategy_dir(f.legacy, t, f.separator),
        root_of(f.openduck_path_root, f.goose_path_root) is None && !is_populated(
            f.populated@,
            strategy_dir(f.legacy, t, f.separator),
        ) ==> dir_of(f, t) == strategy_dir(f.current, t, f.separator),
        root_of(f.openduck_path_root, f.goose_path_root) is None && !migrates(t) ==> dir_of(f, t)
            == strategy_dir(f.current, t, f.separator),
        root_of(f.openduck_path_root, f.goose_path_root) matches Some(base) ==> dir_of(f, t) == rooted_dir(
            base,
            t,
            f.separator,
        ),
{
}

} // verus!
