//! Configuration lookups in the process environment: `OPENDUCK_<KEY>` first,
//! then the legacy `GOOSE_<KEY>`.
//!
//! The environment is read by the caller, by name: the lookups here say which
//! names they ask for, and work on what the environment gave for those names,
//! so that what a key resolves to is a function of those readings. How a name
//! matches a variable (on Windows, regardless of case) is the platform's. A
//! lookup that falls back to a legacy name owes a deprecation warning, given
//! once per name; the caller keeps the names already warned of and logs.

use vstd::prelude::*;
use crate::scrape::opt_view;
use crate::text::{
    ascii_upper, chars_eq, chars_of, concat, copy_range, has_prefix, starts_with, string_of,
    string_views, to_ascii_upper,
};

verus! {

/// The environment as read by name: each entry is a name asked for and the
/// value that `std::env::var_os` gives for it (`None` for a value that is not
/// valid Unicode); a name with no entry is not set. The first entry for a name
/// counts. Build it from the names a lookup asks for ([`lookup_names`],
/// [`env_lookup_names`]), so that the platform decides which variable a name
/// reads.
#[derive(Debug, Clone)]
pub struct EnvSnapshot {
    pub vars: Vec<(String, Option<String>)>,
}

/// Why a Unicode value could not be read (`std::env::VarError`).
#[derive(Debug, Clone, Copy, PartialEq, Eq)]
pub enum VarError {
    /// The variable is not set.
    NotPresent,
    /// The variable is set to a value that is not valid Unicode.
    NotUnicode,
}

/// The value of the variable `name`: `None` when it is not set, `Some(None)`
/// when it is set to a value that is not Unicode.
pub open spec fn env_get(vars: Seq<(String, Option<String>)>, name: Seq<char>) -> Option<Option<Seq<char>>>
    decreases vars.len(),
{
    if vars.len() == 0 {
        None
    } else if vars[0].0@ == name {
        Some(
            match vars[0].1 {
                Some(v) => Some(v@),
                None => None,
            },
        )
    } else {
        env_get(vars.drop_first(), name)
    }
}

/// The key without its product prefix (`OPENDUCK_` or `GOOSE_`), when it has
/// one and something follows it.
pub open spec fn key_suffix(key: Seq<char>) -> Option<Seq<char>> {
    if has_prefix(key, "OPENDUCK_"@) && key.len() > 9 {
        Some(key.skip(9))
    } else if has_prefix(key, "GOOSE_"@) && key.len() > 6 {
        Some(key.skip(6))
    } else {
        None
    }
}

/// The key looked up: upper-cased, without its product prefix.
pub open spec fn lookup_key(key: Seq<char>) -> Seq<char> {
    match key_suffix(ascii_upper(key)) {
        Some(s) => s,
        None => ascii_upper(key),
    }
}

/// `get_var_os`: `OPENDUCK_<suffix>` if set, else `GOOSE_<suffix>`.
pub open spec fn var_os(vars: Seq<(String, Option<String>)>, key: Seq<char>) -> Option<Option<Seq<char>>> {
    match env_get(vars, "OPENDUCK_"@ + lookup_key(key)) {
        Some(v) => Some(v),
        None => env_get(vars, "GOOSE_"@ + lookup_key(key)),
    }
}

/// `get_var`: the Unicode value `var_os` finds.
pub open spec fn var(vars: Seq<(String, Option<String>)>, key: Seq<char>) -> Option<Seq<char>> {
    match var_os(vars, key) {
        Some(Some(v)) => Some(v),
        _ => None,
    }
}

/// The key without its product prefix, when it has one and something follows it.
fn product_suffix(key: &[char]) -> (r: Option<Vec<char>>)
    ensures
        match r {
            Some(s) => key_suffix(key@) == Some(s@),
            None => key_suffix(key@) is None,
        },
{
    proof {
        reveal_strlit("OPENDUCK_");
        reveal_strlit("GOOSE_");
    }
    if starts_with(key, &chars_of("OPENDUCK_")) && key.len() > 9 {
        return Some(copy_range(key, 9, key.len()));
    }
    if starts_with(key, &chars_of("GOOSE_")) && key.len() > 6 {
        return Some(copy_range(key, 6, key.len()));
    }
    None
}

/// The key looked up: upper-cased, without its product prefix.
fn lookup_suffix(key: &str) -> (r: Vec<char>)
    ensures
        r@ == lookup_key(key@),
{
    let upper = to_ascii_upper(&chars_of(key));
    match product_suffix(&upper) {
        Some(s) => s,
        None => upper,
    }
}

/// The value of the variable `name` in the snapshot.
pub fn env_value(env: &EnvSnapshot, name: &[char]) -> (r: Option<Option<String>>)
    ensures
        match r {
            Some(Some(v)) => env_get(env.vars@, name@) == Some(Some(v@)),
            Some(None) => env_get(env.vars@, name@) == Some(None::<Seq<char>>),
            None => env_get(env.vars@, name@) is None,
        },
{
    let mut i: usize = 0;
    assert(env.vars@.skip(0) =~= env.vars@);
    while i < env.vars.len()
        invariant
            i <= env.vars@.len(),
            env_get(env.vars@, name@) == env_get(env.vars@.skip(i as int), name@),
        decreases env.vars.len() - i,
    {
        assert(env.vars@.skip(i as int).drop_first() =~= env.vars@.skip(i + 1));
        assert(env.vars@.skip(i as int)[0] == env.vars@[i as int]);
        if chars_eq(&chars_of(env.vars[i].0.as_str()), name) {
            return match &env.vars[i].1 {
                Some(v) => Some(Some(v.clone())),
                None => Some(None),
            };
        }
        i = i + 1;
    }
    None
}

/// `get_var_os`: the value of `OPENDUCK_<key>`, else of `GOOSE_<key>`, where
/// `key` is upper-cased and stripped of a product prefix first.
pub fn get_var_os(env: &EnvSnapshot, key: &str) -> (r: Option<Option<String>>)
    ensures
        match r {
            Some(Some(v)) => var_os(env.vars@, key@) == Some(Some(v@)),
            Some(None) => var_os(env.vars@, key@) == Some(None::<Seq<char>>),
            None => var_os(env.vars@, key@) is None,
        },
{
    let suffix = lookup_suffix(key);
    let openduck_key = concat(&chars_of("OPENDUCK_"), &suffix);
    match env_value(env, &openduck_key) {
        Some(v) => Some(v),
        None => {
            let goose_key = concat(&chars_of("GOOSE_"), &suffix);
            env_value(env, &goose_key)
        },
    }
}

/// Look up `OPENDUCK_<key>`, then fall back to `GOOSE_<key>`.
///
/// `key` is the suffix without a product prefix, e.g. `"PROVIDER"` or
/// `"SERVER__SECRET_KEY"`; keys that already include `OPENDUCK_` / `GOOSE_`
/// are stripped before lookup. A value that is not Unicode reads as absent.
pub fn get_var(env: &EnvSnapshot, key: &str) -> (r: Option<String>)
    ensures
        match r {
            Some(v) => var(env.vars@, key@) == Some(v@),
            None => var(env.vars@, key@) is None,
        },
{
    match get_var_os(env, key) {
        Some(Some(v)) => Some(v),
        _ => None,
    }
}

/// Dual lookup that tells a missing variable from one that is not Unicode.
pub fn get_var_result(env: &EnvSnapshot, key: &str) -> (r: Result<String, VarError>)
    ensures
        match r {
            Ok(v) => var_os(env.vars@, key@) == Some(Some(v@)),
            Err(VarError::NotUnicode) => var_os(env.vars@, key@) == Some(None::<Seq<char>>),
            Err(VarError::NotPresent) => var_os(env.vars@, key@) is None,
        },
{
    match get_var_os(env, key) {
        Some(Some(v)) => Ok(v),
        Some(None) => Err(VarError::NotUnicode),
        None => Err(VarError::NotPresent),
    }
}

/// The two names a key is looked up under: `OPENDUCK_<KEY>`, then the legacy
/// `GOOSE_<KEY>`.
pub fn lookup_names(key: &str) -> (r: (String, String))
    ensures
        r.0@ == "OPENDUCK_"@ + lookup_key(key@),
        r.1@ == "GOOSE_"@ + lookup_key(key@),
{
    let suffix = lookup_suffix(key);
    (string_of(&concat(&chars_of("OPENDUCK_"), &suffix)), string_of(&concat(&chars_of("GOOSE_"), &suffix)))
}

/// When `get_var_os` finds `key` only under its legacy name: that name
/// (`GOOSE_<KEY>`) and the name that replaces it (`OPENDUCK_<KEY>`).
pub open spec fn legacy_use(vars: Seq<(String, Option<String>)>, key: Seq<char>) -> Option<(Seq<char>, Seq<char>)> {
    let o = "OPENDUCK_"@ + lookup_key(key);
    let g = "GOOSE_"@ + lookup_key(key);
    if env_get(vars, o) is None && env_get(vars, g) is Some {
        Some((g, o))
    } else {
        None
    }
}

/// The legacy name that a lookup of `key` falls back to, with its
/// replacement, when it does (the lookup then owes a deprecation warning).
pub fn legacy_fallback(env: &EnvSnapshot, key: &str) -> (r: Option<(String, String)>)
    ensures
        match r {
            Some(p) => legacy_use(env.vars@, key@) == Some((p.0@, p.1@)),
            None => legacy_use(env.vars@, key@) is None,
        },
{
    let (openduck_key, goose_key) = lookup_names(key);
    if env_value(env, &chars_of(openduck_key.as_str())).is_some() {
        return None;
    }
    if env_value(env, &chars_of(goose_key.as_str())).is_some() {
        Some((goose_key, openduck_key))
    } else {
        None
    }
}

/// The deprecation warning for `legacy_key`, to be replaced by `replacement`.
pub open spec fn deprecation_message(legacy_key: Seq<char>, replacement: Seq<char>) -> Seq<char> {
    legacy_key + " is deprecated; use "@ + replacement + " instead"@
}

/// `warn_legacy_once` as a step on the keys already warned of: the warning
/// owed (none when `legacy_key` was warned of before) and the keys warned of after.
pub open spec fn warn_step(warned: Seq<Seq<char>>, legacy_key: Seq<char>, replacement: Seq<char>) -> (
    Seq<Seq<char>>,
    Option<Seq<char>>,
) {
    if warned.contains(legacy_key) {
        (warned, None)
    } else {
        (warned.push(legacy_key), Some(deprecation_message(legacy_key, replacement)))
    }
}

/// `warn_legacy_once`: the warning to log the first time `legacy_key` is used
/// in place of `replacement`; `warned` holds the keys already warned of.
pub fn warn_legacy_once(warned: &mut Vec<String>, legacy_key: &str, replacement: &str) -> (r: Option<String>)
    ensures
        (string_views(final(warned)@), opt_view(r)) == warn_step(
            string_views(old(warned)@),
            legacy_key@,
            replacement@,
        ),
{
    let k = chars_of(legacy_key);
    let mut i: usize = 0;
    while i < warned.len()
        invariant
            i <= warned@.len(),
            k@ == legacy_key@,
            forall|j: int| 0 <= j < i ==> warned@[j]@ != legacy_key@,
        decreases warned.len() - i,
    {
        if chars_eq(&chars_of(warned[i].as_str()), &k) {
            assert(string_views(warned@)[i as int] == legacy_key@);
            return None;
        }
        i = i + 1;
    }
    assert(!string_views(warned@).contains(legacy_key@));
    let ghost before = string_views(warned@);
    warned.push(legacy_key.to_owned());
    assert(string_views(warned@) =~= before.push(legacy_key@));
    let msg = concat(&concat(&concat(&k, &chars_of(" is deprecated; use ")), &chars_of(replacement)), &chars_of(" instead"));
    Some(string_of(&msg))
}

/// A legacy key is warned of once: after its warning, using it again owes none,
/// whatever its replacement is named.
pub proof fn law_legacy_warned_once(warned: Seq<Seq<char>>, legacy_key: Seq<char>, r1: Seq<char>, r2: Seq<char>)
    ensures
        warn_step(warn_step(warned, legacy_key, r1).0, legacy_key, r2).1 is None,
        !warned.contains(legacy_key) ==> warn_step(warned, legacy_key, r1).1 == Some(
            deprecation_message(legacy_key, r1),
        ),
{
    if !warned.contains(legacy_key) {
        assert(warned.push(legacy_key)[warned.len() as int] == legacy_key);
    }
}

/// A lookup owes a warning exactly when it gives the legacy variable's value:
/// `OPENDUCK_<KEY>` is not set and `GOOSE_<KEY>` is.
pub proof fn law_warning_only_on_fallback(vars: Seq<(String, Option<String>)>, key: Seq<char>)
    ensures
        legacy_use(vars, key) is Some ==> var_os(vars, key) == env_get(vars, "GOOSE_"@ + lookup_key(key)),
        legacy_use(vars, key) is None ==> (var_os(vars, key) == env_get(vars, "OPENDUCK_"@ + lookup_key(key))
            || var_os(vars, key) is None),
{
}

/// The names `env_lookup` asks for: `OPENDUCK_<KEY>`, `GOOSE_<KEY>` and the
/// upper-cased key itself.
pub fn env_lookup_names(key: &str) -> (r: Vec<String>)
    ensures
        string_views(r@) == seq![
            "OPENDUCK_"@ + lookup_key(key@),
            "GOOSE_"@ + lookup_key(key@),
            ascii_upper(key@),
        ],
{
    let (o, g) = lookup_names(key);
    let upper = string_of(&to_ascii_upper(&chars_of(key)));
    let r = vec![o, g, upper];
    assert(string_views(r@) =~= seq![
        "OPENDUCK_"@ + lookup_key(key@),
        "GOOSE_"@ + lookup_key(key@),
        ascii_upper(key@),
    ]);
    r
}

/// `env_lookup`: the value for a configuration key. A key with a product
/// prefix is looked up as `get_var` does; an unprefixed key tries
/// `OPENDUCK_<KEY>`, then `GOOSE_<KEY>`, then `<KEY>` itself.
pub open spec fn lookup(vars: Seq<(String, Option<String>)>, key: Seq<char>) -> Option<Seq<char>> {
    let upper = ascii_upper(key);
    if key_suffix(upper) is Some {
        var(vars, upper)
    } else {
        match var(vars, upper) {
            Some(v) => Some(v),
            None => match env_get(vars, upper) {
                Some(Some(v)) => Some(v),
                _ => None,
            },
        }
    }
}

/// Environment lookup for configuration keys.
pub fn env_lookup(env: &EnvSnapshot, key: &str) -> (r: Option<String>)
    ensures
        match r {
            Some(v) => lookup(env.vars@, key@) == Some(v@),
            None => lookup(env.vars@, key@) is None,
        },
{
    let upper = to_ascii_upper(&chars_of(key));
    let upper_str = string_of(&upper);
    proof {
        assert(ascii_upper(upper@) =~= upper@);
    }
    if product_suffix(&upper).is_some() {
        return get_var(env, upper_str.as_str());
    }
    match get_var(env, upper_str.as_str()) {
        Some(v) => Some(v),
        None => match env_value(env, &upper) {
            Some(Some(v)) => Some(v),
            _ => None,
        },
    }
}


/// `OPENDUCK_<KEY>` wins: when it holds a Unicode value, `get_var` gives that
/// value, whatever `GOOSE_<KEY>` holds.
pub proof fn law_openduck_wins(vars: Seq<(String, Option<String>)>, key: Seq<char>, v: Seq<char>)
    requires
        env_get(vars, "OPENDUCK_"@ + lookup_key(key)) == Some(Some(v)),
    ensures
        var(vars, key) == Some(v),
{
}

/// `GOOSE_<KEY>` is the fallback: when `OPENDUCK_<KEY>` is not set, `get_var`
/// gives the Unicode value of `GOOSE_<KEY>`, and nothing when neither is set.
pub proof fn law_goose_fallback(vars: Seq<(String, Option<String>)>, key: Seq<char>)
    requires
        env_get(vars, "OPENDUCK_"@ + lookup_key(key)) is None,
    ensures
        var(vars, key) == (match env_get(vars, "GOOSE_"@ + lookup_key(key)) {
            Some(Some(v)) => Some(v),
            _ => None,
        }),
{
}

/// Keys are looked up without regard to ASCII case.
pub proof fn law_key_case_insensitive(vars: Seq<(String, Option<String>)>, a: Seq<char>, b: Seq<char>)
    requires
        ascii_upper(a) == ascii_upper(b),
    ensures
        var(vars, a) == var(vars, b),
{
}

/// A product prefix on the key changes nothing: `OPENDUCK_<KEY>`, `GOOSE_<KEY>`
/// and `<KEY>` look up the same variables, for a key that is not itself prefixed.
pub proof fn law_prefix_stripped(vars: Seq<(String, Option<String>)>, k: Seq<char>)
    requires
        k.len() > 0,
        key_suffix(ascii_upper(k)) is None,
    ensures
        var(vars, "OPENDUCK_"@ + k) == var(vars, k),
        var(vars, "GOOSE_"@ + k) == var(vars, k),
{
    reveal_strlit("OPENDUCK_");
    reveal_strlit("GOOSE_");
    let o = "OPENDUCK_"@ + k;
    let g = "GOOSE_"@ + k;
    assert(ascii_upper(o) =~= "OPENDUCK_"@ + ascii_upper(k));
    assert(ascii_upper(g) =~= "GOOSE_"@ + ascii_upper(k));
    assert(ascii_upper(o).subrange(0, 9) =~= "OPENDUCK_"@);
    assert(ascii_upper(o).skip(9) =~= ascii_upper(k));
    assert(ascii_upper(g).subrange(0, 6) =~= "GOOSE_"@);
    assert(ascii_upper(g).skip(6) =~= ascii_upper(k));
    assert(!has_prefix(ascii_upper(g), "OPENDUCK_"@)) by {
        if has_prefix(ascii_upper(g), "OPENDUCK_"@) {
            assert(ascii_upper(g)[0] == 'G');
            assert(ascii_upper(g).subrange(0, 9)[0] == 'O');
        }
    }
    assert(lookup_key(o) == ascii_upper(k));
    assert(lookup_key(g) == ascii_upper(k));
    assert(lookup_key(k) == ascii_upper(k));
}

/// `env_lookup` is `get_var` first: for a key without a product prefix, the
/// value `get_var` finds (`OPENDUCK_<KEY>`, else `GOOSE_<KEY>`) wins, and the
/// raw `<KEY>` is read only when it finds none; a prefixed key is looked up as
/// `get_var` does, and the raw name is never read.
pub proof fn law_env_lookup_prefers_get_var(vars: Seq<(String, Option<String>)>, key: Seq<char>)
    ensures
        key_suffix(ascii_upper(key)) is None && var(vars, key) is Some ==> lookup(vars, key) == var(vars, key),
        key_suffix(ascii_upper(key)) is None && var(vars, key) is None ==> lookup(vars, key) == (match env_get(
            vars,
            ascii_upper(key),
        ) {
            Some(Some(v)) => Some(v),
            _ => None::<Seq<char>>,
        }),
        key_suffix(ascii_upper(key)) is Some ==> lookup(vars, key) == var(vars, key),
{
    assert(ascii_upper(ascii_upper(key)) =~= ascii_upper(key));
    law_key_case_insensitive(vars, key, ascii_upper(key));
}

} // verus!
