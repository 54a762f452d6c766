//! Locating the executables the operator starts.
//!
//! A binary is taken, in this order, from an explicit path in the
//! configuration, from an environment override, from the local build
//! directories under the configuration directory, or from `PATH`. The file
//! system and the environment are read by the caller, which hands the results
//! in as a [`BinaryLookup`]; this module decides.
use vstd::prelude::*;
use crate::text::{is_ascii_alnum, is_ascii_lower, is_ascii_upper, is_ascii_digit, ascii_upper, ends_with, owned, concat, str_ends_with, chars_vec, push_char, is_alnum, to_ascii_upper};
use crate::paths::{join_path, join, is_absolute_path};

verus! {

/// Where a binary is looked for.
pub struct ResolveCtx {
    pub config_dir: String,
    pub explicit_path: Option<String>,
}

/// What the caller found out about the file system and the environment.
pub struct BinaryLookup {
    /// Value of the `GREENTIC_OPERATOR_BINARY_<KEY>` variable, if set.
    pub env_override: Option<String>,
    /// The paths, among those [`paths_to_check`] lists, that exist.
    pub existing: Vec<String>,
    /// The first match of the binary in a `PATH` directory, if any.
    pub on_path: Option<String>,
    /// Whether executables carry an `.exe` suffix on this host.
    pub windows: bool,
}

/// Why no binary was found.
pub enum ResolveError {
    ExplicitNotFound { path: String },
    OverrideNotFound { path: String },
    NotFound { message: String },
}

pub open spec fn env_key_char(c: char) -> char {
    if is_ascii_alnum(c) { ascii_upper(c) } else { '_' }
}

pub open spec fn env_key_spec(name: Seq<char>) -> Seq<char> {
    name.map_values(|c: char| env_key_char(c))
}

pub open spec fn override_var_spec(name: Seq<char>) -> Seq<char> {
    "GREENTIC_OPERATOR_BINARY_"@ + env_key_spec(name)
}

pub open spec fn binary_name_spec(name: Seq<char>, windows: bool) -> Seq<char> {
    if windows && !ends_with(name, ".exe"@) { name + ".exe"@ } else { name }
}

pub open spec fn candidates_spec(dir: Seq<char>, name: Seq<char>, windows: bool) -> Seq<Seq<char>> {
    let bin = binary_name_spec(name, windows);
    seq![
        join_path(join_path(dir, "bin"@), bin),
        join_path(join_path(join_path(dir, "target"@), "debug"@), bin),
        join_path(join_path(join_path(dir, "target"@), "release"@), bin),
    ]
}

pub open spec fn tried_lines(tried: Seq<Seq<char>>) -> Seq<char>
    decreases tried.len(),
{
    if tried.len() == 0 {
        Seq::empty()
    } else {
        tried_lines(tried.drop_last()) + "\n  - "@ + tried.last()
    }
}

pub open spec fn not_found_message(name: Seq<char>, tried: Seq<Seq<char>>) -> Seq<char> {
    "binary not found: "@ + name
        + (if tried.len() == 0 { Seq::empty() } else { "\nTried:"@ + tried_lines(tried) })
        + "\nSuggestions:\n  - set binaries."@ + name + " in greentic.yaml\n  - set GREENTIC_OPERATOR_BINARY_"@
        + env_key_spec(name)
}

pub open spec fn exists_in(lookup: BinaryLookup, p: Seq<char>) -> bool {
    exists|i: int| 0 <= i < lookup.existing@.len() && lookup.existing@[i]@ == p
}

/// The outcome of the resolution, as views.
pub enum Resolution {
    Found(Seq<char>),
    ExplicitMissing(Seq<char>),
    OverrideMissing(Seq<char>),
    Missing(Seq<char>),
}

pub open spec fn resolve_spec(name: Seq<char>, ctx: ResolveCtx, lookup: BinaryLookup) -> Resolution {
    match ctx.explicit_path {
        Some(explicit) => {
            let p = join_path(ctx.config_dir@, explicit@);
            if exists_in(lookup, p) { Resolution::Found(p) } else { Resolution::ExplicitMissing(p) }
        },
        None => match lookup.env_override {
            Some(o) => if exists_in(lookup, o@) { Resolution::Found(o@) } else { Resolution::OverrideMissing(o@) },
            None => {
                let c = candidates_spec(ctx.config_dir@, name, lookup.windows);
                if exists_in(lookup, c[0]) {
                    Resolution::Found(c[0])
                } else if exists_in(lookup, c[1]) {
                    Resolution::Found(c[1])
                } else if exists_in(lookup, c[2]) {
                    Resolution::Found(c[2])
                } else {
                    match lookup.on_path {
                        Some(p) => Resolution::Found(p@),
                        None => Resolution::Missing(not_found_message(name, c)),
                    }
                }
            },
        },
    }
}

pub open spec fn result_view(r: Result<String, ResolveError>) -> Resolution {
    match r {
        Ok(p) => Resolution::Found(p@),
        Err(ResolveError::ExplicitNotFound { path }) => Resolution::ExplicitMissing(path@),
        Err(ResolveError::OverrideNotFound { path }) => Resolution::OverrideMissing(path@),
        Err(ResolveError::NotFound { message }) => Resolution::Missing(message@),
    }
}

impl ResolveError {
    /// The text of the error, as the operator reports it.
    pub fn message(&self) -> (r: String)
        ensures
            r@ == match self {
                ResolveError::ExplicitNotFound { path } => "explicit binary path not found: "@ + path@,
                ResolveError::OverrideNotFound { path } => "binary override from environment not found: "@ + path@,
                ResolveError::NotFound { message } => message@,
            },
    {
        match self {
            ResolveError::ExplicitNotFound { path } => concat("explicit binary path not found: ", path.as_str()),
            ResolveError::OverrideNotFound { path } => concat("binary override from environment not found: ", path.as_str()),
            ResolveError::NotFound { message } => message.clone(),
        }
    }
}

/// `path` resolved against `base`: kept when absolute, joined otherwise.
pub fn resolve_relative(base: &str, path: &str) -> (r: String)
    ensures r@ == join_path(base@, path@),
{
    join(base, path)
}

/// The file name of the executable `name` on a host with or without `.exe` suffixes.
pub fn binary_name(name: &str, windows: bool) -> (r: String)
    ensures r@ == binary_name_spec(name@, windows),
{
    if windows && !str_ends_with(name, ".exe") {
        concat(name, ".exe")
    } else {
        owned(name)
    }
}

/// `name` as an environment-variable suffix: ASCII letters and digits are
/// upper-cased, every other character becomes `_`.
pub fn normalize_env_key(name: &str) -> (r: String)
    ensures r@ == env_key_spec(name@),
{
    let v = chars_vec(name);
    let mut r = String::new();
    let mut i: usize = 0;
    while i < v.len()
        invariant
            v@ == name@,
            i <= v@.len(),
            r@ == v@.subrange(0, i as int).map_values(|c: char| env_key_char(c)),
        decreases v.len() - i,
    {
        let c = v[i];
        let k = if is_alnum(c) { to_ascii_upper(c) } else { '_' };
        push_char(&mut r, k);
        i = i + 1;
        assert(r@ =~= v@.subrange(0, i as int).map_values(|c: char| env_key_char(c)));
    }
    assert(v@.subrange(0, v@.len() as int) =~= v@);
    r
}

/// The environment variable that overrides the location of `name`.
pub fn override_var_name(name: &str) -> (r: String)
    ensures r@ == override_var_spec(name@),
{
    let key = normalize_env_key(name);
    concat("GREENTIC_OPERATOR_BINARY_", key.as_str())
}

/// `<dir>/bin/<bin>`, `<dir>/target/debug/<bin>` and `<dir>/target/release/<bin>`.
pub fn local_candidates(config_dir: &str, name: &str, windows: bool) -> (r: Vec<String>)
    ensures
        r@.len() == 3,
        forall|i: int| 0 <= i < 3 ==> #[trigger] r@[i]@ == candidates_spec(config_dir@, name@, windows)[i],
{
    let bin = binary_name(name, windows);
    let bin_dir = join(config_dir, "bin");
    let target = join(config_dir, "target");
    let debug = join(target.as_str(), "debug");
    let release = join(target.as_str(), "release");
    let mut r: Vec<String> = Vec::new();
    r.push(join(bin_dir.as_str(), bin.as_str()));
    r.push(join(debug.as_str(), bin.as_str()));
    r.push(join(release.as_str(), bin.as_str()));
    r
}

/// The paths whose existence decides the resolution: the explicit path, or
/// else the environment override, or else the local candidates.
pub fn paths_to_check(name: &str, ctx: &ResolveCtx, env_override: &Option<String>, windows: bool) -> (r: Vec<String>)
    ensures
        match ctx.explicit_path {
            Some(e) => r@.len() == 1 && r@[0]@ == join_path(ctx.config_dir@, e@),
            None => match env_override {
                Some(o) => r@.len() == 1 && r@[0]@ == o@,
                None => r@.len() == 3 && forall|i: int| 0 <= i < 3
                    ==> #[trigger] r@[i]@ == candidates_spec(ctx.config_dir@, name@, windows)[i],
            },
        },
{
    match &ctx.explicit_path {
        Some(e) => {
            let mut r: Vec<String> = Vec::new();
            r.push(resolve_relative(ctx.config_dir.as_str(), e.as_str()));
            r
        },
        None => match env_override {
            Some(o) => {
                let mut r: Vec<String> = Vec::new();
                r.push(o.clone());
                r
            },
            None => local_candidates(ctx.config_dir.as_str(), name, windows),
        },
    }
}

fn contains_path(existing: &Vec<String>, p: &String) -> (r: bool)
    ensures r == exists|i: int| 0 <= i < existing@.len() && existing@[i]@ == p@,
{
    let mut i: usize = 0;
    while i < existing.len()
        invariant
            i <= existing@.len(),
            forall|j: int| 0 <= j < i ==> existing@[j]@ != p@,
        decreases existing.len() - i,
    {
        if existing[i] == *p {
            return true;
        }
        i = i + 1;
    }
    false
}

fn tried_text(tried: &Vec<String>) -> (r: String)
    ensures r@ == tried_lines(tried@.map_values(|s: String| s@)),
{
    let ghost tv = tried@.map_values(|s: String| s@);
    let mut r = String::new();
    let mut i: usize = 0;
    while i < tried.len()
        invariant
            tv == tried@.map_values(|s: String| s@),
            i <= tried@.len(),
            r@ == tried_lines(tv.subrange(0, i as int)),
        decreases tried.len() - i,
    {
        r.append("\n  - ");
        r.append(tried[i].as_str());
        proof {
            assert(tv.subrange(0, i + 1).drop_last() =~= tv.subrange(0, i as int));
        }
        i = i + 1;
    }
    assert(tv.subrange(0, tried@.len() as int) =~= tv);
    r
}

/// The message reported when no binary was found after trying `tried`.
pub fn missing_binary_message(name: &str, tried: &Vec<String>) -> (r: String)
    ensures r@ == not_found_message(name@, tried@.map_values(|s: String| s@)),
{
    let mut r = concat("binary not found: ", name);
    if tried.len() > 0 {
        r.append("\nTried:");
        let lines = tried_text(tried);
        r.append(lines.as_str());
    }
    r.append("\nSuggestions:\n  - set binaries.");
    r.append(name);
    r.append(" in greentic.yaml\n  - set GREENTIC_OPERATOR_BINARY_");
    let key = normalize_env_key(name);
    r.append(key.as_str());
    proof {
        let tv = tried@.map_values(|s: String| s@);
        assert(r@ =~= not_found_message(name@, tv));
    }
    r
}

/// Decides where the binary `name` is, from what the caller found.
pub fn resolve_binary(name: &str, ctx: &ResolveCtx, lookup: &BinaryLookup) -> (r: Result<String, ResolveError>)
    ensures result_view(r) == resolve_spec(name@, *ctx, *lookup),
{
    match &ctx.explicit_path {
        Some(explicit) => {
            let resolved = resolve_relative(ctx.config_dir.as_str(), explicit.as_str());
            if contains_path(&lookup.existing, &resolved) {
                Ok(resolved)
            } else {
                Err(ResolveError::ExplicitNotFound { path: resolved })
            }
        },
        None => match &lookup.env_override {
            Some(o) => {
                if contains_path(&lookup.existing, o) {
                    Ok(o.clone())
                } else {
                    Err(ResolveError::OverrideNotFound { path: o.clone() })
                }
            },
            None => {
                let candidates = local_candidates(ctx.config_dir.as_str(), name, lookup.windows);
                let ghost c = candidates_spec(ctx.config_dir@, name@, lookup.windows);
                let mut tried: Vec<String> = Vec::new();
                let mut i: usize = 0;
                while i < 3
                    invariant
                        ctx.explicit_path is None,
                        lookup.env_override is None,
                        c == candidates_spec(ctx.config_dir@, name@, lookup.windows),
                        candidates@.len() == 3,
                        forall|k: int| 0 <= k < 3 ==> #[trigger] candidates@[k]@ == c[k],
                        i <= 3,
                        tried@.len() == i,
                        forall|k: int| 0 <= k < i ==> #[trigger] tried@[k]@ == c[k],
                        forall|k: int| 0 <= k < i ==> !exists_in(*lookup, #[trigger] c[k]),
                    decreases 3 - i,
                {
                    if contains_path(&lookup.existing, &candidates[i]) {
                        proof {
                            assert(candidates@[i as int]@ == c[i as int]);
                            if i >= 1 { assert(!exists_in(*lookup, c[0])); }
                            if i >= 2 { assert(!exists_in(*lookup, c[1])); }
                        }
                        return Ok(candidates[i].clone());
                    }
                    tried.push(candidates[i].clone());
                    i = i + 1;
                }
                proof {
                    assert(!exists_in(*lookup, c[0]));
                    assert(!exists_in(*lookup, c[1]));
                    assert(!exists_in(*lookup, c[2]));
                }
                match &lookup.on_path {
                    Some(p) => Ok(p.clone()),
                    None => {
                        let message = missing_binary_message(name, &tried);
                        assert(tried@.map_values(|s: String| s@) =~= c);
                        Err(ResolveError::NotFound { message })
                    },
                }
            },
        },
    }
}

} // verus!

verus! {

/// Normalizing an environment key twice gives what normalizing once gives.
pub proof fn lemma_env_key_idempotent(name: Seq<char>)
    ensures env_key_spec(env_key_spec(name)) == env_key_spec(name),
{
    assert forall|i: int| 0 <= i < name.len() implies
        #[trigger] env_key_char(env_key_char(name[i])) == env_key_char(name[i]) by {
        let c = name[i];
        if is_ascii_alnum(c) {
            if is_ascii_lower(c) {
                assert(ascii_upper(c) as u32 == c as u32 - 32);
            }
        }
    }
    assert(env_key_spec(env_key_spec(name)) =~= env_key_spec(name));
}

/// A normalized environment key has the length of the name, and holds only
/// upper-case ASCII letters, digits and `_`.
pub proof fn lemma_env_key_shape(name: Seq<char>)
    ensures
        env_key_spec(name).len() == name.len(),
        forall|i: int| 0 <= i < name.len() ==> {
            let c = #[trigger] env_key_spec(name)[i];
            is_ascii_upper(c) || is_ascii_digit(c) || c == '_'
        },
{
    assert forall|i: int| 0 <= i < name.len() implies {
        let c = #[trigger] env_key_spec(name)[i];
        is_ascii_upper(c) || is_ascii_digit(c) || c == '_'
    } by {
        let c = name[i];
        if is_ascii_lower(c) {
            assert(ascii_upper(c) as u32 == c as u32 - 32);
        }
    }
}

/// An explicit absolute binary path is used as it is, whatever the
/// configuration directory.
pub proof fn lemma_absolute_path_kept(base: Seq<char>, path: Seq<char>)
    requires is_absolute_path(path),
    ensures join_path(base, path) == path,
{
}

/// Without an explicit path or an override, the first local candidate that
/// exists, in the order `bin`, `target/debug`, `target/release`, is the one
/// found: no later candidate is taken over an earlier one that exists.
pub proof fn lemma_first_existing_candidate_wins(name: Seq<char>, ctx: ResolveCtx, lookup: BinaryLookup)
    requires
        ctx.explicit_path is None,
        lookup.env_override is None,
    ensures
        ({
            let c = candidates_spec(ctx.config_dir@, name, lookup.windows);
            forall|k: int| 0 <= k < 3 && exists_in(lookup, #[trigger] c[k])
                && (forall|j: int| 0 <= j < k ==> !exists_in(lookup, c[j]))
                ==> resolve_spec(name, ctx, lookup) == Resolution::Found(c[k])
        }),
{
    let c = candidates_spec(ctx.config_dir@, name, lookup.windows);
    assert forall|k: int| 0 <= k < 3 && exists_in(lookup, #[trigger] c[k])
        && (forall|j: int| 0 <= j < k ==> !exists_in(lookup, c[j]))
        implies resolve_spec(name, ctx, lookup) == Resolution::Found(c[k]) by {
        if k >= 1 { assert(!exists_in(lookup, c[0])); }
        if k >= 2 { assert(!exists_in(lookup, c[1])); }
    }
}

} // verus!
