//! Where the configuration and the application's own data live.
//!
//! A path is kept as a base and the names that follow it, so that nothing
//! here depends on how a platform writes its paths; the caller joins them.

use crate::text::{chars_of, has_prefix, texts, trim, trimmed};
use vstd::prelude::*;
use vstd::string::*;

verus! {

/// A path: a base, and the names to join to it in order.
#[derive(Debug, Clone, PartialEq, Eq)]
pub struct PathParts {
    pub base: String,
    pub parts: Vec<String>,
}

/// Mathematical model of a [`PathParts`].
pub struct PathView {
    pub base: Seq<char>,
    pub parts: Seq<Seq<char>>,
}

impl View for PathParts {
    type V = PathView;

    open spec fn view(&self) -> PathView {
        PathView { base: self.base@, parts: texts(self.parts@) }
    }
}

/// The places that the application reads and writes.
#[derive(Debug, Clone, PartialEq, Eq)]
pub struct OpenClawPaths {
    pub openclaw_dir: PathParts,
    pub config_path: PathParts,
    pub base_dir: PathParts,
    pub clawpal_dir: PathParts,
    pub history_dir: PathParts,
    pub metadata_path: PathParts,
}

/// A path with one more name at its end.
pub open spec fn child(path: PathView, name: Seq<char>) -> PathView {
    PathView { base: path.base, parts: path.parts.push(name) }
}

/// A path that is a base alone.
pub open spec fn root(base: Seq<char>) -> PathView {
    PathView { base, parts: Seq::empty() }
}

/// Copies a path.
pub fn clone_path(path: &PathParts) -> (copy: PathParts)
    ensures
        copy@ == path@,
{
    PathParts { base: path.base.clone(), parts: crate::text::clone_strings(&path.parts) }
}

/// A path with one more name at its end.
pub fn join(path: &PathParts, name: &str) -> (r: PathParts)
    ensures
        r@ == child(path@, name@),
{
    let mut parts = crate::text::clone_strings(&path.parts);
    let ghost before = texts(parts@);
    parts.push(String::from_str(name));
    assert(texts(parts@) =~= before.push(name@));
    PathParts { base: path.base.clone(), parts }
}

/// A path that is a base alone.
pub fn path_of(base: &str) -> (r: PathParts)
    ensures
        r@ == root(base@),
{
    let parts: Vec<String> = Vec::new();
    assert(texts(parts@) =~= Seq::<Seq<char>>::empty());
    PathParts { base: String::from_str(base), parts }
}

/// What a path written by the user stands for: one that begins with `~/`
/// is what follows, below the home directory, if that is known; any other
/// is taken as it is.
pub open spec fn expanded(raw: Seq<char>, home: Option<Seq<char>>) -> PathView {
    if "~/"@.is_prefix_of(raw) && home is Some {
        child(root(home->0), raw.subrange(2, raw.len() as int))
    } else {
        root(raw)
    }
}

/// Expands a path written by the user.
pub fn expand_user_path(raw: &str, home: Option<&str>) -> (r: PathParts)
    ensures
        r@ == expanded(
            raw@,
            match home {
                Some(h) => Some(h@),
                None => None,
            },
        ),
{
    proof {
        reveal_strlit("~/");
    }
    let text = chars_of(raw);
    if has_prefix(&text, "~/") {
        if let Some(h) = home {
            let rest = raw.substring_char(2, text.len());
            return join(&path_of(h), rest);
        }
    }
    path_of(raw)
}

/// The path that an environment variable names: its value without the
/// white space around it, expanded, if the variable is set and that value
/// is not empty.
pub open spec fn env_path_of(value: Option<Seq<char>>, home: Option<Seq<char>>) -> Option<
    PathView,
> {
    match value {
        Some(v) => if trimmed(v).len() == 0 {
            None
        } else {
            Some(expanded(trimmed(v), home))
        },
        None => None,
    }
}

/// The view of an optional path.
pub open spec fn opt_path_view(p: Option<PathParts>) -> Option<PathView> {
    match p {
        Some(path) => Some(path@),
        None => None,
    }
}

/// The view of an optional string slice.
pub open spec fn opt_text(s: Option<&str>) -> Option<Seq<char>> {
    match s {
        Some(t) => Some(t@),
        None => None,
    }
}

/// Reads the path that an environment variable names.
pub fn env_path(value: Option<&str>, home: Option<&str>) -> (r: Option<PathParts>)
    ensures
        opt_path_view(r) == env_path_of(opt_text(value), opt_text(home)),
{
    match value {
        Some(v) => {
            let t = trim(v);
            if t.as_str().is_empty() {
                None
            } else {
                Some(expand_user_path(t.as_str(), home))
            }
        },
        None => None,
    }
}

/// What the environment says of the places to use.
#[derive(Debug, Clone, PartialEq, Eq)]
pub struct PathEnv {
    /// The home directory of the user.
    pub home: Option<String>,
    /// The value of `CLAWPAL_OPENCLAW_DIR`.
    pub clawpal_openclaw_dir: Option<String>,
    /// The value of `OPENCLAW_HOME`.
    pub openclaw_home: Option<String>,
    /// The value of `CLAWPAL_DATA_DIR`.
    pub clawpal_data_dir: Option<String>,
}

/// The home directory to go by: the user's, or the current directory.
pub open spec fn home_or_here(home: Option<Seq<char>>) -> PathView {
    match home {
        Some(h) => root(h),
        None => root("."@),
    }
}

/// The directory of the configuration: what `CLAWPAL_OPENCLAW_DIR` names,
/// else what `OPENCLAW_HOME` names, else `.openclaw` below the home
/// directory.
pub open spec fn openclaw_dir_of(
    home: Option<Seq<char>>,
    clawpal_openclaw_dir: Option<Seq<char>>,
    openclaw_home: Option<Seq<char>>,
) -> PathView {
    match env_path_of(clawpal_openclaw_dir, home) {
        Some(p) => p,
        None => match env_path_of(openclaw_home, home) {
            Some(p) => p,
            None => child(home_or_here(home), ".openclaw"@),
        },
    }
}

/// The directory of the application's own data: what `CLAWPAL_DATA_DIR`
/// names, else `.clawpal` below the home directory.
pub open spec fn clawpal_dir_of(home: Option<Seq<char>>, clawpal_data_dir: Option<Seq<char>>) -> PathView {
    match env_path_of(clawpal_data_dir, home) {
        Some(p) => p,
        None => child(home_or_here(home), ".clawpal"@),
    }
}

/// The view of an optional string.
pub open spec fn opt_string(s: Option<String>) -> Option<Seq<char>> {
    match s {
        Some(t) => Some(t@),
        None => None,
    }
}

fn as_opt_str(s: &Option<String>) -> (r: Option<&str>)
    ensures
        opt_text(r) == opt_string(*s),
{
    match s {
        Some(t) => Some(t.as_str()),
        None => None,
    }
}

/// Resolves the places to use from what the environment says.
pub fn resolve_paths(env: &PathEnv) -> (paths: OpenClawPaths)
    ensures
        paths.openclaw_dir@ == openclaw_dir_of(
            opt_string(env.home),
            opt_string(env.clawpal_openclaw_dir),
            opt_string(env.openclaw_home),
        ),
        paths.base_dir@ == paths.openclaw_dir@,
        paths.config_path@ == child(paths.openclaw_dir@, "openclaw.json"@),
        paths.clawpal_dir@ == clawpal_dir_of(
            opt_string(env.home),
            opt_string(env.clawpal_data_dir),
        ),
        paths.history_dir@ == child(paths.clawpal_dir@, "history"@),
        paths.metadata_path@ == child(paths.clawpal_dir@, "metadata.json"@),
{
    let home = as_opt_str(&env.home);
    let here = match home {
        Some(h) => path_of(h),
        None => path_of("."),
    };
    let openclaw_dir = match env_path(as_opt_str(&env.clawpal_openclaw_dir), home) {
        Some(p) => p,
        None => match env_path(as_opt_str(&env.openclaw_home), home) {
            Some(p) => p,
            None => join(&here, ".openclaw"),
        },
    };
    let clawpal_dir = match env_path(as_opt_str(&env.clawpal_data_dir), home) {
        Some(p) => p,
        None => join(&here, ".clawpal"),
    };
    OpenClawPaths {
        config_path: join(&openclaw_dir, "openclaw.json"),
        base_dir: clone_path(&openclaw_dir),
        history_dir: join(&clawpal_dir, "history"),
        metadata_path: join(&clawpal_dir, "metadata.json"),
        openclaw_dir,
        clawpal_dir,
    }
}

/// The directory that older versions kept the application's data in.
pub fn legacy_dir(paths: &OpenClawPaths) -> (r: PathParts)
    ensures
        r@ == child(paths.openclaw_dir@, ".clawpal"@),
{
    join(&paths.openclaw_dir, ".clawpal")
}

/// What to do with the directory of older versions.
#[derive(Debug, Clone, Copy, PartialEq, Eq, Structural)]
pub enum Migration {
    /// Nothing: there is no such directory.
    Nothing,
    /// Rename it to the new directory.
    Rename,
    /// Remove it: the new directory exists already.
    RemoveLegacy,
}

/// Decides what to do with the directory of older versions.
pub fn plan_migration(legacy_is_dir: bool, clawpal_dir_exists: bool) -> (m: Migration)
    ensures
        m == if !legacy_is_dir {
            Migration::Nothing
        } else if clawpal_dir_exists {
            Migration::RemoveLegacy
        } else {
            Migration::Rename
        },
{
    if !legacy_is_dir {
        Migration::Nothing
    } else if clawpal_dir_exists {
        Migration::RemoveLegacy
    } else {
        Migration::Rename
    }
}

} // verus!
