//! Where the launcher keeps its configuration, its cache and its data.

use crate::text::{join_path, joined};
use vstd::prelude::*;

verus! {

/// The settings of the launcher.
#[derive(Debug, Clone)]
pub struct WaycastConfig {}

/// What the environment says of where things are kept.
pub struct Directories {
    /// Whether the launcher runs from its source tree.
    pub development: bool,
    /// The directory from which the launcher was started.
    pub current: Option<String>,
    /// The directories of the user's account for this application.
    pub config: Option<String>,
    pub cache: Option<String>,
    pub data: Option<String>,
}

/// The text of an optional string.
pub open spec fn optional_text(s: Option<String>) -> Option<Seq<char>> {
    match s {
        Some(t) => Some(t@),
        None => None,
    }
}

/// A directory of the source tree, below the directory from which the
/// launcher was started.
pub open spec fn in_tree(current: Option<String>, part: Seq<char>) -> Option<Seq<char>> {
    match current {
        Some(dir) => Some(joined(joined(dir@, "xdg"@), part)),
        None => None,
    }
}

/// Where the cache is kept: in the source tree when running from it, and
/// otherwise in the cache directory of the user's account.
pub open spec fn cache_dir_of(env: Directories) -> Option<Seq<char>> {
    if env.development {
        in_tree(env.current, ".cache"@)
    } else {
        optional_text(env.cache)
    }
}

/// Where data is kept: in the source tree when running from it, and
/// otherwise in the data directory of the user's account.
pub open spec fn data_dir_of(env: Directories) -> Option<Seq<char>> {
    if env.development {
        in_tree(env.current, ".local/share"@)
    } else {
        optional_text(env.data)
    }
}

/// A file in a directory, where there is a directory.
pub open spec fn file_in(dir: Option<Seq<char>>, file: Seq<char>) -> Option<Seq<char>> {
    match dir {
        Some(d) => Some(joined(d, file)),
        None => None,
    }
}

fn below_current(current: &Option<String>, part: &str) -> (r: Option<String>)
    ensures
        optional_text(r) == in_tree(*current, part@),
{
    match current {
        Some(dir) => Some(join_path(join_path(dir.as_str(), "xdg").as_str(), part)),
        None => None,
    }
}

fn within(dir: Option<String>, file: &str) -> (r: Option<String>)
    ensures
        optional_text(r) == file_in(optional_text(dir), file@),
{
    match dir {
        Some(d) => Some(join_path(d.as_str(), file)),
        None => None,
    }
}

/// Where the configuration is kept: in the configuration directory of the
/// user's account.
pub fn config_dir(env: &Directories) -> (dir: Option<String>)
    ensures
        optional_text(dir) == optional_text(env.config),
{
    match &env.config {
        Some(d) => Some(d.clone()),
        None => None,
    }
}

/// Where the cache is kept.
pub fn cache_dir(env: &Directories) -> (dir: Option<String>)
    ensures
        optional_text(dir) == cache_dir_of(*env),
{
    if env.development {
        below_current(&env.current, ".cache")
    } else {
        match &env.cache {
            Some(d) => Some(d.clone()),
            None => None,
        }
    }
}

/// Where data is kept.
pub fn data_dir(env: &Directories) -> (dir: Option<String>)
    ensures
        optional_text(dir) == data_dir_of(*env),
{
    if env.development {
        below_current(&env.current, ".local/share")
    } else {
        match &env.data {
            Some(d) => Some(d.clone()),
            None => None,
        }
    }
}

/// The path of a configuration file.
pub fn config_path(env: &Directories, file: &str) -> (path: Option<String>)
    ensures
        optional_text(path) == file_in(optional_text(env.config), file@),
{
    within(config_dir(env), file)
}

/// The path of a file of the cache.
pub fn cache_path(env: &Directories, file: &str) -> (path: Option<String>)
    ensures
        optional_text(path) == file_in(cache_dir_of(*env), file@),
{
    within(cache_dir(env), file)
}

} // verus!
