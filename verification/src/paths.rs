//! Where the run-state files live: the workspace and what is derived from it.
//!
//! Paths are handled as text here. What counts as a parent directory, and
//! how a name is put below a directory, is left to std's `Path`.

use std::path::Path;
use vstd::prelude::*;
use vstd::string::StringExecFns;

verus! {

/// The workspace where neither an override nor the configuration's place
/// gives one.
pub const DEFAULT_WORKSPACE: &'static str = "/data/adb/sing-box-workspace";

/// The configuration file where none is named.
pub const DEFAULT_CONFIG: &'static str = "/data/adb/sing-box-workspace/etc/config.json";

/// The PID record's place below the workspace.
pub const PID_FILE: &'static str = "run/sing-box.pid";

/// The stop flag's name in the workspace.
pub const STOP_FLAG: &'static str = "STOP";

/// The environment file's name in the workspace.
pub const ENV_FILE: &'static str = ".env";

/// What `Path::parent` returns for the path written `path`: the path
/// without its last component, or `None` where it has none to lose.
pub uninterp spec fn parent_path(path: Seq<char>) -> Option<Seq<char>>;

/// What `Path::join` returns for the path written `base` and the path
/// written `below`.
pub uninterp spec fn joined_path(base: Seq<char>, below: Seq<char>) -> Seq<char>;

/// Calls `Path::parent` on the path written `path` and hands the parent
/// back as text. The result depends on the text alone; the contract gives
/// it its name and says nothing more of it.
#[verifier::external_body]
pub(crate) fn parent_of(path: &str) -> (parent: Option<String>)
    ensures
        match parent {
            Some(p) => parent_path(path@) == Some(p@),
            None => parent_path(path@) is None,
        },
{
    Path::new(path).parent().and_then(|p| p.to_str()).map(String::from)
}

/// Calls `Path::join` on the paths written `base` and `below` and hands
/// the result back as text. The result depends on the two texts alone; the
/// contract gives it its name and says nothing more of it.
#[verifier::external_body]
pub(crate) fn join(base: &str, below: &str) -> (path: String)
    ensures
        path@ == joined_path(base@, below@),
{
    Path::new(base).join(below).to_string_lossy().into_owned()
}

/// The directory two levels above `path`, if there is one.
pub open spec fn grandparent_path(path: Seq<char>) -> Option<Seq<char>> {
    match parent_path(path) {
        Some(parent) => parent_path(parent),
        None => None,
    }
}

/// The workspace for the configuration file `config_path`: the override
/// where one is given, else the directory two levels above the file, else
/// the default workspace.
pub open spec fn workspace_of(override_dir: Option<Seq<char>>, config_path: Seq<char>) -> Seq<
    char,
> {
    match override_dir {
        Some(dir) => dir,
        None => match grandparent_path(config_path) {
            Some(dir) => dir,
            None => DEFAULT_WORKSPACE@,
        },
    }
}

/// The first of the three that is there: the override, the directory two
/// levels above the configuration file, the default.
pub fn choose_workspace(override_dir: Option<String>, grandparent: Option<String>) -> (workspace:
    String)
    ensures
        workspace@ == match override_dir {
            Some(dir) => dir@,
            None => match grandparent {
                Some(dir) => dir@,
                None => DEFAULT_WORKSPACE@,
            },
        },
{
    match override_dir {
        Some(dir) => dir,
        None => match grandparent {
            Some(dir) => dir,
            None => String::from_str(DEFAULT_WORKSPACE),
        },
    }
}

/// The workspace for the configuration file `config_path`, given what the
/// override variable holds.
pub fn get_workspace_path(override_dir: Option<String>, config_path: &str) -> (workspace: String)
    ensures
        workspace@ == workspace_of(
            match override_dir {
                Some(dir) => Some(dir@),
                None => None,
            },
            config_path@,
        ),
{
    let grandparent = match parent_of(config_path) {
        Some(parent) => parent_of(parent.as_str()),
        None => None,
    };
    choose_workspace(override_dir, grandparent)
}

/// The PID record's path: the override where one is given, else its place
/// below the workspace.
pub fn get_pid_file_path(override_path: Option<String>, workspace: &str) -> (path: String)
    ensures
        path@ == match override_path {
            Some(p) => p@,
            None => joined_path(workspace@, PID_FILE@),
        },
{
    match override_path {
        Some(p) => p,
        None => join(workspace, PID_FILE),
    }
}

/// The path of the file `name` in the workspace.
pub fn workspace_file(workspace: &str, name: &str) -> (path: String)
    ensures
        path@ == joined_path(workspace@, name@),
{
    join(workspace, name)
}

} // verus!
