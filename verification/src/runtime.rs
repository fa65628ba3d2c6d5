//! Where the application keeps its state on disk.

use vstd::prelude::*;

use crate::text::{chars_of, string_from_chars};
use vstd::string::{StrSliceExecFns, StringExecFns};

verus! {

/// Why no state directory could be found.
#[derive(Clone, Copy, Debug, PartialEq, Eq, Structural)]
pub enum StateDirError {
    /// `XDG_STATE_HOME` is unusable and `HOME` is not set.
    HomeNotSet,
}

impl StateDirError {
    /// The message that describes this error.
    pub fn message(&self) -> (s: String)
        ensures
            s@ == "HOME environment variable is not set"@,
    {
        String::from_str("HOME environment variable is not set")
    }
}

/// Whether a Unix path is absolute: it starts at the root.
pub open spec fn is_absolute_spec(path: Seq<char>) -> bool {
    path.len() > 0 && path[0] == '/'
}

/// `PathBuf::join` on Unix: an absolute `rel` replaces `base`; otherwise
/// `rel` is appended, with a `/` between them unless `base` is empty or
/// already ends with one.
pub open spec fn path_join_spec(base: Seq<char>, rel: Seq<char>) -> Seq<char> {
    if is_absolute_spec(rel) {
        rel
    } else if base.len() == 0 || base.last() == '/' {
        base + rel
    } else {
        base + seq!['/'] + rel
    }
}

/// `PathBuf::join` on Unix.
pub fn path_join(base: &str, rel: &str) -> (p: String)
    ensures
        p@ == path_join_spec(base@, rel@),
{
    let b = chars_of(base);
    let r = chars_of(rel);
    if r.len() > 0 && r[0] == '/' {
        return String::from_str(rel);
    }
    if b.len() == 0 || b[b.len() - 1] == '/' {
        String::from_str(base).concat(rel)
    } else {
        let mut p = String::from_str(base);
        crate::text::push_char(&mut p, '/');
        p.concat(rel)
    }
}

/// The user's state directory: `XDG_STATE_HOME` when it is set and
/// absolute, else `$HOME/.local/state`.
pub open spec fn user_state_dir_spec(xdg_state_home: Option<Seq<char>>, home: Option<Seq<char>>) -> Result<
    Seq<char>,
    StateDirError,
> {
    match xdg_state_home {
        Some(p) if is_absolute_spec(p) => Ok(p),
        _ => match home {
            Some(h) => Ok(path_join_spec(h, ".local/state"@)),
            None => Err(StateDirError::HomeNotSet),
        },
    }
}

/// The value of an optional string.
pub open spec fn opt_view(o: Option<&str>) -> Option<Seq<char>> {
    match o {
        Some(s) => Some(s@),
        None => None,
    }
}

/// The user's state directory, from the values of `XDG_STATE_HOME` and
/// `HOME`.
pub fn user_state_dir_from_env(xdg_state_home: Option<&str>, home: Option<&str>) -> (r: Result<
    String,
    StateDirError,
>)
    ensures
        match user_state_dir_spec(opt_view(xdg_state_home), opt_view(home)) {
            Ok(p) => r matches Ok(s) && s@ == p,
            Err(e) => r == Err::<String, StateDirError>(e),
        },
{
    if let Some(path) = xdg_state_home {
        let cs = chars_of(path);
        if cs.len() > 0 && cs[0] == '/' {
            return Ok(String::from_str(path));
        }
    }
    match home {
        Some(h) => Ok(path_join(h, ".local/state")),
        None => Err(StateDirError::HomeNotSet),
    }
}

/// The application's state directory.
pub open spec fn state_dir_spec(xdg_state_home: Option<Seq<char>>, home: Option<Seq<char>>) -> Result<
    Seq<char>,
    StateDirError,
> {
    match user_state_dir_spec(xdg_state_home, home) {
        Ok(p) => Ok(path_join_spec(p, "switchyard"@)),
        Err(e) => Err(e),
    }
}

/// The application's state directory: `switchyard` in the user's state
/// directory.
pub fn state_dir(xdg_state_home: Option<&str>, home: Option<&str>) -> (r: Result<String, StateDirError>)
    ensures
        match state_dir_spec(opt_view(xdg_state_home), opt_view(home)) {
            Ok(p) => r matches Ok(s) && s@ == p,
            Err(e) => r == Err::<String, StateDirError>(e),
        },
{
    match user_state_dir_from_env(xdg_state_home, home) {
        Ok(p) => Ok(path_join(p.as_str(), "switchyard")),
        Err(e) => Err(e),
    }
}

/// The file that holds the vault: `salt` in the state directory.
pub fn salt_file(xdg_state_home: Option<&str>, home: Option<&str>) -> (r: Result<String, StateDirError>)
    ensures
        match state_dir_spec(opt_view(xdg_state_home), opt_view(home)) {
            Ok(p) => r matches Ok(s) && s@ == path_join_spec(p, "salt"@),
            Err(e) => r == Err::<String, StateDirError>(e),
        },
{
    match state_dir(xdg_state_home, home) {
        Ok(p) => Ok(path_join(p.as_str(), "salt")),
        Err(e) => Err(e),
    }
}

/// The file that keeps the selections made in the application between
/// runs: `state.json` in the state directory.
pub fn state_file(xdg_state_home: Option<&str>, home: Option<&str>) -> (r: Result<String, StateDirError>)
    ensures
        match state_dir_spec(opt_view(xdg_state_home), opt_view(home)) {
            Ok(p) => r matches Ok(s) && s@ == path_join_spec(p, "state.json"@),
            Err(e) => r == Err::<String, StateDirError>(e),
        },
{
    match state_dir(xdg_state_home, home) {
        Ok(p) => Ok(path_join(p.as_str(), "state.json")),
        Err(e) => Err(e),
    }
}

} // verus!
