//! Where sessions and their worktrees live, and which session a command
//! works on.
//!
//! Everything co-review keeps is under one home directory (`$CO_REVIEW_HOME`
//! when set): each session's state in `sessions/<slug>` and each PR's
//! checkout in `worktrees/<slug>`, where the slug names the PR
//! (`owner-repo-N`).
use vstd::prelude::*;

use crate::git::{join_path, path_join};

verus! {

/// Environment variable that overrides co-review's home directory.
pub const HOME_ENV: &'static str = "CO_REVIEW_HOME";

/// The directory, under the home, holding one directory per session.
pub const SESSIONS_DIR: &'static str = "sessions";

/// The directory, under the home, holding one worktree per PR.
pub const WORKTREES_DIR: &'static str = "worktrees";

/// The protocol reference written into each session directory.
pub const PROTOCOL_FILE: &'static str = "CO_REVIEW.md";

/// `<home>/sessions`.
pub fn sessions_root(home: &str) -> (p: String)
    ensures
        p@ == path_join(home@, SESSIONS_DIR@),
{
    join_path(home, SESSIONS_DIR)
}

/// `<home>/sessions/<slug>`: the session directory of a PR.
pub fn session_dir(home: &str, slug: &str) -> (p: String)
    ensures
        p@ == path_join(path_join(home@, SESSIONS_DIR@), slug@),
{
    join_path(sessions_root(home).as_str(), slug)
}

/// `<home>/worktrees/<slug>`: the checkout of a PR.
pub fn worktree_path(home: &str, slug: &str) -> (p: String)
    ensures
        p@ == path_join(path_join(home@, WORKTREES_DIR@), slug@),
{
    join_path(join_path(home, WORKTREES_DIR).as_str(), slug)
}

/// `<session dir>/CO_REVIEW.md`.
pub fn protocol_path(session_dir: &str) -> (p: String)
    ensures
        p@ == path_join(session_dir@, PROTOCOL_FILE@),
{
    join_path(session_dir, PROTOCOL_FILE)
}

/// Why no session could be chosen.
#[derive(Debug, Clone, PartialEq, Eq)]
pub enum SessionError {
    /// No session was named and none exists.
    NoSession,
    /// No session was named and several exist (how many).
    Ambiguous(usize),
}

pub open spec fn session_error_text(e: SessionError) -> Seq<char> {
    match e {
        SessionError::NoSession => "no co-review session found; pass --session <dir> or set CO_REVIEW_SESSION"@,
        SessionError::Ambiguous(_) => "several co-review sessions exist; pass --session <dir> or set CO_REVIEW_SESSION"@,
    }
}

impl SessionError {
    /// The human-readable message for this error.
    pub fn message(&self) -> (m: String)
        ensures
            m@ == session_error_text(*self),
    {
        match self {
            SessionError::NoSession => "no co-review session found; pass --session <dir> or set CO_REVIEW_SESSION".to_owned(),
            SessionError::Ambiguous(_) => "several co-review sessions exist; pass --session <dir> or set CO_REVIEW_SESSION".to_owned(),
        }
    }
}

/// Which session directory a command works on: the one given with
/// `--session`, else the one `$CO_REVIEW_SESSION` names (when set and not
/// empty), else the sole existing session (`existing` lists the session
/// directories there are).
pub fn choose_session(explicit: Option<&str>, env: Option<&str>, existing: &Vec<String>) -> (r: Result<
    String,
    SessionError,
>)
    ensures
        match explicit {
            Some(d) => r matches Ok(s) && s@ == d@,
            None => match env {
                Some(e) if e@.len() > 0 => r matches Ok(s) && s@ == e@,
                _ => if existing@.len() == 1 {
                    r matches Ok(s) && s@ == existing@[0]@
                } else if existing@.len() == 0 {
                    r == Err::<String, SessionError>(SessionError::NoSession)
                } else {
                    r == Err::<String, SessionError>(SessionError::Ambiguous(existing@.len() as usize))
                },
            },
        },
{
    if let Some(d) = explicit {
        return Ok(d.to_owned());
    }
    if let Some(e) = env {
        if !e.is_empty() {
            return Ok(e.to_owned());
        }
    }
    if existing.len() == 1 {
        Ok(existing[0].clone())
    } else if existing.len() == 0 {
        Err(SessionError::NoSession)
    } else {
        Err(SessionError::Ambiguous(existing.len()))
    }
}

} // verus!
