//! The persistence rules for a session's [`State`].
//!
//! Every mutation of `state.json` — whether it comes from an agent running
//! `co-review add-finding`, from the human pressing a key in the TUI, or from a
//! script — is a read-modify-write under an exclusive advisory lock: read the
//! current state, apply the edit, and write the result back atomically. This
//! module fixes where the files live and what such an update writes: an edit
//! that fails writes nothing, and every write advances the revision by one, so
//! readers detect the change regardless of mtime granularity.
use vstd::prelude::*;

use crate::git::{join_path, path_join};
use crate::model::State;

verus! {

/// Filename of the serialized session state inside the session directory.
pub const STATE_FILE: &'static str = "state.json";

/// Lockfile guarding access to [`STATE_FILE`].
pub const LOCK_FILE: &'static str = ".state.lock";

/// A handle to one session's on-disk state.
#[derive(Debug, Clone)]
pub struct Store {
    session_dir: String,
}

/// The revision after one more write: one more, wrapping around at the end of
/// the range.
pub open spec fn next_rev(rev: u64) -> u64 {
    if rev == u64::MAX {
        0
    } else {
        (rev + 1) as u64
    }
}

impl Store {
    pub closed spec fn spec_session_dir(&self) -> Seq<char> {
        self.session_dir@
    }

    pub fn new(session_dir: String) -> (s: Store)
        ensures
            s.spec_session_dir() == session_dir@,
    {
        Store { session_dir }
    }

    pub fn session_dir(&self) -> (d: &str)
        ensures
            d@ == self.spec_session_dir(),
    {
        self.session_dir.as_str()
    }

    /// `<session dir>/state.json`.
    pub fn state_path(&self) -> (p: String)
        ensures
            p@ == path_join(self.spec_session_dir(), STATE_FILE@),
    {
        join_path(self.session_dir.as_str(), STATE_FILE)
    }

    /// `<session dir>/.state.lock`.
    pub fn lock_path(&self) -> (p: String)
        ensures
            p@ == path_join(self.spec_session_dir(), LOCK_FILE@),
    {
        join_path(self.session_dir.as_str(), LOCK_FILE)
    }

    /// The state to write for an initial `create`: the given state, with its
    /// revision advanced.
    pub fn created(state: State) -> (w: State)
        ensures
            w == (State { rev: next_rev(state.rev), ..state }),
    {
        let mut w = state;
        w.bump_rev();
        w
    }

    /// What a read-modify-write does once the edit has run on the state it
    /// read: `edited` is the state after the edit, `result` what the edit
    /// returned. A successful edit is written with its revision advanced; a
    /// failed one writes nothing. The edit's result is handed back either way.
    pub fn update_outcome<T, E>(edited: State, result: Result<T, E>) -> (r: (
        Option<State>,
        Result<T, E>,
    ))
        ensures
            r.1 == result,
            result is Ok ==> r.0 == Some(State { rev: next_rev(edited.rev), ..edited }),
            result is Err ==> r.0 is None,
    {
        match result {
            Ok(v) => {
                let mut w = edited;
                w.bump_rev();
                (Some(w), Ok(v))
            },
            Err(e) => (None, Err(e)),
        }
    }
}

/// Successive updates never lose a write: after `k` successful updates on a
/// state at revision `r` the revision is `r + k` (modulo 2^64), and a failed
/// update in between changes nothing.
pub proof fn law_revisions_count_writes(state: State, ok_edits: nat)
    ensures
        rev_after(state.rev, ok_edits) == ((state.rev as nat + ok_edits) % 0x1_0000_0000_0000_0000),
    decreases ok_edits,
{
    if ok_edits > 0 {
        law_revisions_count_writes(state, (ok_edits - 1) as nat);
    }
}

/// The revision after `k` writes starting from `rev`.
pub open spec fn rev_after(rev: u64, k: nat) -> u64
    decreases k,
{
    if k == 0 {
        rev
    } else {
        next_rev(rev_after(rev, (k - 1) as nat))
    }
}

} // verus!
