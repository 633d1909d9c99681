//! The command-line surface: every subcommand and its arguments, as plain
//! data. Parsing the command line into these values belongs to the binary.
use vstd::prelude::*;

verus! {

/// A parsed command line.
#[derive(Debug, Clone)]
pub struct Cli {
    pub command: Command,
}

#[derive(Debug, Clone)]
pub enum Command {
    /// Start a co-review session: check out the PR, lay out the Herdr split,
    /// launch the agent (left) and the navigator (right).
    Start(StartArgs),
    /// Run the findings navigator TUI (normally launched into the right pane by
    /// `start`; you can also run it standalone against a session).
    View(SessionArgs),
    /// [agent] Record a review finding.
    AddFinding(AddFindingArgs),
    /// [agent] Bulk-import findings from a JSON array (`-` reads stdin).
    Import(ImportArgs),
    /// List findings (human-readable, or `--json` for the full state).
    List(ListArgs),
    /// Show a single finding together with its related code.
    Show(ShowArgs),
    /// Set a finding's verdict (approved/dismissed/discuss/edited/pending).
    Verdict(VerdictArgs),
    /// [agent] Block until every finding has a verdict.
    Wait(WaitArgs),
    /// Post approved findings to GitHub as inline review comments (fallback for
    /// the agent; requires a GitHub token).
    Post(PostArgs),
    /// [agent] Record that a finding has been posted.
    MarkPosted(MarkPostedArgs),
    /// Set the review lifecycle status.
    SetStatus(SetStatusArgs),
    /// Print a short status summary for a session.
    Status(SessionArgs),
    /// Print the agent protocol reference.
    Protocol,
    /// Print the default review prompt (with placeholders unfilled).
    Prompt,
    /// Diagnose the environment (git, herdr, token, config).
    Doctor,
}

/// Selects which session a command operates on.
#[derive(Debug, Clone, Default)]
pub struct SessionArgs {
    /// Path to the session directory. Defaults to $CO_REVIEW_SESSION, or the sole
    /// existing session.
    pub session: Option<String>,
}

#[derive(Debug, Clone)]
pub struct StartArgs {
    /// The pull request: `123`, `#123`, `owner/repo#123`, or a full GitHub URL.
    /// When launched from Herdr's link handler it may be left out.
    pub pr: Option<String>,
    /// Agent to drive the review (must exist in config). Defaults to config's
    /// `default_agent`.
    pub agent: Option<String>,
    /// Override the review prompt handed to the agent.
    pub prompt: Option<String>,
    /// Read the review prompt from a file (`-` for stdin).
    pub prompt_file: Option<String>,
    /// Print the Herdr commands instead of running them (implies no real panes).
    pub dry_run: bool,
    /// Don't launch the agent pane; only prepare the worktree and navigator.
    pub no_agent: bool,
    /// Reuse an existing session/worktree for this PR instead of erroring.
    pub resume: bool,
}

#[derive(Debug, Clone)]
pub struct AddFindingArgs {
    pub session: SessionArgs,
    /// Short title.
    pub title: String,
    /// Severity: critical|high|medium|low|nit.
    pub severity: String,
    /// Free-text category (e.g. correctness, security, simplification).
    pub category: Option<String>,
    /// A location `path:line` or `path:start-end` (with optional `@base`).
    /// Repeatable.
    pub locations: Vec<String>,
    /// Markdown body.
    pub body: Option<String>,
    /// Read the body from a file (`-` for stdin). Overrides --body.
    pub body_file: Option<String>,
    /// A concrete suggested replacement.
    pub suggestion: Option<String>,
}

#[derive(Debug, Clone)]
pub struct ImportArgs {
    pub session: SessionArgs,
    /// JSON file containing an array of findings (`-` reads stdin).
    pub file: String,
}

#[derive(Debug, Clone)]
pub struct ListArgs {
    pub session: SessionArgs,
    /// Print the full session state as JSON.
    pub json: bool,
    /// Only show findings with this verdict.
    pub verdict: Option<String>,
}

#[derive(Debug, Clone)]
pub struct ShowArgs {
    pub session: SessionArgs,
    /// Finding id (e.g. `f3`).
    pub id: String,
    /// Print as JSON.
    pub json: bool,
}

#[derive(Debug, Clone)]
pub struct VerdictArgs {
    pub session: SessionArgs,
    /// Finding id (e.g. `f3`).
    pub id: String,
    /// Verdict label, such as `approved` or `pending`.
    pub verdict: String,
    /// Attach or replace the human note shown to the agent.
    pub note: Option<String>,
}

#[derive(Debug, Clone)]
pub struct WaitArgs {
    pub session: SessionArgs,
    /// Give up after this many milliseconds (0 = wait forever).
    pub timeout: u64,
    /// Poll interval in milliseconds.
    pub interval: u64,
}

#[derive(Debug, Clone)]
pub struct PostArgs {
    pub session: SessionArgs,
    /// Show what would be posted without calling GitHub.
    pub dry_run: bool,
}

#[derive(Debug, Clone)]
pub struct MarkPostedArgs {
    pub session: SessionArgs,
    /// Finding id.
    pub id: String,
    /// The URL of the posted comment.
    pub url: Option<String>,
}

#[derive(Debug, Clone)]
pub struct SetStatusArgs {
    pub session: SessionArgs,
    /// One of: reviewing, awaiting_review, posting, done.
    pub status: String,
}

} // verus!
