//! The decisions behind `co-review start <pr>`.
//!
//! `start` resolves the PR, checks it out into an isolated worktree, writes the
//! session state, and asks Herdr to lay out the split-screen: the agent in the
//! left pane and the navigator (`co-review view`) in the right pane. This
//! module holds what `start` decides along the way: which PR and repository,
//! which remote to fetch from, which revision to check out, and the exact
//! command lines of the two panes.
use vstd::prelude::*;

use crate::git::{pr_head_ref, pr_head_refspec, spec_pr_head_ref, spec_pr_head_refspec};
use crate::herdr::{join, join_strings, shell_join, shell_line};
use crate::model::PrInfo;
use crate::pr::{self, github_remote, parse_spec, PrError, PrErrorView, PrRefView};
use crate::text::{
    append_chars, chars_of, decimal, decimal_of, eq_ignore_case, lower, push_str, push_string,
    str_views, string_of,
};

verus! {

/// Environment variable that points every `co-review` command at a session.
pub const SESSION_ENV: &'static str = "CO_REVIEW_SESSION";

/// The concrete plan for laying out the Herdr panes. Pure data so it can be
/// unit-tested and printed for `--dry-run`.
#[derive(Debug, Clone, PartialEq, Eq)]
pub struct LayoutPlan {
    pub label: String,
    pub worktree: String,
    /// argv for the agent pane, env-prefixed; `None` with `--no-agent`.
    pub agent_argv: Option<Vec<String>>,
    /// argv for the navigator pane, env-prefixed.
    pub view_argv: Vec<String>,
}

/// Why `start` cannot go on.
#[derive(Debug, Clone, PartialEq, Eq)]
pub enum StartError {
    /// No pull request was given, on the command line or by the plugin.
    NoPullRequest,
    /// The PR reference did not parse.
    BadReference(PrError),
    /// The reference names no owner/repo and the repository has no `origin`.
    NoOrigin,
    /// The `origin` remote (given) is not a github.com repository.
    NotGithub(String),
    /// Outside a repository, the reference (given, with the number it names)
    /// has no owner/repo.
    NeedsOwnerRepo(String, u64),
}

/// The message shown for a [`StartError`].
pub open spec fn start_error_message(e: StartError) -> Seq<char> {
    match e {
        StartError::NoPullRequest => "no pull request given. Pass one, e.g. `co-review start 123`."@,
        StartError::BadReference(p) => pr::pr_error_message(p@),
        StartError::NoOrigin => "could not determine owner/repo: pass owner/repo#123 or run inside the repo"@,
        StartError::NotGithub(url) => "origin remote '"@ + url@
            + "' is not a github.com repo; pass owner/repo#123"@,
        StartError::NeedsOwnerRepo(arg, n) => "'"@ + arg@
            + "' needs an owner/repo (run inside the repo, or pass owner/repo#"@ + decimal(n as nat)
            + ")"@,
    }
}

impl StartError {
    /// The human-readable message for this error.
    pub fn message(&self) -> (m: String)
        ensures
            m@ == start_error_message(*self),
    {
        match self {
            StartError::NoPullRequest => "no pull request given. Pass one, e.g. `co-review start 123`.".to_owned(),
            StartError::BadReference(p) => p.message(),
            StartError::NoOrigin => "could not determine owner/repo: pass owner/repo#123 or run inside the repo".to_owned(),
            StartError::NotGithub(url) => {
                let mut v = chars_of("origin remote '");
                push_str(&mut v, url.as_str());
                push_str(&mut v, "' is not a github.com repo; pass owner/repo#123");
                string_of(&v)
            },
            StartError::NeedsOwnerRepo(arg, n) => {
                let mut v = chars_of("'");
                push_str(&mut v, arg.as_str());
                push_str(&mut v, "' needs an owner/repo (run inside the repo, or pass owner/repo#");
                append_chars(&mut v, &decimal_of(*n));
                push_str(&mut v, ")");
                string_of(&v)
            },
        }
    }
}

/// `Path::parent`: the path without its final component; `Some("")` for a
/// relative path of one component, `None` for a root or an empty path.
pub uninterp spec fn path_parent(p: Seq<char>) -> Option<Seq<char>>;

/// The index of the last `/` in `p`, or -1.
pub open spec fn last_slash(p: Seq<char>) -> int
    decreases p.len(),
{
    if p.len() == 0 {
        -1
    } else if p.last() == '/' {
        p.len() - 1
    } else {
        last_slash(p.drop_last())
    }
}

/// A path whose `/`-separated parts are its components as `Path` reads
/// them: not empty, no `/` at its end, no two `/` in a row, and no `.`
/// component (which `Path` normalizes away).
pub open spec fn plain_path(p: Seq<char>) -> bool {
    &&& p.len() > 0
    &&& p.last() != '/'
    &&& forall|i: int| 0 <= i < p.len() - 1 ==> !(#[trigger] p[i] == '/' && p[i + 1] == '/')
    &&& forall|i: int|
        0 <= i < p.len() ==> (#[trigger] p[i] == '.' ==> (i > 0 && p[i - 1] != '/') || (i + 1 < p.len()
            && p[i + 1] != '/'))
}

proof fn lemma_last_slash(p: Seq<char>)
    ensures
        -1 <= last_slash(p) < p.len(),
        last_slash(p) >= 0 ==> p[last_slash(p)] == '/',
        p.len() > 0 && p[0] == '/' ==> last_slash(p) >= 0,
    decreases p.len(),
{
    if p.len() > 0 && p.last() != '/' {
        lemma_last_slash(p.drop_last());
        if p[0] == '/' {
            assert(p.drop_last()[0] == '/');
        }
    }
}

/// What precedes the last `/` of an absolute path starts at the root.
proof fn lemma_before_last_slash_absolute(p: Seq<char>)
    requires
        is_absolute(p),
    ensures
        is_absolute(before_last_slash(p)),
{
    reveal_strlit("/");
    lemma_last_slash(p);
}

/// Everything before the last `/` of `p`; the root `/` itself when that is
/// the first character.
pub open spec fn before_last_slash(p: Seq<char>) -> Seq<char> {
    if last_slash(p) == 0 {
        "/"@
    } else {
        p.take(last_slash(p))
    }
}

/// Calls `std::path::Path::parent` on `p`. The contract claims that the
/// result is a function of `p` (named [`path_parent`]) and the cases that
/// the documentation of `parent` and `components` spells out: the empty path
/// has no parent; a relative path of one component (here: no `/`) has the
/// empty path as its parent; and a path whose `/`-separated parts are its
/// components (see [`plain_path`]) loses its final component, leaving what
/// precedes its last `/` (the root `/` for `/name`). What repeated or
/// trailing separators and `.` components give is left unstated.
#[verifier::external_body]
fn parent_of(p: &str) -> (r: Option<String>)
    ensures
        match r {
            Some(d) => path_parent(p@) == Some(d@),
            None => path_parent(p@) is None,
        },
        p@.len() == 0 ==> r is None,
        p@.len() > 0 && no_separator(p@) ==> r is Some && r->0@.len() == 0,
        plain_path(p@) && !no_separator(p@) ==> r is Some && r->0@ == before_last_slash(p@),
{
    std::path::Path::new(p).parent().map(|d| d.to_string_lossy().into_owned())
}

/// The path has no `/`: on Unix, a single component.
pub open spec fn no_separator(p: Seq<char>) -> bool {
    forall|i: int| 0 <= i < p.len() ==> p[i] != '/'
}

/// `Path::is_absolute` on Unix: the path starts at the root `/`.
pub open spec fn is_absolute(p: Seq<char>) -> bool {
    p.len() > 0 && p[0] == '/'
}

/// The `env` prefix of a pane's command line.
pub open spec fn env_prefix(session_dir: Seq<char>, self_bin: Seq<char>, path_var: Seq<char>) -> Seq<
    Seq<char>,
> {
    let head = seq!["env"@, SESSION_ENV@ + "="@ + session_dir];
    match path_parent(self_bin) {
        Some(dir) if is_absolute(dir) => head.push("PATH="@ + dir + ":"@ + path_var),
        _ => head,
    }
}

/// Prefix an argv with `env CO_REVIEW_SESSION=<dir> PATH=<bindir>:<PATH>` so
/// the process — and every `co-review` command it spawns — targets this session
/// without `--session`, and finds the *bare* `co-review` the prompt and
/// protocol tell the agent to run even when the binary is not otherwise on
/// PATH (e.g. it is the Herdr plugin's private copy under the plugin root).
/// `path_var` is the current value of `PATH`. A bare binary name (no `/`)
/// has no directory to put on `PATH`, so then only the session is named.
pub fn env_prefixed(session_dir: &str, self_bin: &str, path_var: &str, argv: &Vec<String>) -> (out:
    Vec<String>)
    ensures
        str_views(out@) == env_prefix(session_dir@, self_bin@, path_var@) + str_views(argv@),
        self_bin@.len() > 0 && no_separator(self_bin@) ==> str_views(out@) == seq!["env"@, SESSION_ENV@ + "="@ + session_dir@] + str_views(
            argv@,
        ),
        plain_path(self_bin@) && is_absolute(self_bin@) ==> str_views(out@) == seq![
            "env"@,
            SESSION_ENV@ + "="@ + session_dir@,
            "PATH="@ + before_last_slash(self_bin@) + ":"@ + path_var@,
        ] + str_views(argv@),
{
    let mut out: Vec<String> = Vec::new();
    push_string(&mut out, "env".to_owned());
    let mut var = chars_of(SESSION_ENV);
    push_str(&mut var, "=");
    push_str(&mut var, session_dir);
    push_string(&mut out, string_of(&var));
    let ghost head = str_views(out@);
    proof {
        if is_absolute(self_bin@) {
            lemma_before_last_slash_absolute(self_bin@);
            assert(!no_separator(self_bin@)) by {
                assert(self_bin@[0] == '/');
            }
        }
    }
    match parent_of(self_bin) {
        Some(dir) => {
            if starts_at_root(dir.as_str()) {
                let mut p = chars_of("PATH=");
                push_str(&mut p, dir.as_str());
                push_str(&mut p, ":");
                push_str(&mut p, path_var);
                push_string(&mut out, string_of(&p));
            }
        },
        None => {},
    }
    let ghost pre = str_views(out@);
    assert(pre =~= env_prefix(session_dir@, self_bin@, path_var@));
    let mut i: usize = 0;
    while i < argv.len()
        invariant
            i <= argv.len(),
            str_views(out@) == pre + str_views(argv@.take(i as int)),
        decreases argv.len() - i,
    {
        push_string(&mut out, argv[i].clone());
        proof {
            assert(str_views(argv@.take(i + 1)) =~= str_views(argv@.take(i as int)).push(
                argv@[i as int]@,
            ));
        }
        i = i + 1;
    }
    assert(argv@.take(argv@.len() as int) =~= argv@);
    out
}

/// Whether a non-empty path starts at the root.
fn starts_at_root(p: &str) -> (r: bool)
    ensures
        r == (p@.len() > 0 && p@[0] == '/'),
{
    let v = chars_of(p);
    v.len() > 0 && v[0] == '/'
}

/// The navigator's command line before the `env` prefix.
pub open spec fn view_command(self_bin: Seq<char>, session_dir: Seq<char>) -> Seq<Seq<char>> {
    seq![self_bin, "view"@, "--session"@, session_dir]
}

/// Build the layout plan. `self_bin` is the absolute path to the co-review
/// binary to invoke inside the panes; `path_var` is the current `PATH`.
pub fn plan_layout(
    self_bin: &str,
    session_dir: &str,
    worktree: &str,
    label: &str,
    agent_command: Option<&Vec<String>>,
    path_var: &str,
) -> (plan: LayoutPlan)
    ensures
        plan.label@ == label@,
        plan.worktree@ == worktree@,
        str_views(plan.view_argv@) == env_prefix(session_dir@, self_bin@, path_var@) + view_command(
            self_bin@,
            session_dir@,
        ),
        match agent_command {
            Some(cmd) => plan.agent_argv matches Some(a) && str_views(a@) == env_prefix(
                session_dir@,
                self_bin@,
                path_var@,
            ) + str_views(cmd@),
            None => plan.agent_argv is None,
        },
{
    let mut view: Vec<String> = Vec::new();
    push_string(&mut view, self_bin.to_owned());
    push_string(&mut view, "view".to_owned());
    push_string(&mut view, "--session".to_owned());
    push_string(&mut view, session_dir.to_owned());
    assert(str_views(view@) =~= view_command(self_bin@, session_dir@));
    let view_argv = env_prefixed(session_dir, self_bin, path_var, &view);
    let agent_argv = match agent_command {
        Some(cmd) => Some(env_prefixed(session_dir, self_bin, path_var, cmd)),
        None => None,
    };
    LayoutPlan { label: label.to_owned(), worktree: worktree.to_owned(), agent_argv, view_argv }
}

/// The PR reference to act on: the one given on the command line, or — when
/// launched from Herdr's GitHub-PR link handler — the clicked URL.
pub fn pr_argument(pr: Option<&str>, clicked_url: Option<&str>) -> (r: Result<String, StartError>)
    ensures
        match (pr, clicked_url) {
            (Some(p), _) => r matches Ok(s) && s@ == p@,
            (None, Some(u)) => r matches Ok(s) && s@ == u@,
            (None, None) => r == Err::<String, StartError>(StartError::NoPullRequest),
        },
{
    match pr {
        Some(p) => Ok(p.to_owned()),
        None => match clicked_url {
            Some(u) => Ok(u.to_owned()),
            None => Err(StartError::NoPullRequest),
        },
    }
}

/// How the owner, repository and number of the PR to review are resolved.
pub enum ResolvedView {
    Found(Seq<char>, Seq<char>, u64),
    BadReference(PrErrorView),
    NoOrigin,
    NotGithub(Seq<char>),
    NeedsOwnerRepo(Seq<char>, u64),
}

/// What [`resolve_pr_ref`] decides: a full reference names its repository;
/// a bare number takes owner and repo from the `origin` remote's URL.
pub open spec fn resolution(pr_arg: Seq<char>, origin_url: Option<Seq<char>>) -> ResolvedView {
    match parse_spec(pr_arg) {
        Err(e) => ResolvedView::BadReference(e),
        Ok(r) => match (r.owner, r.repo) {
            (Some(o), Some(p)) => ResolvedView::Found(o, p, r.number),
            _ => match origin_url {
                None => ResolvedView::NoOrigin,
                Some(url) => match github_remote(url) {
                    Some((o, p)) => ResolvedView::Found(o, p, r.number),
                    None => ResolvedView::NotGithub(url),
                },
            },
        },
    }
}

pub open spec fn resolved_view(r: Result<(String, String, u64), StartError>) -> ResolvedView {
    match r {
        Ok((o, p, n)) => ResolvedView::Found(o@, p@, n),
        Err(StartError::BadReference(e)) => ResolvedView::BadReference(e@),
        Err(StartError::NotGithub(u)) => ResolvedView::NotGithub(u@),
        Err(StartError::NeedsOwnerRepo(a, n)) => ResolvedView::NeedsOwnerRepo(a@, n),
        Err(_) => ResolvedView::NoOrigin,
    }
}

/// Resolve owner/repo/number from the CLI reference and the URL of the
/// surrounding repository's `origin` remote (`None` when it has none).
pub fn resolve_pr_ref(pr_arg: &str, origin_url: Option<&str>) -> (r: Result<
    (String, String, u64),
    StartError,
>)
    ensures
        resolved_view(r) == resolution(pr_arg@, match origin_url {
            Some(u) => Some(u@),
            None => None,
        }),
        r matches Err(e) ==> e != StartError::NoPullRequest,
{
    let pref = match pr::parse(pr_arg) {
        Ok(p) => p,
        Err(e) => return Err(StartError::BadReference(e)),
    };
    match (pref.owner, pref.repo) {
        (Some(o), Some(p)) => Ok((o, p, pref.number)),
        _ => match origin_url {
            None => Err(StartError::NoOrigin),
            Some(url) => match pr::parse_github_remote(url) {
                Some((o, p)) => Ok((o, p, pref.number)),
                None => Err(StartError::NotGithub(url.to_owned())),
            },
        },
    }
}

/// The remote URL of a GitHub repository.
pub open spec fn github_clone_url(owner: Seq<char>, repo: Seq<char>) -> Seq<char> {
    "https://github.com/"@ + owner + "/"@ + repo + ".git"@
}

/// What [`fetch_remote`] picks: `origin`, unless its URL names a *different*
/// GitHub repository (compared ignoring ASCII case), in which case the PR's
/// own GitHub URL.
pub open spec fn fetch_remote_spec(origin_url: Option<Seq<char>>, owner: Seq<char>, repo: Seq<char>) -> Seq<
    char,
> {
    let differs = match origin_url {
        Some(u) => match github_remote(u) {
            Some((o, r)) => !(lower(o) == lower(owner) && lower(r) == lower(repo)),
            None => false,
        },
        None => false,
    };
    if differs {
        github_clone_url(owner, repo)
    } else {
        "origin"@
    }
}

/// The remote to fetch PR refs from. Normally `origin`; only when origin is
/// recognizably a *different* GitHub repo (e.g. a link handler clicked in a
/// checkout of another repository) fetch from the PR's GitHub URL directly.
/// A non-GitHub origin (local bare repo, self-hosted mirror) stays `origin`.
pub fn fetch_remote(origin_url: Option<&str>, owner: &str, repo: &str) -> (r: String)
    ensures
        r@ == fetch_remote_spec(
            match origin_url {
                Some(u) => Some(u@),
                None => None,
            },
            owner@,
            repo@,
        ),
{
    let differs = match origin_url {
        Some(u) => match pr::parse_github_remote(u) {
            Some((o, r)) => !(eq_ignore_case(&chars_of(o.as_str()), &chars_of(owner))
                && eq_ignore_case(&chars_of(r.as_str()), &chars_of(repo))),
            None => false,
        },
        None => false,
    };
    if differs {
        let mut v = chars_of("https://github.com/");
        push_str(&mut v, owner);
        push_str(&mut v, "/");
        push_str(&mut v, repo);
        push_str(&mut v, ".git");
        string_of(&v)
    } else {
        "origin".to_owned()
    }
}

/// The revision the worktree is checked out at: the PR's head sha, or the
/// local PR head ref when the sha is not known.
pub open spec fn checkout_rev_spec(pr: PrInfo) -> Seq<char> {
    if pr.head_sha@.len() == 0 {
        spec_pr_head_ref(pr.number)
    } else {
        pr.head_sha@
    }
}

/// The revision to check the worktree out at.
pub fn checkout_rev(pr: &PrInfo) -> (r: String)
    ensures
        r@ == checkout_rev_spec(*pr),
{
    if pr.head_sha.as_str().is_empty() {
        pr_head_ref(pr.number)
    } else {
        pr.head_sha.clone()
    }
}

/// The label of the session's Herdr workspace: `co-review owner/repo#N`.
pub fn session_label(owner: &str, repo: &str, number: u64) -> (s: String)
    ensures
        s@ == "co-review "@ + owner@ + "/"@ + repo@ + "#"@ + decimal(number as nat),
{
    let mut v = chars_of("co-review ");
    push_str(&mut v, owner);
    push_str(&mut v, "/");
    push_str(&mut v, repo);
    push_str(&mut v, "#");
    append_chars(&mut v, &decimal_of(number));
    string_of(&v)
}

/// How the prompt names the PR: `#N`.
pub fn pr_display(number: u64) -> (s: String)
    ensures
        s@ == "#"@ + decimal(number as nat),
{
    let mut v = chars_of("#");
    append_chars(&mut v, &decimal_of(number));
    string_of(&v)
}

/// Whether a real run may go on: a session for the PR must not exist yet,
/// unless it is resumed.
pub fn may_start(session_exists: bool, resume: bool) -> (ok: bool)
    ensures
        ok == (!session_exists || resume),
{
    !session_exists || resume
}

/// What [`resolve_pr_ref_outside_repo`] decides: without a repository to ask,
/// only a reference that names its owner and repository resolves.
pub open spec fn resolution_outside_repo(pr_arg: Seq<char>) -> ResolvedView {
    match parse_spec(pr_arg) {
        Err(e) => ResolvedView::BadReference(e),
        Ok(r) => match (r.owner, r.repo) {
            (Some(o), Some(p)) => ResolvedView::Found(o, p, r.number),
            _ => ResolvedView::NeedsOwnerRepo(pr_arg, r.number),
        },
    }
}

/// Resolve owner/repo/number when no surrounding repository was found (as
/// `end` does for a reference given outside any checkout).
pub fn resolve_pr_ref_outside_repo(pr_arg: &str) -> (r: Result<(String, String, u64), StartError>)
    ensures
        resolved_view(r) == resolution_outside_repo(pr_arg@),
        r matches Err(e) ==> e != StartError::NoPullRequest,
{
    let pref = match pr::parse(pr_arg) {
        Ok(p) => p,
        Err(e) => return Err(StartError::BadReference(e)),
    };
    match (pref.owner, pref.repo) {
        (Some(o), Some(p)) => Ok((o, p, pref.number)),
        _ => Err(StartError::NeedsOwnerRepo(pr_arg.to_owned(), pref.number)),
    }
}

/// The message refusing to start over an existing session.
pub open spec fn session_exists_text(owner: Seq<char>, repo: Seq<char>, number: u64, dir: Seq<char>) -> Seq<
    char,
> {
    "a co-review session for "@ + owner + "/"@ + repo + "#"@ + decimal(number as nat)
        + " already exists at "@ + dir
        + ".\nPass --resume to reuse it, or delete that directory to start fresh."@
}

/// Why a real run refuses to start: a session for the PR already exists at
/// `dir` and `--resume` was not given.
pub fn session_exists_message(owner: &str, repo: &str, number: u64, dir: &str) -> (m: String)
    ensures
        m@ == session_exists_text(owner@, repo@, number, dir@),
{
    let mut v = chars_of("a co-review session for ");
    push_str(&mut v, owner);
    push_str(&mut v, "/");
    push_str(&mut v, repo);
    push_str(&mut v, "#");
    append_chars(&mut v, &decimal_of(number));
    push_str(&mut v, " already exists at ");
    push_str(&mut v, dir);
    push_str(&mut v, ".\nPass --resume to reuse it, or delete that directory to start fresh.");
    string_of(&v)
}

// ---------------------------------------------------------------------------
// Dry run and manual fallback
// ---------------------------------------------------------------------------
/// The `Debug` form of a string (`format!("{:?}", s)`).
pub uninterp spec fn debug_str(s: Seq<char>) -> Seq<char>;

/// Formats `s` with `{:?}`, std's `Debug` for `str`: the string in double
/// quotes, with quotes, backslashes and control or non-printable characters
/// escaped. The contract claims only that the result is a function of `s`
/// (named [`debug_str`]); the escaping rules are left unstated.
#[verifier::external_body]
fn debug_quoted(s: &str) -> (r: String)
    ensures
        r@ == debug_str(s@),
{
    format!("{:?}", s)
}

/// The text `start --dry-run` prints: the PR, the places it would use, the
/// git and Herdr commands it would run, and the prompt.
pub open spec fn dry_run_text(
    owner: Seq<char>,
    repo: Seq<char>,
    number: u64,
    agent_name: Seq<char>,
    prompt: Seq<char>,
    repo_root: Seq<char>,
    session_dir: Seq<char>,
    plan: LayoutPlan,
) -> Seq<char> {
    "# co-review start \u{2014} dry run (no side effects)\n\n"@ + "PR:        "@ + owner + "/"@ + repo
        + "#"@ + decimal(number as nat) + "\n"@ + "agent:     "@ + agent_name + "\n"@
        + "repo:      "@ + repo_root + "\n"@ + "session:   "@ + session_dir + "\n"@
        + "worktree:  "@ + plan.worktree@ + "\n"@ + "\n## git (would run)\n"@
        + "git fetch --no-tags origin "@ + spec_pr_head_refspec(number) + "\n"@
        + "git worktree add --detach --force "@ + plan.worktree@ + " <pr-head>\n"@
        + "\n## herdr (would run)\n"@ + "herdr workspace create --cwd "@ + plan.worktree@
        + " --label "@ + debug_str(plan.label@) + "\n"@
        + "herdr pane split <w:p1> --direction right --cwd "@ + plan.worktree@ + " --no-focus\n"@
        + "herdr pane run <w:p2> "@ + debug_str(join(str_views(plan.view_argv@), " "@)) + "\n"@
        + match plan.agent_argv {
        Some(a) => "herdr pane run <w:p1> "@ + debug_str(join(str_views(a@), " "@)) + "\n"@,
        None => "(--no-agent: left pane left as a shell)\n"@,
    } + "\n## prompt handed to the agent\n\n"@ + prompt + "\n"@
}

/// What `start --dry-run` prints instead of doing anything. `repo_root` is
/// the root of the source repository and `session_dir` the session's
/// directory.
pub fn dry_run_report(
    owner: &str,
    repo: &str,
    number: u64,
    agent_name: &str,
    prompt: &str,
    repo_root: &str,
    session_dir: &str,
    plan: &LayoutPlan,
) -> (out: String)
    ensures
        out@ == dry_run_text(
            owner@,
            repo@,
            number,
            agent_name@,
            prompt@,
            repo_root@,
            session_dir@,
            *plan,
        ),
{
    let mut v = chars_of("# co-review start \u{2014} dry run (no side effects)\n\n");
    push_str(&mut v, "PR:        ");
    push_str(&mut v, owner);
    push_str(&mut v, "/");
    push_str(&mut v, repo);
    push_str(&mut v, "#");
    append_chars(&mut v, &decimal_of(number));
    push_str(&mut v, "\n");
    push_str(&mut v, "agent:     ");
    push_str(&mut v, agent_name);
    push_str(&mut v, "\n");
    push_str(&mut v, "repo:      ");
    push_str(&mut v, repo_root);
    push_str(&mut v, "\n");
    push_str(&mut v, "session:   ");
    push_str(&mut v, session_dir);
    push_str(&mut v, "\n");
    push_str(&mut v, "worktree:  ");
    push_str(&mut v, plan.worktree.as_str());
    push_str(&mut v, "\n");
    push_str(&mut v, "\n## git (would run)\n");
    push_str(&mut v, "git fetch --no-tags origin ");
    push_str(&mut v, pr_head_refspec(number).as_str());
    push_str(&mut v, "\n");
    push_str(&mut v, "git worktree add --detach --force ");
    push_str(&mut v, plan.worktree.as_str());
    push_str(&mut v, " <pr-head>\n");
    push_str(&mut v, "\n## herdr (would run)\n");
    push_str(&mut v, "herdr workspace create --cwd ");
    push_str(&mut v, plan.worktree.as_str());
    push_str(&mut v, " --label ");
    push_str(&mut v, debug_quoted(plan.label.as_str()).as_str());
    push_str(&mut v, "\n");
    push_str(&mut v, "herdr pane split <w:p1> --direction right --cwd ");
    push_str(&mut v, plan.worktree.as_str());
    push_str(&mut v, " --no-focus\n");
    push_str(&mut v, "herdr pane run <w:p2> ");
    let view_line = join_strings(&plan.view_argv, " ");
    push_str(&mut v, debug_quoted(view_line.as_str()).as_str());
    push_str(&mut v, "\n");
    match &plan.agent_argv {
        Some(a) => {
            push_str(&mut v, "herdr pane run <w:p1> ");
            let agent_line = join_strings(a, " ");
            push_str(&mut v, debug_quoted(agent_line.as_str()).as_str());
            push_str(&mut v, "\n");
        },
        None => push_str(&mut v, "(--no-agent: left pane left as a shell)\n"),
    }
    push_str(&mut v, "\n## prompt handed to the agent\n\n");
    push_str(&mut v, prompt);
    push_str(&mut v, "\n");
    string_of(&v)
}

/// What to tell the user when the Herdr split could not be made (`err` says
/// why): the session is ready, and how to open the two panes by hand.
pub open spec fn manual_fallback_text(plan: LayoutPlan, err: Seq<char>) -> Seq<char> {
    "\nwarning: couldn't set up the Herdr split automatically ("@ + err + ").\n"@
        + "The worktree and session are ready \u{2014} open two panes yourself:\n"@ + "  1. cd "@
        + plan.worktree@ + "\n"@ + "  2. navigator: "@ + shell_line(str_views(plan.view_argv@))
        + "\n"@ + match plan.agent_argv {
        Some(a) => "  3. agent:     "@ + shell_line(str_views(a@)) + "\n"@,
        None => "  3. (start your agent in the other pane)\n"@,
    }
}

/// The instructions printed when laying out the Herdr panes failed.
pub fn manual_fallback(plan: &LayoutPlan, err: &str) -> (out: String)
    ensures
        out@ == manual_fallback_text(*plan, err@),
{
    let mut v = chars_of("\nwarning: couldn't set up the Herdr split automatically (");
    push_str(&mut v, err);
    push_str(&mut v, ").\n");
    push_str(&mut v, "The worktree and session are ready \u{2014} open two panes yourself:\n");
    push_str(&mut v, "  1. cd ");
    push_str(&mut v, plan.worktree.as_str());
    push_str(&mut v, "\n");
    push_str(&mut v, "  2. navigator: ");
    push_str(&mut v, shell_join(&plan.view_argv).as_str());
    push_str(&mut v, "\n");
    match &plan.agent_argv {
        Some(a) => {
            push_str(&mut v, "  3. agent:     ");
            push_str(&mut v, shell_join(a).as_str());
            push_str(&mut v, "\n");
        },
        None => push_str(&mut v, "  3. (start your agent in the other pane)\n"),
    }
    string_of(&v)
}

// ---------------------------------------------------------------------------
// PR metadata without the GitHub API, and the worktree
// ---------------------------------------------------------------------------
/// The web address of a pull request.
pub open spec fn pr_url(owner: Seq<char>, repo: Seq<char>, number: u64) -> Seq<char> {
    "https://github.com/"@ + owner + "/"@ + repo + "/pull/"@ + decimal(number as nat)
}

/// `https://github.com/<owner>/<repo>/pull/<number>`.
pub fn pr_html_url(owner: &str, repo: &str, number: u64) -> (u: String)
    ensures
        u@ == pr_url(owner@, repo@, number),
{
    let mut v = chars_of("https://github.com/");
    push_str(&mut v, owner);
    push_str(&mut v, "/");
    push_str(&mut v, repo);
    push_str(&mut v, "/pull/");
    append_chars(&mut v, &decimal_of(number));
    string_of(&v)
}

/// The PR metadata learnt from git alone, when the GitHub API is not asked:
/// the head fetched into the local PR ref at `head_sha`, the base
/// approximated by `base_sha` (empty when unknown), and no title, author or
/// base branch.
pub fn git_only_pr_info(owner: &str, repo: &str, number: u64, head_sha: String, base_sha: String) -> (pr:
    PrInfo)
    ensures
        pr.owner@ == owner@,
        pr.repo@ == repo@,
        pr.number == number,
        pr.title@.len() == 0,
        pr.author@.len() == 0,
        pr.base_ref@.len() == 0,
        pr.head_ref@ == spec_pr_head_ref(number),
        pr.base_sha == base_sha,
        pr.head_sha == head_sha,
        pr.url@ == pr_url(owner@, repo@, number),
{
    PrInfo {
        owner: owner.to_owned(),
        repo: repo.to_owned(),
        number,
        title: String::new(),
        author: String::new(),
        base_ref: String::new(),
        head_ref: pr_head_ref(number),
        base_sha,
        head_sha,
        url: pr_html_url(owner, repo, number),
    }
}

/// The remote-tracking branches whose merge-base with the PR head stands in
/// for the PR's base when the GitHub API is not asked, in the order tried.
pub fn base_branch_candidates() -> (v: Vec<String>)
    ensures
        str_views(v@) == seq!["origin/HEAD"@, "origin/main"@, "origin/master"@],
{
    let mut v: Vec<String> = Vec::new();
    push_string(&mut v, "origin/HEAD".to_owned());
    push_string(&mut v, "origin/main".to_owned());
    push_string(&mut v, "origin/master".to_owned());
    assert(str_views(v@) =~= seq!["origin/HEAD"@, "origin/main"@, "origin/master"@]);
    v
}

/// The base sha that one merge-base attempt yields: its output when the
/// command succeeded (`Some`) with a non-empty sha; otherwise the next
/// candidate branch is tried.
pub fn usable_merge_base(out: Option<String>) -> (r: Option<String>)
    ensures
        r == (match out {
            Some(mb) if mb@.len() > 0 => Some(mb),
            _ => None,
        }),
{
    match out {
        Some(mb) => {
            if mb.as_str().is_empty() {
                None
            } else {
                Some(mb)
            }
        },
        None => None,
    }
}

/// What to do with the PR's worktree.
#[derive(Debug, Clone, PartialEq, Eq)]
pub enum WorktreeStep {
    /// Reuse the existing worktree, moving it to the revision.
    CheckoutInPlace(String),
    /// Remove the existing worktree and add it afresh at the revision.
    Recreate(String),
    /// Add the worktree at the revision.
    Add(String),
}

/// How the worktree is prepared: when it exists, a resumed session moves it
/// to the PR's revision in place and a fresh one recreates it clean;
/// otherwise it is added.
pub fn worktree_step(pr: &PrInfo, exists: bool, resume: bool) -> (step: WorktreeStep)
    ensures
        match step {
            WorktreeStep::CheckoutInPlace(r) => exists && resume && r@ == checkout_rev_spec(*pr),
            WorktreeStep::Recreate(r) => exists && !resume && r@ == checkout_rev_spec(*pr),
            WorktreeStep::Add(r) => !exists && r@ == checkout_rev_spec(*pr),
        },
{
    let rev = checkout_rev(pr);
    if exists {
        if resume {
            WorktreeStep::CheckoutInPlace(rev)
        } else {
            WorktreeStep::Recreate(rev)
        }
    } else {
        WorktreeStep::Add(rev)
    }
}

/// Whether preparing the worktree also fetches the PR's base branch (known
/// only from the GitHub API), so diffs against it work.
pub fn fetches_base(pr: &PrInfo) -> (b: bool)
    ensures
        b == (pr.base_ref@.len() > 0),
{
    !pr.base_ref.as_str().is_empty()
}

} // verus!
