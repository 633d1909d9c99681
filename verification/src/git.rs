//! Git operations, done by running the `git` binary.
//!
//! This module decides *what* is asked of git — the exact argument lists, run
//! in the repository directory — and how git's answers are read back. Running
//! the commands is left to the caller.
use vstd::prelude::*;

use crate::text::{
    chars_of, concat3, decimal, decimal_of, append_chars, lines, lines_of, push_str, push_string,
    str_views, string_of, trim_end_set, trim_end_of, views, lemma_views_push, CharSet,
};

verus! {

/// A handle to the source repository co-review reads objects from.
#[derive(Debug, Clone)]
pub struct Git {
    repo: String,
}

/// One invocation of `git`: the arguments, run with `dir` as the working
/// directory.
#[derive(Debug, Clone)]
pub struct GitCommand {
    pub dir: String,
    pub args: Vec<String>,
}

/// `dir/name` for a relative `name`, as `Path::join` forms it: no separator is
/// added after an empty directory or one that already ends in `/`.
pub open spec fn path_join(dir: Seq<char>, name: Seq<char>) -> Seq<char> {
    if dir.len() == 0 || dir.last() == '/' {
        dir + name
    } else {
        dir + "/"@ + name
    }
}

/// `dir.join(name)` for a relative `name`.
pub fn join_path(dir: &str, name: &str) -> (out: String)
    ensures
        out@ == path_join(dir@, name@),
{
    let mut v = chars_of(dir);
    if v.len() == 0 || v[v.len() - 1] == '/' {
        push_str(&mut v, name);
    } else {
        push_str(&mut v, "/");
        push_str(&mut v, name);
    }
    string_of(&v)
}

/// The arguments of a git command.
pub open spec fn args_of(c: GitCommand) -> Seq<Seq<char>> {
    str_views(c.args@)
}

fn args1(a: &str) -> (v: Vec<String>)
    ensures
        str_views(v@) == seq![a@],
{
    let mut v: Vec<String> = Vec::new();
    push_string(&mut v, a.to_owned());
    assert(str_views(v@) =~= seq![a@]);
    v
}

fn args2(a: &str, b: &str) -> (v: Vec<String>)
    ensures
        str_views(v@) == seq![a@, b@],
{
    let mut v = args1(a);
    push_string(&mut v, b.to_owned());
    assert(str_views(v@) =~= seq![a@, b@]);
    v
}

fn args3(a: &str, b: &str, c: &str) -> (v: Vec<String>)
    ensures
        str_views(v@) == seq![a@, b@, c@],
{
    let mut v = args2(a, b);
    push_string(&mut v, c.to_owned());
    assert(str_views(v@) =~= seq![a@, b@, c@]);
    v
}

fn args4(a: &str, b: &str, c: &str, d: &str) -> (v: Vec<String>)
    ensures
        str_views(v@) == seq![a@, b@, c@, d@],
{
    let mut v = args3(a, b, c);
    push_string(&mut v, d.to_owned());
    assert(str_views(v@) =~= seq![a@, b@, c@, d@]);
    v
}

/// The arguments that find the top of the repository containing a directory.
pub fn discover_args() -> (v: Vec<String>)
    ensures
        str_views(v@) == seq!["rev-parse"@, "--show-toplevel"@],
{
    args2("rev-parse", "--show-toplevel")
}

impl Git {
    pub closed spec fn spec_root(&self) -> Seq<char> {
        self.repo@
    }

    pub fn new(repo: String) -> (g: Git)
        ensures
            g.spec_root() == repo@,
    {
        Git { repo }
    }

    /// Discovering the repository containing `cwd`: `git rev-parse
    /// --show-toplevel`, run in `cwd`; its output names the repository root
    /// (see [`Git::discovered`]).
    pub fn discover(cwd: &str) -> (c: GitCommand)
        ensures
            c.dir@ == cwd@,
            args_of(c) == seq!["rev-parse"@, "--show-toplevel"@],
    {
        GitCommand { dir: cwd.to_owned(), args: discover_args() }
    }

    /// The repository whose root `git rev-parse --show-toplevel` printed.
    pub fn discovered(output: &str) -> (g: Git)
        ensures
            g.spec_root() == trim_end_set(output@, CharSet::Whitespace),
    {
        Git::new(captured_text(output))
    }

    pub fn root(&self) -> (r: &str)
        ensures
            r@ == self.spec_root(),
    {
        self.repo.as_str()
    }

    fn command(&self, args: Vec<String>) -> (c: GitCommand)
        ensures
            c.dir@ == self.spec_root(),
            c.args == args,
    {
        GitCommand { dir: self.repo.clone(), args }
    }

    /// `git remote get-url <remote>`: the URL of a remote (default `origin`).
    pub fn remote_url(&self, remote: &str) -> (c: GitCommand)
        ensures
            c.dir@ == self.spec_root(),
            args_of(c) == seq!["remote"@, "get-url"@, remote@],
    {
        self.command(args3("remote", "get-url", remote))
    }

    /// `git fetch --no-tags <remote> <refspec>`, e.g. with
    /// `pull/123/head:refs/co-review/pr-123`.
    pub fn fetch(&self, remote: &str, refspec: &str) -> (c: GitCommand)
        ensures
            c.dir@ == self.spec_root(),
            args_of(c) == seq!["fetch"@, "--no-tags"@, remote@, refspec@],
    {
        self.command(args4("fetch", "--no-tags", remote, refspec))
    }

    /// `git rev-parse <rev>`: resolve a ref to a full commit sha.
    pub fn rev_parse(&self, rev: &str) -> (c: GitCommand)
        ensures
            c.dir@ == self.spec_root(),
            args_of(c) == seq!["rev-parse"@, rev@],
    {
        self.command(args2("rev-parse", rev))
    }

    /// `git worktree add --detach --force <path> <rev>`: a detached worktree at
    /// `path`, checked out to `rev`.
    pub fn add_worktree(&self, path: &str, rev: &str) -> (c: GitCommand)
        ensures
            c.dir@ == self.spec_root(),
            args_of(c) == seq!["worktree"@, "add"@, "--detach"@, "--force"@, path@, rev@],
    {
        let mut v = args4("worktree", "add", "--detach", "--force");
        push_string(&mut v, path.to_owned());
        push_string(&mut v, rev.to_owned());
        assert(str_views(v@) =~= seq!["worktree"@, "add"@, "--detach"@, "--force"@, path@, rev@]);
        self.command(v)
    }

    /// `git checkout --detach <rev>`, run inside the worktree at `worktree`:
    /// moves an existing worktree to `rev`.
    pub fn checkout_detach_in(&self, worktree: &str, rev: &str) -> (c: GitCommand)
        ensures
            c.dir@ == worktree@,
            args_of(c) == seq!["checkout"@, "--detach"@, rev@],
    {
        GitCommand { dir: worktree.to_owned(), args: args3("checkout", "--detach", rev) }
    }

    /// Removing a worktree: `git worktree remove --force <path>` (whose failure
    /// is ignored), then `git worktree prune`.
    pub fn remove_worktree(&self, path: &str) -> (cs: (GitCommand, GitCommand))
        ensures
            cs.0.dir@ == self.spec_root(),
            cs.1.dir@ == self.spec_root(),
            args_of(cs.0) == seq!["worktree"@, "remove"@, "--force"@, path@],
            args_of(cs.1) == seq!["worktree"@, "prune"@],
    {
        (
            self.command(args4("worktree", "remove", "--force", path)),
            self.command(args2("worktree", "prune")),
        )
    }

    /// `git show <rev>:<file>`: the contents of a file at a revision.
    pub fn blob(&self, rev: &str, file: &str) -> (c: GitCommand)
        ensures
            c.dir@ == self.spec_root(),
            args_of(c) == seq!["show"@, rev@ + ":"@ + file@],
    {
        let spec = concat3(rev, ":", file);
        self.command(args2("show", spec.as_str()))
    }

    /// `git diff --no-color <base>..<head> -- <file>`: the unified diff of one
    /// file between two revisions.
    pub fn diff_file(&self, base: &str, head: &str, file: &str) -> (c: GitCommand)
        ensures
            c.dir@ == self.spec_root(),
            args_of(c) == seq!["diff"@, "--no-color"@, base@ + ".."@ + head@, "--"@, file@],
    {
        let range = concat3(base, "..", head);
        let mut v = args3("diff", "--no-color", range.as_str());
        push_string(&mut v, "--".to_owned());
        push_string(&mut v, file.to_owned());
        assert(str_views(v@) =~= seq!["diff"@, "--no-color"@, range@, "--"@, file@]);
        self.command(v)
    }

    /// `git diff --name-only <base>..<head>`: the files changed between two
    /// revisions.
    pub fn changed_files(&self, base: &str, head: &str) -> (c: GitCommand)
        ensures
            c.dir@ == self.spec_root(),
            args_of(c) == seq!["diff"@, "--name-only"@, base@ + ".."@ + head@],
    {
        let range = concat3(base, "..", head);
        self.command(args3("diff", "--name-only", range.as_str()))
    }

    /// `git merge-base <a> <b>`: the effective diff base for a PR.
    pub fn merge_base(&self, a: &str, b: &str) -> (c: GitCommand)
        ensures
            c.dir@ == self.spec_root(),
            args_of(c) == seq!["merge-base"@, a@, b@],
    {
        self.command(args3("merge-base", a, b))
    }

    /// Where a worktree at `path` keeps its git link (`path/.git`), whose
    /// existence tells that the worktree exists.
    pub fn worktree_marker(&self, path: &str) -> (p: String)
        ensures
            p@ == path_join(path@, ".git"@),
    {
        join_path(path, ".git")
    }
}

/// What a successful command printed, as the caller sees it: standard output
/// without trailing whitespace.
pub fn captured_text(stdout: &str) -> (out: String)
    ensures
        out@ == trim_end_set(stdout@, CharSet::Whitespace),
{
    string_of(&trim_end_of(&chars_of(stdout), CharSet::Whitespace))
}

/// The non-empty lines of `s`.
pub open spec fn nonempty_lines(s: Seq<char>) -> Seq<Seq<char>> {
    lines(s).filter(|l: Seq<char>| l.len() > 0)
}

/// The changed files `git diff --name-only` listed: its non-empty lines.
pub fn changed_files_from(output: &str) -> (files: Vec<String>)
    ensures
        str_views(files@) == nonempty_lines(output@),
{
    let ls = lines_of(&chars_of(output));
    let ghost all = views(ls@);
    let mut out: Vec<String> = Vec::new();
    let mut i: usize = 0;
    while i < ls.len()
        invariant
            i <= ls.len(),
            all == views(ls@),
            all == lines(output@),
            str_views(out@) == all.take(i as int).filter(|l: Seq<char>| l.len() > 0),
        decreases ls.len() - i,
    {
        proof {
            reveal_with_fuel(Seq::<_>::filter, 1);
            assert(all.take(i + 1).drop_last() =~= all.take(i as int));
        }
        if ls[i].len() > 0 {
            push_string(&mut out, string_of(&ls[i]));
        }
        i = i + 1;
    }
    assert(all.take(ls@.len() as int) =~= all);
    out
}

/// The file contents `git show` produced: present when git succeeded, absent
/// otherwise (e.g. a newly-added file has no base version).
pub fn blob_from(success: bool, stdout: String) -> (r: Option<String>)
    ensures
        r == if success { Some(stdout) } else { None::<String> },
{
    if success {
        Some(stdout)
    } else {
        None
    }
}

pub open spec fn spec_pr_head_ref(number: u64) -> Seq<char> {
    "refs/co-review/pr-"@ + decimal(number as nat)
}

/// The local ref name co-review uses for a PR head.
pub fn pr_head_ref(number: u64) -> (r: String)
    ensures
        r@ == spec_pr_head_ref(number),
{
    let mut v = chars_of("refs/co-review/pr-");
    append_chars(&mut v, &decimal_of(number));
    string_of(&v)
}

pub open spec fn spec_pr_head_refspec(number: u64) -> Seq<char> {
    "pull/"@ + decimal(number as nat) + "/head:"@ + spec_pr_head_ref(number)
}

/// The refspec that fetches a PR head into [`pr_head_ref`].
pub fn pr_head_refspec(number: u64) -> (r: String)
    ensures
        r@ == spec_pr_head_refspec(number),
{
    let mut v = chars_of("pull/");
    append_chars(&mut v, &decimal_of(number));
    push_str(&mut v, "/head:");
    let head = pr_head_ref(number);
    push_str(&mut v, head.as_str());
    string_of(&v)
}

} // verus!
