use co_review::git::{pr_head_ref, pr_head_refspec};

#[test]
fn refspec_helpers() {
    assert_eq!(pr_head_ref(123), "refs/co-review/pr-123");
    assert_eq!(pr_head_refspec(123), "pull/123/head:refs/co-review/pr-123");
}

use co_review::git::{blob_from, captured_text, changed_files_from, Git};

#[test]
fn command_lines() {
    let g = Git::new("/repo".into());
    assert_eq!(g.root(), "/repo");
    let c = g.fetch("origin", &pr_head_refspec(5));
    assert_eq!(c.dir, "/repo");
    assert_eq!(c.args, vec!["fetch", "--no-tags", "origin", "pull/5/head:refs/co-review/pr-5"]);
    assert_eq!(g.remote_url("origin").args, vec!["remote", "get-url", "origin"]);
    assert_eq!(g.rev_parse("HEAD").args, vec!["rev-parse", "HEAD"]);
    assert_eq!(
        g.add_worktree("/wt", "abc").args,
        vec!["worktree", "add", "--detach", "--force", "/wt", "abc"]
    );
    let (rm, prune) = g.remove_worktree("/wt");
    assert_eq!(rm.args, vec!["worktree", "remove", "--force", "/wt"]);
    assert_eq!(prune.args, vec!["worktree", "prune"]);
    assert_eq!(g.blob("base", "src/a.rs").args, vec!["show", "base:src/a.rs"]);
    assert_eq!(
        g.diff_file("b", "h", "src/a.rs").args,
        vec!["diff", "--no-color", "b..h", "--", "src/a.rs"]
    );
    assert_eq!(g.changed_files("b", "h").args, vec!["diff", "--name-only", "b..h"]);
    assert_eq!(g.merge_base("h", "origin/main").args, vec!["merge-base", "h", "origin/main"]);
    let co = g.checkout_detach_in("/wt", "abc");
    assert_eq!(co.dir, "/wt");
    assert_eq!(co.args, vec!["checkout", "--detach", "abc"]);
    assert_eq!(g.worktree_marker("/wt"), "/wt/.git");
}

#[test]
fn discovery() {
    let c = Git::discover("/some/dir");
    assert_eq!(c.dir, "/some/dir");
    assert_eq!(c.args, vec!["rev-parse", "--show-toplevel"]);
    assert_eq!(Git::discovered("/home/me/repo\n").root(), "/home/me/repo");
}

#[test]
fn reading_outputs() {
    assert_eq!(captured_text("abc123\n\n"), "abc123");
    assert_eq!(captured_text("  keep leading\t\n"), "  keep leading");
    assert_eq!(changed_files_from("a.rs\n\nb/c.rs\n"), vec!["a.rs", "b/c.rs"]);
    assert!(changed_files_from("").is_empty());
    assert_eq!(blob_from(true, "x".into()), Some("x".to_string()));
    assert_eq!(blob_from(false, "fatal: path".into()), None);
}
