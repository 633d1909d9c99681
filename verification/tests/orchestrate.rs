use co_review::orchestrate::{env_prefixed, plan_layout};

#[test]
fn env_prefix_targets_session_and_binary_dir() {
    let out = env_prefixed(
        "/s/dir",
        "/plug/bin/co-review",
        "/usr/bin:/bin",
        &vec!["mytool".into(), "hi".into()],
    );
    assert_eq!(out[0], "env");
    assert_eq!(out[1], "CO_REVIEW_SESSION=/s/dir");
    assert!(
        out[2].starts_with("PATH=/plug/bin:"),
        "agent pane must find the launching binary on PATH: {:?}",
        out[2]
    );
    assert_eq!(out[3], "mytool");
    assert_eq!(out[4], "hi");
}

#[test]
fn env_prefix_skips_path_for_bare_binary_name() {
    // A relative fallback like plain "co-review" has no usable directory.
    let out = env_prefixed("/s", "co-review", "/usr/bin", &vec!["x".into()]);
    assert!(!out.iter().any(|a| a.starts_with("PATH=")));
}

#[test]
fn plan_has_env_prefixed_view_and_agent() {
    let plan = plan_layout(
        "/usr/bin/co-review",
        "/s/dir",
        "/w/tree",
        "co-review o/r#1",
        Some(&vec!["mytool".to_string(), "prompt text".to_string()]),
        "/usr/bin:/bin",
    );
    assert_eq!(plan.worktree, "/w/tree");
    assert!(plan.view_argv.contains(&"view".to_string()));
    assert_eq!(plan.view_argv[0], "env");
    assert!(plan.view_argv.iter().any(|a| a == "CO_REVIEW_SESSION=/s/dir"));
    let agent = plan.agent_argv.unwrap();
    assert_eq!(agent[0], "env");
    assert!(agent.contains(&"mytool".to_string()));
    assert!(agent.contains(&"prompt text".to_string()));
}

#[test]
fn plan_without_agent() {
    let plan = plan_layout("/b", "/s", "/w", "l", None, "");
    assert!(plan.agent_argv.is_none());
}

use co_review::model::PrInfo;
use co_review::orchestrate::{
    base_branch_candidates, checkout_rev, dry_run_report, fetch_remote, fetches_base,
    git_only_pr_info, manual_fallback, may_start, pr_argument, pr_display, pr_html_url,
    resolve_pr_ref, resolve_pr_ref_outside_repo, session_exists_message, session_label,
    usable_merge_base, StartError, WorktreeStep, worktree_step,
};
use co_review::pr::PrError;

fn pr_info(head_sha: &str, base_ref: &str) -> PrInfo {
    PrInfo {
        owner: "o".into(),
        repo: "r".into(),
        number: 9,
        title: String::new(),
        author: String::new(),
        base_ref: base_ref.into(),
        head_ref: String::new(),
        base_sha: String::new(),
        head_sha: head_sha.into(),
        url: String::new(),
    }
}

#[test]
fn pr_argument_prefers_the_command_line() {
    assert_eq!(pr_argument(Some("12"), Some("https://x")), Ok("12".to_string()));
    assert_eq!(pr_argument(None, Some("https://x")), Ok("https://x".to_string()));
    assert_eq!(pr_argument(None, None), Err(StartError::NoPullRequest));
    assert_eq!(
        StartError::NoPullRequest.message(),
        "no pull request given. Pass one, e.g. `co-review start 123`."
    );
}

#[test]
fn resolving_owner_and_repo() {
    assert_eq!(
        resolve_pr_ref("a/b#3", None),
        Ok(("a".to_string(), "b".to_string(), 3))
    );
    assert_eq!(
        resolve_pr_ref("3", Some("git@github.com:o/r.git")),
        Ok(("o".to_string(), "r".to_string(), 3))
    );
    assert_eq!(resolve_pr_ref("3", None), Err(StartError::NoOrigin));
    let e = resolve_pr_ref("3", Some("https://gitlab.com/x/y")).unwrap_err();
    assert_eq!(e, StartError::NotGithub("https://gitlab.com/x/y".into()));
    assert_eq!(
        e.message(),
        "origin remote 'https://gitlab.com/x/y' is not a github.com repo; pass owner/repo#123"
    );
    let e = resolve_pr_ref("zzz", None).unwrap_err();
    assert_eq!(e, StartError::BadReference(PrError::NoNumber("zzz".into())));
    assert_eq!(e.message(), "could not parse a PR number from 'zzz'");
    assert_eq!(
        StartError::NoOrigin.message(),
        "could not determine owner/repo: pass owner/repo#123 or run inside the repo"
    );
}

#[test]
fn resolving_outside_a_repository() {
    assert_eq!(
        resolve_pr_ref_outside_repo("o/r#4"),
        Ok(("o".to_string(), "r".to_string(), 4))
    );
    let e = resolve_pr_ref_outside_repo("#4").unwrap_err();
    assert_eq!(e, StartError::NeedsOwnerRepo("#4".into(), 4));
    assert_eq!(e.message(), "'#4' needs an owner/repo (run inside the repo, or pass owner/repo#4)");
}

#[test]
fn fetch_remote_choice() {
    assert_eq!(fetch_remote(None, "o", "r"), "origin");
    assert_eq!(fetch_remote(Some("/srv/mirror.git"), "o", "r"), "origin");
    assert_eq!(fetch_remote(Some("git@github.com:O/R.git"), "o", "r"), "origin");
    assert_eq!(
        fetch_remote(Some("git@github.com:other/thing.git"), "o", "r"),
        "https://github.com/o/r.git"
    );
}

#[test]
fn small_decisions() {
    assert_eq!(checkout_rev(&pr_info("", "")), "refs/co-review/pr-9");
    assert_eq!(checkout_rev(&pr_info("abc", "")), "abc");
    assert_eq!(session_label("o", "r", 9), "co-review o/r#9");
    assert_eq!(pr_display(9), "#9");
    assert!(may_start(false, false));
    assert!(may_start(true, true));
    assert!(!may_start(true, false));
    assert!(fetches_base(&pr_info("", "main")));
    assert!(!fetches_base(&pr_info("", "")));
    assert_eq!(base_branch_candidates(), vec!["origin/HEAD", "origin/main", "origin/master"]);
    assert_eq!(
        session_exists_message("o", "r", 9, "/s"),
        "a co-review session for o/r#9 already exists at /s.\nPass --resume to reuse it, or delete that directory to start fresh."
    );
}

#[test]
fn worktree_steps() {
    let pr = pr_info("abc", "");
    assert_eq!(worktree_step(&pr, false, false), WorktreeStep::Add("abc".into()));
    assert_eq!(worktree_step(&pr, false, true), WorktreeStep::Add("abc".into()));
    assert_eq!(worktree_step(&pr, true, false), WorktreeStep::Recreate("abc".into()));
    assert_eq!(worktree_step(&pr, true, true), WorktreeStep::CheckoutInPlace("abc".into()));
    assert_eq!(
        worktree_step(&pr_info("", ""), true, true),
        WorktreeStep::CheckoutInPlace("refs/co-review/pr-9".into())
    );
}

#[test]
fn metadata_from_git_alone() {
    assert_eq!(pr_html_url("o", "r", 5), "https://github.com/o/r/pull/5");
    let pr = git_only_pr_info("o", "r", 5, "h1".into(), "b1".into());
    assert_eq!(pr.head_ref, "refs/co-review/pr-5");
    assert_eq!(pr.head_sha, "h1");
    assert_eq!(pr.base_sha, "b1");
    assert_eq!(pr.url, "https://github.com/o/r/pull/5");
    assert!(pr.title.is_empty() && pr.author.is_empty() && pr.base_ref.is_empty());
}

#[test]
fn dry_run_lists_every_step() {
    let plan = plan_layout(
        "/usr/bin/co-review",
        "/s",
        "/w",
        "co-review o/r#9",
        Some(&vec!["mytool".to_string(), "say \"hi\"".to_string()]),
        "/bin",
    );
    let text = dry_run_report("o", "r", 9, "mytool", "PROMPT", "/repo", "/s", &plan);
    let view = plan.view_argv.join(" ");
    let agent = plan.agent_argv.as_ref().unwrap().join(" ");
    let want = format!(
        "# co-review start — dry run (no side effects)\n\n\
PR:        o/r#9\n\
agent:     mytool\n\
repo:      /repo\n\
session:   /s\n\
worktree:  /w\n\
\n## git (would run)\n\
git fetch --no-tags origin pull/9/head:refs/co-review/pr-9\n\
git worktree add --detach --force /w <pr-head>\n\
\n## herdr (would run)\n\
herdr workspace create --cwd /w --label {:?}\n\
herdr pane split <w:p1> --direction right --cwd /w --no-focus\n\
herdr pane run <w:p2> {:?}\n\
herdr pane run <w:p1> {:?}\n\
\n## prompt handed to the agent\n\n\
PROMPT\n",
        "co-review o/r#9", view, agent
    );
    assert_eq!(text, want);
    let no_agent = plan_layout("/usr/bin/co-review", "/s", "/w", "l", None, "/bin");
    let text = dry_run_report("o", "r", 9, "mytool", "P", "/repo", "/s", &no_agent);
    assert!(text.contains("(--no-agent: left pane left as a shell)\n"));
    assert!(!text.contains("herdr pane run <w:p1>"));
}

#[test]
fn manual_fallback_instructions() {
    let plan = plan_layout("/b/co-review", "/s", "/w", "l", Some(&vec!["mytool".to_string()]), "/bin");
    let text = manual_fallback(&plan, "herdr not found");
    assert_eq!(
        text,
        [
            "\nwarning: couldn't set up the Herdr split automatically (herdr not found).\n",
            "The worktree and session are ready — open two panes yourself:\n",
            "  1. cd /w\n",
            "  2. navigator: env CO_REVIEW_SESSION=/s PATH=/b:/bin /b/co-review view --session /s\n",
            "  3. agent:     env CO_REVIEW_SESSION=/s PATH=/b:/bin mytool\n",
        ]
        .concat()
    );
    let plan = plan_layout("co-review", "/s", "/w", "l", None, "/bin");
    let text = manual_fallback(&plan, "x");
    assert!(text.ends_with("  2. navigator: env CO_REVIEW_SESSION=/s co-review view --session /s\n  3. (start your agent in the other pane)\n"));
}

#[test]
fn merge_base_attempts_need_a_sha() {
    assert_eq!(usable_merge_base(Some("abc123".into())), Some("abc123".to_string()));
    assert_eq!(usable_merge_base(Some(String::new())), None);
    assert_eq!(usable_merge_base(None), None);
}

#[test]
fn root_level_binary_puts_root_on_path() {
    let out = env_prefixed("/s", "/co-review", "/bin", &vec![]);
    assert_eq!(out, vec!["env", "CO_REVIEW_SESSION=/s", "PATH=/:/bin"]);
    let out = env_prefixed("/s", "/a/../b/co-review", "/bin", &vec![]);
    assert_eq!(out[2], "PATH=/a/../b:/bin");
}
