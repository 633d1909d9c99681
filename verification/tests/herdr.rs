use co_review::herdr::{agent_list_args, can_bump, env_flag, is_pane_id, HerdrError};
use co_review::herdr::{
    build_pane_run_args, build_pane_split_args, build_workspace_create_args, bump_pane, is_wid,
    parse_agent_state, parse_pane_id, parse_workspace_id, shell_join, shell_quote, workspace_of,
    Direction, Herdr,
};

#[test]
fn shell_quote_leaves_simple_args_bare() {
    assert_eq!(shell_quote("mytool"), "mytool");
    assert_eq!(shell_quote("src/foo.rs:42"), "src/foo.rs:42");
    assert_eq!(shell_quote("--flag=value"), "--flag=value");
}

#[test]
fn shell_quote_wraps_spaces_and_quotes() {
    assert_eq!(shell_quote("hello world"), "'hello world'");
    assert_eq!(shell_quote("it's"), r"'it'\''s'");
    assert_eq!(shell_quote(""), "''");
}

#[test]
fn shell_join_roundtrip() {
    let argv = vec!["mytool".to_string(), "review PR #1".to_string()];
    assert_eq!(shell_join(&argv), "mytool 'review PR #1'");
}

#[test]
fn parses_pane_ids() {
    assert_eq!(parse_pane_id("created w3:p1"), Some("w3:p1".to_string()));
    assert_eq!(parse_pane_id(r#"{"pane":"w12:p4"}"#), Some("w12:p4".to_string()));
    assert_eq!(parse_pane_id("no id here"), None);
    assert!(is_wid("w3"));
    assert!(!is_wid("x3"));
}

#[test]
fn workspace_id_fallback() {
    assert_eq!(parse_workspace_id("created workspace w5"), Some("w5".to_string()));
    assert_eq!(parse_workspace_id(r#"{"workspace":"w7"}"#), Some("w7".to_string()));
    assert_eq!(parse_workspace_id("nothing here"), None);
    // a full pane id should still yield its workspace part
    assert_eq!(parse_workspace_id("w3:p1"), Some("w3".to_string()));
}

#[test]
fn workspace_and_bump() {
    assert_eq!(workspace_of("w3:p1"), "w3");
    assert_eq!(bump_pane("w3:p1"), "w3:p2");
}

#[test]
fn arg_builders() {
    assert_eq!(
        build_workspace_create_args("/tmp/wt", "co-review-1"),
        vec!["workspace", "create", "--cwd", "/tmp/wt", "--label", "co-review-1"]
    );
    assert_eq!(
        build_pane_split_args("w1:p1", Direction::Right, false),
        vec!["pane", "split", "w1:p1", "--direction", "right", "--no-focus"]
    );
    assert_eq!(
        build_pane_run_args("w1:p2", "co-review view"),
        vec!["pane", "run", "w1:p2", "co-review view"]
    );
}

#[test]
fn parses_agent_state_leniently() {
    let listing = "\
w1:p1  mytool   working   PR review
w1:p2  co-review view  idle";
    assert_eq!(parse_agent_state(listing, "w1:p1").as_deref(), Some("working"));
    assert_eq!(parse_agent_state(listing, "w1:p2").as_deref(), Some("idle"));
    assert_eq!(parse_agent_state(listing, "w9:p9"), None);
    assert_eq!(parse_agent_state("no state here for w1:p1", "w1:p1"), None);
}

#[test]
fn dry_run_returns_synthetic_ids() {
    let h = Herdr::configure(Some("herdr".into()), None, true);
    // In dry-run mode nothing runs: the command is only shown.
    let create = build_workspace_create_args("/tmp", "x");
    assert_eq!(h.dry_run_line(&create), "+ herdr workspace create --cwd /tmp --label x");
    let ws = h.workspace_create("").unwrap();
    assert_eq!(ws.first_pane, "w1:p1");
    let split = h.pane_split_args(&ws.first_pane, Direction::Right, false);
    assert_eq!(split, vec!["pane", "split", "w1:p1", "--direction", "right", "--no-focus"]);
    let p2 = h.pane_split(&ws.first_pane, "").unwrap();
    assert_eq!(p2, "w1:p2");
    // these only build the commands in dry-run and must not error
    let run = h.pane_run(&p2, &vec!["co-review".into(), "view".into()]);
    assert_eq!(run, vec!["pane", "run", "w1:p2", "co-review view"]);
    let (text, keys) = h.pane_submit_line(&ws.first_pane, "hello");
    assert_eq!(text, vec!["pane", "send-text", "w1:p1", "hello"]);
    assert_eq!(keys, vec!["pane", "send-keys", "w1:p1", "Enter"]);
}

#[test]
fn bumping_walks_the_panes_of_one_workspace() {
    let mut p = "w7:p1".to_string();
    for k in 2..6 {
        p = bump_pane(&p);
        assert_eq!(p, format!("w7:p{k}"));
        assert_eq!(workspace_of(&p), "w7");
    }
    assert_eq!(bump_pane("w1:p9"), "w1:p10");
    // not a pane id: marked rather than numbered
    assert_eq!(bump_pane("w1"), "w1b");
    assert_eq!(workspace_of("w1"), "w1");
}

#[test]
fn quoting_is_read_back_by_a_shell() {
    // What a POSIX shell makes of the quoted word is the original argument.
    assert_eq!(shell_quote("a b"), "'a b'");
    assert_eq!(shell_quote("'"), r"''\'''");
    assert_eq!(shell_quote("$HOME"), "'$HOME'");
    assert_eq!(shell_join(&vec!["echo".into(), "".into(), "x y".into()]), "echo '' 'x y'");
}

#[test]
fn env_flags_and_configuration() {
    assert!(env_flag(Some("1")));
    assert!(env_flag(Some("yes")));
    assert!(!env_flag(Some("0")));
    assert!(!env_flag(Some(" FALSE ")));
    assert!(!env_flag(Some("no")));
    assert!(!env_flag(Some("")));
    assert!(!env_flag(None));
    let h = Herdr::configure(None, None, false);
    assert_eq!(h.bin(), "herdr");
    assert!(!h.is_dry_run());
    assert!(!h.available(false));
    assert!(h.available(true));
    let h = Herdr::configure(Some("/opt/herdr".into()), Some("1"), false);
    assert_eq!(h.bin(), "/opt/herdr");
    assert!(h.is_dry_run());
    assert!(h.available(false));
}

#[test]
fn real_runs_read_ids_back() {
    let h = Herdr::configure(None, None, false);
    let ws = h.workspace_create("created workspace w4 with pane w4:p1\n").unwrap();
    assert_eq!(ws.id, "w4");
    assert_eq!(ws.first_pane, "w4:p1");
    assert_eq!(h.pane_split("w4:p1", "w4:p2\n"), Ok("w4:p2".to_string()));
    assert!(matches!(h.pane_split("w4:p1", "oops"), Err(HerdrError::NoPaneId(_))));
    assert!(matches!(h.workspace_create("nothing"), Err(HerdrError::NoWorkspaceId(_))));
    assert_eq!(h.pane_focus("w4:p1"), vec!["pane", "focus", "w4:p1"]);
    assert_eq!(Direction::Down.as_str(), "down");
}

#[test]
fn pane_ids_and_bump_limits() {
    assert!(is_pane_id("w1:p2"));
    assert!(!is_pane_id("w1"));
    assert!(!is_pane_id("w1:x2"));
    assert!(!is_pane_id("p1:w2"));
    assert!(can_bump("w1:p1"));
    assert!(can_bump("w1:p4294967294"));
    assert!(!can_bump("w1:p4294967295"));
    assert!(can_bump("not a pane"));
    assert_eq!(bump_pane("w1:p4294967294"), "w1:p4294967295");
}

#[test]
fn agent_state_reads_the_listing() {
    assert_eq!(agent_list_args(), vec!["agent", "list"]);
    let real = Herdr::configure(None, None, false);
    let listing = "w2:p1  mytool  BLOCKED on input\n";
    assert_eq!(real.agent_state("w2:p1", Some(listing)).as_deref(), Some("blocked"));
    assert_eq!(real.agent_state("w2:p1", None), None);
    let dry = Herdr::configure(None, None, true);
    assert_eq!(dry.agent_state("w2:p1", Some(listing)), None);
}

#[test]
fn joined_lines_keep_every_argument_apart() {
    let argv = vec!["env".to_string(), "A=b c".into(), "it's".into(), "".into(), "x\\y".into()];
    assert_eq!(shell_join(&argv), r"env 'A=b c' 'it'\''s' '' 'x\y'");
}
