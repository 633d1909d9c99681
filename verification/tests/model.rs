use co_review::model::{
    pr_slug, Finding, Location, PrInfo, ReviewStatus, SessionMeta, Side, State, Verdict,
    SCHEMA_VERSION,
};
use co_review::tui::app::{finding_ids, poll_reload, Navigator};

fn pr() -> PrInfo {
    PrInfo {
        owner: "o".into(),
        repo: "r".into(),
        number: 1,
        title: String::new(),
        author: String::new(),
        base_ref: String::new(),
        head_ref: String::new(),
        base_sha: String::new(),
        head_sha: String::new(),
        url: String::new(),
    }
}

fn session() -> SessionMeta {
    SessionMeta {
        id: "o-r-1".into(),
        worktree: "/w".into(),
        source_repo: "/src".into(),
        created_at_ms: 0,
        agent_pane_id: None,
        view_pane_id: None,
        workspace_id: None,
        agent_kind: "mytool".into(),
        prompt: String::new(),
    }
}

fn state_with(n: usize) -> State {
    let mut s = State::new(pr(), session());
    for _ in 0..n {
        let id = s.mint_finding_id();
        s.findings.push(Finding::new(id, "t".into()));
    }
    s
}

#[test]
fn fresh_state_is_empty() {
    let s = State::new(pr(), session());
    assert_eq!(s.schema_version, SCHEMA_VERSION);
    assert_eq!(s.rev, 0);
    assert_eq!(s.status, ReviewStatus::Reviewing);
    assert!(s.findings.is_empty());
    assert!(s.chat.is_empty());
    assert_eq!(s.next_finding_seq, 0);
}

#[test]
fn minted_ids_are_sequential_and_distinct() {
    let mut s = State::new(pr(), session());
    assert_eq!(s.mint_finding_id(), "f1");
    assert_eq!(s.mint_finding_id(), "f2");
    assert_eq!(s.mint_finding_id(), "f3");
    assert_eq!(s.next_finding_seq, 3);
    let mut s = state_with(12);
    let mut ids: Vec<String> = s.findings.iter().map(|f| f.id.clone()).collect();
    ids.sort();
    ids.dedup();
    assert_eq!(ids.len(), 12);
    assert_eq!(s.mint_finding_id(), "f13");
}

#[test]
fn find_locates_by_id() {
    let s = state_with(3);
    assert_eq!(s.find("f1"), Some(0));
    assert_eq!(s.find("f3"), Some(2));
    assert_eq!(s.find("f4"), None);
    assert_eq!(s.find(""), None);
}

#[test]
fn verdicts_move_the_pending_count() {
    let mut s = state_with(3);
    assert_eq!(s.pending_count(), 3);
    assert!(s.set_verdict("f2", Verdict::Approved, 77));
    assert_eq!(s.pending_count(), 2);
    assert_eq!(s.findings[1].verdict, Verdict::Approved);
    assert_eq!(s.findings[1].updated_at_ms, 77);
    assert_eq!(s.findings[0].verdict, Verdict::Pending);
    assert_eq!(s.findings[0].updated_at_ms, 0);
    // deciding it again does not count twice
    assert!(s.set_verdict("f2", Verdict::Dismissed, 78));
    assert_eq!(s.pending_count(), 2);
    // reopening adds it back
    assert!(s.set_verdict("f2", Verdict::Pending, 79));
    assert_eq!(s.pending_count(), 3);
}

#[test]
fn unknown_verdict_target_changes_nothing() {
    let mut s = state_with(2);
    let before = s.clone();
    assert!(!s.set_verdict("f9", Verdict::Approved, 5));
    assert_eq!(s, before);
}

#[test]
fn bump_rev_wraps() {
    let mut s = state_with(0);
    s.bump_rev();
    assert_eq!(s.rev, 1);
    s.rev = u64::MAX;
    s.bump_rev();
    assert_eq!(s.rev, 0);
}

#[test]
fn touch_stamps_time() {
    let mut f = Finding::new("f1".into(), "t".into());
    f.touch(1234);
    assert_eq!(f.updated_at_ms, 1234);
    assert_eq!(f.verdict, Verdict::Pending);
}

#[test]
fn labels() {
    assert_eq!(Verdict::Approved.label(), "approved");
    assert_eq!(Verdict::Pending.label(), "pending");
    let one = Location { file: "src/a.rs".into(), start_line: 7, end_line: None, side: Side::Head };
    assert_eq!(one.label(), "src/a.rs:7");
    assert_eq!(one.end(), 7);
    let range = Location { file: "a.rs".into(), start_line: 3, end_line: Some(9), side: Side::Base };
    assert_eq!(range.label(), "a.rs:3-9@base");
    assert_eq!(range.end(), 9);
    let same = Location { file: "a.rs".into(), start_line: 3, end_line: Some(3), side: Side::Head };
    assert_eq!(same.label(), "a.rs:3");
}

#[test]
fn session_slug() {
    assert_eq!(pr_slug("owner", "repo", 1), "owner-repo-1");
    assert_eq!(pr_slug("elKei24", "Herdr.Co_Review", 42), "elkei24-herdr-co-review-42");
}

use co_review::model::{wait_step, Severity, WaitStep};

#[test]
fn names_read_back() {
    for s in [Severity::Critical, Severity::High, Severity::Medium, Severity::Low, Severity::Nit] {
        assert_eq!(Severity::parse(s.label()), Some(s));
    }
    assert_eq!(Severity::parse("HIGH"), None);
    for v in [Verdict::Pending, Verdict::Approved, Verdict::Dismissed, Verdict::NeedsDiscussion, Verdict::Edited] {
        assert_eq!(Verdict::parse(v.label()), Some(v));
    }
    assert_eq!(Verdict::parse("discuss"), Some(Verdict::NeedsDiscussion));
    assert_eq!(Verdict::parse("maybe"), None);
    for st in [ReviewStatus::Reviewing, ReviewStatus::AwaitingReview, ReviewStatus::Posting, ReviewStatus::Done] {
        assert_eq!(ReviewStatus::parse(st.label()), Some(st));
    }
    assert_eq!(ReviewStatus::AwaitingReview.label(), "awaiting_review");
    assert_eq!(ReviewStatus::parse("finished"), None);
}

#[test]
fn postable_verdicts() {
    assert!(Verdict::Approved.postable());
    assert!(Verdict::Edited.postable());
    assert!(!Verdict::Dismissed.postable());
    assert!(!Verdict::Pending.postable());
    assert!(!Verdict::NeedsDiscussion.postable());
}

#[test]
fn locations_parse() {
    let l = Location::parse("f.txt:2").unwrap();
    assert_eq!(l, Location { file: "f.txt".into(), start_line: 2, end_line: None, side: Side::Head });
    let l = Location::parse(" src/paginate.rs:42-48 ").unwrap();
    assert_eq!(l.file, "src/paginate.rs");
    assert_eq!((l.start_line, l.end_line), (42, Some(48)));
    let l = Location::parse("src/x.rs:10@base").unwrap();
    assert_eq!(l.side, Side::Base);
    assert_eq!(l.start_line, 10);
    // the path runs to the last colon
    let l = Location::parse("C:/dir/a.rs:3").unwrap();
    assert_eq!(l.file, "C:/dir/a.rs");
    assert_eq!(Location::parse("nocolon"), None);
    assert_eq!(Location::parse(":5"), None);
    assert_eq!(Location::parse("a.rs:x"), None);
    assert_eq!(Location::parse("a.rs:1-"), None);
    assert_eq!(Location::parse("a.rs:99999999999"), None);
}

#[test]
fn labels_read_back() {
    for loc in [
        Location { file: "a.rs".into(), start_line: 1, end_line: None, side: Side::Head },
        Location { file: "b/c.rs".into(), start_line: 3, end_line: Some(9), side: Side::Base },
        Location { file: "x:y.rs".into(), start_line: 7, end_line: Some(2), side: Side::Head },
    ] {
        assert_eq!(Location::parse(&loc.label()), Some(loc));
    }
    let same = Location { file: "a.rs".into(), start_line: 4, end_line: Some(4), side: Side::Base };
    let back = Location::parse(&same.label()).unwrap();
    assert_eq!(back.end_line, None);
    assert_eq!(back.start_line, 4);
}

#[test]
fn adding_notes_and_posting() {
    let mut s = State::new(pr(), session());
    let mut f = Finding::new("ignored".into(), "t".into());
    f.severity = Severity::High;
    let id = s.add_finding(f, 50);
    assert_eq!(id, "f1");
    assert_eq!(s.findings[0].id, "f1");
    assert_eq!(s.findings[0].updated_at_ms, 50);
    assert_eq!(s.findings[0].severity, Severity::High);
    assert_eq!(s.add_finding(Finding::new(String::new(), "u".into()), 51), "f2");
    assert!(s.set_note("f2", Some("look again".into()), 60));
    assert_eq!(s.findings[1].user_note.as_deref(), Some("look again"));
    assert_eq!(s.findings[1].updated_at_ms, 60);
    assert!(s.set_note("f2", None, 61));
    assert_eq!(s.findings[1].user_note, None);
    assert!(!s.set_note("f7", None, 62));
    assert!(s.mark_posted("f1", "https://x/1".into(), 70));
    assert_eq!(s.findings[0].posted_url.as_deref(), Some("https://x/1"));
    assert!(!s.mark_posted("f9", String::new(), 71));
}

#[test]
fn postable_ids_follow_verdicts() {
    let mut s = state_with(4);
    assert!(s.postable_ids().is_empty());
    s.set_verdict("f1", Verdict::Approved, 1);
    s.set_verdict("f2", Verdict::Dismissed, 1);
    s.set_verdict("f3", Verdict::Edited, 1);
    s.set_verdict("f4", Verdict::NeedsDiscussion, 1);
    assert_eq!(s.postable_ids(), vec!["f1".to_string(), "f3".to_string()]);
}

#[test]
fn waiting_decisions() {
    assert_eq!(wait_step(0, 0, 0), WaitStep::Done);
    assert_eq!(wait_step(0, 99, 10), WaitStep::Done);
    assert_eq!(wait_step(2, 5, 0), WaitStep::Again);
    assert_eq!(wait_step(2, 5, 10), WaitStep::Again);
    assert_eq!(wait_step(2, 10, 10), WaitStep::TimedOut(2));
}

#[test]
fn reload_adopts_only_a_new_revision() {
    let mut state = state_with(3);
    state.rev = 4;
    let mut last_rev = 4u64;
    let mut nav = Navigator::new(&finding_ids(&state));
    nav.select_next(&finding_ids(&state));
    nav.select_next(&finding_ids(&state));
    assert_eq!(nav.selected_id, Some("f3".to_string()));

    // a failed read or the same revision changes nothing
    assert!(!poll_reload(&mut nav, &mut state, &mut last_rev, None));
    let mut same = state_with(1);
    same.rev = 4;
    assert!(!poll_reload(&mut nav, &mut state, &mut last_rev, Some(same)));
    assert_eq!(state.findings.len(), 3);
    assert_eq!(nav.selected, 2);

    // a new revision is adopted and the selection follows `f3` by id
    let mut newer = state_with(3);
    newer.findings.remove(0);
    newer.rev = 5;
    assert!(poll_reload(&mut nav, &mut state, &mut last_rev, Some(newer)));
    assert_eq!(last_rev, 5);
    assert_eq!(state.findings.len(), 2);
    assert_eq!(nav.selected, 1);
    assert_eq!(nav.selected_id, Some("f3".to_string()));

    // when the selected finding is gone the position is clamped
    let mut fewer = state_with(1);
    fewer.rev = 6;
    assert!(poll_reload(&mut nav, &mut state, &mut last_rev, Some(fewer)));
    assert_eq!(nav.selected, 0);
    assert_eq!(nav.selected_id, Some("f1".to_string()));

    // an empty list selects nothing
    let mut empty = state_with(0);
    empty.rev = 7;
    assert!(poll_reload(&mut nav, &mut state, &mut last_rev, Some(empty)));
    assert_eq!(nav.selected, 0);
    assert_eq!(nav.selected_id, None);
}
