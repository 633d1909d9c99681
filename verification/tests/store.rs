use co_review::model::{Finding, PrInfo, SessionMeta, State};
use co_review::store::{Store, LOCK_FILE, STATE_FILE};

fn fresh() -> State {
    let pr = PrInfo {
        owner: "o".into(),
        repo: "r".into(),
        number: 1,
        title: String::new(),
        author: String::new(),
        base_ref: String::new(),
        head_ref: String::new(),
        base_sha: String::new(),
        head_sha: String::new(),
        url: String::new(),
    };
    let session = SessionMeta {
        id: "o-r-1".into(),
        worktree: "/w".into(),
        source_repo: String::new(),
        created_at_ms: 0,
        agent_pane_id: None,
        view_pane_id: None,
        workspace_id: None,
        agent_kind: "mytool".into(),
        prompt: String::new(),
    };
    State::new(pr, session)
}

#[test]
fn paths_inside_the_session_dir() {
    let s = Store::new("/tmp/sess".into());
    assert_eq!(s.session_dir(), "/tmp/sess");
    assert_eq!(s.state_path(), "/tmp/sess/state.json");
    assert_eq!(s.lock_path(), "/tmp/sess/.state.lock");
    assert_eq!(STATE_FILE, "state.json");
    assert_eq!(LOCK_FILE, ".state.lock");
    let t = Store::new("/tmp/sess/".into());
    assert_eq!(t.state_path(), "/tmp/sess/state.json");
}

#[test]
fn revision_counts_every_write() {
    let created = Store::created(fresh());
    assert_eq!(created.rev, 1);
    let (written, r) = Store::update_outcome::<(), String>(created.clone(), Ok(()));
    assert_eq!(written.unwrap().rev, 2);
    assert_eq!(r, Ok(()));
}

#[test]
fn update_returns_what_the_edit_returned() {
    let mut s = Store::created(fresh());
    let id = s.mint_finding_id();
    s.findings.push(Finding::new(id.clone(), "t".into()));
    let (written, r) = Store::update_outcome::<String, String>(s, Ok(id));
    assert_eq!(r, Ok("f1".to_string()));
    let w = written.unwrap();
    assert_eq!(w.findings.len(), 1);
    assert_eq!(w.findings[0].id, "f1");
    assert_eq!(w.rev, 2);
}

#[test]
fn failed_edit_writes_nothing() {
    let mut s = Store::created(fresh());
    s.findings.push(Finding::new("f1".into(), "t".into()));
    let (written, r) = Store::update_outcome::<(), String>(s, Err("boom".into()));
    assert!(written.is_none());
    assert_eq!(r, Err("boom".to_string()));
}

// The store's read-modify-write, played on values: `created` is what
// `create` writes, `update_outcome` what an update writes.

#[test]
fn create_read_update_cycle() {
    let stored = Store::created(fresh());
    let mut edited = stored.clone();
    let id = edited.mint_finding_id();
    edited.findings.push(Finding::new(id.clone(), "t".into()));
    let (written, r) = Store::update_outcome::<String, String>(edited, Ok(id));
    assert_eq!(r.unwrap(), "f1");
    let state = written.unwrap();
    assert_eq!(state.findings.len(), 1);
    assert_eq!(state.findings[0].id, "f1");
}

#[test]
fn rev_increments_on_every_write() {
    let stored = Store::created(fresh()); // create() -> rev 1
    assert_eq!(stored.rev, 1);
    let (written, _) = Store::update_outcome::<(), String>(stored.clone(), Ok(()));
    let stored = written.unwrap();
    assert_eq!(stored.rev, 2);
    // a plain read does not bump the revision
    let read = stored.clone();
    assert_eq!(read.rev, 2);
}

#[test]
fn closure_error_leaves_state_unchanged() {
    let stored = Store::created(fresh());
    let mut edited = stored.clone();
    edited.findings.push(Finding::new("f1".into(), "t".into()));
    let (written, r) = Store::update_outcome::<(), String>(edited, Err("boom".into()));
    assert!(r.is_err());
    // nothing is written: the stored state keeps no findings
    assert!(written.is_none());
    assert_eq!(stored.findings.len(), 0);
}
