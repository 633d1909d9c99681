use co_review::paths::{
    choose_session, protocol_path, session_dir, sessions_root, worktree_path, SessionError,
};

#[test]
fn layout_under_the_home() {
    assert_eq!(sessions_root("/h"), "/h/sessions");
    assert_eq!(session_dir("/h", "owner-repo-1"), "/h/sessions/owner-repo-1");
    assert_eq!(worktree_path("/h/", "owner-repo-1"), "/h/worktrees/owner-repo-1");
    assert_eq!(protocol_path("/h/sessions/s"), "/h/sessions/s/CO_REVIEW.md");
}

#[test]
fn session_choice() {
    let none: Vec<String> = Vec::new();
    let one = vec!["/h/sessions/a".to_string()];
    let two = vec!["/h/sessions/a".to_string(), "/h/sessions/b".to_string()];
    assert_eq!(choose_session(Some("/x"), Some("/y"), &two), Ok("/x".to_string()));
    assert_eq!(choose_session(None, Some("/y"), &two), Ok("/y".to_string()));
    assert_eq!(choose_session(None, Some(""), &one), Ok("/h/sessions/a".to_string()));
    assert_eq!(choose_session(None, None, &none), Err(SessionError::NoSession));
    assert_eq!(choose_session(None, None, &two), Err(SessionError::Ambiguous(2)));
    assert!(SessionError::NoSession.message().contains("--session"));
}
