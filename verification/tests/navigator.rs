use co_review::diffview::{CodeLine, LineKind};
use co_review::model::Verdict;
use co_review::tui::app::{
    chat_message, code_gutter, code_refresh, handle_key, line_shade, nudge_message,
    verdict_status, Action, CodeRefresh, Input, Key, Navigator, Shade, Submission,
    ALL_DECIDED_NUDGE, PARTIAL_NUDGE,
};

fn ids(n: usize) -> Vec<String> {
    (1..=n).map(|i| format!("f{i}")).collect()
}

#[test]
fn new_selects_first() {
    let n = Navigator::new(&ids(3));
    assert_eq!(n.selected, 0);
    assert_eq!(n.selected_id, Some("f1".to_string()));
    assert!(n.input.is_none());
    let empty = Navigator::new(&ids(0));
    assert_eq!(empty.selected, 0);
    assert_eq!(empty.selected_id, None);
}

#[test]
fn moves_clamp_to_the_list() {
    let list = ids(3);
    let mut n = Navigator::new(&list);
    n.select_prev(&list);
    assert_eq!(n.selected, 0);
    n.select_next(&list);
    n.select_next(&list);
    n.select_next(&list);
    assert_eq!(n.selected, 2);
    assert_eq!(n.selected_id(&list), Some("f3".to_string()));
    n.select_first(&list);
    assert_eq!(n.selected, 0);
    n.select_last(&list);
    assert_eq!(n.selected, 2);
    n.detail_scroll = 9;
    n.select_prev(&list);
    assert_eq!(n.selected, 1);
    assert_eq!(n.detail_scroll, 0);
    assert_eq!(n.selected_id, Some("f2".to_string()));
}

#[test]
fn sync_keeps_the_same_finding() {
    let mut n = Navigator::new(&ids(3));
    let list = ids(3);
    n.select_last(&list);
    // a new finding is inserted before the selected one
    let grown = vec!["f0".to_string(), "f1".into(), "f2".into(), "f3".into()];
    n.sync_selection(&grown);
    assert_eq!(n.selected, 3);
    assert_eq!(n.selected_id, Some("f3".to_string()));
    // the selected finding disappears: the position is clamped
    let shrunk = vec!["f0".to_string()];
    n.sync_selection(&shrunk);
    assert_eq!(n.selected, 0);
    assert_eq!(n.selected_id, Some("f0".to_string()));
    n.sync_selection(&Vec::new());
    assert_eq!(n.selected, 0);
    assert_eq!(n.selected_id, None);
}

#[test]
fn scrolling_saturates() {
    let mut n = Navigator::new(&ids(1));
    n.scroll_detail_up();
    assert_eq!(n.detail_scroll, 0);
    n.scroll_detail_down();
    assert_eq!(n.detail_scroll, 3);
    n.detail_scroll = u16::MAX - 1;
    n.scroll_detail_down();
    assert_eq!(n.detail_scroll, u16::MAX);
}

#[test]
fn note_input_round_trip() {
    let list = ids(2);
    let mut n = Navigator::new(&list);
    assert!(n.begin_input(&list, Input::Note, Some("old".into())));
    assert_eq!(n.input_buffer, "old");
    n.pop_input_char();
    n.push_input_char('k');
    n.push_input_char(' ');
    assert_eq!(n.input_buffer, "olk ");
    let s = n.submit_input(&list);
    assert_eq!(s, Submission::Note("f1".into(), Some("olk".into())));
    assert!(n.input.is_none());
    assert_eq!(n.input_buffer, "");
    // an empty note clears it
    assert!(n.begin_input(&list, Input::Note, None));
    n.push_input_char(' ');
    assert_eq!(n.submit_input(&list), Submission::Note("f1".into(), None));
}

#[test]
fn chat_input_and_drops() {
    let list = ids(1);
    let mut n = Navigator::new(&list);
    assert_eq!(n.submit_input(&list), Submission::Nothing);
    assert!(n.begin_input(&list, Input::Chat, Some("ignored".into())));
    assert_eq!(n.input_buffer, "");
    for c in "  why? ".chars() {
        n.push_input_char(c);
    }
    assert_eq!(n.submit_input(&list), Submission::Chat("f1".into(), "why?".into()));
    assert!(n.begin_input(&list, Input::Chat, None));
    assert_eq!(n.submit_input(&list), Submission::Dropped);
    let empty: Vec<String> = Vec::new();
    let mut m = Navigator::new(&empty);
    assert!(!m.begin_input(&empty, Input::Note, None));
    assert!(m.input.is_none());
    m.cancel_input();
    assert!(m.input.is_none());
}

#[test]
fn key_map() {
    assert_eq!(handle_key(Key::Char('c'), true, false, false), Action::Quit);
    assert_eq!(handle_key(Key::Char('c'), true, true, false), Action::CancelInput);
    assert_eq!(handle_key(Key::Char('q'), false, true, false), Action::PushInputChar('q'));
    assert_eq!(handle_key(Key::Enter, false, true, false), Action::SubmitInput);
    assert_eq!(handle_key(Key::Backspace, false, true, false), Action::PopInputChar);
    assert_eq!(handle_key(Key::Up, false, true, false), Action::Nothing);
    assert_eq!(handle_key(Key::Char('q'), false, false, false), Action::Quit);
    assert_eq!(handle_key(Key::Esc, false, false, true), Action::CloseHelp);
    assert_eq!(handle_key(Key::Esc, false, false, false), Action::Quit);
    assert_eq!(handle_key(Key::Char('j'), false, false, false), Action::SelectNext);
    assert_eq!(handle_key(Key::Down, false, false, false), Action::SelectNext);
    assert_eq!(handle_key(Key::Home, false, false, false), Action::SelectFirst);
    assert_eq!(handle_key(Key::Char('G'), false, false, false), Action::SelectLast);
    assert_eq!(handle_key(Key::PageDown, false, false, false), Action::ScrollDown);
    assert_eq!(handle_key(Key::Char('a'), false, false, false), Action::SetVerdict(Verdict::Approved));
    assert_eq!(
        handle_key(Key::Char('x'), false, false, false),
        Action::SetVerdict(Verdict::NeedsDiscussion)
    );
    assert_eq!(handle_key(Key::Char('n'), false, false, false), Action::BeginInput(Input::Note));
    assert_eq!(handle_key(Key::Char('c'), false, false, false), Action::BeginInput(Input::Chat));
    assert_eq!(handle_key(Key::Char('P'), false, false, false), Action::NudgePost);
    assert_eq!(handle_key(Key::Char('r'), false, false, false), Action::Reload);
    assert_eq!(handle_key(Key::Char('z'), false, false, false), Action::Nothing);
}

#[test]
fn messages() {
    assert_eq!(chat_message("f2", "is this right?"), "[co-review f2] is this right?");
    assert_eq!(nudge_message(0), ALL_DECIDED_NUDGE);
    assert_eq!(nudge_message(3), PARTIAL_NUDGE);
    assert_eq!(verdict_status("f1", Verdict::Dismissed), "f1 → dismissed");
}

#[test]
fn gutters_and_shades() {
    let focused = CodeLine { number: Some(42), kind: LineKind::Context, focus: true, text: "x".into() };
    assert_eq!(code_gutter(&focused), "▶  42   ");
    let added = CodeLine { number: Some(7), kind: LineKind::Added, focus: false, text: "y".into() };
    assert_eq!(code_gutter(&added), "    7 + ");
    let removed = CodeLine { number: None, kind: LineKind::Removed, focus: false, text: "z".into() };
    assert_eq!(code_gutter(&removed), "      - ");
    let wide = CodeLine { number: Some(123456), kind: LineKind::Context, focus: false, text: String::new() };
    assert_eq!(code_gutter(&wide), " 123456   ");
    assert_eq!(line_shade(LineKind::Added, true), Shade::Added);
    assert_eq!(line_shade(LineKind::Removed, false), Shade::Removed);
    assert_eq!(line_shade(LineKind::Context, true), Shade::Focus);
    assert_eq!(line_shade(LineKind::Context, false), Shade::Plain);
}

#[test]
fn code_cache_decisions() {
    assert_eq!(code_refresh(Some("f1"), None), CodeRefresh::Clear);
    assert_eq!(code_refresh(None, None), CodeRefresh::Clear);
    assert_eq!(code_refresh(Some("f1"), Some("f1")), CodeRefresh::Keep);
    assert_eq!(code_refresh(Some("f1"), Some("f2")), CodeRefresh::Rebuild);
    assert_eq!(code_refresh(None, Some("f2")), CodeRefresh::Rebuild);
}
