//! State and behavior of the navigator: which finding is selected, the detail
//! scroll, the bottom input line, and the meaning of each key.
use vstd::prelude::*;

use crate::diffview::{pad_of, padded, sign_of, spaces, CodeLine, CodeLineView, LineKind};
use crate::model::{verdict_label, Finding, State, Verdict};
use crate::text::{
    append_chars, chars_eq, chars_of, push_str, str_views, string_of, trim, trim_of, CharSet,
};

verus! {

/// What the bottom input line is currently collecting, if anything.
#[derive(Debug, Clone, Copy, PartialEq, Eq, Structural)]
pub enum Input {
    /// Editing the human note on the selected finding.
    Note,
    /// Composing a message to send to the agent about the selected finding.
    Chat,
}

/// The navigator's own state.
#[derive(Debug, Clone)]
pub struct Navigator {
    pub selected: usize,
    pub selected_id: Option<String>,
    pub detail_scroll: u16,
    pub input: Option<Input>,
    pub input_buffer: String,
    pub show_help: bool,
    pub should_quit: bool,
}

/// What submitting the input line asks for.
#[derive(Debug, Clone, PartialEq, Eq)]
pub enum Submission {
    /// There was no input to submit.
    Nothing,
    /// Set (or with `None`, clear) the note of a finding.
    Note(String, Option<String>),
    /// Send a chat message about a finding to the agent.
    Chat(String, String),
    /// Input was open but nothing is to be done (no finding selected, or an
    /// empty chat message).
    Dropped,
}

/// The index of `id` among `ids`, or -1.
pub open spec fn index_in(ids: Seq<Seq<char>>, id: Seq<char>) -> int
    decreases ids.len(),
{
    if ids.len() == 0 {
        -1
    } else if ids[0] == id {
        0
    } else {
        let r = index_in(ids.drop_first(), id);
        if r < 0 {
            -1
        } else {
            r + 1
        }
    }
}

proof fn lemma_index_in(ids: Seq<Seq<char>>, id: Seq<char>)
    ensures
        -1 <= index_in(ids, id) < ids.len(),
        index_in(ids, id) >= 0 ==> ids[index_in(ids, id)] == id,
        forall|j: int| 0 <= j < index_in(ids, id) ==> #[trigger] ids[j] != id,
        index_in(ids, id) == -1 ==> forall|j: int| 0 <= j < ids.len() ==> #[trigger] ids[j] != id,
    decreases ids.len(),
{
    if ids.len() > 0 && ids[0] != id {
        let t = ids.drop_first();
        lemma_index_in(t, id);
        assert forall|j: int| 0 < j < ids.len() implies ids[j] == t[j - 1] by {}
    }
}

pub open spec fn opt_view(o: Option<String>) -> Option<Seq<char>> {
    match o {
        Some(s) => Some(s@),
        None => None,
    }
}

/// The id at `i`, when there is one.
pub open spec fn id_at(ids: Seq<Seq<char>>, i: int) -> Option<Seq<char>> {
    if 0 <= i < ids.len() {
        Some(ids[i])
    } else {
        None
    }
}

/// The position of `id` among `ids`.
fn find_id(ids: &Vec<String>, id: &str) -> (r: Option<usize>)
    ensures
        match r {
            Some(i) => index_in(str_views(ids@), id@) == i,
            None => index_in(str_views(ids@), id@) == -1,
        },
{
    let ghost vs = str_views(ids@);
    let idc = chars_of(id);
    let mut i: usize = 0;
    proof {
        lemma_index_in(vs, id@);
    }
    while i < ids.len()
        invariant
            i <= ids@.len(),
            vs == str_views(ids@),
            idc@ == id@,
            forall|j: int| 0 <= j < i ==> #[trigger] vs[j] != id@,
        decreases ids.len() - i,
    {
        if chars_eq(&chars_of(ids[i].as_str()), &idc) {
            proof {
                lemma_index_in(vs, id@);
                let k = index_in(vs, id@);
                assert(vs[i as int] == id@);
                if k < i as int {
                    assert(vs[k] != id@);
                }
                if k == -1 {
                    assert(vs[i as int] != id@);
                }
            }
            return Some(i);
        }
        i = i + 1;
    }
    proof {
        lemma_index_in(vs, id@);
        let k = index_in(vs, id@);
        if k >= 0 {
            assert(vs[k] != id@);
        }
    }
    None
}

/// How the selection follows a changed list of finding ids: the same finding
/// stays selected when it is still listed; otherwise the position is clamped
/// into the list (and an empty list selects nothing). Nothing else changes.
pub open spec fn resynced(after: Navigator, before: Navigator, ids: Seq<Seq<char>>) -> bool {
    &&& after.same_but_selection(&before)
    &&& ids.len() == 0 ==> after.selected == 0 && after.spec_selected_id() is None
    &&& ids.len() > 0 ==> (match before.spec_selected_id() {
        Some(id) if index_in(ids, id) >= 0 => after.selected == index_in(ids, id)
            && after.spec_selected_id() == Some(id),
        _ => after.selected == (if before.selected < ids.len() {
            before.selected
        } else {
            (ids.len() - 1) as usize
        }) && after.spec_selected_id() == id_at(ids, after.selected as int),
    })
}

/// The ids of a state's findings, in order.
pub open spec fn state_ids(s: State) -> Seq<Seq<char>> {
    s.findings@.map_values(|f: Finding| f.id@)
}

/// The ids of the state's findings, in order.
pub fn finding_ids(state: &State) -> (ids: Vec<String>)
    ensures
        str_views(ids@) == state_ids(*state),
{
    let mut ids: Vec<String> = Vec::new();
    let mut i: usize = 0;
    while i < state.findings.len()
        invariant
            i <= state.findings@.len(),
            str_views(ids@) == state_ids(*state).take(i as int),
        decreases state.findings.len() - i,
    {
        let id = state.findings[i].id.clone();
        proof {
            assert(str_views(ids@.push(id)) =~= str_views(ids@).push(id@));
            assert(state_ids(*state).take(i + 1) =~= state_ids(*state).take(i as int).push(id@));
        }
        ids.push(id);
        i = i + 1;
    }
    assert(state_ids(*state).take(i as int) =~= state_ids(*state));
    ids
}

/// Look at a freshly read state (`None` when reading failed): it is adopted
/// exactly when it was read and its revision differs from `last_rev`, the
/// revision adopted last. Adopting replaces the state and the revision and
/// keeps the selection on the same finding by id (see [`resynced`]);
/// otherwise nothing changes. Answers whether the state was adopted.
pub fn poll_reload(nav: &mut Navigator, state: &mut State, last_rev: &mut u64, read: Option<State>) -> (adopted: bool)
    ensures
        adopted == (match read {
            Some(s) => s.rev != *old(last_rev),
            None => false,
        }),
        !adopted ==> *final(nav) == *old(nav) && *final(state) == *old(state) && *final(last_rev)
            == *old(last_rev),
        adopted ==> *final(state) == read->0 && *final(last_rev) == read->0.rev && resynced(
            *final(nav),
            *old(nav),
            state_ids(read->0),
        ),
{
    match read {
        Some(s) => {
            if s.rev != *last_rev {
                let ids = finding_ids(&s);
                nav.sync_selection(&ids);
                *last_rev = s.rev;
                *state = s;
                true
            } else {
                false
            }
        },
        None => false,
    }
}

impl Navigator {
    pub open spec fn spec_selected_id(&self) -> Option<Seq<char>> {
        opt_view(self.selected_id)
    }

    /// The selection names a finding whenever there is one to name.
    pub open spec fn selection_ok(&self, ids: Seq<String>) -> bool {
        ids.len() == 0 || self.selected < ids.len()
    }

    /// Fields other than the selection stay as in `other`.
    pub open spec fn same_but_selection(&self, other: &Navigator) -> bool {
        &&& self.detail_scroll == other.detail_scroll
        &&& self.input == other.input
        &&& self.input_buffer@ == other.input_buffer@
        &&& self.show_help == other.show_help
        &&& self.should_quit == other.should_quit
    }

    /// A navigator with the first finding (if any) selected and nothing open.
    pub fn new(ids: &Vec<String>) -> (n: Navigator)
        ensures
            n.selected == 0,
            n.selection_ok(ids@),
            n.spec_selected_id() == id_at(str_views(ids@), 0),
            n.detail_scroll == 0,
            n.input is None,
            n.input_buffer@.len() == 0,
            !n.show_help,
            !n.should_quit,
    {
        let mut n = Navigator {
            selected: 0,
            selected_id: None,
            detail_scroll: 0,
            input: None,
            input_buffer: String::new(),
            show_help: false,
            should_quit: false,
        };
        n.sync_selection(ids);
        n
    }

    /// The currently selected finding id, if any.
    pub fn selected_id(&self, ids: &Vec<String>) -> (r: Option<String>)
        ensures
            opt_view(r) == id_at(str_views(ids@), self.selected as int),
    {
        if self.selected < ids.len() {
            Some(ids[self.selected].clone())
        } else {
            None
        }
    }

    /// Keep the selection consistent after the list of findings (given by
    /// their ids) changed: the same finding stays selected when it is still
    /// there; otherwise the position is clamped into the list.
    pub fn sync_selection(&mut self, ids: &Vec<String>)
        ensures
            resynced(*final(self), *old(self), str_views(ids@)),
            final(self).same_but_selection(old(self)),
            final(self).selection_ok(ids@),
            ids@.len() == 0 ==> final(self).selected == 0 && final(self).spec_selected_id() is None,
            ids@.len() > 0 ==> final(self).selected < ids@.len(),
            ids@.len() > 0 ==> match old(self).spec_selected_id() {
                Some(id) if index_in(str_views(ids@), id) >= 0 => final(self).selected
                    == index_in(str_views(ids@), id) && final(self).spec_selected_id() == Some(id),
                _ => final(self).selected == (if old(self).selected < ids@.len() {
                    old(self).selected
                } else {
                    (ids@.len() - 1) as usize
                }) && final(self).spec_selected_id() == id_at(
                    str_views(ids@),
                    final(self).selected as int,
                ),
            },
    {
        if ids.len() == 0 {
            self.selected = 0;
            self.selected_id = None;
            return;
        }
        let pos = match &self.selected_id {
            Some(id) => find_id(ids, id.as_str()),
            None => None,
        };
        if let Some(i) = pos {
            proof {
                lemma_index_in(str_views(ids@), self.spec_selected_id()->0);
            }
            self.selected = i;
            return;
        }
        if self.selected > ids.len() - 1 {
            self.selected = ids.len() - 1;
        }
        self.selected_id = self.selected_id(ids);
    }

    fn after_move(&mut self, ids: &Vec<String>)
        ensures
            final(self).selected == old(self).selected,
            final(self).detail_scroll == 0,
            final(self).spec_selected_id() == id_at(str_views(ids@), old(self).selected as int),
            final(self).input == old(self).input,
            final(self).input_buffer@ == old(self).input_buffer@,
            final(self).show_help == old(self).show_help,
            final(self).should_quit == old(self).should_quit,
    {
        self.detail_scroll = 0;
        self.selected_id = self.selected_id(ids);
    }

    /// Move the selection down one finding (stopping at the last).
    pub fn select_next(&mut self, ids: &Vec<String>)
        requires
            old(self).selected < usize::MAX,
        ensures
            final(self).selection_ok(ids@),
            ids@.len() == 0 ==> *final(self) == *old(self),
            ids@.len() > 0 ==> final(self).selected == (if old(self).selected + 1 < ids@.len() {
                old(self).selected + 1
            } else {
                ids@.len() - 1
            }) && final(self).detail_scroll == 0 && final(self).spec_selected_id() == id_at(
                str_views(ids@),
                final(self).selected as int,
            ),
            final(self).input == old(self).input,
            final(self).input_buffer@ == old(self).input_buffer@,
            final(self).show_help == old(self).show_help,
            final(self).should_quit == old(self).should_quit,
    {
        if ids.len() == 0 {
            return;
        }
        let next = self.selected + 1;
        self.selected = if next < ids.len() {
            next
        } else {
            ids.len() - 1
        };
        self.after_move(ids);
    }

    /// Move the selection up one finding (stopping at the first).
    pub fn select_prev(&mut self, ids: &Vec<String>)
        ensures
            old(self).selection_ok(ids@) ==> final(self).selection_ok(ids@),
            final(self).selected == (if old(self).selected > 0 {
                old(self).selected - 1
            } else {
                0
            }),
            final(self).detail_scroll == 0,
            final(self).spec_selected_id() == id_at(str_views(ids@), final(self).selected as int),
            final(self).input == old(self).input,
            final(self).input_buffer@ == old(self).input_buffer@,
            final(self).show_help == old(self).show_help,
            final(self).should_quit == old(self).should_quit,
    {
        self.selected = self.selected.saturating_sub(1);
        self.after_move(ids);
    }

    /// Select the first finding.
    pub fn select_first(&mut self, ids: &Vec<String>)
        ensures
            final(self).selection_ok(ids@),
            final(self).selected == 0,
            final(self).detail_scroll == 0,
            final(self).spec_selected_id() == id_at(str_views(ids@), 0),
            final(self).input == old(self).input,
            final(self).input_buffer@ == old(self).input_buffer@,
            final(self).show_help == old(self).show_help,
            final(self).should_quit == old(self).should_quit,
    {
        self.selected = 0;
        self.after_move(ids);
    }

    /// Select the last finding.
    pub fn select_last(&mut self, ids: &Vec<String>)
        ensures
            final(self).selection_ok(ids@),
            final(self).selected == (if ids@.len() > 0 {
                (ids@.len() - 1) as usize
            } else {
                old(self).selected
            }),
            final(self).detail_scroll == 0,
            final(self).spec_selected_id() == id_at(str_views(ids@), final(self).selected as int),
            final(self).input == old(self).input,
            final(self).input_buffer@ == old(self).input_buffer@,
            final(self).show_help == old(self).show_help,
            final(self).should_quit == old(self).should_quit,
    {
        if ids.len() > 0 {
            self.selected = ids.len() - 1;
        }
        self.after_move(ids);
    }

    /// Scroll the detail pane down three lines (saturating).
    pub fn scroll_detail_down(&mut self)
        ensures
            final(self).detail_scroll == (if old(self).detail_scroll as int + 3 > u16::MAX {
                u16::MAX
            } else {
                (old(self).detail_scroll + 3) as u16
            }),
            *final(self) == (Navigator { detail_scroll: final(self).detail_scroll, ..*old(self) }),
    {
        self.detail_scroll = self.detail_scroll.saturating_add(3);
    }

    /// Scroll the detail pane up three lines (saturating).
    pub fn scroll_detail_up(&mut self)
        ensures
            final(self).detail_scroll == (if old(self).detail_scroll >= 3 {
                (old(self).detail_scroll - 3) as u16
            } else {
                0
            }),
            *final(self) == (Navigator { detail_scroll: final(self).detail_scroll, ..*old(self) }),
    {
        self.detail_scroll = self.detail_scroll.saturating_sub(3);
    }

    /// Begin collecting input (note or chat) for the selected finding; the
    /// note editor starts from the finding's existing note. Returns whether a
    /// finding is selected (without one nothing changes).
    pub fn begin_input(&mut self, ids: &Vec<String>, kind: Input, existing_note: Option<String>) -> (began: bool)
        ensures
            began == (old(self).selected < ids@.len()),
            !began ==> *final(self) == *old(self),
            began ==> final(self).input == Some(kind) && final(self).input_buffer@ == (
            match (kind, existing_note) {
                (Input::Note, Some(n)) => n@,
                _ => Seq::<char>::empty(),
            }),
            *final(self) == (Navigator {
                input: final(self).input,
                input_buffer: final(self).input_buffer,
                ..*old(self)
            }),
    {
        if self.selected >= ids.len() {
            return false;
        }
        self.input_buffer = match (kind, existing_note) {
            (Input::Note, Some(n)) => n,
            _ => String::new(),
        };
        self.input = Some(kind);
        true
    }

    /// Close the input line, discarding what was typed.
    pub fn cancel_input(&mut self)
        ensures
            final(self).input is None,
            final(self).input_buffer@.len() == 0,
            *final(self) == (Navigator {
                input: None,
                input_buffer: final(self).input_buffer,
                ..*old(self)
            }),
    {
        self.input = None;
        self.input_buffer = String::new();
    }

    pub fn push_input_char(&mut self, c: char)
        ensures
            final(self).input_buffer@ == old(self).input_buffer@.push(c),
            *final(self) == (Navigator { input_buffer: final(self).input_buffer, ..*old(self) }),
    {
        self.input_buffer.push(c);
    }

    pub fn pop_input_char(&mut self)
        ensures
            final(self).input_buffer@ == (if old(self).input_buffer@.len() > 0 {
                old(self).input_buffer@.drop_last()
            } else {
                old(self).input_buffer@
            }),
            *final(self) == (Navigator { input_buffer: final(self).input_buffer, ..*old(self) }),
    {
        let v = chars_of(self.input_buffer.as_str());
        if v.len() > 0 {
            let mut w = v;
            w.pop();
            self.input_buffer = string_of(&w);
        }
    }

    /// Commit the pending input: a note (trimmed; empty clears it) or a chat
    /// message (trimmed; empty sends nothing) about the selected finding. The
    /// input line is closed.
    pub fn submit_input(&mut self, ids: &Vec<String>) -> (s: Submission)
        ensures
            old(self).input is None ==> s == Submission::Nothing && *final(self) == *old(self),
            old(self).input is Some ==> final(self).input is None && final(self).input_buffer@.len()
                == 0,
            old(self).input is Some ==> match id_at(str_views(ids@), old(self).selected as int) {
                None => s == Submission::Dropped,
                Some(id) => {
                    let text = trim(old(self).input_buffer@);
                    match old(self).input {
                        Some(Input::Note) => s matches Submission::Note(fid, note) && fid@ == id
                            && opt_view(note) == (if text.len() == 0 {
                            None::<Seq<char>>
                        } else {
                            Some(text)
                        }),
                        _ => if text.len() == 0 {
                            s == Submission::Dropped
                        } else {
                            s matches Submission::Chat(fid, msg) && fid@ == id && msg@ == text
                        },
                    }
                },
            },
            *final(self) == (Navigator {
                input: final(self).input,
                input_buffer: final(self).input_buffer,
                ..*old(self)
            }),
    {
        let kind = match self.input {
            Some(k) => k,
            None => return Submission::Nothing,
        };
        let text = string_of(&trim_of(&chars_of(self.input_buffer.as_str()), CharSet::Whitespace));
        let id = self.selected_id(ids);
        self.cancel_input();
        match id {
            None => Submission::Dropped,
            Some(id) => match kind {
                Input::Note => {
                    let note = if text.as_str().is_empty() {
                        None
                    } else {
                        Some(text)
                    };
                    Submission::Note(id, note)
                },
                Input::Chat => {
                    if text.as_str().is_empty() {
                        Submission::Dropped
                    } else {
                        Submission::Chat(id, text)
                    }
                },
            },
        }
    }
}

// ---------------------------------------------------------------------------
// Messages
// ---------------------------------------------------------------------------
/// The line injected into the agent pane for a chat message.
pub fn chat_message(finding_id: &str, text: &str) -> (m: String)
    ensures
        m@ == "[co-review "@ + finding_id@ + "] "@ + text@,
{
    let mut v = chars_of("[co-review ");
    push_str(&mut v, finding_id);
    push_str(&mut v, "] ");
    push_str(&mut v, text);
    string_of(&v)
}

pub const ALL_DECIDED_NUDGE: &'static str = "All findings are decided — please post the approved ones to GitHub and mark them posted.";

pub const PARTIAL_NUDGE: &'static str = "Please post the findings I've already approved; I'll keep triaging the rest.";

/// The message that nudges the agent to post: everything decided, or only
/// the approved part so far.
pub fn nudge_message(pending: usize) -> (m: &'static str)
    ensures
        m@ == if pending == 0 {
            ALL_DECIDED_NUDGE@
        } else {
            PARTIAL_NUDGE@
        },
{
    if pending == 0 {
        ALL_DECIDED_NUDGE
    } else {
        PARTIAL_NUDGE
    }
}

/// The status line shown once a verdict is set: the id, an arrow, the verdict label.
pub fn verdict_status(id: &str, verdict: Verdict) -> (m: String)
    ensures
        m@ == id@ + " \u{2192} "@ + verdict_label(verdict),
{
    let mut v = chars_of(id);
    push_str(&mut v, " \u{2192} ");
    push_str(&mut v, verdict.label());
    string_of(&v)
}

// ---------------------------------------------------------------------------
// The code view
// ---------------------------------------------------------------------------
/// The background a code line is drawn on.
#[derive(Debug, Clone, Copy, PartialEq, Eq, Structural)]
pub enum Shade {
    /// An added line.
    Added,
    /// A removed line.
    Removed,
    /// An unchanged line the finding points at.
    Focus,
    /// Any other line: no background.
    Plain,
}

/// Added and removed lines are shaded by kind; among unchanged lines only
/// the focused ones are.
pub open spec fn shade_of(kind: LineKind, focus: bool) -> Shade {
    match kind {
        LineKind::Added => Shade::Added,
        LineKind::Removed => Shade::Removed,
        LineKind::Context => if focus {
            Shade::Focus
        } else {
            Shade::Plain
        },
    }
}

/// The background of a code line.
pub fn line_shade(kind: LineKind, focus: bool) -> (s: Shade)
    ensures
        s == shade_of(kind, focus),
{
    match kind {
        LineKind::Added => Shade::Added,
        LineKind::Removed => Shade::Removed,
        LineKind::Context => if focus {
            Shade::Focus
        } else {
            Shade::Plain
        },
    }
}

/// The gutter before a code line's text: the focus marker, the line number
/// right-aligned in four columns (blank without one), and the diff sign.
pub open spec fn gutter(l: CodeLineView) -> Seq<char> {
    seq![
        if l.focus {
            '\u{25B6}'
        } else {
            ' '
        },
    ] + match l.number {
        Some(n) => padded(n, 4),
        None => spaces(4),
    } + seq![' ', sign_of(l.kind), ' ']
}

/// The gutter text of a code line in the navigator.
pub fn code_gutter(line: &CodeLine) -> (g: String)
    ensures
        g@ == gutter(line@),
{
    let mut v: Vec<char> = Vec::new();
    if line.focus {
        v.push('\u{25B6}');
    } else {
        v.push(' ');
    }
    match line.number {
        Some(n) => append_chars(&mut v, &pad_of(n, 4)),
        None => {
            push_str(&mut v, "    ");
            proof {
                reveal_strlit("    ");
                assert("    "@ =~= spaces(4));
            }
        },
    }
    v.push(' ');
    match line.kind {
        LineKind::Added => v.push('+'),
        LineKind::Removed => v.push('-'),
        LineKind::Context => v.push(' '),
    }
    v.push(' ');
    assert(v@ =~= gutter(line@));
    string_of(&v)
}

/// What becomes of the cached code blocks when the navigator redraws.
#[derive(Debug, Clone, Copy, PartialEq, Eq, Structural)]
pub enum CodeRefresh {
    /// No finding is selected: drop the blocks.
    Clear,
    /// The blocks were built for the selected finding already.
    Keep,
    /// Build the blocks for the selected finding.
    Rebuild,
}

/// Whether the code blocks, built for the finding `cached_for` (if any), must
/// be rebuilt for the finding now `selected` (if any).
pub fn code_refresh(cached_for: Option<&str>, selected: Option<&str>) -> (r: CodeRefresh)
    ensures
        r == match selected {
            None => CodeRefresh::Clear,
            Some(id) => if cached_for matches Some(c) && c@ == id@ {
                CodeRefresh::Keep
            } else {
                CodeRefresh::Rebuild
            },
        },
{
    match selected {
        None => CodeRefresh::Clear,
        Some(id) => match cached_for {
            Some(c) => if chars_eq(&chars_of(c), &chars_of(id)) {
                CodeRefresh::Keep
            } else {
                CodeRefresh::Rebuild
            },
            None => CodeRefresh::Rebuild,
        },
    }
}

// ---------------------------------------------------------------------------
// Keys
// ---------------------------------------------------------------------------
/// A key press, as the navigator distinguishes them.
#[derive(Debug, Clone, Copy, PartialEq, Eq, Structural)]
pub enum Key {
    Char(char),
    Enter,
    Esc,
    Backspace,
    Up,
    Down,
    Home,
    End,
    PageUp,
    PageDown,
    Other,
}

/// What a key press asks the navigator to do.
#[derive(Debug, Clone, Copy, PartialEq, Eq, Structural)]
pub enum Action {
    Quit,
    CancelInput,
    SubmitInput,
    PopInputChar,
    PushInputChar(char),
    CloseHelp,
    ToggleHelp,
    SelectNext,
    SelectPrev,
    SelectFirst,
    SelectLast,
    ScrollDown,
    ScrollUp,
    SetVerdict(Verdict),
    BeginInput(Input),
    NudgePost,
    Reload,
    Nothing,
}

/// The key map of the navigator.
pub open spec fn key_action(key: Key, ctrl: bool, input_open: bool, show_help: bool) -> Action {
    if ctrl && key == Key::Char('c') {
        // Ctrl-C always exits (cancels input first).
        if input_open {
            Action::CancelInput
        } else {
            Action::Quit
        }
    } else if input_open {
        // Input mode captures most keys.
        match key {
            Key::Enter => Action::SubmitInput,
            Key::Esc => Action::CancelInput,
            Key::Backspace => Action::PopInputChar,
            Key::Char(c) => Action::PushInputChar(c),
            _ => Action::Nothing,
        }
    } else {
        match key {
            Key::Char('q') => Action::Quit,
            Key::Esc => if show_help {
                Action::CloseHelp
            } else {
                Action::Quit
            },
            Key::Char('?') => Action::ToggleHelp,
            Key::Char('j') | Key::Down => Action::SelectNext,
            Key::Char('k') | Key::Up => Action::SelectPrev,
            Key::Char('g') | Key::Home => Action::SelectFirst,
            Key::Char('G') | Key::End => Action::SelectLast,
            Key::Char('J') | Key::PageDown => Action::ScrollDown,
            Key::Char('K') | Key::PageUp => Action::ScrollUp,
            Key::Char('a') => Action::SetVerdict(Verdict::Approved),
            Key::Char('d') => Action::SetVerdict(Verdict::Dismissed),
            Key::Char('x') => Action::SetVerdict(Verdict::NeedsDiscussion),
            Key::Char('u') => Action::SetVerdict(Verdict::Pending),
            Key::Char('e') => Action::SetVerdict(Verdict::Edited),
            Key::Char('n') => Action::BeginInput(Input::Note),
            Key::Char('c') => Action::BeginInput(Input::Chat),
            Key::Char('P') => Action::NudgePost,
            Key::Char('r') => Action::Reload,
            _ => Action::Nothing,
        }
    }
}

/// The verdict keys: with the input line closed, `a` approves, `d`
/// dismisses, `x` marks for discussion, `u` sets back to pending and `e`
/// marks as edited — whether Control is held and whether the help is shown
/// make no difference.
pub proof fn law_verdict_keys(ctrl: bool, show_help: bool)
    ensures
        key_action(Key::Char('a'), ctrl, false, show_help) == Action::SetVerdict(Verdict::Approved),
        key_action(Key::Char('d'), ctrl, false, show_help) == Action::SetVerdict(Verdict::Dismissed),
        key_action(Key::Char('x'), ctrl, false, show_help) == Action::SetVerdict(
            Verdict::NeedsDiscussion,
        ),
        key_action(Key::Char('u'), ctrl, false, show_help) == Action::SetVerdict(Verdict::Pending),
        key_action(Key::Char('e'), ctrl, false, show_help) == Action::SetVerdict(Verdict::Edited),
{
}

/// What a key press (with Control held or not) does, given whether the input
/// line is open and whether the help is shown.
pub fn handle_key(key: Key, ctrl: bool, input_open: bool, show_help: bool) -> (a: Action)
    ensures
        a == key_action(key, ctrl, input_open, show_help),
        !input_open && key == Key::Char('a') ==> a == Action::SetVerdict(Verdict::Approved),
        !input_open && key == Key::Char('d') ==> a == Action::SetVerdict(Verdict::Dismissed),
        !input_open && key == Key::Char('x') ==> a == Action::SetVerdict(Verdict::NeedsDiscussion),
        !input_open && key == Key::Char('u') ==> a == Action::SetVerdict(Verdict::Pending),
        !input_open && key == Key::Char('e') ==> a == Action::SetVerdict(Verdict::Edited),
{
    if ctrl && key == Key::Char('c') {
        return if input_open {
            Action::CancelInput
        } else {
            Action::Quit
        };
    }
    if input_open {
        return match key {
            Key::Enter => Action::SubmitInput,
            Key::Esc => Action::CancelInput,
            Key::Backspace => Action::PopInputChar,
            Key::Char(c) => Action::PushInputChar(c),
            _ => Action::Nothing,
        };
    }
    match key {
        Key::Char('q') => Action::Quit,
        Key::Esc => {
            if show_help {
                Action::CloseHelp
            } else {
                Action::Quit
            }
        },
        Key::Char('?') => Action::ToggleHelp,
        Key::Char('j') | Key::Down => Action::SelectNext,
        Key::Char('k') | Key::Up => Action::SelectPrev,
        Key::Char('g') | Key::Home => Action::SelectFirst,
        Key::Char('G') | Key::End => Action::SelectLast,
        Key::Char('J') | Key::PageDown => Action::ScrollDown,
        Key::Char('K') | Key::PageUp => Action::ScrollUp,
        Key::Char('a') => Action::SetVerdict(Verdict::Approved),
        Key::Char('d') => Action::SetVerdict(Verdict::Dismissed),
        Key::Char('x') => Action::SetVerdict(Verdict::NeedsDiscussion),
        Key::Char('u') => Action::SetVerdict(Verdict::Pending),
        Key::Char('e') => Action::SetVerdict(Verdict::Edited),
        Key::Char('n') => Action::BeginInput(Input::Note),
        Key::Char('c') => Action::BeginInput(Input::Chat),
        Key::Char('P') => Action::NudgePost,
        Key::Char('r') => Action::Reload,
        _ => Action::Nothing,
    }
}

} // verus!
