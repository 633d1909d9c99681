//! The `herdr` CLI, seen from co-review.
//!
//! Herdr owns the terminal panes; co-review asks it to lay out the split-screen
//! and launch the agent. This module decides the exact argument lists handed
//! to `herdr`, reads back the ids it prints, and implements the **dry-run
//! mode** (`CO_REVIEW_FAKE_HERDR=1`, or `--dry-run` on `start`) in which
//! nothing is run and synthetic ids are returned, so the orchestrator is fully
//! exercisable without Herdr present.
use vstd::prelude::*;

use crate::text::{
    all_digits, all_digits_of, append_chars, chars_eq, chars_of, contains_of, contains_sub,
    decimal, decimal_of, first_in, has_prefix, in_set, is_digit, lemma_decimal, lemma_first_in,
    lemma_first_in_at, lines, lines_of,
    lower, lower_of, parse_uint, parse_uint_of, push_str, push_string, replace_all, replace_of,
    split_of, split_set, str_views, string_of, subvec, trim, trim_of, views, CharSet,
};

verus! {

/// Environment variable that forces dry-run mode.
pub const FAKE_ENV: &'static str = "CO_REVIEW_FAKE_HERDR";

/// Environment variable naming the herdr binary.
pub const BIN_ENV: &'static str = "HERDR_BIN_PATH";

/// A pane id like `w3:p1`.
pub type PaneId = String;

/// A workspace id like `w3`.
pub type WorkspaceId = String;

#[derive(Debug, Clone, Copy, PartialEq, Eq, Structural)]
pub enum Direction {
    Right,
    Left,
    Up,
    Down,
}

pub open spec fn direction_name(d: Direction) -> Seq<char> {
    match d {
        Direction::Right => "right"@,
        Direction::Left => "left"@,
        Direction::Up => "up"@,
        Direction::Down => "down"@,
    }
}

impl Direction {
    pub fn as_str(self) -> (s: &'static str)
        ensures
            s@ == direction_name(self),
    {
        match self {
            Direction::Right => "right",
            Direction::Left => "left",
            Direction::Up => "up",
            Direction::Down => "down",
        }
    }
}

/// A freshly created workspace and the pane it starts with.
#[derive(Debug, Clone)]
pub struct Workspace {
    pub id: WorkspaceId,
    pub first_pane: PaneId,
}

/// Why an answer from herdr could not be used.
#[derive(Debug, Clone, PartialEq, Eq)]
pub enum HerdrError {
    /// `herdr workspace create` printed neither a workspace nor a pane id.
    NoWorkspaceId(String),
    /// `herdr pane split` printed no pane id.
    NoPaneId(String),
}

/// Handle to the herdr CLI.
pub struct Herdr {
    bin: String,
    dry_run: bool,
}

// ---------------------------------------------------------------------------
// Environment flags
// ---------------------------------------------------------------------------
/// Whether an environment flag with value `v` is on: set, and not empty, `0`,
/// `false` or `no` (ignoring case and surrounding whitespace).
pub open spec fn flag_on(v: Option<Seq<char>>) -> bool {
    match v {
        None => false,
        Some(s) => {
            let t = lower(trim(s));
            !(t.len() == 0 || t == "0"@ || t == "false"@ || t == "no"@)
        },
    }
}

/// Whether an environment flag whose value is `v` (`None` when unset) is on.
pub fn env_flag(v: Option<&str>) -> (on: bool)
    ensures
        on == flag_on(match v {
            Some(s) => Some(s@),
            None => None,
        }),
{
    match v {
        None => false,
        Some(s) => {
            let t = lower_of(&trim_of(&chars_of(s), CharSet::Whitespace));
            !(t.len() == 0 || chars_eq(&t, &chars_of("0")) || chars_eq(&t, &chars_of("false"))
                || chars_eq(&t, &chars_of("no")))
        },
    }
}

impl Herdr {
    pub closed spec fn spec_bin(&self) -> Seq<char> {
        self.bin@
    }

    pub closed spec fn spec_dry_run(&self) -> bool {
        self.dry_run
    }

    /// Build a handle from the values of `HERDR_BIN_PATH` (the binary; `herdr`
    /// when unset or empty) and `CO_REVIEW_FAKE_HERDR`, in dry-run mode when
    /// the flag is on or `force_dry_run` is set.
    pub fn configure(bin_var: Option<String>, fake_var: Option<&str>, force_dry_run: bool) -> (h:
        Herdr)
        ensures
            h.spec_bin() == (match bin_var {
                Some(b) if b@.len() > 0 => b@,
                _ => "herdr"@,
            }),
            h.spec_dry_run() == (force_dry_run || flag_on(
                match fake_var {
                    Some(s) => Some(s@),
                    None => None,
                },
            )),
    {
        let bin = match bin_var {
            Some(b) => {
                if b.as_str().is_empty() {
                    "herdr".to_owned()
                } else {
                    b
                }
            },
            None => "herdr".to_owned(),
        };
        let dry_run = force_dry_run || env_flag(fake_var);
        Herdr { bin, dry_run }
    }

    pub fn is_dry_run(&self) -> (r: bool)
        ensures
            r == self.spec_dry_run(),
    {
        self.dry_run
    }

    /// The herdr binary to run.
    pub fn bin(&self) -> (b: &str)
        ensures
            b@ == self.spec_bin(),
    {
        self.bin.as_str()
    }

    /// Whether herdr can be used: always in dry-run mode, otherwise when the
    /// binary was found on `PATH`.
    pub fn available(&self, bin_on_path: bool) -> (r: bool)
        ensures
            r == (self.spec_dry_run() || bin_on_path),
    {
        self.dry_run || bin_on_path
    }

    /// The line printed in dry-run mode in place of running `args`:
    /// `+ <bin> <args joined by spaces>`.
    pub fn dry_run_line(&self, args: &Vec<String>) -> (line: String)
        ensures
            line@ == "+ "@ + self.spec_bin() + " "@ + join(str_views(args@), " "@),
    {
        let mut v = chars_of("+ ");
        push_str(&mut v, self.bin.as_str());
        push_str(&mut v, " ");
        let joined = join_strings(args, " ");
        push_str(&mut v, joined.as_str());
        string_of(&v)
    }

    /// The workspace `herdr workspace create` reported in `output`. In
    /// dry-run mode nothing was run and the workspace is `w1` with pane `w1:p1`.
    /// Otherwise an explicit pane id in the output wins; else a bare workspace
    /// id is taken with its first pane (`wN` -> `wN:p1`).
    pub fn workspace_create(&self, output: &str) -> (r: Result<Workspace, HerdrError>)
        ensures
            self.spec_dry_run() ==> (r matches Ok(w) && w.id@ == "w1"@ && w.first_pane@
                == "w1:p1"@),
            !self.spec_dry_run() ==> match r {
                Ok(w) => match first_pane_id(output@) {
                    Some(p) => w.first_pane@ == p && w.id@ == workspace_part(p),
                    None => (first_workspace_id(output@) matches Some(wid) && w.id@ == wid
                        && w.first_pane@ == wid + ":p1"@),
                },
                Err(e) => first_pane_id(output@) is None && first_workspace_id(output@) is None
                    && (e matches HerdrError::NoWorkspaceId(o) && o@ == output@),
            },
    {
        if self.dry_run {
            return Ok(Workspace { id: "w1".to_owned(), first_pane: "w1:p1".to_owned() });
        }
        match parse_pane_id(output) {
            Some(pane) => Ok(Workspace { id: workspace_of(pane.as_str()), first_pane: pane }),
            None => match parse_workspace_id(output) {
                Some(wid) => {
                    let pane = {
                        let mut v = chars_of(wid.as_str());
                        push_str(&mut v, ":p1");
                        string_of(&v)
                    };
                    Ok(Workspace { id: wid, first_pane: pane })
                },
                None => Err(HerdrError::NoWorkspaceId(output.to_owned())),
            },
        }
    }

    /// The arguments of `herdr pane split` for this split.
    pub fn pane_split_args(&self, pane: &str, dir: Direction, focus: bool) -> (v: Vec<String>)
        ensures
            str_views(v@) == split_args(pane@, dir, focus),
    {
        build_pane_split_args(pane, dir, focus)
    }

    /// The new pane `herdr pane split` reported in `output`. In dry-run mode
    /// nothing was run and the new pane is the next one after `pane`.
    pub fn pane_split(&self, pane: &str, output: &str) -> (r: Result<PaneId, HerdrError>)
        requires
            self.spec_dry_run() ==> bump_defined(pane@),
        ensures
            self.spec_dry_run() ==> (r matches Ok(p) && p@ == bumped(pane@)),
            !self.spec_dry_run() ==> match r {
                Ok(p) => first_pane_id(output@) == Some(p@),
                Err(e) => first_pane_id(output@) is None && (e matches HerdrError::NoPaneId(o)
                    && o@ == output@),
            },
    {
        if self.dry_run {
            return Ok(bump_pane(pane));
        }
        match parse_pane_id(output) {
            Some(p) => Ok(p),
            None => Err(HerdrError::NoPaneId(output.to_owned())),
        }
    }

    /// The arguments that run a command (given as argv) inside a pane:
    /// `pane run <pane> <command as one shell line>`.
    pub fn pane_run(&self, pane: &str, command: &Vec<String>) -> (v: Vec<String>)
        ensures
            str_views(v@) == seq!["pane"@, "run"@, pane@, shell_line(str_views(command@))],
    {
        let cmd = shell_join(command);
        build_pane_run_args(pane, cmd.as_str())
    }

    /// The arguments that type text into a pane (without pressing Enter).
    pub fn pane_send_text(&self, pane: &str, text: &str) -> (v: Vec<String>)
        ensures
            str_views(v@) == seq!["pane"@, "send-text"@, pane@, text@],
    {
        let mut v: Vec<String> = Vec::new();
        push_string(&mut v, "pane".to_owned());
        push_string(&mut v, "send-text".to_owned());
        push_string(&mut v, pane.to_owned());
        push_string(&mut v, text.to_owned());
        assert(str_views(v@) =~= seq!["pane"@, "send-text"@, pane@, text@]);
        v
    }

    /// The arguments that press named keys in a pane (e.g. `Enter`).
    pub fn pane_send_keys(&self, pane: &str, keys: &Vec<String>) -> (v: Vec<String>)
        ensures
            str_views(v@) == seq!["pane"@, "send-keys"@, pane@] + str_views(keys@),
    {
        let mut v: Vec<String> = Vec::new();
        push_string(&mut v, "pane".to_owned());
        push_string(&mut v, "send-keys".to_owned());
        push_string(&mut v, pane.to_owned());
        let mut i: usize = 0;
        while i < keys.len()
            invariant
                i <= keys.len(),
                str_views(v@) == seq!["pane"@, "send-keys"@, pane@] + str_views(keys@.take(
                    i as int,
                )),
            decreases keys.len() - i,
        {
            push_string(&mut v, keys[i].clone());
            proof {
                assert(str_views(keys@.take(i + 1)) =~= str_views(keys@.take(i as int)).push(
                    keys@[i as int]@,
                ));
            }
            i = i + 1;
        }
        assert(keys@.take(keys@.len() as int) =~= keys@);
        v
    }

    /// The arguments that focus a pane.
    pub fn pane_focus(&self, pane: &str) -> (v: Vec<String>)
        ensures
            str_views(v@) == seq!["pane"@, "focus"@, pane@],
    {
        let mut v: Vec<String> = Vec::new();
        push_string(&mut v, "pane".to_owned());
        push_string(&mut v, "focus".to_owned());
        push_string(&mut v, pane.to_owned());
        assert(str_views(v@) =~= seq!["pane"@, "focus"@, pane@]);
        v
    }

    /// Submitting a line of text to a pane: type it, then press Enter. This is
    /// how the navigator injects a message into the live agent session.
    pub fn pane_submit_line(&self, pane: &str, text: &str) -> (v: (Vec<String>, Vec<String>))
        ensures
            str_views(v.0@) == seq!["pane"@, "send-text"@, pane@, text@],
            str_views(v.1@) == seq!["pane"@, "send-keys"@, pane@, "Enter"@],
    {
        let mut keys: Vec<String> = Vec::new();
        push_string(&mut keys, "Enter".to_owned());
        let send = self.pane_send_text(pane, text);
        let press = self.pane_send_keys(pane, &keys);
        assert(str_views(press@) =~= seq!["pane"@, "send-keys"@, pane@, "Enter"@]);
        (send, press)
    }

    /// The state of the agent running in `pane`, from the `herdr agent list`
    /// output (`None` when that command failed). Unknown in dry-run mode.
    pub fn agent_state(&self, pane: &str, listing: Option<&str>) -> (r: Option<String>)
        ensures
            self.spec_dry_run() ==> r is None,
            !self.spec_dry_run() ==> match listing {
                None => r is None,
                Some(l) => opt_str_view(r) == agent_state_in(lines(l@), pane@),
            },
    {
        if self.dry_run {
            return None;
        }
        match listing {
            None => None,
            Some(l) => parse_agent_state(l, pane),
        }
    }
}

/// The arguments of `herdr agent list`.
pub fn agent_list_args() -> (v: Vec<String>)
    ensures
        str_views(v@) == seq!["agent"@, "list"@],
{
    let mut v: Vec<String> = Vec::new();
    push_string(&mut v, "agent".to_owned());
    push_string(&mut v, "list".to_owned());
    assert(str_views(v@) =~= seq!["agent"@, "list"@]);
    v
}

pub open spec fn opt_str_view(o: Option<String>) -> Option<Seq<char>> {
    match o {
        Some(s) => Some(s@),
        None => None,
    }
}

// ---------------------------------------------------------------------------
// Agent state
// ---------------------------------------------------------------------------
/// The first agent state named in an (ASCII-lowercased) line.
pub open spec fn state_in_line(lw: Seq<char>) -> Option<Seq<char>> {
    if contains_sub(lw, "working"@) {
        Some("working"@)
    } else if contains_sub(lw, "blocked"@) {
        Some("blocked"@)
    } else if contains_sub(lw, "waiting"@) {
        Some("waiting"@)
    } else if contains_sub(lw, "thinking"@) {
        Some("thinking"@)
    } else if contains_sub(lw, "running"@) {
        Some("running"@)
    } else if contains_sub(lw, "done"@) {
        Some("done"@)
    } else if contains_sub(lw, "idle"@) {
        Some("idle"@)
    } else if contains_sub(lw, "error"@) {
        Some("error"@)
    } else {
        None
    }
}

/// The state named on the first line (from index `i` on) that mentions `pane`
/// and names a state.
pub open spec fn agent_state_from(ls: Seq<Seq<char>>, pane: Seq<char>, i: int) -> Option<
    Seq<char>,
>
    decreases ls.len() - i,
{
    if i < 0 || i >= ls.len() {
        None
    } else if contains_sub(ls[i], pane) && state_in_line(lower(ls[i])) is Some {
        state_in_line(lower(ls[i]))
    } else {
        agent_state_from(ls, pane, i + 1)
    }
}

pub open spec fn agent_state_in(ls: Seq<Seq<char>>, pane: Seq<char>) -> Option<Seq<char>> {
    agent_state_from(ls, pane, 0)
}

fn state_in_line_of(lw: &Vec<char>) -> (r: Option<String>)
    ensures
        opt_str_view(r) == state_in_line(lw@),
{
    if contains_of(lw, "working") {
        Some("working".to_owned())
    } else if contains_of(lw, "blocked") {
        Some("blocked".to_owned())
    } else if contains_of(lw, "waiting") {
        Some("waiting".to_owned())
    } else if contains_of(lw, "thinking") {
        Some("thinking".to_owned())
    } else if contains_of(lw, "running") {
        Some("running".to_owned())
    } else if contains_of(lw, "done") {
        Some("done".to_owned())
    } else if contains_of(lw, "idle") {
        Some("idle".to_owned())
    } else if contains_of(lw, "error") {
        Some("error".to_owned())
    } else {
        None
    }
}

/// Scan `herdr agent list` output for the state keyword on the line mentioning
/// `pane`. Deliberately lenient about the exact output format.
pub fn parse_agent_state(list: &str, pane: &str) -> (r: Option<String>)
    ensures
        opt_str_view(r) == agent_state_in(lines(list@), pane@),
{
    let ls = lines_of(&chars_of(list));
    let ghost all = views(ls@);
    let mut i: usize = 0;
    while i < ls.len()
        invariant
            i <= ls.len(),
            all == views(ls@),
            all == lines(list@),
            agent_state_in(all, pane@) == agent_state_from(all, pane@, i as int),
        decreases ls.len() - i,
    {
        let line = &ls[i];
        if contains_of(line, pane) {
            let lw = lower_of(line);
            let st = state_in_line_of(&lw);
            if st.is_some() {
                return st;
            }
        }
        i = i + 1;
    }
    None
}

// ---------------------------------------------------------------------------
// Argument lists
// ---------------------------------------------------------------------------
pub open spec fn split_args(pane: Seq<char>, dir: Direction, focus: bool) -> Seq<Seq<char>> {
    let base = seq!["pane"@, "split"@, pane, "--direction"@, direction_name(dir)];
    if focus {
        base
    } else {
        base.push("--no-focus"@)
    }
}

pub fn build_workspace_create_args(cwd: &str, label: &str) -> (v: Vec<String>)
    ensures
        str_views(v@) == seq!["workspace"@, "create"@, "--cwd"@, cwd@, "--label"@, label@],
{
    let mut v: Vec<String> = Vec::new();
    push_string(&mut v, "workspace".to_owned());
    push_string(&mut v, "create".to_owned());
    push_string(&mut v, "--cwd".to_owned());
    push_string(&mut v, cwd.to_owned());
    push_string(&mut v, "--label".to_owned());
    push_string(&mut v, label.to_owned());
    assert(str_views(v@) =~= seq!["workspace"@, "create"@, "--cwd"@, cwd@, "--label"@, label@]);
    v
}

pub fn build_pane_split_args(pane: &str, dir: Direction, focus: bool) -> (v: Vec<String>)
    ensures
        str_views(v@) == split_args(pane@, dir, focus),
{
    let mut v: Vec<String> = Vec::new();
    push_string(&mut v, "pane".to_owned());
    push_string(&mut v, "split".to_owned());
    push_string(&mut v, pane.to_owned());
    push_string(&mut v, "--direction".to_owned());
    push_string(&mut v, dir.as_str().to_owned());
    if !focus {
        push_string(&mut v, "--no-focus".to_owned());
    }
    assert(str_views(v@) =~= split_args(pane@, dir, focus));
    v
}

pub fn build_pane_run_args(pane: &str, command: &str) -> (v: Vec<String>)
    ensures
        str_views(v@) == seq!["pane"@, "run"@, pane@, command@],
{
    let mut v: Vec<String> = Vec::new();
    push_string(&mut v, "pane".to_owned());
    push_string(&mut v, "run".to_owned());
    push_string(&mut v, pane.to_owned());
    push_string(&mut v, command.to_owned());
    assert(str_views(v@) =~= seq!["pane"@, "run"@, pane@, command@]);
    v
}

// ---------------------------------------------------------------------------
// Shell quoting
// ---------------------------------------------------------------------------
/// Characters that need no quoting in a shell word.
pub open spec fn shell_safe(c: char) -> bool {
    ||| '0' <= c <= '9'
    ||| 'a' <= c <= 'z'
    ||| 'A' <= c <= 'Z'
    ||| c == '_' || c == '-' || c == '.' || c == '/' || c == ':' || c == '=' || c == '@'
    ||| c == ','
}

pub open spec fn all_shell_safe(s: Seq<char>) -> bool {
    forall|i: int| 0 <= i < s.len() ==> shell_safe(#[trigger] s[i])
}

/// What [`shell_quote`] returns: a non-empty argument of safe characters as
/// it is, anything else in single quotes with each `'` written `'\''`.
pub open spec fn quoted(arg: Seq<char>) -> Seq<char> {
    if arg.len() > 0 && all_shell_safe(arg) {
        arg
    } else {
        "'"@ + replace_all(arg, "'"@, "'\\''"@) + "'"@
    }
}

/// `parts` joined with `sep` between consecutive parts.
pub open spec fn join(parts: Seq<Seq<char>>, sep: Seq<char>) -> Seq<char>
    decreases parts.len(),
{
    if parts.len() == 0 {
        Seq::<char>::empty()
    } else if parts.len() == 1 {
        parts[0]
    } else {
        join(parts.drop_last(), sep) + sep + parts.last()
    }
}

/// The shell command line for an argv: each argument quoted, separated by
/// single spaces.
pub open spec fn shell_line(argv: Seq<Seq<char>>) -> Seq<char> {
    join(argv.map_values(|a: Seq<char>| quoted(a)), " "@)
}

fn is_shell_safe(c: char) -> (r: bool)
    ensures
        r == shell_safe(c),
{
    ('0' <= c && c <= '9') || ('a' <= c && c <= 'z') || ('A' <= c && c <= 'Z') || c == '_' || c
        == '-' || c == '.' || c == '/' || c == ':' || c == '=' || c == '@' || c == ','
}

/// Single-quote a shell argument, escaping embedded single quotes.
pub fn shell_quote(arg: &str) -> (out: String)
    ensures
        out@ == quoted(arg@),
{
    let v = chars_of(arg);
    let mut safe = v.len() > 0;
    let mut i: usize = 0;
    while i < v.len()
        invariant
            i <= v.len(),
            safe == (v@.len() > 0 && forall|j: int| 0 <= j < i ==> shell_safe(#[trigger] v@[j])),
        decreases v.len() - i,
    {
        if !is_shell_safe(v[i]) {
            safe = false;
        }
        i = i + 1;
    }
    if safe {
        return arg.to_owned();
    }
    proof {
        reveal_strlit("'");
        reveal_strlit("'\\''");
    }
    let escaped = replace_of(&v, &chars_of("'"), &chars_of("'\\''"));
    let mut out = chars_of("'");
    append_chars(&mut out, &escaped);
    push_str(&mut out, "'");
    string_of(&out)
}

/// Join strings with a separator.
pub fn join_strings(parts: &Vec<String>, sep: &str) -> (out: String)
    ensures
        out@ == join(str_views(parts@), sep@),
{
    let ghost all = str_views(parts@);
    let mut v: Vec<char> = Vec::new();
    let mut i: usize = 0;
    while i < parts.len()
        invariant
            i <= parts.len(),
            all == str_views(parts@),
            v@ == join(all.take(i as int), sep@),
        decreases parts.len() - i,
    {
        proof {
            assert(all.take(i + 1).drop_last() =~= all.take(i as int));
        }
        if i > 0 {
            push_str(&mut v, sep);
        } else {
            assert(join(all.take(0), sep@) =~= Seq::<char>::empty());
        }
        push_str(&mut v, parts[i].as_str());
        proof {
            if i == 0 {
                assert(v@ =~= all.take(1)[0]);
            }
        }
        i = i + 1;
    }
    assert(all.take(parts@.len() as int) =~= all);
    string_of(&v)
}

/// Join an argv into a single shell command line, quoting as needed. `herdr pane
/// run` takes the command as one string, so we must render argv safely.
pub fn shell_join(argv: &Vec<String>) -> (out: String)
    ensures
        out@ == shell_line(str_views(argv@)),
{
    let mut q: Vec<String> = Vec::new();
    let mut i: usize = 0;
    while i < argv.len()
        invariant
            i <= argv.len(),
            str_views(q@) == str_views(argv@).take(i as int).map_values(|a: Seq<char>| quoted(a)),
        decreases argv.len() - i,
    {
        let a = shell_quote(argv[i].as_str());
        push_string(&mut q, a);
        proof {
            assert(str_views(argv@).take(i + 1).map_values(|a: Seq<char>| quoted(a)) =~= str_views(
                argv@,
            ).take(i as int).map_values(|a: Seq<char>| quoted(a)).push(quoted(argv@[i as int]@)));
        }
        i = i + 1;
    }
    assert(str_views(argv@).take(argv@.len() as int) =~= str_views(argv@));
    join_strings(&q, " ")
}

/// How a POSIX shell reads one word made of safe characters, single-quoted
/// runs and backslash-escaped characters; `None` for anything else (such as
/// an unquoted space, which would end the word). `in_quotes` tells whether the
/// reading starts inside single quotes.
pub open spec fn shell_read(s: Seq<char>, in_quotes: bool) -> Option<Seq<char>>
    decreases s.len(),
{
    if s.len() == 0 {
        if in_quotes {
            None
        } else {
            Some(Seq::<char>::empty())
        }
    } else if in_quotes {
        if s[0] == '\'' {
            shell_read(s.drop_first(), false)
        } else {
            match shell_read(s.drop_first(), true) {
                Some(r) => Some(seq![s[0]] + r),
                None => None,
            }
        }
    } else if s[0] == '\'' {
        shell_read(s.drop_first(), true)
    } else if s[0] == '\\' && s.len() >= 2 {
        match shell_read(s.skip(2), false) {
            Some(r) => Some(seq![s[1]] + r),
            None => None,
        }
    } else if shell_safe(s[0]) {
        match shell_read(s.drop_first(), false) {
            Some(r) => Some(seq![s[0]] + r),
            None => None,
        }
    } else {
        None
    }
}

proof fn lemma_read_safe(a: Seq<char>)
    requires
        all_shell_safe(a),
    ensures
        shell_read(a, false) == Some(a),
    decreases a.len(),
{
    if a.len() > 0 {
        assert(shell_safe(a[0]));
        assert forall|i: int| 0 <= i < a.drop_first().len() implies shell_safe(
            #[trigger] a.drop_first()[i],
        ) by {
            assert(a.drop_first()[i] == a[i + 1]);
        }
        lemma_read_safe(a.drop_first());
        assert(seq![a[0]] + a.drop_first() =~= a);
    } else {
        assert(a =~= Seq::<char>::empty());
    }
}

proof fn lemma_read_quoted_body(a: Seq<char>)
    ensures
        shell_read(replace_all(a, "'"@, "'\\''"@) + "'"@, true) == Some(a),
    decreases a.len(),
{
    reveal_strlit("'");
    reveal_strlit("'\\''");
    let q = "'"@;
    let e = "'\\''"@;
    assert(q =~= seq!['\'']);
    assert(e =~= seq!['\'', '\\', '\'', '\'']);
    if a.len() == 0 {
        let s = replace_all(a, q, e) + q;
        assert(s =~= seq!['\'']);
        assert(s.drop_first() =~= Seq::<char>::empty());
        assert(shell_read(s.drop_first(), false) == Some(Seq::<char>::empty()));
        assert(a =~= Seq::<char>::empty());
    } else {
        lemma_read_quoted_body(a.drop_first());
        let rest = replace_all(a.drop_first(), q, e) + q;
        assert(shell_read(rest, true) == Some(a.drop_first()));
        if a[0] == '\'' {
            assert(a.take(1) =~= q);
            assert(a.skip(1) =~= a.drop_first());
            let s = e + rest;
            assert(replace_all(a, q, e) + q =~= s);
            let s2 = seq!['\''] + rest;
            assert(s2.drop_first() =~= rest);
            assert(shell_read(s2, false) == shell_read(rest, true));
            let s1 = seq!['\\', '\''] + s2;
            assert(s1.skip(2) =~= s2);
            assert(s1[0] == '\\' && s1[1] == '\'');
            assert(shell_read(s1, false) == Some(seq!['\''] + a.drop_first()));
            assert(s.drop_first() =~= s1);
            assert(seq!['\''] + a.drop_first() =~= a);
        } else {
            assert(a.take(1) != q) by {
                assert(a.take(1)[0] != q[0]);
            }
            let s = seq![a[0]] + rest;
            assert(replace_all(a, q, e) + q =~= s);
            assert(s.drop_first() =~= rest);
            assert(seq![a[0]] + a.drop_first() =~= a);
        }
    }
}

/// Quoting is faithful: the shell reads the quoted form of any argument as
/// one word whose value is exactly that argument.
pub proof fn law_shell_quote_roundtrip(arg: Seq<char>)
    ensures
        shell_read(quoted(arg), false) == Some(arg),
{
    if arg.len() > 0 && all_shell_safe(arg) {
        lemma_read_safe(arg);
    } else {
        reveal_strlit("'");
        let body = replace_all(arg, "'"@, "'\\''"@) + "'"@;
        lemma_read_quoted_body(arg);
        assert(quoted(arg) =~= seq!['\''] + body);
        assert((seq!['\''] + body).drop_first() =~= body);
    }
}

// ---------------------------------------------------------------------------
// Reading a whole command line back
// ---------------------------------------------------------------------------
/// How a POSIX shell reads the first word of `s` (made of safe characters,
/// single-quoted runs and backslash-escaped characters) up to an unquoted
/// space, which is consumed, or the end: the word and what follows. `None`
/// for anything else. `in_quotes` tells whether the reading starts inside
/// single quotes.
pub open spec fn read_word(s: Seq<char>, in_quotes: bool) -> Option<(Seq<char>, Seq<char>)>
    decreases s.len(),
{
    if s.len() == 0 {
        if in_quotes {
            None
        } else {
            Some((Seq::<char>::empty(), Seq::<char>::empty()))
        }
    } else if in_quotes {
        if s[0] == '\'' {
            read_word(s.drop_first(), false)
        } else {
            match read_word(s.drop_first(), true) {
                Some((w, r)) => Some((seq![s[0]] + w, r)),
                None => None,
            }
        }
    } else if s[0] == ' ' {
        Some((Seq::<char>::empty(), s.drop_first()))
    } else if s[0] == '\'' {
        read_word(s.drop_first(), true)
    } else if s[0] == '\\' && s.len() >= 2 {
        match read_word(s.skip(2), false) {
            Some((w, r)) => Some((seq![s[1]] + w, r)),
            None => None,
        }
    } else if shell_safe(s[0]) {
        match read_word(s.drop_first(), false) {
            Some((w, r)) => Some((seq![s[0]] + w, r)),
            None => None,
        }
    } else {
        None
    }
}

/// The words a POSIX shell reads from a command line whose words are
/// separated by single spaces; `None` when some word cannot be read.
pub open spec fn shell_words(s: Seq<char>) -> Option<Seq<Seq<char>>>
    decreases s.len(),
{
    if s.len() == 0 {
        Some(Seq::empty())
    } else {
        match read_word(s, false) {
            Some((w, r)) => if r.len() < s.len() {
                match shell_words(r) {
                    Some(ws) => Some(seq![w] + ws),
                    None => None,
                }
            } else {
                None
            },
            None => None,
        }
    }
}

/// What follows a word: nothing at the end of the line, else the line after
/// the separating space.
pub open spec fn after_word(tail: Seq<char>) -> Seq<char> {
    if tail.len() == 0 {
        tail
    } else {
        tail.drop_first()
    }
}

proof fn lemma_word_safe(a: Seq<char>, tail: Seq<char>)
    requires
        all_shell_safe(a),
        tail.len() == 0 || tail[0] == ' ',
    ensures
        read_word(a + tail, false) == Some((a, after_word(tail))),
    decreases a.len(),
{
    if a.len() > 0 {
        assert(shell_safe(a[0]));
        assert(a[0] != ' ' && a[0] != '\'' && a[0] != '\\');
        assert forall|i: int| 0 <= i < a.drop_first().len() implies shell_safe(
            #[trigger] a.drop_first()[i],
        ) by {
            assert(a.drop_first()[i] == a[i + 1]);
        }
        lemma_word_safe(a.drop_first(), tail);
        assert((a + tail).drop_first() =~= a.drop_first() + tail);
        assert(seq![a[0]] + a.drop_first() =~= a);
    } else {
        assert(a + tail =~= tail);
        assert(a =~= Seq::<char>::empty());
        if tail.len() > 0 {
            assert(tail[0] == ' ');
        }
    }
}

proof fn lemma_word_quoted_body(a: Seq<char>, tail: Seq<char>)
    requires
        tail.len() == 0 || tail[0] == ' ',
    ensures
        read_word(replace_all(a, "'"@, "'\\''"@) + "'"@ + tail, true) == Some((a, after_word(tail))),
    decreases a.len(),
{
    reveal_strlit("'");
    reveal_strlit("'\\''");
    let q = "'"@;
    let e = "'\\''"@;
    assert(q =~= seq!['\'']);
    assert(e =~= seq!['\'', '\\', '\'', '\'']);
    if a.len() == 0 {
        let s = replace_all(a, q, e) + q + tail;
        assert(s =~= seq!['\''] + tail);
        assert(s.drop_first() =~= tail);
        lemma_word_safe(Seq::<char>::empty(), tail);
        assert(Seq::<char>::empty() + tail =~= tail);
        assert(a =~= Seq::<char>::empty());
    } else {
        lemma_word_quoted_body(a.drop_first(), tail);
        let rest = replace_all(a.drop_first(), q, e) + q + tail;
        if a[0] == '\'' {
            assert(a.take(1) =~= q);
            assert(a.skip(1) =~= a.drop_first());
            let s = e + rest;
            assert(replace_all(a, q, e) + q + tail =~= s);
            let s2 = seq!['\''] + rest;
            assert(s2.drop_first() =~= rest);
            assert(read_word(s2, false) == read_word(rest, true));
            let s1 = seq!['\\', '\''] + s2;
            assert(s1.skip(2) =~= s2);
            assert(s1[0] == '\\' && s1[1] == '\'');
            assert(read_word(s1, false) == Some((seq!['\''] + a.drop_first(), after_word(tail))));
            assert(s.drop_first() =~= s1);
            assert(seq!['\''] + a.drop_first() =~= a);
        } else {
            assert(a.take(1) != q) by {
                assert(a.take(1)[0] != q[0]);
            }
            let s = seq![a[0]] + rest;
            assert(replace_all(a, q, e) + q + tail =~= s);
            assert(s.drop_first() =~= rest);
            assert(seq![a[0]] + a.drop_first() =~= a);
        }
    }
}

/// The quoted form of an argument, followed by the end of the line or a
/// space, reads back as that argument.
proof fn lemma_quoted_word(arg: Seq<char>, tail: Seq<char>)
    requires
        tail.len() == 0 || tail[0] == ' ',
    ensures
        read_word(quoted(arg) + tail, false) == Some((arg, after_word(tail))),
        quoted(arg).len() > 0,
{
    if arg.len() > 0 && all_shell_safe(arg) {
        lemma_word_safe(arg, tail);
    } else {
        reveal_strlit("'");
        let body = replace_all(arg, "'"@, "'\\''"@) + "'"@;
        lemma_word_quoted_body(arg, tail);
        assert(quoted(arg) =~= seq!['\''] + body);
        assert((quoted(arg) + tail).drop_first() =~= body + tail);
    }
}

/// `join` taken apart at its first part.
proof fn lemma_join_first(parts: Seq<Seq<char>>, sep: Seq<char>)
    requires
        parts.len() >= 2,
    ensures
        join(parts, sep) == parts[0] + sep + join(parts.drop_first(), sep),
    decreases parts.len(),
{
    if parts.len() == 2 {
        assert(parts.drop_last().len() == 1 && parts.drop_last()[0] == parts[0]);
        assert(parts.drop_first().len() == 1 && parts.drop_first()[0] == parts[1]);
        assert(join(parts.drop_last(), sep) == parts[0]);
        assert(join(parts.drop_first(), sep) == parts[1]);
        assert(join(parts, sep) == join(parts.drop_last(), sep) + sep + parts.last());
    } else {
        let pl = parts.drop_last();
        let pf = parts.drop_first();
        lemma_join_first(pl, sep);
        assert(pl.drop_first() =~= pf.drop_last());
        assert(pf.last() == parts.last());
        assert(pl[0] == parts[0]);
        assert(join(parts, sep) == join(pl, sep) + sep + parts.last());
        assert(join(pf, sep) == join(pf.drop_last(), sep) + sep + pf.last());
        assert(join(parts, sep) =~= parts[0] + sep + (join(pf.drop_last(), sep) + sep + pf.last()));
    }
}

/// A command line built by [`shell_join`] reads back, word for word, as the
/// argv it was built from: `herdr pane run` hands the pane exactly the
/// intended arguments.
pub proof fn law_shell_line_roundtrip(argv: Seq<Seq<char>>)
    ensures
        shell_words(shell_line(argv)) == Some(argv),
    decreases argv.len(),
{
    reveal_strlit(" ");
    let qs = argv.map_values(|a: Seq<char>| quoted(a));
    if argv.len() == 0 {
        assert(shell_line(argv) =~= Seq::<char>::empty());
        assert(argv =~= Seq::<Seq<char>>::empty());
    } else if argv.len() == 1 {
        assert(shell_line(argv) == quoted(argv[0]));
        lemma_quoted_word(argv[0], Seq::<char>::empty());
        assert(quoted(argv[0]) + Seq::<char>::empty() =~= quoted(argv[0]));
        assert(seq![argv[0]] + Seq::<Seq<char>>::empty() =~= argv);
    } else {
        let rest = argv.drop_first();
        law_shell_line_roundtrip(rest);
        lemma_join_first(qs, " "@);
        assert(qs.drop_first() =~= rest.map_values(|a: Seq<char>| quoted(a)));
        let rest_line = shell_line(rest);
        let tail = " "@ + rest_line;
        assert(tail[0] == ' ');
        lemma_quoted_word(argv[0], tail);
        assert(shell_line(argv) =~= quoted(argv[0]) + tail);
        assert(after_word(tail) =~= rest_line);
        assert(seq![argv[0]] + rest =~= argv);
    }
}

// ---------------------------------------------------------------------------
// Pane and workspace ids
// ---------------------------------------------------------------------------
/// `wN`: a `w` followed by at least one digit.
pub open spec fn is_workspace_id(t: Seq<char>) -> bool {
    t.len() > 1 && t[0] == 'w' && all_digits(t.skip(1))
}

/// `wN:pM`.
pub open spec fn is_pane_id_spec(t: Seq<char>) -> bool {
    let i = first_in(t, CharSet::Only(':'));
    &&& i >= 0
    &&& is_workspace_id(t.take(i))
    &&& {
        let p = t.skip(i + 1);
        p.len() > 1 && p[0] == 'p' && all_digits(p.skip(1))
    }
}

/// The first token (from index `i` on) that is a pane id.
pub open spec fn first_pane_from(toks: Seq<Seq<char>>, i: int) -> Option<Seq<char>>
    decreases toks.len() - i,
{
    if i < 0 || i >= toks.len() {
        None
    } else if is_pane_id_spec(toks[i]) {
        Some(toks[i])
    } else {
        first_pane_from(toks, i + 1)
    }
}

/// The first token (from index `i` on) that is a workspace id.
pub open spec fn first_workspace_from(toks: Seq<Seq<char>>, i: int) -> Option<Seq<char>>
    decreases toks.len() - i,
{
    if i < 0 || i >= toks.len() {
        None
    } else if is_workspace_id(toks[i]) {
        Some(toks[i])
    } else {
        first_workspace_from(toks, i + 1)
    }
}

/// The first pane id (`wN:pM`) among the tokens of `text` split at whitespace,
/// quotes and commas.
pub open spec fn first_pane_id(text: Seq<char>) -> Option<Seq<char>> {
    first_pane_from(split_set(text, CharSet::WhitespaceQuoteComma), 0)
}

/// The first bare workspace id (`wN`) among the tokens of `text` split at
/// whitespace, quotes, commas and colons.
pub open spec fn first_workspace_id(text: Seq<char>) -> Option<Seq<char>> {
    first_workspace_from(split_set(text, CharSet::WhitespaceQuoteCommaColon), 0)
}

/// The workspace part of a pane id: everything before the first `:`.
pub open spec fn workspace_part(pane: Seq<char>) -> Seq<char> {
    let i = first_in(pane, CharSet::Only(':'));
    if i >= 0 {
        pane.take(i)
    } else {
        pane
    }
}

/// The number after `p` in the pane part of `wN:pM`, if it parses.
pub open spec fn pane_number(pane: Seq<char>) -> Option<nat> {
    let i = first_in(pane, CharSet::Only(':'));
    if i < 0 {
        None
    } else {
        let q = pane.skip(i + 1);
        if has_prefix(q, "p"@) {
            parse_uint(q.skip(1), u32::MAX as nat)
        } else {
            None
        }
    }
}

/// Where bumping is defined: the pane number is not already the largest.
pub open spec fn bump_defined(pane: Seq<char>) -> bool {
    pane_number(pane) != Some(u32::MAX as nat)
}

/// What [`bump_pane`] returns: `wN:p(M+1)` for `wN:pM`, else the input with a
/// `b` appended.
pub open spec fn bumped(pane: Seq<char>) -> Seq<char> {
    match pane_number(pane) {
        Some(n) => workspace_part(pane) + ":p"@ + decimal(n + 1),
        None => pane + "b"@,
    }
}

fn is_wid_of(tok: &Vec<char>) -> (r: bool)
    ensures
        r == is_workspace_id(tok@),
{
    if tok.len() > 1 && tok[0] == 'w' {
        let rest = subvec(tok, 1, tok.len());
        assert(rest@ =~= tok@.skip(1));
        all_digits_of(&rest)
    } else {
        false
    }
}

/// Index of the first `:` in `v`, or `v.len()`.
fn colon_index(v: &Vec<char>) -> (i: usize)
    ensures
        i <= v.len(),
        first_in(v@, CharSet::Only(':')) == if i == v.len() { -1 } else { i as int },
{
    let mut i: usize = 0;
    while i < v.len() && v[i] != ':'
        invariant
            i <= v.len(),
            forall|j: int| 0 <= j < i ==> !in_set(CharSet::Only(':'), #[trigger] v@[j]),
        decreases v.len() - i,
    {
        i = i + 1;
    }
    proof {
        lemma_first_in_at(v@, CharSet::Only(':'), i as int);
    }
    i
}

fn is_pane_id_of(tok: &Vec<char>) -> (r: bool)
    ensures
        r == is_pane_id_spec(tok@),
{
    let i = colon_index(tok);
    if i == tok.len() {
        return false;
    }
    let w = subvec(tok, 0, i);
    let p = subvec(tok, i + 1, tok.len());
    assert(w@ =~= tok@.take(i as int));
    assert(p@ =~= tok@.skip(i + 1));
    if !is_wid_of(&w) {
        return false;
    }
    if p.len() > 1 && p[0] == 'p' {
        let rest = subvec(&p, 1, p.len());
        assert(rest@ =~= p@.skip(1));
        all_digits_of(&rest)
    } else {
        false
    }
}

/// Extract the first pane id (`wN:pM`) appearing in some text.
pub fn parse_pane_id(text: &str) -> (r: Option<PaneId>)
    ensures
        opt_str_view(r) == first_pane_id(text@),
{
    let toks = split_of(&chars_of(text), CharSet::WhitespaceQuoteComma);
    let ghost all = views(toks@);
    let mut i: usize = 0;
    while i < toks.len()
        invariant
            i <= toks.len(),
            all == views(toks@),
            all == split_set(text@, CharSet::WhitespaceQuoteComma),
            first_pane_id(text@) == first_pane_from(all, i as int),
        decreases toks.len() - i,
    {
        if is_pane_id_of(&toks[i]) {
            return Some(string_of(&toks[i]));
        }
        i = i + 1;
    }
    None
}

/// Extract the first bare workspace id (`wN`) appearing in some text.
pub fn parse_workspace_id(text: &str) -> (r: Option<WorkspaceId>)
    ensures
        opt_str_view(r) == first_workspace_id(text@),
{
    let toks = split_of(&chars_of(text), CharSet::WhitespaceQuoteCommaColon);
    let ghost all = views(toks@);
    let mut i: usize = 0;
    while i < toks.len()
        invariant
            i <= toks.len(),
            all == views(toks@),
            all == split_set(text@, CharSet::WhitespaceQuoteCommaColon),
            first_workspace_id(text@) == first_workspace_from(all, i as int),
        decreases toks.len() - i,
    {
        if is_wid_of(&toks[i]) {
            return Some(string_of(&toks[i]));
        }
        i = i + 1;
    }
    None
}

/// Whether a token is a pane id (`wN:pM`).
pub fn is_pane_id(tok: &str) -> (r: bool)
    ensures
        r == is_pane_id_spec(tok@),
{
    is_pane_id_of(&chars_of(tok))
}

/// Whether a token is a workspace id (`wN`).
pub fn is_wid(tok: &str) -> (r: bool)
    ensures
        r == is_workspace_id(tok@),
{
    is_wid_of(&chars_of(tok))
}

/// The workspace a pane belongs to.
pub fn workspace_of(pane: &str) -> (w: WorkspaceId)
    ensures
        w@ == workspace_part(pane@),
{
    let v = chars_of(pane);
    let i = colon_index(&v);
    let w = subvec(&v, 0, i);
    assert(i == v.len() ==> w@ =~= v@);
    assert(i < v.len() ==> w@ =~= v@.take(i as int));
    string_of(&w)
}

/// Whether [`bump_pane`] can number the pane after `pane`: always, unless its
/// number is already the largest there is.
pub fn can_bump(pane: &str) -> (b: bool)
    ensures
        b == bump_defined(pane@),
{
    let v = chars_of(pane);
    let i = colon_index(&v);
    if i < v.len() {
        let q = subvec(&v, i + 1, v.len());
        assert(q@ =~= v@.skip(i + 1));
        proof {
            reveal_strlit("p");
        }
        if q.len() > 0 && q[0] == 'p' {
            let digits = subvec(&q, 1, q.len());
            assert(digits@ =~= q@.skip(1));
            assert(has_prefix(q@, "p"@)) by {
                assert(q@.take(1) =~= "p"@);
            }
            return match parse_uint_of(&digits, u32::MAX as u64) {
                Some(n) => n != u32::MAX as u64,
                None => true,
            };
        } else {
            assert(!has_prefix(q@, "p"@)) by {
                if q@.len() > 0 {
                    assert(q@.take(1)[0] != "p"@[0]);
                }
            }
        }
    }
    true
}

/// Dry-run helper: given `wN:pM`, return `wN:p(M+1)`.
pub fn bump_pane(pane: &str) -> (p: PaneId)
    requires
        bump_defined(pane@),
    ensures
        p@ == bumped(pane@),
{
    let v = chars_of(pane);
    let i = colon_index(&v);
    if i < v.len() {
        let w = subvec(&v, 0, i);
        let q = subvec(&v, i + 1, v.len());
        assert(w@ =~= v@.take(i as int));
        assert(q@ =~= v@.skip(i + 1));
        proof {
            reveal_strlit("p");
        }
        if q.len() > 0 && q[0] == 'p' {
            let digits = subvec(&q, 1, q.len());
            assert(digits@ =~= q@.skip(1));
            assert(has_prefix(q@, "p"@)) by {
                assert(q@.take(1) =~= "p"@);
            }
            if let Some(n) = parse_uint_of(&digits, u32::MAX as u64) {
                let mut out = w;
                push_str(&mut out, ":p");
                append_chars(&mut out, &decimal_of(n + 1));
                return string_of(&out);
            }
        } else {
            assert(!has_prefix(q@, "p"@)) by {
                if q@.len() > 0 {
                    assert(q@.take(1)[0] != "p"@[0]);
                }
            }
        }
    }
    let mut out = v;
    push_str(&mut out, "b");
    string_of(&out)
}

/// `w:pN` for a workspace part without `:` has workspace `w` and pane number `N`.
proof fn lemma_pane_parts(w: Seq<char>, m: nat)
    requires
        forall|j: int| 0 <= j < w.len() ==> #[trigger] w[j] != ':',
        m <= u32::MAX,
    ensures
        workspace_part(w + ":p"@ + decimal(m)) == w,
        pane_number(w + ":p"@ + decimal(m)) == Some(m),
{
    let d = decimal(m);
    lemma_decimal(m);
    reveal_strlit(":p");
    reveal_strlit("p");
    let b = w + ":p"@ + d;
    let i = w.len() as int;
    assert forall|j: int| 0 <= j < i implies !in_set(CharSet::Only(':'), #[trigger] b[j]) by {
        assert(b[j] == w[j]);
    }
    assert(b[i] == ':');
    lemma_first_in_at(b, CharSet::Only(':'), i);
    assert(b.take(i) =~= w);
    let q = b.skip(i + 1);
    assert(q =~= seq!['p'] + d);
    assert(q.take(1) =~= "p"@);
    assert(q.skip(1) =~= d);
    assert(is_digit(d[0]));
    assert(parse_uint(d, u32::MAX as nat) == Some(m));
}

/// In a dry run each split hands out the next pane of the same workspace:
/// bumping `wN:pM` keeps `wN` and numbers the new pane `M + 1`.
pub proof fn law_bump_next_pane(pane: Seq<char>)
    requires
        pane_number(pane) is Some,
        bump_defined(pane),
    ensures
        workspace_part(bumped(pane)) == workspace_part(pane),
        pane_number(bumped(pane)) == Some(pane_number(pane)->0 + 1),
{
    let m = pane_number(pane)->0;
    let i = first_in(pane, CharSet::Only(':'));
    lemma_first_in(pane, CharSet::Only(':'));
    let w = pane.take(i);
    assert forall|j: int| 0 <= j < w.len() implies #[trigger] w[j] != ':' by {
        assert(w[j] == pane[j]);
        assert(!in_set(CharSet::Only(':'), pane[j]));
    }
    assert(m <= u32::MAX);
    assert(workspace_part(pane) == w);
    assert(bumped(pane) == w + ":p"@ + decimal(m + 1));
    lemma_pane_parts(w, m + 1);
}

} // verus!
