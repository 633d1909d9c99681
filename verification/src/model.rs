//! The shared session state and everything in it.
//!
//! A session records the pull request under review, the panes it runs in, the
//! findings the agent has recorded with the human's verdict on each, and the
//! chat between them. `rev` counts the writes, so readers can tell when the
//! state changed.
use vstd::prelude::*;

use crate::text::{
    all_digits, append_chars, chars_eq, chars_of, decimal, decimal_of, digits_value, first_in,
    first_in_of, has_suffix, push_string, str_views, in_set, is_digit, is_ws, last_in, last_in_of, lemma_decimal,
    lemma_first_in_at, lemma_last_in, trim_end_set, trim_start_set, parse_uint, parse_uint_of, push_str, same_str, string_of,
    strip_suffix, strip_suffix_of, subvec, trim, trim_of, CharSet,
};
use crate::util::{slug, slugify};

verus! {

/// Which side of the pull request a location points at.
#[derive(Debug, Clone, Copy, PartialEq, Eq, Structural)]
pub enum Side {
    /// The PR's head (the default).
    Head,
    /// The PR's base.
    Base,
}

/// A place in the code that a finding refers to.
#[derive(Debug, Clone, PartialEq, Eq)]
pub struct Location {
    pub file: String,
    pub start_line: u32,
    /// Last line of a range; `None` for a single line.
    pub end_line: Option<u32>,
    pub side: Side,
}

impl Location {
    pub open spec fn spec_end(&self) -> u32 {
        match self.end_line {
            Some(e) => e,
            None => self.start_line,
        }
    }

    /// The last line the location covers.
    pub fn end(&self) -> (e: u32)
        ensures
            e == self.spec_end(),
    {
        match self.end_line {
            Some(e) => e,
            None => self.start_line,
        }
    }

    pub open spec fn spec_label(&self) -> Seq<char> {
        let range = match self.end_line {
            Some(e) if e != self.start_line => self.file@ + ":"@ + decimal(self.start_line as nat)
                + "-"@ + decimal(e as nat),
            _ => self.file@ + ":"@ + decimal(self.start_line as nat),
        };
        match self.side {
            Side::Head => range,
            Side::Base => range + "@base"@,
        }
    }

    /// `path:line`, `path:start-end`, with `@base` for base-side locations.
    /// A range that ends where it starts is shown as a single line.
    pub fn label(&self) -> (s: String)
        ensures
            s@ == self.spec_label(),
    {
        let mut v = chars_of(self.file.as_str());
        push_str(&mut v, ":");
        append_chars(&mut v, &decimal_of(self.start_line as u64));
        match self.end_line {
            Some(e) => {
                if e != self.start_line {
                    push_str(&mut v, "-");
                    append_chars(&mut v, &decimal_of(e as u64));
                }
            },
            None => {},
        }
        match self.side {
            Side::Head => {},
            Side::Base => push_str(&mut v, "@base"),
        }
        string_of(&v)
    }
}

/// What a location written `path:line` or `path:start-end`, optionally
/// followed by `@base`, stands for: the path before the last `:` (which must
/// not be empty), the line numbers, and the side. Surrounding whitespace is
/// ignored.
pub open spec fn location_parts(s: Seq<char>) -> Option<(Seq<char>, u32, Option<u32>, Side)> {
    let t = trim(s);
    let (body, side) = match strip_suffix(t, "@base"@) {
        Some(b) => (b, Side::Base),
        None => (t, Side::Head),
    };
    let i = last_in(body, CharSet::Only(':'));
    if i <= 0 {
        None
    } else {
        let range = body.skip(i + 1);
        let j = first_in(range, CharSet::Only('-'));
        if j < 0 {
            match parse_uint(range, u32::MAX as nat) {
                Some(n) => Some((body.take(i), n as u32, None, side)),
                None => None,
            }
        } else {
            match (parse_uint(range.take(j), u32::MAX as nat), parse_uint(range.skip(j + 1), u32::MAX as nat)) {
                (Some(a), Some(b)) => Some((body.take(i), a as u32, Some(b as u32), side)),
                _ => None,
            }
        }
    }
}

pub open spec fn location_view(l: Location) -> (Seq<char>, u32, Option<u32>, Side) {
    (l.file@, l.start_line, l.end_line, l.side)
}

impl Location {
    /// Read a location as written on the command line (see [`location_parts`]).
    pub fn parse(s: &str) -> (r: Option<Location>)
        ensures
            match r {
                Some(l) => location_parts(s@) == Some(location_view(l)),
                None => location_parts(s@) is None,
            },
    {
        let t = trim_of(&chars_of(s), CharSet::Whitespace);
        let (body, side) = match strip_suffix_of(&t, "@base") {
            Some(b) => (b, Side::Base),
            None => (t, Side::Head),
        };
        let i = match last_in_of(&body, CharSet::Only(':')) {
            Some(i) => i,
            None => return None,
        };
        if i == 0 {
            return None;
        }
        let file = subvec(&body, 0, i);
        let range = subvec(&body, i + 1, body.len());
        assert(file@ =~= body@.take(i as int));
        assert(range@ =~= body@.skip(i + 1));
        match first_in_of(&range, CharSet::Only('-')) {
            None => match parse_uint_of(&range, u32::MAX as u64) {
                Some(n) => Some(
                    Location { file: string_of(&file), start_line: n as u32, end_line: None, side },
                ),
                None => None,
            },
            Some(j) => {
                let a = subvec(&range, 0, j);
                let b = subvec(&range, j + 1, range.len());
                assert(a@ =~= range@.take(j as int));
                assert(b@ =~= range@.skip(j + 1));
                match (parse_uint_of(&a, u32::MAX as u64), parse_uint_of(&b, u32::MAX as u64)) {
                    (Some(x), Some(y)) => Some(
                        Location {
                            file: string_of(&file),
                            start_line: x as u32,
                            end_line: Some(y as u32),
                            side,
                        },
                    ),
                    _ => None,
                }
            },
        }
    }
}

/// The human's decision on a finding.
#[derive(Debug, Clone, Copy, PartialEq, Eq, Structural)]
pub enum Verdict {
    Pending,
    Approved,
    Dismissed,
    NeedsDiscussion,
    Edited,
}

pub open spec fn verdict_label(v: Verdict) -> Seq<char> {
    match v {
        Verdict::Pending => "pending"@,
        Verdict::Approved => "approved"@,
        Verdict::Dismissed => "dismissed"@,
        Verdict::NeedsDiscussion => "needs_discussion"@,
        Verdict::Edited => "edited"@,
    }
}

/// The verdict a name given on the command line stands for; `discuss` is
/// short for `needs_discussion`.
pub open spec fn verdict_named(s: Seq<char>) -> Option<Verdict> {
    if s == "pending"@ {
        Some(Verdict::Pending)
    } else if s == "approved"@ {
        Some(Verdict::Approved)
    } else if s == "dismissed"@ {
        Some(Verdict::Dismissed)
    } else if s == "needs_discussion"@ || s == "discuss"@ {
        Some(Verdict::NeedsDiscussion)
    } else if s == "edited"@ {
        Some(Verdict::Edited)
    } else {
        None
    }
}

/// Whether a finding with this verdict is to be posted: approved, or
/// approved after an edit.
pub open spec fn is_postable(v: Verdict) -> bool {
    v == Verdict::Approved || v == Verdict::Edited
}

impl Verdict {
    /// The verdict named `s`.
    pub fn parse(s: &str) -> (r: Option<Verdict>)
        ensures
            r == verdict_named(s@),
    {
        if same_str(s, "pending") {
            Some(Verdict::Pending)
        } else if same_str(s, "approved") {
            Some(Verdict::Approved)
        } else if same_str(s, "dismissed") {
            Some(Verdict::Dismissed)
        } else if same_str(s, "needs_discussion") || same_str(s, "discuss") {
            Some(Verdict::NeedsDiscussion)
        } else if same_str(s, "edited") {
            Some(Verdict::Edited)
        } else {
            None
        }
    }

    /// Whether findings with this verdict get posted.
    pub fn postable(&self) -> (b: bool)
        ensures
            b == is_postable(*self),
    {
        match self {
            Verdict::Approved | Verdict::Edited => true,
            _ => false,
        }
    }

    /// The name of the verdict as the protocol spells it.
    pub fn label(&self) -> (s: &'static str)
        ensures
            s@ == verdict_label(*self),
    {
        match self {
            Verdict::Pending => "pending",
            Verdict::Approved => "approved",
            Verdict::Dismissed => "dismissed",
            Verdict::NeedsDiscussion => "needs_discussion",
            Verdict::Edited => "edited",
        }
    }
}

/// How serious a finding is.
#[derive(Debug, Clone, Copy, PartialEq, Eq, Structural)]
pub enum Severity {
    Critical,
    High,
    Medium,
    Low,
    Nit,
}

pub open spec fn severity_label(s: Severity) -> Seq<char> {
    match s {
        Severity::Critical => "critical"@,
        Severity::High => "high"@,
        Severity::Medium => "medium"@,
        Severity::Low => "low"@,
        Severity::Nit => "nit"@,
    }
}

/// The severity a name given on the command line stands for.
pub open spec fn severity_named(s: Seq<char>) -> Option<Severity> {
    if s == "critical"@ {
        Some(Severity::Critical)
    } else if s == "high"@ {
        Some(Severity::High)
    } else if s == "medium"@ {
        Some(Severity::Medium)
    } else if s == "low"@ {
        Some(Severity::Low)
    } else if s == "nit"@ {
        Some(Severity::Nit)
    } else {
        None
    }
}

impl Severity {
    /// The severity named `s` (`critical`, `high`, `medium`, `low` or `nit`).
    pub fn parse(s: &str) -> (r: Option<Severity>)
        ensures
            r == severity_named(s@),
    {
        if same_str(s, "critical") {
            Some(Severity::Critical)
        } else if same_str(s, "high") {
            Some(Severity::High)
        } else if same_str(s, "medium") {
            Some(Severity::Medium)
        } else if same_str(s, "low") {
            Some(Severity::Low)
        } else if same_str(s, "nit") {
            Some(Severity::Nit)
        } else {
            None
        }
    }

    /// The name of the severity as the protocol spells it.
    pub fn label(&self) -> (s: &'static str)
        ensures
            s@ == severity_label(*self),
    {
        match self {
            Severity::Critical => "critical",
            Severity::High => "high",
            Severity::Medium => "medium",
            Severity::Low => "low",
            Severity::Nit => "nit",
        }
    }
}

/// One review finding.
#[derive(Debug, Clone, PartialEq, Eq)]
pub struct Finding {
    pub id: String,
    pub title: String,
    pub severity: Severity,
    pub category: Option<String>,
    pub body: String,
    pub suggestion: Option<String>,
    pub locations: Vec<Location>,
    pub verdict: Verdict,
    pub user_note: Option<String>,
    pub posted_url: Option<String>,
    pub updated_at_ms: u64,
}

impl Finding {
    /// A fresh, pending finding with a title and nothing else.
    pub fn new(id: String, title: String) -> (f: Finding)
        ensures
            f.id == id,
            f.title == title,
            f.severity == Severity::Medium,
            f.category is None,
            f.body@ == Seq::<char>::empty(),
            f.suggestion is None,
            f.locations@.len() == 0,
            f.verdict == Verdict::Pending,
            f.user_note is None,
            f.posted_url is None,
            f.updated_at_ms == 0,
    {
        Finding {
            id,
            title,
            severity: Severity::Medium,
            category: None,
            body: String::new(),
            suggestion: None,
            locations: Vec::new(),
            verdict: Verdict::Pending,
            user_note: None,
            posted_url: None,
            updated_at_ms: 0,
        }
    }

    /// Record that the finding changed at `now_ms`.
    pub fn touch(&mut self, now_ms: u64)
        ensures
            *final(self) == (Finding { updated_at_ms: now_ms, ..*old(self) }),
    {
        self.updated_at_ms = now_ms;
    }
}

/// A message the human sent to the agent.
#[derive(Debug, Clone, PartialEq, Eq)]
pub struct ChatEntry {
    pub at_ms: u64,
    pub finding_id: Option<String>,
    pub text: String,
}

/// The pull request under review.
#[derive(Debug, Clone, PartialEq, Eq)]
pub struct PrInfo {
    pub owner: String,
    pub repo: String,
    pub number: u64,
    pub title: String,
    pub author: String,
    pub base_ref: String,
    pub head_ref: String,
    pub base_sha: String,
    pub head_sha: String,
    pub url: String,
}

/// Where and how the session runs.
#[derive(Debug, Clone, PartialEq, Eq)]
pub struct SessionMeta {
    pub id: String,
    pub worktree: String,
    pub source_repo: String,
    pub created_at_ms: u64,
    pub agent_pane_id: Option<String>,
    pub view_pane_id: Option<String>,
    pub workspace_id: Option<String>,
    pub agent_kind: String,
    pub prompt: String,
}

/// The lifecycle of a review.
#[derive(Debug, Clone, Copy, PartialEq, Eq, Structural)]
pub enum ReviewStatus {
    Reviewing,
    AwaitingReview,
    Posting,
    Done,
}

pub open spec fn status_label(s: ReviewStatus) -> Seq<char> {
    match s {
        ReviewStatus::Reviewing => "reviewing"@,
        ReviewStatus::AwaitingReview => "awaiting_review"@,
        ReviewStatus::Posting => "posting"@,
        ReviewStatus::Done => "done"@,
    }
}

/// The status a name given on the command line stands for.
pub open spec fn status_named(s: Seq<char>) -> Option<ReviewStatus> {
    if s == "reviewing"@ {
        Some(ReviewStatus::Reviewing)
    } else if s == "awaiting_review"@ {
        Some(ReviewStatus::AwaitingReview)
    } else if s == "posting"@ {
        Some(ReviewStatus::Posting)
    } else if s == "done"@ {
        Some(ReviewStatus::Done)
    } else {
        None
    }
}

impl ReviewStatus {
    /// The name of the status as the protocol spells it.
    pub fn label(&self) -> (s: &'static str)
        ensures
            s@ == status_label(*self),
    {
        match self {
            ReviewStatus::Reviewing => "reviewing",
            ReviewStatus::AwaitingReview => "awaiting_review",
            ReviewStatus::Posting => "posting",
            ReviewStatus::Done => "done",
        }
    }

    /// The status named `s`.
    pub fn parse(s: &str) -> (r: Option<ReviewStatus>)
        ensures
            r == status_named(s@),
    {
        if same_str(s, "reviewing") {
            Some(ReviewStatus::Reviewing)
        } else if same_str(s, "awaiting_review") {
            Some(ReviewStatus::AwaitingReview)
        } else if same_str(s, "posting") {
            Some(ReviewStatus::Posting)
        } else if same_str(s, "done") {
            Some(ReviewStatus::Done)
        } else {
            None
        }
    }
}

/// Version of the state schema this crate writes.
pub const SCHEMA_VERSION: u32 = 1;

/// The whole shared state of one session.
#[derive(Debug, Clone, PartialEq, Eq)]
pub struct State {
    pub schema_version: u32,
    /// Incremented on every write.
    pub rev: u64,
    pub pr: PrInfo,
    pub session: SessionMeta,
    pub status: ReviewStatus,
    pub findings: Vec<Finding>,
    pub chat: Vec<ChatEntry>,
    /// The sequence number of the last minted finding id.
    pub next_finding_seq: u64,
}

/// The id of the finding with sequence number `n`: `f1`, `f2`, …
pub open spec fn finding_id(n: nat) -> Seq<char> {
    "f"@ + decimal(n)
}

/// Minting never repeats an id: different sequence numbers give different
/// finding ids.
pub proof fn law_finding_ids_distinct(a: nat, b: nat)
    ensures
        a != b ==> finding_id(a) != finding_id(b),
{
    reveal_strlit("f");
    if finding_id(a) == finding_id(b) {
        assert(finding_id(a).skip(1) =~= decimal(a));
        assert(finding_id(b).skip(1) =~= decimal(b));
        lemma_decimal(a);
        lemma_decimal(b);
        assert(digits_value(decimal(a)) == digits_value(decimal(b)));
    }
}

/// What `co-review wait` does after looking at the state.
#[derive(Debug, Clone, Copy, PartialEq, Eq, Structural)]
pub enum WaitStep {
    /// Nothing is pending any more.
    Done,
    /// The timeout passed with this many findings still pending.
    TimedOut(usize),
    /// Look again after the poll interval.
    Again,
}

/// `wait` is done once nothing is pending; with a timeout (`0` means none) it
/// gives up once that many milliseconds have passed.
pub fn wait_step(pending: usize, elapsed_ms: u64, timeout_ms: u64) -> (w: WaitStep)
    ensures
        w == if pending == 0 {
            WaitStep::Done
        } else if timeout_ms > 0 && elapsed_ms >= timeout_ms {
            WaitStep::TimedOut(pending)
        } else {
            WaitStep::Again
        },
{
    if pending == 0 {
        WaitStep::Done
    } else if timeout_ms > 0 && elapsed_ms >= timeout_ms {
        WaitStep::TimedOut(pending)
    } else {
        WaitStep::Again
    }
}

/// Every finding of the state carries an id minted so far (`f1` up to
/// `f<next_finding_seq>`), and no two findings share an id.
pub open spec fn ids_minted(s: State) -> bool {
    &&& forall|j: int|
        0 <= j < s.findings@.len() ==> exists|k: nat|
            1 <= k <= s.next_finding_seq && #[trigger] s.findings@[j].id@ == finding_id(k)
    &&& forall|a: int, b: int|
        0 <= a < b < s.findings@.len() ==> #[trigger] s.findings@[a].id@ != #[trigger] s.findings@[b].id@
}

/// Replacing one finding by one with the same id keeps the ids minted and
/// distinct.
proof fn lemma_same_ids_keep_minted(s: State, t: State, i: int)
    requires
        ids_minted(s),
        0 <= i < s.findings@.len(),
        t.next_finding_seq == s.next_finding_seq,
        t.findings@.len() == s.findings@.len(),
        t.findings@[i].id@ == s.findings@[i].id@,
        forall|j: int| 0 <= j < s.findings@.len() && j != i ==> t.findings@[j] == s.findings@[j],
    ensures
        ids_minted(t),
{
    assert forall|j: int| 0 <= j < t.findings@.len() implies t.findings@[j].id@ == s.findings@[j].id@ by {}
    assert forall|j: int| 0 <= j < t.findings@.len() implies exists|k: nat|
        1 <= k <= t.next_finding_seq && #[trigger] t.findings@[j].id@ == finding_id(k) by {
        assert(s.findings@[j].id@ == t.findings@[j].id@);
        let k = choose|k: nat| 1 <= k <= s.next_finding_seq && #[trigger] s.findings@[j].id@ == finding_id(k);
        assert(t.findings@[j].id@ == finding_id(k));
    }
    assert forall|a: int, b: int| 0 <= a < b < t.findings@.len() implies #[trigger] t.findings@[a].id@
        != #[trigger] t.findings@[b].id@ by {
        assert(s.findings@[a].id@ != s.findings@[b].id@);
    }
}

/// The number of pending findings among `fs`.
pub open spec fn pending_in(fs: Seq<Finding>) -> nat
    decreases fs.len(),
{
    if fs.len() == 0 {
        0
    } else {
        pending_in(fs.drop_last()) + if fs.last().verdict == Verdict::Pending {
            1nat
        } else {
            0nat
        }
    }
}

/// The ids of the postable findings among `fs`, in order.
pub open spec fn postable_in(fs: Seq<Finding>) -> Seq<Seq<char>>
    decreases fs.len(),
{
    if fs.len() == 0 {
        Seq::empty()
    } else if is_postable(fs.last().verdict) {
        postable_in(fs.drop_last()).push(fs.last().id@)
    } else {
        postable_in(fs.drop_last())
    }
}

/// The index of the first finding with id `id`, or -1.
pub open spec fn index_of_id(fs: Seq<Finding>, id: Seq<char>) -> int
    decreases fs.len(),
{
    if fs.len() == 0 {
        -1
    } else if fs[0].id@ == id {
        0
    } else {
        let r = index_of_id(fs.drop_first(), id);
        if r < 0 {
            -1
        } else {
            r + 1
        }
    }
}

pub proof fn lemma_index_of_id(fs: Seq<Finding>, id: Seq<char>)
    ensures
        -1 <= index_of_id(fs, id) < fs.len(),
        index_of_id(fs, id) >= 0 ==> fs[index_of_id(fs, id)].id@ == id,
        forall|j: int| 0 <= j < index_of_id(fs, id) ==> (#[trigger] fs[j]).id@ != id,
        index_of_id(fs, id) == -1 ==> forall|j: int| 0 <= j < fs.len() ==> (#[trigger] fs[j]).id@
            != id,
    decreases fs.len(),
{
    if fs.len() > 0 && fs[0].id@ != id {
        let t = fs.drop_first();
        lemma_index_of_id(t, id);
        assert forall|j: int| 0 < j < fs.len() implies fs[j] == t[j - 1] by {}
    }
}

/// `slug(owner-repo-number)`: the id of the session for a pull request.
pub open spec fn pr_slug_spec(owner: Seq<char>, repo: Seq<char>, number: u64) -> Seq<char> {
    slug(owner + "-"@ + repo + "-"@ + decimal(number as nat))
}

/// The session id for a pull request, e.g. `owner-repo-1`.
pub fn pr_slug(owner: &str, repo: &str, number: u64) -> (s: String)
    ensures
        s@ == pr_slug_spec(owner@, repo@, number),
{
    let mut v = chars_of(owner);
    push_str(&mut v, "-");
    push_str(&mut v, repo);
    push_str(&mut v, "-");
    append_chars(&mut v, &decimal_of(number));
    let joined = string_of(&v);
    slugify(joined.as_str())
}

impl State {
    /// A fresh state for a session: no findings, no chat, revision 0.
    pub fn new(pr: PrInfo, session: SessionMeta) -> (s: State)
        ensures
            s.schema_version == SCHEMA_VERSION,
            s.rev == 0,
            s.pr == pr,
            s.session == session,
            s.status == ReviewStatus::Reviewing,
            s.findings@.len() == 0,
            s.chat@.len() == 0,
            s.next_finding_seq == 0,
            ids_minted(s),
    {
        State {
            schema_version: SCHEMA_VERSION,
            rev: 0,
            pr,
            session,
            status: ReviewStatus::Reviewing,
            findings: Vec::new(),
            chat: Vec::new(),
            next_finding_seq: 0,
        }
    }

    /// Mint the id for the next finding: `f1`, `f2`, … in order.
    pub fn mint_finding_id(&mut self) -> (id: String)
        requires
            old(self).next_finding_seq < u64::MAX,
        ensures
            final(self).next_finding_seq == old(self).next_finding_seq + 1,
            *final(self) == (State {
                next_finding_seq: final(self).next_finding_seq,
                ..*old(self)
            }),
            id@ == finding_id(final(self).next_finding_seq as nat),
            ids_minted(*old(self)) ==> ids_minted(*final(self)),
    {
        let ghost before = *self;
        self.next_finding_seq = self.next_finding_seq + 1;
        proof {
            if ids_minted(before) {
                assert forall|j: int| 0 <= j < self.findings@.len() implies exists|k: nat|
                    1 <= k <= self.next_finding_seq && #[trigger] self.findings@[j].id@
                        == finding_id(k) by {
                    let k = choose|k: nat|
                        1 <= k <= before.next_finding_seq && #[trigger] before.findings@[j].id@
                            == finding_id(k);
                    assert(self.findings@[j].id@ == finding_id(k));
                }
            }
        }
        let mut v: Vec<char> = Vec::new();
        v.push('f');
        append_chars(&mut v, &decimal_of(self.next_finding_seq));
        proof {
            reveal_strlit("f");
            assert(v@ =~= finding_id(self.next_finding_seq as nat));
        }
        string_of(&v)
    }

    /// The position of the finding with id `id`.
    pub fn find(&self, id: &str) -> (r: Option<usize>)
        ensures
            match r {
                Some(i) => index_of_id(self.findings@, id@) == i,
                None => index_of_id(self.findings@, id@) == -1,
            },
    {
        let idc = chars_of(id);
        let mut i: usize = 0;
        proof {
            lemma_index_of_id(self.findings@, id@);
        }
        while i < self.findings.len()
            invariant
                i <= self.findings@.len(),
                idc@ == id@,
                forall|j: int| 0 <= j < i ==> (#[trigger] self.findings@[j]).id@ != id@,
            decreases self.findings.len() - i,
        {
            let fc = chars_of(self.findings[i].id.as_str());
            if chars_eq(&fc, &idc) {
                proof {
                    lemma_index_of_id(self.findings@, id@);
                    let k = index_of_id(self.findings@, id@);
                    if k < i as int {
                        assert(self.findings@[k].id@ != id@);
                    }
                    if k == -1 {
                        assert(self.findings@[i as int].id@ != id@);
                    }
                }
                return Some(i);
            }
            i = i + 1;
        }
        proof {
            lemma_index_of_id(self.findings@, id@);
            let k = index_of_id(self.findings@, id@);
            if k >= 0 {
                assert(self.findings@[k].id@ != id@);
            }
        }
        None
    }

    /// How many findings still await a verdict.
    pub fn pending_count(&self) -> (n: usize)
        ensures
            n == pending_in(self.findings@),
    {
        let mut n: usize = 0;
        let mut i: usize = 0;
        while i < self.findings.len()
            invariant
                i <= self.findings@.len(),
                n == pending_in(self.findings@.take(i as int)),
                n <= i,
            decreases self.findings.len() - i,
        {
            proof {
                assert(self.findings@.take(i + 1).drop_last() =~= self.findings@.take(i as int));
            }
            if self.findings[i].verdict == Verdict::Pending {
                n = n + 1;
            }
            i = i + 1;
        }
        assert(self.findings@.take(self.findings@.len() as int) =~= self.findings@);
        n
    }

    /// Set the verdict of the finding `id`, stamping it with `now_ms`. Returns
    /// whether such a finding exists; without one nothing changes.
    pub fn set_verdict(&mut self, id: &str, verdict: Verdict, now_ms: u64) -> (found: bool)
        ensures
            found == (index_of_id(old(self).findings@, id@) >= 0),
            found ==> final(self).findings@ == old(self).findings@.update(
                index_of_id(old(self).findings@, id@),
                Finding {
                    verdict,
                    updated_at_ms: now_ms,
                    ..old(self).findings@[index_of_id(old(self).findings@, id@)]
                },
            ),
            *final(self) == (State { findings: final(self).findings, ..*old(self) }),
            ids_minted(*old(self)) ==> ids_minted(*final(self)),
            !found ==> final(self).findings@ == old(self).findings@,
    {
        proof {
            lemma_index_of_id(self.findings@, id@);
        }
        match self.find(id) {
            Some(i) => {
                let ghost before = self.findings@;
                let mut f = self.findings.remove(i);
                f.verdict = verdict;
                f.updated_at_ms = now_ms;
                self.findings.insert(i, f);
                proof {
                    assert(self.findings@ =~= before.update(i as int, f));
                    if ids_minted(*old(self)) {
                        lemma_same_ids_keep_minted(*old(self), *self, i as int);
                    }
                }
                true
            },
            None => false,
        }
    }

    /// Record a new finding: it gets the next minted id and is stamped with
    /// `now_ms`; its other fields are kept. Returns the id.
    pub fn add_finding(&mut self, f: Finding, now_ms: u64) -> (id: String)
        requires
            old(self).next_finding_seq < u64::MAX,
        ensures
            final(self).next_finding_seq == old(self).next_finding_seq + 1,
            id@ == finding_id(final(self).next_finding_seq as nat),
            final(self).findings@ == old(self).findings@.push(
                Finding { id: final(self).findings@.last().id, updated_at_ms: now_ms, ..f },
            ),
            final(self).findings@.last().id@ == id@,
            *final(self) == (State {
                findings: final(self).findings,
                next_finding_seq: final(self).next_finding_seq,
                ..*old(self)
            }),
            ids_minted(*old(self)) ==> ids_minted(*final(self)),
    {
        let ghost before = *self;
        let id = self.mint_finding_id();
        let mut g = f;
        g.id = id.clone();
        g.updated_at_ms = now_ms;
        self.findings.push(g);
        proof {
            if ids_minted(before) {
                let n = self.next_finding_seq as nat;
                let fs = self.findings@;
                let last = fs.len() - 1;
                assert forall|j: int| 0 <= j < fs.len() implies exists|k: nat|
                    1 <= k <= n && #[trigger] fs[j].id@ == finding_id(k) by {
                    if j < last {
                        assert(fs[j] == before.findings@[j]);
                        let k = choose|k: nat|
                            1 <= k <= before.next_finding_seq && #[trigger] before.findings@[j].id@
                                == finding_id(k);
                        assert(fs[j].id@ == finding_id(k));
                    } else {
                        assert(fs[j].id@ == finding_id(n));
                    }
                }
                assert forall|a: int, b: int| 0 <= a < b < fs.len() implies #[trigger] fs[a].id@
                    != #[trigger] fs[b].id@ by {
                    assert(fs[a] == before.findings@[a]);
                    if b < last {
                        assert(fs[b] == before.findings@[b]);
                    } else {
                        let k = choose|k: nat|
                            1 <= k <= before.next_finding_seq && #[trigger] before.findings@[a].id@
                                == finding_id(k);
                        law_finding_ids_distinct(k, n);
                    }
                }
            }
        }
        id
    }

    /// Attach (or with `None`, remove) the human note of the finding `id`,
    /// stamping it with `now_ms`. Returns whether such a finding exists;
    /// without one nothing changes.
    pub fn set_note(&mut self, id: &str, note: Option<String>, now_ms: u64) -> (found: bool)
        ensures
            found == (index_of_id(old(self).findings@, id@) >= 0),
            found ==> final(self).findings@ == old(self).findings@.update(
                index_of_id(old(self).findings@, id@),
                Finding {
                    user_note: note,
                    updated_at_ms: now_ms,
                    ..old(self).findings@[index_of_id(old(self).findings@, id@)]
                },
            ),
            !found ==> final(self).findings@ == old(self).findings@,
            *final(self) == (State { findings: final(self).findings, ..*old(self) }),
            ids_minted(*old(self)) ==> ids_minted(*final(self)),
    {
        proof {
            lemma_index_of_id(self.findings@, id@);
        }
        match self.find(id) {
            Some(i) => {
                let ghost before = self.findings@;
                let mut f = self.findings.remove(i);
                f.user_note = note;
                f.updated_at_ms = now_ms;
                self.findings.insert(i, f);
                proof {
                    assert(self.findings@ =~= before.update(i as int, f));
                    if ids_minted(*old(self)) {
                        lemma_same_ids_keep_minted(*old(self), *self, i as int);
                    }
                }
                true
            },
            None => false,
        }
    }

    /// Record that the finding `id` was posted at `url`, stamping it with
    /// `now_ms`. Returns whether such a finding exists; without one nothing
    /// changes.
    pub fn mark_posted(&mut self, id: &str, url: String, now_ms: u64) -> (found: bool)
        ensures
            found == (index_of_id(old(self).findings@, id@) >= 0),
            found ==> final(self).findings@ == old(self).findings@.update(
                index_of_id(old(self).findings@, id@),
                Finding {
                    posted_url: Some(url),
                    updated_at_ms: now_ms,
                    ..old(self).findings@[index_of_id(old(self).findings@, id@)]
                },
            ),
            !found ==> final(self).findings@ == old(self).findings@,
            *final(self) == (State { findings: final(self).findings, ..*old(self) }),
            ids_minted(*old(self)) ==> ids_minted(*final(self)),
    {
        proof {
            lemma_index_of_id(self.findings@, id@);
        }
        match self.find(id) {
            Some(i) => {
                let ghost before = self.findings@;
                let mut f = self.findings.remove(i);
                f.posted_url = Some(url);
                f.updated_at_ms = now_ms;
                self.findings.insert(i, f);
                proof {
                    assert(self.findings@ =~= before.update(i as int, f));
                    if ids_minted(*old(self)) {
                        lemma_same_ids_keep_minted(*old(self), *self, i as int);
                    }
                }
                true
            },
            None => false,
        }
    }

    /// The ids of the findings to post: those approved or edited, in order.
    pub fn postable_ids(&self) -> (ids: Vec<String>)
        ensures
            str_views(ids@) == postable_in(self.findings@),
    {
        let mut ids: Vec<String> = Vec::new();
        let mut i: usize = 0;
        while i < self.findings.len()
            invariant
                i <= self.findings@.len(),
                str_views(ids@) == postable_in(self.findings@.take(i as int)),
            decreases self.findings.len() - i,
        {
            proof {
                assert(self.findings@.take(i + 1).drop_last() =~= self.findings@.take(i as int));
            }
            if self.findings[i].verdict.postable() {
                push_string(&mut ids, self.findings[i].id.clone());
            }
            i = i + 1;
        }
        assert(self.findings@.take(self.findings@.len() as int) =~= self.findings@);
        ids
    }

    /// Record that the state is being written: the revision advances by one
    /// (wrapping around at the end of its range) and nothing else changes.
    pub fn bump_rev(&mut self)
        ensures
            final(self).rev == (if old(self).rev == u64::MAX {
                0
            } else {
                old(self).rev + 1
            }),
            *final(self) == (State { rev: final(self).rev, ..*old(self) }),
    {
        self.rev = self.rev.wrapping_add(1);
    }
}

/// 1 for a pending verdict, else 0.
pub open spec fn pending_weight(v: Verdict) -> int {
    if v == Verdict::Pending {
        1
    } else {
        0
    }
}

/// Setting one finding's verdict changes the pending count by exactly that
/// finding: deciding a pending finding leaves one fewer to wait for, and
/// reopening a decided one adds one.
pub proof fn law_verdict_moves_pending_count(fs: Seq<Finding>, i: int, verdict: Verdict, now_ms: u64)
    requires
        0 <= i < fs.len(),
    ensures
        pending_in(fs.update(i, Finding { verdict, updated_at_ms: now_ms, ..fs[i] })) == pending_in(
            fs,
        ) - pending_weight(fs[i].verdict) + pending_weight(verdict),
    decreases fs.len(),
{
    let g = fs.update(i, Finding { verdict, updated_at_ms: now_ms, ..fs[i] });
    if i == fs.len() - 1 {
        assert(g.drop_last() =~= fs.drop_last());
    } else {
        law_verdict_moves_pending_count(fs.drop_last(), i, verdict, now_ms);
        assert(g.drop_last() =~= fs.drop_last().update(
            i,
            Finding { verdict, updated_at_ms: now_ms, ..fs[i] },
        ));
        assert(g.last() == fs.last());
    }
}

proof fn lemma_digits_plain(d: Seq<char>)
    requires
        all_digits(d),
    ensures
        forall|j: int| 0 <= j < d.len() ==> !is_ws(#[trigger] d[j]) && d[j] != ':' && d[j] != '-'
            && d[j] != '+',
{
    assert forall|j: int| 0 <= j < d.len() implies !is_ws(#[trigger] d[j]) && d[j] != ':' && d[j]
        != '-' && d[j] != '+' by {
        assert(is_digit(d[j]));
    }
}

/// The range part of a label: `N`, or `N-M`.
pub open spec fn range_text(start: u32, end: Option<u32>) -> Seq<char> {
    match end {
        Some(e) => decimal(start as nat) + "-"@ + decimal(e as nat),
        None => decimal(start as nat),
    }
}

/// A label put together from its path, range part and side.
pub open spec fn label_of(f: Seq<char>, r: Seq<char>, side: Side) -> Seq<char> {
    match side {
        Side::Head => f + ":"@ + r,
        Side::Base => f + ":"@ + r + "@base"@,
    }
}

/// The range part of a label reads back as its numbers.
proof fn lemma_range_reads_back(start: u32, end: Option<u32>)
    ensures
        range_text(start, end).len() > 0,
        !is_ws(range_text(start, end).last()),
        range_text(start, end).last() != 'e',
        forall|j: int| 0 <= j < range_text(start, end).len() ==> #[trigger] range_text(start, end)[j] != ':',
        end is None ==> first_in(range_text(start, end), CharSet::Only('-')) < 0 && parse_uint(
            range_text(start, end),
            u32::MAX as nat,
        ) == Some(start as nat),
        end is Some ==> first_in(range_text(start, end), CharSet::Only('-')) >= 0 && parse_uint(
            range_text(start, end).take(first_in(range_text(start, end), CharSet::Only('-'))),
            u32::MAX as nat,
        ) == Some(start as nat) && parse_uint(
            range_text(start, end).skip(first_in(range_text(start, end), CharSet::Only('-')) + 1),
            u32::MAX as nat,
        ) == Some(end->0 as nat),
{
    reveal_strlit("-");
    let a = decimal(start as nat);
    lemma_decimal(start as nat);
    lemma_digits_plain(a);
    assert(is_digit(a.last()));
    match end {
        None => {
            assert forall|j: int| 0 <= j < a.len() implies !in_set(CharSet::Only('-'), #[trigger] a[j]) by {}
            lemma_first_in_at(a, CharSet::Only('-'), a.len() as int);
        },
        Some(e) => {
            let b = decimal(e as nat);
            lemma_decimal(e as nat);
            lemma_digits_plain(b);
            assert(is_digit(b.last()));
            let r = a + "-"@ + b;
            assert(r.last() == b.last());
            assert forall|j: int| 0 <= j < r.len() implies #[trigger] r[j] != ':' by {
                if j < a.len() {
                    assert(r[j] == a[j]);
                } else if j > a.len() {
                    assert(r[j] == b[j - a.len() - 1]);
                }
            }
            assert forall|j: int| 0 <= j < a.len() implies !in_set(CharSet::Only('-'), #[trigger] r[j]) by {
                assert(r[j] == a[j]);
            }
            assert(r[a.len() as int] == '-');
            lemma_first_in_at(r, CharSet::Only('-'), a.len() as int);
            assert(r.take(a.len() as int) =~= a);
            assert(r.skip(a.len() as int + 1) =~= b);
        },
    }
}

/// Where the parts of a label stand.
proof fn lemma_label_parts(f: Seq<char>, r: Seq<char>, side: Side)
    requires
        f.len() > 0,
        !is_ws(f[0]),
        r.len() > 0,
        !is_ws(r.last()),
        r.last() != 'e',
        forall|j: int| 0 <= j < r.len() ==> #[trigger] r[j] != ':',
    ensures
        trim(label_of(f, r, side)) == label_of(f, r, side),
        strip_suffix(label_of(f, r, side), "@base"@) == match side {
            Side::Head => None::<Seq<char>>,
            Side::Base => Some(f + ":"@ + r),
        },
        last_in(f + ":"@ + r, CharSet::Only(':')) == f.len(),
        (f + ":"@ + r).take(f.len() as int) == f,
        (f + ":"@ + r).skip(f.len() as int + 1) == r,
{
    reveal_strlit(":");
    reveal_strlit("@base");
    let body = f + ":"@ + r;
    let i = f.len() as int;
    assert(body[i] == ':');
    assert forall|j: int| i < j < body.len() implies !in_set(CharSet::Only(':'), #[trigger] body[j]) by {
        assert(body[j] == r[j - i - 1]);
    }
    assert(body.last() == r.last());
    assert(body[0] == f[0]);
    assert(body.take(i) =~= f);
    assert(body.skip(i + 1) =~= r);
    lemma_last_in(body, CharSet::Only(':'));
    assert(last_in(body, CharSet::Only(':')) == i) by {
        if last_in(body, CharSet::Only(':')) < i {
            assert(!in_set(CharSet::Only(':'), body[i]));
        }
    }
    match side {
        Side::Head => {
            assert(trim_start_set(body, CharSet::Whitespace) == body);
            assert(trim_end_set(body, CharSet::Whitespace) == body);
            if has_suffix(body, "@base"@) {
                assert(body.last() == body.skip(body.len() - 5)[4]);
            }
        },
        Side::Base => {
            let lab = body + "@base"@;
            assert(lab[0] == f[0]);
            assert(lab.last() == 'e');
            assert(trim_start_set(lab, CharSet::Whitespace) == lab);
            assert(trim_end_set(lab, CharSet::Whitespace) == lab);
            assert(lab.skip(lab.len() - 5) =~= "@base"@);
            assert(lab.take(lab.len() - 5) =~= body);
        },
    }
}

/// The label of a location in terms of its parts.
proof fn lemma_label_shape(loc: Location)
    ensures
        loc.spec_label() == label_of(
            loc.file@,
            range_text(
                loc.start_line,
                if loc.end_line == Some(loc.start_line) {
                    None
                } else {
                    loc.end_line
                },
            ),
            loc.side,
        ),
{
}

/// A location's label reads back as the location: `path:line`,
/// `path:start-end` and their `@base` forms name the same file, lines and
/// side (a range ending where it starts reads back as a single line), for
/// any path that is not empty and does not begin with whitespace.
pub proof fn law_location_label_reads_back(loc: Location)
    requires
        loc.file@.len() > 0,
        !is_ws(loc.file@[0]),
    ensures
        location_parts(loc.spec_label()) == Some(
            (
                loc.file@,
                loc.start_line,
                if loc.end_line == Some(loc.start_line) {
                    None
                } else {
                    loc.end_line
                },
                loc.side,
            ),
        ),
{
    let end = if loc.end_line == Some(loc.start_line) {
        None
    } else {
        loc.end_line
    };
    let f = loc.file@;
    let r = range_text(loc.start_line, end);
    lemma_range_reads_back(loc.start_line, end);
    lemma_label_shape(loc);
    lemma_label_parts(f, r, loc.side);
}

} // verus!
