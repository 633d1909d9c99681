//! Turning a finding's location into the "related code" the human sees.
//!
//! For a head-side location we prefer to show the PR's own diff hunk around the
//! referenced lines (that is what matters when judging a finding); if the location isn't
//! part of the diff we fall back to plain file context. Base-side locations show
//! the base file's context.
//!
//! Everything here works on text already read: the unified diff `git diff`
//! printed and the file contents.
use vstd::prelude::*;

use crate::model::{Location, Side};
use crate::text::{
    append_chars, chars_of, decimal, decimal_of, has_prefix, lemma_decimal, lines, lines_of,
    parse_uint, parse_uint_of, push_str, split_of, split_set, starts_with, string_of, subvec, views,
    CharSet, in_set, is_ws, lemma_first_in_at,
};

verus! {

/// How a line relates to the diff.
#[derive(Debug, Clone, Copy, PartialEq, Eq, Structural)]
pub enum LineKind {
    Context,
    Added,
    Removed,
}

/// One line of parsed unified diff.
#[derive(Debug, Clone, PartialEq, Eq)]
pub struct DiffLine {
    /// Line number in the old (base) file, if present on this line.
    pub old: Option<u32>,
    /// Line number in the new (head) file, if present on this line.
    pub new: Option<u32>,
    pub kind: LineKind,
    pub text: String,
    /// The head line this line stands at: its new-line number, and for a
    /// removed line the head line it precedes (the hunk's new-side counter
    /// where it occurs).
    pub at: u32,
}

/// A rendered line in a [`CodeSnippet`].
#[derive(Debug, Clone, PartialEq, Eq)]
pub struct CodeLine {
    /// The line number to display (head number for head side, base for base).
    pub number: Option<u32>,
    pub kind: LineKind,
    /// True when the line is inside the finding's referenced range.
    pub focus: bool,
    pub text: String,
}

/// The related-code view for one location.
#[derive(Debug, Clone)]
pub struct CodeSnippet {
    pub file: String,
    pub side: Side,
    pub lines: Vec<CodeLine>,
    /// True when the lines came from the PR diff rather than plain file context.
    pub from_diff: bool,
    /// Set when the file/location could not be read (message for the UI).
    pub note: Option<String>,
}

/// Default lines of context shown around a finding.
pub const DEFAULT_CONTEXT: u32 = 6;

pub struct DiffLineView {
    pub old: Option<u32>,
    pub new: Option<u32>,
    pub kind: LineKind,
    pub text: Seq<char>,
    pub at: u32,
}

impl View for DiffLine {
    type V = DiffLineView;

    open spec fn view(&self) -> DiffLineView {
        DiffLineView { old: self.old, new: self.new, kind: self.kind, text: self.text@, at: self.at }
    }
}

pub struct CodeLineView {
    pub number: Option<u32>,
    pub kind: LineKind,
    pub focus: bool,
    pub text: Seq<char>,
}

impl View for CodeLine {
    type V = CodeLineView;

    open spec fn view(&self) -> CodeLineView {
        CodeLineView {
            number: self.number,
            kind: self.kind,
            focus: self.focus,
            text: self.text@,
        }
    }
}

pub open spec fn diff_views(v: Seq<DiffLine>) -> Seq<DiffLineView> {
    v.map_values(|d: DiffLine| d@)
}

pub open spec fn code_views(v: Seq<CodeLine>) -> Seq<CodeLineView> {
    v.map_values(|d: CodeLine| d@)
}

// ---------------------------------------------------------------------------
// Hunk headers
// ---------------------------------------------------------------------------
/// The first `,`-separated field of a token.
pub open spec fn first_field(t: Seq<char>) -> Seq<char> {
    split_set(t, CharSet::Only(','))[0]
}

pub open spec fn parse_u32(s: Seq<char>) -> Option<u32> {
    match parse_uint(s, u32::MAX as nat) {
        Some(n) => Some(n as u32),
        None => None,
    }
}

/// The whitespace-separated words of `s` (`str::split_whitespace`).
pub open spec fn words(s: Seq<char>) -> Seq<Seq<char>> {
    split_set(s, CharSet::Whitespace).filter(|w: Seq<char>| w.len() > 0)
}

/// Scan the words of a hunk header from index `i`, remembering the latest
/// `-` start, until the first `+` word.
pub open spec fn hunk_scan(toks: Seq<Seq<char>>, i: int, old: Option<u32>) -> Option<(u32, u32)>
    decreases toks.len() - i,
{
    if i < 0 || i >= toks.len() {
        None
    } else if has_prefix(toks[i], "-"@) {
        hunk_scan(toks, i + 1, parse_u32(first_field(toks[i].skip(1))))
    } else if has_prefix(toks[i], "+"@) {
        match (old, parse_u32(first_field(toks[i].skip(1)))) {
            (Some(o), Some(n)) => Some((o, n)),
            _ => None,
        }
    } else {
        hunk_scan(toks, i + 1, old)
    }
}

/// `(old_start, new_start)` of the ` -a,b +c,d @@ …` part of a hunk header.
pub open spec fn hunk_header(header: Seq<char>) -> Option<(u32, u32)> {
    hunk_scan(words(header), 0, None)
}

fn parse_u32_of(v: &Vec<char>) -> (r: Option<u32>)
    ensures
        r == parse_u32(v@),
{
    match parse_uint_of(v, u32::MAX as u64) {
        Some(n) => Some(n as u32),
        None => None,
    }
}

/// The number at the front of a `-a,b` / `+c,d` token (after its sign).
fn start_of(tok: &Vec<char>) -> (r: Option<u32>)
    requires
        tok@.len() >= 1,
    ensures
        r == parse_u32(first_field(tok@.skip(1))),
{
    let rest = subvec(tok, 1, tok.len());
    assert(rest@ =~= tok@.skip(1));
    let fields = split_of(&rest, CharSet::Only(','));
    parse_u32_of(&fields[0])
}

/// Parse the ` -a,b +c,d @@ …` portion of a hunk header, returning `(old_start,
/// new_start)`.
pub fn parse_hunk_header(header: &str) -> (r: Option<(u32, u32)>)
    ensures
        r == hunk_header(header@),
{
    let pieces = split_of(&chars_of(header), CharSet::Whitespace);
    let ghost all = views(pieces@);
    let ghost toks = words(header@);
    let ghost p = |w: Seq<char>| w.len() > 0;
    let mut seen: usize = 0;
    let mut old: Option<u32> = None;
    let mut i: usize = 0;
    assert(all.skip(0) =~= all);
    assert(toks.skip(0) =~= toks);
    while i < pieces.len()
        invariant
            i <= pieces.len(),
            all == views(pieces@),
            all == split_set(header@, CharSet::Whitespace),
            toks == all.filter(p),
            p == (|w: Seq<char>| w.len() > 0),
            seen <= toks.len(),
            toks.skip(seen as int) == all.skip(i as int).filter(p),
            hunk_header(header@) == hunk_scan(toks, seen as int, old),
        decreases pieces.len() - i,
    {
        proof {
            assert(all.skip(i as int) =~= seq![all[i as int]] + all.skip(i + 1));
            all.skip(i + 1).lemma_filter_prepend(all[i as int], p);
        }
        let tok = &pieces[i];
        if tok.len() > 0 {
            proof {
                assert(all[i as int] == tok@);
                assert(p(all[i as int]));
                assert(toks.skip(seen as int) =~= seq![all[i as int]] + all.skip(i + 1).filter(p));
                assert(toks.skip(seen as int).len() >= 1);
                assert(toks.skip(seen as int)[0] == all[i as int]);
                assert(toks[seen as int] == all[i as int]);
                assert(toks.skip(seen + 1) =~= toks.skip(seen as int).drop_first());
                assert((seq![all[i as int]] + all.skip(i + 1).filter(p)).drop_first() =~= all.skip(
                    i + 1,
                ).filter(p));
            }
            if tok[0] == '-' {
                proof {
                    reveal_strlit("-");
                    assert(tok@.take(1) =~= "-"@);
                }
                old = start_of(tok);
                seen = seen + 1;
            } else if tok[0] == '+' {
                proof {
                    reveal_strlit("-");
                    reveal_strlit("+");
                    assert(tok@.take(1) =~= "+"@);
                    assert(tok@.take(1) != "-"@) by {
                        assert(tok@.take(1)[0] != "-"@[0]);
                    }
                }
                let new = start_of(tok);
                return match (old, new) {
                    (Some(o), Some(n)) => Some((o, n)),
                    _ => None,
                };
            } else {
                proof {
                    reveal_strlit("-");
                    reveal_strlit("+");
                    assert(tok@.take(1) != "-"@) by {
                        assert(tok@.take(1)[0] != "-"@[0]);
                    }
                    assert(tok@.take(1) != "+"@) by {
                        assert(tok@.take(1)[0] != "+"@[0]);
                    }
                }
                seen = seen + 1;
            }
        } else {
            proof {
                assert(all[i as int] == tok@);
                assert(Seq::<Seq<char>>::empty() + all.skip(i + 1).filter(p) =~= all.skip(i + 1).filter(p));
            }
        }
        i = i + 1;
    }
    proof {
        assert(all.skip(pieces@.len() as int) =~= Seq::<Seq<char>>::empty());
        assert(Seq::<Seq<char>>::empty().filter(p) =~= Seq::<Seq<char>>::empty()) by {
            reveal_with_fuel(Seq::<_>::filter, 1);
        }
    }
    None
}

/// Splitting at a character of `k` after a first piece holding none.
proof fn lemma_split_cons(x: Seq<char>, sep: char, y: Seq<char>, k: CharSet)
    requires
        forall|j: int| 0 <= j < x.len() ==> !in_set(k, #[trigger] x[j]),
        in_set(k, sep),
    ensures
        split_set(x + seq![sep] + y, k) == seq![x] + split_set(y, k),
{
    let s = x + seq![sep] + y;
    let a = x.len() as int;
    assert forall|j: int| 0 <= j < a implies !in_set(k, #[trigger] s[j]) by {
        assert(s[j] == x[j]);
    }
    lemma_first_in_at(s, k, a);
    assert(s.take(a) =~= x);
    assert(s.skip(a + 1) =~= y);
}

/// A string holding no character of `k` is one piece.
proof fn lemma_split_one(x: Seq<char>, k: CharSet)
    requires
        forall|j: int| 0 <= j < x.len() ==> !in_set(k, #[trigger] x[j]),
    ensures
        split_set(x, k) == seq![x],
{
    lemma_first_in_at(x, k, x.len() as int);
}

/// The decimal digits of a number are no whitespace, comma or sign.
proof fn lemma_decimal_plain(n: nat)
    ensures
        forall|j: int|
            0 <= j < decimal(n).len() ==> !is_ws(#[trigger] decimal(n)[j]) && decimal(n)[j] != ','
                && decimal(n)[j] != '+' && decimal(n)[j] != '-',
{
    lemma_decimal(n);
    assert forall|j: int| 0 <= j < decimal(n).len() implies !is_ws(#[trigger] decimal(n)[j]) by {
        assert('0' <= decimal(n)[j] <= '9');
    }
}

/// Every `u32`, written in decimal, reads back as itself (zero included).
pub proof fn law_parse_u32_decimal(n: u32)
    ensures
        parse_u32(decimal(n as nat)) == Some(n),
{
    let d = decimal(n as nat);
    lemma_decimal(n as nat);
    lemma_decimal_plain(n as nat);
}

/// A hunk header with well-formed numbers, ` -a,b +c,d @@`, starts a hunk at
/// old line `a` and new line `c`, for every `u32` value of the four numbers,
/// zero included (as git writes for an added or a deleted file).
pub proof fn law_hunk_header_reads_starts(a: u32, b: u32, c: u32, d: u32)
    ensures
        hunk_header(
            " -"@ + decimal(a as nat) + ","@ + decimal(b as nat) + " +"@ + decimal(c as nat) + ","@
                + decimal(d as nat) + " @@"@,
        ) == Some((a, c)),
{
    reveal_strlit(" -");
    reveal_strlit(",");
    reveal_strlit(" +");
    reveal_strlit(" @@");
    reveal_strlit("-");
    reveal_strlit("+");
    reveal_strlit("@@");
    let da = decimal(a as nat);
    let db = decimal(b as nat);
    let dc = decimal(c as nat);
    let dd = decimal(d as nat);
    lemma_decimal_plain(a as nat);
    lemma_decimal_plain(b as nat);
    lemma_decimal_plain(c as nat);
    lemma_decimal_plain(d as nat);
    law_parse_u32_decimal(a);
    law_parse_u32_decimal(c);
    let ws = CharSet::Whitespace;
    let t1 = seq!['-'] + da + seq![','] + db;
    let t2 = seq!['+'] + dc + seq![','] + dd;
    let t3 = "@@"@;
    let e = Seq::<char>::empty();
    let h = " -"@ + da + ","@ + db + " +"@ + dc + ","@ + dd + " @@"@;
    assert(h =~= e + seq![' '] + (t1 + seq![' '] + (t2 + seq![' '] + t3)));
    assert forall|j: int| 0 <= j < t1.len() implies !in_set(ws, #[trigger] t1[j]) by {
        if j > 0 && j <= da.len() {
            assert(t1[j] == da[j - 1]);
        } else if j > da.len() + 1 {
            assert(t1[j] == db[j - da.len() - 2]);
        }
    }
    assert forall|j: int| 0 <= j < t2.len() implies !in_set(ws, #[trigger] t2[j]) by {
        if j > 0 && j <= dc.len() {
            assert(t2[j] == dc[j - 1]);
        } else if j > dc.len() + 1 {
            assert(t2[j] == dd[j - dc.len() - 2]);
        }
    }
    assert forall|j: int| 0 <= j < t3.len() implies !in_set(ws, #[trigger] t3[j]) by {}
    assert(in_set(ws, ' '));
    lemma_split_one(t3, ws);
    lemma_split_cons(t2, ' ', t3, ws);
    lemma_split_cons(t1, ' ', t2 + seq![' '] + t3, ws);
    lemma_split_cons(e, ' ', t1 + seq![' '] + (t2 + seq![' '] + t3), ws);
    let pieces = split_set(h, ws);
    assert(pieces =~= seq![e, t1, t2, t3]);
    let keep = |w: Seq<char>| w.len() > 0;
    let z = Seq::<Seq<char>>::empty();
    assert(z.filter(keep) =~= z) by {
        reveal(Seq::filter);
    }
    z.lemma_filter_push(e, keep);
    assert(z.push(e) =~= seq![e]);
    seq![e].lemma_filter_push(t1, keep);
    assert(seq![e].push(t1) =~= seq![e, t1]);
    seq![e, t1].lemma_filter_push(t2, keep);
    assert(seq![e, t1].push(t2) =~= seq![e, t1, t2]);
    seq![e, t1, t2].lemma_filter_push(t3, keep);
    assert(seq![e, t1, t2].push(t3) =~= pieces);
    assert(z.push(t1) =~= seq![t1]);
    assert(seq![t1].push(t2) =~= seq![t1, t2]);
    assert(seq![t1, t2].push(t3) =~= seq![t1, t2, t3]);
    let toks = words(h);
    assert(toks =~= seq![t1, t2, t3]);
    // the `-a,b` word gives the old start
    assert(t1.take(1) =~= "-"@);
    assert(t1.skip(1) =~= da + seq![','] + db);
    assert forall|j: int| 0 <= j < da.len() implies !in_set(CharSet::Only(','), #[trigger] da[j]) by {}
    lemma_split_cons(da, ',', db, CharSet::Only(','));
    assert(first_field(t1.skip(1)) == da);
    // the `+c,d` word gives the new start
    assert(t2.take(1) =~= "+"@);
    assert(t2.take(1) != "-"@) by {
        assert(t2.take(1)[0] != "-"@[0]);
    }
    assert(t2.skip(1) =~= dc + seq![','] + dd);
    assert forall|j: int| 0 <= j < dc.len() implies !in_set(CharSet::Only(','), #[trigger] dc[j]) by {}
    lemma_split_cons(dc, ',', dd, CharSet::Only(','));
    assert(first_field(t2.skip(1)) == dc);
    assert(hunk_scan(toks, 1, Some(a)) == Some((a, c)));
}

// ---------------------------------------------------------------------------
// Unified diffs
// ---------------------------------------------------------------------------
/// Where the diff parser is: the next old and new line numbers, and whether a
/// hunk body is being read.
pub struct DiffCursor {
    pub old: u32,
    pub new: u32,
    pub in_hunk: bool,
}

/// The line marker and text of a hunk body line: the first character when it
/// is ` `, `+` or `-`, else a context line with the whole text.
pub open spec fn marker(line: Seq<char>) -> (char, Seq<char>) {
    if line.len() > 0 && (line[0] == ' ' || line[0] == '+' || line[0] == '-') {
        (line[0], line.drop_first())
    } else {
        (' ', line)
    }
}

/// The marker and text of a hunk body line (see [`marker`]).
fn split_marker(line: &Vec<char>) -> (r: (char, Vec<char>))
    ensures
        r.0 == marker(line@).0,
        r.1@ == marker(line@).1,
{
    if line.len() > 0 && (line[0] == ' ' || line[0] == '+' || line[0] == '-') {
        let text = subvec(line, 1, line.len());
        assert(text@ =~= line@.drop_first());
        (line[0], text)
    } else {
        let text = subvec(line, 0, line.len());
        assert(text@ =~= line@);
        (' ', text)
    }
}

/// The diff lines produced from `ls[i..]`, or `None` when a line number
/// would run past `u32::MAX`.
pub open spec fn diff_from(ls: Seq<Seq<char>>, i: int, c: DiffCursor) -> Option<Seq<DiffLineView>>
    decreases ls.len() - i,
{
    if i < 0 || i >= ls.len() {
        Some(Seq::empty())
    } else {
        let line = ls[i];
        if has_prefix(line, "@@"@) {
            match hunk_header(line.skip(2)) {
                Some((o, n)) => diff_from(ls, i + 1, DiffCursor { old: o, new: n, in_hunk: true }),
                None => diff_from(ls, i + 1, DiffCursor { in_hunk: false, ..c }),
            }
        } else if has_prefix(line, "diff "@) {
            diff_from(ls, i + 1, DiffCursor { in_hunk: false, ..c })
        } else if !c.in_hunk || (line.len() > 0 && line[0] == '\\') {
            diff_from(ls, i + 1, c)
        } else {
            let (m, text) = marker(line);
            if m == '+' {
                if c.new == u32::MAX {
                    None
                } else {
                    match diff_from(ls, i + 1, DiffCursor { new: (c.new + 1) as u32, ..c }) {
                        Some(rest) => Some(
                            seq![DiffLineView { old: None, new: Some(c.new), kind: LineKind::Added, text, at: c.new }]
                                + rest,
                        ),
                        None => None,
                    }
                }
            } else if m == '-' {
                if c.old == u32::MAX {
                    None
                } else {
                    match diff_from(ls, i + 1, DiffCursor { old: (c.old + 1) as u32, ..c }) {
                        Some(rest) => Some(
                            seq![DiffLineView { old: Some(c.old), new: None, kind: LineKind::Removed, text, at: c.new }]
                                + rest,
                        ),
                        None => None,
                    }
                }
            } else {
                if c.old == u32::MAX || c.new == u32::MAX {
                    None
                } else {
                    match diff_from(
                        ls,
                        i + 1,
                        DiffCursor { old: (c.old + 1) as u32, new: (c.new + 1) as u32, ..c },
                    ) {
                        Some(rest) => Some(
                            seq![DiffLineView { old: Some(c.old), new: Some(c.new), kind: LineKind::Context, text, at: c.new }]
                                + rest,
                        ),
                        None => None,
                    }
                }
            }
        }
    }
}

/// The lines of a unified diff with their line numbers (and, in `at`, the
/// new-side counter where each occurs): file headers, hunk
/// headers and `\ No newline` markers are consumed (a `diff ` line starts the
/// next file and closes the hunk, so that file's `---`/`+++` headers are
/// consumed too), a malformed hunk header stops the numbering until the next
/// good one. `None` when a line number
/// would run past `u32::MAX`.
pub open spec fn parsed_diff(diff: Seq<char>) -> Option<Seq<DiffLineView>> {
    diff_from(lines(diff), 0, DiffCursor { old: 0, new: 0, in_hunk: false })
}

/// Parse a unified diff (the output of `git diff`) into a flat list of lines with
/// old/new line numbers attached. File headers and hunk headers are consumed.
pub fn parse_unified_diff(diff: &str) -> (out: Vec<DiffLine>)
    requires
        parsed_diff(diff@) is Some,
    ensures
        Some(diff_views(out@)) == parsed_diff(diff@),
{
    match parse_diff_checked(diff) {
        Some(out) => out,
        None => {
            assert(false);
            Vec::new()
        },
    }
}

/// [`parse_unified_diff`], answering `None` where a line number would run
/// past `u32::MAX`.
pub fn parse_diff_checked(diff: &str) -> (r: Option<Vec<DiffLine>>)
    ensures
        match r {
            Some(out) => Some(diff_views(out@)) == parsed_diff(diff@),
            None => parsed_diff(diff@) is None,
        },
{
    let ls = lines_of(&chars_of(diff));
    let ghost all = views(ls@);
    let mut out: Vec<DiffLine> = Vec::new();
    let mut old_no: u32 = 0;
    let mut new_no: u32 = 0;
    let mut in_hunk = false;
    let mut i: usize = 0;
    assert(diff_views(out@) + parsed_diff(diff@)->0 =~= parsed_diff(diff@)->0);
    while i < ls.len()
        invariant
            i <= ls.len(),
            all == views(ls@),
            all == lines(diff@),
            parsed_diff(diff@) is Some <==> diff_from(all, i as int, DiffCursor { old: old_no, new: new_no, in_hunk }) is Some,
            parsed_diff(diff@) is Some ==> parsed_diff(diff@)->0 == diff_views(out@) + diff_from(
                all,
                i as int,
                DiffCursor { old: old_no, new: new_no, in_hunk },
            )->0,
        decreases ls.len() - i,
    {
        let line = &ls[i];
        let ghost c = DiffCursor { old: old_no, new: new_no, in_hunk };
        if line.len() >= 2 && line[0] == '@' && line[1] == '@' {
            proof {
                reveal_strlit("@@");
                assert(line@.take(2) =~= "@@"@);
            }
            let header = subvec(line, 2, line.len());
            assert(header@ =~= line@.skip(2));
            match parse_hunk_header(string_of(&header).as_str()) {
                Some((o, n)) => {
                    old_no = o;
                    new_no = n;
                    in_hunk = true;
                },
                None => {
                    in_hunk = false;
                },
            }
        } else {
            proof {
                reveal_strlit("@@");
                if line@.len() >= 2 {
                    assert(line@.take(2) != "@@"@) by {
                        if line@[0] != '@' {
                            assert(line@.take(2)[0] != "@@"@[0]);
                        } else {
                            assert(line@.take(2)[1] != "@@"@[1]);
                        }
                    }
                }
            }
            let file_start = starts_with(line, &chars_of("diff "));
            if file_start {
                // the next file's header: its `---`/`+++` lines are not hunk lines
                in_hunk = false;
            } else if !in_hunk || (line.len() > 0 && line[0] == '\\') {
                // preamble (diff --git / index / --- / +++) or "\ No newline"
            } else {
                let (m, text) = split_marker(line);
                let text = string_of(&text);
                let ghost rest = diff_from(all, i + 1, c);
                if (m == '+' && new_no == u32::MAX) || (m == '-' && old_no == u32::MAX) || (m
                    != '+' && m != '-' && (old_no == u32::MAX || new_no == u32::MAX)) {
                    return None;
                }
                if m == '+' {
                    let d = DiffLine { old: None, new: Some(new_no), kind: LineKind::Added, text, at: new_no };
                    proof {
                        assert(diff_views(out@.push(d)) =~= diff_views(out@).push(d@));
                    }
                    out.push(d);
                    new_no = new_no + 1;
                } else if m == '-' {
                    let d = DiffLine { old: Some(old_no), new: None, kind: LineKind::Removed, text, at: new_no };
                    proof {
                        assert(diff_views(out@.push(d)) =~= diff_views(out@).push(d@));
                    }
                    out.push(d);
                    old_no = old_no + 1;
                } else {
                    let d = DiffLine {
                        old: Some(old_no),
                        new: Some(new_no),
                        kind: LineKind::Context,
                        text,
                        at: new_no,
                    };
                    proof {
                        assert(diff_views(out@.push(d)) =~= diff_views(out@).push(d@));
                    }
                    out.push(d);
                    old_no = old_no + 1;
                    new_no = new_no + 1;
                }
            }
        }
        proof {
            let c2 = DiffCursor { old: old_no, new: new_no, in_hunk };
            let r1 = diff_from(all, i as int, c);
            let r2 = diff_from(all, i + 1, c2);
            assert(r1 is Some <==> r2 is Some);
            if r1 is Some {
                assert(diff_views(out@) + r2->0 =~= parsed_diff(diff@)->0);
            }
        }
        i = i + 1;
    }
    proof {
        assert(diff_views(out@) + Seq::<DiffLineView>::empty() =~= diff_views(out@));
    }
    Some(out)
}

// ---------------------------------------------------------------------------
// Windows
// ---------------------------------------------------------------------------
pub open spec fn in_range(n: u32, lo: u32, hi: u32) -> bool {
    n >= lo && n <= hi
}

/// Whether a removed line standing at head line `at` sits next to or inside
/// the shown region `[lo, hi]` of head lines: it precedes a line of the
/// region or the line just after it.
pub open spec fn removed_shown(at: u32, lo: u32, hi: u32) -> bool {
    lo <= at && at <= hi + 1
}

/// The diff lines from index `i` on that fall in the window `[lo, hi]` of
/// head-line numbers: context and added lines numbered inside it, focused
/// when inside `[focus_lo, focus_hi]`, and the removed lines that sit next
/// to or inside it (see [`removed_shown`]), shown without a number.
pub open spec fn window_from(
    d: Seq<DiffLineView>,
    i: int,
    lo: u32,
    hi: u32,
    focus_lo: u32,
    focus_hi: u32,
) -> Seq<CodeLineView>
    decreases d.len() - i,
{
    if i < 0 || i >= d.len() {
        Seq::empty()
    } else {
        let dl = d[i];
        let rest = window_from(d, i + 1, lo, hi, focus_lo, focus_hi);
        if dl.kind == LineKind::Removed {
            if removed_shown(dl.at, lo, hi) {
                seq![CodeLineView { number: None, kind: LineKind::Removed, focus: false, text: dl.text }]
                    + rest
            } else {
                rest
            }
        } else {
            match dl.new {
                Some(n) => {
                    if in_range(n, lo, hi) {
                        seq![CodeLineView { number: Some(n), kind: dl.kind, focus: in_range(n, focus_lo, focus_hi), text: dl.text }]
                            + rest
                    } else {
                        rest
                    }
                },
                None => rest,
            }
        }
    }
}

/// Select diff lines whose new-line number falls in `[lo, hi]`, keeping removed
/// lines that sit next to the kept region so the change reads naturally.
pub fn window_diff(parsed: &Vec<DiffLine>, lo: u32, hi: u32, focus_lo: u32, focus_hi: u32) -> (out:
    Vec<CodeLine>)
    ensures
        code_views(out@) == window_from(diff_views(parsed@), 0, lo, hi, focus_lo, focus_hi),
{
    let ghost d = diff_views(parsed@);
    let ghost whole = window_from(d, 0, lo, hi, focus_lo, focus_hi);
    let mut out: Vec<CodeLine> = Vec::new();
    let mut i: usize = 0;
    assert(code_views(out@) + whole =~= whole);
    while i < parsed.len()
        invariant
            i <= parsed.len(),
            d == diff_views(parsed@),
            whole == code_views(out@) + window_from(d, i as int, lo, hi, focus_lo, focus_hi),
        decreases parsed.len() - i,
    {
        let dl = &parsed[i];
        match dl.kind {
            LineKind::Context | LineKind::Added => {
                if let Some(n) = dl.new {
                    if n >= lo && n <= hi {
                        let c = CodeLine {
                            number: Some(n),
                            kind: dl.kind,
                            focus: n >= focus_lo && n <= focus_hi,
                            text: dl.text.clone(),
                        };
                        proof {
                            assert(code_views(out@.push(c)) =~= code_views(out@).push(c@));
                        }
                        out.push(c);
                    }
                }
            },
            LineKind::Removed => {
                // Show a removed line when the head line it precedes is in the
                // window or just after it. In a head-side view a removed line
                // has no head line number, so we leave `number` unset rather
                // than show its (misleading) base number next to head numbers.
                if lo <= dl.at && dl.at as u64 <= hi as u64 + 1 {
                    let c = CodeLine {
                        number: None,
                        kind: LineKind::Removed,
                        focus: false,
                        text: dl.text.clone(),
                    };
                    proof {
                        assert(code_views(out@.push(c)) =~= code_views(out@).push(c@));
                    }
                    out.push(c);
                }
            },
        }
        proof {
            assert(code_views(out@) + window_from(d, i + 1, lo, hi, focus_lo, focus_hi) =~= whole);
        }
        i = i + 1;
    }
    assert(code_views(out@) + Seq::<CodeLineView>::empty() =~= code_views(out@));
    out
}

/// The numbered lines `k + 1` (from index `k` on) of a file that fall in
/// `[lo, hi]`, as context.
pub open spec fn plain_from(ls: Seq<Seq<char>>, k: int, lo: u32, hi: u32, focus_lo: u32, focus_hi: u32) -> Seq<
    CodeLineView,
>
    decreases ls.len() - k,
{
    if k < 0 || k >= ls.len() {
        Seq::empty()
    } else {
        let n = (k + 1) as u32;
        let rest = plain_from(ls, k + 1, lo, hi, focus_lo, focus_hi);
        if in_range(n, lo, hi) {
            seq![CodeLineView { number: Some(n), kind: LineKind::Context, focus: in_range(n, focus_lo, focus_hi), text: ls[k] }]
                + rest
        } else {
            rest
        }
    }
}

/// The lines of `content` numbered from 1 whose numbers fall in `[lo, hi]`.
pub fn plain_window(content: &str, lo: u32, hi: u32, focus_lo: u32, focus_hi: u32) -> (out: Vec<
    CodeLine,
>)
    requires
        lines(content@).len() < u32::MAX,
    ensures
        code_views(out@) == plain_from(lines(content@), 0, lo, hi, focus_lo, focus_hi),
{
    let ls = lines_of(&chars_of(content));
    let ghost all = views(ls@);
    let ghost whole = plain_from(all, 0, lo, hi, focus_lo, focus_hi);
    let mut out: Vec<CodeLine> = Vec::new();
    let mut k: usize = 0;
    assert(code_views(out@) + whole =~= whole);
    while k < ls.len()
        invariant
            k <= ls.len(),
            ls.len() < u32::MAX,
            all == views(ls@),
            whole == code_views(out@) + plain_from(all, k as int, lo, hi, focus_lo, focus_hi),
        decreases ls.len() - k,
    {
        let n = (k as u32) + 1;
        if n >= lo && n <= hi {
            let c = CodeLine {
                number: Some(n),
                kind: LineKind::Context,
                focus: n >= focus_lo && n <= focus_hi,
                text: string_of(&ls[k]),
            };
            proof {
                assert(code_views(out@.push(c)) =~= code_views(out@).push(c@));
            }
            out.push(c);
        }
        proof {
            assert(code_views(out@) + plain_from(all, k + 1, lo, hi, focus_lo, focus_hi) =~= whole);
        }
        k = k + 1;
    }
    assert(code_views(out@) + Seq::<CodeLineView>::empty() =~= code_views(out@));
    out
}

// ---------------------------------------------------------------------------
// How hunk bodies are numbered
// ---------------------------------------------------------------------------
/// A line that keeps the current hunk open: neither a hunk header (`@@`)
/// nor the start of the next file (`diff `).
pub open spec fn in_body(l: Seq<char>) -> bool {
    !has_prefix(l, "@@"@) && !has_prefix(l, "diff "@)
}

/// A `\ No newline at end of file` marker, which is skipped.
pub open spec fn no_newline_marker(l: Seq<char>) -> bool {
    l.len() > 0 && l[0] == '\\'
}

/// Whether a body line advances the counter of the side whose own marker is
/// not `m`: every line but a `\` marker counts, except one marked `m`
/// (`+` lines have no old number, `-` lines no new one).
pub open spec fn counts_for(l: Seq<char>, m: char) -> bool {
    !no_newline_marker(l) && marker(l).0 != m
}

/// How many of the lines `ls[i..n)` count for the side excluding marker `m`.
pub open spec fn count_for(ls: Seq<Seq<char>>, i: int, n: int, m: char) -> nat
    decreases n - i,
{
    if i >= n {
        0
    } else {
        (if counts_for(ls[i], m) {
            1nat
        } else {
            0nat
        }) + count_for(ls, i + 1, n, m)
    }
}

/// The indices in `[i, n)` of the lines that become diff lines (all but the
/// `\` markers), in order.
pub open spec fn kept_lines(ls: Seq<Seq<char>>, i: int, n: int) -> Seq<int>
    decreases n - i,
{
    if i >= n {
        Seq::empty()
    } else if no_newline_marker(ls[i]) {
        kept_lines(ls, i + 1, n)
    } else {
        seq![i] + kept_lines(ls, i + 1, n)
    }
}

/// What the body line `ls[j]` of a hunk whose body starts at `ls[i]` with
/// the counters `c` stands for: its marker gives its kind (`+` added, `-`
/// removed, anything else context with the whole line as text), and each
/// side's number is that side's counter advanced by the earlier lines that
/// count for it.
pub open spec fn numbered_at(ls: Seq<Seq<char>>, i: int, j: int, c: DiffCursor) -> DiffLineView {
    let (m, text) = marker(ls[j]);
    let old = (c.old + count_for(ls, i, j, '+')) as u32;
    let new = (c.new + count_for(ls, i, j, '-')) as u32;
    if m == '+' {
        DiffLineView { old: None, new: Some(new), kind: LineKind::Added, text, at: new }
    } else if m == '-' {
        DiffLineView { old: Some(old), new: None, kind: LineKind::Removed, text, at: new }
    } else {
        DiffLineView { old: Some(old), new: Some(new), kind: LineKind::Context, text, at: new }
    }
}

/// The counters after the body lines `ls[i..n)`.
pub open spec fn body_end(ls: Seq<Seq<char>>, i: int, n: int, c: DiffCursor) -> DiffCursor {
    DiffCursor {
        old: (c.old + count_for(ls, i, n, '+')) as u32,
        new: (c.new + count_for(ls, i, n, '-')) as u32,
        in_hunk: true,
    }
}

/// Inside a hunk, every line up to the next `@@` or `diff ` line, except a
/// `\ No newline` marker, becomes one diff line, in order, numbered from the
/// hunk's counters: the old side counts the earlier context and removed
/// lines, the new side the earlier context and added lines, so numbers
/// advance by one per line on each side; parsing then goes on after the body
/// with the advanced counters. (When the numbers stay within `u32`.)
pub proof fn law_hunk_body_numbering(ls: Seq<Seq<char>>, i: int, n: int, c: DiffCursor)
    requires
        c.in_hunk,
        0 <= i <= n <= ls.len(),
        forall|j: int| i <= j < n ==> in_body(#[trigger] ls[j]),
        c.old + count_for(ls, i, n, '+') <= u32::MAX,
        c.new + count_for(ls, i, n, '-') <= u32::MAX,
    ensures
        diff_from(ls, i, c) == (match diff_from(ls, n, body_end(ls, i, n, c)) {
            Some(rest) => Some(kept_lines(ls, i, n).map_values(|j: int| numbered_at(ls, i, j, c)) + rest),
            None => None,
        }),
    decreases n - i,
{
    let body = kept_lines(ls, i, n).map_values(|j: int| numbered_at(ls, i, j, c));
    if i == n {
        assert(body_end(ls, i, n, c) == c);
        match diff_from(ls, n, c) {
            Some(rest) => {
                assert(body + rest =~= rest);
            },
            None => {},
        }
    } else {
        let line = ls[i];
        assert(in_body(line));
        let (m, text) = marker(line);
        if no_newline_marker(line) {
            law_hunk_body_numbering(ls, i + 1, n, c);
            let body1 = kept_lines(ls, i + 1, n).map_values(|j: int| numbered_at(ls, i + 1, j, c));
            assert(!counts_for(line, '+') && !counts_for(line, '-'));
            assert(body_end(ls, i + 1, n, c) == body_end(ls, i, n, c));
            assert forall|k: int| 0 <= k < body.len() implies body[k] == body1[k] by {
                let j = kept_lines(ls, i, n)[k];
                lemma_kept_after(ls, i + 1, n, k);
                assert(count_for(ls, i, j, '+') == count_for(ls, i + 1, j, '+'));
                assert(count_for(ls, i, j, '-') == count_for(ls, i + 1, j, '-'));
            }
            assert(body =~= body1);
        } else {
            assert(counts_for(line, '+') == (m != '+'));
            assert(counts_for(line, '-') == (m != '-'));
            let c2 = DiffCursor {
                old: if m == '+' {
                    c.old
                } else {
                    (c.old + 1) as u32
                },
                new: if m == '-' {
                    c.new
                } else {
                    (c.new + 1) as u32
                },
                ..c
            };
            law_hunk_body_numbering(ls, i + 1, n, c2);
            assert(body_end(ls, i + 1, n, c2) == body_end(ls, i, n, c));
            let body1 = kept_lines(ls, i + 1, n).map_values(|j: int| numbered_at(ls, i + 1, j, c2));
            let first = numbered_at(ls, i, i, c);
            assert(count_for(ls, i, i, '+') == 0 && count_for(ls, i, i, '-') == 0);
            assert(kept_lines(ls, i, n) == seq![i] + kept_lines(ls, i + 1, n));
            assert forall|k: int| 0 < k < body.len() implies body[k] == body1[k - 1] by {
                let j = kept_lines(ls, i, n)[k];
                lemma_kept_after(ls, i + 1, n, k - 1);
                assert(count_for(ls, i, j, '+') == (if m != '+' { 1nat } else { 0nat }) + count_for(
                    ls,
                    i + 1,
                    j,
                    '+',
                ));
                assert(count_for(ls, i, j, '-') == (if m != '-' { 1nat } else { 0nat }) + count_for(
                    ls,
                    i + 1,
                    j,
                    '-',
                ));
            }
            assert(body[0] == first);
            assert(body =~= seq![first] + body1);
            reveal_strlit("@@");
            reveal_strlit("diff ");
            match diff_from(ls, n, body_end(ls, i, n, c)) {
                Some(rest) => {
                    assert(seq![first] + (body1 + rest) =~= body + rest);
                },
                None => {},
            }
        }
    }
}

/// The kept lines from `i` on lie at or after `i`, before `n`, in order.
proof fn lemma_kept_after(ls: Seq<Seq<char>>, i: int, n: int, k: int)
    requires
        0 <= k < kept_lines(ls, i, n).len(),
    ensures
        i <= kept_lines(ls, i, n)[k] < n,
    decreases n - i,
{
    if i < n {
        if no_newline_marker(ls[i]) {
            lemma_kept_after(ls, i + 1, n, k);
        } else if k > 0 {
            lemma_kept_after(ls, i + 1, n, k - 1);
        }
    }
}

// ---------------------------------------------------------------------------
// What a window holds
// ---------------------------------------------------------------------------
/// A line of a diff window: a numbered context or added line inside `[lo, hi]`
/// whose focus mark says whether it is inside `[focus_lo, focus_hi]`, or an
/// unnumbered, unfocused removed line.
pub open spec fn window_line_ok(l: CodeLineView, lo: u32, hi: u32, focus_lo: u32, focus_hi: u32) -> bool {
    match l.number {
        Some(n) => in_range(n, lo, hi) && l.kind != LineKind::Removed && l.focus == in_range(
            n,
            focus_lo,
            focus_hi,
        ),
        None => l.kind == LineKind::Removed && !l.focus,
    }
}

/// Every line of a diff window lies in the window: numbered lines carry a
/// new-line number in `[lo, hi]` and are focused exactly when inside the
/// focus range; the others are removed lines shown beside them.
pub proof fn law_window_lines_in_range(
    d: Seq<DiffLineView>,
    i: int,
    lo: u32,
    hi: u32,
    focus_lo: u32,
    focus_hi: u32,
)
    ensures
        forall|j: int|
            0 <= j < window_from(d, i, lo, hi, focus_lo, focus_hi).len() ==> window_line_ok(
                #[trigger] window_from(d, i, lo, hi, focus_lo, focus_hi)[j],
                lo,
                hi,
                focus_lo,
                focus_hi,
            ),
    decreases d.len() - i,
{
    if 0 <= i < d.len() {
        law_window_lines_in_range(d, i + 1, lo, hi, focus_lo, focus_hi);
        let w = window_from(d, i, lo, hi, focus_lo, focus_hi);
        let rest = window_from(d, i + 1, lo, hi, focus_lo, focus_hi);
        assert forall|j: int| 0 <= j < w.len() implies window_line_ok(
            #[trigger] w[j],
            lo,
            hi,
            focus_lo,
            focus_hi,
        ) by {
            if w.len() > rest.len() && j > 0 {
                assert(w[j] == rest[j - 1]);
            }
        }
    }
}

/// The plain window of a file is the run of its lines from `lo` to `hi`
/// (both counted from 1), in order and numbered, when that run lies inside
/// the file.
pub proof fn law_plain_window_contiguous(
    ls: Seq<Seq<char>>,
    lo: u32,
    hi: u32,
    focus_lo: u32,
    focus_hi: u32,
)
    requires
        1 <= lo <= hi,
        hi <= ls.len() < u32::MAX,
    ensures
        plain_from(ls, 0, lo, hi, focus_lo, focus_hi).len() == hi - lo + 1,
        forall|j: int|
            0 <= j <= hi - lo ==> #[trigger] plain_from(ls, 0, lo, hi, focus_lo, focus_hi)[j]
                == (CodeLineView {
                number: Some((lo + j) as u32),
                kind: LineKind::Context,
                focus: in_range((lo + j) as u32, focus_lo, focus_hi),
                text: ls[lo + j - 1],
            }),
{
    lemma_plain_from_tail(ls, 0, lo, hi, focus_lo, focus_hi);
}

proof fn lemma_plain_from_tail(
    ls: Seq<Seq<char>>,
    k: int,
    lo: u32,
    hi: u32,
    focus_lo: u32,
    focus_hi: u32,
)
    requires
        1 <= lo <= hi,
        hi <= ls.len() < u32::MAX,
        0 <= k <= hi,
    ensures
        plain_from(ls, k, lo, hi, focus_lo, focus_hi).len() == hi - (if k + 1 > lo {
            k + 1
        } else {
            lo as int
        }) + 1,
        forall|j: int|
            0 <= j < plain_from(ls, k, lo, hi, focus_lo, focus_hi).len()
                ==> #[trigger] plain_from(ls, k, lo, hi, focus_lo, focus_hi)[j] == (CodeLineView {
                number: Some(((if k + 1 > lo {
                    k + 1
                } else {
                    lo as int
                }) + j) as u32),
                kind: LineKind::Context,
                focus: in_range(
                    ((if k + 1 > lo {
                        k + 1
                    } else {
                        lo as int
                    }) + j) as u32,
                    focus_lo,
                    focus_hi,
                ),
                text: ls[(if k + 1 > lo {
                    k + 1
                } else {
                    lo as int
                }) + j - 1],
            }),
    decreases ls.len() - k,
{
    if k == hi {
        lemma_plain_from_past(ls, k, lo, hi, focus_lo, focus_hi);
    } else {
        lemma_plain_from_tail(ls, k + 1, lo, hi, focus_lo, focus_hi);
        let n = (k + 1) as u32;
        let rest = plain_from(ls, k + 1, lo, hi, focus_lo, focus_hi);
        let here = plain_from(ls, k, lo, hi, focus_lo, focus_hi);
        if in_range(n, lo, hi) {
            assert forall|j: int| 0 < j < here.len() implies here[j] == rest[j - 1] by {}
        } else if k + 1 < lo {
            assert(here == rest);
        }
    }
}

proof fn lemma_plain_from_past(
    ls: Seq<Seq<char>>,
    k: int,
    lo: u32,
    hi: u32,
    focus_lo: u32,
    focus_hi: u32,
)
    requires
        k >= hi,
        ls.len() < u32::MAX,
    ensures
        plain_from(ls, k, lo, hi, focus_lo, focus_hi) == Seq::<CodeLineView>::empty(),
    decreases ls.len() - k,
{
    if k < ls.len() {
        lemma_plain_from_past(ls, k + 1, lo, hi, focus_lo, focus_hi);
    }
}

// ---------------------------------------------------------------------------
// Snippets
// ---------------------------------------------------------------------------
pub struct SnippetView {
    pub file: Seq<char>,
    pub side: Side,
    pub lines: Seq<CodeLineView>,
    pub from_diff: bool,
    pub note: Option<Seq<char>>,
}

impl View for CodeSnippet {
    type V = SnippetView;

    open spec fn view(&self) -> SnippetView {
        SnippetView {
            file: self.file@,
            side: self.side,
            lines: code_views(self.lines@),
            from_diff: self.from_diff,
            note: match self.note {
                Some(n) => Some(n@),
                None => None,
            },
        }
    }
}

/// The window of line numbers shown around a location: `context` lines before
/// its start (but not before line 1) to `context` lines after its end.
pub open spec fn window_bounds(loc: Location, context: u32) -> (u32, u32) {
    let lo = if loc.start_line > context {
        (loc.start_line - context) as u32
    } else {
        0u32
    };
    let lo = if lo < 1 {
        1u32
    } else {
        lo
    };
    let hi = if loc.spec_end() + context > u32::MAX {
        u32::MAX
    } else {
        (loc.spec_end() + context) as u32
    };
    (lo, hi)
}

fn bounds(loc: &Location, context: u32) -> (r: (u32, u32))
    ensures
        r == window_bounds(*loc, context),
{
    let lo = loc.start_line.saturating_sub(context);
    let lo = if lo < 1 {
        1
    } else {
        lo
    };
    let hi = loc.end().saturating_add(context);
    (lo, hi)
}

/// The window around a location runs from `context` lines before its start
/// (never before line 1) to `context` lines after its end (never past
/// `u32::MAX`), so it always holds the whole location.
pub proof fn law_window_bounds_hold_location(loc: Location, context: u32)
    ensures
        window_bounds(loc, context).0 == (if loc.start_line > context + 1 {
            loc.start_line - context
        } else {
            1
        }),
        window_bounds(loc, context).1 == (if loc.spec_end() + context > u32::MAX {
            u32::MAX as int
        } else {
            loc.spec_end() + context
        }),
        window_bounds(loc, context).0 <= loc.start_line || loc.start_line == 0,
        window_bounds(loc, context).1 >= loc.spec_end(),
{
}

/// Numbers past the end of the file do not change a plain window.
proof fn lemma_plain_from_cap(ls: Seq<Seq<char>>, k: int, lo: u32, hi: u32, hi2: u32, focus_lo: u32, focus_hi: u32)
    requires
        ls.len() < u32::MAX,
        0 <= k,
        hi2 == (if hi > ls.len() { ls.len() as u32 } else { hi }),
    ensures
        plain_from(ls, k, lo, hi, focus_lo, focus_hi) == plain_from(ls, k, lo, hi2, focus_lo, focus_hi),
    decreases ls.len() - k,
{
    if k < ls.len() {
        lemma_plain_from_cap(ls, k + 1, lo, hi, hi2, focus_lo, focus_hi);
    }
}

/// A plain-context snippet holds the whole location: when the location's
/// lines `start..=end` lie in the file, the snippet (on either side, when no
/// diff is used) starts `context` lines before the start (at line 1 at the
/// earliest) and runs at least to the end, each of the location's lines
/// standing at its place, numbered with its line number, focused, and with
/// its text.
pub proof fn law_snippet_holds_location(loc: Location, context: u32, content: Seq<char>)
    requires
        1 <= loc.start_line <= loc.spec_end() <= lines(content).len() < u32::MAX,
    ensures
        ({
            let v = snippet_view(loc, context, None, Some(content)).lines;
            let first = if loc.start_line > context + 1 {
                loc.start_line - context
            } else {
                1
            };
            &&& v.len() >= loc.spec_end() - first + 1
            &&& forall|j: int|
                0 <= j && loc.start_line <= first + j <= loc.spec_end() ==> #[trigger] v[j] == (CodeLineView {
                    number: Some((first + j) as u32),
                    kind: LineKind::Context,
                    focus: true,
                    text: lines(content)[first + j - 1],
                })
        }),
{
    let ls = lines(content);
    let (lo, hi) = window_bounds(loc, context);
    law_window_bounds_hold_location(loc, context);
    let hi2 = if hi > ls.len() {
        ls.len() as u32
    } else {
        hi
    };
    let v = snippet_view(loc, context, None, Some(content)).lines;
    assert(v == plain_from(ls, 0, lo, hi, loc.start_line, loc.spec_end()));
    lemma_plain_from_cap(ls, 0, lo, hi, hi2, loc.start_line, loc.spec_end());
    law_plain_window_contiguous(ls, lo, hi2, loc.start_line, loc.spec_end());
}

/// The diff lines around a head-side location, when the diff covers it.
pub open spec fn diff_window(loc: Location, context: u32, diff: Seq<char>) -> Seq<CodeLineView> {
    let (lo, hi) = window_bounds(loc, context);
    window_from(parsed_diff(diff)->0, 0, lo, hi, loc.start_line, loc.spec_end())
}

/// The note shown when the file of a location cannot be read.
pub open spec fn missing_note(loc: Location) -> Seq<char> {
    match loc.side {
        Side::Head => loc.file@ + " not found in the head checkout"@,
        Side::Base => loc.file@ + " not found in the base revision"@,
    }
}

/// The plain-context view of a location, from the file's contents (`None` when
/// the file does not exist on that side).
pub open spec fn context_view(loc: Location, context: u32, content: Option<Seq<char>>) -> SnippetView {
    let (lo, hi) = window_bounds(loc, context);
    match content {
        Some(c) => SnippetView {
            file: loc.file@,
            side: loc.side,
            lines: plain_from(lines(c), 0, lo, hi, loc.start_line, loc.spec_end()),
            from_diff: false,
            note: None,
        },
        None => SnippetView {
            file: loc.file@,
            side: loc.side,
            lines: Seq::empty(),
            from_diff: false,
            note: Some(missing_note(loc)),
        },
    }
}

/// What [`snippet_for_location`] builds: for the head side, the PR's diff
/// around the location when it covers any of it, else plain file context; for
/// the base side, plain context from the base file.
pub open spec fn snippet_view(
    loc: Location,
    context: u32,
    diff: Option<Seq<char>>,
    content: Option<Seq<char>>,
) -> SnippetView {
    match (loc.side, diff) {
        (Side::Head, Some(d)) if diff_window(loc, context, d).len() > 0 => SnippetView {
            file: loc.file@,
            side: Side::Head,
            lines: diff_window(loc, context, d),
            from_diff: true,
            note: None,
        },
        _ => context_view(loc, context, content),
    }
}

pub open spec fn opt_seq(o: Option<&str>) -> Option<Seq<char>> {
    match o {
        Some(s) => Some(s@),
        None => None,
    }
}

/// The diff view of a head-side location, `None` when the diff shows none of
/// its window.
pub fn diff_snippet(loc: &Location, context: u32, diff: &str) -> (r: Option<CodeSnippet>)
    requires
        parsed_diff(diff@) is Some,
    ensures
        match r {
            Some(s) => diff_window(*loc, context, diff@).len() > 0 && s@ == (SnippetView {
                file: loc.file@,
                side: Side::Head,
                lines: diff_window(*loc, context, diff@),
                from_diff: true,
                note: None,
            }),
            None => diff_window(*loc, context, diff@).len() == 0,
        },
{
    let (lo, hi) = bounds(loc, context);
    let parsed = parse_unified_diff(diff);
    let windowed = window_diff(&parsed, lo, hi, loc.start_line, loc.end());
    if windowed.len() > 0 {
        Some(
            CodeSnippet {
                file: loc.file.clone(),
                side: Side::Head,
                lines: windowed,
                from_diff: true,
                note: None,
            },
        )
    } else {
        None
    }
}

/// The plain-context view of a location from the file's contents on its
/// side (`None` when the file does not exist there).
pub fn context_snippet(loc: &Location, context: u32, content: Option<&str>) -> (s: CodeSnippet)
    requires
        content matches Some(c) ==> lines(c@).len() < u32::MAX,
    ensures
        s@ == context_view(*loc, context, opt_seq(content)),
{
    let (lo, hi) = bounds(loc, context);
    match content {
        Some(c) => CodeSnippet {
            file: loc.file.clone(),
            side: loc.side,
            lines: plain_window(c, lo, hi, loc.start_line, loc.end()),
            from_diff: false,
            note: None,
        },
        None => {
            let mut v = chars_of(loc.file.as_str());
            match loc.side {
                Side::Head => push_str(&mut v, " not found in the head checkout"),
                Side::Base => push_str(&mut v, " not found in the base revision"),
            }
            let empty: Vec<CodeLine> = Vec::new();
            assert(code_views(empty@) =~= Seq::<CodeLineView>::empty());
            CodeSnippet {
                file: loc.file.clone(),
                side: loc.side,
                lines: empty,
                from_diff: false,
                note: Some(string_of(&v)),
            }
        },
    }
}

/// Whether a location's view is cut from the PR's diff of its file: only a
/// head-side location, and only when both the base and the head commit of
/// the PR are known (otherwise there is no diff to ask git for).
pub fn uses_diff(loc: &Location, base_sha: &str, head_sha: &str) -> (b: bool)
    ensures
        b == (loc.side == Side::Head && base_sha@.len() > 0 && head_sha@.len() > 0),
{
    match loc.side {
        Side::Head => !base_sha.is_empty() && !head_sha.is_empty(),
        Side::Base => false,
    }
}

/// The snippet of a head-side location: the PR's diff around it when the diff
/// covers any of its window, else plain context from the head checkout.
fn head_snippet(loc: &Location, context: u32, diff: Option<&str>, content: Option<&str>) -> (s:
    CodeSnippet)
    requires
        loc.side == Side::Head,
        diff matches Some(d) ==> parsed_diff(d@) is Some,
        content matches Some(c) ==> lines(c@).len() < u32::MAX,
    ensures
        s@ == snippet_view(*loc, context, opt_seq(diff), opt_seq(content)),
{
    if let Some(d) = diff {
        if let Some(s) = diff_snippet(loc, context, d) {
            return s;
        }
    }
    context_snippet(loc, context, content)
}

/// The snippet of a base-side location: plain context from the base revision.
fn base_snippet(loc: &Location, context: u32, content: Option<&str>) -> (s: CodeSnippet)
    requires
        loc.side == Side::Base,
        content matches Some(c) ==> lines(c@).len() < u32::MAX,
    ensures
        s@ == context_view(*loc, context, opt_seq(content)),
{
    context_snippet(loc, context, content)
}

/// Build the related-code snippet for a location. `diff` is the unified diff
/// of the location's file between the PR's base and head (for a head-side
/// location whose PR revisions are known); `content` is the file on the
/// location's side, `None` when it does not exist there.
pub fn snippet_for_location(
    loc: &Location,
    context: u32,
    diff: Option<&str>,
    content: Option<&str>,
) -> (s: CodeSnippet)
    requires
        diff matches Some(d) ==> parsed_diff(d@) is Some,
        content matches Some(c) ==> lines(c@).len() < u32::MAX,
    ensures
        s@ == snippet_view(*loc, context, opt_seq(diff), opt_seq(content)),
{
    match loc.side {
        Side::Head => head_snippet(loc, context, diff, content),
        Side::Base => base_snippet(loc, context, content),
    }
}

/// The title of a snippet in the navigator: `file · side · source`.
pub fn snippet_header(snippet: &CodeSnippet) -> (h: String)
    ensures
        h@ == snippet@.file + " \u{b7} "@ + side_tag(snippet@.side) + " \u{b7} "@ + source_tag(
            snippet@.from_diff,
        ),
{
    let mut v = chars_of(snippet.file.as_str());
    push_str(&mut v, " \u{b7} ");
    match snippet.side {
        Side::Head => push_str(&mut v, "head"),
        Side::Base => push_str(&mut v, "base"),
    }
    push_str(&mut v, " \u{b7} ");
    if snippet.from_diff {
        push_str(&mut v, "diff");
    } else {
        push_str(&mut v, "context");
    }
    string_of(&v)
}

// ---------------------------------------------------------------------------
// Plain-text rendering
// ---------------------------------------------------------------------------
pub open spec fn spaces(n: nat) -> Seq<char> {
    Seq::new(n, |i: int| ' ')
}

/// `format!("{n:>width$}")`: the decimal digits right-aligned in `width`
/// columns (wider numbers are not cut).
pub open spec fn padded(n: u32, width: nat) -> Seq<char> {
    let d = decimal(n as nat);
    if d.len() < width {
        spaces((width - d.len()) as nat) + d
    } else {
        d
    }
}

/// `format!("{n:>5}")`.
pub open spec fn pad5(n: u32) -> Seq<char> {
    padded(n, 5)
}

pub open spec fn sign_of(k: LineKind) -> char {
    match k {
        LineKind::Added => '+',
        LineKind::Removed => '-',
        LineKind::Context => ' ',
    }
}

/// One rendered code line: focus marker, number column, diff sign, text.
pub open spec fn render_line(l: CodeLineView) -> Seq<char> {
    let marker = if l.focus {
        '\u{25B6}'
    } else {
        ' '
    };
    let num = match l.number {
        Some(n) => pad5(n),
        None => spaces(5),
    };
    seq![marker] + num + " "@ + seq![sign_of(l.kind)] + " "@ + l.text + "\n"@
}

pub open spec fn render_lines(ls: Seq<CodeLineView>) -> Seq<char>
    decreases ls.len(),
{
    if ls.len() == 0 {
        Seq::empty()
    } else {
        render_lines(ls.drop_last()) + render_line(ls.last())
    }
}

pub open spec fn side_tag(s: Side) -> Seq<char> {
    match s {
        Side::Head => "head"@,
        Side::Base => "base"@,
    }
}

pub open spec fn source_tag(from_diff: bool) -> Seq<char> {
    if from_diff {
        "diff"@
    } else {
        "context"@
    }
}

/// What [`render_plain`] produces.
pub open spec fn rendered(s: SnippetView) -> Seq<char> {
    let header = "\u{2500}\u{2500} "@ + s.file + " ("@ + side_tag(s.side) + ", "@ + source_tag(
        s.from_diff,
    ) + ") \u{2500}\u{2500}\n"@;
    match s.note {
        Some(note) => header + "   ("@ + note + ")\n"@,
        None => header + render_lines(s.lines),
    }
}

pub(crate) fn pad_of(n: u32, width: usize) -> (out: Vec<char>)
    ensures
        out@ == padded(n, width as nat),
{
    let d = decimal_of(n as u64);
    let mut out: Vec<char> = Vec::new();
    if d.len() < width {
        let k = width - d.len();
        let mut i: usize = 0;
        while i < k
            invariant
                i <= k,
                out@ == spaces(i as nat),
            decreases k - i,
        {
            out.push(' ');
            proof {
                assert(out@ =~= spaces((i + 1) as nat));
            }
            i = i + 1;
        }
    }
    append_chars(&mut out, &d);
    proof {
        if d@.len() >= width {
            assert(out@ =~= d@);
        }
    }
    out
}

/// One rendered line of a snippet.
fn render_line_of(line: &CodeLine) -> (out: Vec<char>)
    ensures
        out@ == render_line(line@),
{
    let mut out: Vec<char> = Vec::new();
    if line.focus {
        out.push('\u{25B6}');
    } else {
        out.push(' ');
    }
    match line.number {
        Some(n) => append_chars(&mut out, &pad_of(n, 5)),
        None => push_str(&mut out, "     "),
    }
    push_str(&mut out, " ");
    match line.kind {
        LineKind::Added => out.push('+'),
        LineKind::Removed => out.push('-'),
        LineKind::Context => out.push(' '),
    }
    push_str(&mut out, " ");
    push_str(&mut out, line.text.as_str());
    push_str(&mut out, "\n");
    proof {
        reveal_strlit("     ");
        assert("     "@ =~= spaces(5));
        assert(out@ =~= render_line(line@));
    }
    out
}

/// Render a snippet as plain text (used by `co-review show`).
pub fn render_plain(snippet: &CodeSnippet) -> (out: String)
    ensures
        out@ == rendered(snippet@),
{
    let mut out = chars_of("\u{2500}\u{2500} ");
    push_str(&mut out, snippet.file.as_str());
    push_str(&mut out, " (");
    match snippet.side {
        Side::Head => push_str(&mut out, "head"),
        Side::Base => push_str(&mut out, "base"),
    }
    push_str(&mut out, ", ");
    if snippet.from_diff {
        push_str(&mut out, "diff");
    } else {
        push_str(&mut out, "context");
    }
    push_str(&mut out, ") \u{2500}\u{2500}\n");
    match &snippet.note {
        Some(note) => {
            push_str(&mut out, "   (");
            push_str(&mut out, note.as_str());
            push_str(&mut out, ")\n");
            return string_of(&out);
        },
        None => {},
    }
    let ghost header = out@;
    let ghost ls = code_views(snippet.lines@);
    let mut i: usize = 0;
    assert(ls.take(0) =~= Seq::<CodeLineView>::empty());
    assert(out@ =~= header + render_lines(ls.take(0)));
    while i < snippet.lines.len()
        invariant
            i <= snippet.lines.len(),
            ls == code_views(snippet.lines@),
            out@ == header + render_lines(ls.take(i as int)),
        decreases snippet.lines.len() - i,
    {
        let line_text = render_line_of(&snippet.lines[i]);
        append_chars(&mut out, &line_text);
        proof {
            assert(ls.take(i + 1).drop_last() =~= ls.take(i as int));
            assert(ls[i as int] == snippet.lines@[i as int]@);
            assert(out@ =~= header + render_lines(ls.take(i + 1)));
        }
        i = i + 1;
    }
    assert(ls.take(ls.len() as int) =~= ls);
    string_of(&out)
}

} // verus!
