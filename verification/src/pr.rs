//! Parsing pull-request references and GitHub remote URLs.
//!
//! Accepts everything a human would plausibly type:
//! `123`, `#123`, `PR123`, `pr/123`, `pull/123`, `owner/repo#123`,
//! `owner/repo/123`, and full URLs like
//! `https://github.com/owner/repo/pull/123`.
use vstd::prelude::*;

use crate::text::{
    all_digits, decimal, has_prefix, has_suffix, is_digit, is_ws, lemma_decimal, lower_char, all_digits_of, chars_eq, chars_of, find_of, find_sub, first_in, occurs_at, in_set,
    lemma_find_from_bounds, lemma_first_in_at, lemma_views_push, lower, lower_of, parse_uint,
    parse_uint_of, push_str, split_of, split_set, string_of, strip_prefix, strip_prefix_of,
    strip_suffix, strip_suffix_of, subvec, trim, trim_end_of, trim_end_set, trim_of, trim_set,
    trim_start_of, trim_start_set, views, CharSet, lemma_trim_start_at,
};

verus! {

/// A parsed reference to a pull request. `owner`/`repo` are optional because a
/// bare `123` relies on the surrounding git remote to fill them in.
#[derive(Debug, Clone, PartialEq, Eq)]
pub struct PrRef {
    pub owner: Option<String>,
    pub repo: Option<String>,
    pub number: u64,
}

/// The abstract value of a [`PrRef`].
pub struct PrRefView {
    pub owner: Option<Seq<char>>,
    pub repo: Option<Seq<char>>,
    pub number: u64,
}

pub open spec fn opt_view(o: Option<String>) -> Option<Seq<char>> {
    match o {
        Some(s) => Some(s@),
        None => None,
    }
}

impl View for PrRef {
    type V = PrRefView;

    open spec fn view(&self) -> PrRefView {
        PrRefView { owner: opt_view(self.owner), repo: opt_view(self.repo), number: self.number }
    }
}

/// Why a PR reference could not be parsed.
#[derive(Debug, Clone, PartialEq, Eq)]
pub enum PrError {
    /// The reference was empty (or only whitespace).
    Empty,
    /// No PR number could be read from the given input.
    NoNumber(String),
    /// The given URL path names no pull request.
    NoReference(String),
}

/// The abstract value of a [`PrError`].
pub enum PrErrorView {
    Empty,
    NoNumber(Seq<char>),
    NoReference(Seq<char>),
}

impl View for PrError {
    type V = PrErrorView;

    open spec fn view(&self) -> PrErrorView {
        match self {
            PrError::Empty => PrErrorView::Empty,
            PrError::NoNumber(s) => PrErrorView::NoNumber(s@),
            PrError::NoReference(s) => PrErrorView::NoReference(s@),
        }
    }
}

pub open spec fn pr_error_message(e: PrErrorView) -> Seq<char> {
    match e {
        PrErrorView::Empty => "empty PR reference"@,
        PrErrorView::NoNumber(s) => "could not parse a PR number from '"@ + s + "'"@,
        PrErrorView::NoReference(s) => "could not parse a PR reference from '"@ + s + "'"@,
    }
}

impl PrError {
    /// The human-readable message for this error.
    pub fn message(&self) -> (m: String)
        ensures
            m@ == pr_error_message(self@),
    {
        let mut v: Vec<char> = Vec::new();
        match self {
            PrError::Empty => push_str(&mut v, "empty PR reference"),
            PrError::NoNumber(s) => {
                push_str(&mut v, "could not parse a PR number from '");
                push_str(&mut v, s.as_str());
                push_str(&mut v, "'");
            },
            PrError::NoReference(s) => {
                push_str(&mut v, "could not parse a PR reference from '");
                push_str(&mut v, s.as_str());
                push_str(&mut v, "'");
            },
        }
        string_of(&v)
    }
}

// ---------------------------------------------------------------------------
// Specification
// ---------------------------------------------------------------------------
pub open spec fn or_else(a: Option<Seq<char>>, b: Seq<char>) -> Seq<char> {
    match a {
        Some(x) => x,
        None => b,
    }
}

/// The digits left after removing the recognised spellings of "pull request"
/// from the front of a lowercased token.
pub open spec fn strip_pr_word(lw: Seq<char>) -> Seq<char> {
    match strip_prefix(lw, "pull/"@) {
        Some(r) => r,
        None => match strip_prefix(lw, "pulls/"@) {
            Some(r) => r,
            None => match strip_prefix(lw, "pull-"@) {
                Some(r) => r,
                None => match strip_prefix(lw, "pr/"@) {
                    Some(r) => r,
                    None => match strip_prefix(lw, "pr-"@) {
                        Some(r) => r,
                        None => or_else(strip_prefix(lw, "pr"@), lw),
                    },
                },
            },
        },
    }
}

/// The number a token like `123`, `#123`, `PR123`, `pr/123` or `pull/123`
/// names, if any.
pub open spec fn number_token(tok: Seq<char>) -> Option<u64> {
    let t = trim(tok);
    let t = or_else(strip_prefix(t, "#"@), t);
    let digits = strip_pr_word(lower(t));
    let digits = trim_start_set(trim(digits), CharSet::Only('#'));
    if digits.len() == 0 || !all_digits(digits) {
        None
    } else {
        match parse_uint(digits, u64::MAX as nat) {
            Some(n) => Some(n as u64),
            None => None,
        }
    }
}

/// The pieces of `s` split at `'/'`.
pub open spec fn slash_pieces(s: Seq<char>) -> Seq<Seq<char>> {
    split_set(s, CharSet::Only('/'))
}

pub open spec fn nonempty(p: Seq<char>) -> bool {
    p.len() > 0
}

/// `owner/repo#N`: the owner, repository and number, when all are present.
pub open spec fn hash_form(path: Seq<char>) -> Option<(Seq<char>, Seq<char>, u64)> {
    let i = first_in(path, CharSet::Only('#'));
    if i < 0 {
        None
    } else {
        let it = slash_pieces(path.take(i));
        if it[0].len() > 0 && it.len() > 1 && it[1].len() > 0 && number_token(path.skip(i + 1)) is Some {
            Some((it[0], it[1], number_token(path.skip(i + 1))->0))
        } else {
            None
        }
    }
}

/// The owner, repository and number that a GitHub URL path (already stripped
/// of the host) names, e.g. `owner/repo/pull/123` or `owner/repo#123`.
pub open spec fn url_path(path0: Seq<char>) -> Option<(Seq<char>, Seq<char>, u64)> {
    let path = trim_set(path0, CharSet::Only('/'));
    if hash_form(path) is Some {
        hash_form(path)
    } else {
        let segs = slash_pieces(path).filter(|p: Seq<char>| nonempty(p));
        if segs.len() >= 4 && (segs[2] == "pull"@ || segs[2] == "pulls"@ || segs[2] == "pr"@)
            && number_token(segs[3]) is Some {
            Some((segs[0], segs[1], number_token(segs[3])->0))
        } else if segs.len() == 3 && number_token(segs[2]) is Some {
            Some((segs[0], segs[1], number_token(segs[2])->0))
        } else {
            None
        }
    }
}

pub open spec fn full_ref(t: (Seq<char>, Seq<char>, u64)) -> PrRefView {
    PrRefView { owner: Some(t.0), repo: Some(t.1), number: t.2 }
}

pub open spec fn number_only(n: u64) -> PrRefView {
    PrRefView { owner: None, repo: None, number: n }
}

/// The path of a GitHub URL after its host, when `s` is one.
pub open spec fn github_url_rest(s: Seq<char>) -> Option<Seq<char>> {
    match strip_prefix(s, "https://github.com/"@) {
        Some(r) => Some(r),
        None => match strip_prefix(s, "http://github.com/"@) {
            Some(r) => Some(r),
            None => strip_prefix(s, "github.com/"@),
        },
    }
}

/// What [`parse`] returns for `input`.
pub open spec fn parse_spec(input: Seq<char>) -> Result<PrRefView, PrErrorView> {
    let s = trim(input);
    if s.len() == 0 {
        Err(PrErrorView::Empty)
    } else if github_url_rest(s) is Some {
        let rest = github_url_rest(s)->0;
        match url_path(rest) {
            Some(t) => Ok(full_ref(t)),
            None => Err(PrErrorView::NoReference(trim_set(rest, CharSet::Only('/')))),
        }
    } else if first_in(s, CharSet::Only('/')) >= 0 && url_path(s) is Some {
        Ok(full_ref(url_path(s)->0))
    } else {
        match number_token(s) {
            Some(n) => Ok(number_only(n)),
            None => Err(PrErrorView::NoNumber(input)),
        }
    }
}

/// The remote-URL forms [`parse_github_remote`] understands, with the part
/// after the host.
pub open spec fn remote_tail(u: Seq<char>) -> Option<Seq<char>> {
    match strip_prefix(u, "git@github.com:"@) {
        Some(r) => Some(r),
        None => match strip_prefix(u, "ssh://git@github.com/"@) {
            Some(r) => Some(r),
            None => match strip_prefix(u, "https://github.com/"@) {
                Some(r) => Some(r),
                None => match strip_prefix(u, "http://github.com/"@) {
                    Some(r) => Some(r),
                    None => {
                        let i = find_sub(u, "github.com/"@);
                        if i >= 0 {
                            Some(u.skip(i + "github.com/"@.len()))
                        } else {
                            None
                        }
                    },
                },
            },
        },
    }
}

/// The owner and repository that the part of a remote URL after its host
/// names: trailing `/` and then one `.git` are dropped, and the first two
/// pieces at `/` must both be non-empty.
pub open spec fn tail_owner_repo(tail: Seq<char>) -> Option<(Seq<char>, Seq<char>)> {
    let tail = trim_end_set(tail, CharSet::Only('/'));
    let tail = or_else(strip_suffix(tail, ".git"@), tail);
    let it = slash_pieces(tail);
    if it[0].len() > 0 && it.len() > 1 && it[1].len() > 0 {
        Some((it[0], it[1]))
    } else {
        None
    }
}

/// What [`parse_github_remote`] returns for `url`.
pub open spec fn github_remote(url: Seq<char>) -> Option<(Seq<char>, Seq<char>)> {
    match remote_tail(trim(url)) {
        None => None,
        Some(tail) => tail_owner_repo(tail),
    }
}

// ---------------------------------------------------------------------------
// Implementation
// ---------------------------------------------------------------------------
impl PrRef {
    pub fn number_only(n: u64) -> (r: PrRef)
        ensures
            r@ == number_only(n),
    {
        PrRef { owner: None, repo: None, number: n }
    }

    fn full(owner: &Vec<char>, repo: &Vec<char>, n: u64) -> (r: PrRef)
        ensures
            r@ == full_ref((owner@, repo@, n)),
    {
        PrRef { owner: Some(string_of(owner)), repo: Some(string_of(repo)), number: n }
    }
}

fn strip_or_keep(v: Vec<char>, p: &str) -> (out: Vec<char>)
    ensures
        out@ == or_else(strip_prefix(v@, p@), v@),
{
    match strip_prefix_of(&v, p) {
        Some(w) => w,
        None => v,
    }
}

fn strip_pr_word_of(lw: &Vec<char>) -> (out: Vec<char>)
    ensures
        out@ == strip_pr_word(lw@),
{
    if let Some(r) = strip_prefix_of(lw, "pull/") {
        return r;
    }
    if let Some(r) = strip_prefix_of(lw, "pulls/") {
        return r;
    }
    if let Some(r) = strip_prefix_of(lw, "pull-") {
        return r;
    }
    if let Some(r) = strip_prefix_of(lw, "pr/") {
        return r;
    }
    if let Some(r) = strip_prefix_of(lw, "pr-") {
        return r;
    }
    strip_or_keep(lw.clone(), "pr")
}

/// Parse a number out of tokens like `123`, `#123`, `PR123`, `pr/123`, `pull/123`.
fn parse_number_token(tok: &Vec<char>) -> (r: Option<u64>)
    ensures
        r == number_token(tok@),
{
    let t = trim_of(tok, CharSet::Whitespace);
    let t = strip_or_keep(t, "#");
    let lw = lower_of(&t);
    let digits = strip_pr_word_of(&lw);
    let digits = trim_of(&digits, CharSet::Whitespace);
    let digits = trim_start_of(&digits, CharSet::Only('#'));
    if digits.len() == 0 || !all_digits_of(&digits) {
        return None;
    }
    parse_uint_of(&digits, u64::MAX)
}

/// The non-empty pieces among `pieces`, in order.
fn nonempty_pieces(pieces: &Vec<Vec<char>>) -> (out: Vec<Vec<char>>)
    ensures
        views(out@) == views(pieces@).filter(|p: Seq<char>| nonempty(p)),
{
    let ghost all = views(pieces@);
    let mut out: Vec<Vec<char>> = Vec::new();
    let mut i: usize = 0;
    while i < pieces.len()
        invariant
            i <= pieces.len(),
            all == views(pieces@),
            views(out@) == all.take(i as int).filter(|p: Seq<char>| nonempty(p)),
        decreases pieces.len() - i,
    {
        proof {
            reveal_with_fuel(Seq::<_>::filter, 1);
            assert(all.take(i + 1).drop_last() =~= all.take(i as int));
        }
        if pieces[i].len() > 0 {
            let p = pieces[i].clone();
            proof {
                lemma_views_push(out@, p);
            }
            out.push(p);
        }
        i = i + 1;
    }
    assert(all.take(pieces@.len() as int) =~= all);
    out
}

fn is_word(v: &Vec<char>, w: &str) -> (r: bool)
    ensures
        r == (v@ == w@),
{
    let wc = chars_of(w);
    chars_eq(v, &wc)
}

/// Parse the path portion of a GitHub URL (already stripped of the host), e.g.
/// `owner/repo/pull/123` or `owner/repo#123`.
fn parse_url_path(path0: &Vec<char>) -> (r: Result<PrRef, PrError>)
    ensures
        match r {
            Ok(p) => url_path(path0@) == Some((p@.owner->0, p@.repo->0, p@.number)) && p@
                == full_ref(url_path(path0@)->0),
            Err(e) => url_path(path0@) is None && e@ == PrErrorView::NoReference(
                trim_set(path0@, CharSet::Only('/')),
            ),
        },
{
    let path = trim_of(path0, CharSet::Only('/'));
    // owner/repo#123
    let hash = hash_form_of(&path);
    if let Some(r) = hash {
        return Ok(r);
    }
    let pieces = split_of(&path, CharSet::Only('/'));
    let segments = nonempty_pieces(&pieces);
    // owner/repo/(pull|pulls|pr)/123[/...]
    if segments.len() >= 4 && (is_word(&segments[2], "pull") || is_word(&segments[2], "pulls")
        || is_word(&segments[2], "pr")) {
        if let Some(n) = parse_number_token(&segments[3]) {
            return Ok(PrRef::full(&segments[0], &segments[1], n));
        }
    }
    // owner/repo/123
    if segments.len() == 3 {
        if let Some(n) = parse_number_token(&segments[2]) {
            return Ok(PrRef::full(&segments[0], &segments[1], n));
        }
    }
    Err(PrError::NoReference(string_of(&path)))
}

/// The `owner/repo#N` reading of `path`.
fn hash_form_of(path: &Vec<char>) -> (r: Option<PrRef>)
    ensures
        match r {
            Some(p) => hash_form(path@) is Some && p@ == full_ref(hash_form(path@)->0),
            None => hash_form(path@) is None,
        },
{
    let mut i: usize = 0;
    while i < path.len() && path[i] != '#'
        invariant
            i <= path.len(),
            forall|j: int| 0 <= j < i ==> !in_set(CharSet::Only('#'), #[trigger] path@[j]),
        decreases path.len() - i,
    {
        i = i + 1;
    }
    proof {
        lemma_first_in_at(path@, CharSet::Only('#'), i as int);
    }
    if i == path.len() {
        return None;
    }
    let repo_part = subvec(path, 0, i);
    let num_part = subvec(path, i + 1, path.len());
    proof {
        assert(repo_part@ =~= path@.take(i as int));
        assert(num_part@ =~= path@.skip(i + 1));
    }
    let it = split_of(&repo_part, CharSet::Only('/'));
    if it[0].len() > 0 && it.len() > 1 && it[1].len() > 0 {
        if let Some(n) = parse_number_token(&num_part) {
            return Some(PrRef::full(&it[0], &it[1], n));
        }
    }
    None
}

/// Parse a PR reference from arbitrary user input.
pub fn parse(input: &str) -> (r: Result<PrRef, PrError>)
    ensures
        match r {
            Ok(p) => parse_spec(input@) == Ok::<PrRefView, PrErrorView>(p@),
            Err(e) => parse_spec(input@) == Err::<PrRefView, PrErrorView>(e@),
        },
{
    let raw = chars_of(input);
    let s = trim_of(&raw, CharSet::Whitespace);
    if s.len() == 0 {
        return Err(PrError::Empty);
    }
    // Full GitHub URL.

    let rest = match strip_prefix_of(&s, "https://github.com/") {
        Some(r) => Some(r),
        None => match strip_prefix_of(&s, "http://github.com/") {
            Some(r) => Some(r),
            None => strip_prefix_of(&s, "github.com/"),
        },
    };
    if let Some(rest) = rest {
        return parse_url_path(&rest);
    }
    // owner/repo#123  or  owner/repo/pull/123  or  owner/repo/123

    let mut i: usize = 0;
    while i < s.len() && s[i] != '/'
        invariant
            i <= s.len(),
            forall|j: int| 0 <= j < i ==> !in_set(CharSet::Only('/'), #[trigger] s@[j]),
        decreases s.len() - i,
    {
        i = i + 1;
    }
    proof {
        lemma_first_in_at(s@, CharSet::Only('/'), i as int);
    }
    if i < s.len() {
        if let Ok(r) = parse_url_path(&s) {
            return Ok(r);
        }
    }
    // Bare forms: strip a leading '#', 'PR', 'pr/', 'pull/'.

    match parse_number_token(&s) {
        Some(n) => Ok(PrRef::number_only(n)),
        None => Err(PrError::NoNumber(input.to_owned())),
    }
}

/// Parse `owner` and `repo` from a GitHub remote URL. Handles both SSH
/// (`git@github.com:owner/repo.git`) and HTTPS
/// (`https://github.com/owner/repo.git`) forms.
pub fn parse_github_remote(url: &str) -> (r: Option<(String, String)>)
    ensures
        match r {
            Some((o, p)) => github_remote(url@) == Some((o@, p@)),
            None => github_remote(url@) is None,
        },
{
    let raw = chars_of(url);
    let u = trim_of(&raw, CharSet::Whitespace);
    let tail = remote_tail_of(&u);
    let tail = match tail {
        Some(t) => t,
        None => return None,
    };
    let tail = trim_end_of(&tail, CharSet::Only('/'));
    let tail = match strip_suffix_of(&tail, ".git") {
        Some(t) => t,
        None => tail,
    };
    let it = split_of(&tail, CharSet::Only('/'));
    if it[0].len() > 0 && it.len() > 1 && it[1].len() > 0 {
        Some((string_of(&it[0]), string_of(&it[1])))
    } else {
        None
    }
}

fn remote_tail_of(u: &Vec<char>) -> (r: Option<Vec<char>>)
    ensures
        match r {
            Some(t) => remote_tail(u@) == Some(t@),
            None => remote_tail(u@) is None,
        },
{
    if let Some(rest) = strip_prefix_of(u, "git@github.com:") {
        return Some(rest);
    }
    if let Some(rest) = strip_prefix_of(u, "ssh://git@github.com/") {
        return Some(rest);
    }
    if let Some(rest) = strip_prefix_of(u, "https://github.com/") {
        return Some(rest);
    }
    if let Some(rest) = strip_prefix_of(u, "http://github.com/") {
        return Some(rest);
    }
    // Any other URL that mentions github.com/…
    let host = chars_of("github.com/");
    match find_of(u, &host) {
        Some(idx) => {
            proof {
                lemma_find_from_bounds(u@, host@, 0);
                assert(occurs_at(u@, host@, idx as int));
                assert(idx + host@.len() <= u@.len());
            }
            assert(idx + host.len() <= u.len());
            let t = subvec(u, idx + host.len(), u.len());
            assert(t@ =~= u@.skip(idx + host@.len()));
            Some(t)
        },
        None => None,
    }
}


// ---------------------------------------------------------------------------
// Laws
// ---------------------------------------------------------------------------
proof fn lemma_no_prefix(s: Seq<char>, p: Seq<char>)
    requires
        s.len() > 0,
        p.len() > 0,
        s[0] != p[0],
    ensures
        strip_prefix(s, p) is None,
{
    if p.len() <= s.len() {
        assert(s.take(p.len() as int)[0] != p[0]);
    }
}

proof fn lemma_digit_not_special(c: char)
    requires
        is_digit(c),
    ensures
        !is_ws(c),
        c != '#',
        c != '/',
        c != '+',
        c != 'p',
        c != 'h',
        c != 'g',
        lower_char(c) == c,
{
}

/// What `number_token` makes of a run of digits, with or without a `#`.
proof fn lemma_number_token_decimal(n: u64)
    ensures
        number_token(decimal(n as nat)) == Some(n),
        number_token(seq!['#'] + decimal(n as nat)) == Some(n),
{
    let d = decimal(n as nat);
    lemma_decimal(n as nat);
    lemma_digit_not_special(d[0]);
    lemma_digit_not_special(d.last());
    reveal_strlit("#");
    reveal_strlit("pull/");
    reveal_strlit("pulls/");
    reveal_strlit("pull-");
    reveal_strlit("pr/");
    reveal_strlit("pr-");
    reveal_strlit("pr");
    assert(trim_start_set(d, CharSet::Whitespace) == d);
    assert(trim_end_set(d, CharSet::Whitespace) == d);
    assert(trim(d) == d);
    lemma_no_prefix(d, "#"@);
    assert forall|i: int| 0 <= i < d.len() implies lower_char(#[trigger] d[i]) == d[i] by {
        lemma_digit_not_special(d[i]);
    }
    assert(lower(d) =~= d);
    lemma_no_prefix(d, "pull/"@);
    lemma_no_prefix(d, "pulls/"@);
    lemma_no_prefix(d, "pull-"@);
    lemma_no_prefix(d, "pr/"@);
    lemma_no_prefix(d, "pr-"@);
    lemma_no_prefix(d, "pr"@);
    assert(strip_pr_word(d) == d);
    assert(trim_start_set(d, CharSet::Only('#')) == d);
    assert(parse_uint(d, u64::MAX as nat) == Some(n as nat));
    assert(number_token(d) == Some(n));

    let h = seq!['#'] + d;
    assert(h[0] == '#');
    assert(h.last() == d.last());
    assert(trim_start_set(h, CharSet::Whitespace) == h);
    assert(trim_end_set(h, CharSet::Whitespace) == h);
    assert(h.take(1) =~= "#"@);
    assert(h.skip(1) =~= d);
    assert(strip_prefix(h, "#"@) == Some(d));
}

/// A bare number, or one written as `#N`, parses to that number alone, with
/// owner and repository left to the surrounding repository.
pub proof fn law_parse_bare_number(n: u64)
    ensures
        parse_spec(decimal(n as nat)) == Ok::<PrRefView, PrErrorView>(number_only(n)),
        parse_spec(seq!['#'] + decimal(n as nat)) == Ok::<PrRefView, PrErrorView>(number_only(n)),
{
    let d = decimal(n as nat);
    let h = seq!['#'] + d;
    lemma_decimal(n as nat);
    lemma_number_token_decimal(n);
    lemma_digit_not_special(d[0]);
    lemma_digit_not_special(d.last());
    reveal_strlit("https://github.com/");
    reveal_strlit("http://github.com/");
    reveal_strlit("github.com/");
    assert(h[0] == '#');
    assert(h.last() == d.last());
    assert(trim(d) == d);
    assert(trim_start_set(h, CharSet::Whitespace) == h);
    assert(trim_end_set(h, CharSet::Whitespace) == h);
    assert(trim(h) == h);
    lemma_no_prefix(d, "https://github.com/"@);
    lemma_no_prefix(d, "http://github.com/"@);
    lemma_no_prefix(d, "github.com/"@);
    lemma_no_prefix(h, "https://github.com/"@);
    lemma_no_prefix(h, "http://github.com/"@);
    lemma_no_prefix(h, "github.com/"@);
    assert forall|j: int| 0 <= j < d.len() implies !in_set(CharSet::Only('/'), #[trigger] d[j]) by {
        lemma_digit_not_special(d[j]);
    }
    lemma_first_in_at(d, CharSet::Only('/'), d.len() as int);
    assert forall|j: int| 0 <= j < h.len() implies !in_set(CharSet::Only('/'), #[trigger] h[j]) by {
        if j > 0 {
            assert(h[j] == d[j - 1]);
            lemma_digit_not_special(d[j - 1]);
        }
    }
    lemma_first_in_at(h, CharSet::Only('/'), h.len() as int);
}

/// A string whose only `/` follows a prefix other than `github.com` is not a
/// GitHub URL.
proof fn lemma_not_github_url(s: Seq<char>, a: int)
    requires
        0 < a < s.len(),
        s[a] == '/',
        s.take(a) != "github.com"@,
        forall|j: int| 0 <= j < s.len() && j != a ==> #[trigger] s[j] != '/',
    ensures
        github_url_rest(s) is None,
{
    reveal_strlit("https://github.com/");
    reveal_strlit("http://github.com/");
    reveal_strlit("github.com/");
    reveal_strlit("github.com");
    if has_prefix(s, "https://github.com/"@) {
        assert(s[6] == s.take(19)[6]);
        assert(s[7] == s.take(19)[7]);
    }
    if has_prefix(s, "http://github.com/"@) {
        assert(s[5] == s.take(18)[5]);
        assert(s[6] == s.take(18)[6]);
    }
    if has_prefix(s, "github.com/"@) {
        assert(s[10] == s.take(11)[10]);
        assert(a == 10);
        assert(s.take(10) =~= "github.com"@) by {
            assert forall|j: int| 0 <= j < 10 implies s.take(10)[j] == "github.com"@[j] by {
                assert(s.take(10)[j] == s.take(11)[j]);
            }
        }
    }
}

/// How `owner/repo` splits at `/` when neither part holds one.
proof fn lemma_split_owner_repo(owner: Seq<char>, repo: Seq<char>)
    requires
        forall|j: int| 0 <= j < owner.len() ==> #[trigger] owner[j] != '/',
        forall|j: int| 0 <= j < repo.len() ==> #[trigger] repo[j] != '/',
    ensures
        slash_pieces(owner + seq!['/'] + repo) == seq![owner, repo],
{
    let or = owner + seq!['/'] + repo;
    let a = owner.len() as int;
    assert forall|j: int| 0 <= j < a implies !in_set(CharSet::Only('/'), #[trigger] or[j]) by {
        assert(or[j] == owner[j]);
    }
    assert(or[a] == '/');
    lemma_first_in_at(or, CharSet::Only('/'), a);
    assert(or.take(a) =~= owner);
    assert(or.skip(a + 1) =~= repo);
    assert forall|j: int| 0 <= j < repo.len() implies !in_set(CharSet::Only('/'), #[trigger] repo[j]) by {}
    lemma_first_in_at(repo, CharSet::Only('/'), repo.len() as int);
    assert(split_set(repo, CharSet::Only('/')) == seq![repo]);
    assert(slash_pieces(or) =~= seq![owner, repo]);
}

/// `owner/repo#N` names that repository and number, for any owner and
/// repository free of `/` and `#` whose owner does not begin with whitespace
/// and is not `github.com` (which makes the input a URL without a path).
pub proof fn law_parse_owner_repo_number(owner: Seq<char>, repo: Seq<char>, n: u64)
    requires
        owner.len() > 0,
        repo.len() > 0,
        !is_ws(owner[0]),
        owner != "github.com"@,
        forall|j: int| 0 <= j < owner.len() ==> #[trigger] owner[j] != '/' && owner[j] != '#',
        forall|j: int| 0 <= j < repo.len() ==> #[trigger] repo[j] != '/' && repo[j] != '#',
    ensures
        parse_spec(owner + seq!['/'] + repo + seq!['#'] + decimal(n as nat)) == Ok::<
            PrRefView,
            PrErrorView,
        >(full_ref((owner, repo, n))),
{
    let d = decimal(n as nat);
    let or = owner + seq!['/'] + repo;
    let s = or + seq!['#'] + d;
    let a = owner.len() as int;
    let i = or.len() as int;
    lemma_decimal(n as nat);
    lemma_number_token_decimal(n);
    lemma_digit_not_special(d.last());
    assert(s[0] == owner[0]);
    assert(s.last() == d.last());
    assert forall|j: int| 0 <= j < s.len() && j != a implies #[trigger] s[j] != '/' by {
        if j < a {
            assert(s[j] == owner[j]);
        } else if j < i {
            assert(s[j] == repo[j - a - 1]);
        } else if j > i {
            assert(s[j] == d[j - i - 1]);
            lemma_digit_not_special(d[j - i - 1]);
        }
    }
    assert(s[a] == '/');
    assert(s[i] == '#');
    assert(s.take(a) =~= owner);
    lemma_not_github_url(s, a);
    assert(trim_start_set(s, CharSet::Whitespace) == s);
    assert(trim_end_set(s, CharSet::Whitespace) == s);
    assert(trim(s) == s);
    assert(trim_start_set(s, CharSet::Only('/')) == s);
    assert(trim_end_set(s, CharSet::Only('/')) == s);
    assert forall|j: int| 0 <= j < a implies !in_set(CharSet::Only('/'), #[trigger] s[j]) by {}
    lemma_first_in_at(s, CharSet::Only('/'), a);
    assert forall|j: int| 0 <= j < i implies !in_set(CharSet::Only('#'), #[trigger] s[j]) by {
        if j < a {
            assert(s[j] == owner[j]);
        } else if j > a {
            assert(s[j] == repo[j - a - 1]);
        }
    }
    lemma_first_in_at(s, CharSet::Only('#'), i);
    assert(s.take(i) =~= or);
    assert(s.skip(i + 1) =~= d);
    lemma_split_owner_repo(owner, repo);
    assert(hash_form(s) == Some((owner, repo, n)));
    assert(url_path(s) == Some((owner, repo, n)));
}

/// Splitting at `/` after a first piece free of `/`.
proof fn lemma_slash_pieces_cons(x: Seq<char>, y: Seq<char>)
    requires
        forall|j: int| 0 <= j < x.len() ==> #[trigger] x[j] != '/',
    ensures
        slash_pieces(x + seq!['/'] + y) == seq![x] + slash_pieces(y),
{
    let s = x + seq!['/'] + y;
    let a = x.len() as int;
    assert forall|j: int| 0 <= j < a implies !in_set(CharSet::Only('/'), #[trigger] s[j]) by {
        assert(s[j] == x[j]);
    }
    assert(s[a] == '/');
    lemma_first_in_at(s, CharSet::Only('/'), a);
    assert(s.take(a) =~= x);
    assert(s.skip(a + 1) =~= y);
}

/// A string free of `/` is one piece.
proof fn lemma_slash_pieces_one(x: Seq<char>)
    requires
        forall|j: int| 0 <= j < x.len() ==> #[trigger] x[j] != '/',
    ensures
        slash_pieces(x) == seq![x],
{
    assert forall|j: int| 0 <= j < x.len() implies !in_set(CharSet::Only('/'), #[trigger] x[j]) by {}
    lemma_first_in_at(x, CharSet::Only('/'), x.len() as int);
}

/// The non-empty pieces of `owner/repo/pull/N`.
proof fn lemma_pull_path_pieces(owner: Seq<char>, repo: Seq<char>, d: Seq<char>)
    requires
        owner.len() > 0,
        repo.len() > 0,
        d.len() > 0,
        forall|j: int| 0 <= j < owner.len() ==> #[trigger] owner[j] != '/',
        forall|j: int| 0 <= j < repo.len() ==> #[trigger] repo[j] != '/',
        forall|j: int| 0 <= j < d.len() ==> #[trigger] d[j] != '/',
    ensures
        slash_pieces(owner + seq!['/'] + repo + "/pull/"@ + d).filter(|p: Seq<char>| nonempty(p))
            == seq![owner, repo, "pull"@, d],
{
    reveal_strlit("/pull/");
    reveal_strlit("pull");
    let pull = "pull"@;
    let path = owner + seq!['/'] + repo + "/pull/"@ + d;
    lemma_slash_pieces_one(d);
    lemma_slash_pieces_cons(pull, d);
    lemma_slash_pieces_cons(repo, pull + seq!['/'] + d);
    lemma_slash_pieces_cons(owner, repo + seq!['/'] + (pull + seq!['/'] + d));
    assert(path =~= owner + seq!['/'] + (repo + seq!['/'] + (pull + seq!['/'] + d)));
    let pieces = slash_pieces(path);
    assert(pieces =~= seq![owner, repo, pull, d]);
    let keep = |p: Seq<char>| nonempty(p);
    let e = Seq::<Seq<char>>::empty();
    assert(e.filter(keep) =~= e) by {
        reveal(Seq::filter);
    }
    e.lemma_filter_push(owner, keep);
    assert(e.push(owner) =~= seq![owner]);
    seq![owner].lemma_filter_push(repo, keep);
    assert(seq![owner].push(repo) =~= seq![owner, repo]);
    seq![owner, repo].lemma_filter_push(pull, keep);
    assert(seq![owner, repo].push(pull) =~= seq![owner, repo, pull]);
    seq![owner, repo, pull].lemma_filter_push(d, keep);
    assert(seq![owner, repo, pull].push(d) =~= pieces);
}

/// The path `owner/repo/pull/N` of a pull-request URL reads as that
/// repository and number.
proof fn lemma_pull_path(owner: Seq<char>, repo: Seq<char>, n: u64)
    requires
        owner.len() > 0,
        repo.len() > 0,
        forall|j: int| 0 <= j < owner.len() ==> #[trigger] owner[j] != '/' && owner[j] != '#',
        forall|j: int| 0 <= j < repo.len() ==> #[trigger] repo[j] != '/' && repo[j] != '#',
    ensures
        url_path(owner + seq!['/'] + repo + "/pull/"@ + decimal(n as nat)) == Some((owner, repo, n)),
{
    reveal_strlit("/pull/");
    reveal_strlit("pull");
    let d = decimal(n as nat);
    lemma_decimal(n as nat);
    lemma_number_token_decimal(n);
    lemma_digit_not_special(d.last());
    let path = owner + seq!['/'] + repo + "/pull/"@ + d;
    assert(path[0] == owner[0]);
    assert(path.last() == d.last());
    assert(trim_start_set(path, CharSet::Only('/')) == path);
    assert(trim_end_set(path, CharSet::Only('/')) == path);
    assert(trim_set(path, CharSet::Only('/')) == path);
    let a = owner.len() as int;
    let b = a + 1 + repo.len();
    assert forall|j: int| 0 <= j < path.len() implies !in_set(CharSet::Only('#'), #[trigger] path[j]) by {
        if j < a {
            assert(path[j] == owner[j]);
        } else if a < j < b {
            assert(path[j] == repo[j - a - 1]);
        } else if b + 6 <= j {
            assert(path[j] == d[j - b - 6]);
            lemma_digit_not_special(d[j - b - 6]);
        }
    }
    lemma_first_in_at(path, CharSet::Only('#'), path.len() as int);
    assert(hash_form(path) is None);
    assert forall|j: int| 0 <= j < d.len() implies #[trigger] d[j] != '/' by {
        lemma_digit_not_special(d[j]);
    }
    lemma_pull_path_pieces(owner, repo, d);
}

/// A pull-request URL, `https://github.com/{owner}/{repo}/pull/{n}`, names
/// that repository and number, for any non-empty owner and repository free
/// of `/` and `#`.
pub proof fn law_parse_pull_url(owner: Seq<char>, repo: Seq<char>, n: u64)
    requires
        owner.len() > 0,
        repo.len() > 0,
        forall|j: int| 0 <= j < owner.len() ==> #[trigger] owner[j] != '/' && owner[j] != '#',
        forall|j: int| 0 <= j < repo.len() ==> #[trigger] repo[j] != '/' && repo[j] != '#',
    ensures
        parse_spec("https://github.com/"@ + owner + seq!['/'] + repo + "/pull/"@ + decimal(n as nat))
            == Ok::<PrRefView, PrErrorView>(full_ref((owner, repo, n))),
{
    reveal_strlit("https://github.com/");
    let d = decimal(n as nat);
    lemma_decimal(n as nat);
    lemma_digit_not_special(d.last());
    let path = owner + seq!['/'] + repo + "/pull/"@ + d;
    let s = "https://github.com/"@ + path;
    assert(s =~= "https://github.com/"@ + owner + seq!['/'] + repo + "/pull/"@ + d);
    assert(s[0] == 'h');
    assert(s.last() == d.last());
    assert(trim_start_set(s, CharSet::Whitespace) == s);
    assert(trim_end_set(s, CharSet::Whitespace) == s);
    assert(trim(s) == s);
    lemma_strip_own_prefix("https://github.com/"@, path);
    assert(github_url_rest(s) == Some(path));
    lemma_pull_path(owner, repo, n);
}

/// The spellings of "pull request" that may stand before `#N` in a typed
/// reference.
pub open spec fn pr_word(w: Seq<char>) -> bool {
    ||| w == "PR"@
    ||| w == "pr"@
    ||| w == "PR "@
    ||| w == "pull/"@
    ||| w == "pr/"@
}

/// After the word is stripped, what is left of `#N` (possibly after a space)
/// trims down to the digits.
proof fn lemma_hash_digits(r: Seq<char>, d: Seq<char>)
    requires
        d.len() > 0,
        forall|j: int| 0 <= j < d.len() ==> is_digit(#[trigger] d[j]),
        r == seq!['#'] + d || r == seq![' ', '#'] + d,
    ensures
        trim_start_set(trim(r), CharSet::Only('#')) == d,
{
    let h = seq!['#'] + d;
    lemma_digit_not_special(d[0]);
    lemma_digit_not_special(d.last());
    assert(h.last() == d.last());
    if r == seq![' ', '#'] + d {
        assert(r[1] == '#');
        lemma_trim_start_at(r, CharSet::Whitespace, 1);
        assert(r.skip(1) =~= h);
    } else {
        assert(trim_start_set(r, CharSet::Whitespace) == r);
    }
    assert(trim_end_set(h, CharSet::Whitespace) == h);
    assert(trim(r) == h);
    assert(h[1] == d[0]);
    lemma_trim_start_at(h, CharSet::Only('#'), 1);
    assert(h.skip(1) =~= d);
}

/// What `number_token` makes of a "pull request" word, `#` and digits.
proof fn lemma_number_token_word(w: Seq<char>, n: u64)
    requires
        pr_word(w),
    ensures
        number_token(w + seq!['#'] + decimal(n as nat)) == Some(n),
{
    reveal_strlit("PR");
    reveal_strlit("pr");
    reveal_strlit("PR ");
    reveal_strlit("pull/");
    reveal_strlit("pr/");
    reveal_strlit("#");
    reveal_strlit("pulls/");
    reveal_strlit("pull-");
    reveal_strlit("pr-");
    let d = decimal(n as nat);
    lemma_decimal(n as nat);
    assert forall|j: int| 0 <= j < d.len() implies is_digit(#[trigger] d[j]) by {}
    lemma_digit_not_special(d.last());
    let tok = w + seq!['#'] + d;
    assert(tok[0] == w[0]);
    assert(tok.last() == d.last());
    assert(trim_start_set(tok, CharSet::Whitespace) == tok);
    assert(trim_end_set(tok, CharSet::Whitespace) == tok);
    assert(trim(tok) == tok);
    lemma_no_prefix(tok, "#"@);
    // lowercasing touches only the word
    let lw0: Seq<char> = if w == "PR"@ || w == "pr"@ {
        "pr"@
    } else if w == "PR "@ {
        "pr "@
    } else {
        w
    };
    reveal_strlit("pr ");
    assert(lower_char('P') == 'p') by {
        assert(('P' as u32) + 32 == 0x70);
    }
    assert(lower_char('R') == 'r') by {
        assert(('R' as u32) + 32 == 0x72);
    }
    assert(lower(w) =~= lw0);
    let lw = lw0 + seq!['#'] + d;
    assert forall|j: int| 0 <= j < tok.len() implies #[trigger] lower(tok)[j] == lw[j] by {
        if j < w.len() {
            assert(lower(tok)[j] == lower_char(w[j]));
            assert(lower(w)[j] == lower_char(w[j]));
        } else if j > w.len() {
            assert(tok[j] == d[j - w.len() - 1]);
            lemma_digit_not_special(d[j - w.len() - 1]);
        }
    }
    assert(lower(tok) =~= lw);
    let r = if lw0 == "pr "@ {
        seq![' ', '#'] + d
    } else {
        seq!['#'] + d
    };
    if lw0 == "pull/"@ {
        assert(lw.take(5) =~= "pull/"@);
        assert(lw.skip(5) =~= r);
    } else {
        lemma_no_prefix_at(lw, "pull/"@, 1);
        lemma_no_prefix_at(lw, "pulls/"@, 1);
        lemma_no_prefix_at(lw, "pull-"@, 1);
        if lw0 == "pr/"@ {
            assert(lw0 != "pr "@) by {
                assert(lw0[2] != "pr "@[2]);
            }
            assert(lw.take(3) =~= "pr/"@);
            assert(lw.skip(3) =~= r);
        } else {
            lemma_no_prefix_at(lw, "pr/"@, 2);
            lemma_no_prefix_at(lw, "pr-"@, 2);
            assert(lw.take(2) =~= "pr"@);
            assert(lw.skip(2) =~= r);
        }
    }
    assert(strip_pr_word(lw) == r);
    lemma_hash_digits(r, d);
    assert(parse_uint(d, u64::MAX as nat) == Some(n as nat));
}

/// The pieces at `/` of `pull/#N` and `pr/#N`, before and after the `#`.
proof fn lemma_word_slash_pieces(x: Seq<char>, h: Seq<char>)
    requires
        x == "pull"@ || x == "pr"@,
        h.len() > 0,
        forall|j: int| 0 <= j < h.len() ==> #[trigger] h[j] != '/',
    ensures
        slash_pieces(x + seq!['/'])[1] == Seq::<char>::empty(),
        slash_pieces(x + seq!['/'] + h).filter(|p: Seq<char>| nonempty(p)).len() == 2,
{
    reveal_strlit("pull");
    reveal_strlit("pr");
    let e = Seq::<char>::empty();
    assert(x + seq!['/'] =~= x + seq!['/'] + e);
    assert forall|j: int| 0 <= j < x.len() implies #[trigger] x[j] != '/' by {}
    lemma_slash_pieces_cons(x, e);
    lemma_slash_pieces_one(e);
    lemma_slash_pieces_one(h);
    lemma_slash_pieces_cons(x, h);
    let pieces = slash_pieces(x + seq!['/'] + h);
    assert(pieces =~= seq![x, h]);
    let keep = |p: Seq<char>| nonempty(p);
    let z = Seq::<Seq<char>>::empty();
    assert(z.filter(keep) =~= z) by {
        reveal(Seq::filter);
    }
    z.lemma_filter_push(x, keep);
    assert(z.push(x) =~= seq![x]);
    seq![x].lemma_filter_push(h, keep);
    assert(seq![x].push(h) =~= pieces);
}

/// `pull/#N` and `pr/#N` are no `owner/repo` path.
proof fn lemma_word_slash_not_path(x: Seq<char>, d: Seq<char>)
    requires
        x == "pull"@ || x == "pr"@,
        d.len() > 0,
        forall|j: int| 0 <= j < d.len() ==> is_digit(#[trigger] d[j]),
    ensures
        url_path(x + seq!['/'] + (seq!['#'] + d)) is None,
{
    reveal_strlit("pull");
    reveal_strlit("pr");
    let h = seq!['#'] + d;
    let s = x + seq!['/'] + h;
    lemma_digit_not_special(d.last());
    assert(s[0] == 'p');
    assert(s.last() == d.last());
    assert(trim_start_set(s, CharSet::Only('/')) == s);
    assert(trim_end_set(s, CharSet::Only('/')) == s);
    assert(trim_set(s, CharSet::Only('/')) == s);
    let i: int = x.len() as int + 1;
    assert forall|j: int| 0 <= j < i implies !in_set(CharSet::Only('#'), #[trigger] s[j]) by {}
    assert(s[i] == '#');
    lemma_first_in_at(s, CharSet::Only('#'), i);
    assert(s.take(i) =~= x + seq!['/']);
    assert forall|j: int| 0 <= j < h.len() implies #[trigger] h[j] != '/' by {
        if j > 0 {
            assert(h[j] == d[j - 1]);
            lemma_digit_not_special(d[j - 1]);
        }
    }
    lemma_word_slash_pieces(x, h);
    assert(hash_form(s) is None);
}

/// A "pull request" word followed by `#N` — `PR#N`, `pr#N`, `PR #N`,
/// `pull/#N`, `pr/#N` — names the number `N` alone, for every `u64` `N`.
pub proof fn law_parse_pr_word_hash(w: Seq<char>, n: u64)
    requires
        pr_word(w),
    ensures
        parse_spec(w + seq!['#'] + decimal(n as nat)) == Ok::<PrRefView, PrErrorView>(number_only(n)),
{
    reveal_strlit("PR");
    reveal_strlit("pr");
    reveal_strlit("PR ");
    reveal_strlit("pull/");
    reveal_strlit("pr/");
    reveal_strlit("pull");
    reveal_strlit("https://github.com/");
    reveal_strlit("http://github.com/");
    reveal_strlit("github.com/");
    let d = decimal(n as nat);
    lemma_decimal(n as nat);
    assert forall|j: int| 0 <= j < d.len() implies is_digit(#[trigger] d[j]) by {}
    lemma_digit_not_special(d.last());
    let s = w + seq!['#'] + d;
    assert(s[0] == w[0]);
    assert(s.last() == d.last());
    assert(trim_start_set(s, CharSet::Whitespace) == s);
    assert(trim_end_set(s, CharSet::Whitespace) == s);
    assert(trim(s) == s);
    lemma_no_prefix(s, "https://github.com/"@);
    lemma_no_prefix(s, "http://github.com/"@);
    lemma_no_prefix(s, "github.com/"@);
    if w == "pull/"@ || w == "pr/"@ {
        let x: Seq<char> = if w == "pull/"@ {
            "pull"@
        } else {
            "pr"@
        };
        assert(s =~= x + seq!['/'] + (seq!['#'] + d));
        lemma_word_slash_not_path(x, d);
    } else {
        assert forall|j: int| 0 <= j < s.len() implies !in_set(CharSet::Only('/'), #[trigger] s[j]) by {
            if j > w.len() {
                assert(s[j] == d[j - w.len() - 1]);
                lemma_digit_not_special(d[j - w.len() - 1]);
            }
        }
        lemma_first_in_at(s, CharSet::Only('/'), s.len() as int);
    }
    lemma_number_token_word(w, n);
}

/// `p + rest` starts with `p`, and stripping it gives `rest`.
proof fn lemma_strip_own_prefix(p: Seq<char>, rest: Seq<char>)
    ensures
        strip_prefix(p + rest, p) == Some(rest),
{
    assert((p + rest).take(p.len() as int) =~= p);
    assert((p + rest).skip(p.len() as int) =~= rest);
}

/// `rest + p` ends with `p`, and stripping it gives `rest`.
proof fn lemma_strip_own_suffix(rest: Seq<char>, p: Seq<char>)
    ensures
        strip_suffix(rest + p, p) == Some(rest),
{
    assert((rest + p).skip(rest.len() as int) =~= p);
    assert((rest + p).take(rest.len() as int) =~= rest);
}

/// `s` does not start with `p` when they differ at an index both have.
proof fn lemma_no_prefix_at(s: Seq<char>, p: Seq<char>, j: int)
    requires
        0 <= j < s.len(),
        j < p.len(),
        s[j] != p[j],
    ensures
        strip_prefix(s, p) is None,
{
    if p.len() <= s.len() {
        assert(s.take(p.len() as int)[j] != p[j]);
    }
}

/// The remote-URL prefixes that name github.com before `owner/repo`.
pub open spec fn remote_prefix(p: Seq<char>) -> bool {
    ||| p == "git@github.com:"@
    ||| p == "ssh://git@github.com/"@
    ||| p == "https://github.com/"@
    ||| p == "http://github.com/"@
}

/// The endings a remote URL may have after the repository.
pub open spec fn remote_suffix(x: Seq<char>) -> bool {
    ||| x == Seq::<char>::empty()
    ||| x == ".git"@
    ||| x == "/"@
}

/// Each recognised prefix is stripped by its own case of `remote_tail`.
proof fn lemma_remote_tail_of(p: Seq<char>, t: Seq<char>)
    requires
        remote_prefix(p),
    ensures
        remote_tail(p + t) == Some(t),
{
    reveal_strlit("git@github.com:");
    reveal_strlit("ssh://git@github.com/");
    reveal_strlit("https://github.com/");
    reveal_strlit("http://github.com/");
    let u = p + t;
    lemma_strip_own_prefix(p, t);
    if p == "ssh://git@github.com/"@ {
        assert(u[0] == 's');
        lemma_no_prefix_at(u, "git@github.com:"@, 0);
    } else if p == "https://github.com/"@ {
        assert(u[0] == 'h');
        lemma_no_prefix_at(u, "git@github.com:"@, 0);
        lemma_no_prefix_at(u, "ssh://git@github.com/"@, 0);
    } else if p == "http://github.com/"@ {
        assert(u[0] == 'h' && u[4] == ':');
        lemma_no_prefix_at(u, "git@github.com:"@, 0);
        lemma_no_prefix_at(u, "ssh://git@github.com/"@, 0);
        lemma_no_prefix_at(u, "https://github.com/"@, 4);
    }
}

/// `owner/repo` does not end in `.git` when the repository does not.
proof fn lemma_no_git_suffix(owner: Seq<char>, repo: Seq<char>)
    requires
        repo.len() > 0,
        forall|j: int| 0 <= j < repo.len() ==> #[trigger] repo[j] != '/',
        !has_suffix(repo, ".git"@),
    ensures
        strip_suffix(owner + seq!['/'] + repo, ".git"@) is None,
{
    reveal_strlit(".git");
    let t = owner + seq!['/'] + repo;
    if has_suffix(t, ".git"@) {
        let k = t.len() - 4;
        if repo.len() >= 4 {
            assert(repo.skip(repo.len() - 4) =~= t.skip(k));
        } else {
            let a = owner.len() as int;
            assert(t[a] == '/');
            assert(t.skip(k)[a - k] == t[a]);
            assert(".git"@[a - k] != '/');
        }
    }
}

/// What follows the host in the usual remote URLs reads as the owner and
/// repository.
proof fn lemma_tail_reads(owner: Seq<char>, repo: Seq<char>, x: Seq<char>)
    requires
        owner.len() > 0,
        repo.len() > 0,
        forall|j: int| 0 <= j < owner.len() ==> #[trigger] owner[j] != '/',
        forall|j: int| 0 <= j < repo.len() ==> #[trigger] repo[j] != '/',
        !has_suffix(repo, ".git"@),
        remote_suffix(x),
    ensures
        tail_owner_repo(owner + seq!['/'] + repo + x) == Some((owner, repo)),
{
    reveal_strlit(".git");
    reveal_strlit("/");
    let or = owner + seq!['/'] + repo;
    let tail = or + x;
    lemma_split_owner_repo(owner, repo);
    assert(or.last() == repo.last());
    assert(trim_end_set(or, CharSet::Only('/')) == or);
    if x == ".git"@ {
        assert(tail.last() == 't');
        assert(trim_end_set(tail, CharSet::Only('/')) == tail);
        lemma_strip_own_suffix(or, ".git"@);
    } else {
        if x == "/"@ {
            assert(tail.drop_last() =~= or);
            assert(trim_end_set(tail, CharSet::Only('/')) == trim_end_set(or, CharSet::Only('/')));
        } else {
            assert(tail =~= or);
        }
        lemma_no_git_suffix(owner, repo);
    }
}

/// A remote URL of none of the four usual forms is read after the first
/// `github.com/` in it, wherever that stands: what follows it names the
/// owner and repository (see [`tail_owner_repo`]).
pub proof fn law_github_remote_after_host(url: Seq<char>, i: int)
    requires
        forall|p: Seq<char>| #[trigger] remote_prefix(p) ==> !has_prefix(trim(url), p),
        occurs_at(trim(url), "github.com/"@, i),
        forall|j: int| 0 <= j < i ==> !occurs_at(trim(url), "github.com/"@, j),
    ensures
        github_remote(url) == tail_owner_repo(trim(url).skip(i + 11)),
{
    reveal_strlit("git@github.com:");
    reveal_strlit("ssh://git@github.com/");
    reveal_strlit("https://github.com/");
    reveal_strlit("http://github.com/");
    reveal_strlit("github.com/");
    let u = trim(url);
    assert(remote_prefix("git@github.com:"@));
    assert(remote_prefix("ssh://git@github.com/"@));
    assert(remote_prefix("https://github.com/"@));
    assert(remote_prefix("http://github.com/"@));
    lemma_find_from_bounds(u, "github.com/"@, 0);
    let f = find_sub(u, "github.com/"@);
    if f != i {
        if f == -1 {
            assert(!occurs_at(u, "github.com/"@, i));
        } else if f < i {
            assert(!occurs_at(u, "github.com/"@, f));
        } else {
            assert(!occurs_at(u, "github.com/"@, i));
        }
    }
    assert(remote_tail(u) == Some(u.skip(i + 11)));
}

/// Any other way of writing a GitHub remote — another scheme, or a user
/// before the host, as in `https://user@github.com/owner/repo.git` or
/// `git://github.com/owner/repo` — reads back as its owner and repository:
/// `s` then `github.com/owner/repo` then nothing, `.git` or `/`, when `s`
/// holds no `github.com/` of its own and the URL is none of the four usual
/// forms; for any non-empty owner and repository without `/` or whitespace
/// whose repository does not itself end in `.git`.
pub proof fn law_github_remote_reads_after_any_prefix(
    s: Seq<char>,
    owner: Seq<char>,
    repo: Seq<char>,
    suffix: Seq<char>,
)
    requires
        remote_suffix(suffix),
        owner.len() > 0,
        repo.len() > 0,
        forall|j: int| 0 <= j < owner.len() ==> #[trigger] owner[j] != '/' && !is_ws(owner[j]),
        forall|j: int| 0 <= j < repo.len() ==> #[trigger] repo[j] != '/' && !is_ws(repo[j]),
        !has_suffix(repo, ".git"@),
        s.len() == 0 || !is_ws(s[0]),
        forall|j: int| 0 <= j < s.len() ==> !occurs_at(s + "github.com/"@, "github.com/"@, j),
        forall|p: Seq<char>|
            #[trigger] remote_prefix(p) ==> !has_prefix(
                s + "github.com/"@ + owner + seq!['/'] + repo + suffix,
                p,
            ),
    ensures
        github_remote(s + "github.com/"@ + owner + seq!['/'] + repo + suffix) == Some((owner, repo)),
{
    reveal_strlit("github.com/");
    reveal_strlit(".git");
    reveal_strlit("/");
    let host = "github.com/"@;
    let sh = s + host;
    let tail = owner + seq!['/'] + repo + suffix;
    let u = s + host + owner + seq!['/'] + repo + suffix;
    assert(u =~= sh + tail);
    assert(u[0] == sh[0]);
    assert(!is_ws(u[0]));
    if suffix.len() == 0 {
        assert(u.last() == repo.last());
    } else {
        assert(u.last() == suffix.last());
    }
    assert(!is_ws(u.last()));
    assert(trim_start_set(u, CharSet::Whitespace) == u);
    assert(trim_end_set(u, CharSet::Whitespace) == u);
    assert(trim(u) == u);
    let i = s.len() as int;
    assert(u.subrange(i, i + 11) =~= host);
    assert forall|j: int| 0 <= j < i implies !occurs_at(u, host, j) by {
        if occurs_at(u, host, j) {
            assert(u.subrange(j, j + 11) =~= sh.subrange(j, j + 11));
            assert(occurs_at(sh, host, j));
        }
    }
    law_github_remote_after_host(u, i);
    assert(u.skip(i + 11) =~= tail);
    lemma_tail_reads(owner, repo, suffix);
}

/// Every usual remote URL of a GitHub repository reads back as its owner and
/// repository: `git@github.com:`, `ssh://git@github.com/`, `https://github.com/`
/// or `http://github.com/`, then `owner/repo`, then nothing, `.git` or `/`;
/// for any non-empty owner and repository without `/` or whitespace whose
/// repository does not itself end in `.git`.
pub proof fn law_github_remote_reads_owner_repo(
    prefix: Seq<char>,
    owner: Seq<char>,
    repo: Seq<char>,
    suffix: Seq<char>,
)
    requires
        remote_prefix(prefix),
        remote_suffix(suffix),
        owner.len() > 0,
        repo.len() > 0,
        forall|j: int| 0 <= j < owner.len() ==> #[trigger] owner[j] != '/' && !is_ws(owner[j]),
        forall|j: int| 0 <= j < repo.len() ==> #[trigger] repo[j] != '/' && !is_ws(repo[j]),
        !has_suffix(repo, ".git"@),
    ensures
        github_remote(prefix + owner + seq!['/'] + repo + suffix) == Some((owner, repo)),
{
    reveal_strlit("git@github.com:");
    reveal_strlit("ssh://git@github.com/");
    reveal_strlit("https://github.com/");
    reveal_strlit("http://github.com/");
    reveal_strlit(".git");
    reveal_strlit("/");
    let tail = owner + seq!['/'] + repo + suffix;
    let u = prefix + owner + seq!['/'] + repo + suffix;
    assert(u =~= prefix + tail);
    assert(u[0] == prefix[0]);
    assert(!is_ws(u[0]));
    if suffix.len() == 0 {
        assert(u.last() == repo.last());
    } else {
        assert(u.last() == suffix.last());
    }
    assert(!is_ws(u.last()));
    assert(trim_start_set(u, CharSet::Whitespace) == u);
    assert(trim_end_set(u, CharSet::Whitespace) == u);
    assert(trim(u) == u);
    lemma_remote_tail_of(prefix, tail);
    lemma_tail_reads(owner, repo, suffix);
}

} // verus!
