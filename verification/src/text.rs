//! Character-level text utilities shared by the parsers and renderers.
//!
//! Text is handled as `Vec<char>` in executable code and as `Seq<char>` in
//! specifications. Each operation here mirrors the `str` method the parsers
//! rely on (`trim`, `strip_prefix`, `split`, `lines`, `replace`, integer
//! parsing, …) and is proved to compute its specification exactly.
use vstd::prelude::*;

verus! {

/// `String::push` appends one character to the end of the string.
pub assume_specification[ String::push ](s: &mut String, ch: char)
    ensures
        final(s)@ == old(s)@.push(ch),
;

// ---------------------------------------------------------------------------
// Conversions
// ---------------------------------------------------------------------------
/// The characters of a string slice, in order.
pub fn chars_of(s: &str) -> (out: Vec<char>)
    ensures
        out@ == s@,
{
    let mut out: Vec<char> = Vec::new();
    for c in it: s.chars()
        invariant
            out@ == it.seq().take(it.index() as int),
    {
        out.push(c);
    }
    out
}

/// A `String` holding exactly the given characters.
pub fn string_of(v: &Vec<char>) -> (out: String)
    ensures
        out@ == v@,
{
    let mut out = String::new();
    let mut i: usize = 0;
    while i < v.len()
        invariant
            i <= v.len(),
            out@ == v@.take(i as int),
        decreases v.len() - i,
    {
        out.push(v[i]);
        proof {
            assert(v@.take(i + 1) =~= v@.take(i as int).push(v@[i as int]));
        }
        i = i + 1;
    }
    proof {
        assert(v@.take(v@.len() as int) =~= v@);
    }
    out
}

/// The views of a sequence of strings.
pub open spec fn str_views(v: Seq<String>) -> Seq<Seq<char>> {
    v.map_values(|s: String| s@)
}

pub proof fn lemma_str_views_push(v: Seq<String>, s: String)
    ensures
        str_views(v.push(s)) == str_views(v).push(s@),
{
    assert(str_views(v.push(s)) =~= str_views(v).push(s@));
}

/// Append `s` to a list of strings.
pub fn push_string(v: &mut Vec<String>, s: String)
    ensures
        str_views(final(v)@) == str_views(old(v)@).push(s@),
{
    proof {
        lemma_str_views_push(v@, s);
    }
    v.push(s);
}

/// `a` followed by `b` followed by `c`.
pub fn concat3(a: &str, b: &str, c: &str) -> (out: String)
    ensures
        out@ == a@ + b@ + c@,
{
    let mut v = chars_of(a);
    push_str(&mut v, b);
    push_str(&mut v, c);
    string_of(&v)
}

/// Append the characters of `s` to `v`.
pub fn push_str(v: &mut Vec<char>, s: &str)
    ensures
        final(v)@ == old(v)@ + s@,
{
    let cs = chars_of(s);
    append_chars(v, &cs);
}

/// Append the characters of `w` to `v`.
pub fn append_chars(v: &mut Vec<char>, w: &Vec<char>)
    ensures
        final(v)@ == old(v)@ + w@,
{
    let ghost start = v@;
    let mut i: usize = 0;
    while i < w.len()
        invariant
            i <= w.len(),
            v@ == start + w@.take(i as int),
        decreases w.len() - i,
    {
        v.push(w[i]);
        proof {
            assert(w@.take(i + 1) =~= w@.take(i as int).push(w@[i as int]));
        }
        i = i + 1;
    }
    proof {
        assert(w@.take(w@.len() as int) =~= w@);
    }
}

/// The characters `v[lo..hi]`.
pub fn subvec(v: &Vec<char>, lo: usize, hi: usize) -> (out: Vec<char>)
    requires
        lo <= hi <= v.len(),
    ensures
        out@ == v@.subrange(lo as int, hi as int),
{
    let mut out: Vec<char> = Vec::new();
    let mut i: usize = lo;
    while i < hi
        invariant
            lo <= i <= hi,
            hi <= v.len(),
            out@ == v@.subrange(lo as int, i as int),
        decreases hi - i,
    {
        out.push(v[i]);
        proof {
            assert(v@.subrange(lo as int, i + 1) =~= v@.subrange(lo as int, i as int).push(
                v@[i as int],
            ));
        }
        i = i + 1;
    }
    out
}

/// Whether two character sequences are equal.
pub fn chars_eq(a: &Vec<char>, b: &Vec<char>) -> (r: bool)
    ensures
        r == (a@ == b@),
{
    if a.len() != b.len() {
        return false;
    }
    let mut i: usize = 0;
    while i < a.len()
        invariant
            a.len() == b.len(),
            i <= a.len(),
            forall|j: int| 0 <= j < i ==> a@[j] == b@[j],
        decreases a.len() - i,
    {
        if a[i] != b[i] {
            return false;
        }
        i = i + 1;
    }
    proof {
        assert(a@ =~= b@);
    }
    true
}

/// Whether two string slices are equal.
pub fn same_str(a: &str, b: &str) -> (r: bool)
    ensures
        r == (a@ == b@),
{
    chars_eq(&chars_of(a), &chars_of(b))
}

// ---------------------------------------------------------------------------
// Character classes
// ---------------------------------------------------------------------------
/// Unicode `White_Space`, the set `char::is_whitespace` tests.
pub open spec fn is_ws(c: char) -> bool {
    let u = c as u32;
    ||| 0x09 <= u <= 0x0D
    ||| u == 0x20
    ||| u == 0x85
    ||| u == 0xA0
    ||| u == 0x1680
    ||| 0x2000 <= u <= 0x200A
    ||| u == 0x2028
    ||| u == 0x2029
    ||| u == 0x202F
    ||| u == 0x205F
    ||| u == 0x3000
}

pub fn is_whitespace(c: char) -> (r: bool)
    ensures
        r == is_ws(c),
{
    let u = c as u32;
    (0x09 <= u && u <= 0x0D) || u == 0x20 || u == 0x85 || u == 0xA0 || u == 0x1680 || (0x2000
        <= u && u <= 0x200A) || u == 0x2028 || u == 0x2029 || u == 0x202F || u == 0x205F || u
        == 0x3000
}

pub open spec fn is_digit(c: char) -> bool {
    '0' <= c <= '9'
}

pub open spec fn is_alnum(c: char) -> bool {
    ||| '0' <= c <= '9'
    ||| 'a' <= c <= 'z'
    ||| 'A' <= c <= 'Z'
}

/// ASCII lowercase of one character (`char::to_ascii_lowercase`).
pub open spec fn lower_char(c: char) -> char {
    if 'A' <= c <= 'Z' {
        ((c as u32) + 32) as char
    } else {
        c
    }
}

pub fn to_lower_char(c: char) -> (r: char)
    ensures
        r == lower_char(c),
{
    if 'A' <= c && c <= 'Z' {
        let u = (c as u32) + 32;
        assert(0x61 <= u <= 0x7A);
        char_from_ascii(u)
    } else {
        c
    }
}

/// The character with an ASCII code point.
fn char_from_ascii(u: u32) -> (c: char)
    requires
        u < 128,
    ensures
        c == u as char,
        c as u32 == u,
{
    let b = u as u8;
    let c = b as char;
    assert(c as u32 == u);
    c
}

/// The sets of separator characters the tokenizers use.
#[derive(Clone, Copy, PartialEq, Eq, Debug, Structural)]
pub enum CharSet {
    /// `char::is_whitespace`.
    Whitespace,
    /// One specific character.
    Only(char),
    /// Whitespace, `"`, `'` and `,`.
    WhitespaceQuoteComma,
    /// Whitespace, `"`, `'`, `,` and `:`.
    WhitespaceQuoteCommaColon,
}

pub open spec fn in_set(k: CharSet, c: char) -> bool {
    match k {
        CharSet::Whitespace => is_ws(c),
        CharSet::Only(x) => c == x,
        CharSet::WhitespaceQuoteComma => is_ws(c) || c == '"' || c == '\'' || c == ',',
        CharSet::WhitespaceQuoteCommaColon => is_ws(c) || c == '"' || c == '\'' || c == ','
            || c == ':',
    }
}

pub fn is_in(k: CharSet, c: char) -> (r: bool)
    ensures
        r == in_set(k, c),
{
    match k {
        CharSet::Whitespace => is_whitespace(c),
        CharSet::Only(x) => c == x,
        CharSet::WhitespaceQuoteComma => is_whitespace(c) || c == '"' || c == '\'' || c == ',',
        CharSet::WhitespaceQuoteCommaColon => is_whitespace(c) || c == '"' || c == '\'' || c
            == ',' || c == ':',
    }
}

// ---------------------------------------------------------------------------
// Trimming
// ---------------------------------------------------------------------------
/// `s` without its leading characters from `k` (`trim_start_matches`).
pub open spec fn trim_start_set(s: Seq<char>, k: CharSet) -> Seq<char>
    decreases s.len(),
{
    if s.len() > 0 && in_set(k, s[0]) {
        trim_start_set(s.drop_first(), k)
    } else {
        s
    }
}

/// `s` without its trailing characters from `k` (`trim_end_matches`).
pub open spec fn trim_end_set(s: Seq<char>, k: CharSet) -> Seq<char>
    decreases s.len(),
{
    if s.len() > 0 && in_set(k, s.last()) {
        trim_end_set(s.drop_last(), k)
    } else {
        s
    }
}

/// `s` without leading and trailing characters from `k` (`trim_matches`).
pub open spec fn trim_set(s: Seq<char>, k: CharSet) -> Seq<char> {
    trim_end_set(trim_start_set(s, k), k)
}

/// `str::trim`.
pub open spec fn trim(s: Seq<char>) -> Seq<char> {
    trim_set(s, CharSet::Whitespace)
}

pub proof fn lemma_trim_start_at(s: Seq<char>, k: CharSet, i: int)
    requires
        0 <= i <= s.len(),
        forall|j: int| 0 <= j < i ==> in_set(k, #[trigger] s[j]),
        i == s.len() || !in_set(k, s[i]),
    ensures
        trim_start_set(s, k) == s.skip(i),
    decreases i,
{
    if i == 0 {
        assert(s.skip(0) =~= s);
    } else {
        let t = s.drop_first();
        assert forall|j: int| 0 <= j < i - 1 implies in_set(k, #[trigger] t[j]) by {
            assert(t[j] == s[j + 1]);
        }
        lemma_trim_start_at(t, k, i - 1);
        assert(t.skip(i - 1) =~= s.skip(i));
    }
}

pub proof fn lemma_trim_end_at(s: Seq<char>, k: CharSet, i: int)
    requires
        0 <= i <= s.len(),
        forall|j: int| i <= j < s.len() ==> in_set(k, #[trigger] s[j]),
        i == 0 || !in_set(k, s[i - 1]),
    ensures
        trim_end_set(s, k) == s.take(i),
    decreases s.len() - i,
{
    if i == s.len() {
        assert(s.take(i) =~= s);
    } else {
        let t = s.drop_last();
        assert forall|j: int| i <= j < t.len() implies in_set(k, #[trigger] t[j]) by {
            assert(t[j] == s[j]);
        }
        lemma_trim_end_at(t, k, i);
        assert(t.take(i) =~= s.take(i));
    }
}

/// `v` without its leading characters from `k`.
pub fn trim_start_of(v: &Vec<char>, k: CharSet) -> (out: Vec<char>)
    ensures
        out@ == trim_start_set(v@, k),
{
    let mut i: usize = 0;
    while i < v.len() && is_in(k, v[i])
        invariant
            i <= v.len(),
            forall|j: int| 0 <= j < i ==> in_set(k, #[trigger] v@[j]),
        decreases v.len() - i,
    {
        i = i + 1;
    }
    proof {
        lemma_trim_start_at(v@, k, i as int);
        assert(v@.skip(i as int) =~= v@.subrange(i as int, v@.len() as int));
    }
    subvec(v, i, v.len())
}

/// `v` without its trailing characters from `k`.
pub fn trim_end_of(v: &Vec<char>, k: CharSet) -> (out: Vec<char>)
    ensures
        out@ == trim_end_set(v@, k),
{
    let mut i: usize = v.len();
    while i > 0 && is_in(k, v[i - 1])
        invariant
            i <= v.len(),
            forall|j: int| i <= j < v@.len() ==> in_set(k, #[trigger] v@[j]),
        decreases i,
    {
        i = i - 1;
    }
    proof {
        lemma_trim_end_at(v@, k, i as int);
        assert(v@.take(i as int) =~= v@.subrange(0, i as int));
    }
    subvec(v, 0, i)
}

/// `v` without leading and trailing characters from `k`.
pub fn trim_of(v: &Vec<char>, k: CharSet) -> (out: Vec<char>)
    ensures
        out@ == trim_set(v@, k),
{
    let a = trim_start_of(v, k);
    trim_end_of(&a, k)
}


// ---------------------------------------------------------------------------
// Prefixes, suffixes, substrings
// ---------------------------------------------------------------------------
pub open spec fn has_prefix(s: Seq<char>, p: Seq<char>) -> bool {
    p.len() <= s.len() && s.take(p.len() as int) == p
}

pub open spec fn has_suffix(s: Seq<char>, p: Seq<char>) -> bool {
    p.len() <= s.len() && s.skip(s.len() - p.len()) == p
}

/// `str::strip_prefix`.
pub open spec fn strip_prefix(s: Seq<char>, p: Seq<char>) -> Option<Seq<char>> {
    if has_prefix(s, p) {
        Some(s.skip(p.len() as int))
    } else {
        None
    }
}

/// `str::strip_suffix`.
pub open spec fn strip_suffix(s: Seq<char>, p: Seq<char>) -> Option<Seq<char>> {
    if has_suffix(s, p) {
        Some(s.take(s.len() - p.len()))
    } else {
        None
    }
}

pub fn starts_with(v: &Vec<char>, p: &Vec<char>) -> (r: bool)
    ensures
        r == has_prefix(v@, p@),
{
    if p.len() > v.len() {
        return false;
    }
    let mut i: usize = 0;
    while i < p.len()
        invariant
            p.len() <= v.len(),
            i <= p.len(),
            forall|j: int| 0 <= j < i ==> v@[j] == p@[j],
        decreases p.len() - i,
    {
        if v[i] != p[i] {
            assert(v@.take(p@.len() as int)[i as int] != p@[i as int]);
            return false;
        }
        i = i + 1;
    }
    assert(v@.take(p@.len() as int) =~= p@);
    true
}

pub fn ends_with(v: &Vec<char>, p: &Vec<char>) -> (r: bool)
    ensures
        r == has_suffix(v@, p@),
{
    if p.len() > v.len() {
        return false;
    }
    let off = v.len() - p.len();
    let mut i: usize = 0;
    while i < p.len()
        invariant
            p.len() <= v.len(),
            off == v.len() - p.len(),
            i <= p.len(),
            forall|j: int| 0 <= j < i ==> v@[off + j] == p@[j],
        decreases p.len() - i,
    {
        if v[off + i] != p[i] {
            assert(v@.skip(off as int)[i as int] != p@[i as int]);
            return false;
        }
        i = i + 1;
    }
    assert(v@.skip(off as int) =~= p@);
    true
}

/// `v.strip_prefix(p)` on characters.
pub fn strip_prefix_of(v: &Vec<char>, p: &str) -> (out: Option<Vec<char>>)
    ensures
        match out {
            Some(w) => strip_prefix(v@, p@) == Some(w@),
            None => strip_prefix(v@, p@) is None,
        },
{
    let pc = chars_of(p);
    if starts_with(v, &pc) {
        let w = subvec(v, pc.len(), v.len());
        assert(w@ =~= v@.skip(p@.len() as int));
        Some(w)
    } else {
        None
    }
}

/// `v.strip_suffix(p)` on characters.
pub fn strip_suffix_of(v: &Vec<char>, p: &str) -> (out: Option<Vec<char>>)
    ensures
        match out {
            Some(w) => strip_suffix(v@, p@) == Some(w@),
            None => strip_suffix(v@, p@) is None,
        },
{
    let pc = chars_of(p);
    if ends_with(v, &pc) {
        let w = subvec(v, 0, v.len() - pc.len());
        assert(w@ =~= v@.take(v@.len() - p@.len()));
        Some(w)
    } else {
        None
    }
}

/// Whether `p` occurs in `s` starting at index `i`.
pub open spec fn occurs_at(s: Seq<char>, p: Seq<char>, i: int) -> bool {
    0 <= i && i + p.len() <= s.len() && s.subrange(i, i + p.len()) == p
}

/// The first index at or after `i` where `p` occurs in `s`, or -1.
pub open spec fn find_from(s: Seq<char>, p: Seq<char>, i: int) -> int
    decreases s.len() + 1 - i,
{
    if i < 0 || i + p.len() > s.len() {
        -1
    } else if occurs_at(s, p, i) {
        i
    } else {
        find_from(s, p, i + 1)
    }
}

/// The index of the first occurrence of `p` in `s` (`str::find`), or -1.
pub open spec fn find_sub(s: Seq<char>, p: Seq<char>) -> int {
    find_from(s, p, 0)
}

/// `str::contains` for a string pattern.
pub open spec fn contains_sub(s: Seq<char>, p: Seq<char>) -> bool {
    find_sub(s, p) >= 0
}

pub proof fn lemma_find_from_bounds(s: Seq<char>, p: Seq<char>, i: int)
    requires
        0 <= i,
    ensures
        find_from(s, p, i) == -1 || (i <= find_from(s, p, i) && occurs_at(s, p, find_from(s, p, i))
            && forall|j: int| i <= j < find_from(s, p, i) ==> !occurs_at(s, p, j)),
        find_from(s, p, i) == -1 ==> forall|j: int| i <= j ==> !occurs_at(s, p, j),
    decreases s.len() + 1 - i,
{
    if i + p.len() > s.len() {
        assert forall|j: int| i <= j implies !occurs_at(s, p, j) by {}
    } else if occurs_at(s, p, i) {
    } else {
        lemma_find_from_bounds(s, p, i + 1);
    }
}

/// Whether `p` occurs at index `i` of `v`.
pub fn occurs_at_exec(v: &Vec<char>, p: &Vec<char>, i: usize) -> (r: bool)
    ensures
        r == occurs_at(v@, p@, i as int),
{
    if i > v.len() || p.len() > v.len() - i {
        return false;
    }
    let mut j: usize = 0;
    while j < p.len()
        invariant
            i + p.len() <= v.len(),
            j <= p.len(),
            forall|t: int| 0 <= t < j ==> v@[i + t] == p@[t],
        decreases p.len() - j,
    {
        if v[i + j] != p[j] {
            assert(v@.subrange(i as int, i + p@.len())[j as int] != p@[j as int]);
            return false;
        }
        j = j + 1;
    }
    assert(v@.subrange(i as int, i + p@.len()) =~= p@);
    true
}

/// The index of the first occurrence of `p` in `v`.
pub fn find_of(v: &Vec<char>, p: &Vec<char>) -> (r: Option<usize>)
    ensures
        match r {
            Some(i) => find_sub(v@, p@) == i,
            None => find_sub(v@, p@) == -1,
        },
{
    if p.len() == 0 {
        assert(v@.subrange(0, 0) =~= p@);
        return Some(0);
    }
    let mut i: usize = 0;
    while i <= v.len() && p.len() <= v.len() - i
        invariant
            p@.len() > 0,
            find_sub(v@, p@) == find_from(v@, p@, i as int),
        decreases v.len() + 1 - i,
    {
        if occurs_at_exec(v, p, i) {
            return Some(i);
        }
        i = i + 1;
    }
    None
}

/// `str::contains` for a string pattern.
pub fn contains_of(v: &Vec<char>, p: &str) -> (r: bool)
    ensures
        r == contains_sub(v@, p@),
{
    let pc = chars_of(p);
    find_of(v, &pc).is_some()
}

// ---------------------------------------------------------------------------
// Splitting
// ---------------------------------------------------------------------------
/// Index of the first character of `s` in `k`, or -1.
pub open spec fn first_in(s: Seq<char>, k: CharSet) -> int
    decreases s.len(),
{
    if s.len() == 0 {
        -1
    } else if in_set(k, s[0]) {
        0
    } else {
        let r = first_in(s.drop_first(), k);
        if r < 0 {
            -1
        } else {
            r + 1
        }
    }
}

pub proof fn lemma_first_in(s: Seq<char>, k: CharSet)
    ensures
        -1 <= first_in(s, k) < s.len(),
        first_in(s, k) >= 0 ==> in_set(k, s[first_in(s, k)]),
        forall|j: int| 0 <= j < first_in(s, k) ==> !in_set(k, #[trigger] s[j]),
        first_in(s, k) == -1 ==> forall|j: int| 0 <= j < s.len() ==> !in_set(k, #[trigger] s[j]),
    decreases s.len(),
{
    if s.len() > 0 && !in_set(k, s[0]) {
        let t = s.drop_first();
        lemma_first_in(t, k);
        assert forall|j: int| 0 < j < s.len() && !(first_in(t, k) >= 0 && j - 1 >= first_in(t, k))
            implies !in_set(k, #[trigger] s[j]) by {
            assert(s[j] == t[j - 1]);
        }
    }
}

pub proof fn lemma_first_in_at(s: Seq<char>, k: CharSet, i: int)
    requires
        -1 <= i <= s.len(),
        forall|j: int| 0 <= j < i ==> !in_set(k, #[trigger] s[j]),
        i == s.len() || i == -1 || in_set(k, s[i]),
        i == -1 ==> s.len() == 0,
    ensures
        first_in(s, k) == if i == s.len() { -1 } else { i },
{
    lemma_first_in(s, k);
    if i == s.len() {
        if first_in(s, k) >= 0 {
            assert(!in_set(k, s[first_in(s, k)]));
        }
    } else if i >= 0 {
        if first_in(s, k) < i {
            if first_in(s, k) >= 0 {
                assert(!in_set(k, s[first_in(s, k)]));
            } else {
                assert(!in_set(k, s[i]));
            }
        } else if first_in(s, k) > i {
            assert(!in_set(k, s[i]));
        }
    }
}

/// The index of the first character of `v` in `k`.
pub fn first_in_of(v: &Vec<char>, k: CharSet) -> (r: Option<usize>)
    ensures
        match r {
            Some(i) => first_in(v@, k) == i && i < v@.len(),
            None => first_in(v@, k) == -1,
        },
{
    let mut i: usize = 0;
    while i < v.len()
        invariant
            i <= v.len(),
            forall|j: int| 0 <= j < i ==> !in_set(k, #[trigger] v@[j]),
        decreases v.len() - i,
    {
        if is_in(k, v[i]) {
            proof {
                lemma_first_in_at(v@, k, i as int);
            }
            return Some(i);
        }
        i = i + 1;
    }
    proof {
        lemma_first_in_at(v@, k, v@.len() as int);
    }
    None
}

/// Index of the last character of `s` in `k`, or -1.
pub open spec fn last_in(s: Seq<char>, k: CharSet) -> int
    decreases s.len(),
{
    if s.len() == 0 {
        -1
    } else if in_set(k, s.last()) {
        s.len() - 1
    } else {
        last_in(s.drop_last(), k)
    }
}

pub proof fn lemma_last_in(s: Seq<char>, k: CharSet)
    ensures
        -1 <= last_in(s, k) < s.len(),
        last_in(s, k) >= 0 ==> in_set(k, s[last_in(s, k)]),
        forall|j: int| last_in(s, k) < j < s.len() ==> !in_set(k, #[trigger] s[j]),
    decreases s.len(),
{
    if s.len() > 0 && !in_set(k, s.last()) {
        let t = s.drop_last();
        lemma_last_in(t, k);
        assert forall|j: int| last_in(s, k) < j < s.len() implies !in_set(k, #[trigger] s[j]) by {
            if j < t.len() {
                assert(s[j] == t[j]);
            }
        }
    }
}

/// The index of the last character of `v` in `k`.
pub fn last_in_of(v: &Vec<char>, k: CharSet) -> (r: Option<usize>)
    ensures
        match r {
            Some(i) => last_in(v@, k) == i && i < v@.len(),
            None => last_in(v@, k) == -1,
        },
{
    let mut i: usize = v.len();
    assert(v@.take(v@.len() as int) =~= v@);
    while i > 0
        invariant
            i <= v.len(),
            last_in(v@, k) == last_in(v@.take(i as int), k),
        decreases i,
    {
        proof {
            assert(v@.take(i as int).last() == v@[i - 1]);
            assert(v@.take(i as int).drop_last() =~= v@.take(i - 1));
        }
        if is_in(k, v[i - 1]) {
            return Some(i - 1);
        }
        i = i - 1;
    }
    None
}

/// `s.split(pattern)` for a character-set pattern: the pieces between
/// separators, always at least one.
pub open spec fn split_set(s: Seq<char>, k: CharSet) -> Seq<Seq<char>>
    decreases s.len(),
{
    let i = first_in(s, k);
    if i < 0 {
        seq![s]
    } else {
        proof {
            lemma_first_in(s, k);
        }
        seq![s.take(i)] + split_set(s.skip(i + 1), k)
    }
}

/// The views of a sequence of character vectors.
pub open spec fn views(vv: Seq<Vec<char>>) -> Seq<Seq<char>> {
    vv.map_values(|v: Vec<char>| v@)
}

pub proof fn lemma_views_push(vv: Seq<Vec<char>>, v: Vec<char>)
    ensures
        views(vv.push(v)) == views(vv).push(v@),
{
    assert(views(vv.push(v)) =~= views(vv).push(v@));
}

/// `v.split(k)`.
pub fn split_of(v: &Vec<char>, k: CharSet) -> (out: Vec<Vec<char>>)
    ensures
        views(out@) == split_set(v@, k),
        out@.len() >= 1,
{
    let mut out: Vec<Vec<char>> = Vec::new();
    let mut start: usize = 0;
    let mut i: usize = 0;
    assert(v@.skip(0) =~= v@);
    assert(views(out@) + split_set(v@, k) =~= split_set(v@, k));
    while i < v.len()
        invariant
            start <= i <= v.len(),
            forall|j: int| start <= j < i ==> !in_set(k, #[trigger] v@[j]),
            split_set(v@, k) == views(out@) + split_set(v@.skip(start as int), k),
        decreases v.len() - i,
    {
        if is_in(k, v[i]) {
            let piece = subvec(v, start, i);
            proof {
                let t = v@.skip(start as int);
                assert forall|j: int| 0 <= j < i - start implies !in_set(k, #[trigger] t[j]) by {
                    assert(t[j] == v@[start + j]);
                }
                lemma_first_in_at(t, k, i - start);
                assert(t.take(i - start) =~= piece@);
                assert(t.skip(i - start + 1) =~= v@.skip(i + 1));
                lemma_views_push(out@, piece);
                assert(split_set(t, k) == seq![piece@] + split_set(v@.skip(i + 1), k));
                assert(views(out@.push(piece)) + split_set(v@.skip(i + 1), k) =~= views(out@)
                    + split_set(t, k));
            }
            out.push(piece);
            start = i + 1;
        }
        i = i + 1;
    }
    let last = subvec(v, start, v.len());
    proof {
        let t = v@.skip(start as int);
        assert forall|j: int| 0 <= j < t.len() implies !in_set(k, #[trigger] t[j]) by {
            assert(t[j] == v@[start + j]);
        }
        lemma_first_in_at(t, k, t.len() as int);
        assert(t =~= last@);
        lemma_views_push(out@, last);
        assert(views(out@.push(last)) =~= views(out@) + split_set(t, k));
    }
    out.push(last);
    out
}

/// Drop a trailing `'\r'`.
pub open spec fn strip_cr(l: Seq<char>) -> Seq<char> {
    if l.len() > 0 && l.last() == '\r' {
        l.drop_last()
    } else {
        l
    }
}

/// `str::lines`: split at `'\n'`, each terminated line losing a trailing
/// `'\r'`; a final line ending does not start an extra empty line.
pub open spec fn lines(s: Seq<char>) -> Seq<Seq<char>> {
    if s.len() == 0 {
        seq![]
    } else {
        let p = split_set(s, CharSet::Only('\n'));
        let terminated = p.take(p.len() - 1).map_values(|l: Seq<char>| strip_cr(l));
        if s.last() == '\n' {
            terminated
        } else {
            terminated.push(p[p.len() - 1])
        }
    }
}

pub fn strip_cr_of(l: Vec<char>) -> (out: Vec<char>)
    ensures
        out@ == strip_cr(l@),
{
    if l.len() > 0 && l[l.len() - 1] == '\r' {
        let w = subvec(&l, 0, l.len() - 1);
        assert(w@ =~= l@.drop_last());
        w
    } else {
        l
    }
}

/// `v.lines()`.
pub fn lines_of(v: &Vec<char>) -> (out: Vec<Vec<char>>)
    ensures
        views(out@) == lines(v@),
{
    if v.len() == 0 {
        let out: Vec<Vec<char>> = Vec::new();
        assert(views(out@) =~= lines(v@));
        return out;
    }
    let pieces = split_of(v, CharSet::Only('\n'));
    let ghost p = views(pieces@);
    let n = pieces.len();
    let mut out: Vec<Vec<char>> = Vec::new();
    let mut i: usize = 0;
    while i + 1 < n
        invariant
            n == pieces.len(),
            n >= 1,
            p == views(pieces@),
            i + 1 <= n,
            views(out@) == p.take(i as int).map_values(|l: Seq<char>| strip_cr(l)),
        decreases n - i,
    {
        let l = strip_cr_of(pieces[i].clone());
        proof {
            lemma_views_push(out@, l);
            assert(p.take(i + 1).map_values(|l: Seq<char>| strip_cr(l)) =~= p.take(
                i as int,
            ).map_values(|l: Seq<char>| strip_cr(l)).push(strip_cr(p[i as int])));
        }
        out.push(l);
        i = i + 1;
    }
    if v[v.len() - 1] != '\n' {
        let l = pieces[n - 1].clone();
        proof {
            lemma_views_push(out@, l);
        }
        out.push(l);
    }
    out
}

// ---------------------------------------------------------------------------
// Case and digits
// ---------------------------------------------------------------------------
/// `str::to_ascii_lowercase`.
pub open spec fn lower(s: Seq<char>) -> Seq<char> {
    s.map_values(|c: char| lower_char(c))
}

pub fn lower_of(v: &Vec<char>) -> (out: Vec<char>)
    ensures
        out@ == lower(v@),
{
    let mut out: Vec<char> = Vec::new();
    let mut i: usize = 0;
    while i < v.len()
        invariant
            i <= v.len(),
            out@ == lower(v@.take(i as int)),
        decreases v.len() - i,
    {
        out.push(to_lower_char(v[i]));
        proof {
            assert(lower(v@.take(i + 1)) =~= lower(v@.take(i as int)).push(lower_char(v@[i as int])));
        }
        i = i + 1;
    }
    assert(v@.take(v@.len() as int) =~= v@);
    out
}

/// `a.eq_ignore_ascii_case(b)`.
pub fn eq_ignore_case(a: &Vec<char>, b: &Vec<char>) -> (r: bool)
    ensures
        r == (lower(a@) == lower(b@)),
{
    let la = lower_of(a);
    let lb = lower_of(b);
    chars_eq(&la, &lb)
}

pub open spec fn all_digits(s: Seq<char>) -> bool {
    forall|i: int| 0 <= i < s.len() ==> is_digit(#[trigger] s[i])
}

pub fn all_digits_of(v: &Vec<char>) -> (r: bool)
    ensures
        r == all_digits(v@),
{
    let mut i: usize = 0;
    while i < v.len()
        invariant
            i <= v.len(),
            forall|j: int| 0 <= j < i ==> is_digit(#[trigger] v@[j]),
        decreases v.len() - i,
    {
        if !('0' <= v[i] && v[i] <= '9') {
            return false;
        }
        i = i + 1;
    }
    true
}

pub open spec fn digit_value(c: char) -> nat {
    ((c as u32) - ('0' as u32)) as nat
}

/// The number a string of decimal digits denotes.
pub open spec fn digits_value(s: Seq<char>) -> nat
    decreases s.len(),
{
    if s.len() == 0 {
        0
    } else {
        10 * digits_value(s.drop_last()) + digit_value(s.last())
    }
}

/// What `str::parse` accepts for an unsigned integer type whose maximum is
/// `max`: an optional `+` followed by at least one decimal digit, denoting a
/// value that fits.
pub open spec fn parse_uint(s: Seq<char>, max: nat) -> Option<nat> {
    let d = if s.len() > 1 && s[0] == '+' {
        s.drop_first()
    } else {
        s
    };
    if d.len() > 0 && all_digits(d) && digits_value(d) <= max {
        Some(digits_value(d))
    } else {
        None
    }
}

pub proof fn lemma_digits_value_prefix_le(s: Seq<char>, i: int)
    requires
        0 <= i <= s.len(),
    ensures
        digits_value(s.take(i)) <= digits_value(s),
    decreases s.len() - i,
{
    if i < s.len() {
        lemma_digits_value_prefix_le(s, i + 1);
        assert(s.take(i + 1).drop_last() =~= s.take(i));
    } else {
        assert(s.take(i) =~= s);
    }
}

/// `str::parse::<uN>()` where `max` is `uN::MAX`.
pub fn parse_uint_of(v: &Vec<char>, max: u64) -> (r: Option<u64>)
    ensures
        match r {
            Some(n) => parse_uint(v@, max as nat) == Some(n as nat),
            None => parse_uint(v@, max as nat) is None,
        },
{
    let d = if v.len() > 1 && v[0] == '+' {
        subvec(v, 1, v.len())
    } else {
        subvec(v, 0, v.len())
    };
    proof {
        if v@.len() > 1 && v@[0] == '+' {
            assert(d@ =~= v@.drop_first());
        } else {
            assert(d@ =~= v@);
        }
    }
    if d.len() == 0 || !all_digits_of(&d) {
        return None;
    }
    let mut acc: u128 = 0;
    let mut i: usize = 0;
    while i < d.len()
        invariant
            i <= d.len(),
            d@ == (if v@.len() > 1 && v@[0] == '+' {
                v@.drop_first()
            } else {
                v@
            }),
            all_digits(d@),
            acc == digits_value(d@.take(i as int)),
            acc <= max,
        decreases d.len() - i,
    {
        let c = d[i];
        assert(is_digit(d@[i as int]));
        let dig = (c as u32 - '0' as u32) as u128;
        let next = acc * 10 + dig;
        proof {
            assert(d@.take(i + 1).drop_last() =~= d@.take(i as int));
            assert(next == digits_value(d@.take(i + 1)));
        }
        if next > max as u128 {
            proof {
                lemma_digits_value_prefix_le(d@, i + 1);
                assert(digits_value(d@) > max);
            }
            return None;
        }
        acc = next;
        i = i + 1;
    }
    assert(d@.take(d@.len() as int) =~= d@);
    Some(acc as u64)
}

/// The decimal representation of `n`, without leading zeros.
pub open spec fn decimal(n: nat) -> Seq<char>
    decreases n,
{
    if n < 10 {
        seq![(('0' as u32) + n) as char]
    } else {
        decimal(n / 10).push((('0' as u32) + (n % 10)) as char)
    }
}

pub proof fn lemma_decimal(n: nat)
    ensures
        decimal(n).len() >= 1,
        all_digits(decimal(n)),
        digits_value(decimal(n)) == n,
        decimal(n)[0] != '0' || n == 0,
    decreases n,
{
    let d = (('0' as u32) + (n % 10)) as char;
    assert(d as u32 == ('0' as u32) + (n % 10));
    assert(digit_value(d) == n % 10);
    if n < 10 {
        assert(n % 10 == n);
        assert(decimal(n).last() == d);
        assert(decimal(n).drop_last() =~= Seq::<char>::empty());
        assert(digits_value(decimal(n)) == 10 * digits_value(decimal(n).drop_last()) + digit_value(d));
        assert(digits_value(Seq::<char>::empty()) == 0);
    } else {
        assert(decimal(n).last() == d);
        lemma_decimal(n / 10);
        let s = decimal(n);
        assert(s.drop_last() =~= decimal(n / 10));
        assert(10 * (n / 10) + n % 10 == n) by (nonlinear_arith);
        assert(digits_value(s) == 10 * digits_value(s.drop_last()) + digit_value(d));
        assert forall|i: int| 0 <= i < s.len() implies is_digit(#[trigger] s[i]) by {
            if i < s.len() - 1 {
                assert(s[i] == decimal(n / 10)[i]);
            }
        }
    }
}

/// The decimal digits of `n` (`n.to_string()`).
pub fn decimal_of(n: u64) -> (out: Vec<char>)
    ensures
        out@ == decimal(n as nat),
    decreases n,
{
    let d = char_from_ascii(('0' as u32) + (n % 10) as u32);
    if n < 10 {
        let mut out: Vec<char> = Vec::new();
        out.push(d);
        assert(out@ =~= decimal(n as nat));
        out
    } else {
        let mut out = decimal_of(n / 10);
        out.push(d);
        out
    }
}

// ---------------------------------------------------------------------------
// Replacing
// ---------------------------------------------------------------------------
/// `str::replace`: every non-overlapping occurrence of `p`, scanning left to
/// right, replaced by `r`.
pub open spec fn replace_all(s: Seq<char>, p: Seq<char>, r: Seq<char>) -> Seq<char>
    recommends
        p.len() > 0,
    decreases s.len(),
{
    if p.len() == 0 || s.len() < p.len() {
        s
    } else if s.take(p.len() as int) == p {
        r + replace_all(s.skip(p.len() as int), p, r)
    } else {
        seq![s[0]] + replace_all(s.drop_first(), p, r)
    }
}

/// `v.replace(p, r)`.
pub fn replace_of(v: &Vec<char>, p: &Vec<char>, r: &Vec<char>) -> (out: Vec<char>)
    requires
        p@.len() > 0,
    ensures
        out@ == replace_all(v@, p@, r@),
{
    let mut out: Vec<char> = Vec::new();
    let mut i: usize = 0;
    assert(v@.skip(0) =~= v@);
    assert(out@ + replace_all(v@, p@, r@) =~= replace_all(v@, p@, r@));
    while i < v.len()
        invariant
            i <= v.len(),
            p@.len() > 0,
            replace_all(v@, p@, r@) == out@ + replace_all(v@.skip(i as int), p@, r@),
        decreases v.len() - i,
    {
        let ghost t = v@.skip(i as int);
        if occurs_at_exec(v, p, i) {
            proof {
                assert(t.take(p@.len() as int) =~= v@.subrange(i as int, i + p@.len()));
                assert(t.skip(p@.len() as int) =~= v@.skip(i + p@.len()));
                assert(out@ + r@ + replace_all(v@.skip(i + p@.len()), p@, r@) =~= out@ + (r@
                    + replace_all(t.skip(p@.len() as int), p@, r@)));
            }
            append_chars(&mut out, r);
            i = i + p.len();
        } else {
            proof {
                if t.len() >= p@.len() {
                    assert(t.take(p@.len() as int) =~= v@.subrange(i as int, i + p@.len()));
                }
                assert(t.drop_first() =~= v@.skip(i + 1));
                assert(t[0] == v@[i as int]);
                assert(out@.push(v@[i as int]) + replace_all(v@.skip(i + 1), p@, r@) =~= out@
                    + (seq![t[0]] + replace_all(t.drop_first(), p@, r@)));
            }
            out.push(v[i]);
            i = i + 1;
        }
    }
    proof {
        assert(v@.skip(i as int) =~= Seq::<char>::empty());
        assert(out@ + Seq::<char>::empty() =~= out@);
    }
    out
}

} // verus!
