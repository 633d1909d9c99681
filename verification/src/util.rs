//! Small helpers shared across the crate.
use vstd::prelude::*;

use crate::text::{
    chars_of, is_alnum, lower_char, string_of, to_lower_char, trim_end_set, CharSet,
    lemma_trim_end_at, in_set,
};

verus! {

/// The slug of a prefix of the input, and whether it currently ends in a dash
/// that stands for a run of non-alphanumeric characters.
pub open spec fn slug_scan(s: Seq<char>) -> (Seq<char>, bool)
    decreases s.len(),
{
    if s.len() == 0 {
        (Seq::<char>::empty(), false)
    } else {
        let (out, last_dash) = slug_scan(s.drop_last());
        let c = s.last();
        if is_alnum(c) {
            (out.push(lower_char(c)), false)
        } else if !last_dash && out.len() > 0 {
            (out.push('-'), true)
        } else {
            (out, last_dash)
        }
    }
}

/// What [`slugify`] returns: lowercase ASCII alphanumerics, each run of other
/// characters between them collapsed into one `-`, none at either end.
pub open spec fn slug(s: Seq<char>) -> Seq<char> {
    trim_end_set(slug_scan(s).0, CharSet::Only('-'))
}

/// A character that may appear in a slug.
pub open spec fn slug_char(c: char) -> bool {
    ||| 'a' <= c <= 'z'
    ||| '0' <= c <= '9'
    ||| c == '-'
}

/// The shape every slug has.
pub open spec fn is_slug(t: Seq<char>) -> bool {
    &&& forall|i: int| 0 <= i < t.len() ==> slug_char(#[trigger] t[i])
    &&& t.len() > 0 ==> t[0] != '-' && t.last() != '-'
    &&& forall|i: int| 0 <= i < t.len() - 1 ==> !(#[trigger] t[i] == '-' && t[i + 1] == '-')
}

/// Turn an arbitrary string into a filesystem-safe slug (lowercase ascii,
/// alphanumerics and `-`). Collapses runs of other characters into a single `-`.
pub fn slugify(input: &str) -> (out: String)
    ensures
        out@ == slug(input@),
{
    let v = chars_of(input);
    let mut out: Vec<char> = Vec::new();
    let mut last_dash = false;
    let mut i: usize = 0;
    while i < v.len()
        invariant
            i <= v.len(),
            (out@, last_dash) == slug_scan(v@.take(i as int)),
        decreases v.len() - i,
    {
        let c = v[i];
        proof {
            assert(v@.take(i + 1).drop_last() =~= v@.take(i as int));
        }
        if ('0' <= c && c <= '9') || ('a' <= c && c <= 'z') || ('A' <= c && c <= 'Z') {
            out.push(to_lower_char(c));
            last_dash = false;
        } else if !last_dash && out.len() > 0 {
            out.push('-');
            last_dash = true;
        }
        i = i + 1;
    }
    assert(v@.take(v@.len() as int) =~= v@);
    let mut n = out.len();
    while n > 0 && out[n - 1] == '-'
        invariant
            n <= out.len(),
            forall|j: int| n <= j < out@.len() ==> in_set(CharSet::Only('-'), #[trigger] out@[j]),
        decreases n,
    {
        n = n - 1;
    }
    proof {
        lemma_trim_end_at(out@, CharSet::Only('-'), n as int);
    }
    out.truncate(n);
    string_of(&out)
}

/// The scan state always describes a well-formed partial slug.
proof fn lemma_slug_scan_shape(s: Seq<char>)
    ensures
        ({
            let (out, last_dash) = slug_scan(s);
            &&& forall|i: int| 0 <= i < out.len() ==> slug_char(#[trigger] out[i])
            &&& out.len() > 0 ==> out[0] != '-'
            &&& forall|i: int| 0 <= i < out.len() - 1 ==> !(#[trigger] out[i] == '-' && out[i + 1]
                == '-')
            &&& last_dash == (out.len() > 0 && out.last() == '-')
        }),
    decreases s.len(),
{
    if s.len() > 0 {
        lemma_slug_scan_shape(s.drop_last());
        let (prev, _) = slug_scan(s.drop_last());
        let (out, _) = slug_scan(s);
        assert forall|i: int| 0 <= i < prev.len() implies out[i] == prev[i] by {}
    }
}

/// Every slug is made of `[a-z0-9-]` only, never has a `-` at either end,
/// and never has two `-` in a row.
pub proof fn law_slug_shape(s: Seq<char>)
    ensures
        is_slug(slug(s)),
{
    lemma_slug_scan_shape(s);
    let out = slug_scan(s).0;
    let t = slug(s);
    if out.len() > 0 && out.last() == '-' {
        assert(out.len() == 1 || out[out.len() - 2] != '-');
        lemma_trim_end_at(out, CharSet::Only('-'), out.len() - 1);
        assert(out.len() - 1 == 0 || out[out.len() - 2] != '-');
        assert(t =~= out.take(out.len() - 1));
    } else {
        lemma_trim_end_at(out, CharSet::Only('-'), out.len() as int);
        assert(t =~= out);
    }
}

/// Scanning a slug reproduces it.
proof fn lemma_slug_scan_of_slug(t: Seq<char>, i: int)
    requires
        is_slug(t),
        0 <= i <= t.len(),
    ensures
        slug_scan(t.take(i)) == (t.take(i), i > 0 && t[i - 1] == '-'),
    decreases i,
{
    if i > 0 {
        lemma_slug_scan_of_slug(t, i - 1);
        assert(t.take(i).drop_last() =~= t.take(i - 1));
        assert(t.take(i - 1).push(t[i - 1]) =~= t.take(i));
        assert(slug_char(t[i - 1]));
        if i >= 2 {
            assert(!(t[i - 2] == '-' && t[i - 1] == '-'));
        }
    } else {
        assert(t.take(0) =~= Seq::<char>::empty());
    }
}

/// Slugifying a slug changes nothing.
pub proof fn law_slug_idempotent(s: Seq<char>)
    ensures
        slug(slug(s)) == slug(s),
{
    let t = slug(s);
    law_slug_shape(s);
    lemma_slug_scan_of_slug(t, t.len() as int);
    assert(t.take(t.len() as int) =~= t);
    lemma_trim_end_at(t, CharSet::Only('-'), t.len() as int);
    assert(t.take(t.len() as int) =~= t);
}

/// The characters of `t` other than `-`, in order.
pub open spec fn without_dashes(t: Seq<char>) -> Seq<char>
    decreases t.len(),
{
    if t.len() == 0 {
        Seq::empty()
    } else if t.last() == '-' {
        without_dashes(t.drop_last())
    } else {
        without_dashes(t.drop_last()).push(t.last())
    }
}

/// The ASCII letters and digits of `s`, lowercased, in order.
pub open spec fn alnums_lowered(s: Seq<char>) -> Seq<char>
    decreases s.len(),
{
    if s.len() == 0 {
        Seq::empty()
    } else if is_alnum(s.last()) {
        alnums_lowered(s.drop_last()).push(lower_char(s.last()))
    } else {
        alnums_lowered(s.drop_last())
    }
}

proof fn lemma_scan_keeps_alnums(s: Seq<char>)
    ensures
        without_dashes(slug_scan(s).0) == alnums_lowered(s),
    decreases s.len(),
{
    if s.len() > 0 {
        lemma_scan_keeps_alnums(s.drop_last());
        let (out, _) = slug_scan(s.drop_last());
        let c = s.last();
        if is_alnum(c) {
            let l = lower_char(c);
            assert(l != '-') by {
                if 'A' <= c <= 'Z' {
                    assert(0x61 <= (c as u32) + 32 <= 0x7A);
                }
            }
            assert(out.push(l).drop_last() =~= out);
        } else if out.len() > 0 {
            assert(out.push('-').drop_last() =~= out);
        }
    }
}

proof fn lemma_trim_keeps_undashed(t: Seq<char>)
    ensures
        without_dashes(trim_end_set(t, CharSet::Only('-'))) == without_dashes(t),
    decreases t.len(),
{
    if t.len() > 0 && in_set(CharSet::Only('-'), t.last()) {
        lemma_trim_keeps_undashed(t.drop_last());
    }
}

/// Left without its dashes, a slug is the input's ASCII letters and digits,
/// lowercased, in their order.
pub proof fn law_slug_keeps_alnums(s: Seq<char>)
    ensures
        without_dashes(slug(s)) == alnums_lowered(s),
{
    lemma_scan_keeps_alnums(s);
    lemma_trim_keeps_undashed(slug_scan(s).0);
}

/// One step of [`slug_scan`]: the slug so far and whether it ends in a dash
/// standing for a gap, after one more input character.
pub open spec fn scan_step(st: (Seq<char>, bool), c: char) -> (Seq<char>, bool) {
    let (out, last_dash) = st;
    if is_alnum(c) {
        (out.push(lower_char(c)), false)
    } else if !last_dash && out.len() > 0 {
        (out.push('-'), true)
    } else {
        (out, last_dash)
    }
}

/// Scanning `b` on from the state `st`.
pub open spec fn scan_on(st: (Seq<char>, bool), b: Seq<char>) -> (Seq<char>, bool)
    decreases b.len(),
{
    if b.len() == 0 {
        st
    } else {
        scan_step(scan_on(st, b.drop_last()), b.last())
    }
}

/// No ASCII letter or digit in `g`.
pub open spec fn no_alnum(g: Seq<char>) -> bool {
    forall|j: int| 0 <= j < g.len() ==> !is_alnum(#[trigger] g[j])
}

/// Scanning `a + b` is scanning `b` on from where `a` left off.
proof fn lemma_scan_concat(a: Seq<char>, b: Seq<char>)
    ensures
        slug_scan(a + b) == scan_on(slug_scan(a), b),
    decreases b.len(),
{
    if b.len() == 0 {
        assert(a + b =~= a);
    } else {
        lemma_scan_concat(a, b.drop_last());
        assert((a + b).drop_last() =~= a + b.drop_last());
        assert((a + b).last() == b.last());
    }
}

/// Scanning `g + b` on is scanning `b` on after `g`.
proof fn lemma_scan_on_concat(st: (Seq<char>, bool), g: Seq<char>, b: Seq<char>)
    ensures
        scan_on(st, g + b) == scan_on(scan_on(st, g), b),
    decreases b.len(),
{
    if b.len() == 0 {
        assert(g + b =~= g);
    } else {
        lemma_scan_on_concat(st, g, b.drop_last());
        assert((g + b).drop_last() =~= g + b.drop_last());
        assert((g + b).last() == b.last());
    }
}

/// A lowercased letter or digit is no dash.
proof fn lemma_lower_alnum(c: char)
    requires
        is_alnum(c),
    ensures
        lower_char(c) != '-',
{
    if 'A' <= c <= 'Z' {
        assert(0x61 <= (c as u32) + 32 <= 0x7A);
    }
}

/// From a letter or digit on, scanning after any slug so far appends what
/// scanning alone gives, which starts with that character lowercased.
proof fn lemma_scan_on_from_alnum(p: Seq<char>, d: bool, b: Seq<char>)
    requires
        b.len() > 0,
        is_alnum(b[0]),
    ensures
        scan_on((p, d), b) == (p + slug_scan(b).0, slug_scan(b).1),
        slug_scan(b).0.len() > 0,
        slug_scan(b).0[0] == lower_char(b[0]),
    decreases b.len(),
{
    let c = b.last();
    if b.len() == 1 {
        assert(b.drop_last() =~= Seq::<char>::empty());
        assert(scan_on((p, d), b.drop_last()) == (p, d));
        assert(slug_scan(b.drop_last()) == (Seq::<char>::empty(), false));
        assert(p.push(lower_char(c)) =~= p + seq![lower_char(c)]);
        assert(Seq::<char>::empty().push(lower_char(c)) =~= seq![lower_char(c)]);
    } else {
        let bd = b.drop_last();
        assert(bd[0] == b[0]);
        lemma_scan_on_from_alnum(p, d, bd);
        let (q, dq) = slug_scan(bd);
        if is_alnum(c) {
            assert((p + q).push(lower_char(c)) =~= p + q.push(lower_char(c)));
        } else if !dq {
            assert((p + q).push('-') =~= p + q.push('-'));
        }
    }
}

/// A gap of other characters after a dash-free slug adds one dash, and
/// nothing after a dash or before any letter or digit.
proof fn lemma_scan_on_gap(p: Seq<char>, d: bool, g: Seq<char>)
    requires
        g.len() > 0,
        no_alnum(g),
    ensures
        scan_on((p, d), g) == (if !d && p.len() > 0 {
            (p.push('-'), true)
        } else {
            (p, d)
        }),
    decreases g.len(),
{
    let c = g.last();
    assert(!is_alnum(g[g.len() - 1]));
    if g.len() == 1 {
        assert(g.drop_last() =~= Seq::<char>::empty());
        assert(scan_on((p, d), g.drop_last()) == (p, d));
        assert(scan_on((p, d), g) == scan_step((p, d), c));
    } else {
        let gd = g.drop_last();
        assert(no_alnum(gd)) by {
            assert forall|j: int| 0 <= j < gd.len() implies !is_alnum(#[trigger] gd[j]) by {
                assert(gd[j] == g[j]);
            }
        }
        lemma_scan_on_gap(p, d, gd);
        assert(scan_on((p, d), g) == scan_step(scan_on((p, d), gd), c));
    }
}

/// Trailing dashes of `x + q` are those of `q` when `q` starts with a
/// character other than `-`.
proof fn lemma_trim_after(x: Seq<char>, q: Seq<char>)
    requires
        q.len() > 0,
        q[0] != '-',
    ensures
        trim_end_set(x + q, CharSet::Only('-')) == x + trim_end_set(q, CharSet::Only('-')),
    decreases q.len(),
{
    let xq = x + q;
    assert(xq.last() == q.last());
    if in_set(CharSet::Only('-'), q.last()) {
        assert(q.len() > 1);
        assert(xq.drop_last() =~= x + q.drop_last());
        assert(q.drop_last()[0] == q[0]);
        lemma_trim_after(x, q.drop_last());
    }
}

/// The scan of an input ending in a letter or digit ends without a dash.
proof fn lemma_scan_ends_alnum(a: Seq<char>)
    requires
        a.len() > 0,
        is_alnum(a.last()),
    ensures
        slug_scan(a).1 == false,
        slug_scan(a).0.len() > 0,
        slug(a) == slug_scan(a).0,
{
    lemma_lower_alnum(a.last());
    let o = slug_scan(a).0;
    assert(o.last() == lower_char(a.last()));
    assert(trim_end_set(o, CharSet::Only('-')) == o);
}

/// A run of letters and digits stays whole: when `a` ends and `b` starts
/// with a letter or digit, the slug of `a + b` is the slug of `a` followed by
/// that of `b`.
pub proof fn law_slug_run_stays_whole(a: Seq<char>, b: Seq<char>)
    requires
        a.len() > 0,
        is_alnum(a.last()),
        b.len() > 0,
        is_alnum(b[0]),
    ensures
        slug(a + b) == slug(a) + slug(b),
{
    lemma_scan_ends_alnum(a);
    lemma_scan_concat(a, b);
    lemma_scan_on_from_alnum(slug_scan(a).0, false, b);
    lemma_lower_alnum(b[0]);
    lemma_trim_after(slug_scan(a).0, slug_scan(b).0);
}

/// A gap between runs becomes exactly one dash: when `a` ends and `b` starts
/// with a letter or digit and `g` is a non-empty run of other characters, the
/// slug of `a + g + b` is the slug of `a`, `-`, then the slug of `b`.
pub proof fn law_slug_gap_is_one_dash(a: Seq<char>, g: Seq<char>, b: Seq<char>)
    requires
        a.len() > 0,
        is_alnum(a.last()),
        g.len() > 0,
        no_alnum(g),
        b.len() > 0,
        is_alnum(b[0]),
    ensures
        slug(a + g + b) == slug(a) + seq!['-'] + slug(b),
{
    let oa = slug_scan(a).0;
    lemma_scan_ends_alnum(a);
    assert(a + g + b =~= a + (g + b));
    lemma_scan_concat(a, g + b);
    lemma_scan_on_concat((oa, false), g, b);
    lemma_scan_on_gap(oa, false, g);
    lemma_scan_on_from_alnum(oa.push('-'), true, b);
    lemma_lower_alnum(b[0]);
    lemma_trim_after(oa.push('-'), slug_scan(b).0);
    assert(oa.push('-') =~= oa + seq!['-']);
}

/// Characters other than letters and digits at either end leave no trace:
/// for a run `g` of them, `g + b` and `b + g` have the slug of `b`.
pub proof fn law_slug_edges_dropped(g: Seq<char>, b: Seq<char>)
    requires
        no_alnum(g),
    ensures
        slug(g + b) == slug(b),
        slug(b + g) == slug(b),
{
    if g.len() > 0 {
        lemma_scan_on_gap(Seq::<char>::empty(), false, g);
        assert(Seq::<char>::empty() + g =~= g);
        lemma_scan_concat(Seq::<char>::empty(), g);
        let (ob, db) = slug_scan(b);
        lemma_scan_on_gap(ob, db, g);
        lemma_scan_concat(b, g);
        if !db && ob.len() > 0 {
            assert(ob.push('-').drop_last() =~= ob);
        }
    } else {
        assert(g + b =~= b);
        assert(b + g =~= b);
    }
    lemma_scan_concat(g, b);
    lemma_scan_concat(Seq::<char>::empty(), b);
    assert(Seq::<char>::empty() + b =~= b);
}

/// The millisecond timestamp stored in the state from a clock reading in
/// milliseconds since the Unix epoch: a clock set before the epoch (`None`)
/// reads as 0, and a count past `u64::MAX` keeps its low 64 bits, as an
/// integer cast does.
pub fn epoch_ms(since_epoch_ms: Option<u128>) -> (ms: u64)
    ensures
        ms == match since_epoch_ms {
            Some(m) => (m % 0x1_0000_0000_0000_0000) as u64,
            None => 0,
        },
{
    match since_epoch_ms {
        Some(m) => {
            assert(m as u64 == m % 0x1_0000_0000_0000_0000) by (bit_vector);
            m as u64
        },
        None => 0,
    }
}

} // verus!
