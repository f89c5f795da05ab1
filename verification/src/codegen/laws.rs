//! What rendering a template does to the text around its placeholders.
//!
//! Every placeholder is `__` followed by upper-case letters and underscores.
//! A character that is neither `_` nor an upper-case letter therefore never
//! lies inside a placeholder, so the template can be cut after such a
//! character and each part rendered on its own; a placeholder directly
//! followed by such a character renders as its value followed by it.

use vstd::prelude::*;
use crate::codegen::replace_spec;

verus! {

pub open spec fn is_upper(c: char) -> bool {
    'A' <= c <= 'Z'
}

/// A character no placeholder holds.
pub open spec fn outside_placeholders(c: char) -> bool {
    c != '_' && !is_upper(c)
}

/// A placeholder: `__`, an upper-case letter, then only underscores and
/// upper-case letters.
pub open spec fn placeholder_like(f: Seq<char>) -> bool {
    &&& f.len() >= 3
    &&& f[0] == '_'
    &&& f[1] == '_'
    &&& is_upper(f[2])
    &&& forall|i: int| 0 <= i < f.len() ==> f[i] == '_' || is_upper(#[trigger] f[i])
}

/// Whether a placeholder could begin at position `i` of `s`.
pub open spec fn starts_placeholder(s: Seq<char>, i: int) -> bool {
    s[i] == '_' && s[i + 1] == '_' && is_upper(s[i + 2])
}

/// Text in which no placeholder begins anywhere.
pub open spec fn no_placeholder(s: Seq<char>) -> bool {
    forall|i: int| 0 <= i && i + 3 <= s.len() ==> !#[trigger] starts_placeholder(s, i)
}

/// Replacing the placeholders `subs[k..]` in turn.
pub open spec fn substitute_from(t: Seq<char>, subs: Seq<(Seq<char>, Seq<char>)>, k: nat) -> Seq<char>
    decreases subs.len() - k,
{
    if k >= subs.len() {
        t
    } else {
        substitute_from(replace_spec(t, subs[k as int].0, subs[k as int].1), subs, k + 1)
    }
}

/// Every placeholder of `subs` from `k` on is one.
pub open spec fn placeholders_from(subs: Seq<(Seq<char>, Seq<char>)>, k: nat) -> bool {
    forall|j: int| k <= j < subs.len() ==> placeholder_like(#[trigger] subs[j].0)
}

proof fn lemma_no_placeholder_tail(s: Seq<char>, n: int)
    requires
        no_placeholder(s),
        0 <= n <= s.len(),
    ensures
        no_placeholder(s.subrange(n, s.len() as int)),
{
    let r = s.subrange(n, s.len() as int);
    assert forall|i: int| 0 <= i && i + 3 <= r.len() implies !#[trigger] starts_placeholder(r, i) by {
        assert(!starts_placeholder(s, i + n));
        assert(r[i] == s[i + n] && r[i + 1] == s[i + n + 1] && r[i + 2] == s[i + n + 2]);
    }
}

/// Text without a placeholder is left as it is by a replacement.
pub proof fn lemma_replace_plain(s: Seq<char>, f: Seq<char>, t: Seq<char>)
    requires
        placeholder_like(f),
        no_placeholder(s),
    ensures
        replace_spec(s, f, t) == s,
    decreases s.len(),
{
    if s.len() > 0 {
        if f.len() <= s.len() && s.subrange(0, f.len() as int) == f {
            assert(s.subrange(0, f.len() as int)[0] == s[0]);
            assert(s.subrange(0, f.len() as int)[1] == s[1]);
            assert(s.subrange(0, f.len() as int)[2] == s[2]);
            assert(starts_placeholder(s, 0));
        }
        let rest = s.subrange(1, s.len() as int);
        lemma_no_placeholder_tail(s, 1);
        lemma_replace_plain(rest, f, t);
        assert(seq![s[0]] + rest =~= s);
    }
}

/// Cutting after a character that no placeholder holds: the two parts are
/// replaced apart, and the first still ends with that character.
pub proof fn lemma_replace_split(a: Seq<char>, b: Seq<char>, f: Seq<char>, t: Seq<char>)
    requires
        placeholder_like(f),
        a.len() > 0,
        outside_placeholders(a.last()),
    ensures
        replace_spec(a + b, f, t) == replace_spec(a, f, t) + replace_spec(b, f, t),
        replace_spec(a, f, t).len() > 0,
        replace_spec(a, f, t).last() == a.last(),
    decreases a.len(),
{
    let ab = a + b;
    let n = f.len() as int;
    if n <= ab.len() && ab.subrange(0, n) == f {
        if n >= a.len() {
            assert(ab.subrange(0, n)[a.len() - 1] == a.last());
            assert(f[a.len() - 1] == '_' || is_upper(f[a.len() - 1]));
        }
        assert(a.subrange(0, n) =~= ab.subrange(0, n));
        let a2 = a.subrange(n, a.len() as int);
        assert(ab.subrange(n, ab.len() as int) =~= a2 + b);
        assert(a2.last() == a.last());
        lemma_replace_split(a2, b, f, t);
        assert(t + (replace_spec(a2, f, t) + replace_spec(b, f, t))
            =~= (t + replace_spec(a2, f, t)) + replace_spec(b, f, t));
    } else {
        if n <= a.len() && a.subrange(0, n) == f {
            assert(ab.subrange(0, n) =~= a.subrange(0, n));
        }
        if a.len() == 1 {
            assert(ab.subrange(1, ab.len() as int) =~= b);
            assert(a.subrange(1, 1) =~= Seq::<char>::empty());
            assert(replace_spec(a, f, t) =~= seq![a[0]]);
        } else {
            let a2 = a.subrange(1, a.len() as int);
            assert(ab.subrange(1, ab.len() as int) =~= a2 + b);
            assert(a2.last() == a.last());
            lemma_replace_split(a2, b, f, t);
            assert(seq![a[0]] + (replace_spec(a2, f, t) + replace_spec(b, f, t))
                =~= (seq![a[0]] + replace_spec(a2, f, t)) + replace_spec(b, f, t));
        }
    }
}

/// Cutting after a character that no placeholder holds commutes with
/// replacing every placeholder in turn.
pub proof fn lemma_substitute_split(a: Seq<char>, b: Seq<char>, subs: Seq<(Seq<char>, Seq<char>)>, k: nat)
    requires
        placeholders_from(subs, k),
        a.len() > 0,
        outside_placeholders(a.last()),
    ensures
        substitute_from(a + b, subs, k) == substitute_from(a, subs, k) + substitute_from(b, subs, k),
    decreases subs.len() - k,
{
    if k < subs.len() {
        let (f, t) = subs[k as int];
        assert(placeholder_like(subs[k as int].0));
        lemma_replace_split(a, b, f, t);
        lemma_substitute_split(replace_spec(a, f, t), replace_spec(b, f, t), subs, k + 1);
    }
}

/// Text without a placeholder comes out of the substitutions unchanged.
pub proof fn lemma_substitute_plain(s: Seq<char>, subs: Seq<(Seq<char>, Seq<char>)>, k: nat)
    requires
        placeholders_from(subs, k),
        no_placeholder(s),
    ensures
        substitute_from(s, subs, k) == s,
    decreases subs.len() - k,
{
    if k < subs.len() {
        assert(placeholder_like(subs[k as int].0));
        lemma_replace_plain(s, subs[k as int].0, subs[k as int].1);
        lemma_substitute_plain(s, subs, k + 1);
    }
}

/// The first `f.len()` characters of `s`.
pub open spec fn prefix_as_long_as(s: Seq<char>, f: Seq<char>) -> Seq<char> {
    s.subrange(0, f.len() as int)
}

/// Whether the placeholder `f` is the text `s` begins with.
pub open spec fn begins_with(s: Seq<char>, f: Seq<char>) -> bool {
    f.len() <= s.len() && prefix_as_long_as(s, f) == f
}

/// Text that holds no placeholder stays so when followed by text that holds
/// none and does not begin with an upper-case letter or `_` and one.
pub proof fn lemma_no_placeholder_join(v: Seq<char>, w: Seq<char>)
    requires
        no_placeholder(v),
        no_placeholder(w),
        w.len() >= 1,
        !is_upper(w[0]),
        w.len() >= 2 ==> !is_upper(w[1]),
    ensures
        no_placeholder(v + w),
{
    let s = v + w;
    assert forall|i: int| 0 <= i && i + 3 <= s.len() implies !#[trigger] starts_placeholder(s, i) by {
        if i + 3 <= v.len() {
            assert(!starts_placeholder(v, i));
        } else if i >= v.len() {
            assert(!starts_placeholder(w, i - v.len()));
        }
    }
}

/// The placeholder `subs[m].0` followed by `tail` renders as its value
/// followed by `tail`, when `tail` ends with a character no placeholder
/// holds, neither `tail`, the value, nor the text after the placeholder's
/// first character holds a placeholder, and no earlier placeholder begins
/// the text.
pub proof fn lemma_substitute_piece(
    piece: Seq<char>,
    tail: Seq<char>,
    subs: Seq<(Seq<char>, Seq<char>)>,
    m: int,
    k: nat,
)
    requires
        placeholders_from(subs, k),
        k <= m < subs.len(),
        piece == subs[m].0 + tail,
        tail.len() >= 1,
        !is_upper(tail[0]),
        tail.len() >= 2 ==> !is_upper(tail[1]),
        no_placeholder(tail),
        no_placeholder(piece.drop_first()),
        no_placeholder(subs[m].1),
        forall|j: int| k <= j < m ==> !begins_with(piece, #[trigger] subs[j].0),
    ensures
        substitute_from(piece, subs, k) == subs[m].1 + tail,
    decreases m - k,
{
    let f = subs[k as int].0;
    let t = subs[k as int].1;
    assert(placeholder_like(f));
    if k < m {
        assert(!begins_with(piece, subs[k as int].0));
        lemma_replace_plain(piece.drop_first(), f, t);
        assert(seq![piece[0]] + piece.drop_first() =~= piece);
        lemma_substitute_piece(piece, tail, subs, m, k + 1);
    } else {
        let n = f.len() as int;
        assert(piece.subrange(0, n) =~= f);
        assert(piece.subrange(n, piece.len() as int) =~= tail);
        lemma_replace_plain(tail, f, t);
        lemma_no_placeholder_join(t, tail);
        lemma_substitute_plain(t + tail, subs, k + 1);
    }
}

/// A placeholder that stands in the template after a character no
/// placeholder holds, followed by `tail`, turns up in the rendered text as
/// its value followed by `tail`.
pub proof fn lemma_substitute_occurrence(
    text: Seq<char>,
    at: int,
    tail: Seq<char>,
    subs: Seq<(Seq<char>, Seq<char>)>,
    m: int,
)
    requires
        placeholders_from(subs, 0),
        0 <= m < subs.len(),
        0 < at,
        at + subs[m].0.len() + tail.len() <= text.len(),
        outside_placeholders(text[at - 1]),
        text.subrange(at, at + subs[m].0.len() + tail.len()) == subs[m].0 + tail,
        tail.len() >= 1,
        outside_placeholders(tail.last()),
        !is_upper(tail[0]),
        tail.len() >= 2 ==> !is_upper(tail[1]),
        no_placeholder(tail),
        no_placeholder((subs[m].0 + tail).drop_first()),
        no_placeholder(subs[m].1),
        forall|j: int| 0 <= j < m ==> !begins_with(subs[m].0 + tail, #[trigger] subs[j].0),
    ensures
        exists|before: Seq<char>, after: Seq<char>|
            substitute_from(text, subs, 0) == before + (subs[m].1 + tail) + after,
{
    let piece = subs[m].0 + tail;
    let end = at + piece.len();
    let head = text.subrange(0, at);
    let rest = text.subrange(end, text.len() as int);
    assert(text =~= head + (piece + rest));
    assert(head.last() == text[at - 1]);
    assert(piece.last() == tail.last());
    lemma_substitute_split(head, piece + rest, subs, 0);
    lemma_substitute_split(piece, rest, subs, 0);
    lemma_substitute_piece(piece, tail, subs, m, 0);
    let before = substitute_from(head, subs, 0);
    let after = substitute_from(rest, subs, 0);
    assert(substitute_from(text, subs, 0) =~= before + (subs[m].1 + tail) + after);
}

} // verus!
