//! Filling `{{name}}` placeholders all at once, and when filling them one
//! after another gives the same text.
use vstd::prelude::*;
use crate::text::{occurs_at, replace_all, starts_with};

verus! {

/// The first of the nonempty patterns `pats` that `s` begins with.
pub open spec fn first_match(s: Seq<char>, pats: Seq<Seq<char>>) -> Option<int>
    decreases pats.len(),
{
    if pats.len() == 0 {
        None
    } else {
        match first_match(s, pats.drop_last()) {
            Some(j) => Some(j),
            None => if pats.last().len() > 0 && starts_with(s, pats.last()) {
                Some(pats.len() - 1)
            } else {
                None
            },
        }
    }
}

/// `s` with every pattern of `pats` replaced by the value of the same
/// position in `vals`, all in one left-to-right pass: where several
/// patterns begin, the first of them is replaced, and replaced text is not
/// looked at again.
pub open spec fn substitute_all(s: Seq<char>, pats: Seq<Seq<char>>, vals: Seq<Seq<char>>) -> Seq<char>
    decreases s.len(),
{
    if s.len() == 0 {
        Seq::empty()
    } else {
        match first_match(s, pats) {
            Some(j) => if 0 <= j < pats.len() && 0 < pats[j].len() <= s.len() {
                vals[j] + substitute_all(s.skip(pats[j].len() as int), pats, vals)
            } else {
                seq![s[0]] + substitute_all(s.skip(1), pats, vals)
            },
            None => seq![s[0]] + substitute_all(s.skip(1), pats, vals),
        }
    }
}

/// `s` with the first `k` patterns replaced one after another, each in
/// the text the previous replacements left.
pub open spec fn replace_each(s: Seq<char>, pats: Seq<Seq<char>>, vals: Seq<Seq<char>>, k: nat) -> Seq<
    char,
>
    decreases k,
{
    if k == 0 {
        s
    } else {
        replace_all(replace_each(s, pats, vals, (k - 1) as nat), pats[k - 1], vals[k - 1])
    }
}

/// Each pattern reads `{{`, then at least one character that is neither
/// brace, then `}}`.
pub open spec fn placeholder_like(p: Seq<char>) -> bool {
    &&& p.len() >= 5
    &&& p[0] == '{' && p[1] == '{'
    &&& p[p.len() - 1] == '}' && p[p.len() - 2] == '}'
    &&& forall|i: int| 2 <= i < p.len() - 2 ==> #[trigger] p[i] != '{' && p[i] != '}'
}

/// The patterns are placeholders, no two alike.
pub open spec fn placeholder_set(pats: Seq<Seq<char>>) -> bool {
    &&& forall|j: int| 0 <= j < pats.len() ==> placeholder_like(#[trigger] pats[j])
    &&& forall|a: int, b: int| 0 <= a < pats.len() && 0 <= b < pats.len() && a != b ==> #[trigger] pats[a]
        != #[trigger] pats[b]
}

/// No `{` occurs in `v`.
pub open spec fn brace_free(v: Seq<char>) -> bool {
    forall|i: int| 0 <= i < v.len() ==> #[trigger] v[i] != '{'
}

/// Every `{{` in `s` begins one of the patterns.
pub open spec fn braces_open_patterns(s: Seq<char>, pats: Seq<Seq<char>>) -> bool {
    forall|i: int|
        0 <= i < s.len() - 1 && #[trigger] s[i] == '{' && s[i + 1] == '{' ==> exists|j: int|
            0 <= j < pats.len() && #[trigger] occurs_at(s, pats[j], i)
}

pub proof fn lemma_first_match(s: Seq<char>, pats: Seq<Seq<char>>)
    ensures
        match first_match(s, pats) {
            Some(j) => 0 <= j < pats.len() && pats[j].len() > 0 && starts_with(s, pats[j]) && forall|
                i: int,
            |
                0 <= i < j ==> !(#[trigger] pats[i].len() > 0 && starts_with(s, pats[i])),
            None => forall|i: int|
                0 <= i < pats.len() ==> !(#[trigger] pats[i].len() > 0 && starts_with(s, pats[i])),
        },
    decreases pats.len(),
{
    if pats.len() > 0 {
        lemma_first_match(s, pats.drop_last());
        assert forall|i: int| 0 <= i < pats.len() - 1 implies #[trigger] pats[i] == pats.drop_last()[i] by {}
    }
}

/// Where the first `k + 1` patterns are tried, the first match is that of
/// the first `k`, else pattern `k` if it matches.
pub proof fn lemma_first_match_take(s: Seq<char>, pats: Seq<Seq<char>>, k: int)
    requires
        0 <= k < pats.len(),
    ensures
        first_match(s, pats.take(k + 1)) == (match first_match(s, pats.take(k)) {
            Some(j) => Some(j),
            None => if pats[k].len() > 0 && starts_with(s, pats[k]) {
                Some(k)
            } else {
                None
            },
        }),
{
    assert(pats.take(k + 1).drop_last() =~= pats.take(k));
}

/// No placeholder begins where the text does not begin with `{{`.
pub proof fn lemma_no_match(u: Seq<char>, pats: Seq<Seq<char>>)
    requires
        placeholder_set(pats),
        u.len() < 2 || u[0] != '{' || u[1] != '{',
    ensures
        first_match(u, pats) is None,
{
    lemma_first_match(u, pats);
    if let Some(j) = first_match(u, pats) {
        assert(placeholder_like(pats[j]));
        assert(u.subrange(0, pats[j].len() as int)[0] == u[0]);
        assert(u.subrange(0, pats[j].len() as int)[1] == u[1]);
    }
}

/// Text in which no pattern begins at any of the first `m` positions is
/// kept as it is up to there.
pub proof fn lemma_pass_through(t: Seq<char>, pats: Seq<Seq<char>>, vals: Seq<Seq<char>>, m: int)
    requires
        0 <= m <= t.len(),
        forall|i: int| 0 <= i < m ==> (#[trigger] first_match(t.skip(i), pats)) is None,
    ensures
        substitute_all(t, pats, vals) == t.take(m) + substitute_all(t.skip(m), pats, vals),
    decreases m,
{
    if m > 0 {
        assert(t.skip(0) =~= t);
        assert(first_match(t.skip(0), pats) is None);
        let t1 = t.skip(1);
        assert forall|i: int| 0 <= i < m - 1 implies (#[trigger] first_match(t1.skip(i), pats)) is None by {
            assert(t1.skip(i) =~= t.skip(i + 1));
            assert(first_match(t.skip(i + 1), pats) is None);
        }
        lemma_pass_through(t1, pats, vals, m - 1);
        assert(t1.skip(m - 1) =~= t.skip(m));
        assert(t.take(m) =~= seq![t[0]] + t1.take(m - 1));
    } else {
        assert(t.take(0) =~= Seq::<char>::empty());
        assert(t.skip(0) =~= t);
    }
}

/// Inside a placeholder that begins text `t`, past its first character, no
/// placeholder begins.
pub proof fn lemma_inside_placeholder(t: Seq<char>, p: Seq<char>, pats: Seq<Seq<char>>, i: int)
    requires
        placeholder_set(pats),
        placeholder_like(p),
        starts_with(t, p),
        1 <= i < p.len(),
    ensures
        first_match(t.skip(i), pats) is None,
{
    assert(t.subrange(0, p.len() as int) == p);
    let u = t.skip(i);
    if i == 1 {
        assert(u[1] == t[2]);
        assert(t[2] == p[2]);
    } else if i < p.len() - 2 {
        assert(u[0] == t[i]);
        assert(t[i] == p[i]);
    } else {
        assert(u[0] == t[i]);
        assert(t[i] == p[i]);
    }
    lemma_no_match(u, pats);
}

/// Text that begins with a placeholder keeps it whole under the
/// substitution of patterns that do not match there.
pub proof fn lemma_keeps_placeholder(
    t: Seq<char>,
    p: Seq<char>,
    pats: Seq<Seq<char>>,
    vals: Seq<Seq<char>>,
)
    requires
        placeholder_set(pats),
        placeholder_like(p),
        starts_with(t, p),
        first_match(t, pats) is None,
    ensures
        substitute_all(t, pats, vals) == p + substitute_all(t.skip(p.len() as int), pats, vals),
{
    assert forall|i: int| 0 <= i < p.len() implies (#[trigger] first_match(t.skip(i), pats)) is None by {
        if i == 0 {
            assert(t.skip(0) =~= t);
        } else {
            lemma_inside_placeholder(t, p, pats, i);
        }
    }
    lemma_pass_through(t, pats, vals, p.len() as int);
    assert(t.take(p.len() as int) =~= t.subrange(0, p.len() as int));
}

/// Replacing in text that begins with brace-free text leaves that text.
pub proof fn lemma_replace_after_plain(a: Seq<char>, b: Seq<char>, p: Seq<char>, v: Seq<char>)
    requires
        brace_free(a),
        p.len() > 0,
        p[0] == '{',
    ensures
        replace_all(a + b, p, v) == a + replace_all(b, p, v),
    decreases a.len(),
{
    if a.len() > 0 {
        let s = a + b;
        assert(s[0] == a[0]);
        assert(!starts_with(s, p)) by {
            if starts_with(s, p) {
                assert(s.subrange(0, p.len() as int)[0] == s[0]);
            }
        }
        assert(s.skip(1) =~= a.skip(1) + b);
        lemma_replace_after_plain(a.skip(1), b, p, v);
        assert(a =~= seq![a[0]] + a.skip(1));
    } else {
        assert(a + b =~= b);
    }
}

/// Every `{{` of a tail of `s` still begins a pattern.
pub proof fn lemma_braces_skip(s: Seq<char>, pats: Seq<Seq<char>>, n: int)
    requires
        braces_open_patterns(s, pats),
        0 <= n <= s.len(),
    ensures
        braces_open_patterns(s.skip(n), pats),
{
    let t = s.skip(n);
    assert forall|i: int| 0 <= i < t.len() - 1 && #[trigger] t[i] == '{' && t[i + 1] == '{' implies exists|j: int|
        0 <= j < pats.len() && #[trigger] occurs_at(t, pats[j], i) by {
        assert(s[n + i] == t[i]);
        assert(s[n + i + 1] == t[i + 1]);
        let j = choose|j: int| 0 <= j < pats.len() && #[trigger] occurs_at(s, pats[j], n + i);
        assert(t.subrange(i, i + pats[j].len()) =~= s.subrange(n + i, n + i + pats[j].len()));
        assert(occurs_at(t, pats[j], i));
    }
}

/// Two different placeholders: text that begins with one does not begin
/// with the other.
pub proof fn lemma_placeholders_exclusive(t: Seq<char>, a: Seq<char>, b: Seq<char>)
    requires
        placeholder_like(a),
        placeholder_like(b),
        a != b,
        starts_with(t, a),
    ensures
        !starts_with(t, b),
{
    if starts_with(t, b) {
        assert(t.subrange(0, a.len() as int) == a);
        assert(t.subrange(0, b.len() as int) == b);
        if a.len() < b.len() {
            assert(b[a.len() - 1] == t[a.len() - 1]);
            assert(a[a.len() - 1] == t[a.len() - 1]);
            assert(b[a.len() - 1] != '}');
        } else if b.len() < a.len() {
            assert(a[b.len() - 1] == t[b.len() - 1]);
            assert(b[b.len() - 1] == t[b.len() - 1]);
            assert(a[b.len() - 1] != '}');
        } else {
            assert(a =~= b) by {
                assert forall|i: int| 0 <= i < a.len() implies a[i] == b[i] by {
                    assert(a[i] == t[i]);
                    assert(b[i] == t[i]);
                }
            }
        }
    }
}

/// Replacing pattern `k` in the text where the first `k` patterns were
/// filled in all at once gives the text where the first `k + 1` are.
pub proof fn lemma_replace_next(s: Seq<char>, pats: Seq<Seq<char>>, vals: Seq<Seq<char>>, k: int)
    requires
        placeholder_set(pats),
        vals.len() == pats.len(),
        forall|j: int| 0 <= j < vals.len() ==> brace_free(#[trigger] vals[j]),
        braces_open_patterns(s, pats),
        0 <= k < pats.len(),
    ensures
        replace_all(substitute_all(s, pats.take(k), vals.take(k)), pats[k], vals[k]) == substitute_all(
            s,
            pats.take(k + 1),
            vals.take(k + 1),
        ),
    decreases s.len(),
{
    let a = pats.take(k);
    let b = vals.take(k);
    let a1 = pats.take(k + 1);
    let b1 = vals.take(k + 1);
    let p = pats[k];
    let v = vals[k];
    assert(placeholder_like(p));
    assert(placeholder_set(a)) by {
        assert forall|x: int, y: int| 0 <= x < a.len() && 0 <= y < a.len() && x != y implies #[trigger] a[x]
            != #[trigger] a[y] by {
            assert(a[x] == pats[x]);
            assert(a[y] == pats[y]);
        }
        assert forall|j: int| 0 <= j < a.len() implies placeholder_like(#[trigger] a[j]) by {
            assert(a[j] == pats[j]);
        }
    }
    if s.len() == 0 {
        assert(substitute_all(s, a, b) == Seq::<char>::empty());
        assert(substitute_all(s, a1, b1) == Seq::<char>::empty());
        assert(replace_all(Seq::<char>::empty(), p, v) == Seq::<char>::empty());
    } else {
        lemma_first_match(s, a);
        lemma_first_match(s, pats);
        lemma_first_match_take(s, pats, k);
        match first_match(s, a) {
            Some(j) => {
                assert(a[j] == pats[j]);
                assert(a1[j] == pats[j]);
                assert(b[j] == vals[j]);
                assert(b1[j] == vals[j]);
                assert(pats[j].len() <= s.len());
                let rest = s.skip(pats[j].len() as int);
                lemma_braces_skip(s, pats, pats[j].len() as int);
                lemma_replace_next(rest, pats, vals, k);
                lemma_replace_after_plain(vals[j], substitute_all(rest, a, b), p, v);
            },
            None => {
                if starts_with(s, p) {
                    assert(a1[k] == p);
                    assert(b1[k] == v);
                    assert(p.len() <= s.len());
                    let rest = s.skip(p.len() as int);
                    lemma_keeps_placeholder(s, p, a, b);
                    let x = substitute_all(rest, a, b);
                    assert((p + x).subrange(0, p.len() as int) =~= p);
                    assert((p + x).skip(p.len() as int) =~= x);
                    lemma_braces_skip(s, pats, p.len() as int);
                    lemma_replace_next(rest, pats, vals, k);
                } else {
                    assert(first_match(s, a1) is None);
                    let y = substitute_all(s.skip(1), a, b);
                    assert(substitute_all(s, a, b) == seq![s[0]] + y);
                    assert(!starts_with(seq![s[0]] + y, p)) by {
                        if s[0] == '{' && s.len() >= 2 && s[1] == '{' {
                            assert(s[0int] == '{' && s[0int + 1] == '{');
                            let j = choose|j: int| 0 <= j < pats.len() && #[trigger] occurs_at(s, pats[j], 0);
                            assert(starts_with(s, pats[j]));
                            assert(placeholder_like(pats[j]));
                            if j < k {
                                assert(a[j] == pats[j]);
                                assert(false);
                            }
                            assert(j != k);
                            assert(pats[j] != p);
                            lemma_keeps_placeholder(s, pats[j], a, b);
                            let w = substitute_all(s.skip(pats[j].len() as int), a, b);
                            assert((pats[j] + w).subrange(0, pats[j].len() as int) =~= pats[j]);
                            lemma_placeholders_exclusive(pats[j] + w, pats[j], p);
                        } else if s[0] == '{' && s.len() >= 2 {
                            lemma_no_match(s.skip(1), a);
                            assert(y == seq![s.skip(1)[0]] + substitute_all(s.skip(1).skip(1), a, b));
                            if starts_with(seq![s[0]] + y, p) {
                                assert((seq![s[0]] + y).subrange(0, p.len() as int)[1] == y[0]);
                            }
                        } else if s[0] != '{' {
                            if starts_with(seq![s[0]] + y, p) {
                                assert((seq![s[0]] + y).subrange(0, p.len() as int)[0] == s[0]);
                            }
                        } else {
                            assert(s.len() == 1);
                            assert(s.skip(1).len() == 0);
                            assert(y == Seq::<char>::empty());
                        }
                    }
                    assert((seq![s[0]] + y).skip(1) =~= y);
                    lemma_braces_skip(s, pats, 1);
                    lemma_replace_next(s.skip(1), pats, vals, k);
                }
            },
        }
    }
}

/// With no patterns, the text is kept.
pub proof fn lemma_substitute_none(s: Seq<char>, vals: Seq<Seq<char>>)
    ensures
        substitute_all(s, Seq::empty(), vals) == s,
    decreases s.len(),
{
    if s.len() > 0 {
        lemma_substitute_none(s.skip(1), vals);
        assert(s =~= seq![s[0]] + s.skip(1));
    }
}

/// Placeholders filled one after another give the text they give filled
/// all at once, when each `{{` of the text begins a placeholder and no
/// value holds a `{`.
pub proof fn law_one_by_one_is_all_at_once(s: Seq<char>, pats: Seq<Seq<char>>, vals: Seq<Seq<char>>, k: nat)
    requires
        placeholder_set(pats),
        vals.len() == pats.len(),
        forall|j: int| 0 <= j < vals.len() ==> brace_free(#[trigger] vals[j]),
        braces_open_patterns(s, pats),
        k <= pats.len(),
    ensures
        replace_each(s, pats, vals, k) == substitute_all(s, pats.take(k as int), vals.take(k as int)),
    decreases k,
{
    if k == 0 {
        assert(pats.take(0) =~= Seq::<Seq<char>>::empty());
        lemma_substitute_none(s, vals.take(0));
    } else {
        law_one_by_one_is_all_at_once(s, pats, vals, (k - 1) as nat);
        lemma_replace_next(s, pats, vals, k - 1);
    }
}

} // verus!
