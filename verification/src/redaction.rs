//! What redaction guarantees: once a logger has redacted a message, none of
//! its registered roots is left in it as a whole path.
use vstd::prelude::*;

use crate::diagnostics::{
    all_spellings, compare_end, dedup_folded, first_match, flatten_lines, fold_char, fold_path,
    insert_by_length, keep_nonempty, lemma_first_match_bounds, match_end, mentions_root,
    redact_with, redaction_roots, replace_from, replace_path, root_spellings, sort_longest_first,
    spec_redact,
};
use crate::paths::is_separator;

verus! {

proof fn lemma_fold_add(a: Seq<char>, b: Seq<char>)
    ensures
        fold_path(a + b) == fold_path(a) + fold_path(b),
    decreases b.len(),
{
    if b.len() == 0 {
        assert(a + b =~= a);
        assert(fold_path(a) + Seq::<char>::empty() =~= fold_path(a));
    } else {
        lemma_fold_add(a, b.drop_last());
        assert((a + b).drop_last() =~= a + b.drop_last());
        assert((a + b).last() == b.last());
        assert(fold_path(a) + (fold_path(b.drop_last()) + fold_char(b.last())) =~= (fold_path(a)
            + fold_path(b.drop_last())) + fold_char(b.last()));
    }
}

/// The length of the folded segment `h[s..k]`.
pub open spec fn folded_len(h: Seq<char>, s: int, k: int) -> int {
    fold_path(h.subrange(s, k)).len() as int
}

/// The segment `h[s..k]` ends inside the text and folds shorter than `t`.
pub open spec fn short_at(h: Seq<char>, s: int, t: Seq<char>, k: int) -> bool {
    k < h.len() && folded_len(h, s, k) < t.len()
}

/// What `compare_end` computes: the first end from `e` on where the text
/// runs out or the folded segment is long enough.
proof fn lemma_compare_end_props(h: Seq<char>, s: int, e: int, t: Seq<char>)
    ensures
        compare_end(h, s, e, t) >= e,
        forall|k: int| e <= k < compare_end(h, s, e, t) ==> #[trigger] short_at(h, s, t, k),
        compare_end(h, s, e, t) >= h.len() || folded_len(h, s, compare_end(h, s, e, t)) >= t.len(),
    decreases h.len() - e,
{
    if !(e >= h.len() || fold_path(h.subrange(s, e)).len() >= t.len()) {
        lemma_compare_end_props(h, s, e + 1, t);
        assert(short_at(h, s, t, e));
    }
}

proof fn lemma_compare_end_unique(h: Seq<char>, s: int, e: int, t: Seq<char>, c: int)
    requires
        e <= c,
        forall|k: int| e <= k < c ==> #[trigger] short_at(h, s, t, k),
        c >= h.len() || folded_len(h, s, c) >= t.len(),
    ensures
        compare_end(h, s, e, t) == c,
    decreases c - e,
{
    if e < c {
        assert(short_at(h, s, t, e));
        lemma_compare_end_unique(h, s, e + 1, t, c);
    }
}

/// The compare end from `e` on for the text and for the text from `p` on
/// correspond.
proof fn lemma_compare_end_suffix(x: Seq<char>, p: int, e: int, t: Seq<char>)
    requires
        0 <= p <= e <= x.len(),
    ensures
        compare_end(x, p, e, t) == p + compare_end(x.skip(p), 0, e - p, t),
{
    let y = x.skip(p);
    let c2 = compare_end(y, 0, e - p, t);
    lemma_compare_end_props(y, 0, e - p, t);
    let c = p + c2;
    assert forall|k: int| e <= k < c implies #[trigger] short_at(x, p, t, k) by {
        assert(short_at(y, 0, t, k - p));
        assert(y.subrange(0, k - p) =~= x.subrange(p, k));
    }
    if c2 < y.len() {
        assert(y.subrange(0, c2) =~= x.subrange(p, c));
    }
    lemma_compare_end_unique(x, p, e, t, c);
}

/// A match at `p` depends only on the text from `p` on.
proof fn lemma_match_suffix(x: Seq<char>, p: int, t: Seq<char>)
    requires
        0 <= p <= x.len(),
    ensures
        match_end(x, p, t) == match match_end(x.skip(p), 0, t) {
            Some(n) => Some(p + n),
            None => None::<int>,
        },
{
    let y = x.skip(p);
    lemma_compare_end_suffix(x, p, p, t);
    let n = compare_end(y, 0, 0, t);
    if 0 < n && n <= y.len() {
        assert(y.subrange(0, n) =~= x.subrange(p, p + n));
        if n < y.len() {
            assert(y[n] == x[p + n]);
        }
    }
}

/// A match ending before the text does depends only on its characters and
/// the one after it.
proof fn lemma_match_window(y: Seq<char>, z: Seq<char>, t: Seq<char>, n: int)
    requires
        match_end(y, 0, t) == Some(n),
        n < y.len(),
        n < z.len(),
        z.take(n + 1) == y.take(n + 1),
    ensures
        match_end(z, 0, t) == Some(n),
{
    lemma_compare_end_props(y, 0, 0, t);
    assert forall|k: int| 0 <= k < n implies #[trigger] short_at(z, 0, t, k) by {
        assert(short_at(y, 0, t, k));
        assert(z.subrange(0, k) =~= y.subrange(0, k)) by {
            assert forall|i: int| 0 <= i < k implies #[trigger] z.subrange(0, k)[i] == y.subrange(0, k)[i] by {
                assert(z.take(n + 1)[i] == y.take(n + 1)[i]);
            }
        }
    }
    assert(z.subrange(0, n) =~= y.subrange(0, n)) by {
        assert forall|i: int| 0 <= i < n implies #[trigger] z.subrange(0, n)[i] == y.subrange(0, n)[i] by {
            assert(z.take(n + 1)[i] == y.take(n + 1)[i]);
        }
    }
    assert(z[n] == y[n]) by {
        assert(z.take(n + 1)[n] == z[n]);
        assert(y.take(n + 1)[n] == y[n]);
        assert(z.take(n + 1)[n] == y.take(n + 1)[n]);
    }
    lemma_compare_end_unique(z, 0, 0, t, n);
}

/// No whole-path match of `t` starts at or after `from`.
pub open spec fn no_match_from(x: Seq<char>, from: int, t: Seq<char>) -> bool {
    forall|p: int| from <= p < x.len() ==> #[trigger] match_end(x, p, t) is None
}

proof fn lemma_first_match_none(x: Seq<char>, from: int, t: Seq<char>)
    requires
        0 <= from,
        first_match(x, from, t) is None,
    ensures
        no_match_from(x, from, t),
    decreases x.len() - from,
{
    if from < x.len() {
        lemma_first_match_none(x, from + 1, t);
    }
}

proof fn lemma_first_match_first(x: Seq<char>, from: int, t: Seq<char>)
    requires
        0 <= from,
        first_match(x, from, t) is Some,
    ensures
        forall|p: int| from <= p < first_match(x, from, t)->Some_0.0 ==> #[trigger] match_end(x, p, t) is None,
        match_end(x, first_match(x, from, t)->Some_0.0, t) == Some(first_match(x, from, t)->Some_0.1),
    decreases x.len() - from,
{
    if from < x.len() && match_end(x, from, t) is None {
        lemma_first_match_first(x, from + 1, t);
    }
}

proof fn lemma_no_match_then_first_none(x: Seq<char>, from: int, t: Seq<char>)
    requires
        0 <= from,
        no_match_from(x, from, t),
    ensures
        first_match(x, from, t) is None,
    decreases x.len() - from,
{
    if from < x.len() {
        assert(match_end(x, from, t) is None);
        lemma_no_match_then_first_none(x, from + 1, t);
    }
}

/// The placeholder cannot take part in a whole-path match of `t`: it holds
/// no separator, `t` does not contain its folded form, and no folded tail
/// of it begins `t`.
pub open spec fn placeholder_safe(rep: Seq<char>, t: Seq<char>) -> bool {
    &&& rep.len() > 0
    &&& forall|i: int| 0 <= i < rep.len() ==> !is_separator(#[trigger] rep[i])
    &&& forall|i: int|
        0 <= i && i + fold_path(rep).len() <= t.len() ==> #[trigger] t.subrange(
            i,
            i + fold_path(rep).len(),
        ) != fold_path(rep)
    &&& forall|q: int| 0 <= q < rep.len() ==> !(#[trigger] fold_path(rep.skip(q))).is_prefix_of(t)
}

/// A match in `a + rep + b` that starts before the end of `rep` starts and
/// ends within `a`.
proof fn lemma_match_touching_rep(a: Seq<char>, rep: Seq<char>, b: Seq<char>, t: Seq<char>, p: int)
    requires
        placeholder_safe(rep, t),
        0 <= p < a.len() + rep.len(),
        match_end(a + rep + b, p, t) is Some,
    ensures
        p < a.len(),
        match_end(a + rep + b, p, t)->Some_0 < a.len(),
{
    let out = a + rep + b;
    let f = match_end(out, p, t)->Some_0;
    let al = a.len() as int;
    let rl = rep.len() as int;
    assert(p < f && f <= out.len());
    assert(fold_path(out.subrange(p, f)) == t);
    assert(f == out.len() || is_separator(out[f]));
    if al <= f && f < al + rl {
        assert(out[f] == rep[f - al]);
    }
    if p >= al {
        let q = p - al;
        assert(f >= al + rl);
        assert(out.subrange(p, f) =~= rep.skip(q) + out.subrange(al + rl, f));
        lemma_fold_add(rep.skip(q), out.subrange(al + rl, f));
        assert(fold_path(rep.skip(q)).is_prefix_of(t)) by {
            assert(fold_path(rep.skip(q)) =~= t.subrange(0, fold_path(rep.skip(q)).len() as int));
        }
        assert(false);
    } else if f >= al + rl {
        let pre = out.subrange(p, al);
        let post = out.subrange(al + rl, f);
        assert(out.subrange(p, f) =~= pre + rep + post);
        lemma_fold_add(pre + rep, post);
        lemma_fold_add(pre, rep);
        let i = fold_path(pre).len() as int;
        assert(t.subrange(i, i + fold_path(rep).len()) =~= fold_path(rep));
        assert(false);
    }
}

/// Replacing the matches of `t2` keeps a text free of matches of `t` where
/// every match of `t` it had was also one of `t2`.
proof fn lemma_replace_leaves_no_match(
    x: Seq<char>,
    from: int,
    t2: Seq<char>,
    rep: Seq<char>,
    t: Seq<char>,
)
    requires
        0 <= from <= x.len(),
        placeholder_safe(rep, t),
        forall|p: int| from <= p < x.len() && #[trigger] match_end(x, p, t) is Some ==> match_end(x, p, t2) is Some,
    ensures
        no_match_from(replace_from(x, from, t2, rep), 0, t),
    decreases x.len() - from,
{
    let out = replace_from(x, from, t2, rep);
    match first_match(x, from, t2) {
        None => {
            assert(out == x.subrange(from, x.len() as int));
            lemma_first_match_none(x, from, t2);
            assert forall|p: int| 0 <= p < out.len() implies #[trigger] match_end(out, p, t) is None by {
                lemma_match_suffix(out, p, t);
                lemma_match_suffix(x, from + p, t);
                assert(out.skip(p) =~= x.skip(from + p));
                assert(match_end(x, from + p, t2) is None);
            }
        },
        Some((s, e)) => {
            lemma_first_match_bounds(x, from, t2);
            lemma_first_match_first(x, from, t2);
            let seg = x.subrange(from, s);
            let rest = replace_from(x, e, t2, rep);
            assert(out == seg + rep + rest);
            lemma_replace_leaves_no_match(x, e, t2, rep, t);
            assert forall|p: int| 0 <= p < out.len() implies #[trigger] match_end(out, p, t) is None by {
                if match_end(out, p, t) is Some {
                    if p < seg.len() + rep.len() {
                        lemma_match_touching_rep(seg, rep, rest, t, p);
                        let f = match_end(out, p, t)->Some_0;
                        lemma_match_suffix(out, p, t);
                        lemma_match_suffix(x, from + p, t);
                        let n = f - p;
                        let y = out.skip(p);
                        let z = x.skip(from + p);
                        assert(z.take(n + 1) =~= y.take(n + 1)) by {
                            assert forall|i: int| 0 <= i < n + 1 implies #[trigger] z.take(n + 1)[i] == y.take(n + 1)[i] by {
                                assert(out[p + i] == seg[p + i]);
                            }
                        }
                        lemma_match_window(y, z, t, n);
                        assert(match_end(x, from + p, t) is Some);
                        assert(match_end(x, from + p, t2) is None);
                        assert(false);
                    } else {
                        let k = (seg.len() + rep.len()) as int;
                        lemma_match_suffix(out, p, t);
                        lemma_match_suffix(rest, p - k, t);
                        assert(out.skip(p) =~= rest.skip(p - k));
                        assert(match_end(rest, p - k, t) is None);
                        assert(false);
                    }
                }
            }
        },
    }
}


/// The placeholder that redaction writes in place of a registered root.
pub open spec fn root_placeholder() -> Seq<char> {
    "[REGISTERED_ROOT]"@
}

proof fn lemma_placeholder_has_no_separator()
    ensures
        forall|i: int| 0 <= i < root_placeholder().len() ==> !is_separator(#[trigger] root_placeholder()[i]),
        root_placeholder().len() > 0,
{
    reveal_strlit("[REGISTERED_ROOT]");
}

/// Whether the placeholder can never become part of a whole-path occurrence
/// of the root: the root's folded form neither contains the folded
/// placeholder nor begins with a folded tail of it.
pub open spec fn root_apart_from_placeholder(root: Seq<char>) -> bool {
    let t = fold_path(root);
    let rep = root_placeholder();
    &&& forall|i: int|
        0 <= i && i + fold_path(rep).len() <= t.len() ==> #[trigger] t.subrange(
            i,
            i + fold_path(rep).len(),
        ) != fold_path(rep)
    &&& forall|q: int| 0 <= q < rep.len() ==> !(#[trigger] fold_path(rep.skip(q))).is_prefix_of(t)
}

proof fn lemma_redact_with_leaves_no_root(s: Seq<char>, roots: Seq<Seq<char>>)
    requires
        forall|i: int| 0 <= i < roots.len() ==> root_apart_from_placeholder(#[trigger] roots[i]),
    ensures
        forall|i: int|
            0 <= i < roots.len() ==> no_match_from(redact_with(s, roots), 0, fold_path(#[trigger] roots[i])),
    decreases roots.len(),
{
    if roots.len() > 0 {
        let init = roots.drop_last();
        assert forall|i: int| 0 <= i < init.len() implies root_apart_from_placeholder(#[trigger] init[i]) by {
            assert(init[i] == roots[i]);
        }
        lemma_redact_with_leaves_no_root(s, init);
        lemma_placeholder_has_no_separator();
        let inner = redact_with(s, init);
        let last = roots.last();
        let t2 = fold_path(last);
        let out = redact_with(s, roots);
        assert(out == replace_path(inner, last, root_placeholder()));
        assert forall|i: int| 0 <= i < roots.len() implies no_match_from(out, 0, fold_path(#[trigger] roots[i])) by {
            let t = fold_path(roots[i]);
            assert(root_apart_from_placeholder(roots[i]));
            assert(placeholder_safe(root_placeholder(), t));
            if i < init.len() {
                assert(init[i] == roots[i]);
                assert(no_match_from(inner, 0, t));
                if last.len() > 0 {
                    lemma_replace_leaves_no_match(inner, 0, t2, root_placeholder(), t);
                }
            } else {
                if last.len() > 0 {
                    lemma_replace_leaves_no_match(inner, 0, t2, root_placeholder(), t2);
                } else {
                    assert(t =~= Seq::<char>::empty());
                    assert forall|p: int| 0 <= p < out.len() implies #[trigger] match_end(out, p, t) is None by {
                        lemma_compare_end_props(out, p, p, t);
                        assert(folded_len(out, p, p) == 0) by {
                            assert(out.subrange(p, p) =~= Seq::<char>::empty());
                        }
                    }
                }
            }
        }
    }
}

/// No redacted root survives: once a message is redacted, none of the roots
/// the logger redacts is left in it as a whole path, compared as Windows
/// compares paths. This holds of every root whose folded form neither
/// contains the folded placeholder nor begins with a folded tail of it
/// (a root such as `t]` does begin with one, and survives).
pub proof fn law_no_redacted_root_survives(message: Seq<char>, roots: Seq<Seq<char>>)
    requires
        forall|i: int| 0 <= i < roots.len() ==> root_apart_from_placeholder(#[trigger] roots[i]),
    ensures
        forall|i: int|
            0 <= i < roots.len() ==> !mentions_root(spec_redact(message, roots), #[trigger] roots[i]),
{
    lemma_redact_with_leaves_no_root(flatten_lines(message), roots);
    assert forall|i: int| 0 <= i < roots.len() implies !mentions_root(
        spec_redact(message, roots),
        #[trigger] roots[i],
    ) by {
        assert(no_match_from(spec_redact(message, roots), 0, fold_path(roots[i])));
        lemma_no_match_then_first_none(spec_redact(message, roots), 0, fold_path(roots[i]));
    }
}

proof fn lemma_keep_nonempty_has(s: Seq<Seq<char>>, x: Seq<char>)
    requires
        s.contains(x),
        x.len() > 0,
    ensures
        keep_nonempty(s).contains(x),
    decreases s.len(),
{
    if s.last() == x {
        assert(keep_nonempty(s) == keep_nonempty(s.drop_last()).push(x));
        assert(keep_nonempty(s)[keep_nonempty(s).len() - 1] == x);
    } else {
        let k = choose|k: int| 0 <= k < s.len() && s[k] == x;
        assert(k < s.len() - 1);
        assert(s.drop_last()[k] == x);
        lemma_keep_nonempty_has(s.drop_last(), x);
        let inner = keep_nonempty(s.drop_last());
        let m = choose|m: int| 0 <= m < inner.len() && inner[m] == x;
        if s.last().len() > 0 {
            assert(keep_nonempty(s)[m] == x);
        }
    }
}

proof fn lemma_all_spellings_has(roots: Seq<Seq<char>>, i: int)
    requires
        0 <= i < roots.len(),
        roots[i].len() > 0,
    ensures
        all_spellings(roots).contains(roots[i]),
    decreases roots.len(),
{
    let init = all_spellings(roots.drop_last());
    let own = keep_nonempty(root_spellings(roots.last()));
    if i == roots.len() - 1 {
        assert(root_spellings(roots.last())[0] == roots[i]);
        lemma_keep_nonempty_has(root_spellings(roots.last()), roots[i]);
        let m = choose|m: int| 0 <= m < own.len() && own[m] == roots[i];
        assert((init + own)[init.len() + m] == roots[i]);
    } else {
        assert(roots.drop_last()[i] == roots[i]);
        lemma_all_spellings_has(roots.drop_last(), i);
        let m = choose|m: int| 0 <= m < init.len() && init[m] == roots[i];
        assert((init + own)[m] == roots[i]);
    }
}

proof fn lemma_insert_by_length_has(list: Seq<Seq<char>>, e: Seq<char>, x: Seq<char>)
    requires
        list.contains(x) || x == e,
    ensures
        insert_by_length(list, e).contains(x),
    decreases list.len(),
{
    let r = insert_by_length(list, e);
    if list.len() == 0 {
        assert(r[0] == e);
    } else if list[0].len() < e.len() {
        if x == e {
            assert(r[0] == e);
        } else {
            let k = choose|k: int| 0 <= k < list.len() && list[k] == x;
            assert(r[k + 1] == x);
        }
    } else {
        if x == list[0] {
            assert(r[0] == x);
        } else {
            if x != e {
                let k = choose|k: int| 0 <= k < list.len() && list[k] == x;
                assert(list.drop_first()[k - 1] == x);
            }
            lemma_insert_by_length_has(list.drop_first(), e, x);
            let inner = insert_by_length(list.drop_first(), e);
            let m = choose|m: int| 0 <= m < inner.len() && inner[m] == x;
            assert(r[m + 1] == x);
        }
    }
}

proof fn lemma_sort_has(s: Seq<Seq<char>>, x: Seq<char>)
    requires
        s.contains(x),
    ensures
        sort_longest_first(s).contains(x),
    decreases s.len(),
{
    let sorted_init = sort_longest_first(s.drop_last());
    if s.last() == x {
        lemma_insert_by_length_has(sorted_init, s.last(), x);
    } else {
        let k = choose|k: int| 0 <= k < s.len() && s[k] == x;
        assert(s.drop_last()[k] == x);
        lemma_sort_has(s.drop_last(), x);
        lemma_insert_by_length_has(sorted_init, s.last(), x);
    }
}

proof fn lemma_dedup_keeps_fold(s: Seq<Seq<char>>, x: Seq<char>)
    requires
        s.contains(x),
    ensures
        exists|y: Seq<char>| #[trigger] dedup_folded(s).contains(y) && fold_path(y) == fold_path(x),
    decreases s.len(),
{
    let d = dedup_folded(s);
    if s.len() <= 1 {
        assert(d == s);
        assert(d.contains(x));
    } else {
        let init = s.drop_last();
        let di = dedup_folded(init);
        if s.last() == x {
            if fold_path(s.last()) == fold_path(s[s.len() - 2]) {
                assert(init.contains(s[s.len() - 2])) by {
                    assert(init[s.len() - 2] == s[s.len() - 2]);
                }
                lemma_dedup_keeps_fold(init, s[s.len() - 2]);
                let y = choose|y: Seq<char>| #[trigger] di.contains(y) && fold_path(y) == fold_path(s[s.len() - 2]);
                assert(d.contains(y));
            } else {
                assert(d == di.push(x));
                assert(d[di.len() as int] == x);
                assert(d.contains(x));
            }
        } else {
            let k = choose|k: int| 0 <= k < s.len() && s[k] == x;
            assert(init[k] == x);
            lemma_dedup_keeps_fold(init, x);
            let y = choose|y: Seq<char>| #[trigger] di.contains(y) && fold_path(y) == fold_path(x);
            let m = choose|m: int| 0 <= m < di.len() && di[m] == y;
            if fold_path(s.last()) != fold_path(s[s.len() - 2]) {
                assert(d == di.push(s.last()));
                assert(d[m] == y);
            }
            assert(d.contains(y));
        }
    }
}

/// Every non-empty registered root is redacted: the logger redacts a
/// spelling that folds to the same path.
pub proof fn lemma_registered_root_is_redacted(registered: Seq<Seq<char>>, i: int)
    requires
        0 <= i < registered.len(),
        registered[i].len() > 0,
    ensures
        exists|y: Seq<char>| #[trigger] redaction_roots(registered).contains(y) && fold_path(y)
            == fold_path(registered[i]),
{
    lemma_all_spellings_has(registered, i);
    lemma_sort_has(all_spellings(registered), registered[i]);
    let sorted = sort_longest_first(all_spellings(registered));
    lemma_dedup_keeps_fold(sorted, registered[i]);
    let y = choose|y: Seq<char>| #[trigger] dedup_folded(sorted).contains(y) && fold_path(y) == fold_path(registered[i]);
    assert(redaction_roots(registered) == dedup_folded(sorted));
    assert(redaction_roots(registered).contains(y));
}

proof fn lemma_empty_target_never_matches(h: Seq<char>, t: Seq<char>)
    requires
        t.len() == 0,
    ensures
        first_match(h, 0, t) is None,
{
    assert forall|p: int| 0 <= p < h.len() implies #[trigger] match_end(h, p, t) is None by {
        lemma_compare_end_props(h, p, p, t);
        assert(folded_len(h, p, p) == 0) by {
            assert(h.subrange(p, p) =~= Seq::<char>::empty());
        }
    }
    lemma_no_match_then_first_none(h, 0, t);
}

/// No registered root survives a logger's redaction: once a message is
/// redacted, no non-empty registered root is left in it as a whole path,
/// compared as Windows compares paths. This holds where none of the
/// spellings the logger redacts can take part in an occurrence together
/// with the placeholder (see `root_apart_from_placeholder`).
pub proof fn law_no_registered_root_survives(message: Seq<char>, registered: Seq<Seq<char>>)
    requires
        forall|i: int|
            0 <= i < redaction_roots(registered).len() ==> root_apart_from_placeholder(
                #[trigger] redaction_roots(registered)[i],
            ),
    ensures
        forall|i: int|
            0 <= i < registered.len() ==> !mentions_root(
                spec_redact(message, redaction_roots(registered)),
                #[trigger] registered[i],
            ),
{
    let roots = redaction_roots(registered);
    law_no_redacted_root_survives(message, roots);
    assert forall|i: int| 0 <= i < registered.len() implies !mentions_root(
        spec_redact(message, roots),
        #[trigger] registered[i],
    ) by {
        if registered[i].len() > 0 {
            lemma_registered_root_is_redacted(registered, i);
            let y = choose|y: Seq<char>| #[trigger] roots.contains(y) && fold_path(y) == fold_path(registered[i]);
            let k = choose|k: int| 0 <= k < roots.len() && roots[k] == y;
            let out = spec_redact(message, roots);
            assert(!mentions_root(out, roots[k]));
            if y.len() == 0 {
                assert(fold_path(y) =~= Seq::<char>::empty());
                lemma_empty_target_never_matches(out, fold_path(registered[i]));
            }
            assert(first_match(out, 0, fold_path(registered[i])) is None);
        }
    }
}
} // verus!
