use vstd::prelude::*;
use vstd::string::*;

verus! {

/// The order of texts: lexicographic by code point, a proper prefix first.
/// It is the order of their UTF-8 bytes, which is how `String` compares.
pub open spec fn text_lt(a: Seq<char>, b: Seq<char>) -> bool
    decreases a.len(),
{
    if b.len() == 0 {
        false
    } else if a.len() == 0 {
        true
    } else if a[0] == b[0] {
        text_lt(a.drop_first(), b.drop_first())
    } else {
        (a[0] as int) < (b[0] as int)
    }
}

pub proof fn lemma_text_lt_irreflexive(a: Seq<char>)
    ensures
        !text_lt(a, a),
    decreases a.len(),
{
    if a.len() > 0 {
        lemma_text_lt_irreflexive(a.drop_first());
    }
}

pub proof fn lemma_text_lt_transitive(a: Seq<char>, b: Seq<char>, c: Seq<char>)
    requires
        text_lt(a, b),
        text_lt(b, c),
    ensures
        text_lt(a, c),
    decreases a.len(),
{
    if a.len() > 0 && b.len() > 0 && c.len() > 0 {
        if a[0] == b[0] && b[0] == c[0] {
            lemma_text_lt_transitive(a.drop_first(), b.drop_first(), c.drop_first());
        }
    }
}

pub proof fn lemma_text_lt_total(a: Seq<char>, b: Seq<char>)
    requires
        a != b,
    ensures
        text_lt(a, b) || text_lt(b, a),
    decreases a.len(),
{
    if a.len() > 0 && b.len() > 0 {
        if a[0] == b[0] {
            if a.drop_first() == b.drop_first() {
                assert(a =~= seq![a[0]] + a.drop_first());
                assert(b =~= seq![b[0]] + b.drop_first());
            }
            lemma_text_lt_total(a.drop_first(), b.drop_first());
        } else {
            assert((a[0] as int) != (b[0] as int));
        }
    } else if a.len() == 0 && b.len() == 0 {
        assert(a =~= b);
    }
}

pub proof fn lemma_text_lt_asymmetric(a: Seq<char>, b: Seq<char>)
    requires
        text_lt(a, b),
    ensures
        !text_lt(b, a),
{
    if text_lt(b, a) {
        lemma_text_lt_transitive(a, b, a);
        lemma_text_lt_irreflexive(a);
    }
}

/// Comparing from a common prefix on is comparing the whole texts.
proof fn lemma_text_lt_skip(a: Seq<char>, b: Seq<char>, i: int)
    requires
        0 <= i <= a.len(),
        i <= b.len(),
        a.take(i) == b.take(i),
    ensures
        text_lt(a, b) == text_lt(a.skip(i), b.skip(i)),
    decreases i,
{
    if i > 0 {
        assert(a[0] == a.take(i)[0]);
        assert(b[0] == b.take(i)[0]);
        assert(a.drop_first().take(i - 1) =~= a.take(i).drop_first());
        assert(b.drop_first().take(i - 1) =~= b.take(i).drop_first());
        lemma_text_lt_skip(a.drop_first(), b.drop_first(), i - 1);
        assert(a.drop_first().skip(i - 1) =~= a.skip(i));
        assert(b.drop_first().skip(i - 1) =~= b.skip(i));
    } else {
        assert(a.skip(0) =~= a);
        assert(b.skip(0) =~= b);
    }
}

/// Whether `a` comes before `b` in the order of texts.
pub fn text_less(a: &str, b: &str) -> (r: bool)
    ensures
        r == text_lt(a@, b@),
{
    let na = a.unicode_len();
    let nb = b.unicode_len();
    let mut i: usize = 0;
    while i < na && i < nb
        invariant
            na == a@.len(),
            nb == b@.len(),
            i <= na,
            i <= nb,
            a@.take(i as int) == b@.take(i as int),
        decreases na - i,
    {
        let ca = a.get_char(i);
        let cb = b.get_char(i);
        if ca != cb {
            proof {
                lemma_text_lt_skip(a@, b@, i as int);
                assert(a@.skip(i as int)[0] == ca);
                assert(b@.skip(i as int)[0] == cb);
            }
            return (ca as u32) < (cb as u32);
        }
        proof {
            assert(a@.take(i + 1) =~= a@.take(i as int).push(ca));
            assert(b@.take(i + 1) =~= b@.take(i as int).push(cb));
        }
        i = i + 1;
    }
    proof {
        lemma_text_lt_skip(a@, b@, i as int);
    }
    i == na && i < nb
}

/// Whether the texts of `s` ascend strictly.
pub open spec fn strictly_ascending(s: Seq<Seq<char>>) -> bool {
    forall|i: int, j: int| 0 <= i < j < s.len() ==> text_lt(#[trigger] s[i], #[trigger] s[j])
}

/// The texts of a sequence of strings.
pub open spec fn texts(v: Seq<String>) -> Seq<Seq<char>> {
    v.map_values(|s: String| s@)
}

/// Whether no text occurs twice.
pub open spec fn distinct_texts(s: Seq<Seq<char>>) -> bool {
    forall|i: int, j: int| 0 <= i < s.len() && 0 <= j < s.len() && i != j ==> s[i] != s[j]
}

/// Sorts distinct identifiers into ascending order.
pub fn sort_ids(ids: Vec<String>) -> (r: Vec<String>)
    requires
        distinct_texts(texts(ids@)),
    ensures
        r@.len() == ids@.len(),
        strictly_ascending(texts(r@)),
        forall|x: Seq<char>| texts(r@).contains(x) <==> texts(ids@).contains(x),
{
    let mut rest = ids;
    let ghost all = rest@;
    let n = rest.len();
    let mut sorted: Vec<String> = Vec::new();
    let mut k: usize = 0;
    while rest.len() > 0
        invariant
            n == all.len(),
            k + rest@.len() == all.len(),
            rest@ == all.skip(k as int),
            distinct_texts(texts(all)),
            sorted@.len() == k,
            strictly_ascending(texts(sorted@)),
            forall|x: Seq<char>| texts(sorted@).contains(x) <==> texts(all.take(k as int)).contains(x),
        decreases rest@.len(),
    {
        let x = rest.remove(0);
        proof {
            assert(x == all[k as int]);
            assert(rest@ =~= all.skip(k + 1));
        }
        let mut pos: usize = 0;
        while pos < sorted.len() && text_less(sorted[pos].as_str(), x.as_str())
            invariant
                pos <= sorted@.len(),
                forall|j: int| 0 <= j < pos ==> text_lt(#[trigger] sorted@[j]@, x@),
            decreases sorted@.len() - pos,
        {
            pos = pos + 1;
        }
        proof {
            // x differs from every text sorted so far: they come from earlier positions.
            assert forall|j: int| 0 <= j < sorted@.len() implies #[trigger] sorted@[j]@ != x@ by {
                assert(texts(sorted@)[j] == sorted@[j]@);
                assert(texts(sorted@).contains(sorted@[j]@));
                assert(texts(all.take(k as int)).contains(sorted@[j]@));
                let m = choose|m: int| 0 <= m < k && #[trigger] texts(all.take(k as int))[m] == sorted@[j]@;
                assert(texts(all)[m] == all[m]@);
                assert(texts(all)[k as int] == all[k as int]@);
            }
            if pos < sorted@.len() {
                assert(!text_lt(sorted@[pos as int]@, x@));
                lemma_text_lt_total(sorted@[pos as int]@, x@);
            }
        }
        let ghost old_sorted = sorted@;
        sorted.insert(pos, x);
        proof {
            let t = texts(sorted@);
            let o = texts(old_sorted);
            assert(t =~= o.insert(pos as int, x@));
            assert forall|m: int| 0 <= m < old_sorted.len() implies #[trigger] o[m] == old_sorted[m]@ by {}
            assert forall|i: int, j: int| 0 <= i < j < t.len() implies text_lt(#[trigger] t[i], #[trigger] t[j]) by {
                if j < pos {
                    assert(t[i] == old_sorted[i]@ && t[j] == old_sorted[j]@);
                } else if j == pos {
                    assert(t[i] == old_sorted[i]@);
                } else if i < pos {
                    assert(t[i] == old_sorted[i]@ && t[j] == old_sorted[j - 1]@);
                    if pos < old_sorted.len() {
                        assert(text_lt(x@, old_sorted[pos as int]@));
                        if pos < j - 1 {
                            assert(text_lt(o[pos as int], o[j - 1]));
                            lemma_text_lt_transitive(x@, old_sorted[pos as int]@, old_sorted[j - 1]@);
                        }
                        lemma_text_lt_transitive(old_sorted[i]@, x@, old_sorted[j - 1]@);
                    }
                } else if i == pos {
                    assert(t[j] == old_sorted[j - 1]@);
                    assert(text_lt(x@, old_sorted[pos as int]@));
                    if pos < j - 1 {
                        assert(text_lt(o[pos as int], o[j - 1]));
                        lemma_text_lt_transitive(x@, old_sorted[pos as int]@, old_sorted[j - 1]@);
                    }
                } else {
                    assert(t[i] == old_sorted[i - 1]@ && t[j] == old_sorted[j - 1]@);
                }
            }
            assert(texts(all.take(k + 1)) =~= texts(all.take(k as int)).push(x@));
            assert forall|y: Seq<char>| t.contains(y) <==> texts(all.take(k + 1)).contains(y) by {
                if t.contains(y) {
                    let m = choose|m: int| 0 <= m < t.len() && #[trigger] t[m] == y;
                    if m < pos {
                        assert(texts(old_sorted)[m] == y);
                    } else if m > pos {
                        assert(texts(old_sorted)[m - 1] == y);
                    }
                    if y != x@ {
                        assert(texts(old_sorted).contains(y));
                        let n = choose|n: int| 0 <= n < k && #[trigger] texts(all.take(k as int))[n] == y;
                        assert(texts(all.take(k + 1))[n] == y);
                    } else {
                        assert(texts(all.take(k + 1))[k as int] == y);
                    }
                }
                if texts(all.take(k + 1)).contains(y) {
                    let n = choose|n: int| 0 <= n < k + 1 && #[trigger] texts(all.take(k + 1))[n] == y;
                    if n < k {
                        assert(texts(all.take(k as int))[n] == y);
                        assert(texts(old_sorted).contains(y));
                        let m = choose|m: int| 0 <= m < old_sorted.len() && #[trigger] texts(old_sorted)[m] == y;
                        if m < pos {
                            assert(t[m] == y);
                        } else {
                            assert(t[m + 1] == y);
                        }
                    } else {
                        assert(t[pos as int] == y);
                    }
                }
            }
        }
        k = k + 1;
    }
    proof {
        assert(all.take(k as int) =~= all);
    }
    sorted
}

} // verus!

verus! {

/// The ids of keyed entries ascend strictly.
pub open spec fn ids_ascending<A>(s: Seq<(String, A)>) -> bool {
    forall|i: int, j: int| 0 <= i < j < s.len() ==> text_lt(#[trigger] s[i].0@, #[trigger] s[j].0@)
}

/// Sorts entries with distinct ids into ascending id order.
pub fn sort_keyed<A>(entries: Vec<(String, A)>) -> (r: Vec<(String, A)>)
    requires
        crate::slots::unique_slots(entries@),
    ensures
        r@.len() == entries@.len(),
        ids_ascending(r@),
        forall|e: (String, A)| r@.contains(e) <==> entries@.contains(e),
{
    let mut rest = entries;
    let ghost all = rest@;
    let n = rest.len();
    let mut sorted: Vec<(String, A)> = Vec::new();
    let mut k: usize = 0;
    while rest.len() > 0
        invariant
            n == all.len(),
            k + rest@.len() == all.len(),
            rest@ == all.skip(k as int),
            crate::slots::unique_slots(all),
            sorted@.len() == k,
            ids_ascending(sorted@),
            forall|e: (String, A)| sorted@.contains(e) <==> all.take(k as int).contains(e),
        decreases rest@.len(),
    {
        let x = rest.remove(0);
        proof {
            assert(x == all[k as int]);
            assert(rest@ =~= all.skip(k + 1));
        }
        let mut pos: usize = 0;
        while pos < sorted.len() && text_less(sorted[pos].0.as_str(), x.0.as_str())
            invariant
                pos <= sorted@.len(),
                forall|j: int| 0 <= j < pos ==> text_lt(#[trigger] sorted@[j].0@, x.0@),
            decreases sorted@.len() - pos,
        {
            pos = pos + 1;
        }
        proof {
            assert forall|j: int| 0 <= j < sorted@.len() implies #[trigger] sorted@[j].0@ != x.0@ by {
                assert(sorted@.contains(sorted@[j]));
                assert(all.take(k as int).contains(sorted@[j]));
                let m = choose|m: int| 0 <= m < k && #[trigger] all.take(k as int)[m] == sorted@[j];
                assert(all[m] == sorted@[j]);
                assert(m != k);
            }
            if pos < sorted@.len() {
                assert(!text_lt(sorted@[pos as int].0@, x.0@));
                lemma_text_lt_total(sorted@[pos as int].0@, x.0@);
            }
        }
        let ghost old_sorted = sorted@;
        sorted.insert(pos, x);
        proof {
            let t = sorted@;
            let o = old_sorted;
            assert(t =~= o.insert(pos as int, x));
            assert forall|i: int, j: int| 0 <= i < j < t.len() implies text_lt(#[trigger] t[i].0@, #[trigger] t[j].0@) by {
                if j < pos {
                    assert(t[i] == o[i] && t[j] == o[j]);
                } else if j == pos {
                    assert(t[i] == o[i]);
                } else if i < pos {
                    assert(t[i] == o[i] && t[j] == o[j - 1]);
                    if pos < o.len() {
                        assert(text_lt(x.0@, o[pos as int].0@));
                        if pos < j - 1 {
                            assert(text_lt(o[pos as int].0@, o[j - 1].0@));
                            lemma_text_lt_transitive(x.0@, o[pos as int].0@, o[j - 1].0@);
                        }
                        lemma_text_lt_transitive(o[i].0@, x.0@, o[j - 1].0@);
                    }
                } else if i == pos {
                    assert(t[j] == o[j - 1]);
                    assert(text_lt(x.0@, o[pos as int].0@));
                    if pos < j - 1 {
                        assert(text_lt(o[pos as int].0@, o[j - 1].0@));
                        lemma_text_lt_transitive(x.0@, o[pos as int].0@, o[j - 1].0@);
                    }
                } else {
                    assert(t[i] == o[i - 1] && t[j] == o[j - 1]);
                }
            }
            assert(all.take(k + 1) =~= all.take(k as int).push(x));
            assert forall|e: (String, A)| t.contains(e) <==> all.take(k + 1).contains(e) by {
                if t.contains(e) {
                    let m = choose|m: int| 0 <= m < t.len() && #[trigger] t[m] == e;
                    if m < pos {
                        assert(o[m] == e);
                        assert(o.contains(e));
                    } else if m > pos {
                        assert(o[m - 1] == e);
                        assert(o.contains(e));
                    }
                    if e != x {
                        assert(o.contains(e));
                        assert(all.take(k as int).contains(e));
                        let q = choose|q: int| 0 <= q < k && #[trigger] all.take(k as int)[q] == e;
                        assert(all.take(k + 1)[q] == e);
                    } else {
                        assert(all.take(k + 1)[k as int] == e);
                    }
                }
                if all.take(k + 1).contains(e) {
                    let q = choose|q: int| 0 <= q < k + 1 && #[trigger] all.take(k + 1)[q] == e;
                    if q < k {
                        assert(all.take(k as int)[q] == e);
                        assert(all.take(k as int).contains(e));
                        assert(o.contains(e));
                        let m = choose|m: int| 0 <= m < o.len() && #[trigger] o[m] == e;
                        if m < pos {
                            assert(t[m] == e);
                        } else {
                            assert(t[m + 1] == e);
                        }
                    } else {
                        assert(t[pos as int] == e);
                    }
                }
            }
        }
        k = k + 1;
    }
    proof {
        assert(all.take(k as int) =~= all);
    }
    sorted
}

} // verus!
