use vstd::prelude::*;

use crate::identity::same_text;

verus! {

/// Entries keyed by text: the collections of live attempts are held as
/// sequences of `(attempt id, record)` in which no id occurs twice.
pub open spec fn unique_slots<A>(s: Seq<(String, A)>) -> bool {
    forall|i: int, j: int|
        0 <= i < s.len() && 0 <= j < s.len() && i != j ==> #[trigger] s[i].0@ != #[trigger] s[j].0@
}

pub open spec fn has_slot<A>(s: Seq<(String, A)>, id: Seq<char>) -> bool {
    exists|j: int| 0 <= j < s.len() && #[trigger] s[j].0@ == id
}

pub open spec fn slot_index<A>(s: Seq<(String, A)>, id: Seq<char>) -> int {
    choose|j: int| 0 <= j < s.len() && #[trigger] s[j].0@ == id
}

/// The record kept under `id`, if there is one.
pub open spec fn slot<A>(s: Seq<(String, A)>, id: Seq<char>) -> Option<A> {
    if has_slot(s, id) {
        Some(s[slot_index(s, id)].1)
    } else {
        None
    }
}

/// The ids of the entries, in order.
pub open spec fn slot_ids<A>(s: Seq<(String, A)>) -> Seq<Seq<char>> {
    s.map_values(|e: (String, A)| e.0@)
}

/// In a sequence without repeated ids, the entry found at `i` is the slot of its id.
pub proof fn lemma_slot_at<A>(s: Seq<(String, A)>, i: int)
    requires
        unique_slots(s),
        0 <= i < s.len(),
    ensures
        has_slot(s, s[i].0@),
        slot_index(s, s[i].0@) == i,
        slot(s, s[i].0@) == Some(s[i].1),
{
    assert(0 <= i < s.len() && s[i].0@ == s[i].0@);
    let j = slot_index(s, s[i].0@);
    assert(s[j].0@ == s[i].0@);
}

/// Replacing the record at `i` keeps the ids, so ids stay unique.
pub proof fn lemma_update_keeps_unique<A>(s: Seq<(String, A)>, i: int, e: (String, A))
    requires
        unique_slots(s),
        0 <= i < s.len(),
        e.0@ == s[i].0@,
    ensures
        unique_slots(s.update(i, e)),
        slot_ids(s.update(i, e)) == slot_ids(s),
{
    let t = s.update(i, e);
    assert forall|a: int, b: int| 0 <= a < t.len() && 0 <= b < t.len() && a != b implies #[trigger] t[a].0@
        != #[trigger] t[b].0@ by {
        assert(t[a].0@ == s[a].0@);
        assert(t[b].0@ == s[b].0@);
    }
    assert(slot_ids(t) =~= slot_ids(s));
}

/// Appending an entry under a fresh id keeps ids unique.
pub proof fn lemma_push_keeps_unique<A>(s: Seq<(String, A)>, e: (String, A))
    requires
        unique_slots(s),
        !has_slot(s, e.0@),
    ensures
        unique_slots(s.push(e)),
        has_slot(s.push(e), e.0@),
        slot(s.push(e), e.0@) == Some(e.1),
{
    let t = s.push(e);
    assert forall|a: int, b: int| 0 <= a < t.len() && 0 <= b < t.len() && a != b implies #[trigger] t[a].0@
        != #[trigger] t[b].0@ by {
        if a < s.len() && b < s.len() {
            assert(t[a] == s[a] && t[b] == s[b]);
        } else if a < s.len() {
            assert(t[a] == s[a]);
            assert(s[a].0@ != e.0@);
        } else {
            assert(t[b] == s[b]);
            assert(s[b].0@ != e.0@);
        }
    }
    lemma_slot_at(t, s.len() as int);
}

/// Removing an entry keeps the other ids unique.
pub proof fn lemma_remove_keeps_unique<A>(s: Seq<(String, A)>, i: int)
    requires
        unique_slots(s),
        0 <= i < s.len(),
    ensures
        unique_slots(s.remove(i)),
        !has_slot(s.remove(i), s[i].0@),
        forall|id: Seq<char>| id != s[i].0@ ==> slot(s.remove(i), id) == slot(s, id),
{
    let t = s.remove(i);
    assert forall|a: int, b: int| 0 <= a < t.len() && 0 <= b < t.len() && a != b implies #[trigger] t[a].0@
        != #[trigger] t[b].0@ by {
        let sa = if a < i { a } else { a + 1 };
        let sb = if b < i { b } else { b + 1 };
        assert(t[a] == s[sa]);
        assert(t[b] == s[sb]);
    }
    if has_slot(t, s[i].0@) {
        let j = slot_index(t, s[i].0@);
        let sj = if j < i { j } else { j + 1 };
        assert(t[j] == s[sj]);
    }
    assert forall|id: Seq<char>| id != s[i].0@ implies slot(t, id) == slot(s, id) by {
        if has_slot(s, id) {
            let j = slot_index(s, id);
            assert(j != i);
            let tj = if j < i { j } else { j - 1 };
            assert(t[tj] == s[j]);
            lemma_slot_at(t, tj);
            lemma_slot_at(s, j);
        }
        if has_slot(t, id) {
            let j = slot_index(t, id);
            let sj = if j < i { j } else { j + 1 };
            assert(t[j] == s[sj]);
        }
    }
}

/// Finds the position of the entry kept under `id`.
pub fn find_slot<A>(s: &Vec<(String, A)>, id: &String) -> (r: Option<usize>)
    ensures
        r matches Some(i) ==> i < s@.len() && s@[i as int].0@ == id@,
        r is None ==> !has_slot(s@, id@),
{
    let mut i: usize = 0;
    while i < s.len()
        invariant
            i <= s@.len(),
            forall|j: int| 0 <= j < i ==> s@[j].0@ != id@,
        decreases s@.len() - i,
    {
        if same_text(&s[i].0, id) {
            return Some(i);
        }
        i = i + 1;
    }
    None
}

} // verus!

verus! {

/// The entries whose record `keep` accepts, each mapped by `f`, in order.
pub open spec fn select_map<A, B>(s: Seq<(String, A)>, keep: spec_fn(A) -> bool, f: spec_fn(A) -> B) -> Seq<
    (String, B),
>
    decreases s.len(),
{
    if s.len() == 0 {
        Seq::empty()
    } else {
        let rest = select_map(s.drop_last(), keep, f);
        if keep(s.last().1) {
            rest.push((s.last().0, f(s.last().1)))
        } else {
            rest
        }
    }
}

/// Whether `e` is the image of an accepted entry of `s`.
pub open spec fn selected_from<A, B>(
    s: Seq<(String, A)>,
    keep: spec_fn(A) -> bool,
    f: spec_fn(A) -> B,
    e: (String, B),
) -> bool {
    exists|j: int| 0 <= j < s.len() && keep(#[trigger] s[j].1) && e == (s[j].0, f(s[j].1))
}

pub proof fn lemma_select_map<A, B>(s: Seq<(String, A)>, keep: spec_fn(A) -> bool, f: spec_fn(A) -> B)
    requires
        unique_slots(s),
    ensures
        unique_slots(select_map(s, keep, f)),
        forall|e: (String, B)| #[trigger] select_map(s, keep, f).contains(e) <==> selected_from(s, keep, f, e),
    decreases s.len(),
{
    if s.len() > 0 {
        let p = s.drop_last();
        assert forall|a: int, b: int| 0 <= a < p.len() && 0 <= b < p.len() && a != b implies #[trigger] p[a].0@
            != #[trigger] p[b].0@ by {
            assert(p[a] == s[a] && p[b] == s[b]);
        }
        lemma_select_map(p, keep, f);
        let rest = select_map(p, keep, f);
        let t = select_map(s, keep, f);
        let last = s[s.len() - 1];
        assert forall|e: (String, B)| #[trigger] t.contains(e) <==> selected_from(s, keep, f, e) by {
            if t.contains(e) {
                let m = choose|m: int| 0 <= m < t.len() && #[trigger] t[m] == e;
                if m < rest.len() {
                    assert(t[m] == rest[m]);
                    assert(rest.contains(e));
                    let j = choose|j: int| 0 <= j < p.len() && keep(#[trigger] p[j].1) && e == (p[j].0, f(p[j].1));
                    assert(s[j] == p[j]);
                } else {
                    assert(keep(last.1) && e == (last.0, f(last.1)));
                    assert(s[s.len() - 1] == last);
                }
            }
            if selected_from(s, keep, f, e) {
                let j = choose|j: int| 0 <= j < s.len() && keep(#[trigger] s[j].1) && e == (s[j].0, f(s[j].1));
                if j < p.len() {
                    assert(p[j] == s[j]);
                    assert(selected_from(p, keep, f, e));
                    assert(rest.contains(e));
                    let m = choose|m: int| 0 <= m < rest.len() && #[trigger] rest[m] == e;
                    assert(t[m] == e);
                } else {
                    assert(t[rest.len() as int] == e);
                }
            }
        }
        if keep(last.1) {
            assert forall|a: int, b: int| 0 <= a < t.len() && 0 <= b < t.len() && a != b implies #[trigger] t[a].0@
                != #[trigger] t[b].0@ by {
                if a == rest.len() || b == rest.len() {
                    let m = if a == rest.len() { b } else { a };
                    assert(t[m] == rest[m]);
                    assert(rest.contains(rest[m]));
                    let j = choose|j: int| 0 <= j < p.len() && keep(#[trigger] p[j].1) && rest[m] == (p[j].0, f(p[j].1));
                    assert(s[j] == p[j]);
                    assert(j != s.len() - 1);
                } else {
                    assert(t[a] == rest[a] && t[b] == rest[b]);
                }
            }
        }
    }
}

} // verus!
