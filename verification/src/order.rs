//! Ordering a sequence by the names of its items.
//!
//! `by_name` is a stable insertion sort, written as a function on sequences;
//! the laws below say what it achieves.

use vstd::prelude::*;
use crate::text::{
    lemma_text_le_antisymmetric, lemma_text_le_total, lemma_text_le_transitive, text_le,
};

verus! {

/// Where `x` goes in `s`: before the first item whose name comes no earlier
/// than that of `x`, or at the end.
pub open spec fn slot<T>(s: Seq<T>, x: T, name: spec_fn(T) -> Seq<char>) -> int
    decreases s.len(),
{
    if s.len() == 0 {
        0
    } else if text_le(name(x), name(s.first())) {
        0
    } else {
        1 + slot(s.drop_first(), x, name)
    }
}

/// `s` with `x` put in at its slot.
pub open spec fn place<T>(s: Seq<T>, x: T, name: spec_fn(T) -> Seq<char>) -> Seq<T> {
    s.insert(slot(s, x, name), x)
}

/// The items of `s` in the order of their names. Items of the same name keep
/// the order they had.
pub open spec fn by_name<T>(s: Seq<T>, name: spec_fn(T) -> Seq<char>) -> Seq<T>
    decreases s.len(),
{
    if s.len() == 0 {
        Seq::empty()
    } else {
        place(by_name(s.drop_first(), name), s.first(), name)
    }
}

/// No item comes before one whose name is earlier.
pub open spec fn in_name_order<T>(s: Seq<T>, name: spec_fn(T) -> Seq<char>) -> bool {
    forall|i: int, j: int| 0 <= i < j < s.len() ==> text_le(name(#[trigger] s[i]), name(#[trigger] s[j]))
}

/// No two items have the same name.
pub open spec fn names_differ<T>(s: Seq<T>, name: spec_fn(T) -> Seq<char>) -> bool {
    forall|i: int, j: int| 0 <= i < j < s.len() ==> name(#[trigger] s[i]) != name(#[trigger] s[j])
}

/// What `slot` finds: a position in range, every item before it strictly
/// earlier than `x`, the item at it (if any) no earlier.
pub proof fn lemma_slot<T>(s: Seq<T>, x: T, name: spec_fn(T) -> Seq<char>)
    ensures
        0 <= slot(s, x, name) <= s.len(),
        forall|i: int| 0 <= i < slot(s, x, name) ==> !text_le(name(x), name(#[trigger] s[i])),
        slot(s, x, name) < s.len() ==> text_le(name(x), name(s[slot(s, x, name)])),
    decreases s.len(),
{
    if s.len() > 0 && !text_le(name(x), name(s.first())) {
        let rest = s.drop_first();
        lemma_slot(rest, x, name);
        assert forall|i: int| 0 <= i < slot(s, x, name) implies !text_le(
            name(x),
            name(#[trigger] s[i]),
        ) by {
            if i > 0 {
                assert(s[i] == rest[i - 1]);
            }
        }
    }
}

/// A position with the properties of the slot is the slot.
pub proof fn lemma_slot_found<T>(s: Seq<T>, x: T, name: spec_fn(T) -> Seq<char>, j: int)
    requires
        0 <= j <= s.len(),
        forall|i: int| 0 <= i < j ==> !text_le(name(x), name(#[trigger] s[i])),
        j < s.len() ==> text_le(name(x), name(s[j])),
    ensures
        slot(s, x, name) == j,
{
    lemma_slot(s, x, name);
    let k = slot(s, x, name);
    if k < j {
        assert(!text_le(name(x), name(s[k])));
    }
    if j < k {
        assert(!text_le(name(x), name(s[j])));
    }
}

/// Putting an item into an ordered sequence keeps it ordered.
pub proof fn lemma_place_keeps_order<T>(s: Seq<T>, x: T, name: spec_fn(T) -> Seq<char>)
    requires
        in_name_order(s, name),
    ensures
        in_name_order(place(s, x, name), name),
{
    lemma_slot(s, x, name);
    let k = slot(s, x, name);
    let r = place(s, x, name);
    assert forall|i: int, j: int| 0 <= i < j < r.len() implies text_le(
        name(#[trigger] r[i]),
        name(#[trigger] r[j]),
    ) by {
        if j < k {
            assert(r[i] == s[i] && r[j] == s[j]);
        } else if j == k {
            assert(r[i] == s[i]);
            lemma_text_le_total(name(x), name(s[i]));
        } else if i < k {
            assert(r[i] == s[i] && r[j] == s[j - 1]);
        } else if i == k {
            assert(r[j] == s[j - 1]);
            if j - 1 > k {
                assert(text_le(name(s[k]), name(s[j - 1])));
                lemma_text_le_transitive(name(x), name(s[k]), name(s[j - 1]));
            }
        } else {
            assert(r[i] == s[i - 1] && r[j] == s[j - 1]);
        }
    }
}

/// Putting an item into a sequence adds that item and nothing else.
pub proof fn lemma_place_adds_one<T>(s: Seq<T>, x: T, name: spec_fn(T) -> Seq<char>)
    ensures
        place(s, x, name).len() == s.len() + 1,
        place(s, x, name).to_multiset() == s.to_multiset().insert(x),
{
    broadcast use vstd::seq_lib::group_to_multiset_ensures;

    lemma_slot(s, x, name);
    let k = slot(s, x, name);
    let r = place(s, x, name);
    assert(r.remove(k) =~= s);
    assert(r[k] == x);
    assert(r.remove(k).to_multiset() =~= r.to_multiset().remove(r[k]));
    assert(r.to_multiset().count(x) > 0) by {
        assert(r.contains(x));
    }
    assert(r.to_multiset() =~= s.to_multiset().insert(x));
}

/// Ordering by name gives a sequence in name order.
pub proof fn law_by_name_is_ordered<T>(s: Seq<T>, name: spec_fn(T) -> Seq<char>)
    ensures
        in_name_order(by_name(s, name), name),
    decreases s.len(),
{
    if s.len() > 0 {
        law_by_name_is_ordered(s.drop_first(), name);
        lemma_place_keeps_order(by_name(s.drop_first(), name), s.first(), name);
    }
}

/// Ordering by name neither drops nor adds nor repeats an item: the result
/// holds the same items, each as often as before.
pub proof fn law_by_name_keeps_items<T>(s: Seq<T>, name: spec_fn(T) -> Seq<char>)
    ensures
        by_name(s, name).len() == s.len(),
        by_name(s, name).to_multiset() == s.to_multiset(),
    decreases s.len(),
{
    broadcast use vstd::seq_lib::group_to_multiset_ensures;

    if s.len() > 0 {
        let rest = s.drop_first();
        law_by_name_keeps_items(rest, name);
        lemma_place_adds_one(by_name(rest, name), s.first(), name);
        assert(s.remove(0) =~= rest);
        assert(rest.to_multiset() =~= s.to_multiset().remove(s[0]));
        assert(s.to_multiset().count(s[0]) > 0) by {
            assert(s.contains(s[0]));
        }
        assert(s.to_multiset() =~= rest.to_multiset().insert(s.first()));
    } else {
        assert(by_name(s, name) =~= s);
    }
}

/// A sequence that is in name order already is left as it is.
pub proof fn law_by_name_keeps_ordered<T>(s: Seq<T>, name: spec_fn(T) -> Seq<char>)
    requires
        in_name_order(s, name),
    ensures
        by_name(s, name) == s,
    decreases s.len(),
{
    if s.len() > 0 {
        let rest = s.drop_first();
        assert forall|i: int, j: int| 0 <= i < j < rest.len() implies text_le(
            name(#[trigger] rest[i]),
            name(#[trigger] rest[j]),
        ) by {
            assert(rest[i] == s[i + 1] && rest[j] == s[j + 1]);
        }
        law_by_name_keeps_ordered(rest, name);
        if rest.len() > 0 {
            assert(rest[0] == s[1]);
            assert(text_le(name(s[0]), name(s[1])));
        }
        lemma_slot_found(rest, s.first(), name, 0);
        assert(rest.insert(0, s.first()) =~= s);
    } else {
        assert(by_name(s, name) =~= s);
    }
}

/// Sequences that hold the same items still hold the same items after each
/// item has been replaced by what `f` makes of it.
pub proof fn lemma_map_keeps_items<A, B>(s: Seq<A>, t: Seq<A>, f: spec_fn(A) -> B)
    requires
        s.to_multiset() == t.to_multiset(),
    ensures
        s.map_values(f).to_multiset() == t.map_values(f).to_multiset(),
    decreases s.len(),
{
    broadcast use vstd::seq_lib::group_to_multiset_ensures;

    assert(s.len() == s.to_multiset().len());
    assert(t.len() == t.to_multiset().len());
    if s.len() == 0 {
        assert(s.map_values(f) =~= t.map_values(f));
    } else {
        let x = s[0];
        assert(s.contains(x));
        assert(t.to_multiset().count(x) > 0);
        assert(t.contains(x));
        let j = choose|j: int| 0 <= j < t.len() && t[j] == x;
        let sr = s.remove(0);
        let tr = t.remove(j);
        assert(sr.to_multiset() =~= s.to_multiset().remove(x));
        assert(tr.to_multiset() =~= t.to_multiset().remove(x));
        lemma_map_keeps_items(sr, tr, f);
        let ms = s.map_values(f);
        let mt = t.map_values(f);
        assert(ms.remove(0) =~= sr.map_values(f));
        assert(mt.remove(j) =~= tr.map_values(f));
        assert(ms.remove(0).to_multiset() =~= ms.to_multiset().remove(ms[0]));
        assert(mt.remove(j).to_multiset() =~= mt.to_multiset().remove(mt[j]));
        assert(ms[0] == f(x) && mt[j] == f(x));
        assert(ms.to_multiset().count(f(x)) > 0) by {
            assert(ms.contains(ms[0]));
        }
        assert(mt.to_multiset().count(f(x)) > 0) by {
            assert(mt.contains(mt[j]));
        }
        assert(ms.to_multiset() =~= ms.remove(0).to_multiset().insert(f(x)));
        assert(mt.to_multiset() =~= mt.remove(j).to_multiset().insert(f(x)));
    }
}

/// Sequences that hold the same items have names that differ together.
pub proof fn lemma_names_differ_together<T>(s: Seq<T>, t: Seq<T>, name: spec_fn(T) -> Seq<char>)
    requires
        s.to_multiset() == t.to_multiset(),
        names_differ(s, name),
    ensures
        names_differ(t, name),
{
    broadcast use vstd::seq_lib::group_to_multiset_ensures;

    assert(s.no_duplicates()) by {
        assert forall|i: int, j: int| 0 <= i < s.len() && 0 <= j < s.len() && i != j implies s[i]
            != s[j] by {
            if i < j {
                assert(name(s[i]) != name(s[j]));
            } else {
                assert(name(s[j]) != name(s[i]));
            }
        }
    }
    s.lemma_multiset_has_no_duplicates();
    t.lemma_multiset_has_no_duplicates_conv();
    assert forall|i: int, j: int| 0 <= i < j < t.len() implies name(#[trigger] t[i]) != name(
        #[trigger] t[j],
    ) by {
        assert(t.contains(t[i]) && t.contains(t[j]));
        assert(s.to_multiset().count(t[i]) > 0 && s.to_multiset().count(t[j]) > 0);
        assert(s.contains(t[i]) && s.contains(t[j]));
        let p = choose|p: int| 0 <= p < s.len() && s[p] == t[i];
        let q = choose|q: int| 0 <= q < s.len() && s[q] == t[j];
        assert(t[i] != t[j]);
        if p < q {
            assert(name(s[p]) != name(s[q]));
        } else {
            assert(name(s[q]) != name(s[p]));
        }
    }
}

/// Two sequences in name order that hold the same items, no two of the same
/// name, are the same sequence.
pub proof fn lemma_name_order_is_unique<T>(x: Seq<T>, y: Seq<T>, name: spec_fn(T) -> Seq<char>)
    requires
        in_name_order(x, name),
        in_name_order(y, name),
        x.to_multiset() == y.to_multiset(),
        names_differ(x, name),
    ensures
        x == y,
    decreases x.len(),
{
    broadcast use vstd::seq_lib::group_to_multiset_ensures;

    assert(x.len() == x.to_multiset().len());
    assert(y.len() == y.to_multiset().len());
    if x.len() == 0 {
        assert(x =~= y);
    } else {
        assert(x.contains(x[0]) && y.contains(y[0]));
        assert(y.to_multiset().count(x[0]) > 0 && x.to_multiset().count(y[0]) > 0);
        assert(y.contains(x[0]) && x.contains(y[0]));
        let j = choose|j: int| 0 <= j < y.len() && y[j] == x[0];
        let i = choose|i: int| 0 <= i < x.len() && x[i] == y[0];
        if i > 0 {
            assert(text_le(name(x[0]), name(x[i])));
            if j > 0 {
                assert(text_le(name(y[0]), name(y[j])));
            }
            lemma_text_le_antisymmetric(name(x[0]), name(y[0]));
            assert(name(x[0]) != name(x[i]));
        }
        assert(x[0] == y[0]);
        let xr = x.drop_first();
        let yr = y.drop_first();
        assert(x.remove(0) =~= xr);
        assert(y.remove(0) =~= yr);
        assert(xr.to_multiset() =~= x.to_multiset().remove(x[0]));
        assert(yr.to_multiset() =~= y.to_multiset().remove(y[0]));
        assert forall|a: int, b: int| 0 <= a < b < xr.len() implies text_le(
            name(#[trigger] xr[a]),
            name(#[trigger] xr[b]),
        ) && name(xr[a]) != name(xr[b]) by {
            assert(xr[a] == x[a + 1] && xr[b] == x[b + 1]);
        }
        assert forall|a: int, b: int| 0 <= a < b < yr.len() implies text_le(
            name(#[trigger] yr[a]),
            name(#[trigger] yr[b]),
        ) by {
            assert(yr[a] == y[a + 1] && yr[b] == y[b + 1]);
        }
        lemma_name_order_is_unique(xr, yr, name);
        assert(x =~= seq![x[0]] + xr);
        assert(y =~= seq![y[0]] + yr);
    }
}

/// Ordering by name makes the outcome independent of the order in which the
/// items were listed: two listings of the same items, no two of the same
/// name, are ordered into the same sequence.
pub proof fn law_by_name_ignores_listing_order<T>(s: Seq<T>, t: Seq<T>, name: spec_fn(T) -> Seq<char>)
    requires
        s.to_multiset() == t.to_multiset(),
        names_differ(s, name),
    ensures
        by_name(s, name) == by_name(t, name),
{
    law_by_name_is_ordered(s, name);
    law_by_name_is_ordered(t, name);
    law_by_name_keeps_items(s, name);
    law_by_name_keeps_items(t, name);
    lemma_names_differ_together(s, by_name(s, name), name);
    lemma_name_order_is_unique(by_name(s, name), by_name(t, name), name);
}

} // verus!
