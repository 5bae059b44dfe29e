//! Sorted lists without repetition.

use vstd::prelude::*;

use crate::text::{
    is_before, text_before, text_order_is_strict, text_order_is_total, text_order_is_transitive,
};

verus! {

/// A type whose values, taken by their views, are strictly and totally ordered.
pub trait Ranked: View + Sized {
    /// Whether `a` comes before `b`.
    spec fn before(a: Self::V, b: Self::V) -> bool;

    proof fn order_is_total(a: Self::V, b: Self::V)
        ensures
            a == b || Self::before(a, b) || Self::before(b, a),
    ;

    proof fn order_is_transitive(a: Self::V, b: Self::V, c: Self::V)
        requires
            Self::before(a, b),
            Self::before(b, c),
        ensures
            Self::before(a, c),
    ;

    proof fn order_is_strict(a: Self::V)
        ensures
            !Self::before(a, a),
    ;

    /// Whether this value comes before the other.
    fn precedes(&self, other: &Self) -> (r: bool)
        ensures
            r == Self::before(self@, other@),
    ;
}

impl Ranked for String {
    open spec fn before(a: Seq<char>, b: Seq<char>) -> bool {
        text_before(a, b)
    }

    proof fn order_is_total(a: Seq<char>, b: Seq<char>) {
        text_order_is_total(a, b);
    }

    proof fn order_is_transitive(a: Seq<char>, b: Seq<char>, c: Seq<char>) {
        text_order_is_transitive(a, b, c);
    }

    proof fn order_is_strict(a: Seq<char>) {
        text_order_is_strict(a);
    }

    fn precedes(&self, other: &String) -> (r: bool) {
        is_before(self.as_str(), other.as_str())
    }
}

/// The views of a list.
pub open spec fn views<T: View>(list: Seq<T>) -> Seq<T::V> {
    list.map_values(|x: T| x@)
}

/// Whether each item of the list comes before all later ones.
pub open spec fn sorted<T: Ranked>(list: Seq<T::V>) -> bool {
    forall|i: int, j: int|
        0 <= i < j < list.len() ==> T::before(#[trigger] list[i], #[trigger] list[j])
}

/// Sorted lists with the same items are the same list.
pub proof fn sorted_list_is_determined<T: Ranked>(a: Seq<T::V>, b: Seq<T::V>)
    requires
        sorted::<T>(a),
        sorted::<T>(b),
        forall|x: T::V| a.contains(x) <==> b.contains(x),
    ensures
        a == b,
    decreases a.len(),
{
    if a.len() == 0 {
        if b.len() > 0 {
            assert(b.contains(b[0]));
        }
        assert(a =~= b);
    } else {
        assert(a.contains(a[0]));
        assert(b.contains(a[0]));
        assert(b.contains(b[0]));
        assert(a.contains(b[0]));
        let i = choose|i: int| 0 <= i < b.len() && b[i] == a[0];
        let j = choose|j: int| 0 <= j < a.len() && a[j] == b[0];
        assert(a[0] == b[0]) by {
            if i > 0 && j > 0 {
                assert(T::before(b[0], b[i]));
                assert(T::before(a[0], a[j]));
                T::order_is_transitive(a[0], b[0], a[0]);
                T::order_is_strict(a[0]);
            }
        }
        let ra = a.skip(1);
        let rb = b.skip(1);
        assert forall|x: T::V| ra.contains(x) implies rb.contains(x) by {
            let k = choose|k: int| 0 <= k < ra.len() && ra[k] == x;
            assert(a[k + 1] == x);
            assert(a.contains(x));
            let m = choose|m: int| 0 <= m < b.len() && b[m] == x;
            if m == 0 {
                assert(T::before(a[0], a[k + 1]));
                T::order_is_strict(x);
            }
            assert(rb[m - 1] == x);
        }
        assert forall|x: T::V| rb.contains(x) implies ra.contains(x) by {
            let k = choose|k: int| 0 <= k < rb.len() && rb[k] == x;
            assert(b[k + 1] == x);
            assert(b.contains(x));
            let m = choose|m: int| 0 <= m < a.len() && a[m] == x;
            if m == 0 {
                assert(T::before(b[0], b[k + 1]));
                T::order_is_strict(x);
            }
            assert(ra[m - 1] == x);
        }
        assert forall|p: int, q: int| 0 <= p < q < ra.len() implies T::before(
            #[trigger] ra[p],
            #[trigger] ra[q],
        ) by {
            assert(T::before(a[p + 1], a[q + 1]));
        }
        assert forall|p: int, q: int| 0 <= p < q < rb.len() implies T::before(
            #[trigger] rb[p],
            #[trigger] rb[q],
        ) by {
            assert(T::before(b[p + 1], b[q + 1]));
        }
        sorted_list_is_determined::<T>(ra, rb);
        assert(a =~= seq![a[0]] + ra);
        assert(b =~= seq![b[0]] + rb);
    }
}

/// Puts `item` into its place in a sorted list, unless the list has it already.
pub fn insert_sorted<T: Ranked>(list: &mut Vec<T>, item: T)
    requires
        sorted::<T>(views(old(list)@)),
    ensures
        sorted::<T>(views(final(list)@)),
        forall|x: T::V| #[trigger]
            views(final(list)@).contains(x) <==> views(old(list)@).contains(x) || x == item@,
{
    let ghost was = list@;
    let ghost new = item@;
    let mut at: usize = 0;
    while at < list.len() && list[at].precedes(&item)
        invariant
            at <= list@.len(),
            list@ == was,
            new == item@,
            forall|i: int| 0 <= i < at ==> T::before(#[trigger] views(was)[i], new),
        decreases list@.len() - at,
    {
        at = at + 1;
    }
    let ghost p = at as int;
    if at < list.len() && !item.precedes(&list[at]) {
        proof {
            T::order_is_total(views(was)[p], new);
            assert(views(was)[p] == new);
            assert(views(was).contains(new));
        }
        return;
    }
    list.insert(at, item);
    proof {
        let v = views(was);
        let w = views(list@);
        assert(w =~= v.insert(p, new));
        assert forall|i: int, j: int| 0 <= i < j < w.len() implies T::before(
            #[trigger] w[i],
            #[trigger] w[j],
        ) by {
            if j < p {
                assert(w[i] == v[i] && w[j] == v[j]);
            } else if j == p {
                assert(w[i] == v[i]);
            } else if i > p {
                assert(w[i] == v[i - 1] && w[j] == v[j - 1]);
            } else {
                assert(w[j] == v[j - 1]);
                assert(p <= j - 1);
                if p < j - 1 {
                    assert(T::before(v[p], v[j - 1]));
                    T::order_is_transitive(new, v[p], v[j - 1]);
                }
                if i < p {
                    assert(w[i] == v[i]);
                    assert(T::before(v[i], v[j - 1]));
                }
            }
        }
        assert forall|x: T::V| #[trigger] w.contains(x) <==> v.contains(x) || x == new by {
            if v.contains(x) {
                let i = choose|i: int| 0 <= i < v.len() && v[i] == x;
                if i < p {
                    assert(w[i] == x);
                } else {
                    assert(w[i + 1] == x);
                }
            }
            if x == new {
                assert(w[p] == x);
            }
            if w.contains(x) && x != new {
                let i = choose|i: int| 0 <= i < w.len() && w[i] == x;
                if i < p {
                    assert(v[i] == x);
                } else {
                    assert(v[i - 1] == x);
                }
            }
        }
    }
}

} // verus!
