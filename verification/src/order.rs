//! Stable sorting.

use vstd::prelude::*;

verus! {

/// The views of a sequence of values.
pub open spec fn views<T: View>(s: Seq<T>) -> Seq<T::V> {
    s.map_values(|x: T| x@)
}

/// No element comes after one that it should precede.
pub open spec fn sorted<V>(s: Seq<V>, le: spec_fn(V, V) -> bool) -> bool {
    forall|i: int, j: int| 0 <= i < j < s.len() ==> le(#[trigger] s[i], #[trigger] s[j])
}

/// The elements that the order does not tell apart from `x`.
pub open spec fn tied<V>(le: spec_fn(V, V) -> bool, x: V) -> spec_fn(V) -> bool {
    |y: V| le(x, y) && le(y, x)
}

/// `out` holds what `input` holds, in order, and elements that tie keep the order that they had.
pub open spec fn stable_sort_of<V>(
    out: Seq<V>,
    input: Seq<V>,
    le: spec_fn(V, V) -> bool,
) -> bool {
    &&& out.len() == input.len()
    &&& sorted(out, le)
    &&& forall|x: V| #[trigger] out.filter(tied(le, x)) == input.filter(tied(le, x))
}

/// A total preorder.
pub open spec fn is_total_preorder<V>(le: spec_fn(V, V) -> bool) -> bool {
    &&& forall|a: V, b: V| #[trigger] le(a, b) || le(b, a)
    &&& forall|a: V, b: V, c: V| #[trigger] le(a, b) && #[trigger] le(b, c) ==> le(a, c)
}

/// Values with a place in a list that is kept sorted.
pub trait Ranked: View + Sized {
    /// Whether `a` may stand before `b`.
    spec fn le(a: Self::V, b: Self::V) -> bool;

    /// Any two values are comparable.
    proof fn le_total(a: Self::V, b: Self::V)
        ensures
            Self::le(a, b) || Self::le(b, a),
    ;

    /// The order is transitive.
    proof fn le_transitive(a: Self::V, b: Self::V, c: Self::V)
        requires
            Self::le(a, b),
            Self::le(b, c),
        ensures
            Self::le(a, c),
    ;

    /// Decides whether `self` may stand before `other`.
    fn may_precede(&self, other: &Self) -> (r: bool)
        ensures
            r == Self::le(self@, other@),
    ;
}

/// The order of a ranked type.
pub open spec fn order_of<T: Ranked>() -> spec_fn(T::V, T::V) -> bool {
    |a: T::V, b: T::V| T::le(a, b)
}

/// The order of a ranked type is a total preorder.
pub proof fn ranked_is_total_preorder<T: Ranked>()
    ensures
        is_total_preorder(order_of::<T>()),
{
    let le = order_of::<T>();
    assert forall|a: T::V, b: T::V| #[trigger] le(a, b) || le(b, a) by {
        T::le_total(a, b);
    }
    assert forall|a: T::V, b: T::V, c: T::V| #[trigger] le(a, b) && #[trigger] le(b, c) implies le(
        a,
        c,
    ) by {
        T::le_transitive(a, b, c);
    }
}

proof fn lemma_filter_push<V>(s: Seq<V>, x: V, p: spec_fn(V) -> bool)
    ensures
        s.push(x).filter(p) == (if p(x) {
            s.filter(p).push(x)
        } else {
            s.filter(p)
        }),
{
    reveal(Seq::filter);
    assert(s.push(x).drop_last() =~= s);
}

proof fn lemma_filter_none<V>(s: Seq<V>, p: spec_fn(V) -> bool)
    requires
        forall|i: int| 0 <= i < s.len() ==> !p(#[trigger] s[i]),
    ensures
        s.filter(p) == Seq::<V>::empty(),
    decreases s.len(),
{
    reveal(Seq::filter);
    if s.len() > 0 {
        lemma_filter_none(s.drop_last(), p);
    }
}

proof fn lemma_filter_prepend<V>(x: V, s: Seq<V>, p: spec_fn(V) -> bool)
    ensures
        (seq![x] + s).filter(p) == (if p(x) {
            seq![x] + s.filter(p)
        } else {
            s.filter(p)
        }),
{
    Seq::filter_distributes_over_add(seq![x], s, p);
    lemma_filter_none(Seq::<V>::empty(), p);
    lemma_filter_push(Seq::<V>::empty(), x, p);
    assert(Seq::<V>::empty().push(x) =~= seq![x]);
    assert(Seq::<V>::empty() + s.filter(p) =~= s.filter(p));
}

/// What is left of the two halves, followed by what has been merged, in one tie.
spec fn parts<V>(a: Seq<V>, b: Seq<V>, m: Seq<V>, p: spec_fn(V) -> bool) -> Seq<V> {
    a.filter(p) + b.filter(p) + m.filter(p)
}

/// Every element of `a` may stand before every element of `m`.
spec fn all_before<V>(a: Seq<V>, m: Seq<V>, le: spec_fn(V, V) -> bool) -> bool {
    forall|i: int, j: int|
        0 <= i < a.len() && 0 <= j < m.len() ==> le(#[trigger] a[i], #[trigger] m[j])
}

/// Moving the greatest remaining element to the front of the merged part loses nothing.
proof fn lemma_merge_step<V>(
    a: Seq<V>,
    b: Seq<V>,
    m: Seq<V>,
    a2: Seq<V>,
    b2: Seq<V>,
    m2: Seq<V>,
    from_a: bool,
    le: spec_fn(V, V) -> bool,
)
    requires
        is_total_preorder(le),
        sorted(a, le),
        sorted(b, le),
        sorted(m, le),
        all_before(a, m, le),
        all_before(b, m, le),
        from_a ==> a.len() > 0 && (b.len() == 0 || !le(a.last(), b.last())) && a2 == a.drop_last()
            && b2 == b && m2 == seq![a.last()] + m,
        !from_a ==> b.len() > 0 && (a.len() == 0 || le(a.last(), b.last())) && a2 == a && b2
            == b.drop_last() && m2 == seq![b.last()] + m,
    ensures
        sorted(a2, le),
        sorted(b2, le),
        sorted(m2, le),
        all_before(a2, m2, le),
        all_before(b2, m2, le),
        forall|y: V| #[trigger]
            parts(a2, b2, m2, tied(le, y)) == parts(a, b, m, tied(le, y)),
{
    let x = m2[0];
    assert forall|y: V| #[trigger] le(y, y) by {
        assert(le(y, y) || le(y, y));
    }
    if from_a && b.len() > 0 {
        assert(le(b.last(), a.last()));
    }
    assert forall|i: int| 0 <= i < a.len() implies le(#[trigger] a[i], x) by {
        if i < a.len() - 1 {
            assert(le(a[i], a[a.len() - 1]));
        }
        assert(le(a[i], a.last()));
        assert(le(a.last(), x));
    }
    assert forall|i: int| 0 <= i < b.len() implies le(#[trigger] b[i], x) by {
        if i < b.len() - 1 {
            assert(le(b[i], b[b.len() - 1]));
        }
        assert(le(b[i], b.last()));
        assert(le(b.last(), x));
    }
    assert forall|i: int, j: int| 0 <= i < j < m2.len() implies le(
        #[trigger] m2[i],
        #[trigger] m2[j],
    ) by {
        assert(m2[j] == m[j - 1]);
        if i > 0 {
            assert(m2[i] == m[i - 1]);
        } else if from_a {
            assert(le(a[a.len() - 1], m[j - 1]));
        } else {
            assert(le(b[b.len() - 1], m[j - 1]));
        }
    }
    assert forall|i: int, j: int| 0 <= i < a2.len() && 0 <= j < m2.len() implies le(
        #[trigger] a2[i],
        #[trigger] m2[j],
    ) by {
        assert(a2[i] == a[i]);
        if j > 0 {
            assert(m2[j] == m[j - 1]);
        }
    }
    assert forall|i: int, j: int| 0 <= i < b2.len() && 0 <= j < m2.len() implies le(
        #[trigger] b2[i],
        #[trigger] m2[j],
    ) by {
        assert(b2[i] == b[i]);
        if j > 0 {
            assert(m2[j] == m[j - 1]);
        }
    }
    assert forall|y: V| #[trigger] parts(a2, b2, m2, tied(le, y)) == parts(
        a,
        b,
        m,
        tied(le, y),
    ) by {
        let p = tied(le, y);
        lemma_filter_prepend(x, m, p);
        if from_a {
            assert(a =~= a2.push(x));
            lemma_filter_push(a2, x, p);
            if p(x) {
                assert forall|i: int| 0 <= i < b.len() implies !p(#[trigger] b[i]) by {
                    if p(b[i]) {
                        assert(le(x, y) && le(y, b[i]));
                        assert(le(x, b[i]));
                        if i < b.len() - 1 {
                            assert(le(b[i], b[b.len() - 1]));
                        }
                        assert(le(x, b.last()));
                    }
                }
                lemma_filter_none(b, p);
            }
        } else {
            assert(b =~= b2.push(x));
            lemma_filter_push(b2, x, p);
        }
        assert(parts(a2, b2, m2, p) =~= parts(a, b, m, p));
    }
}

proof fn lemma_views_pop<T: View>(s: Seq<T>)
    requires
        s.len() > 0,
    ensures
        views(s.drop_last()) == views(s).drop_last(),
        views(s).last() == s.last()@,
{
    assert(views(s.drop_last()) =~= views(s).drop_last());
}

fn merge<T: Ranked>(left: Vec<T>, right: Vec<T>) -> (r: Vec<T>)
    requires
        sorted(views(left@), order_of::<T>()),
        sorted(views(right@), order_of::<T>()),
    ensures
        r@.len() == left@.len() + right@.len(),
        sorted(views(r@), order_of::<T>()),
        forall|y: T::V| #[trigger]
            views(r@).filter(tied(order_of::<T>(), y)) == views(left@).filter(
                tied(order_of::<T>(), y),
            ) + views(right@).filter(tied(order_of::<T>(), y)),
{
    let ghost le = order_of::<T>();
    let ghost (a0, b0) = (views(left@), views(right@));
    let ghost total: nat = left@.len() + right@.len();
    let mut left = left;
    let mut right = right;
    let mut merged: Vec<T> = Vec::new();
    let ghost mut m: Seq<T::V> = Seq::empty();
    proof {
        ranked_is_total_preorder::<T>();
        assert(views(merged@) =~= m.reverse());
        assert forall|y: T::V| #[trigger] parts(a0, b0, m, tied(le, y)) == a0.filter(tied(le, y))
            + b0.filter(tied(le, y)) by {
            lemma_filter_none(m, tied(le, y));
            assert(parts(a0, b0, m, tied(le, y)) =~= a0.filter(tied(le, y)) + b0.filter(
                tied(le, y),
            ));
        }
    }
    while left.len() > 0 || right.len() > 0
        invariant
            le == order_of::<T>(),
            is_total_preorder(le),
            total == left@.len() + right@.len() + merged@.len(),
            m.len() == merged@.len(),
            views(merged@) == m.reverse(),
            sorted(views(left@), le),
            sorted(views(right@), le),
            sorted(m, le),
            all_before(views(left@), m, le),
            all_before(views(right@), m, le),
            forall|y: T::V| #[trigger]
                parts(views(left@), views(right@), m, tied(le, y)) == a0.filter(tied(le, y))
                    + b0.filter(tied(le, y)),
        decreases left.len() + right.len(),
    {
        let from_left = if right.len() == 0 {
            true
        } else if left.len() == 0 {
            false
        } else {
            !left[left.len() - 1].may_precede(&right[right.len() - 1])
        };
        let ghost (a, b) = (views(left@), views(right@));
        proof {
            if left@.len() > 0 {
                lemma_views_pop(left@);
            }
            if right@.len() > 0 {
                lemma_views_pop(right@);
            }
        }
        let ghost before = merged@;
        let x = if from_left {
            left.pop().unwrap()
        } else {
            right.pop().unwrap()
        };
        merged.push(x);
        proof {
            let m2 = seq![x@] + m;
            lemma_merge_step(a, b, m, views(left@), views(right@), m2, from_left, le);
            assert(m2.reverse() =~= m.reverse().push(x@));
            assert(views(merged@) =~= views(before).push(x@));
            assert forall|y: T::V| #[trigger] parts(
                views(left@),
                views(right@),
                m2,
                tied(le, y),
            ) == a0.filter(tied(le, y)) + b0.filter(tied(le, y)) by {
                assert(parts(a, b, m, tied(le, y)) == a0.filter(tied(le, y)) + b0.filter(
                    tied(le, y),
                ));
            }
            m = m2;
        }
    }
    let ghost all = merged@;
    proof {
        assert forall|y: T::V| #[trigger] m.filter(tied(le, y)) == a0.filter(tied(le, y))
            + b0.filter(tied(le, y)) by {
            let p = tied(le, y);
            assert(parts(views(left@), views(right@), m, p) == a0.filter(p) + b0.filter(p));
            lemma_filter_none(views(left@), p);
            lemma_filter_none(views(right@), p);
            assert(parts(views(left@), views(right@), m, p) =~= m.filter(p));
        }
    }
    let mut out: Vec<T> = Vec::new();
    while merged.len() > 0
        invariant
            merged@.len() <= all.len(),
            merged@ == all.take(merged@.len() as int),
            out@.len() == all.len() - merged@.len(),
            forall|i: int| 0 <= i < out@.len() ==> #[trigger] out@[i] == all[all.len() - 1 - i],
        decreases merged.len(),
    {
        let x = merged.pop().unwrap();
        out.push(x);
        assert(merged@ =~= all.take(merged@.len() as int));
    }
    proof {
        assert(views(out@) =~= m) by {
            assert forall|i: int| 0 <= i < m.len() implies views(out@)[i] == m[i] by {
                assert(views(all)[all.len() - 1 - i] == m.reverse()[all.len() - 1 - i]);
            }
        }
    }
    out
}

/// Sorts a list, keeping the order of elements that tie.
pub(crate) fn stable_sort<T: Ranked>(list: Vec<T>) -> (r: Vec<T>)
    ensures
        stable_sort_of(views(r@), views(list@), order_of::<T>()),
    decreases list@.len(),
{
    if list.len() < 2 {
        return list;
    }
    let mid: usize = list.len() / 2;
    let mut left = list;
    let right = left.split_off(mid);
    let ghost (a, b) = (left@, right@);
    let sorted_left = stable_sort(left);
    let sorted_right = stable_sort(right);
    let r = merge(sorted_left, sorted_right);
    proof {
        let le = order_of::<T>();
        assert(list@ =~= a + b);
        assert(views(list@) =~= views(a) + views(b));
        assert forall|y: T::V| #[trigger] views(r@).filter(tied(le, y)) == views(list@).filter(
            tied(le, y),
        ) by {
            Seq::filter_distributes_over_add(views(a), views(b), tied(le, y));
            assert(views(sorted_left@).filter(tied(le, y)) == views(a).filter(tied(le, y)));
            assert(views(sorted_right@).filter(tied(le, y)) == views(b).filter(tied(le, y)));
        }
    }
    r
}

proof fn lemma_same_ties_equal<V>(a: Seq<V>, b: Seq<V>, le: spec_fn(V, V) -> bool)
    requires
        is_total_preorder(le),
        a.len() == b.len(),
        sorted(a, le),
        sorted(b, le),
        forall|x: V| #[trigger] a.filter(tied(le, x)) == b.filter(tied(le, x)),
    ensures
        a == b,
    decreases a.len(),
{
    if a.len() == 0 {
        assert(a =~= b);
    } else {
        let (x, y) = (a[0], b[0]);
        let (ra, rb) = (a.skip(1), b.skip(1));
        assert(a =~= seq![x] + ra);
        assert(b =~= seq![y] + rb);
        assert(le(x, x) || le(x, x));
        assert(le(y, y) || le(y, y));
        lemma_first_precedes(a, b, le);
        lemma_first_precedes(b, a, le);
        lemma_filter_prepend(x, ra, tied(le, x));
        lemma_filter_prepend(y, rb, tied(le, x));
        assert(a.filter(tied(le, x)) == b.filter(tied(le, x)));
        assert(a.filter(tied(le, x))[0] == x);
        assert(b.filter(tied(le, x))[0] == y);
        assert forall|z: V| #[trigger] ra.filter(tied(le, z)) == rb.filter(tied(le, z)) by {
            let p = tied(le, z);
            lemma_filter_prepend(x, ra, p);
            lemma_filter_prepend(y, rb, p);
            assert(a.filter(p) == b.filter(p));
            if p(x) {
                assert(ra.filter(p) =~= a.filter(p).skip(1));
                assert(rb.filter(p) =~= b.filter(p).skip(1));
            }
        }
        assert forall|i: int, j: int| 0 <= i < j < ra.len() implies le(
            #[trigger] ra[i],
            #[trigger] ra[j],
        ) by {
            assert(ra[i] == a[i + 1] && ra[j] == a[j + 1]);
        }
        assert forall|i: int, j: int| 0 <= i < j < rb.len() implies le(
            #[trigger] rb[i],
            #[trigger] rb[j],
        ) by {
            assert(rb[i] == b[i + 1] && rb[j] == b[j + 1]);
        }
        lemma_same_ties_equal(ra, rb, le);
    }
}

/// The first element of one arrangement precedes the first of another arrangement.
proof fn lemma_first_precedes<V>(a: Seq<V>, b: Seq<V>, le: spec_fn(V, V) -> bool)
    requires
        is_total_preorder(le),
        a.len() > 0,
        b.len() > 0,
        sorted(a, le),
        forall|x: V| #[trigger] a.filter(tied(le, x)) == b.filter(tied(le, x)),
    ensures
        le(a[0], b[0]),
{
    let y = b[0];
    let p = tied(le, y);
    assert(le(y, y) || le(y, y));
    b.lemma_filter_contains(p, 0);
    assert(a.filter(p).contains(y));
    a.lemma_filter_contains_rev(p, y);
    let i = choose|i: int| 0 <= i < a.len() && a[i] == y;
    if i > 0 {
        assert(le(a[0], a[i]));
    }
}

/// Sorting stably has one outcome only.
pub proof fn stable_sort_is_unique<V>(
    one: Seq<V>,
    other: Seq<V>,
    input: Seq<V>,
    le: spec_fn(V, V) -> bool,
)
    requires
        is_total_preorder(le),
        stable_sort_of(one, input, le),
        stable_sort_of(other, input, le),
    ensures
        one == other,
{
    assert forall|x: V| #[trigger] one.filter(tied(le, x)) == other.filter(tied(le, x)) by {
        assert(other.filter(tied(le, x)) == input.filter(tied(le, x)));
    }
    lemma_same_ties_equal(one, other, le);
}

/// Sorting stably keeps the elements: each is there before if and only if it is there after.
pub proof fn stable_sort_keeps_elements<V>(
    out: Seq<V>,
    input: Seq<V>,
    le: spec_fn(V, V) -> bool,
    x: V,
)
    requires
        is_total_preorder(le),
        stable_sort_of(out, input, le),
    ensures
        out.contains(x) <==> input.contains(x),
{
    let p = tied(le, x);
    assert(le(x, x) || le(x, x));
    assert(out.filter(p) == input.filter(p));
    if out.contains(x) {
        let i = choose|i: int| 0 <= i < out.len() && out[i] == x;
        out.lemma_filter_contains(p, i);
        input.lemma_filter_contains_rev(p, x);
    }
    if input.contains(x) {
        let i = choose|i: int| 0 <= i < input.len() && input[i] == x;
        input.lemma_filter_contains(p, i);
        out.lemma_filter_contains_rev(p, x);
    }
}

proof fn lemma_filter_keeps_count<V>(s: Seq<V>, p: spec_fn(V) -> bool, x: V)
    requires
        p(x),
    ensures
        s.filter(p).to_multiset().count(x) == s.to_multiset().count(x),
    decreases s.len(),
{
    broadcast use vstd::seq_lib::group_to_multiset_ensures;

    reveal(Seq::filter);
    if s.len() > 0 {
        let rest = s.drop_last();
        lemma_filter_keeps_count(rest, p, x);
        assert(s =~= rest.push(s.last()));
        if p(s.last()) {
            assert(s.filter(p) =~= rest.filter(p).push(s.last()));
        } else {
            assert(s.filter(p) =~= rest.filter(p));
        }
    }
}

/// Sorting stably keeps every element as often as it was there.
pub proof fn stable_sort_keeps_counts<V>(
    out: Seq<V>,
    input: Seq<V>,
    le: spec_fn(V, V) -> bool,
)
    requires
        is_total_preorder(le),
        stable_sort_of(out, input, le),
    ensures
        out.to_multiset() == input.to_multiset(),
{
    assert forall|x: V| out.to_multiset().count(x) == input.to_multiset().count(x) by {
        let p = tied(le, x);
        assert(le(x, x) || le(x, x));
        assert(out.filter(p) == input.filter(p));
        lemma_filter_keeps_count(out, p, x);
        lemma_filter_keeps_count(input, p, x);
    }
    assert(out.to_multiset() =~= input.to_multiset());
}

/// Of two elements of a stably sorted list, the first may stand before the second.
pub proof fn sorted_pairs_are_in_order<V>(
    out: Seq<V>,
    input: Seq<V>,
    le: spec_fn(V, V) -> bool,
    i: int,
    j: int,
)
    requires
        stable_sort_of(out, input, le),
        0 <= i < j < out.len(),
    ensures
        le(out[i], out[j]),
{
}

/// Values are viewed one by one, in order.
pub proof fn views_are_one_by_one<T: View>(s: Seq<T>)
    ensures
        views(s).len() == s.len(),
        forall|i: int| 0 <= i < s.len() ==> #[trigger] views(s)[i] == s[i]@,
{
}

} // verus!
