//! Stable insertion sort over an order given by each element type.
use vstd::prelude::*;

verus! {

/// A strict order used for sorting: `before(a, b)` when `a` sorts ahead of `b`.
pub trait Ordered: Sized {
    spec fn before(a: Self, b: Self) -> bool;

    fn is_before(&self, other: &Self) -> (r: bool)
        ensures
            r == Self::before(*self, *other),
    ;
}

/// Inserts `x` ahead of the first element it sorts before, so that elements
/// it does not sort before keep their place ahead of it.
pub open spec fn insert_sorted<T: Ordered>(s: Seq<T>, x: T) -> Seq<T>
    decreases s.len(),
{
    if s.len() == 0 {
        seq![x]
    } else if T::before(x, s[0]) {
        seq![x] + s
    } else {
        seq![s[0]] + insert_sorted(s.drop_first(), x)
    }
}

/// The stable insertion sort of `s`.
pub open spec fn sort_by_insertion<T: Ordered>(s: Seq<T>) -> Seq<T>
    decreases s.len(),
{
    if s.len() == 0 {
        s
    } else {
        insert_sorted(sort_by_insertion(s.drop_last()), s.last())
    }
}

proof fn lemma_insert_at<T: Ordered>(s: Seq<T>, x: T, j: int)
    requires
        0 <= j <= s.len(),
        forall|k: int| 0 <= k < j ==> !T::before(x, #[trigger] s[k]),
        j < s.len() ==> T::before(x, s[j]),
    ensures
        insert_sorted(s, x) == s.insert(j, x),
    decreases s.len(),
{
    if s.len() == 0 {
        assert(s.insert(j, x) =~= seq![x]);
    } else if j == 0 {
        assert(s.insert(j, x) =~= seq![x] + s);
    } else {
        let t = s.drop_first();
        assert forall|k: int| 0 <= k < j - 1 implies !T::before(x, #[trigger] t[k]) by {
            assert(t[k] == s[k + 1]);
        }
        if j - 1 < t.len() {
            assert(t[j - 1] == s[j]);
        }
        lemma_insert_at(t, x, j - 1);
        assert(s.insert(j, x) =~= seq![s[0]] + t.insert(j - 1, x));
    }
}

/// Sorts `v` stably by `T::before`.
pub fn insertion_sort<T: Ordered>(v: Vec<T>) -> (r: Vec<T>)
    ensures
        r@ == sort_by_insertion(v@),
{
    let ghost orig = v@;
    let mut rest = v;
    let mut res: Vec<T> = Vec::new();
    let mut k: usize = 0;
    let n = rest.len();
    assert(orig.take(0) =~= Seq::<T>::empty());
    assert(orig.skip(0) =~= orig);
    while k < n
        invariant
            n == orig.len(),
            k <= n,
            res@ == sort_by_insertion(orig.take(k as int)),
            rest@ == orig.skip(k as int),
        decreases n - k,
    {
        let x = rest.remove(0);
        assert(x == orig[k as int]);
        let mut j: usize = 0;
        while j < res.len() && !x.is_before(&res[j])
            invariant
                j <= res@.len(),
                forall|i: int| 0 <= i < j ==> !T::before(x, #[trigger] res@[i]),
            decreases res@.len() - j,
        {
            j = j + 1;
        }
        proof {
            lemma_insert_at(res@, x, j as int);
            assert(orig.take(k + 1).drop_last() =~= orig.take(k as int));
            assert(orig.take(k + 1).last() == x);
        }
        res.insert(j, x);
        k = k + 1;
        assert(rest@ =~= orig.skip(k as int));
    }
    assert(orig.take(n as int) =~= orig);
    res
}


proof fn lemma_insert_sorted_members<T: Ordered>(s: Seq<T>, x: T)
    ensures
        insert_sorted(s, x).len() == s.len() + 1,
        forall|y: T| #[trigger] insert_sorted(s, x).contains(y) ==> y == x || s.contains(y),
    decreases s.len(),
{
    if s.len() > 0 && !T::before(x, s[0]) {
        let t = s.drop_first();
        lemma_insert_sorted_members(t, x);
        let r = insert_sorted(s, x);
        assert forall|y: T| #[trigger] r.contains(y) implies y == x || s.contains(y) by {
            let i = choose|i: int| 0 <= i < r.len() && r[i] == y;
            if i == 0 {
                assert(y == s[0]);
            } else {
                assert(insert_sorted(t, x)[i - 1] == y);
                assert(insert_sorted(t, x).contains(y));
                if y != x {
                    let j = choose|j: int| 0 <= j < t.len() && t[j] == y;
                    assert(s[j + 1] == y);
                }
            }
        }
    } else if s.len() > 0 {
        let r = insert_sorted(s, x);
        assert forall|y: T| #[trigger] r.contains(y) implies y == x || s.contains(y) by {
            let i = choose|i: int| 0 <= i < r.len() && r[i] == y;
            if i > 0 {
                assert(s[i - 1] == y);
            }
        }
    }
}

/// Sorting keeps the length and introduces no new elements.
pub proof fn lemma_sort_members<T: Ordered>(s: Seq<T>)
    ensures
        sort_by_insertion(s).len() == s.len(),
        forall|y: T| #[trigger] sort_by_insertion(s).contains(y) ==> s.contains(y),
    decreases s.len(),
{
    if s.len() > 0 {
        lemma_sort_members(s.drop_last());
        lemma_insert_sorted_members(sort_by_insertion(s.drop_last()), s.last());
        assert forall|y: T| #[trigger] sort_by_insertion(s).contains(y) implies s.contains(y) by {
            if y == s.last() {
                assert(s[s.len() - 1] == y);
            } else {
                assert(sort_by_insertion(s.drop_last()).contains(y));
                let j = choose|j: int| 0 <= j < s.drop_last().len() && s.drop_last()[j] == y;
                assert(s[j] == y);
            }
        }
    }
}


proof fn lemma_insert_sorted_multiset<T: Ordered>(s: Seq<T>, x: T)
    ensures
        insert_sorted(s, x).to_multiset() == s.to_multiset().insert(x),
    decreases s.len(),
{
    if s.len() == 0 {
        vstd::seq_lib::to_multiset_insert(s, 0, x);
        assert(seq![x] =~= s.insert(0, x));
    } else if T::before(x, s[0]) {
        vstd::seq_lib::to_multiset_insert(s, 0, x);
        assert(seq![x] + s =~= s.insert(0, x));
    } else {
        let t = s.drop_first();
        lemma_insert_sorted_multiset(t, x);
        let r = insert_sorted(t, x);
        vstd::seq_lib::to_multiset_insert(r, 0, s[0]);
        vstd::seq_lib::to_multiset_insert(t, 0, s[0]);
        assert(seq![s[0]] + r =~= r.insert(0, s[0]));
        assert(s =~= t.insert(0, s[0]));
        assert(insert_sorted(s, x).to_multiset() =~= s.to_multiset().insert(x));
    }
}

/// Sorting rearranges: the sorted sequence holds the same elements, as often.
pub proof fn lemma_sort_multiset<T: Ordered>(s: Seq<T>)
    ensures
        sort_by_insertion(s).to_multiset() == s.to_multiset(),
    decreases s.len(),
{
    if s.len() > 0 {
        lemma_sort_multiset(s.drop_last());
        lemma_insert_sorted_multiset(sort_by_insertion(s.drop_last()), s.last());
        vstd::seq_lib::to_multiset_build(s.drop_last(), s.last());
        assert(s.drop_last().push(s.last()) =~= s);
    }
}

/// Each element sorts ahead of every later one.
pub open spec fn strictly_sorted<T: Ordered>(s: Seq<T>) -> bool {
    forall|i: int, j: int| 0 <= i < j < s.len() ==> T::before(#[trigger] s[i], #[trigger] s[j])
}

/// The order is asymmetric: no two elements each sort ahead of the other.
pub open spec fn asymmetric<T: Ordered>() -> bool {
    forall|a: T, b: T| T::before(a, b) ==> !T::before(b, a)
}

/// The order is transitive.
pub open spec fn transitive<T: Ordered>() -> bool {
    forall|a: T, b: T, c: T| #[trigger] T::before(a, b) && #[trigger] T::before(b, c) ==> T::before(a, c)
}

/// Elements at distinct places in `s` are ordered one way or the other.
pub open spec fn comparable_within<T: Ordered>(s: Seq<T>) -> bool {
    forall|i: int, j: int|
        0 <= i < s.len() && 0 <= j < s.len() && i != j ==> T::before(#[trigger] s[i], #[trigger] s[j]) || T::before(
            s[j],
            s[i],
        )
}

proof fn lemma_insert_sorted_strict<T: Ordered>(s: Seq<T>, x: T)
    requires
        asymmetric::<T>(),
        transitive::<T>(),
        strictly_sorted(s),
        forall|k: int| 0 <= k < s.len() ==> T::before(x, #[trigger] s[k]) || T::before(s[k], x),
    ensures
        strictly_sorted(insert_sorted(s, x)),
    decreases s.len(),
{
    if s.len() == 0 {
    } else if T::before(x, s[0]) {
        let r = seq![x] + s;
        assert forall|i: int, j: int| 0 <= i < j < r.len() implies T::before(#[trigger] r[i], #[trigger] r[j]) by {
            if i == 0 {
                if j > 1 {
                    assert(T::before(s[0], s[j - 1]));
                }
            } else {
                assert(r[i] == s[i - 1] && r[j] == s[j - 1]);
            }
        }
    } else {
        let t = s.drop_first();
        assert(T::before(s[0], x));
        assert forall|k: int| 0 <= k < t.len() implies T::before(x, #[trigger] t[k]) || T::before(t[k], x) by {
            assert(t[k] == s[k + 1]);
        }
        lemma_insert_sorted_strict(t, x);
        lemma_insert_sorted_members(t, x);
        let q = insert_sorted(t, x);
        let r = seq![s[0]] + q;
        assert forall|i: int, j: int| 0 <= i < j < r.len() implies T::before(#[trigger] r[i], #[trigger] r[j]) by {
            if i == 0 {
                assert(r[j] == q[j - 1]);
                assert(q.contains(q[j - 1]));
                if q[j - 1] != x {
                    let k = choose|k: int| 0 <= k < t.len() && t[k] == q[j - 1];
                    assert(T::before(s[0], s[k + 1]));
                }
            } else {
                assert(r[i] == q[i - 1] && r[j] == q[j - 1]);
            }
        }
    }
}

/// Sorting elements that are pairwise ordered gives a strictly sorted sequence.
pub proof fn lemma_sort_strict<T: Ordered>(s: Seq<T>)
    requires
        asymmetric::<T>(),
        transitive::<T>(),
        comparable_within(s),
    ensures
        strictly_sorted(sort_by_insertion(s)),
    decreases s.len(),
{
    if s.len() > 0 {
        let init = s.drop_last();
        assert forall|i: int, j: int| 0 <= i < init.len() && 0 <= j < init.len() && i != j implies T::before(
            #[trigger] init[i],
            #[trigger] init[j],
        ) || T::before(init[j], init[i]) by {
            assert(init[i] == s[i] && init[j] == s[j]);
        }
        lemma_sort_strict(init);
        lemma_sort_members(init);
        let t = sort_by_insertion(init);
        assert forall|k: int| 0 <= k < t.len() implies T::before(s.last(), #[trigger] t[k]) || T::before(
            t[k],
            s.last(),
        ) by {
            assert(t.contains(t[k]));
            let i = choose|i: int| 0 <= i < init.len() && init[i] == t[k];
            assert(s[i] == t[k]);
            assert(T::before(s[i], s[s.len() - 1]) || T::before(s[s.len() - 1], s[i]));
        }
        lemma_insert_sorted_strict(t, s.last());
    }
}

/// Two strictly sorted arrangements of the same elements are the same sequence.
pub proof fn lemma_strictly_sorted_unique<T: Ordered>(x: Seq<T>, y: Seq<T>)
    requires
        asymmetric::<T>(),
        strictly_sorted(x),
        strictly_sorted(y),
        x.to_multiset() == y.to_multiset(),
    ensures
        x == y,
    decreases x.len(),
{
    vstd::seq_lib::to_multiset_len(x);
    vstd::seq_lib::to_multiset_len(y);
    if x.len() == 0 {
        assert(x =~= y);
    } else {
        vstd::seq_lib::to_multiset_contains(x, y[0]);
        vstd::seq_lib::to_multiset_contains(y, y[0]);
        vstd::seq_lib::to_multiset_contains(x, x[0]);
        vstd::seq_lib::to_multiset_contains(y, x[0]);
        let i = choose|i: int| 0 <= i < x.len() && x[i] == y[0];
        let j = choose|j: int| 0 <= j < y.len() && y[j] == x[0];
        if i > 0 && j > 0 {
            assert(T::before(x[0], x[i]));
            assert(T::before(y[0], y[j]));
            assert(false);
        }
        assert(x[0] == y[0]);
        vstd::seq_lib::to_multiset_remove(x, 0);
        vstd::seq_lib::to_multiset_remove(y, 0);
        assert(x.remove(0) =~= x.drop_first());
        assert(y.remove(0) =~= y.drop_first());
        lemma_strictly_sorted_unique(x.drop_first(), y.drop_first());
        assert(x.len() == y.len());
        assert forall|k: int| 0 <= k < x.len() implies x[k] == y[k] by {
            if k > 0 {
                assert(x[k] == x.drop_first()[k - 1]);
                assert(y[k] == y.drop_first()[k - 1]);
            }
        }
        assert(x =~= y);
    }
}


/// No element sorts ahead of an earlier one.
pub open spec fn weakly_sorted<T: Ordered>(s: Seq<T>) -> bool {
    forall|i: int, j: int| 0 <= i < j < s.len() ==> !T::before(#[trigger] s[j], #[trigger] s[i])
}

proof fn lemma_insert_sorted_weak<T: Ordered>(s: Seq<T>, x: T)
    requires
        asymmetric::<T>(),
        transitive::<T>(),
        weakly_sorted(s),
    ensures
        weakly_sorted(insert_sorted(s, x)),
    decreases s.len(),
{
    if s.len() == 0 {
    } else if T::before(x, s[0]) {
        let r = seq![x] + s;
        assert forall|i: int, j: int| 0 <= i < j < r.len() implies !T::before(#[trigger] r[j], #[trigger] r[i]) by {
            if i == 0 {
                assert(r[j] == s[j - 1]);
                if T::before(s[j - 1], x) {
                    assert(T::before(s[j - 1], s[0]));
                    if j - 1 == 0 {
                        assert(!T::before(x, s[0]));
                    }
                }
            } else {
                assert(r[i] == s[i - 1] && r[j] == s[j - 1]);
            }
        }
    } else {
        let t = s.drop_first();
        assert forall|i: int, j: int| 0 <= i < j < t.len() implies !T::before(#[trigger] t[j], #[trigger] t[i]) by {
            assert(t[i] == s[i + 1] && t[j] == s[j + 1]);
        }
        lemma_insert_sorted_weak(t, x);
        lemma_insert_sorted_members(t, x);
        let q = insert_sorted(t, x);
        let r = seq![s[0]] + q;
        assert forall|i: int, j: int| 0 <= i < j < r.len() implies !T::before(#[trigger] r[j], #[trigger] r[i]) by {
            if i == 0 {
                assert(r[j] == q[j - 1]);
                assert(q.contains(q[j - 1]));
                if q[j - 1] != x {
                    let k = choose|k: int| 0 <= k < t.len() && t[k] == q[j - 1];
                    assert(!T::before(s[k + 1], s[0]));
                }
            } else {
                assert(r[i] == q[i - 1] && r[j] == q[j - 1]);
            }
        }
    }
}

/// Under an asymmetric, transitive order, the sort leaves no element ahead of
/// one it sorts after.
pub proof fn lemma_sort_weak<T: Ordered>(s: Seq<T>)
    requires
        asymmetric::<T>(),
        transitive::<T>(),
    ensures
        weakly_sorted(sort_by_insertion(s)),
    decreases s.len(),
{
    if s.len() > 0 {
        lemma_sort_weak(s.drop_last());
        lemma_insert_sorted_weak(sort_by_insertion(s.drop_last()), s.last());
    }
}

} // verus!
