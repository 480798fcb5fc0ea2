//! Stable ordering of items by size, largest first.

use vstd::prelude::*;

verus! {

broadcast use vstd::seq_lib::group_seq_properties;

/// Something that occupies a number of bytes.
pub trait Weighed: Sized {
    /// The number of bytes the item stands for.
    spec fn weight(&self) -> u64;

    fn bytes(&self) -> (r: u64)
        ensures
            r == self.weight(),
    ;

    fn duplicate(&self) -> (r: Self)
        ensures
            r == *self,
    ;
}

/// `x` placed after every leading item at least as large as it: the step of
/// a stable insertion sort, largest first.
pub open spec fn insert_desc<T: Weighed>(s: Seq<T>, x: T) -> Seq<T>
    decreases s.len(),
{
    if s.len() == 0 {
        seq![x]
    } else if s[0].weight() >= x.weight() {
        seq![s[0]] + insert_desc(s.drop_first(), x)
    } else {
        seq![x] + s
    }
}

/// `s` ordered by size, largest first; items of equal size keep their order.
pub open spec fn sort_desc<T: Weighed>(s: Seq<T>) -> Seq<T>
    decreases s.len(),
{
    if s.len() == 0 {
        s
    } else {
        insert_desc(sort_desc(s.drop_last()), s.last())
    }
}

/// The first `k` items of `s`, or all of them when there are fewer.
pub open spec fn prefix<T>(s: Seq<T>, k: int) -> Seq<T> {
    if k >= s.len() {
        s
    } else {
        s.take(k)
    }
}

/// Ordered by size, largest first.
pub open spec fn sorted_desc<T: Weighed>(s: Seq<T>) -> bool {
    forall|i: int, j: int| 0 <= i < j < s.len() ==> s[i].weight() >= s[j].weight()
}

/// Inserting where the loop of [`insert_sorted`] stops.
proof fn lemma_insert_desc_at<T: Weighed>(s: Seq<T>, x: T, p: int)
    requires
        0 <= p <= s.len(),
        forall|i: int| 0 <= i < p ==> s[i].weight() >= x.weight(),
        p == s.len() || s[p].weight() < x.weight(),
    ensures
        insert_desc(s, x) == s.take(p).push(x) + s.skip(p),
    decreases p,
{
    if p == 0 {
        if s.len() == 0 {
            assert(s.take(0).push(x) + s.skip(0) =~= seq![x]);
        } else {
            assert(s.take(0).push(x) + s.skip(0) =~= seq![x] + s);
        }
    } else {
        let t = s.drop_first();
        assert forall|i: int| 0 <= i < p - 1 implies t[i].weight() >= x.weight() by {
            assert(t[i] == s[i + 1]);
        }
        lemma_insert_desc_at(t, x, p - 1);
        assert(seq![s[0]] + (t.take(p - 1).push(x) + t.skip(p - 1)) =~= s.take(p).push(x)
            + s.skip(p));
    }
}

/// Insertion keeps the items and adds `x`.
pub proof fn lemma_insert_desc_multiset<T: Weighed>(s: Seq<T>, x: T)
    ensures
        insert_desc(s, x).to_multiset() == s.to_multiset().insert(x),
    decreases s.len(),
{
    broadcast use vstd::seq_lib::group_to_multiset_ensures;

    if s.len() == 0 {
        assert(seq![x] =~= Seq::<T>::empty().push(x));
    } else if s[0].weight() >= x.weight() {
        lemma_insert_desc_multiset(s.drop_first(), x);
        vstd::seq_lib::lemma_multiset_commutative(seq![s[0]], insert_desc(s.drop_first(), x));
        vstd::seq_lib::lemma_multiset_commutative(seq![s[0]], s.drop_first());
        assert(seq![s[0]] + s.drop_first() =~= s);
        assert(seq![s[0]] =~= Seq::<T>::empty().push(s[0]));
    } else {
        vstd::seq_lib::lemma_multiset_commutative(seq![x], s);
        assert(seq![x] =~= Seq::<T>::empty().push(x));
    }
}

/// Insertion into a sorted sequence stays sorted.
pub proof fn lemma_insert_desc_sorted<T: Weighed>(s: Seq<T>, x: T)
    requires
        sorted_desc(s),
    ensures
        sorted_desc(insert_desc(s, x)),
        insert_desc(s, x).len() == s.len() + 1,
    decreases s.len(),
{
    if s.len() > 0 && s[0].weight() >= x.weight() {
        let t = s.drop_first();
        lemma_insert_desc_sorted(t, x);
        lemma_insert_desc_multiset(t, x);
        let r = insert_desc(t, x);
        assert forall|j: int| 0 <= j < r.len() implies s[0].weight() >= r[j].weight() by {
            assert(r.to_multiset().count(r[j]) > 0) by {
                broadcast use vstd::seq_lib::group_to_multiset_ensures;

                assert(r.contains(r[j]));
            }
            assert(t.to_multiset().insert(x).count(r[j]) > 0);
            if r[j] != x {
                broadcast use vstd::seq_lib::group_to_multiset_ensures;

                assert(t.contains(r[j]));
                let k = choose|k: int| 0 <= k < t.len() && t[k] == r[j];
                assert(s[k + 1] == r[j]);
            }
        }
        assert(insert_desc(s, x) =~= seq![s[0]] + r);
    }
}

/// Sorting keeps the items.
pub proof fn lemma_sort_desc_multiset<T: Weighed>(s: Seq<T>)
    ensures
        sort_desc(s).to_multiset() == s.to_multiset(),
        sort_desc(s).len() == s.len(),
    decreases s.len(),
{
    broadcast use vstd::seq_lib::group_to_multiset_ensures;

    if s.len() > 0 {
        lemma_sort_desc_multiset(s.drop_last());
        lemma_insert_desc_multiset(sort_desc(s.drop_last()), s.last());
        assert(s.drop_last().push(s.last()) =~= s);
        assert(sort_desc(s).to_multiset().len() == s.to_multiset().len());
    }
}

/// Sorting yields a sequence ordered largest first.
pub proof fn lemma_sort_desc_sorted<T: Weighed>(s: Seq<T>)
    ensures
        sorted_desc(sort_desc(s)),
    decreases s.len(),
{
    if s.len() > 0 {
        lemma_sort_desc_sorted(s.drop_last());
        lemma_insert_desc_sorted(sort_desc(s.drop_last()), s.last());
    }
}

/// Insertion adds exactly one item.
pub proof fn lemma_insert_desc_len<T: Weighed>(s: Seq<T>, x: T)
    ensures
        insert_desc(s, x).len() == s.len() + 1,
    decreases s.len(),
{
    if s.len() > 0 {
        lemma_insert_desc_len(s.drop_first(), x);
    }
}

/// Keeping the first `k` before or after an insertion gives the same first `k`.
pub proof fn lemma_prefix_insert<T: Weighed>(s: Seq<T>, x: T, k: int)
    requires
        k >= 0,
    ensures
        prefix(insert_desc(prefix(s, k), x), k) == prefix(insert_desc(s, x), k),
    decreases s.len(), k,
{
    if k >= s.len() {
    } else if k == 0 {
        assert(prefix(insert_desc(prefix(s, k), x), k) =~= Seq::<T>::empty());
        assert(prefix(insert_desc(s, x), k) =~= Seq::<T>::empty());
    } else {
        // 0 < k < s.len()
        let t = s.drop_first();
        assert(prefix(s, k) =~= seq![s[0]] + prefix(t, k - 1));
        assert(prefix(s, k).drop_first() =~= prefix(t, k - 1));
        if s[0].weight() >= x.weight() {
            lemma_prefix_insert(t, x, k - 1);
            let a = insert_desc(prefix(t, k - 1), x);
            let b = insert_desc(t, x);
            lemma_insert_desc_len(t, x);
            lemma_insert_desc_len(prefix(t, k - 1), x);
            assert(prefix(seq![s[0]] + a, k) =~= seq![s[0]] + prefix(a, k - 1));
            assert(prefix(seq![s[0]] + b, k) =~= seq![s[0]] + prefix(b, k - 1));
        } else {
            assert(prefix(seq![x] + prefix(s, k), k) =~= prefix(seq![x] + s, k));
        }
    }
}

/// Inserts `x` into `v` after every leading item at least as large.
pub fn insert_sorted<T: Weighed>(v: &mut Vec<T>, x: T)
    ensures
        final(v)@ == insert_desc(old(v)@, x),
{
    let w = x.bytes();
    let mut p: usize = 0;
    while p < v.len() && v[p].bytes() >= w
        invariant
            p <= v@.len(),
            v@ == old(v)@,
            w == x.weight(),
            forall|i: int| 0 <= i < p ==> v@[i].weight() >= x.weight(),
        decreases v@.len() - p,
    {
        p = p + 1;
    }
    proof {
        lemma_insert_desc_at(v@, x, p as int);
    }
    v.insert(p, x);
    assert(v@ =~= old(v)@.take(p as int).push(x) + old(v)@.skip(p as int));
}

/// The items of `items`, largest first, stably.
pub fn sort_by_size_desc<T: Weighed>(items: Vec<T>) -> (r: Vec<T>)
    ensures
        r@ == sort_desc(items@),
{
    let ghost all = items@;
    let mut out: Vec<T> = Vec::new();
    for x in it: items
        invariant
            it.seq() == all,
            out@ == sort_desc(all.take(it.index() as int)),
    {
        proof {
            let k = it.index() as int;
            assert(all.take(k + 1).drop_last() =~= all.take(k));
            assert(all.take(k + 1).last() == x);
        }
        insert_sorted(&mut out, x);
    }
    assert(all.take(all.len() as int) =~= all);
    out
}

/// The `k` largest items of `items` (all of them when fewer), largest first;
/// items of equal size keep their order.
pub fn top_by_size<T: Weighed>(items: &Vec<T>, k: usize) -> (r: Vec<T>)
    ensures
        r@ == prefix(sort_desc(items@), k as int),
{
    let mut out: Vec<T> = Vec::new();
    let mut i: usize = 0;
    while i < items.len()
        invariant
            i <= items@.len(),
            out@ == prefix(sort_desc(items@.take(i as int)), k as int),
        decreases items@.len() - i,
    {
        let x = items[i].duplicate();
        proof {
            assert(items@.take(i + 1).drop_last() =~= items@.take(i as int));
            lemma_prefix_insert(sort_desc(items@.take(i as int)), x, k as int);
        }
        insert_sorted(&mut out, x);
        if out.len() > k {
            out.truncate(k);
        }
        i = i + 1;
        proof {
            let prev = sort_desc(items@.take(i - 1));
            lemma_sort_desc_multiset(items@.take(i - 1));
            assert(prefix(insert_desc(prefix(prev, k as int), x), k as int) == out@);
        }
    }
    assert(items@.take(items@.len() as int) =~= items@);
    out
}


/// A copy of `items`, item by item.
pub fn copy_all<T: Weighed>(items: &Vec<T>) -> (r: Vec<T>)
    ensures
        r@ == items@,
{
    let mut out: Vec<T> = Vec::new();
    let mut i: usize = 0;
    while i < items.len()
        invariant
            i <= items@.len(),
            out@ == items@.take(i as int),
        decreases items@.len() - i,
    {
        out.push(items[i].duplicate());
        i = i + 1;
        assert(out@ =~= items@.take(i as int));
    }
    assert(items@.take(items@.len() as int) =~= items@);
    out
}

} // verus!
