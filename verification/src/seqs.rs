//! Generic sequence definitions used by the contracts: the first
//! element matching a predicate, and the stable ordering of records by
//! an integer key.

use vstd::prelude::*;

verus! {

/// Index of the first element of `s` satisfying `p`, if any.
pub open spec fn first_index<T>(s: Seq<T>, p: spec_fn(T) -> bool) -> Option<int>
    decreases s.len(),
{
    if s.len() == 0 {
        None
    } else if p(s[0]) {
        Some(0)
    } else {
        match first_index(s.drop_first(), p) {
            Some(i) => Some(i + 1),
            None => None,
        }
    }
}

/// `first_index` is the smallest index whose element satisfies `p`.
pub proof fn lemma_first_index<T>(s: Seq<T>, p: spec_fn(T) -> bool, k: int)
    requires
        0 <= k <= s.len(),
        forall|j: int| 0 <= j < k ==> !p(#[trigger] s[j]),
        k < s.len() ==> p(s[k]),
    ensures
        first_index(s, p) == if k < s.len() {
            Some(k)
        } else {
            None::<int>
        },
    decreases s.len(),
{
    if s.len() > 0 && k > 0 {
        assert(!p(s[0]));
        assert forall|j: int| 0 <= j < k - 1 implies !p(#[trigger] s.drop_first()[j]) by {
            assert(s.drop_first()[j] == s[j + 1]);
        }
        if k < s.len() {
            assert(s.drop_first()[k - 1] == s[k]);
        }
        lemma_first_index(s.drop_first(), p, k - 1);
    }
}

/// Records ordered by an integer key.
pub trait Keyed {
    /// The key records are ordered by.
    spec fn spec_key(&self) -> int;

    /// The key records are ordered by.
    fn key(&self) -> (r: u64)
        ensures
            r == self.spec_key(),
    ;
}

/// Inserts `x` into `s` after every element whose key is not greater
/// than its own: one step of a stable insertion sort.
pub open spec fn insert_by_key<T: Keyed>(s: Seq<T>, x: T) -> Seq<T>
    decreases s.len(),
{
    if s.len() == 0 {
        seq![x]
    } else if s.last().spec_key() <= x.spec_key() {
        s.push(x)
    } else {
        insert_by_key(s.drop_last(), x).push(s.last())
    }
}

/// `s` stably sorted by key: elements with equal keys keep their
/// relative order.
pub open spec fn sort_by_key<T: Keyed>(s: Seq<T>) -> Seq<T>
    decreases s.len(),
{
    if s.len() == 0 {
        s
    } else {
        insert_by_key(sort_by_key(s.drop_last()), s.last())
    }
}

/// The position where `insert_by_key` puts `x`: just after the last
/// element whose key is not greater than `x`'s, when the elements at
/// and after `j` all have greater keys.
proof fn lemma_insert_at<T: Keyed>(s: Seq<T>, x: T, j: int)
    requires
        0 <= j <= s.len(),
        forall|i: int| j <= i < s.len() ==> (#[trigger] s[i]).spec_key() > x.spec_key(),
        j > 0 ==> s[j - 1].spec_key() <= x.spec_key(),
    ensures
        insert_by_key(s, x) == s.insert(j, x),
    decreases s.len(),
{
    if s.len() == 0 {
        assert(s.insert(0, x) =~= seq![x]);
    } else if s.last().spec_key() <= x.spec_key() {
        assert(j == s.len());
        assert(s.insert(j, x) =~= s.push(x));
    } else {
        assert(j < s.len());
        lemma_insert_at(s.drop_last(), x, j);
        assert(s.drop_last().insert(j, x).push(s.last()) =~= s.insert(j, x));
    }
}

/// Stable sort of references by key (insertion sort).
pub fn sort_refs_by_key<'a, T: Keyed>(items: Vec<&'a T>) -> (out: Vec<&'a T>)
    ensures
        out@.map_values(|r: &'a T| *r) == sort_by_key(items@.map_values(|r: &'a T| *r)),
{
    let ghost input = items@.map_values(|r: &'a T| *r);
    let mut out: Vec<&'a T> = Vec::new();
    let n = items.len();
    let mut i: usize = 0;
    while i < n
        invariant
            n == items.len(),
            i <= n,
            input == items@.map_values(|r: &'a T| *r),
            out@.map_values(|r: &'a T| *r) == sort_by_key(input.take(i as int)),
        decreases n - i,
    {
        let x = items[i];
        let key = x.key();
        let mut j = out.len();
        while j > 0 && out[j - 1].key() > key
            invariant
                j <= out.len(),
                key == x.spec_key(),
                forall|k: int| j <= k < out.len() ==> (#[trigger] out@[k]).spec_key() > x.spec_key(),
            decreases j,
        {
            j = j - 1;
        }
        let ghost before = out@.map_values(|r: &'a T| *r);
        proof {
            assert forall|k: int| j <= k < before.len() implies (#[trigger] before[k]).spec_key()
                > x.spec_key() by {
                assert(before[k] == *out@[k]);
            }
            if j > 0 {
                assert(before[j - 1] == *out@[j - 1]);
            }
            lemma_insert_at(before, *x, j as int);
        }
        out.insert(j, x);
        proof {
            assert(out@.map_values(|r: &'a T| *r) =~= before.insert(j as int, *x));
            assert(input.take(i + 1).drop_last() =~= input.take(i as int));
            assert(input.take(i + 1).last() == *x);
        }
        i = i + 1;
    }
    proof {
        assert(input.take(n as int) =~= input);
    }
    out
}

/// Whether the keys of `s` never decrease.
pub open spec fn sorted_by_key<T: Keyed>(s: Seq<T>) -> bool {
    forall|i: int, j: int| 0 <= i <= j < s.len() ==> (#[trigger] s[i]).spec_key() <= (#[trigger] s[j]).spec_key()
}

/// Whether an element has key `k`.
pub open spec fn has_key<T: Keyed>(k: int) -> spec_fn(T) -> bool {
    |x: T| x.spec_key() == k
}

proof fn lemma_insert_sorted<T: Keyed>(s: Seq<T>, x: T)
    requires
        sorted_by_key(s),
    ensures
        sorted_by_key(insert_by_key(s, x)),
        insert_by_key(s, x).len() == s.len() + 1,
        forall|i: int| 0 <= i < insert_by_key(s, x).len() ==> (#[trigger] insert_by_key(s, x)[i]).spec_key()
            <= x.spec_key() || (exists|j: int| 0 <= j < s.len() && s[j] == insert_by_key(s, x)[i]),
    decreases s.len(),
{
    if s.len() == 0 {
    } else if s.last().spec_key() <= x.spec_key() {
        let r = s.push(x);
        assert forall|i: int, j: int| 0 <= i <= j < r.len() implies (#[trigger] r[i]).spec_key() <= (#[trigger] r[j]).spec_key() by {
            if j == s.len() && i < j {
                assert(s[i].spec_key() <= s[s.len() - 1].spec_key());
            }
        }
        assert forall|i: int| 0 <= i < r.len() implies (#[trigger] r[i]).spec_key() <= x.spec_key() || (exists|j: int| 0 <= j < s.len() && s[j] == r[i]) by {
            if i < s.len() {
                assert(s[i] == r[i]);
            }
        }
    } else {
        let t = s.drop_last();
        assert(sorted_by_key(t)) by {
            assert forall|i: int, j: int| 0 <= i <= j < t.len() implies (#[trigger] t[i]).spec_key() <= (#[trigger] t[j]).spec_key() by {
                assert(t[i] == s[i] && t[j] == s[j]);
            }
        }
        lemma_insert_sorted(t, x);
        let u = insert_by_key(t, x);
        let r = u.push(s.last());
        assert forall|i: int| 0 <= i < u.len() implies (#[trigger] u[i]).spec_key() <= s.last().spec_key() by {
            if u[i].spec_key() > x.spec_key() {
                let j = choose|j: int| 0 <= j < t.len() && t[j] == u[i];
                assert(t[j] == s[j]);
            }
        }
        assert forall|i: int, j: int| 0 <= i <= j < r.len() implies (#[trigger] r[i]).spec_key() <= (#[trigger] r[j]).spec_key() by {
            if j == u.len() {
                if i < u.len() {
                    assert(r[i] == u[i]);
                }
            } else {
                assert(r[i] == u[i] && r[j] == u[j]);
            }
        }
        assert forall|i: int| 0 <= i < r.len() implies (#[trigger] r[i]).spec_key() <= x.spec_key() || (exists|j: int| 0 <= j < s.len() && s[j] == r[i]) by {
            if i == u.len() {
                assert(s[s.len() - 1] == r[i]);
            } else {
                assert(r[i] == u[i]);
                if u[i].spec_key() > x.spec_key() {
                    let j = choose|j: int| 0 <= j < t.len() && t[j] == u[i];
                    assert(s[j] == t[j]);
                }
            }
        }
    }
}

/// A stable sort by key orders the keys: they never decrease.
pub proof fn lemma_sort_sorted<T: Keyed>(s: Seq<T>)
    ensures
        sorted_by_key(sort_by_key(s)),
        sort_by_key(s).len() == s.len(),
    decreases s.len(),
{
    if s.len() > 0 {
        lemma_sort_sorted(s.drop_last());
        lemma_insert_sorted(sort_by_key(s.drop_last()), s.last());
    }
}

proof fn lemma_insert_multiset<T: Keyed>(s: Seq<T>, x: T)
    ensures
        insert_by_key(s, x).to_multiset() == s.to_multiset().insert(x),
    decreases s.len(),
{
    broadcast use vstd::seq_lib::group_to_multiset_ensures;

    if s.len() == 0 {
        assert(seq![x] =~= Seq::<T>::empty().push(x));
    } else if s.last().spec_key() <= x.spec_key() {
    } else {
        lemma_insert_multiset(s.drop_last(), x);
        assert(s =~= s.drop_last().push(s.last()));
        assert(s.drop_last().to_multiset().insert(x).insert(s.last()) =~= s.drop_last().to_multiset().insert(s.last()).insert(x));
    }
}

/// A stable sort by key keeps every element, each as often: the result
/// is a permutation of the input.
pub proof fn lemma_sort_permutation<T: Keyed>(s: Seq<T>)
    ensures
        sort_by_key(s).to_multiset() == s.to_multiset(),
    decreases s.len(),
{
    broadcast use vstd::seq_lib::group_to_multiset_ensures;

    if s.len() > 0 {
        lemma_sort_permutation(s.drop_last());
        lemma_insert_multiset(sort_by_key(s.drop_last()), s.last());
        assert(s =~= s.drop_last().push(s.last()));
    }
}

proof fn lemma_insert_stable<T: Keyed>(s: Seq<T>, x: T, k: int)
    ensures
        insert_by_key(s, x).filter(has_key(k)) == if x.spec_key() == k {
            s.filter(has_key(k)).push(x)
        } else {
            s.filter(has_key(k))
        },
    decreases s.len(),
{
    reveal_with_fuel(Seq::filter, 1);
    let p = has_key::<T>(k);
    if s.len() == 0 {
        assert(seq![x].drop_last() =~= Seq::<T>::empty());
        assert(Seq::<T>::empty().filter(p) =~= Seq::<T>::empty());
        assert(seq![x].last() == x);
    } else if s.last().spec_key() <= x.spec_key() {
        assert(s.push(x).drop_last() =~= s);
        assert(s.push(x).last() == x);
    } else {
        lemma_insert_stable(s.drop_last(), x, k);
        let u = insert_by_key(s.drop_last(), x);
        assert(u.push(s.last()).drop_last() =~= u);
        assert(u.push(s.last()).last() == s.last());
        assert(s.filter(p) == if p(s.last()) {
            s.drop_last().filter(p).push(s.last())
        } else {
            s.drop_last().filter(p)
        });
    }
}

/// The sort is stable: the elements of any one key keep their relative
/// order.
pub proof fn lemma_sort_stable<T: Keyed>(s: Seq<T>, k: int)
    ensures
        sort_by_key(s).filter(has_key(k)) == s.filter(has_key(k)),
    decreases s.len(),
{
    reveal_with_fuel(Seq::filter, 1);
    if s.len() > 0 {
        lemma_sort_stable(s.drop_last(), k);
        lemma_insert_stable(sort_by_key(s.drop_last()), s.last(), k);
    }
}

} // verus!
