//! Stable reordering of operation lists by a small set of priority levels.

use vstd::prelude::*;
use vstd::multiset::Multiset;

verus! {

/// The elements among the first `n` of `s` whose key is `p`, in their order in `s`.
pub open spec fn bucket<T>(s: Seq<T>, keys: Seq<u32>, p: u32, n: int) -> Seq<T>
    decreases n,
{
    if n <= 0 {
        seq![]
    } else {
        let b = bucket(s, keys, p, n - 1);
        if keys[n - 1] == p {
            b.push(s[n - 1])
        } else {
            b
        }
    }
}

/// The stable sort of `s` by `keys`, where the keys take the values of `levels`
/// in ascending order: first every element whose key is `levels[0]`, in its
/// original order, then those whose key is `levels[1]`, and so on.
pub open spec fn sort_by_levels<T>(s: Seq<T>, keys: Seq<u32>, levels: Seq<u32>) -> Seq<T>
    decreases levels.len(),
{
    if levels.len() == 0 {
        seq![]
    } else {
        sort_by_levels(s, keys, levels.drop_last()) + bucket(s, keys, levels.last(), s.len() as int)
    }
}

/// Consumes `v` and returns its elements in order, each wrapped in `Some`.
fn wrap_some<T>(v: Vec<T>) -> (r: Vec<Option<T>>)
    ensures
        r@.len() == v@.len(),
        forall|i: int| 0 <= i < v@.len() ==> #[trigger] r@[i] == Some(v@[i]),
{
    let ghost orig = v@;
    let mut v = v;
    let mut rev: Vec<T> = Vec::new();
    while v.len() > 0
        invariant
            v@.len() + rev@.len() == orig.len(),
            forall|i: int| 0 <= i < v@.len() ==> #[trigger] v@[i] == orig[i],
            forall|j: int| 0 <= j < rev@.len() ==> #[trigger] rev@[j] == orig[orig.len() - 1 - j],
        decreases v.len(),
    {
        let x = v.pop().unwrap();
        rev.push(x);
    }
    let mut r: Vec<Option<T>> = Vec::new();
    while rev.len() > 0
        invariant
            r@.len() + rev@.len() == orig.len(),
            forall|j: int| 0 <= j < rev@.len() ==> #[trigger] rev@[j] == orig[orig.len() - 1 - j],
            forall|i: int| 0 <= i < r@.len() ==> #[trigger] r@[i] == Some(orig[i]),
        decreases rev.len(),
    {
        let x = rev.pop().unwrap();
        r.push(Some(x));
    }
    r
}

/// Stable sort of `items` by `keys` over the distinct `levels`.
pub fn stable_sort_by_levels<T>(items: Vec<T>, keys: &Vec<u32>, levels: &Vec<u32>) -> (r: Vec<T>)
    requires
        keys@.len() == items@.len(),
        forall|a: int, b: int| 0 <= a < b < levels@.len() ==> levels@[a] != levels@[b],
    ensures
        r@ == sort_by_levels(items@, keys@, levels@),
{
    let ghost s = items@;
    let n = items.len();
    let mut slots = wrap_some(items);
    let mut out: Vec<T> = Vec::new();
    let mut k: usize = 0;
    while k < levels.len()
        invariant
            n == s.len(),
            keys@.len() == n,
            slots@.len() == n,
            k <= levels@.len(),
            forall|a: int, b: int| 0 <= a < b < levels@.len() ==> levels@[a] != levels@[b],
            out@ == sort_by_levels(s, keys@, levels@.subrange(0, k as int)),
            forall|i: int| 0 <= i < n ==> (#[trigger] slots@[i] == Some(s[i])
                <==> !levels@.subrange(0, k as int).contains(keys@[i])),
            forall|i: int| 0 <= i < n ==> (#[trigger] slots@[i] is None
                <==> levels@.subrange(0, k as int).contains(keys@[i])),
        decreases levels.len() - k,
    {
        let p = levels[k];
        let ghost before = out@;
        let mut i: usize = 0;
        while i < n
            invariant
                n == s.len(),
                keys@.len() == n,
                slots@.len() == n,
                k < levels@.len(),
                p == levels@[k as int],
                i <= n,
                forall|a: int, b: int| 0 <= a < b < levels@.len() ==> levels@[a] != levels@[b],
                out@ == before + bucket(s, keys@, p, i as int),
                forall|j: int| 0 <= j < n ==> (#[trigger] slots@[j] == Some(s[j])
                    <==> !(levels@.subrange(0, k as int).contains(keys@[j]) || (j < i && keys@[j] == p))),
                forall|j: int| 0 <= j < n ==> (#[trigger] slots@[j] is None
                    <==> (levels@.subrange(0, k as int).contains(keys@[j]) || (j < i && keys@[j] == p))),
            decreases n - i,
        {
            if keys[i] == p {
                proof {
                    if levels@.subrange(0, k as int).contains(keys@[i as int]) {
                        let a = choose|a: int| 0 <= a < k && levels@.subrange(0, k as int)[a] == keys@[i as int];
                        assert(levels@[a] == levels@[k as int]);
                    }
                }
                let taken = slots[i].take();
                match taken {
                    Some(x) => {
                        out.push(x);
                    },
                    None => {},
                }
            }
            i = i + 1;
        }
        proof {
            let lk = levels@.subrange(0, k as int + 1);
            assert(lk.drop_last() =~= levels@.subrange(0, k as int));
            assert(lk.last() == p);
            assert forall|j: int| 0 <= j < n implies (lk.contains(keys@[j])
                <==> (levels@.subrange(0, k as int).contains(keys@[j]) || keys@[j] == p)) by {
                if lk.contains(keys@[j]) {
                    let a = choose|a: int| 0 <= a < lk.len() && lk[a] == keys@[j];
                    if a < k {
                        assert(levels@.subrange(0, k as int)[a] == keys@[j]);
                    }
                }
                if keys@[j] == p {
                    assert(lk[k as int] == p);
                }
                if levels@.subrange(0, k as int).contains(keys@[j]) {
                    let a = choose|a: int| 0 <= a < k && levels@.subrange(0, k as int)[a] == keys@[j];
                    assert(lk[a] == keys@[j]);
                }
            }
        }
        k = k + 1;
    }
    proof {
        assert(levels@.subrange(0, levels@.len() as int) =~= levels@);
    }
    out
}

/// The elements among the first `n` of `s` whose key is one of `lv`, in their order in `s`.
pub open spec fn part<T>(s: Seq<T>, keys: Seq<u32>, lv: Seq<u32>, n: int) -> Seq<T>
    decreases n,
{
    if n <= 0 {
        seq![]
    } else {
        let b = part(s, keys, lv, n - 1);
        if lv.contains(keys[n - 1]) {
            b.push(s[n - 1])
        } else {
            b
        }
    }
}

proof fn lemma_part_empty<T>(s: Seq<T>, keys: Seq<u32>, lv: Seq<u32>, n: int)
    requires
        lv.len() == 0,
    ensures
        part(s, keys, lv, n) == Seq::<T>::empty(),
    decreases n,
{
    if n > 0 {
        lemma_part_empty(s, keys, lv, n - 1);
    }
}

proof fn lemma_part_split<T>(s: Seq<T>, keys: Seq<u32>, lv: Seq<u32>, p: u32, n: int)
    requires
        !lv.contains(p),
    ensures
        part(s, keys, lv.push(p), n).to_multiset() == part(s, keys, lv, n).to_multiset().add(
            bucket(s, keys, p, n).to_multiset(),
        ),
    decreases n,
{
    broadcast use vstd::multiset::group_multiset_axioms, vstd::seq_lib::group_to_multiset_ensures;

    if n <= 0 {
        assert(part(s, keys, lv.push(p), n).to_multiset() =~= Multiset::empty());
        assert(part(s, keys, lv, n).to_multiset() =~= Multiset::empty());
        assert(bucket(s, keys, p, n).to_multiset() =~= Multiset::empty());
    } else {
        lemma_part_split(s, keys, lv, p, n - 1);
        let k = keys[n - 1];
        let lp = lv.push(p);
        if lv.contains(k) {
            let a = choose|a: int| 0 <= a < lv.len() && lv[a] == k;
            assert(lp[a] == k);
        }
        if k == p {
            assert(lp[lv.len() as int] == p);
        }
        if lp.contains(k) {
            let a = choose|a: int| 0 <= a < lp.len() && lp[a] == k;
            if a < lv.len() {
                assert(lv[a] == k);
            }
        }
        assert(lp.contains(k) <==> (lv.contains(k) || k == p));
        let x = s[n - 1];
        let pa = part(s, keys, lp, n - 1).to_multiset();
        let pb = part(s, keys, lv, n - 1).to_multiset();
        let bb = bucket(s, keys, p, n - 1).to_multiset();
        if lv.contains(k) {
            assert(pa.insert(x) =~= pb.insert(x).add(bb));
        } else if k == p {
            assert(pa.insert(x) =~= pb.add(bb.insert(x)));
        } else {
        }
    }
}

proof fn lemma_part_all<T>(s: Seq<T>, keys: Seq<u32>, lv: Seq<u32>, n: int)
    requires
        0 <= n <= s.len(),
        forall|i: int| 0 <= i < n ==> lv.contains(#[trigger] keys[i]),
    ensures
        part(s, keys, lv, n) == s.take(n),
    decreases n,
{
    if n > 0 {
        lemma_part_all(s, keys, lv, n - 1);
        assert(s.take(n) =~= s.take(n - 1).push(s[n - 1]));
    } else {
        assert(s.take(n) =~= Seq::<T>::empty());
    }
}

proof fn lemma_sort_part<T>(s: Seq<T>, keys: Seq<u32>, levels: Seq<u32>)
    requires
        forall|a: int, b: int| 0 <= a < b < levels.len() ==> levels[a] != levels[b],
    ensures
        sort_by_levels(s, keys, levels).to_multiset() == part(s, keys, levels, s.len() as int).to_multiset(),
    decreases levels.len(),
{
    broadcast use vstd::seq_lib::lemma_multiset_commutative;

    if levels.len() == 0 {
        lemma_part_empty(s, keys, levels, s.len() as int);
        assert(sort_by_levels(s, keys, levels) =~= Seq::<T>::empty());
    } else {
        let l = levels.drop_last();
        let p = levels.last();
        lemma_sort_part(s, keys, l);
        if l.contains(p) {
            let a = choose|a: int| 0 <= a < l.len() && l[a] == p;
            assert(levels[a] == levels[levels.len() - 1]);
        }
        assert(l.push(p) =~= levels);
        lemma_part_split(s, keys, l, p, s.len() as int);
    }
}

/// Sorting by levels that cover every key only reorders: the result holds the
/// same elements, each as often, as the input.
pub proof fn lemma_sort_by_levels_permutes<T>(s: Seq<T>, keys: Seq<u32>, levels: Seq<u32>)
    requires
        keys.len() == s.len(),
        forall|a: int, b: int| 0 <= a < b < levels.len() ==> levels[a] != levels[b],
        forall|i: int| 0 <= i < s.len() ==> levels.contains(#[trigger] keys[i]),
    ensures
        sort_by_levels(s, keys, levels).to_multiset() == s.to_multiset(),
{
    lemma_sort_part(s, keys, levels);
    lemma_part_all(s, keys, levels, s.len() as int);
    assert(s.take(s.len() as int) =~= s);
}

} // verus!
