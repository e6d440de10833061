//! Stable ordering of a sequence by an integer key.
use vstd::prelude::*;
use vstd::seq_lib::to_multiset_build;
use vstd::seq_lib::to_multiset_insert;

verus! {

/// Where an element with key `k` goes in `s` so that it lands after every
/// element whose key is at most `k` and before the trailing run of larger keys.
pub open spec fn insert_point<A>(s: Seq<A>, key: spec_fn(A) -> int, k: int) -> int
    decreases s.len(),
{
    if s.len() == 0 {
        0
    } else if key(s.last()) <= k {
        s.len() as int
    } else {
        insert_point(s.drop_last(), key, k)
    }
}

/// `s` ordered by ascending `key`, equal keys keeping their order in `s`.
pub open spec fn stable_sort<A>(s: Seq<A>, key: spec_fn(A) -> int) -> Seq<A>
    decreases s.len(),
{
    if s.len() == 0 {
        s
    } else {
        let t = stable_sort(s.drop_last(), key);
        t.insert(insert_point(t, key, key(s.last())), s.last())
    }
}

/// Keys never decrease along `s`.
pub open spec fn sorted_by<A>(s: Seq<A>, key: spec_fn(A) -> int) -> bool {
    forall|i: int, j: int| 0 <= i <= j < s.len() ==> key(s[i]) <= key(s[j])
}

/// Holds of the elements whose key is `v`.
pub open spec fn has_key<A>(key: spec_fn(A) -> int, v: int) -> spec_fn(A) -> bool {
    |x: A| key(x) == v
}

/// The elements of `s` whose key is `v`, in their order in `s`.
pub open spec fn with_key<A>(s: Seq<A>, key: spec_fn(A) -> int, v: int) -> Seq<A> {
    s.filter(has_key(key, v))
}

proof fn lemma_insert_point<A>(s: Seq<A>, key: spec_fn(A) -> int, k: int)
    ensures
        0 <= insert_point(s, key, k) <= s.len(),
        forall|t: int| insert_point(s, key, k) <= t < s.len() ==> key(#[trigger] s[t]) > k,
        insert_point(s, key, k) > 0 ==> key(s[insert_point(s, key, k) - 1]) <= k,
    decreases s.len(),
{
    if s.len() > 0 && key(s.last()) > k {
        lemma_insert_point(s.drop_last(), key, k);
        assert forall|t: int| insert_point(s, key, k) <= t < s.len() implies key(#[trigger] s[t])
            > k by {
            if t < s.len() - 1 {
                assert(s[t] == s.drop_last()[t]);
            }
        }
    }
}

/// Sorting keeps exactly the same elements, each as often.
pub proof fn lemma_sort_permutes<A>(s: Seq<A>, key: spec_fn(A) -> int)
    ensures
        stable_sort(s, key).len() == s.len(),
        stable_sort(s, key).to_multiset() == s.to_multiset(),
    decreases s.len(),
{
    if s.len() > 0 {
        let t = stable_sort(s.drop_last(), key);
        lemma_sort_permutes(s.drop_last(), key);
        lemma_insert_point(t, key, key(s.last()));
        to_multiset_insert(t, insert_point(t, key, key(s.last())), s.last());
        to_multiset_build(s.drop_last(), s.last());
        assert(s.drop_last().push(s.last()) =~= s);
    }
}

/// The sorted sequence has non-decreasing keys.
pub proof fn lemma_sort_sorted<A>(s: Seq<A>, key: spec_fn(A) -> int)
    ensures
        sorted_by(stable_sort(s, key), key),
    decreases s.len(),
{
    if s.len() > 0 {
        let t = stable_sort(s.drop_last(), key);
        let x = s.last();
        let p = insert_point(t, key, key(x));
        lemma_sort_sorted(s.drop_last(), key);
        lemma_insert_point(t, key, key(x));
        let r = t.insert(p, x);
        assert forall|i: int, j: int| 0 <= i <= j < r.len() implies key(r[i]) <= key(r[j]) by {
            if i < p && j < p {
            } else if i < p && j == p {
                assert(key(t[i]) <= key(t[p - 1]));
            } else if i < p {
                assert(r[j] == t[j - 1]);
            } else if i == p && j > p {
                assert(r[j] == t[j - 1]);
            } else if i > p {
                assert(r[i] == t[i - 1] && r[j] == t[j - 1]);
            }
        }
    }
}

/// Sorting an already sorted sequence changes nothing.
pub proof fn lemma_sort_of_sorted<A>(s: Seq<A>, key: spec_fn(A) -> int)
    requires
        sorted_by(s, key),
    ensures
        stable_sort(s, key) == s,
    decreases s.len(),
{
    if s.len() > 0 {
        let u = s.drop_last();
        assert(sorted_by(u, key));
        lemma_sort_of_sorted(u, key);
        if u.len() > 0 {
            assert(key(u.last()) <= key(s.last()));
        }
        assert(u.insert(u.len() as int, s.last()) =~= s);
    }
}

/// Among elements with equal keys the order of `s` is kept.
pub proof fn lemma_sort_stable<A>(s: Seq<A>, key: spec_fn(A) -> int, v: int)
    ensures
        with_key(stable_sort(s, key), key, v) == with_key(s, key, v),
    decreases s.len(),
{
    if s.len() > 0 {
        let pred = has_key(key, v);
        let u = s.drop_last();
        let x = s.last();
        let t = stable_sort(u, key);
        let p = insert_point(t, key, key(x));
        lemma_sort_stable(u, key, v);
        lemma_insert_point(t, key, key(x));
        let front = t.take(p);
        let back = t.skip(p);
        assert(t =~= front + back);
        assert(t.insert(p, x) =~= front + seq![x] + back);
        Seq::filter_distributes_over_add(front, back, pred);
        Seq::filter_distributes_over_add(front + seq![x], back, pred);
        Seq::filter_distributes_over_add(front, seq![x], pred);
        assert(u.push(x) =~= s);
        u.lemma_filter_push(x, pred);
        Seq::<A>::empty().lemma_filter_push(x, pred);
        assert(seq![x] =~= Seq::<A>::empty().push(x));
        assert(Seq::<A>::empty().filter(pred) =~= Seq::<A>::empty()) by {
            reveal(Seq::filter);
        }
        if key(x) == v {
            assert(back.all(|y: A| !pred(y))) by {
                assert forall|i: int| 0 <= i < back.len() implies !pred(#[trigger] back[i]) by {
                    assert(back[i] == t[p + i]);
                }
            }
            back.lemma_all_neg_filter_empty(pred);
            assert(back.filter(pred) =~= Seq::<A>::empty());
            assert(front.filter(pred) + seq![x] + back.filter(pred) =~= (front.filter(pred)
                + back.filter(pred)).push(x));
        } else {
            assert(front.filter(pred) + Seq::<A>::empty() =~= front.filter(pred));
        }
    }
}

/// Exec position matching `insert_point`, read from the cached keys.
fn insertion_index<T>(out: &Vec<T>, keys: &Vec<i128>, k: i128, Ghost(key): Ghost<spec_fn(T) -> int>) -> (r: usize)
    requires
        out.len() == keys.len(),
        forall|t: int| 0 <= t < keys.len() ==> keys[t] as int == key(#[trigger] out@[t]),
    ensures
        r as int == insert_point(out@, key, k as int),
        r <= out.len(),
{
    let mut i = keys.len();
    assert(out@.take(i as int) =~= out@);
    while i > 0
        invariant
            out.len() == keys.len(),
            forall|t: int| 0 <= t < keys.len() ==> keys[t] as int == key(#[trigger] out@[t]),
            i <= out.len(),
            insert_point(out@, key, k as int) == insert_point(out@.take(i as int), key, k as int),
        decreases i,
    {
        assert(out@.take(i as int).last() == out@[i - 1]);
        if keys[i - 1] <= k {
            return i;
        }
        assert(out@.take(i as int).drop_last() =~= out@.take(i - 1));
        i = i - 1;
    }
    i
}

/// Orders `v` stably by `key`, whose values for each element are given in `keys`.
pub(crate) fn sort_by_keys<T>(v: Vec<T>, keys: &Vec<i128>, Ghost(key): Ghost<spec_fn(T) -> int>) -> (r: Vec<T>)
    requires
        v.len() == keys.len(),
        forall|i: int| 0 <= i < keys.len() ==> keys[i] as int == key(#[trigger] v@[i]),
    ensures
        r@ == stable_sort(v@, key),
{
    let ghost s = v@;
    let n = keys.len();
    let mut rest = v;
    let mut out: Vec<T> = Vec::new();
    let mut out_keys: Vec<i128> = Vec::new();
    let mut i: usize = 0;
    assert(s.take(0) =~= Seq::<T>::empty());
    assert(s.skip(0) =~= s);
    while i < n
        invariant
            n == keys.len(),
            n == s.len(),
            i <= n,
            forall|j: int| 0 <= j < keys.len() ==> keys[j] as int == key(#[trigger] s[j]),
            rest@ == s.skip(i as int),
            out@ == stable_sort(s.take(i as int), key),
            out_keys.len() == out.len(),
            forall|t: int| 0 <= t < out_keys.len() ==> out_keys[t] as int == key(#[trigger] out@[t]),
        decreases n - i,
    {
        let x = rest.remove(0);
        let k = keys[i];
        let p = insertion_index(&out, &out_keys, k, Ghost(key));
        proof {
            assert(s.take(i + 1).drop_last() =~= s.take(i as int));
            assert(s.take(i + 1).last() == s[i as int]);
            assert(s.skip(i as int).remove(0) =~= s.skip(i + 1));
        }
        let ghost old_out = out@;
        let ghost old_keys = out_keys@;
        out.insert(p, x);
        out_keys.insert(p, k);
        proof {
            assert forall|t: int| 0 <= t < out_keys.len() implies out_keys[t] as int == key(
                #[trigger] out@[t],
            ) by {
                if t < p {
                    assert(out@[t] == old_out[t]);
                } else if t > p {
                    assert(out@[t] == old_out[t - 1]);
                    assert(out_keys@[t] == old_keys[t - 1]);
                }
            }
        }
        i = i + 1;
    }
    assert(s.take(n as int) =~= s);
    out
}

} // verus!
