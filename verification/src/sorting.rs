use vstd::prelude::*;

verus! {

/// `lt` is a strict total order on keys.
pub open spec fn strict_total_order<K>(lt: spec_fn(K, K) -> bool) -> bool {
    &&& forall|a: K| !(#[trigger] lt(a, a))
    &&& forall|a: K, b: K, c: K| #[trigger] lt(a, b) && #[trigger] lt(b, c) ==> lt(a, c)
    &&& forall|a: K, b: K| a != b ==> #[trigger] lt(a, b) || lt(b, a)
}

/// No element of `s` has a key that comes strictly before the key of an
/// element in front of it.
pub open spec fn sorted_by_key<T, K>(s: Seq<T>, key: spec_fn(T) -> K, lt: spec_fn(K, K) -> bool) -> bool {
    forall|i: int, j: int| 0 <= i < j < s.len() ==> !lt(key(#[trigger] s[j]), key(#[trigger] s[i]))
}

/// The elements of `s` whose key is `k`, in their order in `s`.
pub open spec fn with_key<T, K>(s: Seq<T>, key: spec_fn(T) -> K, k: K) -> Seq<T> {
    s.filter(|x: T| key(x) == k)
}

/// `r` is the stable sort of `s` by `key`: it is ordered, and for every key
/// it holds exactly the elements of `s` with that key, in their order in `s`.
pub open spec fn is_stable_sort<T, K>(
    r: Seq<T>,
    s: Seq<T>,
    key: spec_fn(T) -> K,
    lt: spec_fn(K, K) -> bool,
) -> bool {
    &&& sorted_by_key(r, key, lt)
    &&& forall|k: K| #[trigger] with_key(r, key, k) == with_key(s, key, k)
}

pub proof fn lemma_with_key_add<T, K>(a: Seq<T>, b: Seq<T>, key: spec_fn(T) -> K, k: K)
    ensures
        with_key(a + b, key, k) == with_key(a, key, k) + with_key(b, key, k),
{
    Seq::filter_distributes_over_add(a, b, |x: T| key(x) == k);
}

pub proof fn lemma_with_key_prepend<T, K>(x: T, s: Seq<T>, key: spec_fn(T) -> K, k: K)
    ensures
        with_key(seq![x] + s, key, k) == if key(x) == k {
            seq![x] + with_key(s, key, k)
        } else {
            with_key(s, key, k)
        },
{
    s.lemma_filter_prepend(x, |y: T| key(y) == k);
    if key(x) != k {
        assert(Seq::<T>::empty() + with_key(s, key, k) =~= with_key(s, key, k));
    }
}

pub proof fn lemma_with_key_none<T, K>(s: Seq<T>, key: spec_fn(T) -> K, k: K)
    requires
        forall|i: int| 0 <= i < s.len() ==> key(#[trigger] s[i]) != k,
    ensures
        with_key(s, key, k) == Seq::<T>::empty(),
{
    let p = |x: T| key(x) == k;
    assert(s.all(|x: T| !p(x))) by {
        assert forall|i: int| 0 <= i < s.len() implies !p(#[trigger] s[i]) by {}
    }
    s.lemma_all_neg_filter_empty(p);
    assert(with_key(s, key, k) =~= Seq::<T>::empty());
}

/// Inserting `x` in front of the first element whose key is not below
/// the key of `x` extends a stable sort of `s` to one of `[x] + s`.
pub proof fn lemma_insert_front_stable<T, K>(
    r: Seq<T>,
    s: Seq<T>,
    x: T,
    pos: int,
    key: spec_fn(T) -> K,
    lt: spec_fn(K, K) -> bool,
)
    requires
        strict_total_order(lt),
        is_stable_sort(r, s, key, lt),
        0 <= pos <= r.len(),
        forall|i: int| 0 <= i < pos ==> lt(key(#[trigger] r[i]), key(x)),
        pos < r.len() ==> !lt(key(r[pos]), key(x)),
    ensures
        is_stable_sort(r.insert(pos, x), seq![x] + s, key, lt),
{
    let n = r.insert(pos, x);
    assert(n =~= r.take(pos) + (seq![x] + r.skip(pos)));
    assert forall|i: int, j: int| 0 <= i < j < n.len() implies !lt(key(#[trigger] n[j]), key(#[trigger] n[i])) by {
        if j < pos {
            assert(n[i] == r[i] && n[j] == r[j]);
        } else if j == pos {
            assert(n[i] == r[i]);
            assert(lt(key(r[i]), key(x)));
        } else if i < pos {
            assert(n[i] == r[i] && n[j] == r[j - 1]);
            assert(lt(key(r[i]), key(x)));
            assert(!lt(key(r[pos]), key(x)));
            if pos < j - 1 {
                assert(!lt(key(r[j - 1]), key(r[pos])));
            }
            if lt(key(r[j - 1]), key(r[i])) {
                assert(lt(key(r[j - 1]), key(x)));
                if pos < j - 1 {
                    if key(r[pos]) != key(x) {
                        assert(lt(key(x), key(r[pos])));
                        if key(r[j - 1]) != key(r[pos]) {
                            assert(lt(key(r[pos]), key(r[j - 1])));
                        }
                    }
                }
            }
        } else if i == pos {
            assert(n[j] == r[j - 1]);
            assert(!lt(key(r[pos]), key(x)));
            if pos < j - 1 {
                assert(!lt(key(r[j - 1]), key(r[pos])));
                if lt(key(r[j - 1]), key(x)) {
                    if key(r[pos]) != key(x) {
                        assert(lt(key(x), key(r[pos])));
                    }
                    if key(r[j - 1]) != key(r[pos]) {
                        assert(lt(key(r[pos]), key(r[j - 1])));
                    }
                }
            }
        } else {
            assert(n[i] == r[i - 1] && n[j] == r[j - 1]);
        }
    }
    assert forall|k: K| #[trigger] with_key(n, key, k) == with_key(seq![x] + s, key, k) by {
        lemma_with_key_prepend(x, s, key, k);
        lemma_with_key_prepend(x, r.skip(pos), key, k);
        lemma_with_key_add(r.take(pos), seq![x] + r.skip(pos), key, k);
        lemma_with_key_add(r.take(pos), r.skip(pos), key, k);
        assert(r =~= r.take(pos) + r.skip(pos));
        if key(x) == k {
            assert forall|i: int| 0 <= i < r.take(pos).len() implies key(#[trigger] r.take(pos)[i]) != k by {
                assert(r.take(pos)[i] == r[i]);
                assert(lt(key(r[i]), key(x)));
            }
            lemma_with_key_none(r.take(pos), key, k);
            assert(Seq::<T>::empty() + (seq![x] + with_key(r.skip(pos), key, k)) =~= seq![x] + with_key(r.skip(pos), key, k));
            assert(Seq::<T>::empty() + with_key(r.skip(pos), key, k) =~= with_key(r.skip(pos), key, k));
        }
    }
}

/// A stable sort holds the same elements as what it sorted.
pub proof fn lemma_stable_sort_same_members<T, K>(r: Seq<T>, s: Seq<T>, key: spec_fn(T) -> K, lt: spec_fn(K, K) -> bool, x: T)
    requires
        is_stable_sort(r, s, key, lt),
    ensures
        r.contains(x) <==> s.contains(x),
{
    let p = |y: T| key(y) == key(x);
    if r.contains(x) {
        let i = choose|i: int| 0 <= i < r.len() && r[i] == x;
        r.lemma_filter_contains(p, i);
        assert(with_key(r, key, key(x)) == with_key(s, key, key(x)));
        assert(s.filter(p).contains(x));
        s.lemma_filter_contains_rev(p, x);
    }
    if s.contains(x) {
        let i = choose|i: int| 0 <= i < s.len() && s[i] == x;
        s.lemma_filter_contains(p, i);
        assert(with_key(r, key, key(x)) == with_key(s, key, key(x)));
        assert(r.filter(p).contains(x));
        r.lemma_filter_contains_rev(p, x);
    }
}

/// `s` without the elements whose key equals the key of the element
/// before them (`Vec::dedup_by_key`): of every run of equal keys, the
/// first element stays.
pub open spec fn dedup_by_key<T, K>(s: Seq<T>, key: spec_fn(T) -> K) -> Seq<T>
    decreases s.len(),
{
    if s.len() <= 1 {
        s
    } else {
        let d = dedup_by_key(s.drop_last(), key);
        if key(s.last()) == key(s[s.len() - 2]) {
            d
        } else {
            d.push(s.last())
        }
    }
}

proof fn lemma_dedup_facts<T, K>(s: Seq<T>, key: spec_fn(T) -> K)
    ensures
        forall|i: int| 0 <= i < dedup_by_key(s, key).len() ==> s.contains(#[trigger] dedup_by_key(s, key)[i]),
        s.len() > 0 ==> dedup_by_key(s, key).len() > 0 && key(dedup_by_key(s, key).last()) == key(s.last()),
    decreases s.len(),
{
    if s.len() > 1 {
        let t = s.drop_last();
        lemma_dedup_facts(t, key);
        let d = dedup_by_key(t, key);
        assert forall|i: int| 0 <= i < d.len() implies s.contains(#[trigger] d[i]) by {
            let j = choose|j: int| 0 <= j < t.len() && t[j] == d[i];
            assert(s[j] == d[i]);
        }
        if key(s.last()) != key(s[s.len() - 2]) {
            assert(s[s.len() - 1] == s.last());
        } else {
            assert(t.last() == s[s.len() - 2]);
        }
    } else if s.len() == 1 {
        assert(s[0] == s.last());
    }
}

/// Removing repeated keys from a sorted sequence leaves keys in strictly
/// increasing order: no key occurs twice.
pub proof fn lemma_dedup_sorted_strict<T, K>(s: Seq<T>, key: spec_fn(T) -> K, lt: spec_fn(K, K) -> bool)
    requires
        strict_total_order(lt),
        sorted_by_key(s, key, lt),
    ensures
        forall|i: int, j: int| 0 <= i < j < dedup_by_key(s, key).len()
            ==> lt(key(#[trigger] dedup_by_key(s, key)[i]), key(#[trigger] dedup_by_key(s, key)[j])),
    decreases s.len(),
{
    if s.len() > 1 {
        let t = s.drop_last();
        assert forall|i: int, j: int| 0 <= i < j < t.len() implies !lt(key(#[trigger] t[j]), key(#[trigger] t[i])) by {
            assert(t[i] == s[i] && t[j] == s[j]);
        }
        lemma_dedup_sorted_strict(t, key, lt);
        lemma_dedup_facts(t, key);
        let d = dedup_by_key(t, key);
        let n = s.len();
        if key(s.last()) != key(s[n - 2]) {
            let r = dedup_by_key(s, key);
            assert(r == d.push(s.last()));
            assert(!lt(key(s[n - 1]), key(s[n - 2])));
            assert(s[n - 1] == s.last());
            assert(lt(key(s[n - 2]), key(s.last())));
            assert forall|i: int, j: int| 0 <= i < j < r.len() implies lt(key(#[trigger] r[i]), key(#[trigger] r[j])) by {
                if j < d.len() {
                    assert(r[i] == d[i] && r[j] == d[j]);
                } else {
                    assert(r[i] == d[i]);
                    assert(t.contains(d[i]));
                    let m = choose|m: int| 0 <= m < t.len() && t[m] == d[i];
                    assert(s[m] == d[i]);
                    if m < n - 2 {
                        assert(!lt(key(s[n - 2]), key(s[m])));
                    }
                    if key(d[i]) != key(s[n - 2]) {
                        assert(lt(key(d[i]), key(s[n - 2])));
                    }
                }
            }
        }
    }
}

proof fn lemma_filter_two<T>(s: Seq<T>, p: spec_fn(T) -> bool, i: int, j: int)
    requires
        0 <= i < j < s.len(),
        p(s[i]),
        p(s[j]),
    ensures
        s.filter(p).len() >= 2,
    decreases s.len(),
{
    let t = s.drop_last();
    assert(s == t.push(s.last()));
    t.lemma_filter_push(s.last(), p);
    if j == s.len() - 1 {
        assert(t[i] == s[i]);
        t.lemma_filter_contains(p, i);
        assert(t.filter(p).len() > 0);
    } else {
        assert(t[i] == s[i] && t[j] == s[j]);
        lemma_filter_two(t, p, i, j);
    }
}

proof fn lemma_filter_at_most_one<T>(s: Seq<T>, p: spec_fn(T) -> bool)
    requires
        forall|i: int, j: int| 0 <= i < j < s.len() && p(#[trigger] s[i]) ==> !p(#[trigger] s[j]),
    ensures
        s.filter(p).len() <= 1,
    decreases s.len(),
{
    if s.len() > 0 {
        let t = s.drop_last();
        assert(s == t.push(s.last()));
        t.lemma_filter_push(s.last(), p);
        assert forall|i: int, j: int| 0 <= i < j < t.len() && p(#[trigger] t[i]) implies !p(#[trigger] t[j]) by {
            assert(t[i] == s[i] && t[j] == s[j]);
        }
        lemma_filter_at_most_one(t, p);
        if p(s.last()) {
            assert(t.all(|x: T| !p(x))) by {
                assert forall|i: int| 0 <= i < t.len() implies !p(#[trigger] t[i]) by {
                    assert(t[i] == s[i]);
                    assert(s[s.len() - 1] == s.last());
                }
            }
            t.lemma_all_neg_filter_empty(p);
        }
    }
}

/// A stable sort of elements with pairwise different keys has pairwise
/// different keys.
pub proof fn lemma_stable_sort_distinct_keys<T, K>(r: Seq<T>, s: Seq<T>, key: spec_fn(T) -> K, lt: spec_fn(K, K) -> bool)
    requires
        is_stable_sort(r, s, key, lt),
        forall|i: int, j: int| 0 <= i < j < s.len() ==> key(#[trigger] s[i]) != key(#[trigger] s[j]),
    ensures
        forall|i: int, j: int| 0 <= i < j < r.len() ==> key(#[trigger] r[i]) != key(#[trigger] r[j]),
{
    assert forall|i: int, j: int| 0 <= i < j < r.len() implies key(#[trigger] r[i]) != key(#[trigger] r[j]) by {
        if key(r[i]) == key(r[j]) {
            let k = key(r[i]);
            let p = |x: T| key(x) == k;
            lemma_filter_two(r, p, i, j);
            assert(with_key(r, key, k) == with_key(s, key, k));
            assert forall|a: int, b: int| 0 <= a < b < s.len() && p(#[trigger] s[a]) implies !p(#[trigger] s[b]) by {
                assert(key(s[a]) != key(s[b]));
            }
            lemma_filter_at_most_one(s, p);
        }
    }
}

} // verus!
