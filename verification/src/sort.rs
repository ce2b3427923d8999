//! Stable sorting by an integer key.

use vstd::prelude::*;

verus! {

/// Values that are ordered by a 64-bit key.
pub trait SortKey: Sized {
    /// The key of a value.
    spec fn spec_key(&self) -> u64;

    /// Computes the key of a value.
    fn sort_key(&self) -> (r: u64)
        ensures
            r == self.spec_key(),
    ;
}

/// The test for key `k`.
pub open spec fn key_is<T: SortKey>(k: u64) -> spec_fn(T) -> bool {
    |x: T| x.spec_key() == k
}

/// The values of `s` whose key is `k`, in order.
pub open spec fn with_key<T: SortKey>(s: Seq<T>, k: u64) -> Seq<T> {
    s.filter(key_is(k))
}

/// `s` is in non-decreasing key order.
pub open spec fn sorted_by_key<T: SortKey>(s: Seq<T>) -> bool {
    forall|i: int, j: int| 0 <= i <= j < s.len() ==> #[trigger] s[i].spec_key() <= #[trigger] s[j].spec_key()
}

/// `r` is `s` stably sorted by key: it is in key order, and the values of any
/// one key come in the order they had in `s`.
pub open spec fn stably_sorted<T: SortKey>(s: Seq<T>, r: Seq<T>) -> bool {
    &&& sorted_by_key(r)
    &&& forall|k: u64| #[trigger] with_key(r, k) == with_key(s, k)
}

proof fn lemma_filter_none<T>(s: Seq<T>, p: spec_fn(T) -> bool)
    requires
        forall|i: int| 0 <= i < s.len() ==> !p(#[trigger] s[i]),
    ensures
        s.filter(p) == Seq::<T>::empty(),
    decreases s.len(),
{
    reveal(Seq::filter);
    if s.len() > 0 {
        lemma_filter_none(s.drop_last(), p);
    }
}

proof fn lemma_insert_keys<T: SortKey>(res: Seq<T>, p: int, x: T, k: u64)
    requires
        0 <= p <= res.len(),
        forall|i: int| p <= i < res.len() ==> #[trigger] res[i].spec_key() > x.spec_key(),
    ensures
        with_key(res.insert(p, x), k) == if x.spec_key() == k {
            with_key(res, k).push(x)
        } else {
            with_key(res, k)
        },
{
    let pred = key_is::<T>(k);
    let a = res.subrange(0, p);
    let b = res.subrange(p, res.len() as int);
    assert(res =~= a + b);
    assert(res.insert(p, x) =~= a.push(x) + b);
    Seq::filter_distributes_over_add(a, b, pred);
    Seq::filter_distributes_over_add(a.push(x), b, pred);
    a.lemma_filter_push(x, pred);
    if x.spec_key() == k {
        assert forall|i: int| 0 <= i < b.len() implies !pred(#[trigger] b[i]) by {
            assert(b[i] == res[p + i]);
        }
        lemma_filter_none(b, pred);
        assert(b.filter(pred) =~= Seq::<T>::empty());
        assert(a.filter(pred) + b.filter(pred) =~= a.filter(pred));
        assert(a.filter(pred).push(x) + b.filter(pred) =~= a.filter(pred).push(x));
    } else {
        assert(a.push(x).filter(pred) == a.filter(pred));
    }
}

/// Every value of a stable sort comes from the sorted sequence.
pub proof fn lemma_sorted_from<T: SortKey>(s: Seq<T>, r: Seq<T>, i: int)
    requires
        stably_sorted(s, r),
        0 <= i < r.len(),
    ensures
        s.contains(r[i]),
{
    let k = r[i].spec_key();
    r.lemma_filter_contains(key_is(k), i);
    assert(with_key(r, k) == with_key(s, k));
    s.lemma_filter_contains_rev(key_is(k), r[i]);
}

/// The test for images whose key, by `kf`, is `k`.
pub open spec fn image_key_is<V>(kf: spec_fn(V) -> u64, k: u64) -> spec_fn(V) -> bool {
    |v: V| kf(v) == k
}

/// The images `vs` are in non-decreasing order of their keys by `kf`.
pub open spec fn images_sorted<V>(vs: Seq<V>, kf: spec_fn(V) -> u64) -> bool {
    forall|i: int, j: int| 0 <= i <= j < vs.len() ==> kf(#[trigger] vs[i]) <= kf(#[trigger] vs[j])
}

/// Taking the values of one key, then their images, gives the images of
/// that key, when a value's key is the key of its image.
proof fn lemma_filter_map<T: SortKey, V>(s: Seq<T>, f: spec_fn(T) -> V, kf: spec_fn(V) -> u64, k: u64)
    requires
        forall|x: T| #[trigger] x.spec_key() == kf(f(x)),
    ensures
        with_key(s, k).map_values(f) == s.map_values(f).filter(image_key_is(kf, k)),
    decreases s.len(),
{
    reveal(Seq::filter);
    if s.len() > 0 {
        lemma_filter_map(s.drop_last(), f, kf, k);
        assert(s.map_values(f).drop_last() =~= s.drop_last().map_values(f));
        assert(s.last().spec_key() == kf(f(s.last())));
        if s.last().spec_key() == k {
            assert(with_key(s, k) == with_key(s.drop_last(), k).push(s.last()));
            assert(with_key(s, k).map_values(f) =~= with_key(s.drop_last(), k).map_values(f).push(f(s.last())));
        } else {
            assert(with_key(s, k) == with_key(s.drop_last(), k));
        }
    } else {
        assert(with_key(s, k).map_values(f) =~= s.map_values(f).filter(image_key_is(kf, k)));
    }
}

/// Two sequences sorted by key that hold, key by key, the same values in the
/// same order are equal.
proof fn lemma_sorted_unique<V>(a: Seq<V>, b: Seq<V>, kf: spec_fn(V) -> u64)
    requires
        images_sorted(a, kf),
        images_sorted(b, kf),
        forall|k: u64| #[trigger] a.filter(image_key_is(kf, k)) == b.filter(image_key_is(kf, k)),
    ensures
        a == b,
    decreases a.len() + b.len(),
{
    reveal(Seq::filter);
    if a.len() == 0 && b.len() == 0 {
        assert(a =~= b);
    } else if a.len() == 0 {
        let k = kf(b.last());
        assert(b.filter(image_key_is(kf, k)).len() > 0);
        assert(a.filter(image_key_is(kf, k)) == a);
    } else if b.len() == 0 {
        let k = kf(a.last());
        assert(a.filter(image_key_is(kf, k)).len() > 0);
        assert(b.filter(image_key_is(kf, k)) == b);
    } else {
        let ka = kf(a.last());
        let kb = kf(b.last());
        let pa = image_key_is(kf, ka);
        let pb = image_key_is(kf, kb);
        assert(a.filter(pa) == a.drop_last().filter(pa).push(a.last()));
        assert(b.filter(pb) == b.drop_last().filter(pb).push(b.last()));
        assert(ka == kb) by {
            b.filter_lemma(pa);
            a.filter_lemma(pb);
            let x = b.filter(pa).last();
            assert(b.filter(pa).len() > 0);
            assert(b.filter(pa)[b.filter(pa).len() - 1] == x);
            assert(b.filter(pa).contains(x));
            assert(pa(x));
            b.lemma_filter_contains_rev(pa, x);
            let i = choose|i: int| 0 <= i < b.len() && b[i] == x;
            assert(kf(b[i]) <= kf(b[b.len() - 1]));
            let y = a.filter(pb).last();
            assert(a.filter(pb).len() > 0);
            assert(a.filter(pb)[a.filter(pb).len() - 1] == y);
            assert(a.filter(pb).contains(y));
            assert(pb(y));
            a.lemma_filter_contains_rev(pb, y);
            let j = choose|j: int| 0 <= j < a.len() && a[j] == y;
            assert(kf(a[j]) <= kf(a[a.len() - 1]));
        }
        assert(pa == pb);
        assert(a.filter(pa) == b.filter(pa));
        assert(a.filter(pa).last() == a.last());
        assert(b.filter(pb).last() == b.last());
        assert(a.last() == b.last());
        let a2 = a.drop_last();
        let b2 = b.drop_last();
        assert forall|k: u64| #[trigger] a2.filter(image_key_is(kf, k)) == b2.filter(image_key_is(kf, k)) by {
            let p = image_key_is(kf, k);
            assert(a.filter(p) == b.filter(p));
            if k == ka {
                assert(a2.filter(p) == a.filter(p).drop_last());
                assert(b2.filter(p) == b.filter(p).drop_last());
            } else {
                assert(a2.filter(p) == a.filter(p));
                assert(b2.filter(p) == b.filter(p));
            }
        }
        assert forall|i: int, j: int| 0 <= i <= j < a2.len() implies kf(#[trigger] a2[i]) <= kf(#[trigger] a2[j]) by {
            assert(a2[i] == a[i] && a2[j] == a[j]);
        }
        assert forall|i: int, j: int| 0 <= i <= j < b2.len() implies kf(#[trigger] b2[i]) <= kf(#[trigger] b2[j]) by {
            assert(b2[i] == b[i] && b2[j] == b[j]);
        }
        lemma_sorted_unique(a2, b2, kf);
        assert(a =~= a2.push(a.last()));
        assert(b =~= b2.push(b.last()));
    }
}

/// A stable sort's outcome is fixed, seen through `f`, by what is sorted
/// seen through `f`, when the key of a value is the key of its image.
pub proof fn lemma_stable_sort_unique<T: SortKey, V>(
    s1: Seq<T>,
    r1: Seq<T>,
    s2: Seq<T>,
    r2: Seq<T>,
    f: spec_fn(T) -> V,
    kf: spec_fn(V) -> u64,
)
    requires
        forall|x: T| #[trigger] x.spec_key() == kf(f(x)),
        s1.map_values(f) == s2.map_values(f),
        stably_sorted(s1, r1),
        stably_sorted(s2, r2),
    ensures
        r1.map_values(f) == r2.map_values(f),
{
    let a = r1.map_values(f);
    let b = r2.map_values(f);
    assert forall|k: u64| #[trigger] a.filter(image_key_is(kf, k)) == b.filter(image_key_is(kf, k)) by {
        lemma_filter_map(r1, f, kf, k);
        lemma_filter_map(r2, f, kf, k);
        lemma_filter_map(s1, f, kf, k);
        lemma_filter_map(s2, f, kf, k);
        assert(with_key(r1, k) == with_key(s1, k));
        assert(with_key(r2, k) == with_key(s2, k));
    }
    assert forall|i: int, j: int| 0 <= i <= j < a.len() implies kf(#[trigger] a[i]) <= kf(#[trigger] a[j]) by {
        assert(r1[i].spec_key() <= r1[j].spec_key());
        assert(r1[i].spec_key() == kf(f(r1[i])));
        assert(r1[j].spec_key() == kf(f(r1[j])));
    }
    assert forall|i: int, j: int| 0 <= i <= j < b.len() implies kf(#[trigger] b[i]) <= kf(#[trigger] b[j]) by {
        assert(r2[i].spec_key() <= r2[j].spec_key());
        assert(r2[i].spec_key() == kf(f(r2[i])));
        assert(r2[j].spec_key() == kf(f(r2[j])));
    }
    lemma_sorted_unique(a, b, kf);
}

/// Sorts `v` by key, keeping values with equal keys in their order.
pub fn stable_sort_by_key<T: SortKey>(v: Vec<T>) -> (r: Vec<T>)
    ensures
        stably_sorted(v@, r@),
        r@.len() == v@.len(),
{
    let ghost orig = v@;
    let total = v.len();
    assert(orig.len() == total);
    let mut input = v;
    let mut res: Vec<T> = Vec::new();
    let mut i: usize = 0;
    while input.len() > 0
        invariant
            i + input@.len() == orig.len(),
            orig.len() <= usize::MAX,
            input@ == orig.subrange(i as int, orig.len() as int),
            sorted_by_key(res@),
            res@.len() == i,
            forall|k: u64| #[trigger] with_key(res@, k) == with_key(orig.subrange(0, i as int), k),
        decreases input@.len(),
    {
        let x = input.remove(0);
        let kx = x.sort_key();
        let mut p: usize = 0;
        while p < res.len() && res[p].sort_key() <= kx
            invariant
                p <= res@.len(),
                forall|q: int| 0 <= q < p ==> #[trigger] res@[q].spec_key() <= kx,
            decreases res@.len() - p,
        {
            p = p + 1;
        }
        let ghost old_res = res@;
        proof {
            assert forall|q: int| p <= q < old_res.len() implies #[trigger] old_res[q].spec_key() > x.spec_key() by {
                if p < old_res.len() {
                    assert(old_res[p as int].spec_key() > kx);
                    assert(old_res[p as int].spec_key() <= old_res[q].spec_key());
                }
            }
        }
        res.insert(p, x);
        proof {
            assert(x == orig[i as int]);
            assert(orig.subrange(0, i + 1) =~= orig.subrange(0, i as int).push(x));
            assert forall|k: u64| #[trigger] with_key(res@, k) == with_key(orig.subrange(0, i + 1), k) by {
                lemma_insert_keys(old_res, p as int, x, k);
                orig.subrange(0, i as int).lemma_filter_push(x, key_is::<T>(k));
            }
            assert forall|a: int, b: int| 0 <= a <= b < res@.len() implies #[trigger] res@[a].spec_key() <= #[trigger] res@[b].spec_key() by {
                if a < p && b < p {
                    assert(res@[a] == old_res[a] && res@[b] == old_res[b]);
                } else if a < p && b == p {
                    assert(res@[a] == old_res[a]);
                } else if a < p {
                    assert(res@[a] == old_res[a] && res@[b] == old_res[b - 1]);
                } else if a == p && b > p {
                    assert(res@[b] == old_res[b - 1]);
                } else if a > p {
                    assert(res@[a] == old_res[a - 1] && res@[b] == old_res[b - 1]);
                }
            }
        }
        i = i + 1;
        assert(input@ =~= orig.subrange(i as int, orig.len() as int));
    }
    assert(orig.subrange(0, i as int) =~= orig);
    res
}

} // verus!
