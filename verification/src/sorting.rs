//! Stable sorting by an integer key, stated as insertion sort over sequences.
use vstd::prelude::*;

verus! {

/// `x` placed after every element of `s` whose key is not greater than its own
/// (`s` is expected to be sorted by `key`).
pub open spec fn insert_by_key<T>(s: Seq<T>, x: T, key: spec_fn(T) -> int) -> Seq<T>
    decreases s.len(),
{
    if s.len() == 0 {
        seq![x]
    } else if key(s.last()) <= key(x) {
        s.push(x)
    } else {
        insert_by_key(s.drop_last(), x, key).push(s.last())
    }
}

/// Stable sort by `key`: elements with equal keys keep their relative order.
pub open spec fn sort_by_key<T>(s: Seq<T>, key: spec_fn(T) -> int) -> Seq<T>
    decreases s.len(),
{
    if s.len() == 0 {
        seq![]
    } else {
        insert_by_key(sort_by_key(s.drop_last(), key), s.last(), key)
    }
}

/// Keys never decrease along the sequence.
pub open spec fn sorted_by_key<T>(s: Seq<T>, key: spec_fn(T) -> int) -> bool {
    forall|i: int, j: int| 0 <= i <= j < s.len() ==> key(s[i]) <= key(s[j])
}

/// Inserting at the first position from the end whose predecessor does not have a
/// larger key is what `insert_by_key` does.
pub proof fn lemma_insert_at<T>(s: Seq<T>, x: T, key: spec_fn(T) -> int, p: int)
    requires
        0 <= p <= s.len(),
        forall|i: int| p <= i < s.len() ==> key(#[trigger] s[i]) > key(x),
        p > 0 ==> key(s[p - 1]) <= key(x),
    ensures
        insert_by_key(s, x, key) == s.take(p).push(x) + s.skip(p),
    decreases s.len(),
{
    if s.len() == 0 {
        assert(s.take(p).push(x) + s.skip(p) =~= seq![x]);
    } else if p == s.len() {
        assert(s.take(p).push(x) + s.skip(p) =~= s.push(x));
    } else {
        lemma_insert_at(s.drop_last(), x, key, p);
        assert(s.drop_last().take(p).push(x) + s.drop_last().skip(p) + seq![s.last()] =~= s.take(p).push(x)
            + s.skip(p));
    }
}

/// Inserting into a sorted sequence keeps it sorted, and adds exactly the new element.
pub proof fn lemma_insert_sorted<T>(s: Seq<T>, x: T, key: spec_fn(T) -> int)
    requires
        sorted_by_key(s, key),
    ensures
        sorted_by_key(insert_by_key(s, x, key), key),
        insert_by_key(s, x, key).to_multiset() == s.to_multiset().insert(x),
        insert_by_key(s, x, key).len() == s.len() + 1,
    decreases s.len(),
{
    broadcast use vstd::seq_lib::group_to_multiset_ensures;
    if s.len() == 0 {
        assert(seq![x] =~= Seq::<T>::empty().push(x));
    } else if key(s.last()) <= key(x) {
    } else {
        let d = s.drop_last();
        assert(sorted_by_key(d, key));
        lemma_insert_sorted(d, x, key);
        let r = insert_by_key(d, x, key);
        assert(s =~= d.push(s.last()));
        assert forall|i: int| 0 <= i < r.len() implies key(#[trigger] r[i]) <= key(s.last()) by {
            assert(r.to_multiset().count(r[i]) > 0);
            if r[i] != x {
                assert(d.contains(r[i]));
                let j = choose|j: int| 0 <= j < d.len() && d[j] == r[i];
                assert(s[j] == d[j]);
            }
        }
        assert forall|i: int, j: int| 0 <= i <= j < r.push(s.last()).len() implies key(
            r.push(s.last())[i],
        ) <= key(r.push(s.last())[j]) by {
            if j == r.len() && i < r.len() {
                assert(key(r[i]) <= key(s.last()));
            }
        }
    }
}

/// Sorting gives a sorted sequence holding the same elements.
pub proof fn lemma_sort_sorted<T>(s: Seq<T>, key: spec_fn(T) -> int)
    ensures
        sorted_by_key(sort_by_key(s, key), key),
        sort_by_key(s, key).to_multiset() == s.to_multiset(),
        sort_by_key(s, key).len() == s.len(),
    decreases s.len(),
{
    broadcast use vstd::seq_lib::group_to_multiset_ensures;
    if s.len() > 0 {
        lemma_sort_sorted(s.drop_last(), key);
        lemma_insert_sorted(sort_by_key(s.drop_last(), key), s.last(), key);
        assert(s =~= s.drop_last().push(s.last()));
    }
}

/// A sequence that is already sorted is left as it is.
pub proof fn lemma_sort_of_sorted<T>(s: Seq<T>, key: spec_fn(T) -> int)
    requires
        sorted_by_key(s, key),
    ensures
        sort_by_key(s, key) == s,
    decreases s.len(),
{
    if s.len() > 0 {
        let d = s.drop_last();
        assert(sorted_by_key(d, key));
        lemma_sort_of_sorted(d, key);
        if d.len() > 0 {
            assert(key(d.last()) <= key(s.last()));
        }
        assert(d.push(s.last()) =~= s);
    }
}

/// `f` takes different values at different positions of `s`.
pub open spec fn distinct_by<T>(s: Seq<T>, f: spec_fn(T) -> int) -> bool {
    forall|i: int, j: int| 0 <= i < j < s.len() ==> f(#[trigger] s[i]) != f(#[trigger] s[j])
}

/// Every element of `t` is an element of `s`.
pub open spec fn drawn_from<T>(t: Seq<T>, s: Seq<T>) -> bool {
    forall|k: int| 0 <= k < t.len() ==> s.contains(#[trigger] t[k])
}

/// `insert_by_key` puts `x` somewhere into `s` and leaves the rest in order.
pub proof fn lemma_insert_shape<T>(s: Seq<T>, x: T, key: spec_fn(T) -> int) -> (p: int)
    ensures
        0 <= p <= s.len(),
        insert_by_key(s, x, key) == s.take(p).push(x) + s.skip(p),
    decreases s.len(),
{
    if s.len() == 0 {
        assert(s.take(0).push(x) + s.skip(0) =~= seq![x]);
        0
    } else if key(s.last()) <= key(x) {
        assert(s.take(s.len() as int).push(x) + s.skip(s.len() as int) =~= s.push(x));
        s.len() as int
    } else {
        let d = s.drop_last();
        let p = lemma_insert_shape(d, x, key);
        assert((d.take(p).push(x) + d.skip(p)).push(s.last()) =~= s.take(p).push(x) + s.skip(p));
        p
    }
}

/// Sorting keeps the length, draws every element from the input, and keeps values of
/// `f` apart that were apart.
pub proof fn lemma_sort_keeps<T>(s: Seq<T>, key: spec_fn(T) -> int, f: spec_fn(T) -> int)
    ensures
        sort_by_key(s, key).len() == s.len(),
        drawn_from(sort_by_key(s, key), s),
        distinct_by(s, f) ==> distinct_by(sort_by_key(s, key), f),
    decreases s.len(),
{
    if s.len() > 0 {
        let d = s.drop_last();
        let x = s.last();
        lemma_sort_keeps(d, key, f);
        let t = sort_by_key(d, key);
        let p = lemma_insert_shape(t, x, key);
        let r = t.take(p).push(x) + t.skip(p);
        assert forall|k: int| 0 <= k < r.len() implies (k < p && r[k] == t[k]) || (k == p
            && r[k] == x) || (k > p && r[k] == t[k - 1]) by {}
        assert forall|k: int| 0 <= k < r.len() implies s.contains(#[trigger] r[k]) by {
            if k == p {
                assert(s[s.len() - 1] == x);
            } else {
                let tk = if k < p { k } else { k - 1 };
                assert(d.contains(t[tk]));
                let j = choose|j: int| 0 <= j < d.len() && d[j] == t[tk];
                assert(s[j] == d[j]);
            }
        }
        if distinct_by(s, f) {
            assert(distinct_by(d, f)) by {
                assert forall|i: int, j: int| 0 <= i < j < d.len() implies f(#[trigger] d[i]) != f(
                    #[trigger] d[j],
                ) by {
                    assert(d[i] == s[i] && d[j] == s[j]);
                }
            }
            assert forall|k: int| 0 <= k < t.len() implies f(#[trigger] t[k]) != f(x) by {
                assert(d.contains(t[k]));
                let j = choose|j: int| 0 <= j < d.len() && d[j] == t[k];
                assert(s[j] == d[j]);
                assert(s[s.len() - 1] == x);
            }
            assert forall|i: int, j: int| 0 <= i < j < r.len() implies f(#[trigger] r[i]) != f(
                #[trigger] r[j],
            ) by {
                if i == p {
                    assert(f(t[j - 1]) != f(x));
                } else if j == p {
                    assert(f(t[i]) != f(x));
                } else {
                    let ti = if i < p { i } else { i - 1 };
                    let tj = if j < p { j } else { j - 1 };
                    assert(f(t[ti]) != f(t[tj]));
                }
            }
        }
    }
}

/// Filtering draws every element from the input, and keeps sortedness and values of `f`
/// that were apart.
pub proof fn lemma_filter_keeps<T>(
    s: Seq<T>,
    pred: spec_fn(T) -> bool,
    key: spec_fn(T) -> int,
    f: spec_fn(T) -> int,
)
    ensures
        drawn_from(s.filter(pred), s),
        distinct_by(s, f) ==> distinct_by(s.filter(pred), f),
        sorted_by_key(s, key) ==> sorted_by_key(s.filter(pred), key),
    decreases s.len(),
{
    reveal(Seq::filter);
    if s.len() > 0 {
        let d = s.drop_last();
        let x = s.last();
        lemma_filter_keeps(d, pred, key, f);
        let t = d.filter(pred);
        let r = s.filter(pred);
        assert forall|k: int| 0 <= k < t.len() implies s.contains(#[trigger] t[k]) by {
            assert(d.contains(t[k]));
            let j = choose|j: int| 0 <= j < d.len() && d[j] == t[k];
            assert(s[j] == d[j]);
        }
        if pred(x) {
            assert(r == t.push(x));
            assert forall|k: int| 0 <= k < r.len() implies s.contains(#[trigger] r[k]) by {
                if k == t.len() {
                    assert(s[s.len() - 1] == x);
                } else {
                    assert(s.contains(t[k]));
                }
            }
            if distinct_by(s, f) {
                assert(distinct_by(d, f)) by {
                    assert forall|i: int, j: int| 0 <= i < j < d.len() implies f(
                        #[trigger] d[i],
                    ) != f(#[trigger] d[j]) by {
                        assert(d[i] == s[i] && d[j] == s[j]);
                    }
                }
                assert forall|i: int, j: int| 0 <= i < j < r.len() implies f(#[trigger] r[i])
                    != f(#[trigger] r[j]) by {
                    if j == t.len() {
                        assert(d.contains(t[i]));
                        let a = choose|a: int| 0 <= a < d.len() && d[a] == t[i];
                        assert(s[a] == d[a]);
                        assert(s[s.len() - 1] == x);
                    } else {
                        assert(f(t[i]) != f(t[j]));
                    }
                }
            }
            if sorted_by_key(s, key) {
                assert(sorted_by_key(d, key)) by {
                    assert forall|i: int, j: int| 0 <= i <= j < d.len() implies key(d[i]) <= key(
                        d[j],
                    ) by {
                        assert(d[i] == s[i] && d[j] == s[j]);
                    }
                }
                assert forall|i: int, j: int| 0 <= i <= j < r.len() implies key(r[i]) <= key(
                    r[j],
                ) by {
                    if j == t.len() && i < j {
                        assert(d.contains(t[i]));
                        let a = choose|a: int| 0 <= a < d.len() && d[a] == t[i];
                        assert(s[a] == d[a]);
                        assert(key(s[a]) <= key(s[s.len() - 1]));
                    } else if i < t.len() && j < t.len() {
                        assert(key(t[i]) <= key(t[j]));
                    }
                }
            }
        } else {
            assert(r == t);
            if distinct_by(s, f) {
                assert forall|i: int, j: int| 0 <= i < j < d.len() implies f(#[trigger] d[i]) != f(
                    #[trigger] d[j],
                ) by {
                    assert(d[i] == s[i] && d[j] == s[j]);
                }
            }
            if sorted_by_key(s, key) {
                assert forall|i: int, j: int| 0 <= i <= j < d.len() implies key(d[i]) <= key(
                    d[j],
                ) by {
                    assert(d[i] == s[i] && d[j] == s[j]);
                }
            }
        }
    }
}

/// Values that carry a position on the timeline by which they are ordered.
pub trait TimeKeyed {
    /// The position, in microseconds.
    spec fn time_key_spec(&self) -> i64;

    /// Reads the position.
    fn time_key(&self) -> (k: i64)
        ensures
            k == self.time_key_spec(),
    ;
}

/// The ordering key of a `TimeKeyed` value, as a mathematical integer.
pub open spec fn by_time<T: TimeKeyed>() -> spec_fn(T) -> int {
    |x: T| x.time_key_spec() as int
}

/// Stable sort of a vector by timeline position (what `sort_by_key` on the position does).
pub fn sort_by_time<T: TimeKeyed>(v: &mut Vec<T>)
    ensures
        final(v)@ == sort_by_key(old(v)@, by_time::<T>()),
{
    let ghost s = v@;
    let ghost key = by_time::<T>();
    let mut rest: Vec<T> = Vec::new();
    std::mem::swap(v, &mut rest);
    let mut out: Vec<T> = Vec::new();
    let n = rest.len();
    let mut i: usize = 0;
    assert(s.take(0) =~= Seq::<T>::empty());
    while i < n
        invariant
            n == s.len(),
            i <= n,
            rest@ == s.skip(i as int),
            out@ == sort_by_key(s.take(i as int), key),
            key == by_time::<T>(),
        decreases n - i,
    {
        let x = rest.remove(0);
        assert(x == s[i as int]);
        assert(rest@ =~= s.skip(i as int + 1));
        let kx = x.time_key();
        let mut p: usize = out.len();
        while p > 0 && out[p - 1].time_key() > kx
            invariant
                p <= out.len(),
                kx == x.time_key_spec(),
                key == by_time::<T>(),
                forall|j: int| p <= j < out.len() ==> key(#[trigger] out@[j]) > key(x),
            decreases p,
        {
            p = p - 1;
        }
        proof {
            if p > 0 {
                assert(key(out@[p - 1]) <= key(x));
            }
            lemma_insert_at(out@, x, key, p as int);
            assert(s.take(i as int + 1).drop_last() =~= s.take(i as int));
            assert(s.take(i as int + 1).last() == x);
            assert(out@.insert(p as int, x) =~= out@.take(p as int).push(x) + out@.skip(p as int));
        }
        out.insert(p, x);
        i = i + 1;
    }
    assert(s.take(n as int) =~= s);
    *v = out;
}

} // verus!
