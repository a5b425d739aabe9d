//! Stable insertion order: the result of a stable sort by a total preorder.
use vstd::prelude::*;

verus! {

/// `x` inserted after the leading elements that are not greater than it.
pub open spec fn insert_by<T>(x: T, s: Seq<T>, le: spec_fn(T, T) -> bool) -> Seq<T>
    decreases s.len(),
{
    if s.len() == 0 {
        seq![x]
    } else if le(s[0], x) {
        seq![s[0]] + insert_by(x, s.drop_first(), le)
    } else {
        seq![x] + s
    }
}

/// Stable sort of `s` by `le`, built by inserting the elements in order.
pub open spec fn sort_by<T>(s: Seq<T>, le: spec_fn(T, T) -> bool) -> Seq<T>
    decreases s.len(),
{
    if s.len() == 0 {
        seq![]
    } else {
        insert_by(s.last(), sort_by(s.drop_last(), le), le)
    }
}

/// Inserting at the first element that is greater than `x`.
pub proof fn lemma_insert_by_at<T>(x: T, s: Seq<T>, le: spec_fn(T, T) -> bool, k: int)
    requires
        0 <= k <= s.len(),
        forall|i: int| 0 <= i < k ==> le(#[trigger] s[i], x),
        k < s.len() ==> !le(s[k], x),
    ensures
        insert_by(x, s, le) == s.insert(k, x),
    decreases s.len(),
{
    if s.len() == 0 {
        assert(s.insert(k, x) =~= seq![x]);
    } else if k == 0 {
        assert(s.insert(0, x) =~= seq![x] + s);
    } else {
        let t = s.drop_first();
        assert forall|i: int| 0 <= i < k - 1 implies le(#[trigger] t[i], x) by {
            assert(t[i] == s[i + 1]);
            assert(le(s[i + 1], x));
        }
        if k - 1 < t.len() {
            assert(t[k - 1] == s[k]);
        }
        assert(le(s[0], x));
        lemma_insert_by_at(x, t, le, k - 1);
        assert(seq![s[0]] + t.insert(k - 1, x) =~= s.insert(k, x));
    }
}

pub proof fn lemma_sort_by_push<T>(s: Seq<T>, x: T, le: spec_fn(T, T) -> bool)
    ensures
        sort_by(s.push(x), le) == insert_by(x, sort_by(s, le), le),
{
    assert(s.push(x).drop_last() =~= s);
}

pub proof fn lemma_insert_by_len<T>(x: T, s: Seq<T>, le: spec_fn(T, T) -> bool)
    ensures
        insert_by(x, s, le).len() == s.len() + 1,
    decreases s.len(),
{
    if s.len() > 0 && le(s[0], x) {
        lemma_insert_by_len(x, s.drop_first(), le);
    }
}

pub proof fn lemma_sort_by_len<T>(s: Seq<T>, le: spec_fn(T, T) -> bool)
    ensures
        sort_by(s, le).len() == s.len(),
    decreases s.len(),
{
    if s.len() > 0 {
        lemma_sort_by_len(s.drop_last(), le);
        lemma_insert_by_len(s.last(), sort_by(s.drop_last(), le), le);
    }
}

/// Sorting commutes with a map that the order only looks through.
pub proof fn lemma_insert_by_map<A, B>(
    x: A,
    s: Seq<A>,
    le: spec_fn(A, A) -> bool,
    f: spec_fn(A) -> B,
    le2: spec_fn(B, B) -> bool,
)
    requires
        forall|a: A, b: A| #[trigger] le(a, b) == le2(f(a), f(b)),
    ensures
        insert_by(x, s, le).map_values(f) == insert_by(f(x), s.map_values(f), le2),
    decreases s.len(),
{
    let m = s.map_values(f);
    if s.len() == 0 {
        assert(seq![x].map_values(f) =~= seq![f(x)]);
    } else {
        assert(m[0] == f(s[0]));
        assert(m.drop_first() =~= s.drop_first().map_values(f));
        assert(le(s[0], x) == le2(f(s[0]), f(x)));
        if le(s[0], x) {
            lemma_insert_by_map(x, s.drop_first(), le, f, le2);
            assert((seq![s[0]] + insert_by(x, s.drop_first(), le)).map_values(f) =~= seq![f(s[0])]
                + insert_by(x, s.drop_first(), le).map_values(f));
        } else {
            assert((seq![x] + s).map_values(f) =~= seq![f(x)] + m);
        }
    }
}

pub proof fn lemma_sort_by_map<A, B>(
    s: Seq<A>,
    le: spec_fn(A, A) -> bool,
    f: spec_fn(A) -> B,
    le2: spec_fn(B, B) -> bool,
)
    requires
        forall|a: A, b: A| #[trigger] le(a, b) == le2(f(a), f(b)),
    ensures
        sort_by(s, le).map_values(f) == sort_by(s.map_values(f), le2),
    decreases s.len(),
{
    if s.len() == 0 {
        assert(s.map_values(f) =~= Seq::<B>::empty());
    } else {
        lemma_sort_by_map(s.drop_last(), le, f, le2);
        lemma_insert_by_map(s.last(), sort_by(s.drop_last(), le), le, f, le2);
        assert(s.map_values(f).drop_last() =~= s.drop_last().map_values(f));
        assert(s.map_values(f).last() == f(s.last()));
    }
}

/// `le` is total and transitive.
pub open spec fn total_preorder<T>(le: spec_fn(T, T) -> bool) -> bool {
    &&& forall|a: T, b: T| #[trigger] le(a, b) || le(b, a)
    &&& forall|a: T, b: T, c: T| #[trigger] le(a, b) && #[trigger] le(b, c) ==> le(a, c)
}

/// Every element is `le` every later one.
pub open spec fn sorted_by<T>(s: Seq<T>, le: spec_fn(T, T) -> bool) -> bool {
    forall|i: int, j: int| 0 <= i < j < s.len() ==> le(#[trigger] s[i], #[trigger] s[j])
}

/// Where `insert_by` puts `x`: after the leading elements `le` it.
pub open spec fn insertion_point<T>(x: T, s: Seq<T>, le: spec_fn(T, T) -> bool) -> int
    decreases s.len(),
{
    if s.len() == 0 {
        0
    } else if le(s[0], x) {
        1 + insertion_point(x, s.drop_first(), le)
    } else {
        0
    }
}

proof fn lemma_insertion_point<T>(x: T, s: Seq<T>, le: spec_fn(T, T) -> bool)
    ensures
        0 <= insertion_point(x, s, le) <= s.len(),
        forall|i: int| 0 <= i < insertion_point(x, s, le) ==> le(#[trigger] s[i], x),
        insertion_point(x, s, le) < s.len() ==> !le(s[insertion_point(x, s, le)], x),
        insert_by(x, s, le) == s.insert(insertion_point(x, s, le), x),
    decreases s.len(),
{
    if s.len() > 0 && le(s[0], x) {
        let t = s.drop_first();
        lemma_insertion_point(x, t, le);
        assert forall|i: int| 0 <= i < insertion_point(x, s, le) implies le(#[trigger] s[i], x) by {
            if i > 0 {
                assert(s[i] == t[i - 1]);
            }
        }
        let k = insertion_point(x, s, le);
        if k < s.len() {
            assert(s[k] == t[k - 1]);
        }
    }
    lemma_insert_by_at(x, s, le, insertion_point(x, s, le));
}

/// Inserting into a sorted sequence keeps it sorted.
pub proof fn lemma_insert_by_sorted<T>(x: T, s: Seq<T>, le: spec_fn(T, T) -> bool)
    requires
        total_preorder(le),
        sorted_by(s, le),
    ensures
        sorted_by(insert_by(x, s, le), le),
{
    lemma_insertion_point(x, s, le);
    let k = insertion_point(x, s, le);
    let r = s.insert(k, x);
    assert forall|i: int, j: int| 0 <= i < j < r.len() implies le(#[trigger] r[i], #[trigger] r[j]) by {
        if j < k {
            assert(r[i] == s[i] && r[j] == s[j]);
        } else if j == k {
            assert(r[i] == s[i] && r[j] == x);
        } else if i < k {
            assert(r[i] == s[i] && r[j] == s[j - 1]);
        } else if i == k {
            assert(r[i] == x && r[j] == s[j - 1]);
            assert(le(s[k], x) || le(x, s[k]));
            if j - 1 > k {
                assert(le(s[k], s[j - 1]));
                assert(le(x, s[k]) && le(s[k], s[j - 1]) ==> le(x, s[j - 1]));
            }
        } else {
            assert(r[i] == s[i - 1] && r[j] == s[j - 1]);
        }
    }
}

/// The stable sort by a total preorder is sorted.
pub proof fn lemma_sort_by_sorted<T>(s: Seq<T>, le: spec_fn(T, T) -> bool)
    requires
        total_preorder(le),
    ensures
        sorted_by(sort_by(s, le), le),
    decreases s.len(),
{
    if s.len() > 0 {
        lemma_sort_by_sorted(s.drop_last(), le);
        lemma_insert_by_sorted(s.last(), sort_by(s.drop_last(), le), le);
    }
}

/// Sorting neither loses nor adds an element.
pub proof fn lemma_sort_by_permutation<T>(s: Seq<T>, le: spec_fn(T, T) -> bool)
    ensures
        sort_by(s, le).to_multiset() == s.to_multiset(),
    decreases s.len(),
{
    broadcast use vstd::seq_lib::group_to_multiset_ensures;

    if s.len() == 0 {
        assert(sort_by(s, le) =~= s);
    } else {
        let d = s.drop_last();
        lemma_sort_by_permutation(d, le);
        lemma_insertion_point(s.last(), sort_by(d, le), le);
        assert(d.push(s.last()) =~= s);
    }
}

} // verus!
