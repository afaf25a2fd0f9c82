//! Stable sorting by a total preorder, as `slice::sort_by` performs it.

use vstd::prelude::*;

verus! {

/// A total preorder on the views of a type, with an executable test.
pub trait DisplayOrder: View + Sized {
    spec fn spec_le(a: Self::V, b: Self::V) -> bool;

    fn le(a: &Self, b: &Self) -> (r: bool)
        ensures
            r == Self::spec_le(a@, b@),
    ;

    proof fn lemma_total(a: Self::V, b: Self::V)
        ensures
            Self::spec_le(a, b) || Self::spec_le(b, a),
    ;

    proof fn lemma_trans(a: Self::V, b: Self::V, c: Self::V)
        requires
            Self::spec_le(a, b),
            Self::spec_le(b, c),
        ensures
            Self::spec_le(a, c),
    ;
}

/// The views of a sequence of values.
pub open spec fn views<T: View>(s: Seq<T>) -> Seq<T::V> {
    s.map_values(|x: T| x@)
}

/// `x` placed into `s` behind every element that is not greater than it.
pub open spec fn sorted_insert<T: DisplayOrder>(s: Seq<T::V>, x: T::V) -> Seq<T::V>
    decreases s.len(),
{
    if s.len() == 0 {
        seq![x]
    } else if T::spec_le(s.last(), x) {
        s.push(x)
    } else {
        sorted_insert::<T>(s.drop_last(), x).push(s.last())
    }
}

/// The stable sort of `s`: elements in order, equal ones in their original order.
pub open spec fn stable_sorted<T: DisplayOrder>(s: Seq<T::V>) -> Seq<T::V>
    decreases s.len(),
{
    if s.len() == 0 {
        s
    } else {
        sorted_insert::<T>(stable_sorted::<T>(s.drop_last()), s.last())
    }
}

/// Every element is not greater than every later one.
pub open spec fn is_sorted<T: DisplayOrder>(s: Seq<T::V>) -> bool {
    forall|i: int, j: int| 0 <= i < j < s.len() ==> T::spec_le(#[trigger] s[i], #[trigger] s[j])
}

proof fn lemma_insert_at<T: DisplayOrder>(s: Seq<T::V>, x: T::V, p: int)
    requires
        0 <= p <= s.len(),
        forall|j: int| p <= j < s.len() ==> !T::spec_le(#[trigger] s[j], x),
        p > 0 ==> T::spec_le(s[p - 1], x),
    ensures
        sorted_insert::<T>(s, x) == s.insert(p, x),
    decreases s.len(),
{
    if s.len() == 0 {
        assert(s.insert(p, x) =~= seq![x]);
    } else if T::spec_le(s.last(), x) {
        assert(p == s.len());
        assert(s.insert(p, x) =~= s.push(x));
    } else {
        let d = s.drop_last();
        assert forall|j: int| p <= j < d.len() implies !T::spec_le(#[trigger] d[j], x) by {
            assert(d[j] == s[j]);
        }
        lemma_insert_at::<T>(d, x, p);
        assert(d.insert(p, x).push(s.last()) =~= s.insert(p, x));
    }
}

/// Sorts `v` stably by `T::le`.
pub fn stable_sort<T: DisplayOrder>(v: &mut Vec<T>)
    ensures
        views(final(v)@) == stable_sorted::<T>(views(old(v)@)),
{
    let mut input: Vec<T> = Vec::new();
    std::mem::swap(&mut input, v);
    let ghost s = views(input@);
    let n = input.len();
    let mut out: Vec<T> = Vec::new();
    let mut k: usize = 0;
    assert(s.take(0) =~= Seq::<T::V>::empty());
    assert(views(out@) =~= Seq::<T::V>::empty());
    assert(views(input@) =~= s.skip(0));
    while input.len() > 0
        invariant
            k <= s.len(),
            n == s.len(),
            views(input@) == s.skip(k as int),
            views(out@) == stable_sorted::<T>(s.take(k as int)),
        decreases input@.len(),
    {
        let ghost before = input@;
        assert(views(before).len() == before.len());
        assert(k < s.len());
        let x = input.remove(0);
        assert(x@ == s[k as int]) by {
            assert(views(before)[0] == before[0]@);
            assert(s.skip(k as int)[0] == s[k as int]);
        }
        let mut p = out.len();
        while p > 0 && !T::le(&out[p - 1], &x)
            invariant
                p <= out@.len(),
                forall|j: int| p <= j < out@.len() ==> !T::spec_le(#[trigger] out@[j]@, x@),
            decreases p,
        {
            p = p - 1;
        }
        proof {
            let vo = views(out@);
            assert forall|j: int| p <= j < vo.len() implies !T::spec_le(#[trigger] vo[j], x@) by {
                assert(vo[j] == out@[j]@);
            }
            if p > 0 {
                assert(vo[p - 1] == out@[p - 1]@);
            }
            lemma_insert_at::<T>(vo, x@, p as int);
            assert(s.take(k + 1).drop_last() =~= s.take(k as int));
            assert(s.take(k + 1).last() == x@);
            assert(views(input@) =~= s.skip(k + 1)) by {
                assert(input@ =~= before.subrange(1, before.len() as int));
                assert forall|j: int| 0 <= j < input@.len() implies views(input@)[j] == s.skip(
                    k + 1,
                )[j] by {
                    assert(views(input@)[j] == input@[j]@);
                    assert(input@[j] == before[j + 1]);
                    assert(views(before)[j + 1] == before[j + 1]@);
                    assert(s.skip(k as int)[j + 1] == s[k + 1 + j]);
                }
            }
        }
        let ghost old_out = out@;
        out.insert(p, x);
        assert(views(out@) =~= views(old_out).insert(p as int, x@));
        k = k + 1;
    }
    assert(s.take(k as int) =~= s);
    *v = out;
}

/// The stable sort is ordered.
pub proof fn lemma_stable_sorted_is_sorted<T: DisplayOrder>(s: Seq<T::V>)
    ensures
        is_sorted::<T>(stable_sorted::<T>(s)),
    decreases s.len(),
{
    if s.len() > 0 {
        lemma_stable_sorted_is_sorted::<T>(s.drop_last());
        lemma_sorted_insert_sorted::<T>(stable_sorted::<T>(s.drop_last()), s.last());
    }
}

proof fn lemma_sorted_insert_sorted<T: DisplayOrder>(s: Seq<T::V>, x: T::V)
    requires
        is_sorted::<T>(s),
    ensures
        is_sorted::<T>(sorted_insert::<T>(s, x)),
        forall|i: int|
            0 <= i < sorted_insert::<T>(s, x).len() ==> (#[trigger] sorted_insert::<T>(s, x)[i] == x
                || s.contains(sorted_insert::<T>(s, x)[i])),
        sorted_insert::<T>(s, x).len() == s.len() + 1,
    decreases s.len(),
{
    let r = sorted_insert::<T>(s, x);
    if s.len() == 0 {
    } else if T::spec_le(s.last(), x) {
        assert forall|i: int, j: int| 0 <= i < j < r.len() implies T::spec_le(
            #[trigger] r[i],
            #[trigger] r[j],
        ) by {
            if j == r.len() - 1 {
                if i < s.len() - 1 {
                    T::lemma_trans(s[i], s.last(), x);
                }
            }
        }
        assert forall|i: int| 0 <= i < r.len() implies (#[trigger] r[i] == x || s.contains(r[i])) by {
            if i < s.len() {
                assert(r[i] == s[i]);
            }
        }
    } else {
        let d = s.drop_last();
        assert(is_sorted::<T>(d)) by {
            assert forall|i: int, j: int| 0 <= i < j < d.len() implies T::spec_le(
                #[trigger] d[i],
                #[trigger] d[j],
            ) by {
                assert(d[i] == s[i] && d[j] == s[j]);
            }
        }
        lemma_sorted_insert_sorted::<T>(d, x);
        let di = sorted_insert::<T>(d, x);
        T::lemma_total(s.last(), x);
        assert forall|i: int, j: int| 0 <= i < j < r.len() implies T::spec_le(
            #[trigger] r[i],
            #[trigger] r[j],
        ) by {
            if j == r.len() - 1 {
                assert(r[j] == s.last());
                assert(r[i] == di[i]);
                if di[i] == x {
                } else {
                    assert(d.contains(di[i]));
                    let k = choose|k: int| 0 <= k < d.len() && d[k] == di[i];
                    assert(s[k] == d[k]);
                }
            } else {
                assert(r[i] == di[i] && r[j] == di[j]);
            }
        }
        assert forall|i: int| 0 <= i < r.len() implies (#[trigger] r[i] == x || s.contains(r[i])) by {
            if i == r.len() - 1 {
                assert(s[s.len() - 1] == r[i]);
            } else {
                assert(r[i] == di[i]);
                if di[i] != x {
                    let k = choose|k: int| 0 <= k < d.len() && d[k] == di[i];
                    assert(s[k] == d[k]);
                }
            }
        }
    }
}

/// The stable sort keeps every element, as often as it occurs.
pub proof fn lemma_stable_sorted_permutes<T: DisplayOrder>(s: Seq<T::V>)
    ensures
        stable_sorted::<T>(s).to_multiset() == s.to_multiset(),
    decreases s.len(),
{
    broadcast use vstd::seq_lib::group_to_multiset_ensures;

    if s.len() > 0 {
        lemma_stable_sorted_permutes::<T>(s.drop_last());
        lemma_sorted_insert_multiset::<T>(stable_sorted::<T>(s.drop_last()), s.last());
        assert(s =~= s.drop_last().push(s.last()));
    }
}

proof fn lemma_sorted_insert_multiset<T: DisplayOrder>(s: Seq<T::V>, x: T::V)
    ensures
        sorted_insert::<T>(s, x).to_multiset() == s.to_multiset().insert(x),
    decreases s.len(),
{
    broadcast use vstd::seq_lib::group_to_multiset_ensures;

    if s.len() == 0 {
        assert(seq![x] =~= Seq::<T::V>::empty().push(x));
    } else if T::spec_le(s.last(), x) {
    } else {
        lemma_sorted_insert_multiset::<T>(s.drop_last(), x);
        assert(s =~= s.drop_last().push(s.last()));
        assert(s.to_multiset() == s.drop_last().to_multiset().insert(s.last()));
        assert(sorted_insert::<T>(s, x).to_multiset() =~= s.to_multiset().insert(x));
    }
}

/// Sorting keeps the number of elements.
pub proof fn lemma_stable_sorted_len<T: DisplayOrder>(s: Seq<T::V>)
    ensures
        stable_sorted::<T>(s).len() == s.len(),
    decreases s.len(),
{
    if s.len() > 0 {
        lemma_stable_sorted_len::<T>(s.drop_last());
        lemma_sorted_insert_len::<T>(stable_sorted::<T>(s.drop_last()), s.last());
    }
}

proof fn lemma_sorted_insert_len<T: DisplayOrder>(s: Seq<T::V>, x: T::V)
    ensures
        sorted_insert::<T>(s, x).len() == s.len() + 1,
    decreases s.len(),
{
    if s.len() > 0 && !T::spec_le(s.last(), x) {
        lemma_sorted_insert_len::<T>(s.drop_last(), x);
    }
}

} // verus!
