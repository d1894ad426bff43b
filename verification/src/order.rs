//! Stable ordering of explorer items: a strict "sorts before" relation per
//! item type, a stable insertion sort that keeps items of equal rank in
//! the order they came in, and the lexicographic comparison of texts.

use vstd::prelude::*;

use crate::text::chars_of;

verus! {

/// An item type with the order in which the explorer lists its items,
/// stated over the items' views.
pub trait SortOrder: View + Sized {
    /// Whether an item seen as `a` sorts strictly before one seen as `b`.
    spec fn spec_before(a: Self::V, b: Self::V) -> bool;

    /// Tells whether `self` sorts strictly before `other`.
    fn before(&self, other: &Self) -> (r: bool)
        ensures
            r == Self::spec_before(self@, other@),
    ;
}

/// The views of the items of `s`.
pub open spec fn views<T: View>(s: Seq<T>) -> Seq<T::V> {
    s.map_values(|x: T| x@)
}

/// `x` inserted into `s` behind every item that does not sort after it:
/// one step of a stable insertion sort.
pub open spec fn insert_sorted<T: SortOrder>(s: Seq<T::V>, x: T::V) -> Seq<T::V>
    decreases s.len(),
{
    if s.len() == 0 {
        seq![x]
    } else if T::spec_before(x, s.last()) {
        insert_sorted::<T>(s.drop_last(), x).push(s.last())
    } else {
        s.push(x)
    }
}

/// The stable sort of `s`: items in order, items of equal rank in the order
/// they had in `s` (what a stable sort such as `slice::sort_by` yields).
pub open spec fn sorted_stable<T: SortOrder>(s: Seq<T::V>) -> Seq<T::V>
    decreases s.len(),
{
    if s.len() == 0 {
        s
    } else {
        insert_sorted::<T>(sorted_stable::<T>(s.drop_last()), s.last())
    }
}

proof fn lemma_insert_sorted_len<T: SortOrder>(s: Seq<T::V>, x: T::V)
    ensures
        insert_sorted::<T>(s, x).len() == s.len() + 1,
    decreases s.len(),
{
    if s.len() > 0 && T::spec_before(x, s.last()) {
        lemma_insert_sorted_len::<T>(s.drop_last(), x);
    }
}

/// The length of a stable sort is that of its input.
pub proof fn lemma_sorted_stable_len<T: SortOrder>(s: Seq<T::V>)
    ensures
        sorted_stable::<T>(s).len() == s.len(),
    decreases s.len(),
{
    if s.len() > 0 {
        lemma_sorted_stable_len::<T>(s.drop_last());
        lemma_insert_sorted_len::<T>(sorted_stable::<T>(s.drop_last()), s.last());
    }
}

proof fn lemma_insert_sorted_from<T: SortOrder>(s: Seq<T::V>, x: T::V)
    ensures
        forall|i: int|
            0 <= i < insert_sorted::<T>(s, x).len() ==> (#[trigger] insert_sorted::<T>(s, x)[i] == x || s.contains(
                insert_sorted::<T>(s, x)[i],
            )),
    decreases s.len(),
{
    lemma_insert_sorted_len::<T>(s, x);
    let r = insert_sorted::<T>(s, x);
    if s.len() == 0 {
        assert(r =~= seq![x]);
    } else if T::spec_before(x, s.last()) {
        let d = s.drop_last();
        lemma_insert_sorted_from::<T>(d, x);
        lemma_insert_sorted_len::<T>(d, x);
        let r0 = insert_sorted::<T>(d, x);
        assert(r == r0.push(s.last()));
        assert forall|i: int| 0 <= i < r.len() implies (#[trigger] r[i] == x || s.contains(r[i])) by {
            if i < r0.len() {
                assert(r[i] == r0[i]);
                if r0[i] != x {
                    let k = choose|k: int| 0 <= k < d.len() && d[k] == r0[i];
                    assert(s[k] == d[k]);
                }
            } else {
                assert(s[s.len() - 1] == s.last());
            }
        }
    } else {
        assert(r == s.push(x));
        assert forall|i: int| 0 <= i < r.len() implies (#[trigger] r[i] == x || s.contains(r[i])) by {
            if i < s.len() {
                assert(s[i] == r[i]);
            }
        }
    }
}

proof fn lemma_insert_sorted_keeps<T: SortOrder>(s: Seq<T::V>, x: T::V)
    ensures
        insert_sorted::<T>(s, x).contains(x),
        forall|k: int| 0 <= k < s.len() ==> insert_sorted::<T>(s, x).contains(#[trigger] s[k]),
    decreases s.len(),
{
    let r = insert_sorted::<T>(s, x);
    if s.len() == 0 {
        assert(r[0] == x);
    } else if T::spec_before(x, s.last()) {
        let d = s.drop_last();
        lemma_insert_sorted_keeps::<T>(d, x);
        let r0 = insert_sorted::<T>(d, x);
        assert(r == r0.push(s.last()));
        let i0 = choose|i: int| 0 <= i < r0.len() && r0[i] == x;
        assert(r[i0] == x);
        assert forall|k: int| 0 <= k < s.len() implies r.contains(#[trigger] s[k]) by {
            if k < d.len() {
                assert(d[k] == s[k]);
                let i = choose|i: int| 0 <= i < r0.len() && r0[i] == d[k];
                assert(r[i] == s[k]);
            } else {
                assert(r[r0.len() as int] == s[k]);
            }
        }
    } else {
        assert(r == s.push(x));
        assert(r[s.len() as int] == x);
        assert forall|k: int| 0 <= k < s.len() implies r.contains(#[trigger] s[k]) by {
            assert(r[k] == s[k]);
        }
    }
}

/// Every item of the input of a stable sort is in its output.
pub proof fn lemma_sorted_stable_keeps<T: SortOrder>(s: Seq<T::V>)
    ensures
        forall|k: int| 0 <= k < s.len() ==> sorted_stable::<T>(s).contains(#[trigger] s[k]),
    decreases s.len(),
{
    if s.len() > 0 {
        let d = s.drop_last();
        lemma_sorted_stable_keeps::<T>(d);
        let sd = sorted_stable::<T>(d);
        lemma_insert_sorted_keeps::<T>(sd, s.last());
        let r = sorted_stable::<T>(s);
        assert(r == insert_sorted::<T>(sd, s.last()));
        assert forall|k: int| 0 <= k < s.len() implies r.contains(#[trigger] s[k]) by {
            if k < d.len() {
                assert(d[k] == s[k]);
                let i = choose|i: int| 0 <= i < sd.len() && sd[i] == d[k];
                assert(r.contains(sd[i]));
            } else {
                assert(s[k] == s.last());
            }
        }
    }
}

/// Every item of a stable sort is an item of its input.
pub proof fn lemma_sorted_stable_from<T: SortOrder>(s: Seq<T::V>)
    ensures
        forall|i: int| 0 <= i < sorted_stable::<T>(s).len() ==> s.contains(#[trigger] sorted_stable::<T>(s)[i]),
    decreases s.len(),
{
    if s.len() > 0 {
        let d = s.drop_last();
        lemma_sorted_stable_from::<T>(d);
        let sd = sorted_stable::<T>(d);
        lemma_insert_sorted_from::<T>(sd, s.last());
        let r = sorted_stable::<T>(s);
        assert(r == insert_sorted::<T>(sd, s.last()));
        assert forall|i: int| 0 <= i < r.len() implies s.contains(#[trigger] r[i]) by {
            if r[i] == s.last() {
                assert(s[s.len() - 1] == s.last());
            } else {
                assert(sd.contains(r[i]));
                let k = choose|k: int| 0 <= k < sd.len() && sd[k] == r[i];
                let m = choose|m: int| 0 <= m < d.len() && d[m] == sd[k];
                assert(s[m] == d[m]);
            }
        }
    }
}

/// Sorts `v` stably by the item type's order.
pub fn sort_stable<T: SortOrder>(v: Vec<T>) -> (r: Vec<T>)
    ensures
        views(r@) == sorted_stable::<T>(views(v@)),
{
    let ghost orig = views(v@);
    let mut input = v;
    let mut out: Vec<T> = Vec::new();
    let ghost mut taken: int = 0;
    assert(orig.take(0) =~= Seq::<T::V>::empty());
    assert(views(out@) =~= Seq::<T::V>::empty());
    while input.len() > 0
        invariant
            0 <= taken <= orig.len(),
            views(input@) == orig.skip(taken),
            views(out@) == sorted_stable::<T>(orig.take(taken)),
        decreases input.len(),
    {
        let ghost before_input = input@;
        assert(views(before_input).len() == before_input.len());
        assert(taken < orig.len());
        let x = input.remove(0);
        assert(views(input@) =~= orig.skip(taken + 1)) by {
            assert forall|k: int| 0 <= k < input@.len() implies views(input@)[k] == orig.skip(taken + 1)[k] by {
                assert(input@[k] == before_input[k + 1]);
                assert(views(before_input)[k + 1] == orig.skip(taken)[k + 1]);
            }
        }
        let ghost ov = views(out@);
        let mut j: usize = out.len();
        assert(ov.take(j as int) =~= ov);
        assert(ov.skip(j as int) =~= Seq::<T::V>::empty());
        while j > 0 && x.before(&out[j - 1])
            invariant
                j <= out.len(),
                ov == views(out@),
                insert_sorted::<T>(ov.take(j as int), x@) + ov.skip(j as int) == insert_sorted::<T>(ov, x@),
            decreases j,
        {
            let ghost s = ov.take(j as int);
            assert(s.drop_last() =~= ov.take(j - 1));
            assert(s.last() == out@[j - 1]@);
            assert(ov.skip(j - 1) =~= seq![ov[j - 1]] + ov.skip(j as int));
            assert(insert_sorted::<T>(ov.take(j - 1), x@) + ov.skip(j - 1) =~= insert_sorted::<T>(s, x@)
                + ov.skip(j as int));
            j = j - 1;
        }
        proof {
            let s = ov.take(j as int);
            if j > 0 {
                assert(s.last() == out@[j - 1]@);
                assert(!T::spec_before(x@, s.last()));
            }
            assert(insert_sorted::<T>(s, x@) =~= s.push(x@));
            assert(orig.take(taken + 1).drop_last() =~= orig.take(taken));
            assert(orig.take(taken + 1).last() == x@) by {
                assert(views(before_input)[0] == x@);
            }
        }
        let ghost old_out = out@;
        out.insert(j, x);
        proof {
            assert(views(out@) =~= ov.take(j as int).push(x@) + ov.skip(j as int)) by {
                assert(out@ == old_out.insert(j as int, x));
            }
            taken = taken + 1;
        }
    }
    assert(orig.take(taken) =~= orig);
    out
}

/// Whether `a` comes strictly before `b` in lexicographic order of code
/// points: the order of `str`'s `Ord`, since UTF-8 keeps code point order.
pub open spec fn text_less(a: Seq<char>, b: Seq<char>) -> bool
    decreases a.len(),
{
    if a.len() == 0 {
        b.len() > 0
    } else if b.len() == 0 {
        false
    } else if a[0] != b[0] {
        (a[0] as u32) < (b[0] as u32)
    } else {
        text_less(a.drop_first(), b.drop_first())
    }
}

/// Compares two texts lexicographically by code point.
pub fn str_less(a: &str, b: &str) -> (r: bool)
    ensures
        r == text_less(a@, b@),
{
    let ca = chars_of(a);
    let cb = chars_of(b);
    let mut i: usize = 0;
    assert(a@.skip(0) =~= a@);
    assert(b@.skip(0) =~= b@);
    while i < ca.len() && i < cb.len() && ca[i] == cb[i]
        invariant
            i <= ca.len(),
            i <= cb.len(),
            ca@ == a@,
            cb@ == b@,
            text_less(a@, b@) == text_less(a@.skip(i as int), b@.skip(i as int)),
        decreases ca.len() - i,
    {
        assert(a@.skip(i as int).drop_first() =~= a@.skip(i + 1));
        assert(b@.skip(i as int).drop_first() =~= b@.skip(i + 1));
        i = i + 1;
    }
    if i == ca.len() {
        i < cb.len()
    } else if i == cb.len() {
        false
    } else {
        assert(a@.skip(i as int)[0] == a@[i as int]);
        assert(b@.skip(i as int)[0] == b@[i as int]);
        (ca[i] as u32) < (cb[i] as u32)
    }
}


/// Taking the first item off a vector whose views are a suffix of `orig`
/// leaves the next suffix; the item taken is the one at `k`.
pub proof fn lemma_views_take_first<T: View>(before: Seq<T>, after: Seq<T>, orig: Seq<T::V>, k: int)
    requires
        0 <= k <= orig.len(),
        views(before) == orig.skip(k),
        before.len() > 0,
        after == before.remove(0),
    ensures
        k < orig.len(),
        before[0]@ == orig[k],
        views(after) == orig.skip(k + 1),
{
    assert(views(before).len() == before.len());
    assert(orig.skip(k).len() == orig.len() - k);
    assert(views(before)[0] == orig.skip(k)[0]);
    assert(views(before)[0] == before[0]@);
    assert(after.len() == before.len() - 1);
    assert forall|j: int| 0 <= j < after.len() implies views(after)[j] == orig.skip(k + 1)[j] by {
        assert(after[j] == before[j + 1]);
        assert(views(after)[j] == after[j]@);
        assert(views(before)[j + 1] == before[j + 1]@);
        assert(views(before)[j + 1] == orig.skip(k)[j + 1]);
    }
    assert(views(after) =~= orig.skip(k + 1));
}

} // verus!
