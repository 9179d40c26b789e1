//! Stable sorting of rows by an order of their own.

use crate::text::Rank;
use vstd::prelude::*;

verus! {

/// A row that knows how it sorts against another of its kind. The order is one
/// of the rows' views, so it says nothing that a reader of the view cannot see.
pub trait Ranked: View + Sized {
    /// How `a` sorts against `b`.
    spec fn rank(a: Self::V, b: Self::V) -> Rank;

    /// The ranking is a total preorder.
    proof fn rank_is_an_order(a: Self::V, b: Self::V, c: Self::V)
        ensures
            Self::rank(b, a) == Self::rank(a, b).flip(),
            Self::rank(a, b) != Rank::After && Self::rank(b, c) != Rank::After ==> Self::rank(a, c)
                != Rank::After,
            Self::rank(a, b) == Rank::Equal && Self::rank(b, c) == Rank::Equal ==> Self::rank(a, c)
                == Rank::Equal,
    ;

    /// Compare two rows.
    fn compare(&self, other: &Self) -> (r: Rank)
        ensures
            r == Self::rank(self@, other@),
    ;
}

/// `s` with `x` put behind everything that does not sort after it.
pub open spec fn put<T: Ranked>(s: Seq<T::V>, x: T::V) -> Seq<T::V>
    decreases s.len(),
{
    if s.len() == 0 || T::rank(s.last(), x) != Rank::After {
        s.push(x)
    } else {
        put::<T>(s.drop_last(), x).push(s.last())
    }
}

/// The elements of `s` in rank order, equal ones in the order they came.
pub open spec fn stable_sort<T: Ranked>(s: Seq<T::V>) -> Seq<T::V>
    decreases s.len(),
{
    if s.len() == 0 {
        s
    } else {
        put::<T>(stable_sort::<T>(s.drop_last()), s.last())
    }
}

/// Whether nothing in `s` sorts after what follows it.
pub open spec fn ordered<T: Ranked>(s: Seq<T::V>) -> bool {
    forall|i: int, j: int|
        0 <= i < j < s.len() ==> #[trigger] T::rank(s[i], s[j]) != Rank::After
}

/// The elements of `s` that rank equal to `x`, in their order.
pub open spec fn peers<T: Ranked>(s: Seq<T::V>, x: T::V) -> Seq<T::V>
    decreases s.len(),
{
    if s.len() == 0 {
        s
    } else if T::rank(s.last(), x) == Rank::Equal {
        peers::<T>(s.drop_last(), x).push(s.last())
    } else {
        peers::<T>(s.drop_last(), x)
    }
}

proof fn put_keeps<T: Ranked>(s: Seq<T::V>, x: T::V)
    requires
        ordered::<T>(s),
    ensures
        ordered::<T>(put::<T>(s, x)),
        put::<T>(s, x).to_multiset() == s.push(x).to_multiset(),
        put::<T>(s, x).len() == s.len() + 1,
        forall|i: int|
            0 <= i < put::<T>(s, x).len() ==> put::<T>(s, x)[i] == x || s.contains(
                #[trigger] put::<T>(s, x)[i],
            ),
    decreases s.len(),
{
    broadcast use vstd::seq_lib::group_to_multiset_ensures;

    let r = put::<T>(s, x);
    if s.len() == 0 || T::rank(s.last(), x) != Rank::After {
        assert forall|i: int, j: int| 0 <= i < j < r.len() implies #[trigger] T::rank(r[i], r[j])
            != Rank::After by {
            if j == s.len() {
                if i < s.len() - 1 {
                    assert(T::rank(s[i], s[s.len() - 1]) != Rank::After);
                    T::rank_is_an_order(s[i], s.last(), x);
                }
            }
        }
        assert forall|i: int| 0 <= i < r.len() implies r[i] == x || s.contains(#[trigger] r[i]) by {
            if i < s.len() {
                assert(s[i] == r[i]);
            }
        }
    } else {
        let t = s.drop_last();
        let q = put::<T>(t, x);
        put_keeps::<T>(t, x);
        assert forall|i: int, j: int| 0 <= i < j < r.len() implies #[trigger] T::rank(r[i], r[j])
            != Rank::After by {
            if j == q.len() {
                assert(r[j] == s.last());
                if q[i] == x {
                    T::rank_is_an_order(s.last(), x, x);
                } else {
                    let k = choose|k: int| 0 <= k < t.len() && t[k] == q[i];
                    assert(T::rank(s[k], s[s.len() - 1]) != Rank::After);
                }
            } else {
                assert(T::rank(q[i], q[j]) != Rank::After);
            }
        }
        assert(s =~= t.push(s.last()));
        assert(t.push(x).push(s.last()).to_multiset() =~= s.push(x).to_multiset());
        assert forall|i: int| 0 <= i < r.len() implies r[i] == x || s.contains(#[trigger] r[i]) by {
            if i < q.len() {
                assert(r[i] == q[i]);
                if q[i] != x {
                    let k = choose|k: int| 0 <= k < t.len() && t[k] == q[i];
                    assert(s[k] == r[i]);
                }
            } else {
                assert(s[s.len() - 1] == r[i]);
            }
        }
    }
}

proof fn put_keeps_peers<T: Ranked>(s: Seq<T::V>, x: T::V, y: T::V)
    requires
        ordered::<T>(s),
    ensures
        peers::<T>(put::<T>(s, x), y) == peers::<T>(s.push(x), y),
    decreases s.len(),
{
    if s.len() == 0 || T::rank(s.last(), x) != Rank::After {
    } else {
        let t = s.drop_last();
        put_keeps_peers::<T>(t, x, y);
        assert(s.push(x).drop_last() =~= s);
        assert(t.push(x).drop_last() =~= t);
        assert(put::<T>(s, x).drop_last() =~= put::<T>(t, x));
        if T::rank(s.last(), y) == Rank::Equal {
            T::rank_is_an_order(x, y, s.last());
            T::rank_is_an_order(y, s.last(), x);
            T::rank_is_an_order(s.last(), y, x);
            assert(T::rank(x, y) != Rank::Equal);
            assert(peers::<T>(s, y) == peers::<T>(t, y).push(s.last()));
        } else {
            assert(peers::<T>(s, y) == peers::<T>(t, y));
        }
        assert(s.push(x).last() == x && t.push(x).last() == x);
        assert(put::<T>(s, x).last() == s.last());
    }
}

/// A stable sort puts its input in order, keeps exactly its elements, and
/// leaves those of equal rank in the order they came.
pub proof fn stable_sort_sorts<T: Ranked>(s: Seq<T::V>)
    ensures
        ordered::<T>(stable_sort::<T>(s)),
        stable_sort::<T>(s).to_multiset() == s.to_multiset(),
        stable_sort::<T>(s).len() == s.len(),
        forall|y: T::V| peers::<T>(stable_sort::<T>(s), y) == #[trigger] peers::<T>(s, y),
    decreases s.len(),
{
    broadcast use vstd::seq_lib::group_to_multiset_ensures;

    if s.len() > 0 {
        let t = s.drop_last();
        stable_sort_sorts::<T>(t);
        put_keeps::<T>(stable_sort::<T>(t), s.last());
        assert(s =~= t.push(s.last()));
        assert forall|y: T::V|
            peers::<T>(stable_sort::<T>(s), y) == #[trigger] peers::<T>(s, y) by {
            put_keeps_peers::<T>(stable_sort::<T>(t), s.last(), y);
            assert(stable_sort::<T>(t).push(s.last()).drop_last() =~= stable_sort::<T>(t));
            assert(peers::<T>(stable_sort::<T>(t), y) == peers::<T>(t, y));
        }
    }
}

/// Sorting what is already in order changes nothing.
pub proof fn sorting_the_sorted_changes_nothing<T: Ranked>(s: Seq<T::V>)
    requires
        ordered::<T>(s),
    ensures
        stable_sort::<T>(s) == s,
    decreases s.len(),
{
    if s.len() > 0 {
        let t = s.drop_last();
        assert forall|i: int, j: int| 0 <= i < j < t.len() implies #[trigger] T::rank(t[i], t[j])
            != Rank::After by {
            assert(T::rank(s[i], s[j]) != Rank::After);
        }
        sorting_the_sorted_changes_nothing::<T>(t);
        if t.len() > 0 {
            assert(T::rank(s[s.len() - 2], s[s.len() - 1]) != Rank::After);
        }
        assert(s =~= t.push(s.last()));
    }
}

/// The views of rows.
pub open spec fn rows_view<T: View>(v: Seq<T>) -> Seq<T::V> {
    Seq::new(v.len(), |i: int| v[i]@)
}

/// The view of rows with one more.
pub proof fn rows_view_push<T: View>(v: Seq<T>, x: T)
    ensures
        rows_view(v.push(x)) == rows_view(v).push(x@),
{
    assert(rows_view(v.push(x)) =~= rows_view(v).push(x@));
}

/// Put `x` into the sorted `v`, behind everything that does not sort after it.
pub fn insert_ranked<T: Ranked>(v: &mut Vec<T>, x: T)
    ensures
        rows_view(final(v)@) == put::<T>(rows_view(old(v)@), x@),
{
    let ghost s = rows_view(v@);
    let ghost mut tail: Seq<T::V> = Seq::empty();
    let mut i: usize = v.len();
    proof {
        assert(s.take(s.len() as int) =~= s);
        assert(put::<T>(s, x@) =~= put::<T>(s, x@) + tail);
    }
    while i > 0 && v[i - 1].compare(&x) == Rank::After
        invariant
            i <= v@.len(),
            s == rows_view(v@),
            tail == s.skip(i as int),
            v@ == old(v)@,
            put::<T>(s, x@) == put::<T>(s.take(i as int), x@) + s.skip(i as int),
        decreases i,
    {
        proof {
            let p = s.take(i as int);
            assert(p.last() == v@[i - 1]@);
            assert(p.drop_last() =~= s.take(i - 1));
            assert(put::<T>(p, x@) + s.skip(i as int) =~= put::<T>(s.take(i - 1), x@) + s.skip(
                i - 1,
            ));
            tail = s.skip(i - 1);
        }
        i -= 1;
    }
    v.insert(i, x);
    proof {
        if i > 0 {
            assert(s.take(i as int).last() == old(v)@[i - 1]@);
        }
        assert(rows_view(v@) =~= s.take(i as int).push(x@) + s.skip(i as int));
    }
}

/// Sort rows stably.
pub fn sort_rows<T: Ranked>(rows: Vec<T>) -> (r: Vec<T>)
    ensures
        rows_view(r@) == stable_sort::<T>(rows_view(rows@)),
{
    let ghost s = rows_view(rows@);
    let mut rest = rows;
    let mut backwards: Vec<T> = Vec::new();
    while rest.len() > 0
        invariant
            rows_view(rest@) + rows_view(backwards@).reverse() == s,
        decreases rest@.len(),
    {
        let ghost before = rows_view(rest@) + rows_view(backwards@).reverse();
        if let Some(x) = rest.pop() {
            backwards.push(x);
        }
        proof {
            assert(rows_view(rest@) + rows_view(backwards@).reverse() =~= before);
        }
    }
    let mut out: Vec<T> = Vec::new();
    proof {
        assert(rows_view(backwards@).reverse() =~= s);
        assert(s.take(0) =~= rows_view(out@));
    }
    while backwards.len() > 0
        invariant
            backwards@.len() <= s.len(),
            rows_view(backwards@).reverse() == s.skip(s.len() - backwards@.len()),
            rows_view(out@) == stable_sort::<T>(s.take(s.len() - backwards@.len())),
        decreases backwards@.len(),
    {
        let ghost n = s.len() - backwards@.len();
        let ghost b = rows_view(backwards@).reverse();
        if let Some(x) = backwards.pop() {
            proof {
                assert(b[0] == x@);
                assert(s.skip(n)[0] == s[n]);
                assert(s.take(n + 1).drop_last() =~= s.take(n));
                assert(rows_view(backwards@).reverse() =~= b.drop_first());
                assert(s.skip(n).drop_first() =~= s.skip(n + 1));
            }
            insert_ranked(&mut out, x);
        }
    }
    proof {
        assert(s.take(s.len() as int) =~= s);
    }
    out
}

/// Sorting neither adds a row nor loses one.
pub proof fn sorting_keeps_the_rows<T: Ranked>(s: Seq<T::V>, r: T::V)
    ensures
        stable_sort::<T>(s).contains(r) <==> s.contains(r),
        stable_sort::<T>(s).len() == s.len(),
{
    broadcast use vstd::seq_lib::group_to_multiset_ensures;

    stable_sort_sorts::<T>(s);
    assert(stable_sort::<T>(s).contains(r) <==> stable_sort::<T>(s).to_multiset().count(r) > 0);
    assert(s.contains(r) <==> s.to_multiset().count(r) > 0);
}

} // verus!
