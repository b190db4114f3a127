//! The laws of the dispatch mechanism, stated against the two handle
//! implementations. Each function here goes through `IsRef::map` itself, so
//! what it proves is a property of the dispatch, not of the branches alone.
//!
//! The read-side laws return the dispatched references. The write-side laws
//! instead take the values to write and perform the writes through the
//! dispatched references before returning: the verifier's lifetime analysis
//! refuses a concrete-handle dispatch whose reference results flow out of
//! the enclosing function, so the write-through-then-observe form is the one
//! in which the exclusive-handle guarantees can be stated and proved here.

use vstd::prelude::*;
use crate::{GenRef, IsRef, SliceIter};
use crate::myvec::{MyVec, get_read, get_write, iter_read, iter_write};
use crate::positive::{indexed, iter_positive_read, iter_positive_write, pos_indexed, pos_pair_pred, pos_pred};

verus! {

/// Tag fidelity, read side: dispatching the element accessor through a
/// shared handle runs exactly the read branch, and the result is the shared
/// reference that branch's contract describes — present within range, absent
/// out of range.
pub fn get_via_read_handle<'a, T: 'a>(v: &'a MyVec<T>, idx: usize) -> (r: Option<&'a T>)
    ensures
        idx < v.0@.len() ==> (r matches Some(e) && *e == v.0@[idx as int]),
        idx >= v.0@.len() ==> r is None,
{
    v.map::<Option<GenRef<T>>, Option<T>, _, _>(
        (|x: &'a MyVec<T>| -> (rr: Option<&'a T>)
            ensures
                idx < x.0@.len() ==> (rr matches Some(e) && *e == x.0@[idx as int]),
                idx >= x.0@.len() ==> rr is None,
            { get_read(x, idx) }),
        (|x: &'a mut MyVec<T>| -> Option<&'a mut T> { get_write(x, idx) }),
    )
}

/// Tag fidelity for the bare single-reference shape: dispatching the
/// must-succeed accessor through a shared handle yields a shared reference
/// to exactly the requested element.
pub fn get_expect_via_read_handle<'a, T: 'a>(v: &'a MyVec<T>, idx: usize) -> (r: &'a T)
    requires
        idx < v.0@.len(),
    ensures
        *r == v.0@[idx as int],
{
    v.map::<GenRef<T>, T, _, _>(
        (|x: &'a MyVec<T>| -> (rr: &'a T)
            requires
                idx < x.0@.len(),
            ensures
                *rr == x.0@[idx as int],
            { &x.0[idx] }),
        (|x: &'a mut MyVec<T>| -> (rr: &'a mut T)
            requires
                idx < old(x).0@.len(),
            { &mut x.0[idx] }),
    )
}

/// Tag fidelity for the bare single-reference shape, write side: the
/// must-succeed accessor dispatched through an exclusive handle yields an
/// exclusive reference to exactly the requested element, and a write through
/// it updates that element alone.
pub fn set_at<T>(v: &mut MyVec<T>, idx: usize, val: T)
    requires
        idx < old(v).0@.len(),
    ensures
        final(v).0@ == old(v).0@.update(idx as int, val),
{
    let e = (&mut *v).map::<GenRef<T>, T, _, _>(
        (|x| -> (rr: &T)
            requires
                idx < x.0@.len(),
            { &x.0[idx] }),
        (|x| -> (rr: &mut T)
            requires
                idx < old(x).0@.len(),
            ensures
                *rr == old(x).0@[idx as int],
                final(x).0@ == old(x).0@.update(idx as int, *final(rr)),
            { &mut x.0[idx] }),
    );
    *e = val;
}

/// Tag fidelity for the sequence shape: dispatching the all-elements
/// accessor through a shared handle yields shared references to every
/// element, in order.
pub fn iter_via_read_handle<'a, T: 'a>(v: &'a MyVec<T>) -> (r: Vec<&'a T>)
    ensures
        r@.len() == v.0@.len(),
        forall|i: int| 0 <= i < r@.len() ==> *r@[i] == v.0@[i],
{
    v.map::<SliceIter<T>, Seq<T>, _, _>(
        (|x: &'a MyVec<T>| -> (rr: Vec<&'a T>)
            ensures
                rr@.len() == x.0@.len(),
                forall|i: int| 0 <= i < rr@.len() ==> *rr@[i] == x.0@[i],
            { iter_read(x) }),
        (|x: &'a mut MyVec<T>| -> Vec<&'a mut T> { iter_write(x) }),
    )
}

/// Shape composition through dispatch: the filtered accessor under a shared
/// handle yields exactly the manually filtered reference sequence, so
/// composing the filter with the sequence shape and then substituting the
/// read tag equals filtering after the plain instantiation.
pub fn iter_positive_via_read_handle<'a>(v: &'a MyVec<i32>) -> (r: Vec<&'a i32>)
    ensures
        r@.len() == v.0@.filter(pos_pred()).len(),
        forall|j: int| 0 <= j < r@.len() ==> *r@[j] == v.0@.filter(pos_pred())[j],
{
    v.map::<SliceIter<i32>, Seq<i32>, _, _>(
        (|x: &'a MyVec<i32>| -> (rr: Vec<&'a i32>)
            ensures
                rr@.len() == x.0@.filter(pos_pred()).len(),
                forall|j: int| 0 <= j < rr@.len() ==> *rr@[j] == x.0@.filter(
                    pos_pred(),
                )[j],
            { iter_positive_read(x) }),
        (|x: &'a mut MyVec<i32>| -> Vec<&'a mut i32> { iter_positive_write(x) }),
    )
}

/// Referential agreement, behaviorally: a write dispatched through an
/// exclusive handle at an index is observed by a subsequent read dispatched
/// through a shared handle at the same index, and no other element changes.
pub fn write_then_read<T: Copy>(v: &mut MyVec<T>, idx: usize, val: T) -> (r: Option<T>)
    ensures
        idx < old(v).0@.len() ==> (r == Some(val) && final(v).0@ == old(v).0@.update(
            idx as int,
            val,
        )),
        idx >= old(v).0@.len() ==> (r is None && final(v).0@ == old(v).0@),
{
    let w = (&mut *v).map::<Option<GenRef<T>>, Option<T>, _, _>(
        (|x| -> Option<&T> { get_read(x, idx) }),
        (|x| -> (rr: Option<&mut T>)
            ensures
                idx < old(x).0@.len() ==> (rr matches Some(e) && *e == old(
                    x,
                ).0@[idx as int] && final(x).0@ == old(x).0@.update(
                    idx as int,
                    *final(e),
                )),
                idx >= old(x).0@.len() ==> (rr is None && final(x).0@ == old(x).0@),
            { get_write(x, idx) }),
    );
    match w {
        Some(e) => {
            *e = val;
        },
        None => {},
    }
    match get_via_read_handle(&*v, idx) {
        Some(e) => Some(*e),
        None => None,
    }
}

/// Tag fidelity for the sequence shape, write side: dispatching the
/// all-elements accessor through an exclusive handle yields references
/// through which every element can be set, and the writes are what a later
/// observer sees.
pub fn set_all<T: Copy>(v: &mut MyVec<T>, val: T)
    ensures
        final(v).0@.len() == old(v).0@.len(),
        forall|i: int| 0 <= i < old(v).0@.len() ==> final(v).0@[i] == val,
{
    let mut w = (&mut *v).map::<SliceIter<T>, Seq<T>, _, _>(
        (|x| -> Vec<&T> { iter_read(x) }),
        (|x| -> (rr: Vec<&mut T>)
            ensures
                rr@.len() == old(x).0@.len(),
                final(x).0@.len() == old(x).0@.len(),
                forall|i: int| 0 <= i < rr@.len() ==> final(x).0@[i] == *final(rr@[i]),
            { iter_write(x) }),
    );
    let ghost w0 = w@;
    let ghost n = w0.len() as int;
    let total = w.len();
    let mut j: usize = 0;
    proof {
        assert(w@ =~= w0.skip(0));
    }
    while w.len() > 0
        invariant
            n == w0.len(),
            n == total as int,
            j <= n,
            w@ =~= w0.skip(j as int),
            forall|i: int| 0 <= i < j ==> *final(w0[i]) == val,
        decreases n - j,
    {
        let ghost jj = j as int;
        let e = w.remove(0);
        let ghost eg = e;
        proof {
            assert(w0.skip(jj)[0] == w0[jj]);
            assert(eg == w0[jj]);
            assert(w@ =~= w0.skip(jj + 1));
        }
        *e = val;
        proof {
            assert(*final(eg) == val);
        }
        j += 1;
    }
    proof {
        assert(j as int == n);
    }
}

/// Tag fidelity for the sequence shape, write side, with caller-chosen
/// values: the i-th reference the dispatched accessor yields under an
/// exclusive handle addresses element i — whatever value the caller writes
/// through it is what the container holds there afterwards.
pub fn set_each<T: Copy>(v: &mut MyVec<T>, vals: &Vec<T>)
    requires
        vals@.len() == old(v).0@.len(),
    ensures
        final(v).0@.len() == old(v).0@.len(),
        forall|i: int| 0 <= i < old(v).0@.len() ==> final(v).0@[i] == vals@[i],
{
    let mut w = (&mut *v).map::<SliceIter<T>, Seq<T>, _, _>(
        (|x| -> Vec<&T> { iter_read(x) }),
        (|x| -> (rr: Vec<&mut T>)
            ensures
                rr@.len() == old(x).0@.len(),
                final(x).0@.len() == old(x).0@.len(),
                forall|i: int| 0 <= i < rr@.len() ==> final(x).0@[i] == *final(rr@[i]),
            { iter_write(x) }),
    );
    let ghost w0 = w@;
    let ghost n = w0.len() as int;
    let total = w.len();
    let mut j: usize = 0;
    proof {
        assert(w@ =~= w0.skip(0));
    }
    while w.len() > 0
        invariant
            n == w0.len(),
            n == total as int,
            n == vals@.len(),
            j <= n,
            w@ =~= w0.skip(j as int),
            forall|i: int| 0 <= i < j ==> *final(w0[i]) == vals@[i],
        decreases n - j,
    {
        let ghost jj = j as int;
        let e = w.remove(0);
        let ghost eg = e;
        proof {
            assert(w0.skip(jj)[0] == w0[jj]);
            assert(eg == w0[jj]);
            assert(w@ =~= w0.skip(jj + 1));
        }
        *e = vals[j];
        proof {
            assert(*final(eg) == vals@[jj]);
        }
        j += 1;
    }
    proof {
        assert(j as int == n);
    }
}

/// The write-side modifies discipline for the sequence shape: references the
/// caller does not write through leave their elements exactly as they were —
/// writing through only the first `k` yielded references changes the first
/// `k` elements and nothing else.
pub fn set_prefix<T: Copy>(v: &mut MyVec<T>, k: usize, val: T)
    requires
        k <= old(v).0@.len(),
    ensures
        final(v).0@.len() == old(v).0@.len(),
        forall|i: int| 0 <= i < k ==> final(v).0@[i] == val,
        forall|i: int| k <= i < old(v).0@.len() ==> final(v).0@[i] == old(v).0@[i],
{
    let mut w = (&mut *v).map::<SliceIter<T>, Seq<T>, _, _>(
        (|x| -> Vec<&T> { iter_read(x) }),
        (|x| -> (rr: Vec<&mut T>)
            ensures
                rr@.len() == old(x).0@.len(),
                forall|i: int| 0 <= i < rr@.len() ==> *rr@[i] == old(x).0@[i],
                final(x).0@.len() == old(x).0@.len(),
                forall|i: int| 0 <= i < rr@.len() ==> final(x).0@[i] == *final(rr@[i]),
            { iter_write(x) }),
    );
    let ghost w0 = w@;
    let ghost n = w0.len() as int;
    let total = w.len();
    let mut j: usize = 0;
    proof {
        assert(w@ =~= w0.skip(0));
    }
    while j < k
        invariant
            n == w0.len(),
            n == total as int,
            k <= n,
            j <= k,
            w@ =~= w0.skip(j as int),
            forall|i: int| 0 <= i < j ==> *final(w0[i]) == val,
        decreases k - j,
    {
        let ghost jj = j as int;
        let e = w.remove(0);
        let ghost eg = e;
        proof {
            assert(w0.skip(jj)[0] == w0[jj]);
            assert(eg == w0[jj]);
            assert(w@ =~= w0.skip(jj + 1));
        }
        *e = val;
        proof {
            assert(*final(eg) == val);
        }
        j += 1;
    }
    while w.len() > 0
        invariant
            n == w0.len(),
            n == total as int,
            k <= j <= n,
            w@ =~= w0.skip(j as int),
            forall|i: int| 0 <= i < k ==> *final(w0[i]) == val,
            forall|i: int| k <= i < j ==> *final(w0[i]) == *w0[i],
        decreases n - j,
    {
        let ghost jj = j as int;
        let e = w.remove(0);
        let ghost eg = e;
        proof {
            assert(w0.skip(jj)[0] == w0[jj]);
            assert(eg == w0[jj]);
            assert(w@ =~= w0.skip(jj + 1));
        }
        proof {
            assert(*final(eg) == *eg);
        }
        j += 1;
    }
    proof {
        assert(j as int == n);
    }
}

/// Shape composition on the write side, with caller-chosen values: the q-th
/// reference the dispatched filtered accessor yields addresses the q-th
/// non-negative position — whatever the caller writes through it lands
/// there, every non-negative position is reached by some reference, and the
/// negative positions stay unchanged whatever is written.
pub fn set_positive_each(v: &mut MyVec<i32>, vals: &Vec<i32>)
    requires
        vals@.len() == pos_indexed(old(v).0@).len(),
    ensures
        final(v).0@.len() == old(v).0@.len(),
        forall|q: int|
            0 <= q < pos_indexed(old(v).0@).len() ==> final(v).0@[pos_indexed(
                old(v).0@,
            )[q].0] == vals@[q],
        forall|i: int|
            0 <= i < old(v).0@.len() && #[trigger] old(v).0@[i] >= 0 ==> exists|q: int|
                0 <= q < pos_indexed(old(v).0@).len() && #[trigger] pos_indexed(
                    old(v).0@,
                )[q].0 == i,
        forall|i: int|
            0 <= i < old(v).0@.len() && old(v).0@[i] < 0 ==> final(v).0@[i] == old(
                v,
            ).0@[i],
{
    let mut w = (&mut *v).map::<SliceIter<i32>, Seq<i32>, _, _>(
        (|x| -> Vec<&i32> { iter_positive_read(x) }),
        (|x| -> (rr: Vec<&mut i32>)
            ensures
                rr@.len() == pos_indexed(old(x).0@).len(),
                final(x).0@.len() == old(x).0@.len(),
                forall|q: int|
                    0 <= q < rr@.len() ==> final(x).0@[pos_indexed(old(x).0@)[q].0]
                        == *final(rr@[q]),
                forall|i: int|
                    0 <= i < old(x).0@.len() && old(x).0@[i] < 0 ==> final(x).0@[i]
                        == old(x).0@[i],
                forall|i: int|
                    0 <= i < old(x).0@.len() && #[trigger] old(x).0@[i] >= 0 ==> exists|
                        q: int,
                    |
                        0 <= q < rr@.len() && #[trigger] pos_indexed(old(x).0@)[q] == (
                        i,
                        old(x).0@[i],
                        ) && final(x).0@[i] == *final(rr@[q]),
            { iter_positive_write(x) }),
    );
    let ghost w0 = w@;
    let ghost n = w0.len() as int;
    let total = w.len();
    let mut j: usize = 0;
    proof {
        assert(w@ =~= w0.skip(0));
    }
    while w.len() > 0
        invariant
            n == w0.len(),
            n == total as int,
            n == vals@.len(),
            j <= n,
            w@ =~= w0.skip(j as int),
            forall|i: int| 0 <= i < j ==> *final(w0[i]) == vals@[i],
        decreases n - j,
    {
        let ghost jj = j as int;
        let e = w.remove(0);
        let ghost eg = e;
        proof {
            assert(w0.skip(jj)[0] == w0[jj]);
            assert(eg == w0[jj]);
            assert(w@ =~= w0.skip(jj + 1));
        }
        *e = vals[j];
        proof {
            assert(*final(eg) == vals@[jj]);
        }
        j += 1;
    }
    proof {
        assert(j as int == n);
    }
}

/// Tag fidelity and shape composition on the write side: dispatching the
/// filtered accessor through an exclusive handle yields references through
/// which exactly the non-negative elements can be set — writing through all
/// of them sets those elements and leaves the negative ones unchanged.
pub fn set_positive(v: &mut MyVec<i32>, val: i32)
    ensures
        final(v).0@.len() == old(v).0@.len(),
        forall|i: int|
            0 <= i < old(v).0@.len() && old(v).0@[i] < 0 ==> final(v).0@[i] == old(
                v,
            ).0@[i],
        forall|i: int|
            0 <= i < old(v).0@.len() && old(v).0@[i] >= 0 ==> final(v).0@[i] == val,
{
    let mut w = (&mut *v).map::<SliceIter<i32>, Seq<i32>, _, _>(
        (|x| -> Vec<&i32> { iter_positive_read(x) }),
        (|x| -> (rr: Vec<&mut i32>)
            ensures
                final(x).0@.len() == old(x).0@.len(),
                forall|i: int|
                    0 <= i < old(x).0@.len() && old(x).0@[i] < 0 ==> final(x).0@[i]
                        == old(x).0@[i],
                forall|i: int|
                    0 <= i < old(x).0@.len() && #[trigger] old(x).0@[i] >= 0 ==> exists|
                        q: int,
                    |
                        0 <= q < rr@.len() && #[trigger] pos_indexed(old(x).0@)[q] == (
                        i,
                        old(x).0@[i],
                        ) && final(x).0@[i] == *final(rr@[q]),
            { iter_positive_write(x) }),
    );
    let ghost w0 = w@;
    let ghost n = w0.len() as int;
    let total = w.len();
    let mut j: usize = 0;
    proof {
        assert(w@ =~= w0.skip(0));
    }
    while w.len() > 0
        invariant
            n == w0.len(),
            n == total as int,
            j <= n,
            w@ =~= w0.skip(j as int),
            forall|i: int| 0 <= i < j ==> *final(w0[i]) == val,
        decreases n - j,
    {
        let ghost jj = j as int;
        let e = w.remove(0);
        let ghost eg = e;
        proof {
            assert(w0.skip(jj)[0] == w0[jj]);
            assert(eg == w0[jj]);
            assert(w@ =~= w0.skip(jj + 1));
        }
        *e = val;
        proof {
            assert(*final(eg) == val);
        }
        j += 1;
    }
    proof {
        assert(j as int == n);
    }
}

/// Referential agreement at the model level: the write branch's update and
/// the read branch's lookup address the same logical element — the value
/// read back at the written index is the written value, and every other
/// index is untouched.
pub proof fn lemma_referential_agreement<T>(s: Seq<T>, i: int, val: T)
    requires
        0 <= i < s.len(),
    ensures
        s.update(i, val)[i] == val,
        forall|j: int| 0 <= j < s.len() && j != i ==> s.update(i, val)[j] == s[j],
{
}

/// Completeness of the filtered selection: every position holding a
/// non-negative element appears, with its value, among the filtered pairs.
pub proof fn lemma_pos_indexed_covers(s: Seq<i32>, i: int)
    requires
        0 <= i < s.len(),
        s[i] >= 0,
    ensures
        exists|q: int|
            0 <= q < pos_indexed(s).len() && #[trigger] pos_indexed(s)[q] == (i, s[i]),
    decreases s.len(),
{
    reveal_with_fuel(Seq::filter, 2);
    let t = s.drop_last();
    assert(indexed(s) =~= indexed(t) + seq![(s.len() - 1, s.last())]);
    Seq::<(int, i32)>::filter_distributes_over_add(
        indexed(t),
        seq![(s.len() - 1, s.last())],
        pos_pair_pred(),
    );
    assert(seq![(s.len() - 1, s.last())].drop_last() =~= Seq::<(int, i32)>::empty());
    if i == s.len() - 1 {
        assert(seq![(s.len() - 1, s.last())].filter(pos_pair_pred()) =~= seq![
            (s.len() - 1, s.last()),
        ]);
        assert(pos_indexed(s)[pos_indexed(t).len() as int] == (i, s[i]));
    } else {
        assert(t[i] == s[i]);
        lemma_pos_indexed_covers(t, i);
        let q = choose|q: int|
            0 <= q < pos_indexed(t).len() && #[trigger] pos_indexed(t)[q] == (i, t[i]);
        assert(pos_indexed(s)[q] == (i, s[i]));
    }
}

/// Shape composition: filtering the indexed pairs of a sequence and then
/// taking the values equals filtering the values directly, so the composed
/// filtered shape and the plain sequence shape agree on what they select,
/// whichever capability tag they are instantiated at.
pub proof fn lemma_filter_composition(s: Seq<i32>)
    ensures
        pos_indexed(s).len() == s.filter(pos_pred()).len(),
        forall|q: int|
            0 <= q < pos_indexed(s).len() ==> #[trigger] pos_indexed(s)[q].1 == s.filter(
                pos_pred(),
            )[q],
        forall|q: int|
            0 <= q < pos_indexed(s).len() ==> 0 <= #[trigger] pos_indexed(s)[q].0
                < s.len(),
    decreases s.len(),
{
    reveal_with_fuel(Seq::filter, 2);
    if s.len() == 0 {
        assert(indexed(s) =~= Seq::<(int, i32)>::empty());
        assert(s =~= Seq::<i32>::empty());
    } else {
        let t = s.drop_last();
        lemma_filter_composition(t);
        assert(indexed(s) =~= indexed(t) + seq![(s.len() - 1, s.last())]);
        assert(s =~= t + seq![s.last()]);
        Seq::<(int, i32)>::filter_distributes_over_add(
            indexed(t),
            seq![(s.len() - 1, s.last())],
            pos_pair_pred(),
        );
        Seq::<i32>::filter_distributes_over_add(t, seq![s.last()], pos_pred());
        assert(seq![(s.len() - 1, s.last())].drop_last() =~= Seq::<(int, i32)>::empty());
        assert(seq![s.last()].drop_last() =~= Seq::<i32>::empty());
        if s.last() >= 0 {
            assert(seq![(s.len() - 1, s.last())].filter(pos_pair_pred()) =~= seq![
                (s.len() - 1, s.last()),
            ]);
            assert(seq![s.last()].filter(pos_pred()) =~= seq![s.last()]);
        } else {
            assert(seq![(s.len() - 1, s.last())].filter(pos_pair_pred()) =~= Seq::<(
                int,
                i32,
            )>::empty());
            assert(seq![s.last()].filter(pos_pred()) =~= Seq::<i32>::empty());
        }
    }
}

} // verus!
