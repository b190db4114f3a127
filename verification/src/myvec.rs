//! The illustrative container: a vector offering mutability-polymorphic
//! accessors. Each accessor has one body, generic over the handle, and a
//! contract over the shape's observable that holds under either tag; the two
//! branch functions are its read and write paths, and carry the exact
//! two-state contracts that concrete callers see through the dispatch.

use vstd::prelude::*;
use crate::{GenMut, GenRef, Immutable, IsRef, Mutable, SliceIter};

verus! {

/// A growable container whose accessors work under either kind of handle.
pub struct MyVec<T>(pub Vec<T>);

/// The type of a single-reference result on a handle `R` to a container `C`
/// with elements `T`: shared or exclusive according to the handle's tag.
pub type RefMap<'a, R, C, T> = <GenRef<T> as GenMut<'a, <R as IsRef<'a, C>>::M, T>>::Ty;

/// The type of a sequence-of-references result on a handle `R` to `C`.
pub type SeqMap<'a, R, C, T> = <SliceIter<T> as GenMut<'a, <R as IsRef<'a, C>>::M, Seq<T>>>::Ty;

/// The read branch of `get`: a shared reference to the element at `idx`, or
/// nothing when `idx` is out of range.
pub fn get_read<'a, T>(v: &'a MyVec<T>, idx: usize) -> (r: Option<&'a T>)
    ensures
        idx < v.0@.len() ==> (r matches Some(e) && *e == v.0@[idx as int]),
        idx >= v.0@.len() ==> r is None,
{
    if idx < v.0.len() {
        Some(&v.0[idx])
    } else {
        None
    }
}

/// The write branch of `get`: an exclusive reference to the element at `idx`,
/// or nothing when `idx` is out of range; writing through the reference
/// updates exactly that element, and an out-of-range access changes nothing.
pub fn get_write<'a, T>(v: &'a mut MyVec<T>, idx: usize) -> (r: Option<&'a mut T>)
    ensures
        idx < old(v).0@.len() ==> (r matches Some(e) && *e == old(v).0@[idx as int]
            && final(v).0@ == old(v).0@.update(idx as int, *final(e))),
        idx >= old(v).0@.len() ==> (r is None && final(v).0@ == old(v).0@),
{
    if idx < v.0.len() {
        Some(&mut v.0[idx])
    } else {
        None
    }
}

impl<T> MyVec<T> {
    /// The mutability-polymorphic accessor for one element: under a shared
    /// handle it yields an optional shared reference, under an exclusive
    /// handle an optional exclusive reference — one body, dispatched on the
    /// handle's tag, both branches given by `get_read` and `get_write`.
    /// Whatever the tag, the result is present exactly when `idx` is in
    /// range, and it then refers to the element at `idx`.
    pub fn get<'a, R>(this: R, idx: usize) -> (r: Option<RefMap<'a, R, MyVec<T>, T>>) where
        T: 'a,
        R: IsRef<'a, MyVec<T>>,
        GenRef<T>: GenMut<'a, <R as IsRef<'a, MyVec<T>>>::M, T>,
        ensures
            <Option<GenRef<T>> as GenMut<'a, <R as IsRef<'a, MyVec<T>>>::M, Option<T>>>::obs(
                r,
            ) == (if idx < this.inner().0@.len() {
                Some(this.inner().0@[idx as int])
            } else {
                None::<T>
            }),
            idx < this.inner().0@.len() ==> r is Some,
            idx >= this.inner().0@.len() ==> r is None,
    {
        this.map::<Option<GenRef<T>>, Option<T>, _, _>(
            (|v: &'a MyVec<T>| -> (rr: Option<&'a T>)
                ensures
                    <Option<GenRef<T>> as GenMut<'a, Immutable, Option<T>>>::obs(rr) == (
                    if idx < v.0@.len() {
                        Some(v.0@[idx as int])
                    } else {
                        None::<T>
                    }),
                { get_read(v, idx) }),
            (|v: &'a mut MyVec<T>| -> (rr: Option<&'a mut T>)
                ensures
                    <Option<GenRef<T>> as GenMut<'a, Mutable, Option<T>>>::obs(rr) == (
                    if idx < old(v).0@.len() {
                        Some(old(v).0@[idx as int])
                    } else {
                        None::<T>
                    }),
                { get_write(v, idx) }),
        )
    }

    /// The element at `idx`, which must be in range, under whichever
    /// reference kind the handle grants.
    pub fn get_expect<'a, R>(this: R, idx: usize) -> (r: RefMap<'a, R, MyVec<T>, T>) where
        T: 'a,
        R: IsRef<'a, MyVec<T>>,
        GenRef<T>: GenMut<'a, <R as IsRef<'a, MyVec<T>>>::M, T>,
        requires
            idx < this.inner().0@.len(),
        ensures
            <GenRef<T> as GenMut<'a, <R as IsRef<'a, MyVec<T>>>::M, T>>::obs(r)
                == this.inner().0@[idx as int],
    {
        this.map::<GenRef<T>, T, _, _>(
            (|v: &'a MyVec<T>| -> (rr: &'a T)
                requires
                    idx < v.0@.len(),
                ensures
                    <GenRef<T> as GenMut<'a, Immutable, T>>::obs(rr) == v.0@[idx as int],
                { &v.0[idx] }),
            (|v: &'a mut MyVec<T>| -> (rr: &'a mut T)
                requires
                    idx < old(v).0@.len(),
                ensures
                    <GenRef<T> as GenMut<'a, Mutable, T>>::obs(rr) == old(
                        v,
                    ).0@[idx as int],
                { &mut v.0[idx] }),
        )
    }
}

/// The read branch of `iter`: shared references to all elements, in order.
pub fn iter_read<'a, T>(v: &'a MyVec<T>) -> (r: Vec<&'a T>)
    ensures
        r@.len() == v.0@.len(),
        forall|i: int| 0 <= i < r@.len() ==> *r@[i] == v.0@[i],
{
    let mut out: Vec<&'a T> = Vec::new();
    let mut j: usize = 0;
    while j < v.0.len()
        invariant
            j <= v.0@.len(),
            out@.len() == j,
            forall|i: int| 0 <= i < j ==> *out@[i] == v.0@[i],
        decreases v.0@.len() - j,
    {
        out.push(&v.0[j]);
        j += 1;
    }
    out
}

/// Exclusive references to all elements of a slice, in order; the slice's
/// final contents are exactly the final values written through them.
pub fn slice_refs<'a, T>(s: &'a mut [T]) -> (r: Vec<&'a mut T>)
    ensures
        r@.len() == old(s)@.len(),
        forall|i: int| 0 <= i < r@.len() ==> *r@[i] == old(s)@[i],
        final(s)@.len() == old(s)@.len(),
        forall|i: int| 0 <= i < r@.len() ==> final(s)@[i] == *final(r@[i]),
{
    let ghost s0: &'a mut [T] = s;
    let ghost sv: Seq<T> = old(s)@;
    let ghost n = sv.len() as int;
    let mut rest: &'a mut [T] = s;
    let mut out: Vec<&'a mut T> = Vec::new();
    while rest.len() > 0
        invariant
            n == sv.len(),
            out@.len() + rest@.len() == n,
            forall|i: int| 0 <= i < out@.len() ==> *out@[i] == sv[i],
            rest@ == sv.subrange(out@.len() as int, n),
            final(s0)@ == Seq::new(out@.len(), |i: int| *final(out@[i])) + final(rest)@,
        decreases rest@.len(),
    {
        let ghost k = out@.len() as int;
        let ghost prefix = Seq::new(out@.len(), |i: int| *final(out@[i]));
        let tmp = rest;
        let ghost tv = tmp@;
        proof {
            assert(tv == sv.subrange(k, n));
            assert(tv.len() > 0);
        }
        let (head, tail) = <[T]>::split_at_mut(tmp, 1);
        proof {
            assert(head@ == tv.subrange(0, 1));
            assert(sv.subrange(k, n)[0] == sv[k]);
            assert(head@[0] == sv[k]);
            assert(tail@ == tv.subrange(1, tv.len() as int));
            assert forall|i: int| 0 <= i < tail@.len() implies tail@[i] == sv[k + 1 + i] by {
                assert(tail@[i] == tv[1 + i]);
                assert(sv.subrange(k, n)[1 + i] == sv[k + 1 + i]);
            }
            assert(tail@ =~= sv.subrange(k + 1, n));
        }
        let ghost hg: &'a mut [T] = head;
        let ghost tg: &'a mut [T] = tail;
        let e = match <[T]>::first_mut(head) {
            Some(e) => e,
            None => unreached(),
        };
        let ghost eg: &'a mut T = e;
        out.push(e);
        rest = tail;
        proof {
            assert(final(hg)@ =~= seq![*final(eg)]);
            assert(Seq::new(out@.len(), |i: int| *final(out@[i])) =~= prefix
                + seq![*final(eg)]);
            assert(final(s0)@ =~= Seq::new(out@.len(), |i: int| *final(out@[i]))
                + final(tg)@);
        }
    }
    out
}

/// The write branch of `iter`: exclusive references to all elements, in
/// order; the container's final contents are exactly the final values
/// written through those references.
pub fn iter_write<'a, T>(v: &'a mut MyVec<T>) -> (r: Vec<&'a mut T>)
    ensures
        r@.len() == old(v).0@.len(),
        forall|i: int| 0 <= i < r@.len() ==> *r@[i] == old(v).0@[i],
        final(v).0@.len() == old(v).0@.len(),
        forall|i: int| 0 <= i < r@.len() ==> final(v).0@[i] == *final(r@[i]),
{
    slice_refs(v.0.as_mut_slice())
}

impl<T> MyVec<T> {
    /// The mutability-polymorphic accessor for all elements: a vector of
    /// shared references under a shared handle, of exclusive references
    /// under an exclusive handle — one body, dispatched on the handle's tag,
    /// both branches given by `iter_read` and `iter_write`.
    /// Whatever the tag, the references the result holds refer to exactly
    /// the container's elements, in order.
    pub fn iter<'a, R>(this: R) -> (r: SeqMap<'a, R, MyVec<T>, T>) where
        T: 'a,
        R: IsRef<'a, MyVec<T>>,
        SliceIter<T>: GenMut<'a, <R as IsRef<'a, MyVec<T>>>::M, Seq<T>>,
        ensures
            <SliceIter<T> as GenMut<'a, <R as IsRef<'a, MyVec<T>>>::M, Seq<T>>>::obs(r)
                == this.inner().0@,
    {
        this.map::<SliceIter<T>, Seq<T>, _, _>(
            (|v: &'a MyVec<T>| -> (rr: Vec<&'a T>)
                ensures
                    <SliceIter<T> as GenMut<'a, Immutable, Seq<T>>>::obs(rr) == v.0@,
                {
                    let rr = iter_read(v);
                    proof {
                        assert(<SliceIter<T> as GenMut<'a, Immutable, Seq<T>>>::obs(rr)
                            =~= v.0@);
                    }
                    rr
                }),
            (|v: &'a mut MyVec<T>| -> (rr: Vec<&'a mut T>)
                ensures
                    <SliceIter<T> as GenMut<'a, Mutable, Seq<T>>>::obs(rr) == old(v).0@,
                {
                    let rr = iter_write(v);
                    proof {
                        assert(<SliceIter<T> as GenMut<'a, Mutable, Seq<T>>>::obs(rr)
                            =~= old(v).0@);
                    }
                    rr
                }),
        )
    }
}

} // verus!
