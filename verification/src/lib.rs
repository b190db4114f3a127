//! Mutability-polymorphic references: one accessor body serves both a shared
//! and an exclusive handle to a container, with the result type chosen at
//! compile time by the handle's capability tag. No runtime test ever
//! distinguishes the two access modes; the selection is made by which
//! implementation of the handle trait the caller's reference satisfies.

mod laws;
mod myvec;
mod positive;

pub use myvec::{MyVec, RefMap, SeqMap, get_read, get_write, iter_read, iter_write, slice_refs};
pub use positive::{indexed, iter_positive_read, iter_positive_write, pos_indexed, pos_pair_pred, pos_pred};
pub use laws::{get_expect_via_read_handle, get_via_read_handle, iter_positive_via_read_handle, iter_via_read_handle, lemma_filter_composition, lemma_pos_indexed_covers, lemma_referential_agreement, set_all, set_at, set_each, set_positive, set_positive_each, set_prefix, write_then_read};

use vstd::prelude::*;
use core::marker::PhantomData;

verus! {

/// Capability tag carried by a handle: either read-only or exclusive access.
/// The tag is a zero-sized type; the query is resolved statically.
pub trait Mut: Sized {
    /// Whether this capability grants exclusive (write) access.
    spec fn is_write() -> bool;
}

/// The read-only capability tag.
pub struct Immutable;

/// The exclusive capability tag.
pub struct Mutable;

impl Mut for Immutable {
    open spec fn is_write() -> bool {
        false
    }
}

impl Mut for Mutable {
    open spec fn is_write() -> bool {
        true
    }
}

/// The access family: a shape (a structural pattern such as "one reference"
/// or "a sequence of references") instantiated at a capability tag `M` yields
/// the concrete result type `Ty` for that access mode. For any shape and tag
/// exactly one instantiation applies, and it never mixes reference kinds.
/// `V` is the shape's observable type — what a result of the shape refers to
/// when it is produced — and is the same for both tags of one shape, so that
/// a contract generic over the tag can speak of the result through `obs`.
pub trait GenMut<'a, M: Mut, V> {
    type Ty;

    spec fn obs(t: Self::Ty) -> V;
}

/// The shape of a single reference to a `T`: read-only under `Immutable`,
/// exclusive under `Mutable`; its observable is the referent's value.
pub struct GenRef<T>(PhantomData<T>);

impl<'a, T: 'a> GenMut<'a, Immutable, T> for GenRef<T> {
    type Ty = &'a T;

    open spec fn obs(t: &'a T) -> T {
        *t
    }
}

impl<'a, T: 'a> GenMut<'a, Mutable, T> for GenRef<T> {
    type Ty = &'a mut T;

    open spec fn obs(t: &'a mut T) -> T {
        *t
    }
}

/// Shape composition: an optional shape wraps any inner shape, and
/// substituting a tag into the composite equals substituting it into the
/// inner shape and then wrapping, by this very definition.
impl<'a, M: Mut, V, S: GenMut<'a, M, V>> GenMut<'a, M, Option<V>> for Option<S> {
    type Ty = Option<S::Ty>;

    open spec fn obs(t: Option<S::Ty>) -> Option<V> {
        match t {
            Some(u) => Some(S::obs(u)),
            None => None,
        }
    }
}

/// The shape of a sequence of references to the elements of a container:
/// a vector of read-only references under `Immutable`, of exclusive
/// references under `Mutable`; its observable is the sequence of the
/// referents' values.
pub struct SliceIter<T>(PhantomData<T>);

impl<'a, T: 'a> GenMut<'a, Immutable, Seq<T>> for SliceIter<T> {
    type Ty = Vec<&'a T>;

    open spec fn obs(t: Vec<&'a T>) -> Seq<T> {
        Seq::new(t@.len(), |i: int| *t@[i])
    }
}

impl<'a, T: 'a> GenMut<'a, Mutable, Seq<T>> for SliceIter<T> {
    type Ty = Vec<&'a mut T>;

    open spec fn obs(t: Vec<&'a mut T>) -> Seq<T> {
        Seq::new(t@.len(), |i: int| *t@[i])
    }
}

/// A handle to a value of type `T`: either a shared or an exclusive
/// reference. The associated tag `M` records, at the type level, which
/// capability the handle carries, and `map` dispatches on it: a shared
/// handle always runs `f`, an exclusive handle always runs `g`, and the
/// result type is the shape `B` instantiated at the handle's own tag, so a
/// branch of the wrong kind does not type-check.
pub trait IsRef<'a, T: 'a>: Sized {
    type M: Mut;

    /// The value of the referent at the time the handle was formed.
    spec fn inner(self) -> T;

    /// Dispatch: run the closure matching this handle's capability tag on the
    /// handle itself; the other closure never runs and need not be callable.
    /// The caller must show only that the selected branch's closure accepts
    /// any reference whose referent is this handle's. In return, the result's
    /// observable is one the selected branch's closure can produce from a
    /// reference to this handle's referent — so a contract generic over the
    /// tag can pin the result down through the shape's `obs`. Each
    /// implementation further guarantees that the result is one its own
    /// branch's closure may return.
    fn map<B, V, F, G>(self, f: F, g: G) -> (r: <B as GenMut<'a, Self::M, V>>::Ty) where
        B: GenMut<'a, Immutable, V> + GenMut<'a, Mutable, V> + GenMut<'a, Self::M, V>,
        F: FnOnce(&'a T) -> <B as GenMut<'a, Immutable, V>>::Ty,
        G: FnOnce(&'a mut T) -> <B as GenMut<'a, Mutable, V>>::Ty,
        requires
            !Self::M::is_write() ==> forall|x: (&'a T,)|
                *x.0 == self.inner() ==> #[trigger] call_requires(f, x),
            Self::M::is_write() ==> forall|x: (&'a mut T,)|
                *x.0 == self.inner() ==> #[trigger] call_requires(g, x),
        ensures
            !Self::M::is_write() ==> exists|x: (&'a T,), y: <B as GenMut<'a, Immutable, V>>::Ty|
                *x.0 == self.inner() && #[trigger] call_ensures(f, x, y)
                    && <B as GenMut<'a, Immutable, V>>::obs(y) == <B as GenMut<
                    'a,
                    Self::M,
                    V,
                >>::obs(r),
            Self::M::is_write() ==> exists|x: (&'a mut T,), y: <B as GenMut<'a, Mutable, V>>::Ty|
                *x.0 == self.inner() && #[trigger] call_ensures(g, x, y)
                    && <B as GenMut<'a, Mutable, V>>::obs(y) == <B as GenMut<
                    'a,
                    Self::M,
                    V,
                >>::obs(r),
    ;
}

/// A shared reference is a handle carrying the read-only capability: `map`
/// always runs the read branch, on the reference itself.
impl<'a, 'b: 'a, T: 'a> IsRef<'a, T> for &'b T {
    type M = Immutable;

    open spec fn inner(self) -> T {
        *self
    }

    fn map<B, V, F, G>(self, f: F, g: G) -> (r: <B as GenMut<'a, Immutable, V>>::Ty) where
        B: GenMut<'a, Immutable, V> + GenMut<'a, Mutable, V> + GenMut<'a, Immutable, V>,
        F: FnOnce(&'a T) -> <B as GenMut<'a, Immutable, V>>::Ty,
        G: FnOnce(&'a mut T) -> <B as GenMut<'a, Mutable, V>>::Ty,
        ensures
            call_ensures(f, (self,), r),
    {
        f(self)
    }
}

/// An exclusive reference is a handle carrying the write capability: `map`
/// always runs the write branch, on a reborrow of the reference that starts
/// at the same referent and whose final value is the reference's own.
impl<'a, 'b: 'a, T: 'a> IsRef<'a, T> for &'b mut T {
    type M = Mutable;

    open spec fn inner(self) -> T {
        *self
    }

    fn map<B, V, F, G>(self, f: F, g: G) -> (r: <B as GenMut<'a, Mutable, V>>::Ty) where
        B: GenMut<'a, Immutable, V> + GenMut<'a, Mutable, V> + GenMut<'a, Mutable, V>,
        F: FnOnce(&'a T) -> <B as GenMut<'a, Immutable, V>>::Ty,
        G: FnOnce(&'a mut T) -> <B as GenMut<'a, Mutable, V>>::Ty,
        ensures
            exists|m: &'a mut T|
                *m == *old(self) && *final(m) == *final(self) && call_ensures(g, (m,), r),
    {
        g(self)
    }
}

} // verus!
