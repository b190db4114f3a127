//! The filtered accessor: `iter_positive` composes the sequence shape with a
//! value test, keeping references only to the non-negative elements. The
//! composed shape instantiates at either capability tag exactly as the plain
//! sequence shape does.

use vstd::prelude::*;
use vstd::seq_lib::*;
use crate::{GenMut, Immutable, IsRef, Mutable, SliceIter};
use crate::laws::{lemma_filter_composition, lemma_pos_indexed_covers};
use crate::myvec::{MyVec, SeqMap, iter_read, iter_write};

verus! {

/// The value test that `iter_positive` applies: the element is non-negative.
pub open spec fn pos_pred() -> spec_fn(i32) -> bool {
    |x: i32| x >= 0
}

/// The (position, value) pairs of a sequence, in order.
pub open spec fn indexed(s: Seq<i32>) -> Seq<(int, i32)> {
    Seq::new(s.len(), |i: int| (i, s[i]))
}

/// The pair test matching `pos_pred` on the value component.
pub open spec fn pos_pair_pred() -> spec_fn((int, i32)) -> bool {
    |p: (int, i32)| p.1 >= 0
}

/// The positions and values of the non-negative elements, in order.
pub open spec fn pos_indexed(s: Seq<i32>) -> Seq<(int, i32)> {
    indexed(s).filter(pos_pair_pred())
}

/// The read branch of `iter_positive`: shared references to exactly the
/// non-negative elements, in order — the manually filtered sequence.
pub fn iter_positive_read<'a>(v: &'a MyVec<i32>) -> (r: Vec<&'a i32>)
    ensures
        r@.len() == v.0@.filter(pos_pred()).len(),
        forall|j: int| 0 <= j < r@.len() ==> *r@[j] == v.0@.filter(pos_pred())[j],
{
    let all = iter_read(v);
    let ghost sv = v.0@;
    let mut out: Vec<&'a i32> = Vec::new();
    let mut j: usize = 0;
    proof {
        assert(sv.take(0) =~= Seq::<i32>::empty());
        reveal_with_fuel(Seq::filter, 2);
    }
    while j < all.len()
        invariant
            all@.len() == sv.len(),
            forall|i: int| 0 <= i < sv.len() ==> *all@[i] == sv[i],
            j <= sv.len(),
            out@.len() == sv.take(j as int).filter(pos_pred()).len(),
            forall|q: int|
                0 <= q < out@.len() ==> *out@[q] == sv.take(j as int).filter(pos_pred())[q],
        decreases sv.len() - j,
    {
        let ghost jj = j as int;
        let e: &'a i32 = all[j];
        proof {
            reveal_with_fuel(Seq::filter, 2);
            assert(seq![sv[jj]].drop_last() =~= Seq::<i32>::empty());
            Seq::<i32>::filter_distributes_over_add(sv.take(jj), seq![sv[jj]], pos_pred());
            assert(sv.take(jj + 1) =~= sv.take(jj) + seq![sv[jj]]);
        }
        if *e >= 0 {
            out.push(e);
        }
        j += 1;
    }
    proof {
        assert(sv.take(sv.len() as int) =~= sv);
    }
    out
}

impl MyVec<i32> {
    /// The mutability-polymorphic filtered accessor: references to the
    /// non-negative elements only, shared or exclusive according to the
    /// handle — the sequence shape composed with a value test, dispatched
    /// once on the handle's tag.
    /// Whatever the tag, the references the result holds refer to exactly
    /// the non-negative elements, in order — the manually filtered sequence.
    pub fn iter_positive<'a, R>(this: R) -> (r: SeqMap<'a, R, MyVec<i32>, i32>) where
        R: IsRef<'a, MyVec<i32>>,
        SliceIter<i32>: GenMut<'a, <R as IsRef<'a, MyVec<i32>>>::M, Seq<i32>>,
        ensures
            <SliceIter<i32> as GenMut<'a, <R as IsRef<'a, MyVec<i32>>>::M, Seq<i32>>>::obs(
                r,
            ) == this.inner().0@.filter(pos_pred()),
    {
        this.map::<SliceIter<i32>, Seq<i32>, _, _>(
            (|v: &'a MyVec<i32>| -> (rr: Vec<&'a i32>)
                ensures
                    <SliceIter<i32> as GenMut<'a, Immutable, Seq<i32>>>::obs(rr)
                        == v.0@.filter(pos_pred()),
                {
                    let rr = iter_positive_read(v);
                    proof {
                        assert(<SliceIter<i32> as GenMut<'a, Immutable, Seq<i32>>>::obs(
                            rr,
                        ) =~= v.0@.filter(pos_pred()));
                    }
                    rr
                }),
            (|v: &'a mut MyVec<i32>| -> (rr: Vec<&'a mut i32>)
                ensures
                    <SliceIter<i32> as GenMut<'a, Mutable, Seq<i32>>>::obs(rr) == old(
                        v,
                    ).0@.filter(pos_pred()),
                {
                    let rr = iter_positive_write(v);
                    proof {
                        lemma_filter_composition(old(v).0@);
                        assert(<SliceIter<i32> as GenMut<'a, Mutable, Seq<i32>>>::obs(rr)
                            =~= old(v).0@.filter(pos_pred()));
                    }
                    rr
                }),
        )
    }
}

/// The write branch of `iter_positive`: exclusive references to exactly the
/// non-negative elements, in order; writes through them land at those
/// elements' positions, and the negative elements are left unchanged.
pub fn iter_positive_write<'a>(v: &'a mut MyVec<i32>) -> (r: Vec<&'a mut i32>)
    ensures
        r@.len() == pos_indexed(old(v).0@).len(),
        forall|q: int| 0 <= q < r@.len() ==> *r@[q] == pos_indexed(old(v).0@)[q].1,
        final(v).0@.len() == old(v).0@.len(),
        forall|q: int|
            0 <= q < r@.len() ==> final(v).0@[pos_indexed(old(v).0@)[q].0]
                == *final(r@[q]),
        forall|i: int|
            0 <= i < old(v).0@.len() && old(v).0@[i] < 0
                ==> final(v).0@[i] == old(v).0@[i],
        forall|i: int|
            0 <= i < old(v).0@.len() && #[trigger] old(v).0@[i] >= 0 ==> exists|q: int|
                0 <= q < r@.len() && #[trigger] pos_indexed(old(v).0@)[q] == (
                i,
                old(v).0@[i],
                ) && final(v).0@[i] == *final(r@[q]),
{
    let ghost v0: &'a mut MyVec<i32> = v;
    let ghost sv = old(v).0@;
    let mut all = iter_write(v);
    let total = all.len();
    let ghost a0 = all@;
    let ghost n = sv.len() as int;
    let mut out: Vec<&'a mut i32> = Vec::new();
    let mut j: usize = 0;
    proof {
        assert(indexed(sv).take(0) =~= Seq::<(int, i32)>::empty());
        reveal_with_fuel(Seq::filter, 2);
        assert(all@ =~= a0.skip(0));
    }
    while all.len() > 0
        invariant
            n == sv.len(),
            n == total as int,
            a0.len() == n,
            j <= n,
            all@ =~= a0.skip(j as int),
            forall|i: int| 0 <= i < n ==> *a0[i] == sv[i],
            final(v0).0@.len() == n,
            forall|i: int| 0 <= i < n ==> final(v0).0@[i] == *final(a0[i]),
            out@.len() == indexed(sv).take(j as int).filter(pos_pair_pred()).len(),
            forall|q: int|
                #![trigger indexed(sv).take(j as int).filter(pos_pair_pred())[q]]
                0 <= q < out@.len() ==> 0 <= indexed(sv).take(j as int).filter(
                    pos_pair_pred(),
                )[q].0 < j,
            forall|q: int|
                #![trigger indexed(sv).take(j as int).filter(pos_pair_pred())[q]]
                0 <= q < out@.len() ==> indexed(sv).take(j as int).filter(
                    pos_pair_pred(),
                )[q].1 == sv[indexed(sv).take(j as int).filter(pos_pair_pred())[q].0],
            forall|q: int|
                #![trigger out@[q]]
                0 <= q < out@.len() ==> *out@[q] == sv[indexed(sv).take(
                    j as int,
                ).filter(pos_pair_pred())[q].0],
            forall|q: int|
                #![trigger out@[q]]
                0 <= q < out@.len() ==> *final(out@[q]) == *final(a0[indexed(sv).take(
                    j as int,
                ).filter(pos_pair_pred())[q].0]),
            forall|i: int| 0 <= i < j && sv[i] < 0 ==> *final(a0[i]) == sv[i],
        decreases n - j,
    {
        let ghost jj = j as int;
        let ghost o0 = out@;
        let e = all.remove(0);
        let ghost eg: &'a mut i32 = e;
        proof {
            assert(a0.skip(jj)[0] == a0[jj]);
            assert(eg == a0[jj]);
            assert(all@ =~= a0.skip(jj + 1));
            reveal_with_fuel(Seq::filter, 2);
            assert(seq![indexed(sv)[jj]].drop_last() =~= Seq::<(int, i32)>::empty());
            Seq::<(int, i32)>::filter_distributes_over_add(
                indexed(sv).take(jj),
                seq![indexed(sv)[jj]],
                pos_pair_pred(),
            );
            assert(indexed(sv).take(jj + 1) =~= indexed(sv).take(jj) + seq![
                indexed(sv)[jj],
            ]);
        }
        if *e >= 0 {
            out.push(e);
            proof {
                assert(out@.len() == o0.len() + 1);
                assert(*out@[o0.len() as int] == *eg);
                assert(*final(out@[o0.len() as int]) == *final(eg));
                reveal_with_fuel(Seq::filter, 2);
                assert(pos_pair_pred()(indexed(sv)[jj]));
                assert(seq![indexed(sv)[jj]].filter(pos_pair_pred()) =~= seq![
                    indexed(sv)[jj],
                ]);
                assert(indexed(sv).take(jj + 1).filter(pos_pair_pred()) =~= indexed(
                    sv,
                ).take(jj).filter(pos_pair_pred()) + seq![indexed(sv)[jj]]);
            }
        } else {
            proof {
                reveal_with_fuel(Seq::filter, 2);
                assert(*final(eg) == *eg);
                assert(!pos_pair_pred()(indexed(sv)[jj]));
                assert(seq![indexed(sv)[jj]].filter(pos_pair_pred()) =~= Seq::<(
                    int,
                    i32,
                )>::empty());
                assert(indexed(sv).take(jj + 1).filter(pos_pair_pred()) =~= indexed(
                    sv,
                ).take(jj).filter(pos_pair_pred()));
            }
        }
        j += 1;
        proof {
            let ghost fj = indexed(sv).take(jj).filter(pos_pair_pred());
            let ghost fj1 = indexed(sv).take(jj + 1).filter(pos_pair_pred());
            assert forall|q: int|
                #![trigger out@[q]]
                #![trigger fj1[q]]
                0 <= q < out@.len() implies {
                    &&& 0 <= fj1[q].0 < jj + 1
                    &&& fj1[q].1 == sv[fj1[q].0]
                    &&& *out@[q] == sv[fj1[q].0]
                    &&& *final(out@[q]) == *final(a0[fj1[q].0])
                } by {
                if q < fj.len() {
                    assert(fj1[q] == fj[q]);
                    assert(*out@[q] == *o0[q]);
                    assert(*final(out@[q]) == *final(o0[q]));
                } else {
                    assert(fj1[q] == indexed(sv)[jj]);
                    assert(indexed(sv)[jj] == (jj, sv[jj]));
                    assert(*out@[q] == *eg);
                    assert(*final(out@[q]) == *final(eg));
                    assert(*eg == sv[jj]);
                }
            }
        }
    }
    proof {
        assert(j as int == n);
        assert(indexed(sv).take(n) =~= indexed(sv));
        assert(indexed(sv).take(j as int).filter(pos_pair_pred()) == pos_indexed(sv));
        assert(sv == old(v).0@);
        assert forall|i: int| 0 <= i < sv.len() && #[trigger] sv[i] >= 0 implies exists|
            q: int,
        |
            0 <= q < out@.len() && #[trigger] pos_indexed(sv)[q] == (i, sv[i])
                && final(v0).0@[i] == *final(out@[q]) by {
            lemma_pos_indexed_covers(sv, i);
            let q = choose|q: int|
                0 <= q < pos_indexed(sv).len() && #[trigger] pos_indexed(sv)[q] == (
                i,
                sv[i],
                );
            assert(pos_indexed(sv)[q].0 == i);
            assert(*final(out@[q]) == *final(a0[i]));
            assert(final(v0).0@[i] == *final(out@[q]));
        }
    }
    out
}

} // verus!
