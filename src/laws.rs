//! Properties that hold across calls, stated over the models that the
//! operations' contracts use.
use crate::{appended_within, drained, truncated, without_range, StaticVec};
use vstd::prelude::*;
use vstd::std_specs::cmp::PartialEqSpec;

verus! {

/// In every well-formed StaticVec the length is at most the capacity, the
/// slots below the length hold exactly the elements, in order, and every
/// slot from the length on is vacant.
pub proof fn lemma_wf_layout<T, const N: usize>(v: &StaticVec<T, N>)
    requires
        v.wf(),
    ensures
        v@.len() <= N,
        v.slots().len() == N,
        forall|i: int| 0 <= i < v@.len() ==> v.slots()[i] == Some(#[trigger] v@[i]),
        forall|i: int| v@.len() <= i < N ==> (#[trigger] v.slots()[i]) is None,
{
}

/// Draining every element of a StaticVec and then appending the drained
/// elements back, as `append` and `extend_from_slice` do, restores its
/// contents and length.
pub proof fn lemma_drain_all_then_extend_restores<T, const N: usize>(v: &StaticVec<T, N>)
    requires
        v.wf(),
    ensures
        appended_within(
            without_range(v@, 0, v@.len() as int),
            drained(v@, 0, v@.len() as int),
            N as int,
        ) == v@,
{
    let s = v@;
    let rest = without_range(s, 0, s.len() as int);
    let taken = drained(s, 0, s.len() as int);
    assert(rest =~= Seq::<T>::empty());
    assert(taken =~= s);
    assert(taken.take(taken.len() as int) =~= s);
    assert(rest + s =~= s);
}

/// Truncating a StaticVec twice to the same length leaves what truncating
/// once leaves.
pub proof fn lemma_truncate_idempotent<T, const N: usize>(v: &StaticVec<T, N>, k: usize)
    requires
        v.wf(),
    ensures
        truncated(truncated(v@, k as int), k as int) == truncated(v@, k as int),
{
}

/// Two well-formed StaticVecs compare equal, whatever their capacities,
/// exactly when they have the same length and equal elements position by
/// position.
pub proof fn lemma_eq_is_elementwise<T: PartialEq, const N: usize, const M: usize>(
    a: &StaticVec<T, N>,
    b: &StaticVec<T, M>,
)
    requires
        a.wf(),
        b.wf(),
    ensures
        a.eq_spec(b) <==> (a@.len() == b@.len() && forall|k: int|
            0 <= k < a@.len() ==> #[trigger] a@[k].eq_spec(&b@[k])),
{
    assert(a.eq_spec(b) == (a.spec_length() == b.spec_length() && a.spec_length() <= N
        && b.spec_length() <= M && forall|k: int|
        0 <= k < a.spec_length() ==> #[trigger] PartialEqSpec::eq_spec(
            &a.slots()[k],
            &b.slots()[k],
        )));
    if a.eq_spec(b) {
        assert forall|k: int| 0 <= k < a@.len() implies #[trigger] a@[k].eq_spec(&b@[k]) by {
            assert(a.slots()[k] == Some(a@[k]));
            assert(b.slots()[k] == Some(b@[k]));
            assert(PartialEqSpec::eq_spec(&a.slots()[k], &b.slots()[k]));
        }
    }
    if a@.len() == b@.len() && forall|k: int|
        0 <= k < a@.len() ==> #[trigger] a@[k].eq_spec(&b@[k]) {
        assert forall|k: int| 0 <= k < a.spec_length() implies #[trigger] PartialEqSpec::eq_spec(
            &a.slots()[k],
            &b.slots()[k],
        ) by {
            assert(a.slots()[k] == Some(a@[k]));
            assert(b.slots()[k] == Some(b@[k]));
            assert(a@[k].eq_spec(&b@[k]));
        }
    }
}

} // verus!
