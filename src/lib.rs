//! A fixed-capacity vector: up to `N` elements kept inline in an array of
//! slots, with no reallocation. Slots below the length hold live values and
//! slots from the length on are vacant.
pub mod iterators;
pub mod laws;

pub use iterators::{StaticVecDrain, StaticVecIntoIter, StaticVecIterConst, StaticVecIterMut};

use vstd::math::min;
use vstd::prelude::*;
use vstd::std_specs::cmp::{OrdSpec, PartialEqSpec, PartialOrdSpec};
use vstd::laws_cmp::obeys_cmp;
use core::cmp::Ordering;

verus! {

/// A `Vec`-like container with a fixed capacity of `N` elements, stored in an
/// inline array of slots.
#[derive(Clone)]
pub struct StaticVec<T, const N: usize> {
    data: [Option<T>; N],
    length: usize,
}

/// The error returned when a value cannot be added because the container is
/// full. It hands the rejected value back to the caller.
#[derive(Debug, PartialEq)]
pub struct PushCapacityError<T> {
    pub value: T,
}

/// The error returned when a group of values would not fit in a container of
/// capacity `N`; the container is left unchanged.
#[derive(Debug, PartialEq)]
pub struct CapacityError<const N: usize> {}

/// A vacant slot, used to build the initial storage.
fn vacant<T>(_index: usize) -> (r: Option<T>)
    ensures
        r is None,
{
    None
}

/// Relies on `core::array::from_fn`: element `i` of the array is what the
/// callback returns for `i`, and the callback here always returns `None`.
#[verifier::external_body]
fn vacant_slots<T, const N: usize>() -> (r: [Option<T>; N])
    ensures
        forall|i: int| 0 <= i < N ==> (#[trigger] r@[i]) is None,
{
    core::array::from_fn(vacant)
}

/// The elements at positions `start..end`.
pub open spec fn drained<T>(s: Seq<T>, start: int, end: int) -> Seq<T> {
    s.subrange(start, end)
}

/// What remains of `s` once positions `start..end` are taken out.
pub open spec fn without_range<T>(s: Seq<T>, start: int, end: int) -> Seq<T> {
    s.subrange(0, start) + s.subrange(end, s.len() as int)
}

/// `s` followed by as many leading elements of `extra` as fit within a
/// capacity of `cap`.
pub open spec fn appended_within<T>(s: Seq<T>, extra: Seq<T>, cap: int) -> Seq<T> {
    s + extra.take(min(extra.len() as int, cap - s.len()))
}

/// `s` cut down to its first `k` elements when it is longer.
pub open spec fn truncated<T>(s: Seq<T>, k: int) -> Seq<T> {
    if k < s.len() {
        s.take(k)
    } else {
        s
    }
}

/// Within positions `lo..hi`, each element is not greater than the next.
pub open spec fn sorted_between<T: Ord>(s: Seq<T>, lo: int, hi: int) -> bool {
    forall|i: int, j: int|
        lo <= i && j == i + 1 && j < hi ==> #[trigger] s[i].cmp_spec(&s[j]) != Ordering::Greater
}

/// Each element is not greater than the one after it.
pub open spec fn is_sorted<T: Ord>(s: Seq<T>) -> bool {
    sorted_between(s, 0, s.len() as int)
}

/// `p` takes each position of `after` to the position of `before` that its
/// element came from, one to one.
pub open spec fn rearranges<T>(before: Seq<T>, after: Seq<T>, p: Seq<int>) -> bool {
    &&& after.len() == before.len()
    &&& p.len() == before.len()
    &&& forall|k: int| 0 <= k < p.len() ==> 0 <= #[trigger] p[k] < before.len() && after[k] == before[p[k]]
    &&& forall|a: int, b: int| 0 <= a < b < p.len() ==> #[trigger] p[a] != #[trigger] p[b]
}

/// Elements of `after` that compare equal came, through `p`, from positions
/// in the same relative order.
pub open spec fn keeps_equal_order<T: Ord>(after: Seq<T>, p: Seq<int>) -> bool {
    forall|a: int, b: int|
        0 <= a < b < p.len() && #[trigger] after[a].cmp_spec(&after[b]) == Ordering::Equal ==> p[a]
            < p[b]
}

/// `after` holds the elements of `before`, with equal elements in the order
/// they had in `before`.
pub open spec fn is_stable_rearrangement<T: Ord>(before: Seq<T>, after: Seq<T>) -> bool {
    exists|p: Seq<int>| #[trigger] rearranges(before, after, p) && keeps_equal_order(after, p)
}

/// `p` moves positions only within its first `i` entries.
spec fn moves_within_prefix(p: Seq<int>, i: int) -> bool {
    &&& forall|k: int| 0 <= k < i ==> 0 <= #[trigger] p[k] < i
    &&& forall|k: int| i <= k < p.len() ==> #[trigger] p[k] == k
}

/// Exchanging two elements keeps the multiset of elements.
proof fn lemma_swap_to_multiset<A>(s: Seq<A>, i: int, j: int)
    requires
        0 <= i < s.len(),
        0 <= j < s.len(),
    ensures
        s.update(i, s[j]).update(j, s[i]).to_multiset() == s.to_multiset(),
{
    broadcast use vstd::seq_lib::group_to_multiset_ensures, vstd::multiset::group_multiset_axioms;

    let t = s.update(i, s[j]);
    assert(t.to_multiset() == s.to_multiset().insert(s[j]).remove(s[i]));
    assert(t.update(j, s[i]).to_multiset() == t.to_multiset().insert(s[i]).remove(t[j]));
    if i == j {
        assert(t.update(j, s[i]) =~= s);
    } else {
        assert(t.to_multiset().insert(s[i]).remove(t[j]) =~= s.to_multiset());
    }
}

/// Exchanging adjacent elements that are not equal, together with their
/// source positions, keeps equal elements in order.
proof fn lemma_swap_keeps_equal_order<T: Ord>(
    s: Seq<T>,
    t: Seq<T>,
    q: Seq<int>,
    p: Seq<int>,
    j: int,
)
    requires
        0 < j < s.len(),
        q.len() == s.len(),
        t == s.update(j - 1, s[j]).update(j, s[j - 1]),
        p == q.update(j - 1, q[j]).update(j, q[j - 1]),
        obeys_cmp::<T>() ==> keeps_equal_order(s, q),
        obeys_cmp::<T>() ==> s[j].cmp_spec(&s[j - 1]) == Ordering::Less,
    ensures
        obeys_cmp::<T>() ==> keeps_equal_order(t, p),
{
    if obeys_cmp::<T>() {
        assert forall|a: int, b: int|
            0 <= a < b < p.len() && #[trigger] t[a].cmp_spec(&t[b]) == Ordering::Equal implies p[a]
            < p[b] by {
            let sa = if a == j - 1 { j } else if a == j { j - 1 } else { a };
            let sb = if b == j - 1 { j } else if b == j { j - 1 } else { b };
            assert(t[a] == s[sa]);
            assert(t[b] == s[sb]);
            assert(p[a] == q[sa]);
            assert(p[b] == q[sb]);
            if a == j - 1 && b == j {
                assert(s[sa].cmp_spec(&s[sb]) == Ordering::Less);
            } else {
                assert(sa < sb);
                assert(s[sa].cmp_spec(&s[sb]) == Ordering::Equal);
            }
        }
    }
}

/// A prefix is sorted exactly when its positions are sorted in the whole.
proof fn lemma_sorted_prefix<T: Ord>(s: Seq<T>, n: int)
    requires
        0 <= n <= s.len(),
    ensures
        is_sorted(s.take(n)) <==> sorted_between(s, 0, n),
{
    let t = s.take(n);
    assert forall|i: int, j: int| 0 <= i && j == i + 1 && j < n implies t[i] == s[i] && t[j]
        == s[j] by {}
    if is_sorted(t) {
        assert forall|i: int, j: int| 0 <= i && j == i + 1 && j < n implies #[trigger] s[i].cmp_spec(
            &s[j],
        ) != Ordering::Greater by {
            assert(t[i].cmp_spec(&t[j]) != Ordering::Greater);
        }
    }
    if sorted_between(s, 0, n) {
        assert forall|i: int, j: int| 0 <= i && j == i + 1 && j < t.len() implies #[trigger] t[i].cmp_spec(
            &t[j],
        ) != Ordering::Greater by {
            assert(s[i].cmp_spec(&s[j]) != Ordering::Greater);
        }
    }
}

/// Under a lawful ordering, `cmp` returns what `cmp_spec` states.
proof fn lemma_cmp_follows_spec<T: Ord>()
    requires
        obeys_cmp::<T>(),
    ensures
        T::obeys_cmp_spec(),
{
    reveal(vstd::laws_cmp::obeys_cmp_ord);
}

/// Under a lawful ordering, `a > b` means `b < a`.
proof fn lemma_greater_flips<T: Ord>(a: T, b: T)
    requires
        obeys_cmp::<T>(),
        a.cmp_spec(&b) == Ordering::Greater,
    ensures
        b.cmp_spec(&a) == Ordering::Less,
{
    reveal(vstd::laws_cmp::obeys_partial_cmp_spec_properties);
    reveal(vstd::laws_cmp::obeys_cmp_ord);
    assert(a.partial_cmp_spec(&b) == Some(a.cmp_spec(&b)));
    assert(b.partial_cmp_spec(&a) == Some(b.cmp_spec(&a)));
}

impl<T> PushCapacityError<T> {
    /// Returns the value that could not be added.
    pub fn into_value(self) -> (r: T)
        ensures
            r == self.value,
    {
        self.value
    }
}

impl<T, const N: usize> StaticVec<T, N> {
    /// The backing slots, live or vacant.
    pub closed spec fn slots(&self) -> Seq<Option<T>> {
        self.data@
    }

    /// The number of live elements.
    pub closed spec fn spec_length(&self) -> nat {
        self.length as nat
    }

    /// Well-formedness: the length never exceeds the capacity, the slots
    /// below the length are live and the slots from the length on are vacant.
    pub open spec fn wf(&self) -> bool {
        &&& self.spec_length() <= N
        &&& self.slots().len() == N
        &&& forall|i: int| 0 <= i < self.spec_length() ==> (#[trigger] self.slots()[i]) is Some
        &&& forall|i: int| self.spec_length() <= i < N ==> (#[trigger] self.slots()[i]) is None
    }
}

impl<T, const N: usize> View for StaticVec<T, N> {
    type V = Seq<T>;

    /// The live elements, in order.
    open spec fn view(&self) -> Seq<T> {
        Seq::new(self.spec_length(), |i: int| self.slots()[i]->Some_0)
    }
}

impl<T, const N: usize> StaticVec<T, N> {
    /// Returns a new, empty StaticVec.
    pub fn new() -> (r: Self)
        ensures
            r.wf(),
            r@ == Seq::<T>::empty(),
    {
        let r = StaticVec { data: vacant_slots(), length: 0 };
        assert(r@ =~= Seq::<T>::empty());
        r
    }

    /// Returns the number of elements currently held.
    pub fn len(&self) -> (r: usize)
        requires
            self.wf(),
        ensures
            r == self@.len(),
    {
        self.length
    }

    /// Returns the fixed capacity, which is always `N`.
    pub fn capacity(&self) -> (r: usize)
        ensures
            r == N,
    {
        N
    }

    /// Returns the number of elements that can still be added.
    pub fn remaining_capacity(&self) -> (r: usize)
        requires
            self.wf(),
        ensures
            r == N - self@.len(),
    {
        N - self.length
    }

    /// Returns true if no element is held.
    pub fn is_empty(&self) -> (r: bool)
        requires
            self.wf(),
        ensures
            r == (self@.len() == 0),
    {
        self.length == 0
    }

    /// Returns true if at least one element is held.
    pub fn is_not_empty(&self) -> (r: bool)
        requires
            self.wf(),
        ensures
            r == (self@.len() > 0),
    {
        self.length > 0
    }

    /// Returns true if the length equals the capacity.
    pub fn is_full(&self) -> (r: bool)
        requires
            self.wf(),
        ensures
            r == (self@.len() == N),
    {
        self.length == N
    }

    /// Returns true if the length is below the capacity.
    pub fn is_not_full(&self) -> (r: bool)
        requires
            self.wf(),
        ensures
            r == (self@.len() < N),
    {
        self.length < N
    }

    /// Returns a reference to the element at `index`.
    pub fn index(&self, index: usize) -> (r: &T)
        requires
            self.wf(),
            index < self@.len(),
        ensures
            *r == self@[index as int],
    {
        self.data[index].as_ref().unwrap()
    }

    /// Returns a mutable reference to the element at `index`.
    pub fn index_mut(&mut self, index: usize) -> (r: &mut T)
        requires
            old(self).wf(),
            index < old(self)@.len(),
        ensures
            *r == old(self)@[index as int],
            final(self).wf(),
            final(self)@ == old(self)@.update(index as int, *final(r)),
    {
        let r = self.data[index].as_mut().unwrap();
        r
    }

    /// Appends `value` at the end. The container must not be full.
    pub fn push(&mut self, value: T)
        requires
            old(self).wf(),
            old(self)@.len() < N,
        ensures
            final(self).wf(),
            final(self)@ == old(self)@.push(value),
    {
        self.data[self.length] = Some(value);
        self.length = self.length + 1;
        assert(self@ =~= old(self)@.push(value));
    }

    /// Appends `value` at the end if there is room, and otherwise hands it
    /// back inside an error, leaving the container unchanged.
    pub fn try_push(&mut self, value: T) -> (r: Result<(), PushCapacityError<T>>)
        requires
            old(self).wf(),
        ensures
            final(self).wf(),
            old(self)@.len() < N ==> r is Ok && final(self)@ == old(self)@.push(value),
            old(self)@.len() == N ==> r == Err::<(), PushCapacityError<T>>(
                PushCapacityError { value },
            ) && final(self)@ == old(self)@,
    {
        if self.length < N {
            self.push(value);
            Ok(())
        } else {
            Err(PushCapacityError { value })
        }
    }

    /// Removes the last element and returns it, or returns `None` when empty.
    pub fn pop(&mut self) -> (r: Option<T>)
        requires
            old(self).wf(),
        ensures
            final(self).wf(),
            old(self)@.len() == 0 ==> r is None && final(self)@ == old(self)@,
            old(self)@.len() > 0 ==> r == Some(old(self)@.last()) && final(self)@ == old(self)@.drop_last(),
    {
        if self.length == 0 {
            None
        } else {
            self.length = self.length - 1;
            let r = self.data[self.length].take();
            assert(self@ =~= old(self)@.drop_last());
            r
        }
    }

    /// Removes and returns the element at `index`, shifting every later
    /// element one place to the left.
    pub fn remove(&mut self, index: usize) -> (r: T)
        requires
            old(self).wf(),
            index < old(self)@.len(),
        ensures
            final(self).wf(),
            r == old(self)@[index as int],
            final(self)@ == old(self)@.remove(index as int),
    {
        let r = self.data[index].take().unwrap();
        let mut i: usize = index;
        while i + 1 < self.length
            invariant
                self.length == old(self).length,
                old(self).wf(),
                index <= i < self.length,
                self.data@[i as int] is None,
                forall|j: int| 0 <= j < index ==> self.data@[j] == old(self).data@[j],
                forall|j: int| index <= j < i ==> self.data@[j] == old(self).data@[j + 1],
                forall|j: int| i < j < N ==> self.data@[j] == old(self).data@[j],
            decreases self.length - i,
        {
            let moved = self.data[i + 1].take();
            self.data[i] = moved;
            i = i + 1;
        }
        self.length = self.length - 1;
        assert(self@ =~= old(self)@.remove(index as int));
        r
    }

    /// Inserts `value` at `index`, shifting every later element one place to
    /// the right. The container must not be full and `index` must not exceed
    /// the length.
    pub fn insert(&mut self, index: usize, value: T)
        requires
            old(self).wf(),
            old(self)@.len() < N,
            index <= old(self)@.len(),
        ensures
            final(self).wf(),
            final(self)@ == old(self)@.insert(index as int, value),
    {
        let mut i: usize = self.length;
        while i > index
            invariant
                self.length == old(self).length,
                old(self).wf(),
                self.length < N,
                index <= i <= self.length,
                self.data@[i as int] is None,
                forall|j: int| 0 <= j < i ==> self.data@[j] == old(self).data@[j],
                forall|j: int| i < j <= self.length ==> self.data@[j] == old(self).data@[j - 1],
                forall|j: int| self.length < j < N ==> self.data@[j] == old(self).data@[j],
            decreases i,
        {
            let moved = self.data[i - 1].take();
            self.data[i] = moved;
            i = i - 1;
        }
        self.data[index] = Some(value);
        self.length = self.length + 1;
        assert(self@ =~= old(self)@.insert(index as int, value));
    }

    /// Inserts `value` at `index` if there is room, and otherwise hands it
    /// back inside an error, leaving the container unchanged. `index` must
    /// not exceed the length.
    pub fn try_insert(&mut self, index: usize, value: T) -> (r: Result<(), PushCapacityError<T>>)
        requires
            old(self).wf(),
            index <= old(self)@.len(),
        ensures
            final(self).wf(),
            old(self)@.len() < N ==> r is Ok && final(self)@ == old(self)@.insert(
                index as int,
                value,
            ),
            old(self)@.len() == N ==> r == Err::<(), PushCapacityError<T>>(
                PushCapacityError { value },
            ) && final(self)@ == old(self)@,
    {
        if self.length < N {
            self.insert(index, value);
            Ok(())
        } else {
            Err(PushCapacityError { value })
        }
    }

    /// Shortens the container to `new_length` elements, dropping the rest.
    /// Has no effect when `new_length` is not below the current length.
    pub fn truncate(&mut self, new_length: usize)
        requires
            old(self).wf(),
        ensures
            final(self).wf(),
            final(self)@ == truncated(old(self)@, new_length as int),
    {
        while new_length < self.length
            invariant
                self.wf(),
                self@ == old(self)@.take(self.length as int),
                self.length <= old(self).length,
                self.length == old(self).length || new_length <= self.length,
            decreases self.length,
        {
            self.length = self.length - 1;
            let _dropped = self.data[self.length].take();
            assert(self@ =~= old(self)@.take(self.length as int));
        }
        assert(old(self)@.take(old(self).length as int) =~= old(self)@);
    }

    /// Removes every element.
    pub fn clear(&mut self)
        requires
            old(self).wf(),
        ensures
            final(self).wf(),
            final(self)@ == Seq::<T>::empty(),
    {
        self.truncate(0);
        assert(self@ =~= Seq::<T>::empty());
    }
    /// Removes the elements in `range` and returns them, in order, in a new
    /// StaticVec. Later elements move down to close the gap. The range must
    /// satisfy `start <= end <= len`.
    pub fn drain(&mut self, range: core::ops::Range<usize>) -> (r: Self)
        requires
            old(self).wf(),
            range.start <= range.end <= old(self)@.len(),
        ensures
            final(self).wf(),
            r.wf(),
            r@ == drained(old(self)@, range.start as int, range.end as int),
            final(self)@ == without_range(old(self)@, range.start as int, range.end as int),
    {
        let start = range.start;
        let end = range.end;
        let mut res: Self = Self::new();
        assert(res@.len() == 0);
        let mut k: usize = 0;
        while start + k < end
            invariant
                old(self).wf(),
                start <= end <= old(self).length,
                self.length == old(self).length,
                res.wf(),
                res.length == k,
                start + k <= end,
                res@ == old(self)@.subrange(start as int, start + k),
                forall|j: int| start <= j < start + k ==> self.data@[j] is None,
                forall|j: int| 0 <= j < start ==> self.data@[j] == old(self).data@[j],
                forall|j: int| start + k <= j < N ==> self.data@[j] == old(self).data@[j],
            decreases end - (start + k),
        {
            let moved = self.data[start + k].take();
            res.data[k] = moved;
            res.length = k + 1;
            k = k + 1;
            assert(res@ =~= old(self)@.subrange(start as int, start + k));
        }
        let mut j: usize = end;
        while j < self.length
            invariant
                old(self).wf(),
                start <= end <= j <= old(self).length,
                self.length == old(self).length,
                forall|i: int| 0 <= i < start ==> self.data@[i] == old(self).data@[i],
                forall|i: int|
                    start <= i < start + (j - end) ==> self.data@[i] == old(self).data@[i + (end
                        - start)],
                forall|i: int| start + (j - end) <= i < j ==> self.data@[i] is None,
                forall|i: int| j <= i < N ==> self.data@[i] == old(self).data@[i],
            decreases self.length - j,
        {
            let moved = self.data[j].take();
            self.data[start + (j - end)] = moved;
            j = j + 1;
        }
        self.length = self.length - (end - start);
        assert(self@ =~= old(self)@.subrange(0, start as int) + old(self)@.subrange(
            end as int,
            old(self)@.len() as int,
        ));
        res
    }

    /// Reverses the order of the elements in place.
    pub fn reverse(&mut self)
        requires
            old(self).wf(),
        ensures
            final(self).wf(),
            final(self)@ == old(self)@.reverse(),
    {
        let len = self.length;
        let mut i: usize = 0;
        while i < len / 2
            invariant
                old(self).wf(),
                len == old(self).length,
                self.length == len,
                i <= len / 2,
                forall|k: int| 0 <= k < i ==> self.data@[k] == old(self).data@[len - 1 - k],
                forall|k: int|
                    len - i <= k < len ==> self.data@[k] == old(self).data@[len - 1 - k],
                forall|k: int| i <= k < len - i ==> self.data@[k] == old(self).data@[k],
                forall|k: int| len <= k < N ==> self.data@[k] == old(self).data@[k],
            decreases len / 2 - i,
        {
            let front = self.data[i].take();
            let back = self.data[len - 1 - i].take();
            self.data[i] = back;
            self.data[len - 1 - i] = front;
            i = i + 1;
        }
        assert(self@ =~= old(self)@.reverse());
    }

    /// Removes the first element equal to `item` and returns it, or returns
    /// `None` and leaves the container unchanged when there is none. When the
    /// element type's `==` follows its specification, "equal" is `eq_spec`.
    pub fn remove_item(&mut self, item: &T) -> (r: Option<T>)
        where
            T: PartialEq,
        requires
            old(self).wf(),
        ensures
            final(self).wf(),
            r is None ==> final(self)@ == old(self)@ && (T::obeys_eq_spec() ==> forall|i: int|
                0 <= i < old(self)@.len() ==> !(#[trigger] old(self)@[i]).eq_spec(item)),
            r is Some ==> exists|i: int|
                {
                    &&& 0 <= i < old(self)@.len()
                    &&& r == Some(old(self)@[i])
                    &&& final(self)@ == old(self)@.remove(i)
                    &&& T::obeys_eq_spec() ==> old(self)@[i].eq_spec(item) && forall|j: int|
                        0 <= j < i ==> !(#[trigger] old(self)@[j]).eq_spec(item)
                },
    {
        let mut i: usize = 0;
        while i < self.length
            invariant
                self.wf(),
                self@ == old(self)@,
                i <= self.length,
                T::obeys_eq_spec() ==> forall|j: int|
                    0 <= j < i ==> !(#[trigger] old(self)@[j]).eq_spec(item),
            decreases self.length - i,
        {
            let candidate: &T = self.index(i);
            let found = candidate.eq(item);
            if found {
                let ghost before = self@;
                let r = self.remove(i);
                assert(before == old(self)@);
                assert(T::obeys_eq_spec() ==> old(self)@[i as int].eq_spec(item));
                return Some(r);
            }
            assert(T::obeys_eq_spec() ==> !old(self)@[i as int].eq_spec(item));
            i = i + 1;
        }
        None
    }
}

impl<T, const N: usize> StaticVec<T, N> {
    /// Moves the leading elements of `other` to the end of this container,
    /// as many as fit in the remaining capacity. Those that do not fit stay
    /// in `other`, in order.
    pub fn append<const M: usize>(&mut self, other: &mut StaticVec<T, M>)
        requires
            old(self).wf(),
            old(other).wf(),
        ensures
            final(self).wf(),
            final(other).wf(),
            final(self)@ == appended_within(old(self)@, old(other)@, N as int),
            final(other)@ == old(other)@.skip(final(self)@.len() - old(self)@.len()),
    {
        let moved: usize = if other.len() < N - self.length {
            other.len()
        } else {
            N - self.length
        };
        let front = other.drain(0..moved);
        assert(front@ =~= old(other)@.take(moved as int));
        assert(other@ =~= old(other)@.skip(moved as int));
        let mut rest = front.into_iter();
        while !rest.is_empty()
            invariant
                self.wf(),
                rest.wf(),
                self@ + rest@ == old(self)@ + old(other)@.take(moved as int),
                self@.len() + rest@.len() <= N,
            decreases rest@.len(),
        {
            let ghost before = rest@;
            match rest.next() {
                Some(x) => {
                    self.push(x);
                    assert(self@ + rest@ =~= old(self)@ + old(other)@.take(moved as int)) by {
                        assert(before =~= seq![x] + rest@);
                    }
                },
                None => {},
            }
        }
        assert(self@ =~= old(self)@ + old(other)@.take(moved as int));
    }

    /// Removes the elements in `range`, puts the elements of `replace_with`
    /// in their place, and returns the removed elements in a new StaticVec.
    /// The range must satisfy `start <= end <= len`, and the result must fit
    /// in the capacity.
    pub fn splice<const M: usize>(
        &mut self,
        range: core::ops::Range<usize>,
        replace_with: StaticVec<T, M>,
    ) -> (r: Self)
        requires
            old(self).wf(),
            replace_with.wf(),
            range.start <= range.end <= old(self)@.len(),
            old(self)@.len() - (range.end - range.start) + replace_with@.len() <= N,
        ensures
            final(self).wf(),
            r.wf(),
            r@ == drained(old(self)@, range.start as int, range.end as int),
            final(self)@ == old(self)@.subrange(0, range.start as int) + replace_with@
                + old(self)@.subrange(range.end as int, old(self)@.len() as int),
    {
        let start = range.start;
        let removed = self.drain(range);
        let ghost head = old(self)@.subrange(0, start as int);
        let ghost tail = old(self)@.subrange(removed@.len() + start, old(self)@.len() as int);
        let ghost replacement = replace_with@;
        let mut rest = replace_with.into_iter();
        let mut at: usize = start;
        assert(head + replacement.take(0) + tail =~= self@);
        while !rest.is_empty()
            invariant
                self.wf(),
                rest.wf(),
                start <= at,
                at - start + rest@.len() == replacement.len(),
                rest@ == replacement.skip(at - start),
                self@ == head + replacement.take(at - start) + tail,
                head.len() == start,
                self@.len() + rest@.len() <= N,
            decreases rest@.len(),
        {
            let ghost before = rest@;
            match rest.next() {
                Some(x) => {
                    self.insert(at, x);
                    at = at + 1;
                    assert(replacement.take(at - start) =~= replacement.take(at - start - 1).push(
                        x,
                    ));
                    assert(self@ =~= head + replacement.take(at - start) + tail);
                    assert(rest@ =~= replacement.skip(at - start));
                },
                None => {},
            }
        }
        assert(replacement.take(at - start) =~= replacement);
        removed
    }
}

impl<T, const N: usize> StaticVec<T, N> {
    /// Returns a new StaticVec holding the first elements of `values`, as
    /// many as fit; any further elements are dropped.
    pub fn from_vec(values: Vec<T>) -> (r: Self)
        ensures
            r.wf(),
            r@ == appended_within(Seq::<T>::empty(), values@, N as int),
    {
        let ghost given = values@;
        let mut values = values;
        while values.len() > N
            invariant
                values@.len() <= given.len(),
                values@.len() >= min(given.len() as int, N as int),
                values@ == given.take(values@.len() as int),
            decreases values.len(),
        {
            values.pop();
        }
        let ghost kept = values@;
        assert(kept =~= appended_within(Seq::<T>::empty(), given, N as int));
        let mut r = Self::new();
        while values.len() > 0
            invariant
                r.wf(),
                kept.len() <= N,
                values@.len() <= kept.len(),
                values@ == kept.take(values@.len() as int),
                r@.len() == kept.len() - values@.len(),
                r@ == kept.skip(values@.len() as int).reverse(),
            decreases values.len(),
        {
            let ghost before = r@;
            let x = values.pop().unwrap();
            assert(x == kept[values@.len() as int]);
            r.push(x);
            assert(r@ =~= kept.skip(values@.len() as int).reverse()) by {
                assert(r@ == before.push(x));
            }
        }
        r.reverse();
        assert(r@ =~= kept);
        assert(r@ == appended_within(Seq::<T>::empty(), given, N as int));
        r
    }
}

impl<T: Copy, const N: usize> StaticVec<T, N> {
    /// Returns a new StaticVec holding the first elements of `values`, as
    /// many as fit; any further elements are ignored.
    pub fn new_from_slice(values: &[T]) -> (r: Self)
        ensures
            r.wf(),
            r@ == appended_within(Seq::<T>::empty(), values@, N as int),
    {
        let mut r = Self::new();
        r.extend_from_slice(values);
        assert(r@ =~= appended_within(Seq::<T>::empty(), values@, N as int));
        r
    }

    /// Appends copies of the leading elements of `other`, as many as fit in
    /// the remaining capacity; any further elements are ignored.
    pub fn extend_from_slice(&mut self, other: &[T])
        requires
            old(self).wf(),
        ensures
            final(self).wf(),
            final(self)@ == appended_within(old(self)@, other@, N as int),
    {
        let added: usize = if other.len() < N - self.length {
            other.len()
        } else {
            N - self.length
        };
        let mut i: usize = 0;
        while i < added
            invariant
                self.wf(),
                added <= other@.len(),
                added == min(other@.len() as int, N - old(self)@.len()),
                i <= added,
                self@ == old(self)@ + other@.take(i as int),
            decreases added - i,
        {
            self.push(other[i]);
            i = i + 1;
            assert(self@ =~= old(self)@ + other@.take(i as int));
        }
    }

    /// Appends copies of all elements of `other`, which must fit.
    fn extend_from_slice_of(&mut self, other: &Self)
        requires
            old(self).wf(),
            other.wf(),
            old(self)@.len() + other@.len() <= N,
        ensures
            final(self).wf(),
            final(self)@ == old(self)@ + other@,
    {
        let mut i: usize = 0;
        while i < other.len()
            invariant
                self.wf(),
                other.wf(),
                old(self)@.len() + other@.len() <= N,
                i <= other@.len(),
                self@ == old(self)@ + other@.take(i as int),
            decreases other@.len() - i,
        {
            self.push(*other.index(i));
            i = i + 1;
            assert(self@ =~= old(self)@ + other@.take(i as int));
        }
        assert(other@.take(i as int) =~= other@);
    }

    /// Appends copies of all elements of `other` if they all fit, and
    /// otherwise returns an error and leaves the container unchanged.
    pub fn try_extend_from_slice(&mut self, other: &[T]) -> (r: Result<(), CapacityError<N>>)
        requires
            old(self).wf(),
        ensures
            final(self).wf(),
            old(self)@.len() + other@.len() <= N ==> r is Ok && final(self)@ == old(self)@
                + other@,
            old(self)@.len() + other@.len() > N ==> r is Err && final(self)@ == old(self)@,
    {
        if other.len() > N - self.length {
            return Err(CapacityError {});
        }
        self.extend_from_slice(other);
        assert(other@.take(other@.len() as int) =~= other@);
        Ok(())
    }

    /// Returns a new StaticVec with the same elements in reverse order,
    /// leaving this one unchanged.
    pub fn reversed(&self) -> (r: Self)
        requires
            self.wf(),
        ensures
            r.wf(),
            r@ == self@.reverse(),
    {
        let mut r = Self::new();
        let mut i: usize = self.length;
        while i > 0
            invariant
                self.wf(),
                r.wf(),
                i <= self.length,
                r@ == self@.subrange(i as int, self@.len() as int).reverse(),
            decreases i,
        {
            i = i - 1;
            r.push(*self.index(i));
            assert(r@ =~= self@.subrange(i as int, self@.len() as int).reverse());
        }
        assert(self@.subrange(0, self@.len() as int) =~= self@);
        r
    }
}

impl<T: Copy + Ord, const N: usize> StaticVec<T, N> {
    /// Returns a new StaticVec with the same elements, sorted stably,
    /// leaving this one unchanged.
    pub fn sorted(&self) -> (r: Self)
        requires
            self.wf(),
        ensures
            r.wf(),
            r@.to_multiset() == self@.to_multiset(),
            obeys_cmp::<T>() ==> is_sorted(r@),
            obeys_cmp::<T>() ==> is_stable_rearrangement(self@, r@),
    {
        let mut r = Self::new();
        r.extend_from_slice_of(self);
        r.sort();
        r
    }

    /// Returns a new StaticVec with the same elements, sorted with no
    /// promise on the order of equal elements, leaving this one unchanged.
    pub fn sorted_unstable(&self) -> (r: Self)
        requires
            self.wf(),
        ensures
            r.wf(),
            r@.to_multiset() == self@.to_multiset(),
            obeys_cmp::<T>() ==> is_sorted(r@),
    {
        let mut r = Self::new();
        r.extend_from_slice_of(self);
        r.sort_unstable();
        r
    }
}

impl<T, const N: usize> StaticVec<T, N> {
    /// Returns a full StaticVec whose every element is a value returned by
    /// `initializer`, called once per slot in index order.
    pub fn filled_with<F: Fn() -> T>(initializer: F) -> (r: Self)
        requires
            initializer.requires(()),
        ensures
            r.wf(),
            r@.len() == N,
            forall|i: int| 0 <= i < N ==> initializer.ensures((), #[trigger] r@[i]),
    {
        let mut r = Self::new();
        let mut i: usize = 0;
        while i < N
            invariant
                initializer.requires(()),
                r.wf(),
                r@.len() == i,
                i <= N,
                forall|k: int| 0 <= k < i ==> initializer.ensures((), #[trigger] r@[k]),
            decreases N - i,
        {
            let value = initializer();
            r.push(value);
            i = i + 1;
        }
        r
    }
}

impl<T: Ord, const N: usize> StaticVec<T, N> {
    /// Exchanges the elements at `j - 1` and `j`.
    fn swap_with_previous(&mut self, j: usize)
        requires
            old(self).wf(),
            0 < j < old(self)@.len(),
        ensures
            final(self).wf(),
            final(self)@ == old(self)@.update(j - 1, old(self)@[j as int]).update(
                j as int,
                old(self)@[j - 1],
            ),
    {
        let front = self.data[j - 1].take();
        let back = self.data[j].take();
        self.data[j - 1] = back;
        self.data[j] = front;
        assert(self@ =~= old(self)@.update(j - 1, old(self)@[j as int]).update(
            j as int,
            old(self)@[j - 1],
        ));
    }

    /// Moves the element at `i` down past every greater element before it,
    /// so that a prefix of `i` ordered elements becomes one of `i + 1`.
    fn sink_into_sorted_prefix(
        &mut self,
        i: usize,
        Ghost(base): Ghost<Seq<T>>,
        Ghost(p0): Ghost<Seq<int>>,
    ) -> (p: Ghost<Seq<int>>)
        requires
            old(self).wf(),
            0 < i < old(self)@.len(),
            obeys_cmp::<T>() ==> is_sorted(old(self)@.take(i as int)),
            rearranges(base, old(self)@, p0),
            moves_within_prefix(p0, i as int),
            obeys_cmp::<T>() ==> keeps_equal_order(old(self)@, p0),
        ensures
            final(self).wf(),
            final(self)@.len() == old(self)@.len(),
            final(self)@.to_multiset() == old(self)@.to_multiset(),
            obeys_cmp::<T>() ==> is_sorted(final(self)@.take(i + 1)),
            rearranges(base, final(self)@, p@),
            moves_within_prefix(p@, i + 1),
            obeys_cmp::<T>() ==> keeps_equal_order(final(self)@, p@),
    {
        let ghost len = self@.len();
        proof {
            if obeys_cmp::<T>() {
                lemma_cmp_follows_spec::<T>();
                lemma_sorted_prefix(self@, i as int);
            }
        }
        let mut j: usize = i;
        let mut settled = false;
        let ghost mut p = p0;
        while j > 0 && !settled
            invariant
                self.wf(),
                self@.len() == len,
                0 <= j <= i < len,
                rearranges(base, self@, p),
                moves_within_prefix(p, i + 1),
                p[j as int] == p0[i as int],
                obeys_cmp::<T>() ==> keeps_equal_order(self@, p),
                obeys_cmp::<T>() ==> T::obeys_cmp_spec(),
                self@.to_multiset() == old(self)@.to_multiset(),
                obeys_cmp::<T>() ==> sorted_between(self@, 0, j as int),
                obeys_cmp::<T>() ==> sorted_between(self@, j as int, i + 1),
                obeys_cmp::<T>() && 0 < j < i ==> self@[j - 1].cmp_spec(&self@[j + 1])
                    != Ordering::Greater,
                obeys_cmp::<T>() && settled ==> 0 < j && self@[j - 1].cmp_spec(&self@[j as int])
                    != Ordering::Greater,
            decreases j, (if settled { 0int } else { 1int }),
        {
            let order = self.index(j - 1).cmp(self.index(j));
            match order {
                Ordering::Greater => {
                    let ghost before = self@;
                    let ghost q = p;
                    proof {
                        lemma_swap_to_multiset(before, j - 1, j as int);
                        if obeys_cmp::<T>() {
                            lemma_greater_flips(before[j - 1], before[j as int]);
                        }
                    }
                    self.swap_with_previous(j);
                    proof {
                        p = q.update(j - 1, q[j as int]).update(j as int, q[j - 1]);
                        lemma_swap_keeps_equal_order(before, self@, q, p, j as int);
                    }
                    j = j - 1;
                },
                _ => {
                    settled = true;
                },
            }
        }
        proof {
            if obeys_cmp::<T>() {
                lemma_sorted_prefix(self@, i + 1);
            }
        }
        Ghost(p)
    }

    /// Sorts the elements in place by insertion. The result is a
    /// rearrangement of the elements; when the element type's ordering is
    /// lawful, each element is not greater than the next and equal elements
    /// keep the order they had.
    pub fn sort(&mut self)
        requires
            old(self).wf(),
        ensures
            final(self).wf(),
            final(self)@.to_multiset() == old(self)@.to_multiset(),
            obeys_cmp::<T>() ==> is_sorted(final(self)@),
            obeys_cmp::<T>() ==> is_stable_rearrangement(old(self)@, final(self)@),
    {
        let len = self.length;
        let ghost p: Seq<int> = Seq::new(len as nat, |k: int| k);
        assert(rearranges(old(self)@, self@, p));
        if len < 2 {
            assert(obeys_cmp::<T>() ==> is_sorted(self@));
            assert(keeps_equal_order(self@, p));
            return;
        }
        let mut i: usize = 1;
        assert(self@.take(1).len() == 1);
        while i < len
            invariant
                self.wf(),
                self@.len() == len,
                1 <= i <= len,
                self@.to_multiset() == old(self)@.to_multiset(),
                obeys_cmp::<T>() ==> is_sorted(self@.take(i as int)),
                rearranges(old(self)@, self@, p),
                moves_within_prefix(p, i as int),
                obeys_cmp::<T>() ==> keeps_equal_order(self@, p),
            decreases len - i,
        {
            let Ghost(next) = self.sink_into_sorted_prefix(i, Ghost(old(self)@), Ghost(p));
            proof {
                p = next;
            }
            i = i + 1;
        }
        assert(self@.take(len as int) =~= self@);
    }

    /// Sorts the elements in place. Equal elements may end in any order.
    pub fn sort_unstable(&mut self)
        requires
            old(self).wf(),
        ensures
            final(self).wf(),
            final(self)@.to_multiset() == old(self)@.to_multiset(),
            obeys_cmp::<T>() ==> is_sorted(final(self)@),
    {
        self.sort();
    }
}

impl<T: PartialEq, const N: usize, const M: usize> PartialEq<StaticVec<T, M>> for StaticVec<T, N> {
    /// Compares the elements, whatever the two capacities.
    fn eq(&self, other: &StaticVec<T, M>) -> (r: bool) {
        if self.length != other.length || self.length > N || other.length > M {
            return false;
        }
        let mut i: usize = 0;
        while i < self.length
            invariant
                self.length == other.length,
                self.length <= N,
                other.length <= M,
                i <= self.length,
                T::obeys_eq_spec() ==> forall|k: int|
                    0 <= k < i ==> #[trigger] PartialEqSpec::eq_spec(&self.data@[k], &other.data@[k]),
            decreases self.length - i,
        {
            let same = match (&self.data[i], &other.data[i]) {
                (Some(a), Some(b)) => a.eq(b),
                (None, None) => true,
                _ => false,
            };
            if !same {
                assert(T::obeys_eq_spec() ==> !PartialEqSpec::eq_spec(
                    &self.slots()[i as int],
                    &other.slots()[i as int],
                ));
                return false;
            }
            i = i + 1;
        }
        true
    }
}

impl<T: PartialEq, const N: usize, const M: usize> vstd::std_specs::cmp::PartialEqSpecImpl<StaticVec<T, M>> for StaticVec<T, N> {
    open spec fn obeys_eq_spec() -> bool {
        T::obeys_eq_spec()
    }

    /// Equal lengths within both capacities, and slot by slot equal contents.
    open spec fn eq_spec(&self, other: &StaticVec<T, M>) -> bool {
        &&& self.spec_length() == other.spec_length()
        &&& self.spec_length() <= N
        &&& other.spec_length() <= M
        &&& forall|k: int|
            0 <= k < self.spec_length() ==> #[trigger] PartialEqSpec::eq_spec(&self.slots()[k], &other.slots()[k])
    }
}

} // verus!
