//! Iterators over a StaticVec: a borrowing one, a mutable cursor, an owning
//! one and a draining one.
use crate::{drained, without_range, StaticVec};
use vstd::math::min;
use vstd::prelude::*;

verus! {

/// Relies on `format!` with `{:?}`: renders both elements with their `Debug`
/// implementations into the two-line description of an iterator's ends.
#[verifier::external_body]
fn describe_ends<T: core::fmt::Debug>(first: &T, last: &T) -> String {
    format!(
        "Current value of element at `start`: {:?}\nCurrent value of element at `end`: {:?}",
        first,
        last,
    )
}

/// A borrowing iterator over the elements of a StaticVec, usable from both
/// ends.
pub struct StaticVecIterConst<'a, T, const N: usize> {
    vec: &'a StaticVec<T, N>,
    start: usize,
    end: usize,
}

impl<'a, T, const N: usize> StaticVecIterConst<'a, T, N> {
    /// The container being walked.
    pub closed spec fn source(&self) -> Seq<T> {
        self.vec@
    }

    /// Position of the next element from the front.
    pub closed spec fn front(&self) -> int {
        self.start as int
    }

    /// Position just past the next element from the back.
    pub closed spec fn back(&self) -> int {
        self.end as int
    }

    /// The walked container is well formed.
    pub closed spec fn source_wf(&self) -> bool {
        self.vec.wf()
    }

    /// The cursor positions stay within the container, front before back.
    pub open spec fn wf(&self) -> bool {
        &&& self.source_wf()
        &&& 0 <= self.front() <= self.back() <= self.source().len()
    }
}

impl<'a, T, const N: usize> View for StaticVecIterConst<'a, T, N> {
    type V = Seq<T>;

    /// The elements not yet yielded, in order.
    open spec fn view(&self) -> Seq<T> {
        self.source().subrange(self.front(), self.back())
    }
}

impl<T, const N: usize> StaticVec<T, N> {
    /// Returns an iterator over the elements, front to back.
    pub fn iter(&self) -> (r: StaticVecIterConst<'_, T, N>)
        requires
            self.wf(),
        ensures
            r.wf(),
            r.source() == self@,
            r@ == self@,
    {
        let r = StaticVecIterConst { vec: self, start: 0, end: self.len() };
        assert(r@ =~= self@);
        r
    }
}

impl<'a, T, const N: usize> StaticVecIterConst<'a, T, N> {
    /// Returns the number of elements not yet yielded.
    pub fn len(&self) -> (r: usize)
        requires
            self.wf(),
        ensures
            r == self@.len(),
    {
        self.end - self.start
    }

    /// Returns true when every element has been yielded.
    pub fn is_empty(&self) -> (r: bool)
        requires
            self.wf(),
        ensures
            r == (self@.len() == 0),
    {
        self.start == self.end
    }

    /// Returns the exact number of remaining elements as both bounds.
    pub fn size_hint(&self) -> (r: (usize, Option<usize>))
        requires
            self.wf(),
        ensures
            r.0 == self@.len(),
            r.1 == Some(self@.len() as usize),
    {
        let n = self.end - self.start;
        (n, Some(n))
    }

    /// Describes the elements at both ends of what remains, on two lines, or
    /// returns "Empty iterator!" when nothing remains.
    pub fn bounds_to_string(&self) -> (r: String)
        where
            T: core::fmt::Debug,
        requires
            self.wf(),
        ensures
            self@.len() == 0 ==> r@ == "Empty iterator!"@,
    {
        if self.start < self.end {
            describe_ends(self.vec.index(self.start), self.vec.index(self.end - 1))
        } else {
            "Empty iterator!".to_owned()
        }
    }

    /// Yields the next element from the front, or `None` once exhausted.
    pub fn next(&mut self) -> (r: Option<&'a T>)
        requires
            old(self).wf(),
        ensures
            final(self).wf(),
            final(self).source() == old(self).source(),
            old(self)@.len() == 0 ==> r is None && final(self)@ == old(self)@,
            old(self)@.len() > 0 ==> r is Some && *r.unwrap() == old(self)@[0] && final(self)@
                == old(self)@.drop_first(),
    {
        if self.start < self.end {
            let r = self.vec.index(self.start);
            self.start = self.start + 1;
            assert(self@ =~= old(self)@.drop_first());
            Some(r)
        } else {
            None
        }
    }

    /// Yields the next element from the back, or `None` once exhausted.
    pub fn next_back(&mut self) -> (r: Option<&'a T>)
        requires
            old(self).wf(),
        ensures
            final(self).wf(),
            final(self).source() == old(self).source(),
            old(self)@.len() == 0 ==> r is None && final(self)@ == old(self)@,
            old(self)@.len() > 0 ==> r is Some && *r.unwrap() == old(self)@.last() && final(self)@ == old(self)@.drop_last(),
    {
        if self.start < self.end {
            self.end = self.end - 1;
            let r = self.vec.index(self.end);
            assert(self@ =~= old(self)@.drop_last());
            Some(r)
        } else {
            None
        }
    }

    /// Skips `n` elements from the front and yields the one after them. When
    /// fewer than `n + 1` remain, the iterator is exhausted and `None` is
    /// returned.
    pub fn nth(&mut self, n: usize) -> (r: Option<&'a T>)
        requires
            old(self).wf(),
        ensures
            final(self).wf(),
            final(self).source() == old(self).source(),
            n < old(self)@.len() ==> r is Some && *r.unwrap() == old(self)@[n as int] && final(self)@ == old(self)@.skip(n + 1),
            n >= old(self)@.len() ==> r is None && final(self)@.len() == 0,
    {
        if n < self.end - self.start {
            self.start = self.start + n;
            self.next()
        } else {
            self.start = self.end;
            None
        }
    }

    /// Skips `n` elements from the back and yields the one before them. When
    /// fewer than `n + 1` remain, the iterator is exhausted and `None` is
    /// returned.
    pub fn nth_back(&mut self, n: usize) -> (r: Option<&'a T>)
        requires
            old(self).wf(),
        ensures
            final(self).wf(),
            final(self).source() == old(self).source(),
            n < old(self)@.len() ==> r is Some && *r.unwrap() == old(self)@[old(self)@.len() - 1
                - n] && final(self)@ == old(self)@.take(old(self)@.len() - 1 - n),
            n >= old(self)@.len() ==> r is None && final(self)@.len() == 0,
    {
        if n < self.end - self.start {
            self.end = self.end - n;
            self.next_back()
        } else {
            self.end = self.start;
            None
        }
    }
}

/// A cursor that hands out mutable access to the elements of a StaticVec,
/// one at a time, from either end. It walks positions `start..end` of `vec`.
pub struct StaticVecIterMut<'a, T, const N: usize> {
    pub vec: &'a mut StaticVec<T, N>,
    pub start: usize,
    pub end: usize,
}

impl<'a, T, const N: usize> StaticVecIterMut<'a, T, N> {
    /// The container is well formed and the positions stay within it, front
    /// before back.
    pub open spec fn wf(&self) -> bool {
        &&& self.vec.wf()
        &&& self.start <= self.end <= self.vec@.len()
    }
}

impl<'a, T, const N: usize> View for StaticVecIterMut<'a, T, N> {
    type V = Seq<T>;

    /// The elements not yet handed out, in order.
    open spec fn view(&self) -> Seq<T> {
        self.vec@.subrange(self.start as int, self.end as int)
    }
}

impl<T, const N: usize> StaticVec<T, N> {
    /// Returns a cursor giving mutable access to each element in turn.
    pub fn iter_mut(&mut self) -> (r: StaticVecIterMut<'_, T, N>)
        requires
            old(self).wf(),
        ensures
            r.wf(),
            r.start == 0,
            r.end == old(self)@.len(),
            *r.vec == *old(self),
            *final(self) == *final(r.vec),
    {
        let end = self.len();
        let r = StaticVecIterMut { vec: self, start: 0, end };
        r
    }
}

impl<'a, T, const N: usize> StaticVecIterMut<'a, T, N> {
    /// Returns the number of elements not yet handed out.
    pub fn len(&self) -> (r: usize)
        requires
            self.wf(),
        ensures
            r == self@.len(),
    {
        self.end - self.start
    }

    /// Returns true when every element has been handed out.
    pub fn is_empty(&self) -> (r: bool)
        requires
            self.wf(),
        ensures
            r == (self@.len() == 0),
    {
        self.start == self.end
    }

    /// Describes the elements at both ends of what remains, on two lines, or
    /// returns "Empty iterator!" when nothing remains.
    pub fn bounds_to_string(&self) -> (r: String)
        where
            T: core::fmt::Debug,
        requires
            self.wf(),
        ensures
            self@.len() == 0 ==> r@ == "Empty iterator!"@,
    {
        if self.start < self.end {
            describe_ends(self.vec.index(self.start), self.vec.index(self.end - 1))
        } else {
            "Empty iterator!".to_owned()
        }
    }

    /// Gives mutable access to the next element from the front, or returns
    /// `None` once exhausted.
    pub fn next(&mut self) -> (r: Option<&mut T>)
        requires
            old(self).wf(),
        ensures
            final(self).wf(),
            *final(final(self).vec) == *final(old(self).vec),
            old(self)@.len() == 0 ==> r is None && *final(self) == *old(self),
            old(self)@.len() > 0 ==> r is Some && *r.unwrap() == old(self)@[0] && final(self).start
                == old(self).start + 1 && final(self).end == old(self).end && final(self).vec@ == old(
                self).vec@.update(old(self).start as int, *final(r.unwrap())),
    {
        if self.start < self.end {
            let i = self.start;
            self.start = self.start + 1;
            let r = self.vec.index_mut(i);
            Some(r)
        } else {
            None
        }
    }

    /// Gives mutable access to the next element from the back, or returns
    /// `None` once exhausted.
    pub fn next_back(&mut self) -> (r: Option<&mut T>)
        requires
            old(self).wf(),
        ensures
            final(self).wf(),
            *final(final(self).vec) == *final(old(self).vec),
            old(self)@.len() == 0 ==> r is None && *final(self) == *old(self),
            old(self)@.len() > 0 ==> r is Some && *r.unwrap() == old(self)@.last() && final(self).start
                == old(self).start && final(self).end == old(self).end - 1 && final(self).vec@ == old(
                self).vec@.update(old(self).end - 1, *final(r.unwrap())),
    {
        if self.start < self.end {
            self.end = self.end - 1;
            let i = self.end;
            let r = self.vec.index_mut(i);
            Some(r)
        } else {
            None
        }
    }
}

/// An iterator that takes a StaticVec by value and yields its elements by
/// move, from either end. Elements not yet yielded are dropped with it.
pub struct StaticVecIntoIter<T, const N: usize> {
    data: [Option<T>; N],
    start: usize,
    end: usize,
}

impl<T, const N: usize> StaticVecIntoIter<T, N> {
    /// Slots `start..end` hold the elements not yet yielded; every other
    /// slot is vacant.
    pub closed spec fn wf(&self) -> bool {
        &&& self.start <= self.end <= N
        &&& forall|i: int| self.start <= i < self.end ==> (#[trigger] self.data@[i]) is Some
        &&& forall|i: int|
            0 <= i < N && !(self.start <= i < self.end) ==> (#[trigger] self.data@[i]) is None
    }
}

impl<T, const N: usize> View for StaticVecIntoIter<T, N> {
    type V = Seq<T>;

    /// The elements not yet yielded, in order.
    closed spec fn view(&self) -> Seq<T> {
        Seq::new((self.end - self.start) as nat, |i: int| self.data@[self.start + i]->Some_0)
    }
}

impl<T, const N: usize> StaticVec<T, N> {
    /// Consumes the container and returns its elements in a `Vec`, in order.
    pub fn into_vec(self) -> (r: Vec<T>)
        requires
            self.wf(),
        ensures
            r@ == self@,
    {
        let mut out: Vec<T> = Vec::new();
        let mut rest = self.into_iter();
        while !rest.is_empty()
            invariant
                rest.wf(),
                out@ + rest@ == self@,
            decreases rest@.len(),
        {
            let ghost before = rest@;
            match rest.next() {
                Some(x) => {
                    out.push(x);
                    assert(out@ + rest@ =~= self@) by {
                        assert(before =~= seq![x] + rest@);
                    }
                },
                None => {},
            }
        }
        assert(out@ =~= self@);
        out
    }

    /// Consumes the container and returns an iterator over its elements.
    pub fn into_iter(self) -> (r: StaticVecIntoIter<T, N>)
        requires
            self.wf(),
        ensures
            r.wf(),
            r@ == self@,
    {
        let r = StaticVecIntoIter { data: self.data, start: 0, end: self.length };
        assert(r@ =~= self@);
        r
    }
}

impl<T, const N: usize> StaticVecIntoIter<T, N> {
    /// Returns the number of elements not yet yielded.
    pub fn len(&self) -> (r: usize)
        requires
            self.wf(),
        ensures
            r == self@.len(),
    {
        self.end - self.start
    }

    /// Returns true when every element has been yielded.
    pub fn is_empty(&self) -> (r: bool)
        requires
            self.wf(),
        ensures
            r == (self@.len() == 0),
    {
        self.start == self.end
    }

    /// Returns the exact number of remaining elements as both bounds.
    pub fn size_hint(&self) -> (r: (usize, Option<usize>))
        requires
            self.wf(),
        ensures
            r.0 == self@.len(),
            r.1 == Some(self@.len() as usize),
    {
        let n = self.end - self.start;
        (n, Some(n))
    }

    /// Describes the elements at both ends of what remains, on two lines, or
    /// returns "Empty iterator!" when nothing remains.
    pub fn bounds_to_string(&self) -> (r: String)
        where
            T: core::fmt::Debug,
        requires
            self.wf(),
        ensures
            self@.len() == 0 ==> r@ == "Empty iterator!"@,
    {
        if self.start < self.end {
            describe_ends(
                self.data[self.start].as_ref().unwrap(),
                self.data[self.end - 1].as_ref().unwrap(),
            )
        } else {
            "Empty iterator!".to_owned()
        }
    }

    /// Moves out the next element from the front, or returns `None` once
    /// exhausted.
    pub fn next(&mut self) -> (r: Option<T>)
        requires
            old(self).wf(),
        ensures
            final(self).wf(),
            old(self)@.len() == 0 ==> r is None && final(self)@ == old(self)@,
            old(self)@.len() > 0 ==> r == Some(old(self)@[0]) && final(self)@ == old(
                self)@.drop_first(),
    {
        if self.start < self.end {
            let r = self.data[self.start].take();
            self.start = self.start + 1;
            assert(self@ =~= old(self)@.drop_first());
            r
        } else {
            None
        }
    }

    /// Moves out the next element from the back, or returns `None` once
    /// exhausted.
    pub fn next_back(&mut self) -> (r: Option<T>)
        requires
            old(self).wf(),
        ensures
            final(self).wf(),
            old(self)@.len() == 0 ==> r is None && final(self)@ == old(self)@,
            old(self)@.len() > 0 ==> r == Some(old(self)@.last()) && final(self)@ == old(
                self)@.drop_last(),
    {
        if self.start < self.end {
            self.end = self.end - 1;
            let r = self.data[self.end].take();
            assert(self@ =~= old(self)@.drop_last());
            r
        } else {
            None
        }
    }

    /// Drops up to `n` elements from the front.
    fn skip_front(&mut self, n: usize)
        requires
            old(self).wf(),
        ensures
            final(self).wf(),
            final(self)@ == old(self)@.skip(min(n as int, old(self)@.len() as int)),
    {
        let mut k: usize = 0;
        while k < n && self.start < self.end
            invariant
                self.wf(),
                k <= n,
                k <= old(self)@.len(),
                self@ == old(self)@.skip(k as int),
                self.start < self.end || k == old(self)@.len(),
                self.end == old(self).end,
                self.start == old(self).start + k,
                forall|i: int| self.start <= i < self.end ==> self.data@[i] == old(self).data@[i],
            decreases n - k,
        {
            let _dropped = self.data[self.start].take();
            self.start = self.start + 1;
            k = k + 1;
            assert(self@ =~= old(self)@.skip(k as int));
        }
    }

    /// Drops up to `n` elements from the back.
    fn skip_back(&mut self, n: usize)
        requires
            old(self).wf(),
        ensures
            final(self).wf(),
            final(self)@ == old(self)@.take(old(self)@.len() - min(n as int, old(self)@.len() as int)),
    {
        let mut k: usize = 0;
        while k < n && self.start < self.end
            invariant
                self.wf(),
                k <= n,
                k <= old(self)@.len(),
                self@ == old(self)@.take(old(self)@.len() - k),
                self.start < self.end || k == old(self)@.len(),
                self.start == old(self).start,
                self.end == old(self).end - k,
                forall|i: int| self.start <= i < self.end ==> self.data@[i] == old(self).data@[i],
            decreases n - k,
        {
            self.end = self.end - 1;
            let _dropped = self.data[self.end].take();
            k = k + 1;
            assert(self@ =~= old(self)@.take(old(self)@.len() - k));
        }
    }

    /// Drops `n` elements from the front and moves out the one after them.
    /// When fewer than `n + 1` remain, all are dropped and `None` is
    /// returned.
    pub fn nth(&mut self, n: usize) -> (r: Option<T>)
        requires
            old(self).wf(),
        ensures
            final(self).wf(),
            n < old(self)@.len() ==> r == Some(old(self)@[n as int]) && final(self)@ == old(
                self)@.skip(n + 1),
            n >= old(self)@.len() ==> r is None && final(self)@.len() == 0,
    {
        self.skip_front(n);
        let r = self.next();
        assert(n < old(self)@.len() ==> old(self)@.skip(n as int).drop_first() =~= old(self)@.skip(
            n + 1,
        ));
        r
    }

    /// Drops `n` elements from the back and moves out the one before them.
    /// When fewer than `n + 1` remain, all are dropped and `None` is
    /// returned.
    pub fn nth_back(&mut self, n: usize) -> (r: Option<T>)
        requires
            old(self).wf(),
        ensures
            final(self).wf(),
            n < old(self)@.len() ==> r == Some(old(self)@[old(self)@.len() - 1 - n]) && final(
                self)@ == old(self)@.take(old(self)@.len() - 1 - n),
            n >= old(self)@.len() ==> r is None && final(self)@.len() == 0,
    {
        self.skip_back(n);
        let r = self.next_back();
        assert(n < old(self)@.len() ==> old(self)@.take(old(self)@.len() - n).drop_last()
            =~= old(self)@.take(old(self)@.len() - 1 - n));
        r
    }
}

/// An iterator over elements removed from a StaticVec by `drain_iter`. The
/// container is already closed up when it is created, so dropping it early,
/// with or without having yielded anything, leaves the container consistent;
/// the elements not yet yielded are dropped with it.
pub struct StaticVecDrain<T, const N: usize> {
    iter: StaticVecIntoIter<T, N>,
}

impl<T, const N: usize> StaticVecDrain<T, N> {
    /// The removed elements not yet yielded are held consistently.
    pub closed spec fn wf(&self) -> bool {
        self.iter.wf()
    }
}

impl<T, const N: usize> View for StaticVecDrain<T, N> {
    type V = Seq<T>;

    /// The removed elements not yet yielded, in order.
    closed spec fn view(&self) -> Seq<T> {
        self.iter@
    }
}

impl<T, const N: usize> StaticVec<T, N> {
    /// Removes the elements in `range` and returns an iterator that yields
    /// them by move. Later elements move down to close the gap right away.
    /// The range must satisfy `start <= end <= len`.
    pub fn drain_iter(&mut self, range: core::ops::Range<usize>) -> (r: StaticVecDrain<T, N>)
        requires
            old(self).wf(),
            range.start <= range.end <= old(self)@.len(),
        ensures
            final(self).wf(),
            r.wf(),
            r@ == drained(old(self)@, range.start as int, range.end as int),
            final(self)@ == without_range(old(self)@, range.start as int, range.end as int),
    {
        let removed = self.drain(range);
        StaticVecDrain { iter: removed.into_iter() }
    }
}

impl<T, const N: usize> StaticVecDrain<T, N> {
    /// Returns the number of elements not yet yielded.
    pub fn len(&self) -> (r: usize)
        requires
            self.wf(),
        ensures
            r == self@.len(),
    {
        self.iter.len()
    }

    /// Returns true when every element has been yielded.
    pub fn is_empty(&self) -> (r: bool)
        requires
            self.wf(),
        ensures
            r == (self@.len() == 0),
    {
        self.iter.is_empty()
    }

    /// Returns the exact number of remaining elements as both bounds.
    pub fn size_hint(&self) -> (r: (usize, Option<usize>))
        requires
            self.wf(),
        ensures
            r.0 == self@.len(),
            r.1 == Some(self@.len() as usize),
    {
        self.iter.size_hint()
    }

    /// Moves out the next removed element from the front, or returns `None`
    /// once exhausted.
    pub fn next(&mut self) -> (r: Option<T>)
        requires
            old(self).wf(),
        ensures
            final(self).wf(),
            old(self)@.len() == 0 ==> r is None && final(self)@ == old(self)@,
            old(self)@.len() > 0 ==> r == Some(old(self)@[0]) && final(self)@ == old(
                self)@.drop_first(),
    {
        self.iter.next()
    }

    /// Moves out the next removed element from the back, or returns `None`
    /// once exhausted.
    pub fn next_back(&mut self) -> (r: Option<T>)
        requires
            old(self).wf(),
        ensures
            final(self).wf(),
            old(self)@.len() == 0 ==> r is None && final(self)@ == old(self)@,
            old(self)@.len() > 0 ==> r == Some(old(self)@.last()) && final(self)@ == old(
                self)@.drop_last(),
    {
        self.iter.next_back()
    }
}

} // verus!
