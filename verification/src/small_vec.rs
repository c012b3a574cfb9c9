//! A sequence that lives in an [`ArrayVec`] until it outgrows it, and in a
//! growable vector from then on.
use crate::array::Array;
use crate::array_vec::{ArrayVec, ArrayVecIntoIter};
use crate::vector::{reverse, Vector};
use core::ops::Deref;
use vstd::pervasive::unreached;
use vstd::prelude::*;
use vstd::std_specs::convert::FromSpecImpl;

verus! {

/// A growable vector that can take over the elements of a container of type
/// `T`.
pub trait Spilled<T: Vector>: Vector<Item = T::Item> {
    /// Whatever fits into a `T` fits into the vector that takes it over.
    proof fn lemma_room()
        ensures
            T::spec_bound() <= Self::spec_bound(),
    ;

    /// Moves the elements of `v` to a new vector, keeping their order.
    fn spill(v: T) -> (s: Self)
        requires
            v.wf(),
        ensures
            s.wf(),
            s.seq() == v.seq(),
    ;
}

impl<T: Array> Spilled<ArrayVec<T>> for Vec<T::Item> {
    proof fn lemma_room() {
        T::lemma_index();
    }

    fn spill(v: ArrayVec<T>) -> (s: Self) {
        v.into_vec()
    }
}

/// Where the elements of a [`SmallVec`] live.
pub enum Storage<A, B> {
    /// In the container's own bounded storage.
    Inline(A),
    /// In a vector that was allocated apart from the container.
    Spilled(B),
}

/// A sequence that keeps up to `T::spec_len()` elements in storage of its
/// own and moves all of them to an `S` when it needs more room. It never
/// moves back.
pub struct SmallVec<T: Array, S = Vec<<T as Array>::Item>>(Storage<ArrayVec<T>, S>);

impl<T: Array, S> SmallVec<T, S> {
    /// The storage in use, with its contents.
    pub closed spec fn storage(&self) -> Storage<ArrayVec<T>, S> {
        self.0
    }

    /// Gives up the container for the storage it is in.
    #[inline]
    pub fn into_inner(self) -> (r: Storage<ArrayVec<T>, S>)
        ensures
            r == self.storage(),
    {
        self.0
    }
}

impl<T: Array, S: Spilled<ArrayVec<T>>> SmallVec<T, S> {
    /// Moves the elements out of the container's own storage, unless they
    /// have left it already.
    pub fn spill(&mut self)
        requires
            old(self).wf(),
        ensures
            final(self).wf(),
            final(self).spilled(),
            final(self).seq() == old(self).seq(),
            old(self).spilled() ==> final(self).storage() == old(self).storage(),
    {
        if !self.is_spilled() {
            let mut taken = Storage::Spilled(S::new());
            core::mem::swap(&mut self.0, &mut taken);
            match taken {
                Storage::Inline(v) => {
                    self.0 = Storage::Spilled(S::spill(v));
                },
                Storage::Spilled(_) => unreached(),
            }
        }
    }

    /// Whether the elements have left the container's own storage.
    #[inline]
    pub fn is_spilled(&self) -> (b: bool)
        ensures
            b == self.spilled(),
    {
        match &self.0 {
            Storage::Inline(_) => false,
            Storage::Spilled(_) => true,
        }
    }
}

impl<T: Array, S> FromSpecImpl<ArrayVec<T>> for SmallVec<T, S> {
    open spec fn obeys_from_spec() -> bool {
        false
    }

    open spec fn from_spec(v: ArrayVec<T>) -> Self {
        arbitrary()
    }
}

/// A container that lives in `v`.
impl<T: Array, S> From<ArrayVec<T>> for SmallVec<T, S> {
    fn from(v: ArrayVec<T>) -> (r: Self)
        ensures
            r.storage() == Storage::<ArrayVec<T>, S>::Inline(v),
    {
        SmallVec(Storage::Inline(v))
    }
}

/// An empty container in storage of its own.
impl<T: Array, S> Default for SmallVec<T, S> {
    fn default() -> (v: Self)
        ensures
            v.storage() is Inline,
            v.storage()->Inline_0.wf(),
            v.storage()->Inline_0.seq() == Seq::<T::Item>::empty(),
    {
        SmallVec(Storage::Inline(ArrayVec::new()))
    }
}

/// A container in the same kind of storage, with a clone of what is there.
impl<T: Array, S: Clone> Clone for SmallVec<T, S> where T::Item: Clone {
    fn clone(&self) -> (c: Self)
        ensures
            c.storage() is Spilled == self.storage() is Spilled,
            self.storage() matches Storage::Inline(a) ==> {
                &&& c.storage()->Inline_0.wf() == a.wf()
                &&& c.storage()->Inline_0.seq().len() == a.seq().len()
                &&& forall|i: int|
                    0 <= i < a.seq().len() ==> cloned::<T::Item>(
                        #[trigger] a.seq()[i],
                        c.storage()->Inline_0.seq()[i],
                    )
            },
    {
        match &self.0 {
            Storage::Inline(a) => SmallVec(Storage::Inline(a.clone())),
            Storage::Spilled(s) => SmallVec(Storage::Spilled(s.clone())),
        }
    }
}

/// The live elements, as a slice.
impl<T: Array> Deref for SmallVec<T, Vec<T::Item>> {
    type Target = [T::Item];

    fn deref(&self) -> (s: &[T::Item])
        ensures
            s@ == self.seq(),
    {
        match &self.0 {
            Storage::Inline(a) => a.deref(),
            Storage::Spilled(v) => v.as_slice(),
        }
    }
}

impl<T: Array, S: Spilled<ArrayVec<T>>> Vector for SmallVec<T, S> {
    type Item = T::Item;

    open spec fn seq(&self) -> Seq<T::Item> {
        match self.storage() {
            Storage::Inline(a) => a.seq(),
            Storage::Spilled(s) => s.seq(),
        }
    }

    open spec fn wf(&self) -> bool {
        match self.storage() {
            Storage::Inline(a) => a.wf(),
            Storage::Spilled(s) => s.wf(),
        }
    }

    open spec fn spec_capacity(&self) -> Option<nat> {
        match self.storage() {
            Storage::Inline(a) => a.spec_capacity(),
            Storage::Spilled(s) => s.spec_capacity(),
        }
    }

    open spec fn spec_inline() -> Option<nat> {
        Some(T::spec_len())
    }

    open spec fn spec_bound() -> nat {
        S::spec_bound()
    }

    open spec fn spilled(&self) -> bool {
        self.storage() is Spilled
    }

    proof fn lemma_bound() {
        S::lemma_bound();
    }

    proof fn lemma_bounded(&self) {
        S::lemma_room();
        match self.storage() {
            Storage::Inline(a) => a.lemma_bounded(),
            Storage::Spilled(s) => s.lemma_bounded(),
        }
    }

    #[inline]
    fn max_len() -> (n: usize) {
        S::max_len()
    }

    #[inline]
    fn new() -> (v: Self) {
        assert(Self::spec_inline() == Some(T::spec_len()));
        SmallVec(Storage::Inline(ArrayVec::new()))
    }

    #[inline]
    fn with_capacity(cap: usize) -> (v: Self) {
        if cap > T::len() {
            SmallVec(Storage::Spilled(S::with_capacity(cap)))
        } else {
            SmallVec(Storage::Inline(ArrayVec::new()))
        }
    }

    #[inline]
    fn capacity(&self) -> (c: usize) {
        proof {
            S::lemma_room();
        }
        match &self.0 {
            Storage::Inline(a) => a.capacity(),
            Storage::Spilled(s) => s.capacity(),
        }
    }

    fn reserve(&mut self, additional: usize) {
        let room = self.capacity() - self.len();
        if room < additional {
            self.spill();
        } else {
            return ;
        }
        match &mut self.0 {
            Storage::Inline(a) => a.reserve(additional),
            Storage::Spilled(s) => s.reserve(additional),
        }
    }

    fn reserve_exact(&mut self, additional: usize) {
        let room = self.capacity() - self.len();
        if room < additional {
            self.spill();
        } else if room > additional {
            return ;
        }
        match &mut self.0 {
            Storage::Inline(a) => a.reserve_exact(additional),
            Storage::Spilled(s) => s.reserve_exact(additional),
        }
    }

    #[inline]
    fn shrink_to_fit(&mut self) {
        match &mut self.0 {
            Storage::Inline(a) => a.shrink_to_fit(),
            Storage::Spilled(s) => s.shrink_to_fit(),
        }
    }

    #[inline]
    fn len(&self) -> (n: usize) {
        match &self.0 {
            Storage::Inline(a) => a.len(),
            Storage::Spilled(s) => s.len(),
        }
    }

    #[inline]
    fn fill_slot(&mut self, value: T::Item) {
        match &mut self.0 {
            Storage::Inline(a) => a.fill_slot(value),
            Storage::Spilled(s) => s.fill_slot(value),
        }
    }

    #[inline]
    fn empty_slot(&mut self) -> (value: T::Item) {
        match &mut self.0 {
            Storage::Inline(a) => a.empty_slot(),
            Storage::Spilled(s) => s.empty_slot(),
        }
    }

    #[inline]
    fn swap_slots(&mut self, a: usize, b: usize) {
        match &mut self.0 {
            Storage::Inline(v) => v.swap_slots(a, b),
            Storage::Spilled(s) => s.swap_slots(a, b),
        }
    }

    #[inline]
    fn as_slice(&self) -> (s: &[T::Item]) {
        match &self.0 {
            Storage::Inline(a) => a.as_slice(),
            Storage::Spilled(s) => s.as_slice(),
        }
    }

    #[inline]
    fn as_mut_slice(&mut self) -> (s: &mut [T::Item]) {
        match &mut self.0 {
            Storage::Inline(a) => a.as_mut_slice(),
            Storage::Spilled(s) => s.as_mut_slice(),
        }
    }
}

/// Consuming iteration over a [`SmallVec`], from the front.
///
/// For a container that had spilled, the iterator holds the elements still
/// to come in a vector, the next one last.
pub struct SmallVecIter<T1, T2>(Storage<T1, T2>);

impl<T: Array> SmallVecIter<ArrayVecIntoIter<T>, Vec<T::Item>> {
    /// The elements not yet handed out, in order.
    pub closed spec fn remaining(&self) -> Seq<T::Item> {
        match self.0 {
            Storage::Inline(iter) => iter.remaining(),
            Storage::Spilled(rest) => rest@.reverse(),
        }
    }

    /// The iterator over the inline storage, where that is in use, is
    /// well-formed.
    pub closed spec fn wf(&self) -> bool {
        match self.0 {
            Storage::Inline(iter) => iter.wf(),
            Storage::Spilled(_) => true,
        }
    }

    /// The next element from the front, if any is left.
    #[inline]
    pub fn next(&mut self) -> (item: Option<T::Item>)
        requires
            old(self).wf(),
        ensures
            final(self).wf(),
            old(self).remaining().len() == 0 ==> item is None && final(self).remaining() == old(self).remaining(),
            old(self).remaining().len() > 0 ==> item == Some(old(self).remaining().first())
                && final(self).remaining() == old(self).remaining().drop_first(),
    {
        match &mut self.0 {
            Storage::Inline(iter) => iter.next(),
            Storage::Spilled(rest) => {
                let item = rest.pop();
                proof {
                    if item is Some {
                        assert(rest@.reverse() =~= old(self).remaining().drop_first());
                    }
                }
                item
            },
        }
    }

    /// The number of elements still to come, as a lower and an upper bound.
    #[inline]
    pub fn size_hint(&self) -> (hint: (usize, Option<usize>))
        requires
            self.wf(),
        ensures
            hint.0 == self.remaining().len(),
            hint.1 == Some(hint.0),
    {
        match &self.0 {
            Storage::Inline(iter) => iter.size_hint(),
            Storage::Spilled(rest) => {
                let len = rest.len();
                (len, Some(len))
            },
        }
    }

    /// The number of elements still to come; they are destroyed.
    #[inline]
    pub fn count(self) -> (n: usize)
        requires
            self.wf(),
        ensures
            n == self.remaining().len(),
    {
        match self.0 {
            Storage::Inline(iter) => iter.count(),
            Storage::Spilled(rest) => rest.len(),
        }
    }
}

impl<T: Array> SmallVec<T, Vec<T::Item>> {
    /// Turns the container into an iterator that hands out its elements.
    #[inline]
    pub fn into_iter(self) -> (iter: SmallVecIter<ArrayVecIntoIter<T>, Vec<T::Item>>)
        requires
            self.wf(),
        ensures
            iter.wf(),
            iter.remaining() == self.seq(),
    {
        SmallVecIter(
            match self.0 {
                Storage::Inline(v) => Storage::Inline(v.into_iter()),
                Storage::Spilled(v) => {
                    let mut rest = v;
                    reverse(&mut rest);
                    assert(rest@.reverse() =~= v@);
                    Storage::Spilled(rest)
                },
            },
        )
    }
}

} // verus!
