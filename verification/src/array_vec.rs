//! A bounded sequence whose capacity is fixed by an array type.
use crate::array::{Array, ArrayIndex};
use crate::vector::{reverse, Vector};
use core::ops::Deref;
use vstd::arithmetic::div_mod::lemma_small_mod;
use vstd::layout::size_of;
use vstd::prelude::*;
use vstd::std_specs::convert::FromSpecImpl;

verus! {

/// A sequence of at most `T::spec_len()` elements.
///
/// The store holds the live slots and nothing else: slot `i` holds an
/// element exactly when `i` is below the length. The length is kept a
/// second time in the compact index type that `T` selects.
pub struct ArrayVec<T: Array> {
    items: Vec<T::Item>,
    len: T::Index,
}

impl<T: Array> ArrayVec<T> {
    /// Hands out the array when every slot is live; otherwise hands the
    /// container back untouched.
    pub fn into_inner(self) -> (r: Result<T, Self>)
        requires
            self.wf(),
        ensures
            self.seq().len() == T::spec_len() ==> r is Ok && r->Ok_0.elems() == self.seq(),
            self.seq().len() != T::spec_len() ==> r is Err && r->Err_0 == self,
            forall|array: T| #[trigger] array.elems() == self.seq() ==> r is Ok && r->Ok_0 == array,
    {
        if self.len() == self.capacity() {
            let ArrayVec { items, len } = self;
            match T::from_vec(items) {
                Ok(array) => {
                    assert forall|other: T| #[trigger] other.elems() == self.seq() implies array
                        == other by {
                        array.lemma_ext(&other);
                    }
                    Ok(array)
                },
                Err(items) => Err(ArrayVec { items, len }),
            }
        } else {
            assert forall|other: T| #[trigger] other.elems() == self.seq() implies false by {
                other.lemma_elems();
            }
            Err(self)
        }
    }

    /// Moves the live elements, in order, into a growable vector.
    pub fn into_vec(self) -> (v: Vec<T::Item>)
        ensures
            v@ == self.seq(),
    {
        self.items
    }
}

/// Round trip: a container whose contents are those of an array is full,
/// and an array with the contents of the container is that array.
pub proof fn lemma_round_trip<T: Array>(array: T, v: ArrayVec<T>, back: T)
    requires
        v.seq() == array.elems(),
        back.elems() == v.seq(),
    ensures
        v.seq().len() == T::spec_len(),
        back == array,
{
    array.lemma_elems();
    back.lemma_ext(&array);
}

impl<T: Array> Vector for ArrayVec<T> {
    type Item = T::Item;

    closed spec fn seq(&self) -> Seq<T::Item> {
        self.items@
    }

    closed spec fn wf(&self) -> bool {
        &&& self.items@.len() == self.len.as_nat()
        &&& self.len.as_nat() <= T::spec_len()
    }

    open spec fn spec_capacity(&self) -> Option<nat> {
        Some(T::spec_len())
    }

    open spec fn spec_inline() -> Option<nat> {
        Some(T::spec_len())
    }

    open spec fn spec_bound() -> nat {
        T::spec_len()
    }

    open spec fn spilled(&self) -> bool {
        false
    }

    proof fn lemma_bound() {
        T::lemma_index();
    }

    proof fn lemma_bounded(&self) {
    }

    #[inline]
    fn max_len() -> (n: usize) {
        T::len()
    }

    #[inline]
    fn with_capacity(cap: usize) -> (v: Self) {
        proof {
            lemma_small_mod(0, <T::Index as ArrayIndex>::spec_max() + 1);
        }
        let v = ArrayVec { items: Vec::new(), len: ArrayIndex::from_usize(0) };
        assert(Self::spec_bound() == T::spec_len());
        assert(v.spec_capacity() == Some(T::spec_len()));
        v
    }

    #[inline]
    fn capacity(&self) -> (c: usize) {
        T::len()
    }

    #[inline]
    fn reserve(&mut self, additional: usize) {
        self.reserve_exact(additional);
    }

    #[inline]
    fn reserve_exact(&mut self, additional: usize) {
    }

    #[inline]
    fn shrink_to_fit(&mut self) {
    }

    #[inline]
    fn len(&self) -> (n: usize) {
        ArrayIndex::to_usize(self.len)
    }

    fn fill_slot(&mut self, value: T::Item) {
        let len = self.len();
        proof {
            T::lemma_index();
            self.len.lemma_in_range();
            lemma_small_mod((len + 1) as nat, <T::Index as ArrayIndex>::spec_max() + 1);
        }
        self.items.push(value);
        self.len = ArrayIndex::from_usize(len + 1);
    }

    fn empty_slot(&mut self) -> (value: T::Item) {
        let len = self.len();
        proof {
            T::lemma_index();
            lemma_small_mod((len - 1) as nat, <T::Index as ArrayIndex>::spec_max() + 1);
        }
        self.len = ArrayIndex::from_usize(len - 1);
        self.items.pop().unwrap()
    }

    #[inline]
    fn swap_slots(&mut self, a: usize, b: usize) {
        self.items.as_mut_slice().swap(a, b)
    }

    #[inline]
    fn as_slice(&self) -> (s: &[T::Item]) {
        self.items.as_slice()
    }

    #[inline]
    fn as_mut_slice(&mut self) -> (s: &mut [T::Item]) {
        self.items.as_mut_slice()
    }
}

impl<T: Array> FromSpecImpl<T> for ArrayVec<T> {
    open spec fn obeys_from_spec() -> bool {
        false
    }

    open spec fn from_spec(array: T) -> Self {
        arbitrary()
    }
}

/// A full container with the contents of the array.
impl<T: Array> From<T> for ArrayVec<T> {
    fn from(array: T) -> (v: Self)
        ensures
            v.wf(),
            v.seq() == array.elems(),
    {
        proof {
            T::lemma_index();
            array.lemma_elems();
            lemma_small_mod(T::spec_len(), <T::Index as ArrayIndex>::spec_max() + 1);
        }
        ArrayVec { items: array.into_vec(), len: ArrayIndex::from_usize(T::len()) }
    }
}

/// An empty container.
impl<T: Array> Default for ArrayVec<T> {
    fn default() -> (v: Self)
        ensures
            v.wf(),
            v.seq() == Seq::<T::Item>::empty(),
    {
        Self::new()
    }
}

/// A container with a clone of every element, in the same order.
impl<T: Array> Clone for ArrayVec<T> where T::Item: Clone {
    fn clone(&self) -> (c: Self)
        ensures
            c.wf() == self.wf(),
            c.seq().len() == self.seq().len(),
            forall|i: int|
                0 <= i < self.seq().len() ==> cloned::<T::Item>(
                    #[trigger] self.seq()[i],
                    c.seq()[i],
                ),
    {
        ArrayVec { items: self.items.clone(), len: self.len }
    }
}

impl<T: Array> Deref for ArrayVec<T> {
    type Target = [T::Item];

    fn deref(&self) -> (s: &[T::Item])
        ensures
            s@ == self.seq(),
    {
        self.items.as_slice()
    }
}

/// Consuming iteration over an [`ArrayVec`], from the front, from the back,
/// or from both ends in turn.
///
/// The slots in `start..end` still hold their element; every other slot has
/// been moved out of.
pub struct ArrayVecIntoIter<T: Array> {
    slots: Vec<Option<T::Item>>,
    start: T::Index,
    end: T::Index,
}

impl<T: Array> ArrayVecIntoIter<T> {
    /// The elements not yet handed out, in order.
    pub closed spec fn remaining(&self) -> Seq<T::Item> {
        Seq::new(
            (self.end.as_nat() - self.start.as_nat()) as nat,
            |i: int| self.slots@[self.start.as_nat() + i]->Some_0,
        )
    }

    /// Exactly the slots of the range hold an element, and the range lies
    /// within the capacity.
    pub closed spec fn wf(&self) -> bool {
        &&& self.start.as_nat() <= self.end.as_nat() <= self.slots@.len() <= T::spec_len()
        &&& forall|i: int|
            0 <= i < self.slots@.len() ==> (#[trigger] self.slots@[i] is Some <==> self.start.as_nat()
                <= i < self.end.as_nat())
    }

    /// Takes over the elements of `inner`; all of them are still to come.
    pub fn new(inner: ArrayVec<T>) -> (iter: Self)
        requires
            inner.wf(),
        ensures
            iter.wf(),
            iter.remaining() == inner.seq(),
    {
        let len = inner.len();
        let mut items = inner.into_vec();
        reverse(&mut items);
        let mut slots: Vec<Option<T::Item>> = Vec::new();
        let mut n: usize = 0;
        while n < len
            invariant
                n <= len,
                len == inner.seq().len(),
                items@ == inner.seq().reverse().take(len - n),
                slots@.len() == n,
                forall|i: int| 0 <= i < n ==> slots@[i] == Some(inner.seq()[i]),
            decreases len - n,
        {
            let value = items.pop().unwrap();
            slots.push(Some(value));
            n = n + 1;
            assert(items@ =~= inner.seq().reverse().take(len - n));
        }
        proof {
            T::lemma_index();
            lemma_small_mod(0, <T::Index as ArrayIndex>::spec_max() + 1);
            lemma_small_mod(len as nat, <T::Index as ArrayIndex>::spec_max() + 1);
            inner.lemma_bounded();
        }
        let iter = ArrayVecIntoIter {
            slots,
            start: ArrayIndex::from_usize(0),
            end: ArrayIndex::from_usize(len),
        };
        assert(iter.remaining() =~= inner.seq());
        iter
    }

    /// The distance in bytes between neighbouring slots.
    pub open spec fn slot_bytes() -> nat {
        if size_of::<T::Item>() == 0 {
            1
        } else {
            size_of::<T::Item>()
        }
    }

    /// The distance in bytes between neighbouring slots: the size of an
    /// element, or one for elements without size, so that every slot has an
    /// offset of its own.
    pub fn ptr_size() -> (size: usize)
        ensures
            size == Self::slot_bytes(),
    {
        let size = core::mem::size_of::<T::Item>();
        if size == 0 {
            1
        } else {
            size
        }
    }

    /// The offset in bytes of slot `index` from the first slot, or `None`
    /// where no `usize` can hold it.
    pub fn ptr(&self, index: T::Index) -> (offset: Option<usize>)
        ensures
            index.as_nat() * Self::slot_bytes() <= usize::MAX ==> offset == Some(
                (index.as_nat() * Self::slot_bytes()) as usize,
            ),
            index.as_nat() * Self::slot_bytes() > usize::MAX ==> offset is None,
    {
        ArrayIndex::to_usize(index).checked_mul(Self::ptr_size())
    }

    /// The next element from the front, if any is left.
    pub fn next(&mut self) -> (item: Option<T::Item>)
        requires
            old(self).wf(),
        ensures
            final(self).wf(),
            old(self).remaining().len() == 0 ==> item is None && final(self).remaining() == old(self).remaining(),
            old(self).remaining().len() > 0 ==> item == Some(old(self).remaining().first())
                && final(self).remaining() == old(self).remaining().drop_first(),
    {
        let start = ArrayIndex::to_usize(self.start);
        let end = ArrayIndex::to_usize(self.end);
        if start < end {
            proof {
                T::lemma_index();
                lemma_small_mod((start + 1) as nat, <T::Index as ArrayIndex>::spec_max() + 1);
            }
            self.start = ArrayIndex::from_usize(start + 1);
            let item = self.slots[start].take();
            assert(self.remaining() =~= old(self).remaining().drop_first());
            item
        } else {
            None
        }
    }

    /// The next element from the back, if any is left.
    pub fn next_back(&mut self) -> (item: Option<T::Item>)
        requires
            old(self).wf(),
        ensures
            final(self).wf(),
            old(self).remaining().len() == 0 ==> item is None && final(self).remaining() == old(self).remaining(),
            old(self).remaining().len() > 0 ==> item == Some(old(self).remaining().last())
                && final(self).remaining() == old(self).remaining().drop_last(),
    {
        let start = ArrayIndex::to_usize(self.start);
        let end = ArrayIndex::to_usize(self.end);
        if start < end {
            proof {
                T::lemma_index();
                lemma_small_mod((end - 1) as nat, <T::Index as ArrayIndex>::spec_max() + 1);
            }
            self.end = ArrayIndex::from_usize(end - 1);
            let item = self.slots[end - 1].take();
            assert(self.remaining() =~= old(self).remaining().drop_last());
            item
        } else {
            None
        }
    }

    /// The number of elements still to come, as a lower and an upper bound.
    #[inline]
    pub fn size_hint(&self) -> (hint: (usize, Option<usize>))
        requires
            self.wf(),
        ensures
            hint.0 == self.remaining().len(),
            hint.1 == Some(hint.0),
    {
        let len = ArrayIndex::to_usize(self.end) - ArrayIndex::to_usize(self.start);
        (len, Some(len))
    }

    /// The number of elements still to come; they are destroyed.
    #[inline]
    pub fn count(self) -> (n: usize)
        requires
            self.wf(),
        ensures
            n == self.remaining().len(),
    {
        self.size_hint().0
    }
}

impl<T: Array> ArrayVec<T> {
    /// Turns the container into an iterator that hands out its elements.
    #[inline]
    pub fn into_iter(self) -> (iter: ArrayVecIntoIter<T>)
        requires
            self.wf(),
        ensures
            iter.wf(),
            iter.remaining() == self.seq(),
    {
        ArrayVecIntoIter::new(self)
    }
}

} // verus!
