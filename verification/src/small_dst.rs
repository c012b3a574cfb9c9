//! An erased value kept inline: the metadata words of a reference to it and
//! the words of the value itself, side by side in one word buffer.
//!
//! A reference to a value of type `T` is one word when `T` is sized and more
//! than one when it is not: the address of the value, followed by the words
//! that tell how to use what lies there. The container stores those
//! following words and, behind them, a copy of the value. With the address
//! of the stored copy in front of the stored metadata, the reference is
//! whole again.
use crate::array_vec::ArrayVec;
use crate::vector::{outgrows, Vector};
use core::marker::PhantomData;
use vstd::layout::{
    align_of,
    layout_for_type_is_valid,
    layout_of_primitives,
    layout_of_references_and_pointers,
    layout_of_references_and_pointers_for_sized_types,
    layout_of_references_and_pointers_for_unsized_types,
    size_of,
};
use vstd::prelude::*;
use vstd::slice::slice_subrange;

verus! {

/// The number of words in a reference to a `T`.
pub open spec fn pointer_words<T: ?Sized>() -> nat {
    size_of::<&T>() / size_of::<usize>()
}

/// The number of words that hold the bytes of a `U`: its size in words,
/// rounded up.
pub open spec fn payload_words<U>() -> nat {
    ((size_of::<U>() + size_of::<usize>() - 1) / (size_of::<usize>() as int)) as nat
}

/// A value whose type has been erased to `T`, stored in a word buffer `A`.
pub struct SmallDST<T: ?Sized, A: Vector<Item = usize> = ArrayVec<[usize; 9]>> {
    data: A,
    _phantom: PhantomData<T>,
}

impl<T: ?Sized, A: Vector<Item = usize>> SmallDST<T, A> {
    /// The word buffer.
    pub closed spec fn buffer(&self) -> A {
        self.data
    }

    /// The stored words: the metadata, then the payload.
    pub open spec fn words(&self) -> Seq<usize> {
        self.buffer().seq()
    }

    /// The buffer is well-formed and holds at least the metadata.
    pub open spec fn wf(&self) -> bool {
        &&& self.buffer().wf()
        &&& self.words().len() >= pointer_words::<T>() - 1
    }

    /// The metadata words.
    pub open spec fn meta_words(&self) -> Seq<usize> {
        self.words().take(pointer_words::<T>() - 1)
    }

    /// The words of the stored value.
    pub open spec fn value_words(&self) -> Seq<usize> {
        self.words().skip(pointer_words::<T>() - 1)
    }

    /// The number of words in a reference to a `T`; at least one.
    pub fn ptr_len() -> (n: usize)
        ensures
            n == pointer_words::<T>(),
            n >= 1,
    {
        broadcast use {
            layout_of_primitives,
            layout_of_references_and_pointers,
            layout_of_references_and_pointers_for_unsized_types,
        };

        let word = core::mem::size_of::<usize>();
        let n = core::mem::size_of::<&T>() / word;
        assert(n >= 1) by (nonlinear_arith)
            requires
                n == size_of::<&T>() / (word as nat),
                size_of::<&T>() >= word,
                word > 0,
        ;
        n
    }

    /// The number of metadata words: the words of a reference to a `T`
    /// without the address.
    pub fn data_len() -> (n: usize)
        ensures
            n == pointer_words::<T>() - 1,
    {
        Self::ptr_len() - 1
    }

    /// The number of words that hold the bytes of a `U`.
    pub fn payload_len<U>() -> (n: usize)
        ensures
            n == payload_words::<U>(),
    {
        broadcast use layout_of_primitives;

        layout_for_type_is_valid::<U>();
        let word = core::mem::size_of::<usize>();
        (core::mem::size_of::<U>() + word - 1) / word
    }

    /// Whether a `U` may be stored in a buffer of words: its alignment must
    /// not be stricter than that of a word.
    pub fn accepts<U>() -> (b: bool)
        ensures
            b == (align_of::<U>() <= align_of::<usize>()),
    {
        core::mem::align_of::<U>() <= core::mem::align_of::<usize>()
    }

    /// Stores a `U` that is referred to as a `T`. `pointer` holds the words
    /// of the reference, `address` the address of the value, which the
    /// reference starts with, and `payload` the words of the value.
    #[inline]
    pub fn new_ref<U>(pointer: &[usize], address: usize, payload: &[usize]) -> (dst: Self)
        requires
            align_of::<U>() <= align_of::<usize>(),
            pointer@.len() == pointer_words::<T>(),
            pointer@[0] == address,
            payload@.len() == payload_words::<U>(),
            pointer@.len() - 1 + payload@.len() <= A::spec_bound(),
        ensures
            dst.wf(),
            dst.words() == pointer@.skip(1) + payload@,
            dst.meta_words() == pointer@.skip(1),
            dst.value_words() == payload@,
            dst.buffer().spilled() == outgrows(
                A::spec_inline(),
                0,
                pointer@.len() - 1 + payload@.len(),
            ),
    {
        let n = Self::ptr_len();
        let dst = Self::from_ref::<U>(payload, slice_subrange(pointer, 1, n));
        assert(pointer@.subrange(1, n as int) =~= pointer@.skip(1));
        dst
    }

    /// The word buffer.
    #[inline]
    pub fn data(&self) -> (a: &A)
        ensures
            *a == self.buffer(),
    {
        &self.data
    }

    /// Lays out the metadata words `data` and the value words `payload` of
    /// a `U` in a new buffer, metadata first.
    pub fn from_ref<U>(payload: &[usize], data: &[usize]) -> (dst: Self)
        requires
            align_of::<U>() <= align_of::<usize>(),
            data@.len() == pointer_words::<T>() - 1,
            payload@.len() == payload_words::<U>(),
            data@.len() + payload@.len() <= A::spec_bound(),
        ensures
            dst.wf(),
            dst.words() == data@ + payload@,
            dst.meta_words() == data@,
            dst.value_words() == payload@,
            dst.buffer().spilled() == outgrows(
                A::spec_inline(),
                0,
                (data@.len() + payload@.len()) as int,
            ),
    {
        let meta = Self::data_len();
        let size = Self::payload_len::<U>();
        proof {
            A::lemma_bound();
        }
        let mut a = A::with_capacity(meta + size);
        let ghost moved = a.spilled();
        let ghost room = a.spec_capacity();
        let mut i: usize = 0;
        while i < meta
            invariant
                a.wf(),
                a.spilled() == moved,
                a.spec_capacity() == room,
                !outgrows(room, 0, meta + size),
                i <= meta,
                meta == data@.len(),
                meta + size <= A::spec_bound(),
                a.seq() == data@.take(i as int),
            decreases meta - i,
        {
            a.push(data[i]);
            i = i + 1;
            assert(a.seq() =~= data@.take(i as int));
        }
        let mut j: usize = 0;
        while j < size
            invariant
                a.wf(),
                a.spilled() == moved,
                a.spec_capacity() == room,
                !outgrows(room, 0, meta + size),
                j <= size,
                meta == data@.len(),
                size == payload@.len(),
                meta + size <= A::spec_bound(),
                a.seq() == data@ + payload@.take(j as int),
            decreases size - j,
        {
            a.push(payload[j]);
            j = j + 1;
            assert(a.seq() =~= data@ + payload@.take(j as int));
        }
        assert(a.seq() =~= data@ + payload@);
        let dst = SmallDST { data: a, _phantom: PhantomData };
        assert(dst.meta_words() =~= data@);
        assert(dst.value_words() =~= payload@);
        dst
    }

    /// Lays out `data` and `payload` as [`SmallDST::from_ref`] does, where
    /// they are the metadata of a reference to a `T` and the words of a
    /// `U`, where a `U` is aligned no more strictly than a word, and where
    /// an `A` can hold them all; otherwise `None`.
    pub fn try_from_ref<U>(payload: &[usize], data: &[usize]) -> (r: Option<Self>)
        ensures
            r is Some <==> {
                &&& align_of::<U>() <= align_of::<usize>()
                &&& data@.len() == pointer_words::<T>() - 1
                &&& payload@.len() == payload_words::<U>()
                &&& data@.len() + payload@.len() <= A::spec_bound()
            },
            r matches Some(dst) ==> {
                &&& dst.wf()
                &&& dst.words() == data@ + payload@
                &&& dst.meta_words() == data@
                &&& dst.value_words() == payload@
                &&& dst.buffer().spilled() == outgrows(
                    A::spec_inline(),
                    0,
                    (data@.len() + payload@.len()) as int,
                )
            },
    {
        let meta = Self::data_len();
        let size = Self::payload_len::<U>();
        let max = A::max_len();
        if Self::accepts::<U>() && data.len() == meta && payload.len() == size && size <= max
            && meta <= max - size {
            Some(Self::from_ref::<U>(payload, data))
        } else {
            None
        }
    }

    /// The metadata words.
    pub fn meta(&self) -> (s: &[usize])
        requires
            self.wf(),
        ensures
            s@ == self.meta_words(),
    {
        let n = Self::data_len();
        let s = slice_subrange(self.data.as_slice(), 0, n);
        assert(s@ =~= self.meta_words());
        s
    }

    /// The words of the stored value.
    pub fn payload(&self) -> (s: &[usize])
        requires
            self.wf(),
        ensures
            s@ == self.value_words(),
    {
        let n = Self::data_len();
        let all = self.data.as_slice();
        let s = slice_subrange(all, n, all.len());
        assert(s@ =~= self.value_words());
        s
    }

    /// The words of the stored value, to be changed in place. The metadata
    /// is out of reach and stays as it is.
    pub fn payload_mut(&mut self) -> (s: &mut [usize])
        requires
            old(self).wf(),
        ensures
            s@ == old(self).value_words(),
            final(self).words() == old(self).meta_words() + final(s)@,
            final(s)@.len() == s@.len() ==> final(self).wf(),
            final(self).buffer().spilled() == old(self).buffer().spilled(),
    {
        let n = Self::data_len();
        let all = self.data.as_mut_slice();
        let (meta, payload) = all.split_at_mut(n);
        assert(payload@ =~= old(self).value_words());
        assert(meta@ =~= old(self).meta_words());
        payload
    }

    /// Writes the words of a reference to the stored value, which lies at
    /// `address`, to `pointer`: the address, then the stored metadata.
    pub fn pointer_to(&self, address: usize, pointer: &mut [usize])
        requires
            self.wf(),
            old(pointer)@.len() == pointer_words::<T>(),
        ensures
            final(pointer)@ == seq![address] + self.meta_words(),
    {
        let len = Self::ptr_len();
        let all = self.data.as_slice();
        pointer[0] = address;
        let mut i: usize = 1;
        while i < len
            invariant
                1 <= i <= len,
                len == pointer_words::<T>(),
                len - 1 <= all@.len(),
                all@ == self.words(),
                pointer@.len() == len,
                pointer@[0] == address,
                forall|k: int| 1 <= k < i ==> pointer@[k] == all@[k - 1],
            decreases len - i,
        {
            pointer[i] = all[i - 1];
            i = i + 1;
        }
        assert(pointer@ =~= seq![address] + self.meta_words());
    }
}

impl<A: Vector<Item = usize>> SmallDST<usize, A> {
    /// A word stored as itself: no metadata, and the word as the payload.
    #[inline]
    pub fn from(t: usize) -> (dst: Self)
        requires
            A::spec_bound() >= 1,
        ensures
            dst.wf(),
            dst.words() == seq![t],
            dst.value_words() == seq![t],
            dst.buffer().spilled() == outgrows(A::spec_inline(), 0, 1),
    {
        broadcast use {
            layout_of_primitives,
            layout_of_references_and_pointers,
            layout_of_references_and_pointers_for_sized_types,
        };

        let payload = [t];
        let meta: [usize; 0] = [];
        proof {
            let w = size_of::<usize>() as int;
            assert(w / w == 1 && (w + w - 1) / w == 1) by (nonlinear_arith)
                requires
                    w > 0,
            ;
            assert(size_of::<&usize>() == size_of::<usize>());
        }
        let dst = Self::from_ref::<usize>(payload.as_slice(), meta.as_slice());
        assert(payload@ =~= seq![t]);
        assert(dst.words() =~= seq![t]);
        dst
    }
}

} // verus!
