//! The sequence contract shared by every container of this crate.
//!
//! A container is seen as the mathematical sequence of its live elements,
//! [`Vector::seq`]. A handful of primitives give access to the storage; the
//! element operations are written once, in terms of those primitives, and are
//! proved against the sequence.
use vstd::layout::size_of;
use vstd::prelude::*;

verus! {

/// The elements of `s` whose flag in `keep` is set, in their order in `s`.
pub open spec fn retained<T>(s: Seq<T>, keep: Seq<bool>) -> Seq<T>
    decreases s.len(),
{
    if s.len() == 0 {
        Seq::empty()
    } else if keep.last() {
        retained(s.drop_last(), keep.drop_last()).push(s.last())
    } else {
        retained(s.drop_last(), keep.drop_last())
    }
}

/// Where every flag says what `pred` says of its element, the retained
/// elements are those that `pred` holds of.
pub proof fn lemma_retained_filter<T>(s: Seq<T>, keep: Seq<bool>, pred: spec_fn(T) -> bool)
    requires
        keep.len() == s.len(),
        forall|i: int| 0 <= i < s.len() ==> keep[i] == pred(s[i]),
    ensures
        retained(s, keep) == s.filter(pred),
    decreases s.len(),
{
    reveal(Seq::filter);
    if s.len() > 0 {
        lemma_retained_filter(s.drop_last(), keep.drop_last(), pred);
    }
}

/// Turns a vector around in place.
pub fn reverse<T>(v: &mut Vec<T>)
    ensures
        final(v)@ == old(v)@.reverse(),
{
    let len = v.len();
    let mut lo: usize = 0;
    let mut hi: usize = len;
    while hi - lo > 1
        invariant
            lo <= hi <= len,
            lo == len - hi,
            len == old(v)@.len(),
            v@.len() == len,
            forall|k: int| lo <= k < hi ==> v@[k] == old(v)@[k],
            forall|k: int| 0 <= k < lo || hi <= k < len ==> v@[k] == old(v)@[len - 1 - k],
        decreases hi - lo,
    {
        v.as_mut_slice().swap(lo, hi - 1);
        lo = lo + 1;
        hi = hi - 1;
    }
    assert(v@ =~= old(v)@.reverse());
}

/// What an insertion that never grows the storage returns and leaves
/// behind, for a container with contents `s` and room for `cap` elements:
/// beyond the capacity the element comes back; in a full container the last
/// element gives way and is returned.
pub open spec fn insert_cap_outcome<T>(s: Seq<T>, cap: int, index: int, element: T) -> (
    Option<T>,
    Seq<T>,
) {
    if index >= cap {
        (Some(element), s)
    } else if s.len() < cap {
        (None, s.insert(index, element))
    } else {
        (Some(s.last()), s.drop_last().insert(index, element))
    }
}

/// Whether `additional` more elements are too many for storage that holds
/// `len` elements and whose capacity, where it is fixed, is `capacity`.
pub open spec fn outgrows(capacity: Option<nat>, len: nat, additional: int) -> bool {
    capacity matches Some(c) && len + additional > c
}

/// A growable sequence.
pub trait Vector: Sized {
    type Item;

    /// The live elements, in order.
    spec fn seq(&self) -> Seq<Self::Item>;

    /// The storage invariant: exactly the slots below the length hold an
    /// element, and the length is within the capacity.
    spec fn wf(&self) -> bool;

    /// The capacity, where the container's own storage fixes it; `None`
    /// where an allocator decides it.
    spec fn spec_capacity(&self) -> Option<nat>;

    /// The capacity of the storage that a new container starts out in,
    /// where the type fixes it.
    spec fn spec_inline() -> Option<nat>;

    /// The largest length that a container of this type can reach.
    spec fn spec_bound() -> nat;

    /// Whether the elements have left the container's own storage for one
    /// that was allocated apart from it. Only a container that starts out
    /// in storage of its own and can leave it ever says `true`.
    spec fn spilled(&self) -> bool;

    /// The bound of the type is a length that a `usize` can hold.
    proof fn lemma_bound()
        ensures
            Self::spec_bound() <= usize::MAX,
    ;

    /// A well-formed container is within its capacity, and its capacity is
    /// within the bound of its type.
    proof fn lemma_bounded(&self)
        requires
            self.wf(),
        ensures
            self.seq().len() <= Self::spec_bound(),
            self.spec_capacity() matches Some(c) ==> self.seq().len() <= c <= Self::spec_bound(),
    ;

    /// The largest length that a container of this type can reach.
    fn max_len() -> (n: usize)
        ensures
            n == Self::spec_bound(),
    ;

    /// An empty container in the storage that the type starts out in.
    fn new() -> (v: Self)
        ensures
            v.wf(),
            v.seq() == Seq::<Self::Item>::empty(),
            !v.spilled(),
            v.spec_capacity() == Self::spec_inline(),
    {
        Self::with_capacity(0)
    }

    /// An empty container with room for at least `cap` elements. It leaves
    /// the storage that the type starts out in exactly when that is too
    /// small for `cap` elements.
    fn with_capacity(cap: usize) -> (v: Self)
        requires
            cap <= Self::spec_bound(),
        ensures
            v.wf(),
            v.seq() == Seq::<Self::Item>::empty(),
            !outgrows(v.spec_capacity(), 0, cap as int),
            v.spilled() == outgrows(Self::spec_inline(), 0, cap as int),
            !v.spilled() ==> v.spec_capacity() == Self::spec_inline(),
    ;

    /// The number of elements the container can hold without reserving.
    fn capacity(&self) -> (c: usize)
        requires
            self.wf(),
        ensures
            self.seq().len() <= c,
            self.spec_capacity() matches Some(n) ==> c == n,
            c <= Self::spec_bound(),
    ;

    /// Makes room for `additional` more elements.
    fn reserve(&mut self, additional: usize)
        requires
            old(self).wf(),
            old(self).seq().len() + additional <= Self::spec_bound(),
        ensures
            final(self).wf(),
            final(self).seq() == old(self).seq(),
            old(self).seq().is_prefix_of(final(self).seq()),
            !outgrows(final(self).spec_capacity(), old(self).seq().len(), additional as int),
            old(self).spilled() ==> final(self).spilled(),
            final(self).spilled() == (old(self).spilled() || outgrows(
                old(self).spec_capacity(),
                old(self).seq().len(),
                additional as int,
            )),
            !outgrows(old(self).spec_capacity(), old(self).seq().len(), additional as int)
                ==> final(self).spec_capacity() == old(self).spec_capacity(),
    ;

    /// Makes room for `additional` more elements, without asking for more
    /// than that.
    fn reserve_exact(&mut self, additional: usize)
        requires
            old(self).wf(),
            old(self).seq().len() + additional <= Self::spec_bound(),
        ensures
            final(self).wf(),
            final(self).seq() == old(self).seq(),
            old(self).seq().is_prefix_of(final(self).seq()),
            !outgrows(final(self).spec_capacity(), old(self).seq().len(), additional as int),
            old(self).spilled() ==> final(self).spilled(),
            final(self).spilled() == (old(self).spilled() || outgrows(
                old(self).spec_capacity(),
                old(self).seq().len(),
                additional as int,
            )),
            !outgrows(old(self).spec_capacity(), old(self).seq().len(), additional as int)
                ==> final(self).spec_capacity() == old(self).spec_capacity(),
    ;

    /// Gives up room that is not needed; the elements stay as they are.
    fn shrink_to_fit(&mut self)
        requires
            old(self).wf(),
        ensures
            final(self).wf(),
            final(self).seq() == old(self).seq(),
            old(self).spec_capacity() is Some ==> final(self).spec_capacity() == old(self).spec_capacity(),
            final(self).spilled() == old(self).spilled(),
    ;

    /// The number of live elements.
    fn len(&self) -> (n: usize)
        requires
            self.wf(),
        ensures
            n == self.seq().len(),
    ;

    /// Writes `value` to the first free slot, which thereby becomes live.
    fn fill_slot(&mut self, value: Self::Item)
        requires
            old(self).wf(),
            old(self).spec_capacity() matches Some(c) ==> old(self).seq().len() < c,
        ensures
            final(self).wf(),
            final(self).seq() == old(self).seq().push(value),
            final(self).spec_capacity() == old(self).spec_capacity(),
            final(self).spilled() == old(self).spilled(),
    ;

    /// Moves the element out of the last live slot, which thereby becomes
    /// free.
    fn empty_slot(&mut self) -> (value: Self::Item)
        requires
            old(self).wf(),
            old(self).seq().len() > 0,
        ensures
            final(self).wf(),
            final(self).seq() == old(self).seq().drop_last(),
            value == old(self).seq().last(),
            final(self).spec_capacity() == old(self).spec_capacity(),
            final(self).spilled() == old(self).spilled(),
    ;

    /// Exchanges the elements of two live slots.
    fn swap_slots(&mut self, a: usize, b: usize)
        requires
            old(self).wf(),
            a < old(self).seq().len(),
            b < old(self).seq().len(),
        ensures
            final(self).wf(),
            final(self).seq() == old(self).seq().update(a as int, old(self).seq()[b as int]).update(
                b as int,
                old(self).seq()[a as int],
            ),
            final(self).spec_capacity() == old(self).spec_capacity(),
            final(self).spilled() == old(self).spilled(),
    ;

    /// The live elements as a slice.
    fn as_slice(&self) -> (s: &[Self::Item])
        requires
            self.wf(),
        ensures
            s@ == self.seq(),
    ;

    /// The live elements as a slice through which they can be changed in
    /// place. A slice keeps its length, so the container is as long
    /// afterwards as it was before.
    fn as_mut_slice(&mut self) -> (s: &mut [Self::Item])
        requires
            old(self).wf(),
        ensures
            s@ == old(self).seq(),
            final(self).seq() == final(s)@,
            final(s)@.len() == s@.len() ==> final(self).wf(),
            final(self).spec_capacity() == old(self).spec_capacity(),
            final(self).spilled() == old(self).spilled(),
    ;

    /// Shortens the container to `len` elements, destroying the others from
    /// the lowest index up; does nothing when it is no longer than that.
    fn truncate(&mut self, len: usize)
        requires
            old(self).wf(),
        ensures
            final(self).wf(),
            final(self).seq() == if len < old(self).seq().len() {
                old(self).seq().take(len as int)
            } else {
                old(self).seq()
            },
            final(self).spec_capacity() == old(self).spec_capacity(),
            final(self).spilled() == old(self).spilled(),
    {
        let s_len = self.len();
        if len < s_len {
            // With the tail turned around, taking from the end destroys it
            // from the lowest index up.
            let mut lo = len;
            let mut hi = s_len;
            while hi - lo > 1
                invariant
                    self.wf(),
                    len <= lo <= hi <= s_len,
                    self.seq().len() == s_len,
                    self.seq().take(len as int) == old(self).seq().take(len as int),
                    self.spec_capacity() == old(self).spec_capacity(),
                    self.spilled() == old(self).spilled(),
                decreases hi - lo,
            {
                self.swap_slots(lo, hi - 1);
                lo = lo + 1;
                hi = hi - 1;
                assert(self.seq().take(len as int) =~= old(self).seq().take(len as int));
            }
            let mut n = s_len;
            while n > len
                invariant
                    self.wf(),
                    len <= n <= s_len,
                    self.seq().len() == n,
                    self.seq().take(len as int) == old(self).seq().take(len as int),
                    self.spec_capacity() == old(self).spec_capacity(),
                    self.spilled() == old(self).spilled(),
                decreases n,
            {
                let _dead = self.empty_slot();
                n = n - 1;
                assert(self.seq().take(len as int) =~= old(self).seq().take(len as int));
            }
            assert(self.seq() =~= self.seq().take(len as int));
        }
    }

    /// Removes the element at `index` and returns it; the last element takes
    /// its place.
    fn swap_remove(&mut self, index: usize) -> (value: Self::Item)
        requires
            old(self).wf(),
            index < old(self).seq().len(),
        ensures
            final(self).wf(),
            value == old(self).seq()[index as int],
            final(self).seq() == old(self).seq().update(
                index as int,
                old(self).seq().last(),
            ).drop_last(),
            final(self).spec_capacity() == old(self).spec_capacity(),
            final(self).spilled() == old(self).spilled(),
    {
        let len = self.len();
        if index != len - 1 {
            self.swap_slots(index, len - 1);
        }
        self.empty_slot()
    }

    /// Appends `value`.
    fn push(&mut self, value: Self::Item)
        requires
            old(self).wf(),
            old(self).seq().len() < Self::spec_bound(),
        ensures
            final(self).wf(),
            final(self).seq() == old(self).seq().push(value),
            old(self).seq().is_prefix_of(final(self).seq()),
            old(self).spilled() ==> final(self).spilled(),
            final(self).spilled() == (old(self).spilled() || outgrows(
                old(self).spec_capacity(),
                old(self).seq().len(),
                1,
            )),
            !outgrows(old(self).spec_capacity(), old(self).seq().len(), 1)
                ==> final(self).spec_capacity() == old(self).spec_capacity(),
    {
        self.reserve(1);
        self.fill_slot(value);
    }

    /// Puts `element` at `index`; the elements from there on move up by
    /// one.
    fn insert(&mut self, index: usize, element: Self::Item)
        requires
            old(self).wf(),
            index <= old(self).seq().len(),
            old(self).seq().len() < Self::spec_bound(),
        ensures
            final(self).wf(),
            final(self).seq() == old(self).seq().insert(index as int, element),
            old(self).spilled() ==> final(self).spilled(),
            final(self).spilled() == (old(self).spilled() || outgrows(
                old(self).spec_capacity(),
                old(self).seq().len(),
                1,
            )),
            !outgrows(old(self).spec_capacity(), old(self).seq().len(), 1)
                ==> final(self).spec_capacity() == old(self).spec_capacity(),
    {
        self.reserve(1);
        let len = self.len();
        let ghost cap = self.spec_capacity();
        let ghost moved = self.spilled();
        let ghost e = element;
        self.fill_slot(element);
        let mut j = len;
        while j > index
            invariant
                self.wf(),
                index <= j <= len,
                len == old(self).seq().len(),
                self.seq() == old(self).seq().insert(j as int, e),
                self.spec_capacity() == cap,
                self.spilled() == moved,
            decreases j,
        {
            self.swap_slots(j - 1, j);
            j = j - 1;
            assert(self.seq() =~= old(self).seq().insert(j as int, e));
        }
    }

    /// Removes the element at `index` and returns it; the elements after it
    /// move down by one.
    fn remove(&mut self, index: usize) -> (value: Self::Item)
        requires
            old(self).wf(),
            index < old(self).seq().len(),
        ensures
            final(self).wf(),
            value == old(self).seq()[index as int],
            final(self).seq() == old(self).seq().remove(index as int),
            final(self).spec_capacity() == old(self).spec_capacity(),
            final(self).spilled() == old(self).spilled(),
    {
        let len = self.len();
        let mut j = index;
        assert(self.seq() =~= old(self).seq().remove(index as int).insert(
            j as int,
            old(self).seq()[index as int],
        ));
        while j < len - 1
            invariant
                self.wf(),
                index <= j < len,
                len == old(self).seq().len(),
                self.seq() == old(self).seq().remove(index as int).insert(
                    j as int,
                    old(self).seq()[index as int],
                ),
                self.spec_capacity() == old(self).spec_capacity(),
                self.spilled() == old(self).spilled(),
            decreases len - j,
        {
            self.swap_slots(j, j + 1);
            j = j + 1;
            assert(self.seq() =~= old(self).seq().remove(index as int).insert(
                j as int,
                old(self).seq()[index as int],
            ));
        }
        let value = self.empty_slot();
        assert(self.seq() =~= old(self).seq().remove(index as int));
        value
    }

    /// Removes the last element and returns it, if there is one.
    fn pop(&mut self) -> (value: Option<Self::Item>)
        requires
            old(self).wf(),
        ensures
            final(self).wf(),
            old(self).seq().len() == 0 ==> value is None && final(self).seq() == old(self).seq(),
            old(self).seq().len() > 0 ==> value == Some(old(self).seq().last()) && final(self).seq() == old(self).seq().drop_last(),
            final(self).spec_capacity() == old(self).spec_capacity(),
            final(self).spilled() == old(self).spilled(),
    {
        let len = self.len();
        if len == 0 {
            None
        } else {
            Some(self.swap_remove(len - 1))
        }
    }

    /// Destroys every element.
    #[inline]
    fn clear(&mut self)
        requires
            old(self).wf(),
        ensures
            final(self).wf(),
            final(self).seq() == Seq::<Self::Item>::empty(),
            final(self).spec_capacity() == old(self).spec_capacity(),
            final(self).spilled() == old(self).spilled(),
    {
        self.truncate(0)
    }

    /// Whether there is no element.
    #[inline]
    fn is_empty(&self) -> (b: bool)
        requires
            self.wf(),
        ensures
            b == (self.seq().len() == 0),
    {
        self.len() == 0
    }

    /// Keeps the elements for which `f` answers `true`, in their order, and
    /// destroys the others. `f` is asked once about each element, from the
    /// first to the last.
    fn retain<F: Fn(&Self::Item) -> bool>(&mut self, f: F)
        requires
            old(self).wf(),
            forall|i: int| 0 <= i < old(self).seq().len() ==> f.requires((&old(self).seq()[i],)),
        ensures
            final(self).wf(),
            exists|keep: Seq<bool>|
                {
                    &&& keep.len() == old(self).seq().len()
                    &&& forall|i: int|
                        0 <= i < keep.len() ==> f.ensures((&old(self).seq()[i],), #[trigger] keep[i])
                    &&& final(self).seq() == retained(old(self).seq(), keep)
                },
            forall|pred: spec_fn(Self::Item) -> bool|
                (forall|x: Self::Item, b: bool| #[trigger] f.ensures((&x,), b) ==> b == pred(x))
                    ==> final(self).seq() == #[trigger] old(self).seq().filter(pred),
            final(self).spec_capacity() == old(self).spec_capacity(),
            final(self).spilled() == old(self).spilled(),
    {
        let len = self.len();
        let mut del: usize = 0;
        let mut i: usize = 0;
        let ghost mut keep: Seq<bool> = Seq::empty();
        assert(self.seq().take(0) =~= retained(old(self).seq().take(0), keep));
        while i < len
            invariant
                self.wf(),
                del <= i <= len,
                len == old(self).seq().len(),
                self.seq().len() == len,
                keep.len() == i,
                forall|j: int| 0 <= j < i ==> f.ensures((&old(self).seq()[j],), #[trigger] keep[j]),
                forall|j: int|
                    0 <= j < old(self).seq().len() ==> f.requires((&old(self).seq()[j],)),
                self.seq().take(i - del) == retained(old(self).seq().take(i as int), keep),
                self.seq().skip(i as int) == old(self).seq().skip(i as int),
                self.spec_capacity() == old(self).spec_capacity(),
                self.spilled() == old(self).spilled(),
            decreases len - i,
        {
            let ghost before = self.seq();
            assert(before[i as int] == before.skip(i as int)[0]);
            assert(old(self).seq()[i as int] == old(self).seq().skip(i as int)[0]);
            let kept = f(&self.as_slice()[i]);
            if !kept {
                del = del + 1;
            } else if del > 0 {
                self.swap_slots(i - del, i);
            }
            proof {
                let s = old(self).seq();
                let grown = keep.push(kept);
                assert(s.take(i + 1).drop_last() =~= s.take(i as int));
                assert(grown.drop_last() =~= keep);
                assert(s.take(i + 1).last() == s[i as int]);
                if kept {
                    assert(self.seq().take(i + 1 - del) =~= before.take(i - del).push(s[i as int]));
                } else {
                    assert(self.seq().take(i + 1 - del) =~= before.take(i - (del - 1)));
                }
                assert(self.seq().skip(i + 1) =~= before.skip(i as int).skip(1));
                assert(s.skip(i + 1) =~= s.skip(i as int).skip(1));
                keep = grown;
            }
            i = i + 1;
        }
        assert(old(self).seq().take(len as int) =~= old(self).seq());
        if del > 0 {
            self.truncate(len - del);
        } else {
            assert(self.seq().take(len as int) =~= self.seq());
        }
        assert forall|pred: spec_fn(Self::Item) -> bool|
            (forall|x: Self::Item, b: bool| #[trigger] f.ensures((&x,), b) ==> b == pred(
                x,
            )) implies self.seq() == #[trigger] old(self).seq().filter(pred) by {
            lemma_retained_filter(old(self).seq(), keep, pred);
        }
    }

    /// Appends the elements of `other`, in their order.
    fn extend(&mut self, other: Vec<Self::Item>)
        requires
            old(self).wf(),
            old(self).seq().len() + other@.len() <= Self::spec_bound(),
        ensures
            final(self).wf(),
            final(self).seq() == old(self).seq() + other@,
            old(self).seq().is_prefix_of(final(self).seq()),
            old(self).spilled() ==> final(self).spilled(),
            final(self).spilled() == (old(self).spilled() || outgrows(
                old(self).spec_capacity(),
                old(self).seq().len(),
                other@.len() as int,
            )),
            !outgrows(old(self).spec_capacity(), old(self).seq().len(), other@.len() as int)
                ==> final(self).spec_capacity() == old(self).spec_capacity(),
    {
        let mut rest = other;
        let count = Vec::len(&rest);
        self.reserve(count);
        // Taking from the end of the turned vector yields the elements
        // first to last.
        reverse(&mut rest);
        let ghost cap = self.spec_capacity();
        let ghost moved = self.spilled();
        let mut done: usize = 0;
        while done < count
            invariant
                self.wf(),
                done <= count,
                count == other@.len(),
                rest@ == other@.reverse().take(count - done),
                self.seq() == old(self).seq() + other@.take(done as int),
                old(self).seq().len() + other@.len() <= Self::spec_bound(),
                self.spec_capacity() == cap,
                self.spilled() == moved,
                cap matches Some(c) ==> old(self).seq().len() + count <= c,
            decreases count - done,
        {
            let value = rest.pop().unwrap();
            self.push(value);
            done = done + 1;
            assert(rest@ =~= other@.reverse().take(count - done));
            assert(self.seq() =~= old(self).seq() + other@.take(done as int));
        }
        assert(other@.take(count as int) =~= other@);
    }

    /// A container with the elements of `items`, in their order.
    fn from_elements(items: Vec<Self::Item>) -> (v: Self)
        requires
            items@.len() <= Self::spec_bound(),
        ensures
            v.wf(),
            v.seq() == items@,
    {
        let mut v = Self::new();
        v.extend(items);
        assert(v.seq() =~= items@);
        v
    }

    /// Appends `value` if the container is shorter than `cap`; otherwise
    /// hands it back.
    fn push_below(&mut self, cap: usize, value: Self::Item) -> (r: Result<(), Self::Item>)
        requires
            old(self).wf(),
            cap <= Self::spec_bound(),
        ensures
            final(self).wf(),
            old(self).seq().len() < cap ==> r is Ok && final(self).seq() == old(self).seq().push(
                value,
            ),
            old(self).seq().len() >= cap ==> r is Err && r->Err_0 == value && final(self).seq()
                == old(self).seq(),
            old(self).spilled() ==> final(self).spilled(),
            final(self).spilled() == (old(self).spilled() || (old(self).seq().len() < cap
                && outgrows(old(self).spec_capacity(), old(self).seq().len(), 1))),
            old(self).seq().len() >= cap || !outgrows(
                old(self).spec_capacity(),
                old(self).seq().len(),
                1,
            ) ==> final(self).spec_capacity() == old(self).spec_capacity(),
    {
        if self.len() < cap {
            self.push(value);
            Ok(())
        } else {
            Err(value)
        }
    }

    /// Appends `value` if that needs no new storage; otherwise hands it
    /// back. Where the capacity is fixed, the container accepts the value
    /// exactly when it is not full.
    fn push_cap(&mut self, value: Self::Item) -> (r: Result<(), Self::Item>)
        requires
            old(self).wf(),
        ensures
            final(self).wf(),
            r is Ok ==> final(self).seq() == old(self).seq().push(value),
            r is Err ==> r->Err_0 == value && final(self).seq() == old(self).seq(),
            old(self).spec_capacity() matches Some(c) ==> (r is Ok <==> old(self).seq().len() < c),
            final(self).spec_capacity() == old(self).spec_capacity(),
            final(self).spilled() == old(self).spilled(),
    {
        let cap = self.capacity();
        self.push_below(cap, value)
    }

    /// Puts `element` at `index` as a container with room for `cap`
    /// elements would without growing: see [`insert_cap_outcome`].
    fn insert_below(&mut self, cap: usize, index: usize, element: Self::Item) -> (r: Option<
        Self::Item,
    >)
        requires
            old(self).wf(),
            cap <= Self::spec_bound(),
            index < cap ==> index <= old(self).seq().len(),
        ensures
            final(self).wf(),
            (r, final(self).seq()) == insert_cap_outcome(
                old(self).seq(),
                cap as int,
                index as int,
                element,
            ),
            old(self).spilled() ==> final(self).spilled(),
            final(self).spilled() == (old(self).spilled() || (index < cap && old(self).seq().len()
                < cap && outgrows(old(self).spec_capacity(), old(self).seq().len(), 1))),
            index >= cap || old(self).seq().len() >= cap || !outgrows(
                old(self).spec_capacity(),
                old(self).seq().len(),
                1,
            ) ==> final(self).spec_capacity() == old(self).spec_capacity(),
    {
        if index >= cap {
            return Some(element);
        }
        proof {
            self.lemma_bounded();
        }
        let ret = if self.len() < cap {
            None
        } else {
            self.pop()
        };
        self.insert(index, element);
        ret
    }

    /// Puts `element` at `index` without ever growing the storage. An index
    /// at or beyond the capacity is refused and the element comes back. In
    /// a full container the last element gives way and is returned.
    fn insert_cap(&mut self, index: usize, element: Self::Item) -> (r: Option<Self::Item>)
        requires
            old(self).wf(),
            index <= old(self).seq().len() || (old(self).spec_capacity() matches Some(c) && index
                >= c),
        ensures
            final(self).wf(),
            exists|cap: int|
                {
                    &&& old(self).seq().len() <= cap
                    &&& old(self).spec_capacity() matches Some(c) ==> cap == c
                    &&& (r, final(self).seq()) == #[trigger] insert_cap_outcome(
                        old(self).seq(),
                        cap,
                        index as int,
                        element,
                    )
                },
            final(self).spec_capacity() == old(self).spec_capacity(),
            final(self).spilled() == old(self).spilled(),
    {
        let cap = self.capacity();
        self.insert_below(cap, index, element)
    }
}

/// What `shrink_to_fit` may make of a container: the elements, the kind of
/// storage and a fixed capacity stay as they are.
pub open spec fn shrunk<V: Vector>(before: V, after: V) -> bool {
    &&& after.wf()
    &&& after.seq() == before.seq()
    &&& after.spilled() == before.spilled()
    &&& before.spec_capacity() is Some ==> after.spec_capacity() == before.spec_capacity()
}

/// What `clear` makes of a container: it is empty, in the same storage.
pub open spec fn cleared<V: Vector>(before: V, after: V) -> bool {
    &&& after.wf()
    &&& after.seq() == Seq::<V::Item>::empty()
    &&& after.spilled() == before.spilled()
    &&& after.spec_capacity() == before.spec_capacity()
}

/// Shrinking twice leaves what shrinking once leaves.
pub proof fn lemma_shrink_twice<V: Vector>(a: V, b: V, c: V)
    requires
        shrunk(a, b),
        shrunk(b, c),
    ensures
        shrunk(a, c),
        c.seq() == b.seq(),
        c.spilled() == b.spilled(),
        b.spec_capacity() is Some ==> c.spec_capacity() == b.spec_capacity(),
{
}

/// Clearing twice leaves what clearing once leaves: an empty container.
pub proof fn lemma_clear_twice<V: Vector>(a: V, b: V, c: V)
    requires
        cleared(a, b),
        cleared(b, c),
    ensures
        cleared(a, c),
        c.seq() == b.seq(),
        c.spilled() == b.spilled(),
        c.spec_capacity() == b.spec_capacity(),
{
}

/// Whether room for `n` elements of type `E` fits into memory: it must not
/// take more than `isize::MAX` bytes.
fn within_memory<E>(n: usize) -> (b: bool)
    ensures
        b == (n * size_of::<E>() <= isize::MAX),
{
    let size = core::mem::size_of::<E>();
    let most = isize::MAX as usize;
    if size == 0 {
        assert(n * size == 0);
        true
    } else {
        assert(n <= most / size <==> n * size <= most) by (nonlinear_arith)
            requires
                size > 0,
        ;
        n <= most / size
    }
}

/// `Vec::capacity`: the vector can hold at least as many elements as it
/// holds now.
#[verifier::external_body]
fn vec_capacity<E>(v: &Vec<E>) -> (c: usize)
    ensures
        v@.len() <= c,
{
    v.capacity()
}

/// `Vec::reserve_exact`: the elements stay as they are. The call panics
/// where the capacity asked for takes more than `isize::MAX` bytes, so
/// that is left out.
#[verifier::external_body]
fn vec_reserve_exact<E>(v: &mut Vec<E>, additional: usize)
    requires
        old(v)@.len() + additional <= usize::MAX,
        (old(v)@.len() + additional) * size_of::<E>() <= isize::MAX,
    ensures
        final(v)@ == old(v)@,
{
    v.reserve_exact(additional)
}

/// `Vec::shrink_to_fit`: the elements stay as they are.
#[verifier::external_body]
fn vec_shrink_to_fit<E>(v: &mut Vec<E>)
    ensures
        final(v)@ == old(v)@,
{
    v.shrink_to_fit()
}

/// `<[X]>::swap`: the elements at the two indices change places, and
/// nothing else changes.
pub assume_specification<X>[ <[X]>::swap ](s: &mut [X], a: usize, b: usize)
    requires
        a < old(s)@.len(),
        b < old(s)@.len(),
    ensures
        final(s)@ == old(s)@.update(a as int, old(s)@[b as int]).update(b as int, old(s)@[a as int]),
;

/// The growable vector of the standard library. Its storage comes from the
/// allocator, so nothing fixes its capacity.
impl<T> Vector for Vec<T> {
    type Item = T;

    open spec fn seq(&self) -> Seq<T> {
        self@
    }

    open spec fn wf(&self) -> bool {
        true
    }

    open spec fn spec_capacity(&self) -> Option<nat> {
        None
    }

    open spec fn spec_inline() -> Option<nat> {
        None
    }

    open spec fn spec_bound() -> nat {
        usize::MAX as nat
    }

    open spec fn spilled(&self) -> bool {
        false
    }

    proof fn lemma_bound() {
    }

    proof fn lemma_bounded(&self) {
        broadcast use vstd::std_specs::vec::axiom_spec_len;

        assert(self.len() == self@.len());
    }

    #[inline]
    fn max_len() -> (n: usize) {
        usize::MAX
    }

    #[inline]
    fn new() -> (v: Self) {
        assert(Self::spec_inline() == None::<nat>);
        Vec::new()
    }

    /// Without room where `cap` elements are more than fit into memory.
    #[inline]
    fn with_capacity(cap: usize) -> (v: Self) {
        if within_memory::<T>(cap) {
            Vec::with_capacity(cap)
        } else {
            Vec::new()
        }
    }

    #[inline]
    fn capacity(&self) -> (c: usize) {
        vec_capacity(self)
    }

    /// Asks for nothing where the room asked for is more than fits into
    /// memory.
    #[inline]
    fn reserve(&mut self, additional: usize) {
        if within_memory::<T>(Vec::len(self) + additional) {
            Vec::reserve(self, additional)
        }
    }

    /// Asks for nothing where the room asked for is more than fits into
    /// memory.
    #[inline]
    fn reserve_exact(&mut self, additional: usize) {
        if within_memory::<T>(Vec::len(self) + additional) {
            vec_reserve_exact(self, additional)
        }
    }

    #[inline]
    fn shrink_to_fit(&mut self) {
        vec_shrink_to_fit(self)
    }

    #[inline]
    fn len(&self) -> (n: usize) {
        Vec::len(self)
    }

    #[inline]
    fn fill_slot(&mut self, value: T) {
        Vec::push(self, value)
    }

    #[inline]
    fn empty_slot(&mut self) -> (value: T) {
        Vec::pop(self).unwrap()
    }

    #[inline]
    fn swap_slots(&mut self, a: usize, b: usize) {
        Vec::as_mut_slice(self).swap(a, b)
    }

    #[inline]
    fn as_slice(&self) -> (s: &[T]) {
        Vec::as_slice(self)
    }

    #[inline]
    fn as_mut_slice(&mut self) -> (s: &mut [T]) {
        Vec::as_mut_slice(self)
    }

    #[inline]
    fn truncate(&mut self, len: usize) {
        Vec::truncate(self, len)
    }

    #[inline]
    fn swap_remove(&mut self, index: usize) -> (value: T) {
        Vec::swap_remove(self, index)
    }

    #[inline]
    fn insert(&mut self, index: usize, element: T) {
        Vec::insert(self, index, element)
    }

    #[inline]
    fn remove(&mut self, index: usize) -> (value: T) {
        Vec::remove(self, index)
    }

    #[inline]
    fn push(&mut self, value: T) {
        Vec::push(self, value)
    }

    #[inline]
    fn pop(&mut self) -> (value: Option<T>) {
        Vec::pop(self)
    }

    #[inline]
    fn clear(&mut self) {
        Vec::clear(self)
    }

    #[inline]
    fn is_empty(&self) -> (b: bool) {
        Vec::is_empty(self)
    }

    #[inline]
    fn extend(&mut self, other: Vec<T>) {
        let mut other = other;
        Vec::append(self, &mut other)
    }
}

} // verus!
