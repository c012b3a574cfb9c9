//! Fixed-size storage shapes and the compact integers that index them.
//!
//! A bounded container is parameterised by an array type `[T; N]`. The array
//! type fixes the capacity `N` and, through [`IndexFor`], the narrowest
//! unsigned integer that the container uses for its length field.
use vstd::prelude::*;

verus! {

/// An unsigned integer that can serve as the length field of a bounded
/// container.
pub trait ArrayIndex: Sized + Copy {
    /// The largest value the type can hold.
    spec fn spec_max() -> nat;

    /// The width of the type in bytes.
    spec fn spec_bytes() -> nat;

    /// The number this index stands for.
    spec fn as_nat(self) -> nat;

    /// Every index lies within the range of its type, which in turn lies
    /// within the range of `usize`.
    proof fn lemma_in_range(self)
        ensures
            self.as_nat() <= Self::spec_max(),
            Self::spec_max() <= usize::MAX,
    ;

    /// Two indices that stand for the same number are the same index.
    proof fn lemma_injective(self, other: Self)
        requires
            self.as_nat() == other.as_nat(),
        ensures
            self == other,
    ;

    /// Widens the index to a `usize` without loss.
    fn to_usize(self) -> (u: usize)
        ensures
            u == self.as_nat(),
    ;

    /// Narrows a `usize` to the index type, keeping the low-order bits; a
    /// value within the range of the type is kept as it is.
    fn from_usize(u: usize) -> (i: Self)
        ensures
            i.as_nat() == u as nat % (Self::spec_max() + 1),
    ;
}

impl ArrayIndex for u8 {
    open spec fn spec_max() -> nat {
        0xff
    }

    open spec fn spec_bytes() -> nat {
        1
    }

    open spec fn as_nat(self) -> nat {
        self as nat
    }

    proof fn lemma_in_range(self) {
    }

    proof fn lemma_injective(self, other: Self) {
    }

    #[inline]
    fn to_usize(self) -> (u: usize) {
        self as usize
    }

    #[inline]
    fn from_usize(u: usize) -> (i: Self) {
        assert(u as u8 == u % 0x100) by (bit_vector);
        u as u8
    }
}

impl ArrayIndex for u16 {
    open spec fn spec_max() -> nat {
        0xffff
    }

    open spec fn spec_bytes() -> nat {
        2
    }

    open spec fn as_nat(self) -> nat {
        self as nat
    }

    proof fn lemma_in_range(self) {
    }

    proof fn lemma_injective(self, other: Self) {
    }

    #[inline]
    fn to_usize(self) -> (u: usize) {
        self as usize
    }

    #[inline]
    fn from_usize(u: usize) -> (i: Self) {
        assert(u as u16 == u % 0x10000) by (bit_vector);
        u as u16
    }
}

impl ArrayIndex for u32 {
    open spec fn spec_max() -> nat {
        0xffff_ffff
    }

    open spec fn spec_bytes() -> nat {
        4
    }

    open spec fn as_nat(self) -> nat {
        self as nat
    }

    proof fn lemma_in_range(self) {
    }

    proof fn lemma_injective(self, other: Self) {
    }

    #[inline]
    fn to_usize(self) -> (u: usize) {
        self as usize
    }

    #[inline]
    fn from_usize(u: usize) -> (i: Self) {
        assert((u as u32) as u64 == (u as u64) % 0x1_0000_0000u64) by (bit_vector);
        u as u32
    }
}

/// The width in bytes of the length field of a container with `n` slots:
/// one byte up to 128 slots, two bytes up to 32768 slots, four bytes beyond.
pub open spec fn index_bytes(n: nat) -> nat {
    if n <= 0x80 {
        1
    } else if n <= 0x8000 {
        2
    } else {
        4
    }
}

/// Marker on which the supported capacities are declared.
pub struct Capacity;

/// Declares that `N` is a supported capacity and names the integer type
/// that indexes `0..=N`.
pub trait IndexFor<const N: usize> {
    type Index: ArrayIndex;

    /// The index type can count up to `N` and has the width that
    /// [`index_bytes`] prescribes for `N`.
    proof fn lemma_index()
        ensures
            N <= <Self::Index as ArrayIndex>::spec_max(),
            <Self::Index as ArrayIndex>::spec_bytes() == index_bytes(N as nat),
    ;
}

/// A bag of `spec_len()` slots of type `Item`, together with the index type
/// chosen for that many slots.
pub trait Array: Sized {
    type Item;

    type Index: ArrayIndex;

    /// The number of slots.
    spec fn spec_len() -> nat;

    /// The contents of a fully initialised value, slot by slot.
    spec fn elems(&self) -> Seq<Self::Item>;

    /// The index type can count up to the number of slots and is the one
    /// that [`index_bytes`] prescribes.
    proof fn lemma_index()
        ensures
            Self::spec_len() <= <Self::Index as ArrayIndex>::spec_max(),
            Self::spec_len() <= usize::MAX,
            <Self::Index as ArrayIndex>::spec_bytes() == index_bytes(Self::spec_len()),
    ;

    /// A value has exactly `spec_len()` slots.
    proof fn lemma_elems(&self)
        ensures
            self.elems().len() == Self::spec_len(),
    ;

    /// A value is determined by the contents of its slots.
    proof fn lemma_ext(&self, other: &Self)
        requires
            self.elems() == other.elems(),
        ensures
            self == other,
    ;

    /// The number of slots.
    fn len() -> (n: usize)
        ensures
            n == Self::spec_len(),
    ;

    /// Moves the contents out, slot by slot and in order.
    fn into_vec(self) -> (v: Vec<Self::Item>)
        ensures
            v@ == self.elems(),
    ;

    /// Fills every slot from `v`, in order, when `v` has exactly one
    /// element per slot; otherwise hands `v` back.
    fn from_vec(v: Vec<Self::Item>) -> (r: Result<Self, Vec<Self::Item>>)
        ensures
            v@.len() == Self::spec_len() ==> r is Ok && r->Ok_0.elems() == v@,
            v@.len() != Self::spec_len() ==> r is Err && r->Err_0 == v,
    ;
}

/// `Vec::from` applied to an array: the vector holds the array's elements
/// in the array's order.
#[verifier::external_body]
fn array_to_vec<E, const N: usize>(a: [E; N]) -> (v: Vec<E>)
    ensures
        v@ == a@,
{
    Vec::from(a)
}

/// `<[E; N]>::try_from` applied to a vector: an array with the vector's
/// elements in order when the vector has exactly `N` of them, else the
/// vector itself.
#[verifier::external_body]
fn vec_to_array<E, const N: usize>(v: Vec<E>) -> (r: Result<[E; N], Vec<E>>)
    ensures
        v@.len() == N ==> r is Ok && r->Ok_0@ == v@,
        v@.len() != N ==> r is Err && r->Err_0 == v,
{
    <[E; N]>::try_from(v)
}

impl<T, const N: usize> Array for [T; N] where Capacity: IndexFor<N> {
    type Item = T;

    type Index = <Capacity as IndexFor<N>>::Index;

    open spec fn spec_len() -> nat {
        N as nat
    }

    open spec fn elems(&self) -> Seq<T> {
        self@
    }

    proof fn lemma_index() {
        <Capacity as IndexFor<N>>::lemma_index();
    }

    proof fn lemma_elems(&self) {
    }

    proof fn lemma_ext(&self, other: &Self) {
        assert(*self =~= *other);
    }

    #[inline]
    fn len() -> (n: usize) {
        N
    }

    fn into_vec(self) -> (v: Vec<T>) {
        array_to_vec(self)
    }

    fn from_vec(v: Vec<T>) -> (r: Result<Self, Vec<T>>) {
        vec_to_array(v)
    }
}

impl IndexFor<0> for Capacity {
    type Index = u8;

    proof fn lemma_index() {
    }
}

impl IndexFor<1> for Capacity {
    type Index = u8;

    proof fn lemma_index() {
    }
}

impl IndexFor<2> for Capacity {
    type Index = u8;

    proof fn lemma_index() {
    }
}

impl IndexFor<3> for Capacity {
    type Index = u8;

    proof fn lemma_index() {
    }
}

impl IndexFor<4> for Capacity {
    type Index = u8;

    proof fn lemma_index() {
    }
}

impl IndexFor<5> for Capacity {
    type Index = u8;

    proof fn lemma_index() {
    }
}

impl IndexFor<6> for Capacity {
    type Index = u8;

    proof fn lemma_index() {
    }
}

impl IndexFor<7> for Capacity {
    type Index = u8;

    proof fn lemma_index() {
    }
}

impl IndexFor<8> for Capacity {
    type Index = u8;

    proof fn lemma_index() {
    }
}

impl IndexFor<9> for Capacity {
    type Index = u8;

    proof fn lemma_index() {
    }
}

impl IndexFor<10> for Capacity {
    type Index = u8;

    proof fn lemma_index() {
    }
}

impl IndexFor<11> for Capacity {
    type Index = u8;

    proof fn lemma_index() {
    }
}

impl IndexFor<12> for Capacity {
    type Index = u8;

    proof fn lemma_index() {
    }
}

impl IndexFor<13> for Capacity {
    type Index = u8;

    proof fn lemma_index() {
    }
}

impl IndexFor<14> for Capacity {
    type Index = u8;

    proof fn lemma_index() {
    }
}

impl IndexFor<15> for Capacity {
    type Index = u8;

    proof fn lemma_index() {
    }
}

impl IndexFor<16> for Capacity {
    type Index = u8;

    proof fn lemma_index() {
    }
}

impl IndexFor<17> for Capacity {
    type Index = u8;

    proof fn lemma_index() {
    }
}

impl IndexFor<18> for Capacity {
    type Index = u8;

    proof fn lemma_index() {
    }
}

impl IndexFor<19> for Capacity {
    type Index = u8;

    proof fn lemma_index() {
    }
}

impl IndexFor<20> for Capacity {
    type Index = u8;

    proof fn lemma_index() {
    }
}

impl IndexFor<21> for Capacity {
    type Index = u8;

    proof fn lemma_index() {
    }
}

impl IndexFor<22> for Capacity {
    type Index = u8;

    proof fn lemma_index() {
    }
}

impl IndexFor<23> for Capacity {
    type Index = u8;

    proof fn lemma_index() {
    }
}

impl IndexFor<24> for Capacity {
    type Index = u8;

    proof fn lemma_index() {
    }
}

impl IndexFor<25> for Capacity {
    type Index = u8;

    proof fn lemma_index() {
    }
}

impl IndexFor<26> for Capacity {
    type Index = u8;

    proof fn lemma_index() {
    }
}

impl IndexFor<27> for Capacity {
    type Index = u8;

    proof fn lemma_index() {
    }
}

impl IndexFor<28> for Capacity {
    type Index = u8;

    proof fn lemma_index() {
    }
}

impl IndexFor<29> for Capacity {
    type Index = u8;

    proof fn lemma_index() {
    }
}

impl IndexFor<30> for Capacity {
    type Index = u8;

    proof fn lemma_index() {
    }
}

impl IndexFor<31> for Capacity {
    type Index = u8;

    proof fn lemma_index() {
    }
}

impl IndexFor<32> for Capacity {
    type Index = u8;

    proof fn lemma_index() {
    }
}

impl IndexFor<0x40> for Capacity {
    type Index = u8;

    proof fn lemma_index() {
    }
}

impl IndexFor<0x80> for Capacity {
    type Index = u8;

    proof fn lemma_index() {
    }
}

impl IndexFor<0x100> for Capacity {
    type Index = u16;

    proof fn lemma_index() {
    }
}

impl IndexFor<0x200> for Capacity {
    type Index = u16;

    proof fn lemma_index() {
    }
}

impl IndexFor<0x400> for Capacity {
    type Index = u16;

    proof fn lemma_index() {
    }
}

impl IndexFor<0x800> for Capacity {
    type Index = u16;

    proof fn lemma_index() {
    }
}

impl IndexFor<0x1000> for Capacity {
    type Index = u16;

    proof fn lemma_index() {
    }
}

impl IndexFor<0x2000> for Capacity {
    type Index = u16;

    proof fn lemma_index() {
    }
}

impl IndexFor<0x4000> for Capacity {
    type Index = u16;

    proof fn lemma_index() {
    }
}

impl IndexFor<0x8000> for Capacity {
    type Index = u16;

    proof fn lemma_index() {
    }
}

impl IndexFor<0x10000> for Capacity {
    type Index = u32;

    proof fn lemma_index() {
    }
}

impl IndexFor<0x20000> for Capacity {
    type Index = u32;

    proof fn lemma_index() {
    }
}

impl IndexFor<0x40000> for Capacity {
    type Index = u32;

    proof fn lemma_index() {
    }
}

impl IndexFor<0x80000> for Capacity {
    type Index = u32;

    proof fn lemma_index() {
    }
}

impl IndexFor<0x100000> for Capacity {
    type Index = u32;

    proof fn lemma_index() {
    }
}

impl IndexFor<0x200000> for Capacity {
    type Index = u32;

    proof fn lemma_index() {
    }
}

impl IndexFor<0x400000> for Capacity {
    type Index = u32;

    proof fn lemma_index() {
    }
}

impl IndexFor<0x800000> for Capacity {
    type Index = u32;

    proof fn lemma_index() {
    }
}

impl IndexFor<0x1000000> for Capacity {
    type Index = u32;

    proof fn lemma_index() {
    }
}

} // verus!
