use stack::{Array, ArrayIndex, ArrayVec, ArrayVecIntoIter, SmallVec, Storage, Vector};
use std::cell::{Cell, RefCell};
use std::mem::size_of;

// Counts its own destruction.
struct Counted<'a>(&'a Cell<usize>);

impl<'a> Drop for Counted<'a> {
    fn drop(&mut self) {
        self.0.set(self.0.get() + 1);
    }
}

// Writes its number to a log when it is destroyed.
struct Logged<'a>(usize, &'a RefCell<Vec<usize>>);

impl<'a> Drop for Logged<'a> {
    fn drop(&mut self) {
        self.1.borrow_mut().push(self.0);
    }
}

fn filled(n: i32) -> ArrayVec<[i32; 8]> {
    ArrayVec::from_elements((0..n).collect())
}

#[test]
fn drop_counts_three() {
    let count = Cell::new(0);
    {
        let mut v = ArrayVec::<[Counted; 3]>::new();
        v.push(Counted(&count));
        v.push(Counted(&count));
        v.push(Counted(&count));
        assert_eq!(count.get(), 0);
    }
    assert_eq!(count.get(), 3);
}

#[test]
fn every_element_is_destroyed_once() {
    let count = Cell::new(0);
    {
        let mut v = SmallVec::<[Counted; 2]>::new();
        for _ in 0..5 {
            v.push(Counted(&count));
        }
        assert!(v.is_spilled());
        assert_eq!(count.get(), 0);
        drop(v.pop());
        assert_eq!(count.get(), 1);
        drop(v.swap_remove(0));
        assert_eq!(count.get(), 2);
        drop(v.remove(0));
        assert_eq!(count.get(), 3);
    }
    assert_eq!(count.get(), 5);
}

#[test]
fn truncate_destroys_from_the_lowest_index_up() {
    let log = RefCell::new(Vec::new());
    let mut v = ArrayVec::<[Logged; 8]>::new();
    for i in 0..6 {
        v.push(Logged(i, &log));
    }
    v.truncate(2);
    assert_eq!(*log.borrow(), vec![2, 3, 4, 5]);
    assert_eq!(v.len(), 2);
    assert_eq!(v[0].0, 0);
    assert_eq!(v[1].0, 1);
    v.truncate(5);
    assert_eq!(v.len(), 2);
    assert_eq!(log.borrow().len(), 4);
}

#[test]
fn truncate_to_the_length_changes_nothing() {
    let mut v = filled(4);
    v.truncate(4);
    assert_eq!(&v[..], &[0, 1, 2, 3]);
    v.truncate(9);
    assert_eq!(&v[..], &[0, 1, 2, 3]);
    v.truncate(0);
    assert!(v.is_empty());
}

#[test]
fn swap_remove_moves_the_last_element_in() {
    let mut v = filled(5);
    assert_eq!(v.swap_remove(1), 1);
    assert_eq!(&v[..], &[0, 4, 2, 3]);
    assert_eq!(v.swap_remove(3), 3);
    assert_eq!(&v[..], &[0, 4, 2]);
}

#[test]
fn remove_closes_the_gap() {
    let mut v = filled(5);
    assert_eq!(v.remove(1), 1);
    assert_eq!(&v[..], &[0, 2, 3, 4]);
    assert_eq!(v.remove(3), 4);
    assert_eq!(&v[..], &[0, 2, 3]);
    assert_eq!(v.remove(0), 0);
    assert_eq!(&v[..], &[2, 3]);
}

#[test]
fn insert_opens_a_gap() {
    let mut v = filled(3);
    v.insert(0, 7);
    assert_eq!(&v[..], &[7, 0, 1, 2]);
    v.insert(4, 8);
    assert_eq!(&v[..], &[7, 0, 1, 2, 8]);
    v.insert(2, 9);
    assert_eq!(&v[..], &[7, 0, 9, 1, 2, 8]);
}

#[test]
fn pop_on_empty_is_none() {
    let mut v = ArrayVec::<[u8; 2]>::new();
    assert_eq!(v.pop(), None);
    v.push(4);
    assert_eq!(v.pop(), Some(4));
    assert_eq!(v.pop(), None);
}

#[test]
fn retain_keeps_order_and_destroys_the_rest() {
    let log = RefCell::new(Vec::new());
    let mut v = ArrayVec::<[Logged; 8]>::new();
    for i in 0..7 {
        v.push(Logged(i, &log));
    }
    v.retain(|x| x.0 % 3 != 0);
    assert_eq!(v.iter().map(|x| x.0).collect::<Vec<_>>(), vec![1, 2, 4, 5]);
    let mut gone = log.borrow().clone();
    gone.sort();
    assert_eq!(gone, vec![0, 3, 6]);
}

#[test]
fn retain_all_and_none() {
    let mut v = filled(4);
    v.retain(|_| true);
    assert_eq!(&v[..], &[0, 1, 2, 3]);
    v.retain(|_| false);
    assert!(v.is_empty());
}

#[test]
fn retain_asks_once_about_each_element_in_order() {
    let asked = RefCell::new(Vec::new());
    let mut v = filled(5);
    v.retain(|x| {
        asked.borrow_mut().push(*x);
        *x != 1
    });
    assert_eq!(*asked.borrow(), vec![0, 1, 2, 3, 4]);
    assert_eq!(&v[..], &[0, 2, 3, 4]);
}

#[test]
fn push_cap_hands_the_value_back_when_full() {
    let mut v = ArrayVec::<[u8; 4096]>::new();
    for _ in 0..4096 {
        assert_eq!(v.push_cap(1), Ok(()));
    }
    assert_eq!(v.push_cap(1), Err(1));
    assert_eq!(v.len(), 4096);
}

#[test]
fn insert_cap_displaces_the_tail() {
    let mut v = ArrayVec::<[i32; 3]>::from([0, 1, 2]);
    assert_eq!(v.insert_cap(1, 9), Some(2));
    assert_eq!(&v[..], &[0, 9, 1]);
    assert_eq!(v.insert_cap(3, 5), Some(5));
    assert_eq!(&v[..], &[0, 9, 1]);
    let mut w = ArrayVec::<[i32; 3]>::new();
    assert_eq!(w.insert_cap(0, 4), None);
    assert_eq!(&w[..], &[4]);
}

#[test]
fn insert_cap_never_spills() {
    let mut v = SmallVec::<[i32; 2]>::new();
    assert_eq!(v.insert_cap(0, 1), None);
    assert_eq!(v.insert_cap(0, 2), None);
    assert_eq!(v.insert_cap(0, 3), Some(1));
    assert_eq!(&v[..], &[3, 2]);
    assert_eq!(v.push_cap(7), Err(7));
    assert!(!v.is_spilled());
}

#[test]
fn below_a_given_capacity() {
    let mut v: Vec<i32> = vec![1, 2];
    assert_eq!(v.push_below(2, 3), Err(3));
    assert_eq!(v.push_below(3, 3), Ok(()));
    assert_eq!(v, vec![1, 2, 3]);
    assert_eq!(v.insert_below(3, 3, 9), Some(9));
    assert_eq!(v.insert_below(3, 1, 9), Some(3));
    assert_eq!(v, vec![1, 9, 2]);
    assert_eq!(v.insert_below(4, 0, 8), None);
    assert_eq!(v, vec![8, 1, 9, 2]);
}

#[test]
fn the_standard_vector_as_a_sequence() {
    let mut v: Vec<u8> = Vector::with_capacity(4);
    assert!(Vector::capacity(&v) >= 4);
    Vector::push(&mut v, 1);
    Vector::push(&mut v, 2);
    Vector::push(&mut v, 3);
    v.swap_slots(0, 2);
    assert_eq!(v, vec![3, 2, 1]);
    Vector::reserve_exact(&mut v, 100);
    assert!(Vector::capacity(&v) >= 103);
    assert_eq!(v, vec![3, 2, 1]);
    Vector::shrink_to_fit(&mut v);
    assert!(Vector::capacity(&v) >= 3);
    assert_eq!(v, vec![3, 2, 1]);
    v.fill_slot(9);
    assert_eq!(v.empty_slot(), 9);
    Vector::extend(&mut v, vec![5, 6]);
    assert_eq!(v, vec![3, 2, 1, 5, 6]);
    Vector::retain(&mut v, |x| *x > 2);
    assert_eq!(v, vec![3, 5, 6]);
    // room that no memory can give is not asked for
    let mut w: Vec<u64> = vec![1];
    Vector::reserve(&mut w, usize::MAX - 1);
    Vector::reserve_exact(&mut w, usize::MAX - 1);
    assert_eq!(w, vec![1]);
}

#[test]
fn reverse_turns_a_vector_around() {
    let mut v = vec![1, 2, 3, 4, 5];
    stack::vector::reverse(&mut v);
    assert_eq!(v, vec![5, 4, 3, 2, 1]);
    let mut w = vec![1, 2];
    stack::vector::reverse(&mut w);
    assert_eq!(w, vec![2, 1]);
    let mut e: Vec<u8> = vec![];
    stack::vector::reverse(&mut e);
    assert!(e.is_empty());
}

#[test]
fn slices_reach_the_live_elements() {
    let mut v = filled(3);
    assert_eq!(v.as_slice(), &[0, 1, 2]);
    v.as_mut_slice()[1] = 7;
    assert_eq!(v.as_slice(), &[0, 7, 2]);
    v.swap_slots(0, 2);
    assert_eq!(v.as_slice(), &[2, 7, 0]);
    let mut s = SmallVec::<[i32; 1]>::new();
    s.push(1);
    s.push(2);
    s.as_mut_slice()[0] = 5;
    assert_eq!(s.as_slice(), &[5, 2]);
}

#[test]
fn spilled_stays_spilled() {
    let mut v = SmallVec::<[u8; 2]>::new();
    assert!(!v.is_spilled());
    v.push(1);
    v.push(2);
    assert!(!v.is_spilled());
    v.push(3);
    assert!(v.is_spilled());
    v.pop();
    assert!(v.is_spilled());
    v.truncate(1);
    assert!(v.is_spilled());
    v.shrink_to_fit();
    assert!(v.is_spilled());
    v.retain(|_| false);
    assert!(v.is_spilled());
    v.clear();
    assert!(v.is_spilled());
    v.reserve(1);
    assert!(v.is_spilled());
    v.push(9);
    assert!(v.is_spilled());
    assert_eq!(&v[..], &[9]);
}

#[test]
fn spill_keeps_the_order() {
    let mut v = SmallVec::<[String; 2]>::new();
    v.push("hello".into());
    v.push("there".into());
    assert!(!v.is_spilled());
    assert_eq!(&v[..], &["hello", "there"]);
    v.push("burma".into());
    assert!(v.is_spilled());
    assert_eq!(&v[..], &["hello", "there", "burma"]);
    v.push("shave".into());
    assert_eq!(&v[..], &["hello", "there", "burma", "shave"]);

    let mut w = SmallVec::<[i32; 4]>::new();
    w.extend(vec![1, 2, 3]);
    w.spill();
    assert!(w.is_spilled());
    assert_eq!(&w[..], &[1, 2, 3]);
    w.spill();
    assert_eq!(&w[..], &[1, 2, 3]);

    let mut x = SmallVec::<[i32; 4]>::new();
    x.extend(vec![1, 2, 3]);
    x.reserve(2);
    assert!(x.is_spilled());
    assert_eq!(&x[..], &[1, 2, 3]);

    let mut y = SmallVec::<[i32; 2]>::new();
    y.extend(vec![1, 2]);
    y.extend(vec![3, 4, 5]);
    assert!(y.is_spilled());
    assert_eq!(&y[..], &[1, 2, 3, 4, 5]);
}

#[test]
fn insert_in_front_spills_and_shifts() {
    let mut v = SmallVec::<[i32; 2]>::new();
    v.push(1);
    v.push(2);
    v.insert(0, 9);
    assert!(v.is_spilled());
    assert_eq!(&v[..], &[9, 1, 2]);
}

#[test]
fn reserve_within_the_capacity_keeps_the_storage() {
    let mut v = SmallVec::<[u8; 4]>::new();
    v.push(1);
    v.reserve(3);
    assert!(!v.is_spilled());
    assert_eq!(v.capacity(), 4);
    v.reserve_exact(3);
    assert!(!v.is_spilled());
    v.reserve_exact(4);
    assert!(v.is_spilled());
    assert!(v.capacity() >= 5);
}

#[test]
fn with_capacity_picks_the_storage() {
    let v = SmallVec::<[u8; 4]>::with_capacity(4);
    assert!(!v.is_spilled());
    assert_eq!(v.capacity(), 4);
    let w = SmallVec::<[u8; 4]>::with_capacity(5);
    assert!(w.is_spilled());
    assert!(w.capacity() >= 5);
    assert!(w.is_empty());
    let a = ArrayVec::<[u8; 4]>::with_capacity(3);
    assert_eq!(a.capacity(), 4);
}

#[test]
fn every_type_has_its_bound() {
    assert_eq!(ArrayVec::<[u8; 5]>::max_len(), 5);
    assert_eq!(<Vec<u8> as Vector>::max_len(), usize::MAX);
    assert!(<Vec<u64> as Vector>::with_capacity(usize::MAX).is_empty());
    assert_eq!(SmallVec::<[u8; 5]>::max_len(), usize::MAX);
}

#[test]
fn array_round_trip() {
    let a = [3u8, 1, 4, 1, 5];
    match ArrayVec::from(a).into_inner() {
        Ok(b) => assert_eq!(a, b),
        Err(_) => panic!("a full container kept its array"),
    }
    let e: [String; 0] = [];
    assert!(ArrayVec::from(e).into_inner().is_ok());
    let s = [String::from("x"), String::from("y")];
    match ArrayVec::from(s.clone()).into_inner() {
        Ok(b) => assert_eq!(s, b),
        Err(_) => panic!("a full container kept its array"),
    }
}

#[test]
fn into_inner_hands_a_partial_container_back() {
    let mut v = ArrayVec::<[u8; 3]>::new();
    v.push(1);
    match v.into_inner() {
        Ok(_) => panic!("a container that is not full gave up its array"),
        Err(w) => {
            assert_eq!(&w[..], &[1]);
            assert_eq!(w.capacity(), 3);
        }
    }
}

#[test]
fn shrinking_twice_is_shrinking_once() {
    let mut v = SmallVec::<[u8; 2]>::new();
    v.extend(vec![1, 2, 3]);
    v.shrink_to_fit();
    let once = (v.as_slice().to_vec(), v.is_spilled(), v.len());
    v.shrink_to_fit();
    assert_eq!((v.as_slice().to_vec(), v.is_spilled(), v.len()), once);
    let mut a = filled(3);
    a.shrink_to_fit();
    a.shrink_to_fit();
    assert_eq!(&a[..], &[0, 1, 2]);
    assert_eq!(a.capacity(), 8);
}

#[test]
fn clearing_twice_leaves_it_empty() {
    let mut v = filled(5);
    v.clear();
    assert!(v.is_empty());
    v.clear();
    assert!(v.is_empty());
    assert_eq!(v.len(), 0);
    v.push(1);
    assert_eq!(&v[..], &[1]);
}

#[test]
fn index_types_narrow_and_widen() {
    assert_eq!(<u8 as ArrayIndex>::from_usize(200).to_usize(), 200);
    assert_eq!(<u8 as ArrayIndex>::from_usize(300), 44);
    assert_eq!(<u16 as ArrayIndex>::from_usize(0x1_0005), 5);
    assert_eq!(<u32 as ArrayIndex>::from_usize(70_000).to_usize(), 70_000);
    assert_eq!(ArrayIndex::to_usize(255u8), 255);
    assert_eq!(ArrayIndex::to_usize(65_535u16), 65_535);
}

#[test]
fn the_capacity_selects_the_index_type() {
    assert_eq!(size_of::<<[u8; 0] as Array>::Index>(), 1);
    assert_eq!(size_of::<<[u8; 32] as Array>::Index>(), 1);
    assert_eq!(size_of::<<[u8; 0x80] as Array>::Index>(), 1);
    assert_eq!(size_of::<<[u8; 0x100] as Array>::Index>(), 2);
    assert_eq!(size_of::<<[u8; 0x8000] as Array>::Index>(), 2);
    assert_eq!(size_of::<<[u8; 0x10000] as Array>::Index>(), 4);
    assert_eq!(size_of::<<[u8; 0x1000000] as Array>::Index>(), 4);
    assert_eq!(<[u8; 0x400] as Array>::len(), 0x400);
}

#[test]
fn arrays_pass_to_vectors_and_back() {
    assert_eq!(<[u8; 3] as Array>::into_vec([1, 2, 3]), vec![1, 2, 3]);
    assert_eq!(<[u8; 3] as Array>::from_vec(vec![4, 5, 6]), Ok([4, 5, 6]));
    assert_eq!(<[u8; 3] as Array>::from_vec(vec![4, 5]), Err(vec![4, 5]));
    assert_eq!(<[u8; 0] as Array>::from_vec(vec![]), Ok([]));
}

#[test]
fn slot_offsets() {
    assert_eq!(ArrayVecIntoIter::<[u32; 4]>::ptr_size(), 4);
    assert_eq!(ArrayVecIntoIter::<[(); 4]>::ptr_size(), 1);
    assert_eq!(ArrayVecIntoIter::<[[u8; 3]; 4]>::ptr_size(), 3);
    let iter = ArrayVec::from([1u32, 2, 3, 4]).into_iter();
    assert_eq!(iter.ptr(0), Some(0));
    assert_eq!(iter.ptr(3), Some(12));
    let units = ArrayVec::from([(), ()]).into_iter();
    assert_eq!(units.ptr(2), Some(2));
}

#[test]
fn an_abandoned_iterator_destroys_what_is_left() {
    let count = Cell::new(0);
    {
        let mut v = ArrayVec::<[Counted; 4]>::new();
        for _ in 0..4 {
            v.push(Counted(&count));
        }
        let mut iter = v.into_iter();
        drop(iter.next());
        assert_eq!(count.get(), 1);
        drop(iter.next_back());
        assert_eq!(count.get(), 2);
        assert_eq!(iter.size_hint(), (2, Some(2)));
    }
    assert_eq!(count.get(), 4);
}

#[test]
fn count_consumes_the_rest() {
    let mut iter = ArrayVec::from([1, 2, 3, 4, 5]).into_iter();
    assert_eq!(iter.next(), Some(1));
    assert_eq!(iter.next_back(), Some(5));
    assert_eq!(iter.count(), 3);
    assert_eq!(ArrayVec::<[u8; 4]>::new().into_iter().count(), 0);
}

#[test]
fn units_are_iterated_one_by_one() {
    let mut iter = ArrayVec::from([(), (), ()]).into_iter();
    assert_eq!(iter.next(), Some(()));
    assert_eq!(iter.next_back(), Some(()));
    assert_eq!(iter.size_hint(), (1, Some(1)));
    assert_eq!(iter.next(), Some(()));
    assert_eq!(iter.next(), None);
}

#[test]
fn a_hybrid_iterates_from_either_storage() {
    let mut inline = SmallVec::<[i32; 4]>::new();
    inline.extend(vec![1, 2, 3]);
    let mut iter = inline.into_iter();
    assert_eq!(iter.size_hint(), (3, Some(3)));
    assert_eq!(iter.next(), Some(1));
    assert_eq!(iter.next(), Some(2));
    assert_eq!(iter.count(), 1);

    let mut spilled = SmallVec::<[i32; 1]>::new();
    spilled.extend(vec![1, 2, 3]);
    let mut iter = spilled.into_iter();
    assert_eq!(iter.size_hint(), (3, Some(3)));
    assert_eq!(iter.next(), Some(1));
    assert_eq!(iter.next(), Some(2));
    assert_eq!(iter.size_hint(), (1, Some(1)));
    assert_eq!(iter.next(), Some(3));
    assert_eq!(iter.next(), None);
    assert_eq!(iter.count(), 0);
}

#[test]
fn into_inner_shows_the_storage() {
    let mut v = SmallVec::<[i32; 2]>::new();
    v.push(1);
    match v.into_inner() {
        Storage::Inline(a) => assert_eq!(&a[..], &[1]),
        Storage::Spilled(_) => panic!("one element spilled"),
    }
    let mut w = SmallVec::<[i32; 2]>::new();
    w.extend(vec![1, 2, 3]);
    match w.into_inner() {
        Storage::Inline(_) => panic!("three elements stayed inline"),
        Storage::Spilled(s) => assert_eq!(s, vec![1, 2, 3]),
    }
    let from: SmallVec<[i32; 2]> = SmallVec::from(ArrayVec::from([7, 8]));
    assert!(!from.is_spilled());
    assert_eq!(&from[..], &[7, 8]);
}

#[test]
fn clones_hold_clones() {
    let mut v = ArrayVec::<[String; 3]>::new();
    v.push("a".into());
    v.push("b".into());
    let c = v.clone();
    assert_eq!(&c[..], &v[..]);
    assert_eq!(c.capacity(), 3);
    let mut s = SmallVec::<[String; 1]>::new();
    s.push("a".into());
    let inline = s.clone();
    assert!(!inline.is_spilled());
    assert_eq!(&inline[..], &s[..]);
    s.push("b".into());
    let spilled = s.clone();
    assert!(spilled.is_spilled());
    assert_eq!(&spilled[..], &s[..]);
}

#[test]
fn defaults_are_empty_and_inline() {
    let a: ArrayVec<[u8; 2]> = Default::default();
    assert!(a.is_empty());
    let s: SmallVec<[u8; 2]> = Default::default();
    assert!(s.is_empty());
    assert!(!s.is_spilled());
}
