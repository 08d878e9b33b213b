use heaparray::{box_slice, HeapArray};
use std::collections::hash_map::DefaultHasher;
use std::hash::Hasher;

#[test]
fn test_box_slice() {
    let mut slc = [10; 32];
    let bx = box_slice(&mut slc[..5]);

    assert_eq!(*bx, [10, 10, 10, 10, 10]);
}

#[test]
fn it_works() {
    let mut har = HeapArray::allocate(3);
    *har.index_mut(0) = 1u8;
    *har.index_mut(1) = 2u8;
    *har.index_mut(2) = 3u8;

    let har2 = har.clone();

    assert_eq!(har, har2);

    println!("{}", har.to_string());
    assert_eq!(har.to_string(), har2.to_string());
    assert_eq!(har.as_slice()[1..], [2, 3]);

    let mut hasher1 = DefaultHasher::new();
    let mut hasher2 = DefaultHasher::new();

    har.hash(&mut hasher1);
    har2.hash(&mut hasher2);

    assert_eq!(hasher1.finish(), hasher2.finish());
}

#[test]
fn zero_size() {
    let mut ar: [u8; 0] = <[_; 0]>::default();
    let osize = box_slice(&mut ar);
    assert_eq!(osize.len(), 0);
}

#[test]
fn macro_works() {
    let mut ha = HeapArray::allocate(10);
    for x in 0..10 {
        *ha.index_mut(x) = 5u8;
    }
    assert_eq!(ha.len(), 10);
    assert_eq!(*ha.index(1), 5);

    let mut ha2 = HeapArray::<u8>::allocate(ha.len());
    ha2.fill_bytes(5);

    assert_eq!(ha, ha2);

    let mut ha3 = HeapArray::allocate(10);
    for (at, value) in [5, 5, 5, 5, 5, 5, 5, 5, 5, 5].into_iter().enumerate() {
        *ha3.index_mut(at) = value;
    }
    assert_eq!(*ha3.index(2), 5u8);
    assert_eq!(ha3, ha2);

    assert_eq!(ha2.into_vec(), ha3.into_vec());
}

#[test]
fn to_box() {
    let mut ha = HeapArray::<u8>::allocate(10);
    {
        *ha.index_mut(1) = 22;
        let mut bx = ha.into_box();
        bx[0] = 10;

        assert_eq!(bx.len(), 10);
        assert_eq!(bx[0], 10);
        assert_eq!(bx[1], 22);
    }
}

#[test]
fn equality() {
    let mut one = HeapArray::allocate(3);
    *one.index_mut(0) = 1;
    *one.index_mut(1) = 2;
    *one.index_mut(2) = 3;
    assert!(one.eq_slice(&vec![1, 2, 3]));
    let zeros = HeapArray::<i32>::allocate(3);
    assert!(!zeros.eq_slice(&vec![1, 2, 2]));
    let many = HeapArray::allocate(32);
    assert!(many.eq_slice(&[0i32; 32]));
}

#[test]
fn from_slice_box() {
    let mut slice = &mut [10; 32][..];

    let mut from = HeapArray::from_slice(&mut slice);
    *from.index_mut(0) = 10;
    assert_eq!(&[10, 10, 10, 10], &from.as_slice()[..4]);

    let slice = Box::new([1; 32]);
    let from = HeapArray::from_boxed(slice);

    assert_eq!(from.len(), 32);
    assert_eq!(*from.index(1), 1);
}

#[test]
fn allocate_gives_zero_bytes() {
    for n in [1usize, 2, 7, 64] {
        let a = HeapArray::<u32>::allocate(n);
        assert_eq!(a.len(), n);
        assert!(!a.is_null());
        assert_eq!(a.as_bytes(), vec![0u8; n * 4]);
        assert!(a.as_slice().iter().all(|x| *x == 0));
    }
}

#[test]
fn set_one_element_leaves_the_others() {
    let mut a = HeapArray::<u8>::allocate(10);
    assert_eq!(a.as_bytes(), vec![0u8; 10]);
    a.set(1, 22);
    assert_eq!(*a.index(1), 22);
    for i in 0..10 {
        if i != 1 {
            assert_eq!(*a.index(i), 0);
        }
    }
}

#[test]
fn literal_equals_filled_bytes() {
    let literal = HeapArray::from_vec(vec![5u8, 5, 5, 5, 5, 5, 5, 5, 5, 5]);
    let mut filled = HeapArray::<u8>::allocate(10);
    filled.fill_bytes(5);
    assert_eq!(literal, filled);
    assert!(literal.mem_eq(&filled));
}

#[test]
fn array_against_dynamic_arrays() {
    let a = HeapArray::from_vec(vec![1, 2, 3]);
    assert!(!a.eq_slice(&vec![1, 2, 2]));
    assert!(a.eq_slice(&vec![1, 2, 3]));
    assert!(!a.eq_slice(&vec![1, 2]));
    assert!(!a.eq_slice(&vec![1, 2, 3, 4]));
    assert!(a != HeapArray::from_vec(vec![1, 2, 2]));
    assert!(a == HeapArray::from_vec(vec![1, 2, 3]));
}

#[test]
fn boxed_array_keeps_other_indices() {
    let mut a = HeapArray::from_vec(vec![7u16, 8, 9]);
    a.set(1, 22);
    let mut boxed = a.into_box();
    boxed[0] = 10;
    assert_eq!(&*boxed, &[10u16, 22, 9]);
}

#[test]
fn clone_is_equal_and_independent() {
    let mut a = HeapArray::from_vec(vec![3i64, -4, 5]);
    let mut b = a.clone();
    assert_eq!(a, b);
    assert!(!b.is_null());
    b.set(0, 99);
    assert_eq!(a.as_slice(), &[3, -4, 5]);
    a.set(2, -1);
    assert_eq!(b.as_slice(), &[99, -4, 5]);

    let n = HeapArray::<u8>::null();
    assert!(n.clone().is_null());
}

#[test]
fn clone_mem_copies_the_bytes() {
    let a = HeapArray::from_vec(vec![0x0102u16, 0xfffe]);
    let mut b = a.clone_mem();
    assert_eq!(a, b);
    assert_eq!(b.as_bytes(), vec![0x02, 0x01, 0xfe, 0xff]);
    b.set(0, 0);
    assert_eq!(*a.index(0), 0x0102);
    assert!(HeapArray::<u16>::null().clone_mem().is_null());
}

#[test]
fn equal_arrays_hash_alike() {
    let a = HeapArray::from_vec(vec![1u32, 2, 3]);
    let b = HeapArray::from_boxed(vec![1u32, 2, 3].into_boxed_slice());
    let mut h1 = DefaultHasher::new();
    let mut h2 = DefaultHasher::new();
    a.hash(&mut h1);
    b.hash(&mut h2);
    assert_eq!(h1.finish(), h2.finish());
}

#[test]
fn hash_feeds_count_then_elements() {
    let a = HeapArray::from_vec(vec![0x0201u16, 0x0403]);
    let mut mine = DefaultHasher::new();
    a.hash(&mut mine);
    let mut by_hand = DefaultHasher::new();
    by_hand.write(&[2, 0, 0, 0, 0, 0, 0, 0]);
    by_hand.write(&[1, 2]);
    by_hand.write(&[3, 4]);
    assert_eq!(mine.finish(), by_hand.finish());

    let swapped = HeapArray::from_vec(vec![0x0403u16, 0x0201]);
    let mut other = DefaultHasher::new();
    swapped.hash(&mut other);
    assert_ne!(mine.finish(), other.finish());
}

#[test]
fn box_round_trip() {
    let a = HeapArray::from_vec(vec![9i8, -8, 7, -6]);
    let back = HeapArray::from_boxed(a.into_box());
    assert_eq!(back.len(), 4);
    assert_eq!(back.as_slice(), &[9, -8, 7, -6]);
}

#[test]
fn vec_round_trip() {
    let a = HeapArray::from_vec(vec![String::from("a"), String::from("b")]);
    assert_eq!(a.len(), 2);
    let v = a.into_vec();
    assert_eq!(v, vec![String::from("a"), String::from("b")]);
    let back = HeapArray::from_vec(v);
    assert_eq!(back.index(1), "b");
    assert_eq!(back.to_vec(), vec![String::from("a"), String::from("b")]);
}

#[test]
fn reinterpret_round_trip() {
    let a = HeapArray::from_vec(vec![1u8, 0, 0, 0, 2, 0, 0, 0, 0xff, 0xff, 0xff, 0xff]);
    let bytes = a.as_bytes();
    let words = a.reinterpret::<i32>();
    assert_eq!(words.len(), 3);
    assert_eq!(words.as_slice(), &[1, 2, -1]);
    assert_eq!(words.as_bytes(), bytes);
    let back = words.reinterpret::<u8>();
    assert_eq!(back.len(), 12);
    assert_eq!(back.as_bytes(), bytes);
    assert_eq!(back.as_slice(), &bytes[..]);
}

#[test]
fn reinterpret_wider_to_narrower() {
    let a = HeapArray::from_vec(vec![0x0807_0605_0403_0201u64]);
    let halves = a.reinterpret::<u16>();
    assert_eq!(halves.as_slice(), &[0x0201, 0x0403, 0x0605, 0x0807]);
    assert!(HeapArray::<u64>::null().reinterpret::<u8>().is_null());
}

#[test]
fn reinterpret_refuses_a_broken_element() {
    let a = HeapArray::from_vec(vec![1u8, 2, 3]);
    match a.try_reinterpret::<u16>() {
        Ok(_) => panic!("three bytes are no whole number of u16"),
        Err(same) => assert_eq!(same.as_slice(), &[1, 2, 3]),
    }
    let b = HeapArray::from_vec(vec![1u8, 2, 3, 4]);
    match b.try_reinterpret::<u16>() {
        Ok(halves) => assert_eq!(halves.as_slice(), &[0x0201, 0x0403]),
        Err(_) => panic!("four bytes are two u16"),
    }
}

#[test]
fn sizes() {
    assert_eq!(HeapArray::<u8>::element_size(), 1);
    assert_eq!(HeapArray::<i32>::element_size(), 4);
    assert_eq!(HeapArray::<u64>::element_size(), 8);
    let a = HeapArray::from_vec(vec![1u32, 2, 3]);
    assert_eq!(a.len(), 3);
    assert_eq!(a.len_bytes(), 12);
    assert_eq!(HeapArray::<u32>::null().len_bytes(), 0);
    assert_eq!(HeapArray::<u32>::null().len(), 0);
}

#[test]
fn null_array() {
    let n = HeapArray::<u8>::null();
    assert!(n.is_null());
    assert_eq!(n.len(), 0);
    assert_eq!(n.as_slice(), &[] as &[u8]);
    assert_eq!(n.as_bytes(), Vec::<u8>::new());
    assert_eq!(n.into_box().len(), 0);
    assert_eq!(HeapArray::<u8>::null().into_vec(), Vec::<u8>::new());
    let mut m = HeapArray::<u8>::null();
    assert_eq!(m.as_mut().len(), 0);
    m.fill_bytes(1);
    assert!(m.is_null());
}

#[test]
fn allocation_that_may_fail() {
    match HeapArray::<u16>::try_allocate(5) {
        Some(a) => {
            assert!(!a.is_null());
            assert_eq!(a.as_slice(), &[0, 0, 0, 0, 0]);
        }
        None => {}
    }
    let a = HeapArray::<u16>::allocate_ignore(5);
    if !a.is_null() {
        assert_eq!(a.as_slice(), &[0, 0, 0, 0, 0]);
    } else {
        assert_eq!(a.len(), 0);
    }
}

#[test]
fn allocator_answer_decides() {
    let granted = HeapArray::<i16>::from_reserved(Vec::new(), 4, true);
    assert!(!granted.is_null());
    assert_eq!(granted.as_slice(), &[0, 0, 0, 0]);
    let refused = HeapArray::<i16>::from_reserved(Vec::new(), 4, false);
    assert!(refused.is_null());
    assert_eq!(refused.len(), 0);
}

#[test]
fn fill_overwrites_every_element() {
    let mut a = HeapArray::from_vec(vec![1i32, 2, 3]);
    a.fill(&-7);
    assert_eq!(a.as_slice(), &[-7, -7, -7]);
    let mut s = HeapArray::from_vec(vec![String::new(), String::from("x")]);
    s.fill(&String::from("yz"));
    assert_eq!(s.into_vec(), vec![String::from("yz"), String::from("yz")]);
}

#[test]
fn fill_bytes_sets_every_byte() {
    let mut a = HeapArray::from_vec(vec![1u32, 2]);
    a.fill_bytes(0xab);
    assert_eq!(a.as_slice(), &[0xabab_abab, 0xabab_abab]);
    assert_eq!(a.as_bytes(), vec![0xab; 8]);
    let mut b = HeapArray::from_vec(vec![1i16]);
    b.fill_bytes(0xff);
    assert_eq!(b.as_slice(), &[-1]);
}

#[test]
fn reallocate_keeps_the_front() {
    let mut a = HeapArray::from_vec(vec![1u8, 2, 3, 4]);
    a.reallocate(2);
    assert_eq!(a.as_slice(), &[1, 2]);
    a.reallocate(5);
    assert_eq!(a.as_slice(), &[1, 2, 0, 0, 0]);
    assert_eq!(a.reallocate(5).len(), 5);
    let mut n = HeapArray::<u8>::null();
    n.reallocate(3);
    assert!(!n.is_null());
    assert_eq!(n.as_slice(), &[0, 0, 0]);
}

#[test]
fn from_slice_leaves_zeros_behind() {
    let mut source = [4u16, 5, 6];
    let a = HeapArray::from_slice(&mut source);
    assert_eq!(a.as_slice(), &[4, 5, 6]);
    assert_eq!(source, [0, 0, 0]);
    let mut other = [-1i32, 2];
    let boxed = box_slice(&mut other);
    assert_eq!(&*boxed, &[-1, 2]);
    assert_eq!(other, [0, 0]);
}

#[test]
fn mutable_slice_writes_through() {
    let mut a = HeapArray::from_vec(vec![1u8, 2, 3]);
    a.as_mut()[2] = 9;
    assert_eq!(a.as_slice(), &[1, 2, 9]);
    a.as_mut().reverse();
    assert_eq!(a.into_vec(), vec![9, 2, 1]);
}

#[test]
fn mem_eq_compares_blocks() {
    let a = HeapArray::from_vec(vec![1u16, 2]);
    let b = HeapArray::from_vec(vec![1u16, 2]);
    let c = HeapArray::from_vec(vec![1u16, 3]);
    let d = HeapArray::from_vec(vec![1u16]);
    assert!(a.mem_eq(&b));
    assert!(a.mem_eq(&a));
    assert!(!a.mem_eq(&c));
    assert!(!a.mem_eq(&d));
}

#[test]
fn iterator_runs_from_both_ends() {
    let a = HeapArray::from_vec(vec![1u8, 2, 3, 4]);
    let mut it = a.iter();
    assert_eq!(it.len(), 4);
    assert_eq!(it.next(), Some(&1));
    assert_eq!(it.next_back(), Some(&4));
    assert_eq!(it.len(), 2);
    assert_eq!(it.next_back(), Some(&3));
    assert_eq!(it.next(), Some(&2));
    assert_eq!(it.len(), 0);
    assert_eq!(it.next(), None);
    assert_eq!(it.next_back(), None);
    let mut again = a.iter();
    assert_eq!(again.next(), Some(&1));
    let mut none = HeapArray::<u8>::null();
    none.fill_bytes(0);
    assert_eq!(none.iter().next(), None);
}

#[test]
fn set_byte_changes_one_byte() {
    let mut a = HeapArray::from_vec(vec![0x1122_3344u32, 0x5566_7788]);
    a.set_byte(0, 0xaa);
    a.set_byte(7, 0xbb);
    assert_eq!(a.as_slice(), &[0x1122_33aa, 0xbb66_7788]);
    assert_eq!(a.as_bytes(), vec![0xaa, 0x33, 0x22, 0x11, 0x88, 0x77, 0x66, 0xbb]);
    let mut b = HeapArray::from_vec(vec![1i8, 2]);
    b.set_byte(1, 0x80);
    assert_eq!(b.as_slice(), &[1, -128]);
}

#[test]
fn request_for_no_elements_is_never_refused() {
    match HeapArray::<u32>::try_allocate(0) {
        Some(a) => {
            assert!(!a.is_null());
            assert_eq!(a.len(), 0);
            assert_eq!(a.as_bytes(), Vec::<u8>::new());
        }
        None => panic!("no elements need no block"),
    }
    let b = HeapArray::<i64>::allocate_ignore(0);
    assert!(!b.is_null());
    assert_eq!(b.len(), 0);
}
