use bitarr::store::{BitStore, BitStoreMut};

#[test]
fn count_ones_of_each_integer_width() {
    assert_eq!(BitStore::count_ones(&0b1011u8), 3);
    assert_eq!(BitStore::count_ones(&0x0f0fu16), 8);
    assert_eq!(BitStore::count_ones(&0x8000_0001u32), 2);
    assert_eq!(BitStore::count_ones(&0xffff_0000_0000_00ffu64), 24);
    assert_eq!(BitStore::count_ones(&((1u128 << 100) | 0b111)), 4);
    assert_eq!(BitStore::count_ones(&0b1_0110usize), 3);
    assert_eq!(BitStore::count_ones(&[0b1011u8, 0xff, 0]), 11);
}

#[test]
fn runs_of_u128() {
    assert_eq!(BitStore::trailing_zeros(&8u128), 3);
    assert_eq!(BitStore::trailing_zeros(&(1u128 << 100)), 100);
    assert_eq!(BitStore::trailing_zeros(&0u128), 128);
    assert_eq!(BitStore::trailing_ones(&7u128), 3);
    assert_eq!(BitStore::trailing_ones(&u128::MAX), 128);
    assert_eq!(BitStore::leading_zeros(&1u128), 127);
    assert_eq!(BitStore::leading_zeros(&0u128), 128);
    assert_eq!(BitStore::leading_ones(&(u128::MAX << 120)), 8);
    assert_eq!(BitStore::leading_ones(&2u128), 0);
}

#[test]
fn runs_of_usize() {
    assert_eq!(BitStore::trailing_zeros(&8usize), 3);
    assert_eq!(BitStore::trailing_zeros(&0usize), usize::BITS);
    assert_eq!(BitStore::trailing_ones(&7usize), 3);
    assert_eq!(BitStore::trailing_ones(&usize::MAX), usize::BITS);
    assert_eq!(BitStore::leading_zeros(&1usize), usize::BITS - 1);
    assert_eq!(BitStore::leading_ones(&(usize::MAX << 4)), usize::BITS - 4);
    assert_eq!(BitStore::leading_ones(&2usize), 0);
}

#[test]
fn runs_of_the_smaller_integers() {
    assert_eq!(BitStore::trailing_zeros(&0b0101_0000u8), 4);
    assert_eq!(BitStore::trailing_ones(&0b0101_0111u8), 3);
    assert_eq!(BitStore::leading_zeros(&0b0001_0000u8), 3);
    assert_eq!(BitStore::leading_ones(&0b1110_0000u8), 3);
    assert_eq!(BitStore::trailing_zeros(&0x0100u16), 8);
    assert_eq!(BitStore::trailing_ones(&0x00ffu16), 8);
    assert_eq!(BitStore::leading_zeros(&0x0100u16), 7);
    assert_eq!(BitStore::leading_ones(&0xff00u16), 8);
    assert_eq!(BitStore::trailing_zeros(&0x0001_0000u32), 16);
    assert_eq!(BitStore::trailing_ones(&0x0000_ffffu32), 16);
    assert_eq!(BitStore::leading_zeros(&0x0001_0000u32), 15);
    assert_eq!(BitStore::leading_ones(&0xffff_0000u32), 16);
    assert_eq!(BitStore::trailing_zeros(&(1u64 << 40)), 40);
    assert_eq!(BitStore::trailing_ones(&((1u64 << 40) - 1)), 40);
    assert_eq!(BitStore::leading_zeros(&(1u64 << 40)), 23);
    assert_eq!(BitStore::leading_ones(&(u64::MAX << 40)), 24);
}

#[test]
fn trailing_ones_cross_an_element_boundary() {
    let x = [0xffu8, 0b0000_0111];
    assert_eq!(BitStore::trailing_ones(&x), 11);
    assert_eq!(BitStore::trailing_zeros(&x), 0);
    assert_eq!(BitStore::leading_zeros(&x), 5);
    assert_eq!(BitStore::leading_ones(&x), 0);
    assert_eq!(BitStore::count_ones(&x), 11);
}

#[test]
fn runs_stop_at_the_first_partial_element() {
    let x = [0u8, 0b0001_0000, 0, 0];
    assert_eq!(BitStore::trailing_zeros(&x), 12);
    assert_eq!(BitStore::leading_zeros(&x), 19);
    let y = [0xffu8, 0xef, 0xff, 0xff];
    assert_eq!(BitStore::trailing_ones(&y), 12);
    assert_eq!(BitStore::leading_ones(&y), 19);
    let z = [0xffu8, 0b0111_1111, 0xff];
    assert_eq!(BitStore::trailing_ones(&z), 15);
    assert_eq!(BitStore::leading_ones(&z), 8);
}

#[test]
fn runs_of_uniform_and_empty_arrays() {
    assert_eq!(BitStore::trailing_zeros(&[0u16; 3]), 48);
    assert_eq!(BitStore::leading_zeros(&[0u16; 3]), 48);
    assert_eq!(BitStore::trailing_ones(&[0u16; 3]), 0);
    assert_eq!(BitStore::trailing_ones(&[u16::MAX; 3]), 48);
    assert_eq!(BitStore::leading_ones(&[u16::MAX; 3]), 48);
    assert_eq!(BitStore::trailing_zeros(&[0u8; 0]), 0);
    assert_eq!(BitStore::count_ones(&[0u8; 0]), 0);
    assert_eq!(<[u8; 0] as BitStore>::bits(), 0);
    assert!(BitStore::is_empty(&[0u8; 0]));
    assert!(BitStore::is_full(&[0u8; 0]));
}

#[test]
fn array_index_maps_to_element_and_sub_index() {
    let mut x = [0u8; 3];
    BitStoreMut::set(&mut x, 0);
    BitStoreMut::set(&mut x, 9);
    BitStoreMut::set(&mut x, 23);
    assert_eq!(x, [0b0000_0001, 0b0000_0010, 0b1000_0000]);
    BitStoreMut::unset(&mut x, 9);
    assert_eq!(x, [0b0000_0001, 0, 0b1000_0000]);
    let mut nested = [[0u16; 2]; 2];
    BitStoreMut::set(&mut nested, 37);
    assert_eq!(nested, [[0, 0], [1 << 5, 0]]);
    assert!(BitStore::get(&nested, 37));
    assert!(!BitStore::get(&nested, 36));
    assert_eq!(<[[u16; 2]; 2] as BitStore>::bits(), 64);
}

#[test]
fn references_and_boxes_forward_to_the_referent() {
    let x = [0xffu8, 0b0000_0111];
    let r = &x;
    assert_eq!(BitStore::trailing_ones(&r), 11);
    assert_eq!(BitStore::count_ones(&r), 11);
    assert_eq!(BitStore::leading_zeros(&r), 5);
    assert!(BitStore::get(&r, 10));
    assert_eq!(<&[u8; 2] as BitStore>::bits(), 16);
    let mut b = Box::new(0u32);
    BitStoreMut::set(&mut b, 31);
    assert_eq!(*b, 1 << 31);
    assert_eq!(BitStore::leading_ones(&b), 1);
    assert_eq!(BitStore::trailing_zeros(&b), 31);
    BitStoreMut::negate(&mut b);
    assert_eq!(*b, !(1u32 << 31));
    BitStoreMut::unset(&mut b, 0);
    assert_eq!(*b, !(1u32 << 31) & !1);
    assert!(!BitStore::is_empty(&b));
    assert!(!BitStore::is_full(&b));
    let mut y = 0u64;
    let (mut three, mut mask, mut one) = (3u64, 0b10_0001u64, 1u64);
    {
        let mut m = &mut y;
        let (a, b, c) = (&mut three, &mut mask, &mut one);
        BitStoreMut::set(&mut m, 5);
        BitStoreMut::union_with(&mut m, &a);
        assert_eq!(BitStore::count_ones(&m), 3);
        BitStoreMut::intersect_with(&mut m, &b);
        BitStoreMut::difference_with(&mut m, &c);
    }
    assert_eq!(y, 0b10_0000);
}

#[test]
fn checked_bits_is_the_width_where_it_fits() {
    assert_eq!(<u8 as BitStore>::checked_bits(), Some(8));
    assert_eq!(<u128 as BitStore>::checked_bits(), Some(128));
    assert_eq!(<usize as BitStore>::checked_bits(), Some(usize::BITS));
    assert_eq!(<[u16; 3] as BitStore>::checked_bits(), Some(48));
    assert_eq!(<[[u8; 0]; 7] as BitStore>::checked_bits(), Some(0));
    assert_eq!(<[[u64; 4]; 0] as BitStore>::checked_bits(), Some(0));
    assert_eq!(<&[u32; 2] as BitStore>::checked_bits(), Some(64));
    assert_eq!(<Box<u64> as BitStore>::checked_bits(), Some(64));
    assert_eq!(<[u8; 0x1fff_ffff] as BitStore>::checked_bits(), Some(0xffff_fff8));
    assert_eq!(<[u8; 0x2000_0000] as BitStore>::checked_bits(), None);
    assert_eq!(<[[u8; 0x2000_0000]; 1] as BitStore>::checked_bits(), None);
    assert_eq!(<[[u8; 0x2000_0000]; 0] as BitStore>::checked_bits(), Some(0));
}
