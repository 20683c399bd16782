use bitarr::store::{BitStore, BitStoreConst, BitStoreMut};

fn scan_low<S: BitStore>(x: &S, value: bool) -> u32 {
    let mut n = 0;
    while n < S::bits() && x.get(n) == value {
        n += 1;
    }
    n
}

fn scan_high<S: BitStore>(x: &S, value: bool) -> u32 {
    let mut n = 0;
    while n < S::bits() && x.get(S::bits() - 1 - n) == value {
        n += 1;
    }
    n
}

fn scan_count<S: BitStore>(x: &S) -> u32 {
    let mut n = 0;
    for i in 0..S::bits() {
        if x.get(i) {
            n += 1;
        }
    }
    n
}

fn check_against_scan<S: BitStore>(x: &S) {
    assert_eq!(x.count_ones(), scan_count(x));
    assert_eq!(x.trailing_zeros(), scan_low(x, false));
    assert_eq!(x.trailing_ones(), scan_low(x, true));
    assert_eq!(x.leading_zeros(), scan_high(x, false));
    assert_eq!(x.leading_ones(), scan_high(x, true));
    assert_eq!(x.is_empty(), scan_count(x) == 0);
    assert_eq!(x.is_full(), scan_count(x) == S::bits());
}

fn check_empty_is_empty<S: BitStoreConst>() {
    assert!(BitStore::is_empty(&S::empty()));
    assert_eq!(BitStore::count_ones(&S::empty()), 0);
}

fn check_full_is_full<S: BitStoreConst>() {
    assert!(BitStore::is_full(&S::full()));
    assert_eq!(BitStore::count_ones(&S::full()), S::bits());
}

fn check_bits_is_size_of<S: BitStore>() {
    assert_eq!(S::bits(), core::mem::size_of::<S>() as u32 * 8);
}

fn check_zero_is_all_false<S: BitStoreConst>() {
    let x = S::empty();
    for i in 0..S::bits() {
        assert_eq!(BitStore::get(&x, i), false);
    }
}

fn check_any_individual_index_can_be_set<S: BitStoreConst + BitStoreMut>() {
    for i in 0..S::bits() {
        let mut x = S::empty();
        x.set(i);
        assert_eq!(BitStore::get(&x, i), true);
        for j in 0..S::bits() {
            assert_eq!(BitStore::get(&x, j), i == j);
        }
        assert_eq!(BitStore::count_ones(&x), 1, "count_ones()");
        assert_eq!(BitStore::trailing_zeros(&x), i, "trailing_zeros()");
        assert_eq!(BitStore::leading_zeros(&x), S::bits() - 1 - i, "leading_zeros()");
        check_against_scan(&x);
        x.unset(i);
        assert!(BitStore::is_empty(&x));
    }
}

fn check_any_individual_index_can_be_unset<S: BitStoreConst + BitStoreMut>() {
    for i in 0..S::bits() {
        let mut x = S::full();
        x.unset(i);
        for j in 0..S::bits() {
            assert_eq!(BitStore::get(&x, j), i != j);
        }
        assert_eq!(BitStore::count_ones(&x), S::bits() - 1, "count_ones()");
        assert_eq!(BitStore::trailing_ones(&x), i, "trailing_ones()");
        assert_eq!(BitStore::leading_ones(&x), S::bits() - 1 - i, "leading_ones()");
        check_against_scan(&x);
    }
}

fn check_trailing_ones<S: BitStoreConst + BitStoreMut>() {
    let mut x = S::empty();
    for i in (0..S::bits()).rev() {
        x.set(i);
        assert_eq!(BitStore::get(&x, i), true);
        assert_eq!(BitStore::count_ones(&x), S::bits() - i, "count_ones()");
        assert_eq!(BitStore::leading_ones(&x), S::bits() - i, "leading_ones()");
        check_against_scan(&x);
    }
    let mut x = S::empty();
    for i in 0..S::bits() {
        x.set(i);
        assert_eq!(BitStore::trailing_ones(&x), i + 1, "trailing_ones()");
        check_against_scan(&x);
    }
}

fn check_negate<S: BitStoreConst + BitStoreMut>() {
    let mut x = S::empty();
    BitStoreMut::negate(&mut x);
    assert!(BitStore::is_full(&x));

    BitStoreMut::negate(&mut x);
    assert!(BitStore::is_empty(&x));

    x.set(4);
    BitStoreMut::negate(&mut x);
    assert_eq!(BitStore::get(&x, 4), false);
    assert_eq!(BitStore::get(&x, 3), true);
}

fn check_union<S: BitStoreConst + BitStoreMut>() {
    // 1 | 1 = 1
    let mut x = S::full();
    let y = S::full();
    BitStoreMut::union_with(&mut x, &y);
    assert!(BitStore::is_full(&x));

    // 0 | 1 = 1
    let mut x = S::empty();
    let y = S::full();
    BitStoreMut::union_with(&mut x, &y);
    assert!(BitStore::is_full(&x));

    // 1 | 0 = 1
    let mut x = S::full();
    let y = S::empty();
    BitStoreMut::union_with(&mut x, &y);
    assert!(BitStore::is_full(&x));

    // 0 | 0 = 0
    let mut x = S::empty();
    let y = S::empty();
    BitStoreMut::union_with(&mut x, &y);
    assert!(BitStore::is_empty(&x));

    let mut x = S::empty();
    let mut y = S::empty();
    x.set(3);
    y.set(4);
    BitStoreMut::union_with(&mut x, &y);
    assert_eq!(BitStore::get(&x, 2), false);
    assert_eq!(BitStore::get(&x, 3), true);
    assert_eq!(BitStore::get(&x, 4), true);
    assert_eq!(BitStore::get(&x, 5), false);
}

fn check_intersection<S: BitStoreConst + BitStoreMut>() {
    // 1 & 1 = 1
    let mut x = S::full();
    let y = S::full();
    BitStoreMut::intersect_with(&mut x, &y);
    assert!(BitStore::is_full(&x));

    // 0 & 1 = 0
    let mut x = S::empty();
    let y = S::full();
    BitStoreMut::intersect_with(&mut x, &y);
    assert!(BitStore::is_empty(&x));

    // 1 & 0 = 0
    let mut x = S::full();
    let y = S::empty();
    BitStoreMut::intersect_with(&mut x, &y);
    assert!(BitStore::is_empty(&x));

    // 0 & 0 = 0
    let mut x = S::empty();
    let y = S::empty();
    BitStoreMut::intersect_with(&mut x, &y);
    assert!(BitStore::is_empty(&x));

    let mut x = S::empty();
    let mut y = S::empty();
    x.set(3);
    y.set(4);
    BitStoreMut::intersect_with(&mut x, &y);
    assert_eq!(BitStore::get(&x, 2), false);
    assert_eq!(BitStore::get(&x, 3), false);
    assert_eq!(BitStore::get(&x, 4), false);
    assert_eq!(BitStore::get(&x, 5), false);

    let mut x = S::empty();
    let mut y = S::empty();
    x.set(3);
    y.set(3);
    BitStoreMut::intersect_with(&mut x, &y);
    assert_eq!(BitStore::get(&x, 2), false);
    assert_eq!(BitStore::get(&x, 3), true);
    assert_eq!(BitStore::get(&x, 4), false);
    assert_eq!(BitStore::get(&x, 5), false);
}

fn check_difference<S: BitStoreConst + BitStoreMut>() {
    // 1 & !1 = 0
    let mut x = S::full();
    let y = S::full();
    BitStoreMut::difference_with(&mut x, &y);
    assert!(BitStore::is_empty(&x));

    // 0 & !1 = 0
    let mut x = S::empty();
    let y = S::full();
    BitStoreMut::difference_with(&mut x, &y);
    assert!(BitStore::is_empty(&x));

    // 1 & !0 = 1
    let mut x = S::full();
    let y = S::empty();
    BitStoreMut::difference_with(&mut x, &y);
    assert!(BitStore::is_full(&x));

    // 0 & !0 = 0
    let mut x = S::empty();
    let y = S::empty();
    BitStoreMut::difference_with(&mut x, &y);
    assert!(BitStore::is_empty(&x));

    let mut x = S::empty();
    let mut y = S::empty();
    x.set(3);
    x.set(4);
    y.set(4);
    y.set(5);
    BitStoreMut::difference_with(&mut x, &y);
    assert_eq!(BitStore::get(&x, 3), true);
    assert_eq!(BitStore::get(&x, 4), false);
    assert_eq!(BitStore::get(&x, 5), false);
    assert_eq!(BitStore::count_ones(&x), 1);
}

fn check_symmetric_difference<S: BitStoreConst + BitStoreMut>() {
    // 1 ^ 1 = 0
    let mut x = S::full();
    let y = S::full();
    BitStoreMut::symmetric_difference_with(&mut x, &y);
    assert!(BitStore::is_empty(&x));

    // 0 ^ 1 = 1
    let mut x = S::empty();
    let y = S::full();
    BitStoreMut::symmetric_difference_with(&mut x, &y);
    assert!(BitStore::is_full(&x));

    // 1 ^ 0 = 1
    let mut x = S::full();
    let y = S::empty();
    BitStoreMut::symmetric_difference_with(&mut x, &y);
    assert!(BitStore::is_full(&x));

    // 0 ^ 0 = 0
    let mut x = S::empty();
    let y = S::empty();
    BitStoreMut::symmetric_difference_with(&mut x, &y);
    assert!(BitStore::is_empty(&x));

    let mut x = S::empty();
    let mut y = S::empty();
    x.set(3);
    x.set(4);
    y.set(4);
    y.set(5);
    BitStoreMut::symmetric_difference_with(&mut x, &y);
    assert_eq!(BitStore::get(&x, 3), true);
    assert_eq!(BitStore::get(&x, 4), false);
    assert_eq!(BitStore::get(&x, 5), true);
    assert_eq!(BitStore::count_ones(&x), 2);
}

#[test]
fn u8_bitstore_empty_is_empty() {
    check_empty_is_empty::<u8>();
}

#[test]
fn u8_bitstore_full_is_full() {
    check_full_is_full::<u8>();
}

#[test]
fn u8_bitstore_bits_is_size_of() {
    check_bits_is_size_of::<u8>();
}

#[test]
fn u8_bitstore_zero_is_all_false() {
    check_zero_is_all_false::<u8>();
}

#[test]
fn u8_bitstore_any_individual_index_can_be_set() {
    check_any_individual_index_can_be_set::<u8>();
}

#[test]
fn u8_bitstore_any_individual_index_can_be_unset() {
    check_any_individual_index_can_be_unset::<u8>();
}

#[test]
fn u8_bitstore_trailing_ones() {
    check_trailing_ones::<u8>();
}

#[test]
fn u8_bitstore_negate() {
    check_negate::<u8>();
}

#[test]
fn u8_bitstore_union() {
    check_union::<u8>();
}

#[test]
fn u8_bitstore_intersection() {
    check_intersection::<u8>();
}

#[test]
fn u8_bitstore_difference() {
    check_difference::<u8>();
}

#[test]
fn u8_bitstore_symmetric_difference() {
    check_symmetric_difference::<u8>();
}

#[test]
fn u16_bitstore_empty_is_empty() {
    check_empty_is_empty::<u16>();
}

#[test]
fn u16_bitstore_full_is_full() {
    check_full_is_full::<u16>();
}

#[test]
fn u16_bitstore_bits_is_size_of() {
    check_bits_is_size_of::<u16>();
}

#[test]
fn u16_bitstore_zero_is_all_false() {
    check_zero_is_all_false::<u16>();
}

#[test]
fn u16_bitstore_any_individual_index_can_be_set() {
    check_any_individual_index_can_be_set::<u16>();
}

#[test]
fn u16_bitstore_any_individual_index_can_be_unset() {
    check_any_individual_index_can_be_unset::<u16>();
}

#[test]
fn u16_bitstore_trailing_ones() {
    check_trailing_ones::<u16>();
}

#[test]
fn u16_bitstore_negate() {
    check_negate::<u16>();
}

#[test]
fn u16_bitstore_union() {
    check_union::<u16>();
}

#[test]
fn u16_bitstore_intersection() {
    check_intersection::<u16>();
}

#[test]
fn u16_bitstore_difference() {
    check_difference::<u16>();
}

#[test]
fn u16_bitstore_symmetric_difference() {
    check_symmetric_difference::<u16>();
}

#[test]
fn u32_bitstore_empty_is_empty() {
    check_empty_is_empty::<u32>();
}

#[test]
fn u32_bitstore_full_is_full() {
    check_full_is_full::<u32>();
}

#[test]
fn u32_bitstore_bits_is_size_of() {
    check_bits_is_size_of::<u32>();
}

#[test]
fn u32_bitstore_zero_is_all_false() {
    check_zero_is_all_false::<u32>();
}

#[test]
fn u32_bitstore_any_individual_index_can_be_set() {
    check_any_individual_index_can_be_set::<u32>();
}

#[test]
fn u32_bitstore_any_individual_index_can_be_unset() {
    check_any_individual_index_can_be_unset::<u32>();
}

#[test]
fn u32_bitstore_trailing_ones() {
    check_trailing_ones::<u32>();
}

#[test]
fn u32_bitstore_negate() {
    check_negate::<u32>();
}

#[test]
fn u32_bitstore_union() {
    check_union::<u32>();
}

#[test]
fn u32_bitstore_intersection() {
    check_intersection::<u32>();
}

#[test]
fn u32_bitstore_difference() {
    check_difference::<u32>();
}

#[test]
fn u32_bitstore_symmetric_difference() {
    check_symmetric_difference::<u32>();
}

#[test]
fn u64_bitstore_empty_is_empty() {
    check_empty_is_empty::<u64>();
}

#[test]
fn u64_bitstore_full_is_full() {
    check_full_is_full::<u64>();
}

#[test]
fn u64_bitstore_bits_is_size_of() {
    check_bits_is_size_of::<u64>();
}

#[test]
fn u64_bitstore_zero_is_all_false() {
    check_zero_is_all_false::<u64>();
}

#[test]
fn u64_bitstore_any_individual_index_can_be_set() {
    check_any_individual_index_can_be_set::<u64>();
}

#[test]
fn u64_bitstore_any_individual_index_can_be_unset() {
    check_any_individual_index_can_be_unset::<u64>();
}

#[test]
fn u64_bitstore_trailing_ones() {
    check_trailing_ones::<u64>();
}

#[test]
fn u64_bitstore_negate() {
    check_negate::<u64>();
}

#[test]
fn u64_bitstore_union() {
    check_union::<u64>();
}

#[test]
fn u64_bitstore_intersection() {
    check_intersection::<u64>();
}

#[test]
fn u64_bitstore_difference() {
    check_difference::<u64>();
}

#[test]
fn u64_bitstore_symmetric_difference() {
    check_symmetric_difference::<u64>();
}

#[test]
fn u128_bitstore_empty_is_empty() {
    check_empty_is_empty::<u128>();
}

#[test]
fn u128_bitstore_full_is_full() {
    check_full_is_full::<u128>();
}

#[test]
fn u128_bitstore_bits_is_size_of() {
    check_bits_is_size_of::<u128>();
}

#[test]
fn u128_bitstore_zero_is_all_false() {
    check_zero_is_all_false::<u128>();
}

#[test]
fn u128_bitstore_any_individual_index_can_be_set() {
    check_any_individual_index_can_be_set::<u128>();
}

#[test]
fn u128_bitstore_any_individual_index_can_be_unset() {
    check_any_individual_index_can_be_unset::<u128>();
}

#[test]
fn u128_bitstore_trailing_ones() {
    check_trailing_ones::<u128>();
}

#[test]
fn u128_bitstore_negate() {
    check_negate::<u128>();
}

#[test]
fn u128_bitstore_union() {
    check_union::<u128>();
}

#[test]
fn u128_bitstore_intersection() {
    check_intersection::<u128>();
}

#[test]
fn u128_bitstore_difference() {
    check_difference::<u128>();
}

#[test]
fn u128_bitstore_symmetric_difference() {
    check_symmetric_difference::<u128>();
}

#[test]
fn usize_bitstore_empty_is_empty() {
    check_empty_is_empty::<usize>();
}

#[test]
fn usize_bitstore_full_is_full() {
    check_full_is_full::<usize>();
}

#[test]
fn usize_bitstore_bits_is_size_of() {
    check_bits_is_size_of::<usize>();
}

#[test]
fn usize_bitstore_zero_is_all_false() {
    check_zero_is_all_false::<usize>();
}

#[test]
fn usize_bitstore_any_individual_index_can_be_set() {
    check_any_individual_index_can_be_set::<usize>();
}

#[test]
fn usize_bitstore_any_individual_index_can_be_unset() {
    check_any_individual_index_can_be_unset::<usize>();
}

#[test]
fn usize_bitstore_trailing_ones() {
    check_trailing_ones::<usize>();
}

#[test]
fn usize_bitstore_negate() {
    check_negate::<usize>();
}

#[test]
fn usize_bitstore_union() {
    check_union::<usize>();
}

#[test]
fn usize_bitstore_intersection() {
    check_intersection::<usize>();
}

#[test]
fn usize_bitstore_difference() {
    check_difference::<usize>();
}

#[test]
fn usize_bitstore_symmetric_difference() {
    check_symmetric_difference::<usize>();
}

#[test]
fn u8_x2_bitstore_empty_is_empty() {
    check_empty_is_empty::<[u8; 2]>();
}

#[test]
fn u8_x2_bitstore_full_is_full() {
    check_full_is_full::<[u8; 2]>();
}

#[test]
fn u8_x2_bitstore_bits_is_size_of() {
    check_bits_is_size_of::<[u8; 2]>();
}

#[test]
fn u8_x2_bitstore_zero_is_all_false() {
    check_zero_is_all_false::<[u8; 2]>();
}

#[test]
fn u8_x2_bitstore_any_individual_index_can_be_set() {
    check_any_individual_index_can_be_set::<[u8; 2]>();
}

#[test]
fn u8_x2_bitstore_any_individual_index_can_be_unset() {
    check_any_individual_index_can_be_unset::<[u8; 2]>();
}

#[test]
fn u8_x2_bitstore_trailing_ones() {
    check_trailing_ones::<[u8; 2]>();
}

#[test]
fn u8_x2_bitstore_negate() {
    check_negate::<[u8; 2]>();
}

#[test]
fn u8_x2_bitstore_union() {
    check_union::<[u8; 2]>();
}

#[test]
fn u8_x2_bitstore_intersection() {
    check_intersection::<[u8; 2]>();
}

#[test]
fn u8_x2_bitstore_difference() {
    check_difference::<[u8; 2]>();
}

#[test]
fn u8_x2_bitstore_symmetric_difference() {
    check_symmetric_difference::<[u8; 2]>();
}

#[test]
fn u8_x10_bitstore_empty_is_empty() {
    check_empty_is_empty::<[u8; 10]>();
}

#[test]
fn u8_x10_bitstore_full_is_full() {
    check_full_is_full::<[u8; 10]>();
}

#[test]
fn u8_x10_bitstore_bits_is_size_of() {
    check_bits_is_size_of::<[u8; 10]>();
}

#[test]
fn u8_x10_bitstore_zero_is_all_false() {
    check_zero_is_all_false::<[u8; 10]>();
}

#[test]
fn u8_x10_bitstore_any_individual_index_can_be_set() {
    check_any_individual_index_can_be_set::<[u8; 10]>();
}

#[test]
fn u8_x10_bitstore_any_individual_index_can_be_unset() {
    check_any_individual_index_can_be_unset::<[u8; 10]>();
}

#[test]
fn u8_x10_bitstore_trailing_ones() {
    check_trailing_ones::<[u8; 10]>();
}

#[test]
fn u8_x10_bitstore_negate() {
    check_negate::<[u8; 10]>();
}

#[test]
fn u8_x10_bitstore_union() {
    check_union::<[u8; 10]>();
}

#[test]
fn u8_x10_bitstore_intersection() {
    check_intersection::<[u8; 10]>();
}

#[test]
fn u8_x10_bitstore_difference() {
    check_difference::<[u8; 10]>();
}

#[test]
fn u8_x10_bitstore_symmetric_difference() {
    check_symmetric_difference::<[u8; 10]>();
}

#[test]
fn u64_x2_bitstore_empty_is_empty() {
    check_empty_is_empty::<[u64; 2]>();
}

#[test]
fn u64_x2_bitstore_full_is_full() {
    check_full_is_full::<[u64; 2]>();
}

#[test]
fn u64_x2_bitstore_bits_is_size_of() {
    check_bits_is_size_of::<[u64; 2]>();
}

#[test]
fn u64_x2_bitstore_zero_is_all_false() {
    check_zero_is_all_false::<[u64; 2]>();
}

#[test]
fn u64_x2_bitstore_any_individual_index_can_be_set() {
    check_any_individual_index_can_be_set::<[u64; 2]>();
}

#[test]
fn u64_x2_bitstore_any_individual_index_can_be_unset() {
    check_any_individual_index_can_be_unset::<[u64; 2]>();
}

#[test]
fn u64_x2_bitstore_trailing_ones() {
    check_trailing_ones::<[u64; 2]>();
}

#[test]
fn u64_x2_bitstore_negate() {
    check_negate::<[u64; 2]>();
}

#[test]
fn u64_x2_bitstore_union() {
    check_union::<[u64; 2]>();
}

#[test]
fn u64_x2_bitstore_intersection() {
    check_intersection::<[u64; 2]>();
}

#[test]
fn u64_x2_bitstore_difference() {
    check_difference::<[u64; 2]>();
}

#[test]
fn u64_x2_bitstore_symmetric_difference() {
    check_symmetric_difference::<[u64; 2]>();
}

#[test]
fn u128_x10_bitstore_empty_is_empty() {
    check_empty_is_empty::<[u128; 10]>();
}

#[test]
fn u128_x10_bitstore_full_is_full() {
    check_full_is_full::<[u128; 10]>();
}

#[test]
fn u128_x10_bitstore_bits_is_size_of() {
    check_bits_is_size_of::<[u128; 10]>();
}

#[test]
fn u128_x10_bitstore_zero_is_all_false() {
    check_zero_is_all_false::<[u128; 10]>();
}

#[test]
fn u128_x10_bitstore_any_individual_index_can_be_set() {
    check_any_individual_index_can_be_set::<[u128; 10]>();
}

#[test]
fn u128_x10_bitstore_any_individual_index_can_be_unset() {
    check_any_individual_index_can_be_unset::<[u128; 10]>();
}

#[test]
fn u128_x10_bitstore_trailing_ones() {
    check_trailing_ones::<[u128; 10]>();
}

#[test]
fn u128_x10_bitstore_negate() {
    check_negate::<[u128; 10]>();
}

#[test]
fn u128_x10_bitstore_union() {
    check_union::<[u128; 10]>();
}

#[test]
fn u128_x10_bitstore_intersection() {
    check_intersection::<[u128; 10]>();
}

#[test]
fn u128_x10_bitstore_difference() {
    check_difference::<[u128; 10]>();
}

#[test]
fn u128_x10_bitstore_symmetric_difference() {
    check_symmetric_difference::<[u128; 10]>();
}

#[test]
fn u16_x2_x3_bitstore_empty_is_empty() {
    check_empty_is_empty::<[[u16; 2]; 3]>();
}

#[test]
fn u16_x2_x3_bitstore_full_is_full() {
    check_full_is_full::<[[u16; 2]; 3]>();
}

#[test]
fn u16_x2_x3_bitstore_bits_is_size_of() {
    check_bits_is_size_of::<[[u16; 2]; 3]>();
}

#[test]
fn u16_x2_x3_bitstore_zero_is_all_false() {
    check_zero_is_all_false::<[[u16; 2]; 3]>();
}

#[test]
fn u16_x2_x3_bitstore_any_individual_index_can_be_set() {
    check_any_individual_index_can_be_set::<[[u16; 2]; 3]>();
}

#[test]
fn u16_x2_x3_bitstore_any_individual_index_can_be_unset() {
    check_any_individual_index_can_be_unset::<[[u16; 2]; 3]>();
}

#[test]
fn u16_x2_x3_bitstore_trailing_ones() {
    check_trailing_ones::<[[u16; 2]; 3]>();
}

#[test]
fn u16_x2_x3_bitstore_negate() {
    check_negate::<[[u16; 2]; 3]>();
}

#[test]
fn u16_x2_x3_bitstore_union() {
    check_union::<[[u16; 2]; 3]>();
}

#[test]
fn u16_x2_x3_bitstore_intersection() {
    check_intersection::<[[u16; 2]; 3]>();
}

#[test]
fn u16_x2_x3_bitstore_difference() {
    check_difference::<[[u16; 2]; 3]>();
}

#[test]
fn u16_x2_x3_bitstore_symmetric_difference() {
    check_symmetric_difference::<[[u16; 2]; 3]>();
}
