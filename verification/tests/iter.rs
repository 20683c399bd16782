use bitarr::iter::Bits;
use bitarr::BitSet;

#[test]
fn forward_walk_yields_every_bit_low_to_high() {
    let mut it = Bits::new(0b1010_0101u8);
    let mut seen = Vec::new();
    let mut left = 8;
    assert_eq!(it.len(), left);
    while let Some(b) = it.next() {
        seen.push(b);
        left -= 1;
        assert_eq!(it.len(), left);
        assert_eq!(it.size_hint(), (left, Some(left)));
    }
    assert_eq!(seen, vec![true, false, true, false, false, true, false, true]);
    assert_eq!(it.next(), None);
    assert_eq!(it.next_back(), None);
    assert_eq!(it.len(), 0);
}

#[test]
fn backward_walk_yields_every_bit_high_to_low() {
    let mut it = Bits::new(0b1010_0101u8);
    let mut seen = Vec::new();
    while let Some(b) = it.next_back() {
        seen.push(b);
    }
    assert_eq!(seen, vec![true, false, true, false, false, true, false, true]);
    assert_eq!(it.next_back(), None);
    assert_eq!(it.next(), None);
}

#[test]
fn both_ends_together_visit_each_index_of_a_sub_range_once() {
    // bits 3..13 of the sixteen: indices 3 and 12 are set
    let mut it = Bits::with_range([0b0000_1000u8, 0b0001_0000], 3..13);
    assert_eq!(it.len(), 10);
    assert_eq!(it.next(), Some(true)); // index 3
    assert_eq!(it.next_back(), Some(true)); // index 12
    assert_eq!(it.len(), 8);
    let mut count = 0;
    loop {
        let step = if count % 2 == 0 { it.next() } else { it.next_back() };
        match step {
            Some(b) => {
                assert!(!b);
                count += 1;
                assert_eq!(it.len(), 8 - count);
            }
            None => break,
        }
    }
    assert_eq!(count, 8);
    assert_eq!(it.next(), None);
    assert_eq!(it.next_back(), None);
    assert_eq!(it.next(), None);
}

#[test]
fn empty_and_reversed_ranges_yield_nothing() {
    let mut it = Bits::with_range(0xffu8, 4..4);
    assert_eq!(it.len(), 0);
    assert_eq!(it.next(), None);
    assert_eq!(it.next_back(), None);
    let mut it = Bits::with_range(0xffu8, 6..2);
    assert_eq!(it.len(), 0);
    assert_eq!(it.size_hint(), (0, Some(0)));
    assert_eq!(it.next(), None);
    assert_eq!(it.next_back(), None);
    let mut it = Bits::with_range_unchecked(0xffu8, 7..8);
    assert_eq!(it.len(), 1);
    assert_eq!(it.next_back(), Some(true));
    assert_eq!(it.next(), None);
    let mut it = Bits::with_range(0u8, 0..8);
    assert_eq!(it.len(), 8);
    assert_eq!(it.next(), Some(false));
}

#[test]
fn a_set_can_be_walked_borrowed_or_owned() {
    let bs = BitSet::from(0b0000_0110u8);
    let mut it = bs.iter();
    assert_eq!(it.next(), Some(false));
    assert_eq!(it.next(), Some(true));
    assert_eq!(it.next(), Some(true));
    assert_eq!(it.next_back(), Some(false));
    assert_eq!(it.len(), 4);
    let copy = it.clone();
    assert_eq!(copy.len(), 4);
    assert_eq!(bs.get(1), Some(true));
    let mut owned = bs.into_iter();
    assert_eq!(owned.len(), 8);
    assert_eq!(owned.next_back(), Some(false));
    assert_eq!(owned.next(), Some(false));
    assert_eq!(owned.next(), Some(true));
}
