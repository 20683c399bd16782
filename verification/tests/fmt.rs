use bitarr::bit_fmt::format_binary;
use bitarr::store::{BitStoreConst, BitStoreMut};

#[test]
fn test_fmt() {
    assert_eq!(format!("{}", format_binary(&0b_0000_0000u8)), "0b_0000_0000");

    assert_eq!(
        format!("{}", format_binary(&<u8 as BitStoreConst>::full())),
        "0b_1111_1111"
    );

    let mut bits = [0u8; 2];
    BitStoreMut::set(&mut bits, 2);
    BitStoreMut::set(&mut bits, 12);
    assert_eq!(format!("{}", format_binary(&bits)), "0b_0001_0000_0000_0100");
}

#[test]
fn separators_are_counted_from_the_low_end() {
    assert_eq!(format_binary(&[0u8; 0]), "0b");
    assert_eq!(format_binary(&0x8001u16), "0b_1000_0000_0000_0001");
    assert_eq!(
        format_binary(&1u32),
        "0b_0000_0000_0000_0000_0000_0000_0000_0001"
    );
    assert_eq!(format_binary(&[0x0fu8, 0xa5, 0x01]), "0b_0000_0001_1010_0101_0000_1111");
    assert_eq!(format_binary(&Box::new(0x3cu8)), "0b_0011_1100");
}
