use solar_codegen::word::U256;

fn word(l3: u64, l2: u64, l1: u64, l0: u64) -> U256 {
    U256 { l0, l1, l2, l3 }
}

#[test]
fn sums_and_differences_wrap() {
    assert_eq!(U256::max().wrapping_add(U256::from_u64(3)), U256::from_u64(2));
    assert_eq!(word(0, 0, 0, u64::MAX).wrapping_add(U256::from_u64(1)), word(0, 0, 1, 0));
    assert_eq!(U256::zero().wrapping_sub(U256::from_u64(1)), U256::max());
    assert_eq!(word(0, 1, 0, 0).wrapping_sub(U256::from_u64(1)), word(0, 0, u64::MAX, u64::MAX));
}

#[test]
fn shifts_drop_what_leaves_the_word() {
    assert_eq!(U256::from_u64(1).shl(64), word(0, 0, 1, 0));
    assert_eq!(U256::from_u64(3).shl(255), word(1 << 63, 0, 0, 0));
    assert_eq!(U256::from_u64(3).shl(256), U256::zero());
    assert_eq!(word(0, 0, 1, 1).shr(64), U256::from_u64(1));
    assert_eq!(U256::max().shr(255), U256::from_u64(1));
    assert_eq!(U256::max().shr(300), U256::zero());
}

#[test]
fn bytes_are_read_from_the_front() {
    assert_eq!(U256::from_be_slice(&[]), U256::zero());
    assert_eq!(U256::from_be_slice(&[1, 2]), U256::from_u64(0x102));
    assert_eq!(U256::from_be_slice(&[0xff; 32]), U256::max());
}

#[test]
fn literals_are_read_in_their_base() {
    assert_eq!(U256::from_literal("1_000"), Some(U256::from_u64(1000)));
    assert_eq!(U256::from_literal("0x1F"), Some(U256::from_u64(31)));
    assert_eq!(U256::from_literal("0o17"), Some(U256::from_u64(15)));
    assert_eq!(U256::from_literal("0b101"), Some(U256::from_u64(5)));
    assert_eq!(U256::from_literal("0x"), Some(U256::zero()));
    assert_eq!(U256::from_literal("12a"), None);
    assert_eq!(U256::from_literal("0b2"), None);
    let largest = "115792089237316195423570985008687907853269984665640564039457584007913129639935";
    assert_eq!(U256::from_literal(largest), Some(U256::max()));
    let next = "115792089237316195423570985008687907853269984665640564039457584007913129639936";
    assert_eq!(U256::from_literal(next), None);
}

#[test]
fn words_are_compared_and_narrowed() {
    assert!(U256::from_u64(1).less_than(word(0, 0, 1, 0)));
    assert!(!U256::max().less_than(U256::max()));
    assert_eq!(word(0, 0, 0, 7).to_u64(), Some(7));
    assert_eq!(word(1, 0, 0, 7).to_u64(), None);
}

#[test]
fn words_are_written_in_decimal() {
    assert_eq!(U256::zero().to_decimal(), "0");
    assert_eq!(U256::from_u64(1024).to_decimal(), "1024");
    assert_eq!(word(0, 0, 1, 0).to_decimal(), "18446744073709551616");
}
