use chip_vm::float_bits::PARTSU32;

#[test]
fn parts_of_one() {
    let parts = PARTSU32::from(1.0f32.to_bits());
    assert_eq!((parts.sign(), parts.exponent(), parts.fraction()), (0, 127, 0));
}

#[test]
fn parts_of_a_negative_number() {
    let parts = PARTSU32::from((-2.5f32).to_bits());
    assert_eq!((parts.sign(), parts.exponent(), parts.fraction()), (1, 128, 0x20_0000));
}

#[test]
fn parts_of_the_extreme_patterns() {
    let parts = PARTSU32::from(0u32);
    assert_eq!((parts.sign(), parts.exponent(), parts.fraction()), (0, 0, 0));
    let parts = PARTSU32::from(u32::MAX);
    assert_eq!((parts.sign(), parts.exponent(), parts.fraction()), (1, 255, 0x7F_FFFF));
    let parts = PARTSU32::from(0x8000_0000u32);
    assert_eq!((parts.sign(), parts.exponent(), parts.fraction()), (1, 0, 0));
    let parts = PARTSU32::from(0x0080_0000u32);
    assert_eq!((parts.sign(), parts.exponent(), parts.fraction()), (0, 1, 0));
}

#[test]
fn parts_put_together_give_the_pattern() {
    for bits in [0u32, 1, 0x3F80_0000, 0x4049_0FDB, 0xC2F7_0000, 0x7F7F_FFFF, u32::MAX] {
        let parts = PARTSU32::from(bits);
        assert_eq!(parts.sign() << 31 | parts.exponent() << 23 | parts.fraction(), bits);
    }
}
