use ledger::amount::Amount;

fn dec(mantissa: i128, scale: u32) -> Amount {
    Amount { mantissa, scale }
}

const MAX: i128 = 79228162514264337593543950335;

#[test]
fn add_aligns_to_larger_scale() {
    assert_eq!(dec(15, 1).checked_add(&dec(225, 2)), Some(dec(375, 2)));
    assert_eq!(dec(-1000, 2).checked_add(&dec(3, 0)), Some(dec(-700, 2)));
}

#[test]
fn add_to_zero_gives_other_operand() {
    assert_eq!(Amount::zero().checked_add(&dec(500, 2)), Some(dec(500, 2)));
    assert_eq!(dec(0, 3).checked_add(&dec(7, 0)), Some(dec(7, 0)));
}

#[test]
fn add_zero_keeps_left_operand() {
    assert_eq!(dec(5, 0).checked_add(&dec(0, 2)), Some(dec(5, 0)));
}

#[test]
fn add_cancelling_gives_zero_at_aligned_scale() {
    assert_eq!(dec(5, 1).checked_add(&dec(-50, 2)), Some(dec(0, 2)));
}

#[test]
fn add_overflow_is_none() {
    assert_eq!(dec(MAX, 0).checked_add(&dec(1, 0)), None);
    assert_eq!(dec(-MAX, 0).checked_add(&dec(-MAX, 0)), None);
}

#[test]
fn add_of_invalid_decimal_is_none() {
    assert_eq!(dec(1, 29).checked_add(&dec(1, 0)), None);
    assert_eq!(dec(MAX + 1, 0).checked_add(&dec(0, 0)), None);
}

#[test]
fn multiply_by_whole_number() {
    assert_eq!(dec(250, 2).checked_mul(&Amount::from_u16(3)), Some(dec(750, 2)));
    assert_eq!(dec(-125, 1).checked_mul(&dec(4, 0)), Some(dec(-500, 1)));
}

#[test]
fn multiply_by_zero_is_plain_zero() {
    assert_eq!(dec(250, 2).checked_mul(&Amount::zero()), Some(dec(0, 0)));
    assert_eq!(dec(0, 5).checked_mul(&dec(3, 1)), Some(dec(0, 0)));
}

#[test]
fn multiply_overflow_is_none() {
    assert_eq!(dec(MAX, 0).checked_mul(&dec(2, 0)), None);
}

#[test]
fn whole_numbers_have_scale_zero() {
    assert_eq!(Amount::from_u16(65535), dec(65535, 0));
    assert_eq!(Amount::zero(), dec(0, 0));
}

#[test]
fn validity_of_parts() {
    assert!(dec(MAX, 28).is_valid());
    assert!(!dec(MAX + 1, 0).is_valid());
    assert!(!dec(1, 29).is_valid());
}

#[test]
fn decimal_text() {
    assert_eq!(dec(375, 2).to_text(), "3.75");
    assert_eq!(dec(-5, 0).to_text(), "-5");
    assert_eq!(dec(0, 2).to_text(), "0.00");
}

#[test]
fn decimal_text_pads_and_keeps_trailing_zeros() {
    assert_eq!(dec(-5, 3).to_text(), "-0.005");
    assert_eq!(dec(1200, 1).to_text(), "120.0");
    assert_eq!(dec(0, 0).to_text(), "0");
    assert_eq!(dec(MAX, 28).to_text(), "7.9228162514264337593543950335");
}

#[test]
fn decimal_text_with_separators() {
    assert_eq!(dec(123456789, 2).separate_with_commas(), "1,234,567.89");
    assert_eq!(dec(-1000, 0).separate_with_commas(), "-1,000");
    assert_eq!(dec(999, 0).separate_with_commas(), "999");
}

#[test]
fn separators_only_in_the_whole_part() {
    assert_eq!(dec(-5, 3).separate_with_commas(), "-0.005");
    assert_eq!(dec(1234, 0).separate_with_commas(), "1,234");
    assert_eq!(dec(-123456, 7).separate_with_commas(), "-0.0123456");
    assert_eq!(dec(1234567, 4).separate_with_commas(), "123.4567");
    assert_eq!(dec(MAX, 0).separate_with_commas(), "79,228,162,514,264,337,593,543,950,335");
}

#[test]
fn exact_parsing() {
    assert_eq!(Amount::from_str_exact("12.50"), Some(dec(1250, 2)));
    assert_eq!(Amount::from_str_exact("-3"), Some(dec(-3, 0)));
    assert_eq!(Amount::from_str_exact("abc"), None);
    assert_eq!(Amount::from_str_exact("1."), Some(dec(1, 0)));
}

#[test]
fn lossy_parsing() {
    assert_eq!(Amount::parse("1.5").ok(), Some(dec(15, 1)));
    assert_eq!(Amount::parse("286.27").ok(), Some(dec(28627, 2)));
    assert!(Amount::parse("x1").is_err());
}
