use chinese_compiler::ling_number::chinese_to_number;

#[test]
fn decodes_positional_example() {
    assert_eq!(chinese_to_number("一千二百三十四"), Some(1234));
}

#[test]
fn decodes_bare_ten() {
    assert_eq!(chinese_to_number("十"), Some(10));
}

#[test]
fn decodes_two_myriads() {
    assert_eq!(chinese_to_number("二万"), Some(20000));
}

#[test]
fn decodes_with_interior_zero() {
    assert_eq!(chinese_to_number("三千零五"), Some(3005));
}

#[test]
fn decodes_single_digits_and_units() {
    assert_eq!(chinese_to_number("零"), Some(0));
    assert_eq!(chinese_to_number("〇"), Some(0));
    assert_eq!(chinese_to_number("七"), Some(7));
    assert_eq!(chinese_to_number("百"), Some(100));
    assert_eq!(chinese_to_number("千"), Some(1000));
    assert_eq!(chinese_to_number("万"), Some(10000));
}

#[test]
fn decodes_implicit_leading_one() {
    assert_eq!(chinese_to_number("十五"), Some(15));
    assert_eq!(chinese_to_number("千二"), Some(1002));
}

#[test]
fn decodes_myriad_grouping() {
    assert_eq!(chinese_to_number("一万二千三百四十五"), Some(12345));
    assert_eq!(chinese_to_number("二十三万"), Some(230000));
}

#[test]
fn empty_input_decodes_to_zero() {
    assert_eq!(chinese_to_number(""), Some(0));
}

#[test]
fn unrecognized_characters_are_skipped() {
    assert_eq!(chinese_to_number("abc"), Some(0));
    assert_eq!(chinese_to_number("二x三"), Some(3));
}

#[test]
fn trailing_digit_is_added() {
    assert_eq!(chinese_to_number("二十三"), Some(23));
}

#[test]
fn overflowing_numeral_is_refused() {
    assert_eq!(chinese_to_number("万万万万万"), None);
}
