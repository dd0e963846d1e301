use nice_trader::formatting::{i128_text, separate_with, u128_text, Separable};

fn check_commas(input: i64, expected: &str) {
    assert_eq!(input.separate_with_commas(), expected);
}

#[test]
fn test_separate_with_commas() {
    check_commas(0, "0");
    check_commas(1, "1");
    check_commas(12, "12");
    check_commas(123, "123");
    check_commas(1234, "1,234");
    check_commas(12345, "12,345");
    check_commas(123456, "123,456");
    check_commas(1234567, "1,234,567");
    check_commas(-1234, "-1,234");
    check_commas(-1234567, "-1,234,567");
}

#[test]
fn test_separate_with_underscores() {
    assert_eq!(1234i64.separate_with_underscores(), "1_234");
    assert_eq!(1234567i64.separate_with_underscores(), "1_234_567");
}

#[test]
fn test_decimal_text_with_fraction() {
    assert_eq!("1234.56".separate_with_commas(), "1,234.56");
    assert_eq!("1234567.89".separate_with_underscores(), "1_234_567.89");
}

#[test]
fn test_string() {
    assert_eq!("1234567".separate_with_commas(), "1,234,567");
    assert_eq!("1234.5678".separate_with_underscores(), "1_234.5678");
    assert_eq!(String::from("-9876543").separate_with_commas(), "-9,876,543");
}

#[test]
fn test_separate_with_edge_cases() {
    assert_eq!(separate_with("", ','), "");
    assert_eq!(separate_with("-", ','), "-");
    assert_eq!(separate_with(".5", ','), ".5");
    assert_eq!(separate_with("1000.000.1", ','), "1,000.000.1");
    assert_eq!(separate_with("--1000", ','), "--1,000");
    assert_eq!(separate_with("12345", ' '), "12 345");
}

#[test]
fn test_separate_other_integer_types() {
    assert_eq!(255u8.separate_with_commas(), "255");
    assert_eq!((-128i8).separate_with_commas(), "-128");
    assert_eq!(65535u16.separate_with_commas(), "65,535");
    assert_eq!(u64::MAX.separate_with_commas(), "18,446,744,073,709,551,615");
    assert_eq!(i128::MIN.separate_with_underscores(), "-170_141_183_460_469_231_731_687_303_715_884_105_728");
    assert_eq!(u128::MAX.separate_with_commas(), "340,282,366,920,938,463,463,374,607,431,768,211,455");
    assert_eq!(1000000usize.separate_with_commas(), "1,000,000");
    assert_eq!((-1000isize).separate_with_commas(), "-1,000");
    assert_eq!(1000u32.separate_with_underscores(), "1_000");
    assert_eq!((-32768i16).separate_with_commas(), "-32,768");
    assert_eq!(2147483647i32.separate_with_commas(), "2,147,483,647");
}

#[test]
fn test_integer_text() {
    assert_eq!(u128_text(0), "0");
    assert_eq!(u128_text(907), "907");
    assert_eq!(i128_text(-5), "-5");
    assert_eq!(i128_text(i128::MIN), i128::MIN.to_string());
    assert_eq!(i128_text(i128::MAX), i128::MAX.to_string());
}

#[test]
fn test_separators_removed_give_input_back() {
    for s in ["123456789", "-1000000.25", "42", "1234567.891011"] {
        let out = separate_with(s, ',');
        assert_eq!(out.replace(',', ""), s.replace(',', ""));
    }
}

#[test]
fn test_separate_with_doc_example() {
    assert_eq!(separate_with("1234567.89", ','), "1,234,567.89");
}
