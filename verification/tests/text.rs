use kiro_web_search::text::decimal_string;

#[test]
fn decimal_of_small_and_large_numbers() {
    assert_eq!(decimal_string(0), "0");
    assert_eq!(decimal_string(9), "9");
    assert_eq!(decimal_string(10), "10");
    assert_eq!(decimal_string(3000), "3000");
    assert_eq!(decimal_string(usize::MAX), usize::MAX.to_string());
}
