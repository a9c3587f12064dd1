use tryfol::number::{push_decimal, Japanese, Utils};

#[test]
fn digit_count_unsigned() {
    assert_eq!(0u8.digit_count(), 1);
    assert_eq!(9u16.digit_count(), 1);
    assert_eq!(10u32.digit_count(), 2);
    assert_eq!(u64::MAX.digit_count(), 20);
    assert_eq!(12345usize.digit_count(), 5);
}

#[test]
fn digit_count_signed_ignores_sign() {
    assert_eq!((-1i8).digit_count(), 1);
    assert_eq!(i8::MIN.digit_count(), 3);
    assert_eq!((-100i32).digit_count(), 3);
    assert_eq!(i64::MIN.digit_count(), 19);
    assert_eq!(0isize.digit_count(), 1);
}

#[test]
fn first_digit_keeps_sign() {
    assert_eq!(Utils::first_digit(4321u32), 4);
    assert_eq!(Utils::first_digit(7u8), 7);
    assert_eq!((-987i32).first_digit(), -9);
    assert_eq!(i64::MIN.first_digit(), -9);
    assert_eq!(i16::MAX.first_digit(), 3);
    assert_eq!(0i64.first_digit(), 0);
}

#[test]
fn japanese_i32_direct() {
    assert_eq!(3i32.as_japanese_direct(), Some("三"));
    assert_eq!(100i32.as_japanese_direct(), Some("百"));
    assert_eq!((-1i32).as_japanese_direct(), None);
    assert_eq!(11i32.as_japanese_direct(), None);
    assert_eq!(10_000i32.to_japanese(), "万");
    assert_eq!(0i32.to_japanese(), "〇");
}

#[test]
fn decimal_text() {
    let mut s = "n=".to_string();
    push_decimal(&mut s, 0);
    assert_eq!(s, "n=0");
    let mut s = String::new();
    push_decimal(&mut s, u64::MAX);
    assert_eq!(s, u64::MAX.to_string());
}

#[test]
fn japanese_i32_composed() {
    assert_eq!(21i32.to_japanese(), "二十一");
    assert_eq!(305i32.to_japanese(), "三百五");
    assert_eq!(11i32.to_japanese(), "十一");
    assert_eq!(2024i32.to_japanese(), "二千二十四");
    assert_eq!(99_999i32.to_japanese(), "九万九千九百九十九");
    for n in 0..100_000i32 {
        assert_eq!(n.to_japanese(), tryfol::workspaces::NumberExt::to_japanese(&(n as u32)), "{n}");
    }
}
