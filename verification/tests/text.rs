use pvoutput_sync::text::{push_decimal, push_padded2, push_padded4, push_year};

fn decimal(n: u64) -> String {
    let mut out = String::new();
    push_decimal(&mut out, n);
    out
}

fn year(y: i32) -> String {
    let mut out = String::new();
    push_year(&mut out, y);
    out
}

#[test]
fn decimal_digits_without_leading_zeros() {
    assert_eq!(decimal(0), "0");
    assert_eq!(decimal(7), "7");
    assert_eq!(decimal(10), "10");
    assert_eq!(decimal(305), "305");
    assert_eq!(decimal(u64::MAX), "18446744073709551615");
}

#[test]
fn decimal_is_appended_behind_what_is_there() {
    let mut out = String::from("x=");
    push_decimal(&mut out, 42);
    assert_eq!(out, "x=42");
}

#[test]
fn two_digit_fields_are_zero_padded() {
    for (n, text) in [(0u64, "00"), (5, "05"), (9, "09"), (10, "10"), (59, "59")] {
        let mut out = String::new();
        push_padded2(&mut out, n);
        assert_eq!(out, text);
    }
}

#[test]
fn four_digit_fields_are_zero_padded() {
    for (n, text) in [(0u64, "0000"), (7, "0007"), (42, "0042"), (999, "0999"), (1000, "1000"), (12345, "12345")] {
        let mut out = String::new();
        push_padded4(&mut out, n);
        assert_eq!(out, text);
    }
}

#[test]
fn years_of_four_digits_carry_no_sign() {
    assert_eq!(year(2024), "2024");
    assert_eq!(year(1970), "1970");
    assert_eq!(year(999), "0999");
    assert_eq!(year(0), "0000");
    assert_eq!(year(9999), "9999");
}

#[test]
fn years_outside_four_digits_carry_a_sign() {
    assert_eq!(year(10000), "+10000");
    assert_eq!(year(262142), "+262142");
    assert_eq!(year(-1), "-0001");
    assert_eq!(year(-262143), "-262143");
    assert_eq!(year(i32::MIN), "-2147483648");
    assert_eq!(year(i32::MAX), "+2147483647");
}
