use tcg::label::{counter_label, push_decimal};

#[test]
fn label_for_zero() {
    assert_eq!(counter_label(0), "Counter: 0");
}

#[test]
fn label_for_single_digits() {
    assert_eq!(counter_label(1), "Counter: 1");
    assert_eq!(counter_label(3), "Counter: 3");
    assert_eq!(counter_label(9), "Counter: 9");
}

#[test]
fn label_for_several_digits() {
    assert_eq!(counter_label(10), "Counter: 10");
    assert_eq!(counter_label(42), "Counter: 42");
    assert_eq!(counter_label(100), "Counter: 100");
    assert_eq!(counter_label(1009), "Counter: 1009");
    assert_eq!(counter_label(1234567890), "Counter: 1234567890");
}

#[test]
fn label_for_the_largest_counter() {
    assert_eq!(counter_label(u32::MAX), "Counter: 4294967295");
}

#[test]
fn label_agrees_with_std_formatting() {
    for n in 0..2500u32 {
        assert_eq!(counter_label(n), format!("Counter: {}", n));
    }
    let mut n: u32 = 1;
    for _ in 0..9 {
        n *= 10;
        assert_eq!(counter_label(n - 1), format!("Counter: {}", n - 1));
        assert_eq!(counter_label(n), format!("Counter: {}", n));
        assert_eq!(counter_label(n + 1), format!("Counter: {}", n + 1));
    }
}

#[test]
fn push_decimal_appends_to_what_is_there() {
    let mut text = String::from("n = ");
    push_decimal(&mut text, 70);
    assert_eq!(text, "n = 70");
    push_decimal(&mut text, 0);
    assert_eq!(text, "n = 700");
    let mut empty = String::new();
    push_decimal(&mut empty, 305);
    assert_eq!(empty, "305");
}
