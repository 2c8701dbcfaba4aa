use btc_iter2_backend::amount::Amount;

fn amt(n: u128) -> Amount {
    Amount::from_u128(n)
}

fn text(a: &Amount) -> String {
    String::from_utf8(a.to_decimal_ascii()).unwrap()
}

fn big(s: &str) -> Amount {
    Amount::from_decimal_ascii(s.as_bytes()).unwrap()
}

#[test]
fn amounts_render_in_decimal() {
    assert_eq!(text(&amt(0)), "0");
    assert_eq!(text(&amt(7)), "7");
    assert_eq!(text(&amt(1000)), "1000");
    assert_eq!(text(&amt(u128::MAX)), u128::MAX.to_string());
}

#[test]
fn decimal_text_is_read_as_candid_writes_it() {
    assert_eq!(text(&big("0")), "0");
    assert_eq!(text(&big("123456789012345678901234567890123456789012345")), "123456789012345678901234567890123456789012345");
    assert!(Amount::from_decimal_ascii(b"").is_none());
    assert!(Amount::from_decimal_ascii(b"007").is_none());
    assert!(Amount::from_decimal_ascii(b"1_000").is_none());
    assert!(Amount::from_decimal_ascii(b"-1").is_none());
}

#[test]
fn comparison_follows_value() {
    assert!(amt(99).lt(&amt(100)));
    assert!(!amt(100).lt(&amt(100)));
    assert!(!amt(101).lt(&amt(100)));
    assert!(amt(5).lt(&amt(10)));
    assert!(amt(19).lt(&amt(91)));
    assert!(!amt(91).lt(&amt(19)));
    let huge = big("340282366920938463463374607431768211456000");
    assert!(amt(u128::MAX).lt(&huge));
    assert!(!huge.lt(&amt(u128::MAX)));
}

#[test]
fn subtraction_with_borrows() {
    assert_eq!(text(&amt(250).sub(&amt(100))), "150");
    assert_eq!(text(&amt(100).sub(&amt(100))), "0");
    assert_eq!(text(&amt(1000).sub(&amt(1))), "999");
    assert_eq!(text(&amt(1000).sub(&amt(999))), "1");
    let huge = big("100000000000000000000000000000000000000000");
    assert_eq!(text(&huge.sub(&amt(1))), "99999999999999999999999999999999999999999");
    assert_eq!(text(&huge.clone().sub(&huge)), "0");
}
