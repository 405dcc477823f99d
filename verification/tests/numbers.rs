use nanvix_bench::text::{decimal_left_aligned, decimal_right_aligned, digit, push_hex_byte, to_decimal};

#[test]
fn decimal_is_what_display_prints() {
    for n in [0u128, 1, 9, 10, 11, 99, 100, 65535, 1000000007, u64::MAX as u128, u128::MAX] {
        assert_eq!(to_decimal(n), format!("{n}"));
        assert_eq!(to_decimal(n).parse::<u128>(), Ok(n));
    }
}

#[test]
fn padding_is_what_format_pads() {
    for n in [0u16, 7, 42, 999, 10000, 65535] {
        assert_eq!(decimal_right_aligned(n as u128, 5), format!("{n:5}"));
        assert_eq!(decimal_left_aligned(n as u128, 2), format!("{n:<2}"));
    }
    assert_eq!(decimal_right_aligned(123, 2), "123");
}

#[test]
fn bytes_are_two_hexadecimal_digits() {
    for b in 0..=255u8 {
        let mut s = String::from("x");
        push_hex_byte(&mut s, b);
        assert_eq!(s, format!("x{b:02x}"));
    }
    assert_eq!(digit(15), 'f');
}
