use systemd_compat::digits::i32_text;
use systemd_compat::digits::parse_u32;
use systemd_compat::digits::u32_digits;

#[test]
fn unsigned_values_render_in_decimal() {
    assert_eq!(u32_digits(0), "0");
    assert_eq!(u32_digits(7), "7");
    assert_eq!(u32_digits(42), "42");
    assert_eq!(u32_digits(4294967295), "4294967295");
}

#[test]
fn signed_values_render_with_their_sign() {
    assert_eq!(i32_text(0), "0");
    assert_eq!(i32_text(2), "2");
    assert_eq!(i32_text(-2), "-2");
    assert_eq!(i32_text(2147483647), "2147483647");
    assert_eq!(i32_text(-2147483648), "-2147483648");
}

#[test]
fn parse_accepts_what_std_accepts() {
    assert_eq!(parse_u32("0"), Some(0));
    assert_eq!(parse_u32("007"), Some(7));
    assert_eq!(parse_u32("+7"), Some(7));
    assert_eq!(parse_u32("4294967295"), Some(4294967295));
}

#[test]
fn parse_rejects_what_std_rejects() {
    assert_eq!(parse_u32(""), None);
    assert_eq!(parse_u32("+"), None);
    assert_eq!(parse_u32("-1"), None);
    assert_eq!(parse_u32("1a"), None);
    assert_eq!(parse_u32(" 1"), None);
    assert_eq!(parse_u32("4294967296"), None);
}
