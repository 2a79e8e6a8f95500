use dnsq::text::{push_decimal, push_padded, push_two_digits};

#[test]
fn decimal_is_appended() {
    let mut out = String::from("n=");
    push_decimal(&mut out, 0);
    assert_eq!(out, "n=0");
    push_decimal(&mut out, 1203);
    assert_eq!(out, "n=01203");
}

#[test]
fn short_text_is_right_aligned() {
    let mut out = String::new();
    push_padded(&mut out, "A", 5, ' ');
    assert_eq!(out, "    A");
}

#[test]
fn text_of_full_width_is_unchanged() {
    let mut out = String::new();
    push_padded(&mut out, "CNAME", 5, ' ');
    assert_eq!(out, "CNAME");
}

#[test]
fn longer_text_is_not_cut() {
    let mut out = String::from(">");
    push_padded(&mut out, "NSEC3PARAM", 5, ' ');
    assert_eq!(out, ">NSEC3PARAM");
}

#[test]
fn width_counts_characters_not_bytes() {
    let mut out = String::new();
    push_padded(&mut out, "\u{e9}\u{e9}", 4, '.');
    assert_eq!(out, "..\u{e9}\u{e9}");
}

#[test]
fn empty_text_gives_a_field_of_fill() {
    let mut out = String::new();
    push_padded(&mut out, "", 3, ' ');
    assert_eq!(out, "   ");
    let mut none = String::new();
    push_padded(&mut none, "", 0, ' ');
    assert_eq!(none, "");
}

#[test]
fn two_digits_are_zero_filled() {
    let mut out = String::new();
    push_two_digits(&mut out, 0);
    push_two_digits(&mut out, 7);
    push_two_digits(&mut out, 10);
    push_two_digits(&mut out, 59);
    push_two_digits(&mut out, 123);
    assert_eq!(out, "00071059123");
}
