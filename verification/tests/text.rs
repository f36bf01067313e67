use abr_infinity_fabric::text::{
    append_padded_left, append_padded_right, append_repeated, decimal_text, fixed_point_text,
    signed_decimal_text, signed_fixed_point_text,
};

#[test]
fn decimal_text_renders_integers() {
    assert_eq!(decimal_text(0), "0");
    assert_eq!(decimal_text(7), "7");
    assert_eq!(decimal_text(1_194_800), "1194800");
    assert_eq!(decimal_text(u128::MAX), u128::MAX.to_string());
}

#[test]
fn signed_decimal_text_renders_sign() {
    assert_eq!(signed_decimal_text(0), "0");
    assert_eq!(signed_decimal_text(-55), "-55");
    assert_eq!(signed_decimal_text(74_675), "74675");
    assert_eq!(signed_decimal_text(i128::MIN), i128::MIN.to_string());
}

#[test]
fn fixed_point_text_rounds_to_nearest() {
    assert_eq!(fixed_point_text(1, 3, 4), "0.3333");
    assert_eq!(fixed_point_text(2, 3, 4), "0.6667");
    assert_eq!(fixed_point_text(1, 8, 2), "0.12");
    assert_eq!(fixed_point_text(3, 8, 2), "0.38");
    assert_eq!(fixed_point_text(1, 4, 1), "0.2");
    assert_eq!(fixed_point_text(3, 4, 1), "0.8");
    assert_eq!(fixed_point_text(51, 100, 0), "1");
    assert_eq!(fixed_point_text(5, 10, 0), "0");
    assert_eq!(fixed_point_text(8000, 1000, 4), "8.0000");
    assert_eq!(fixed_point_text(512_000, 64_000, 1), "8.0");
    assert_eq!(fixed_point_text(15, 10, 0), "2");
    assert_eq!(fixed_point_text(7945, 1000, 3), "7.945");
    assert_eq!(fixed_point_text(5, 100, 2), "0.05");
}

#[test]
fn fixed_point_text_ties_match_float_formatting() {
    for (num, den, d) in [(1u128, 8u128, 2u32), (3, 8, 2), (1, 4, 1), (3, 4, 1), (15, 10, 0), (5, 2, 0), (7, 2, 0)] {
        let x = num as f64 / den as f64;
        assert_eq!(fixed_point_text(num, den, d), format!("{:.*}", d as usize, x));
    }
}

#[test]
fn signed_fixed_point_text_renders_sign() {
    assert_eq!(signed_fixed_point_text(10, 1000, 4, true), "+0.0100");
    assert_eq!(signed_fixed_point_text(-55, 1000, 4, true), "-0.0550");
    assert_eq!(signed_fixed_point_text(23, 1000, 4, false), "0.0230");
    assert_eq!(signed_fixed_point_text(0, 1000, 1, true), "+0.0");
}

#[test]
fn padding_fills_to_width() {
    let mut s = String::new();
    append_padded_left(&mut s, "42", 5);
    assert_eq!(s, "   42");
    append_padded_right(&mut s, "ab", 4);
    assert_eq!(s, "   42ab  ");
    append_padded_left(&mut s, "toolong", 3);
    assert_eq!(s, "   42ab  toolong");
    append_repeated(&mut s, "-", 3);
    assert_eq!(s, "   42ab  toolong---");
}
