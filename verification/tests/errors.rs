use rift_l1::decimal::{format_i128, format_u128, magnitude};
use rift_l1::InvariantError;

#[test]
fn error_new_keeps_text() {
    assert_eq!(InvariantError::new("boom").0, "boom");
}

#[test]
fn error_overflow_prefix() {
    assert_eq!(InvariantError::overflow("x").0, "Overflow: x");
}

#[test]
fn error_underflow_prefix() {
    assert_eq!(InvariantError::underflow("y").0, "Underflow: y");
}

#[test]
fn error_violation_prefix() {
    assert_eq!(InvariantError::violation("z").0, "Invariant violation: z");
}

#[test]
fn error_display_text() {
    let e = InvariantError::new("bad");
    assert_eq!(e.to_string(), "Invariant Error: bad");
}

#[test]
fn decimal_text_of_integers() {
    assert_eq!(format_u128(0), "0");
    assert_eq!(format_u128(1234567890), "1234567890");
    assert_eq!(format_u128(u128::MAX), u128::MAX.to_string());
    assert_eq!(format_i128(-7), "-7");
    assert_eq!(format_i128(i128::MIN), i128::MIN.to_string());
    assert_eq!(format_i128(i128::MAX), i128::MAX.to_string());
    assert_eq!(magnitude(i128::MIN), 1u128 << 127);
    assert_eq!(magnitude(-5), 5);
    assert_eq!(magnitude(9), 9);
}
