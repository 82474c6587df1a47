use bezier::{sign_changes, Sign};

#[test]
fn sign_changes_skip_zero() {
    let signs = vec![Sign::Positive, Sign::Zero, Sign::Negative, Sign::Negative, Sign::Positive];
    assert_eq!(sign_changes(&signs), 2);
}

#[test]
fn sign_changes_empty_and_all_zero() {
    assert_eq!(sign_changes(&vec![]), 0);
    assert_eq!(sign_changes(&vec![Sign::Zero, Sign::Zero, Sign::Zero]), 0);
}

#[test]
fn sign_changes_zero_between_equal_signs_is_no_change() {
    let signs = vec![Sign::Negative, Sign::Zero, Sign::Negative];
    assert_eq!(sign_changes(&signs), 0);
}

#[test]
fn sign_changes_alternating() {
    let signs = vec![Sign::Positive, Sign::Negative, Sign::Positive, Sign::Negative];
    assert_eq!(sign_changes(&signs), 3);
}

#[test]
fn negate_keeps_zero() {
    assert_eq!(Sign::Zero.negate(), Sign::Zero);
    assert_eq!(Sign::Positive.negate(), Sign::Negative);
    assert_eq!(Sign::Negative.negate(), Sign::Positive);
}

#[test]
fn end_behavior_of_odd_degree() {
    // 2x^3 - 6x^2 + 2x - 1 tends to +inf at +inf and to -inf at -inf
    assert_eq!(Sign::at_infinity(Sign::Positive, 3, false), Sign::Positive);
    assert_eq!(Sign::at_infinity(Sign::Positive, 3, true), Sign::Negative);
}

#[test]
fn end_behavior_of_even_degree() {
    assert_eq!(Sign::at_infinity(Sign::Negative, 4, true), Sign::Negative);
    assert_eq!(Sign::at_infinity(Sign::Negative, 4, false), Sign::Negative);
    assert_eq!(Sign::at_infinity(Sign::Positive, 0, true), Sign::Positive);
}

#[test]
fn sturm_signs_at_infinities() {
    // Sturm sequence of x^4 + x^3 - x - 1: leading signs and degrees
    let chain = [
        (Sign::Positive, 4),
        (Sign::Positive, 3),
        (Sign::Positive, 2),
        (Sign::Negative, 1),
        (Sign::Negative, 0),
    ];
    let at = |negative: bool| -> Vec<Sign> {
        chain.iter().map(|(s, d)| Sign::at_infinity(*s, *d, negative)).collect()
    };
    assert_eq!(sign_changes(&at(true)), 3);
    assert_eq!(sign_changes(&at(false)), 1);
}
