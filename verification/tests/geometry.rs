use rollback_core::arena::{clamp_i64, step_i64};
use rollback_core::input::{pick_axis, Sign};

#[test]
fn clamp_brings_a_value_into_its_range() {
    assert_eq!(clamp_i64(5, -10, 10), 5);
    assert_eq!(clamp_i64(-11, -10, 10), -10);
    assert_eq!(clamp_i64(11, -10, 10), 10);
    assert_eq!(clamp_i64(-10, -10, 10), -10);
    assert_eq!(clamp_i64(10, -10, 10), 10);
    assert_eq!(clamp_i64(i64::MIN, -10, 10), -10);
    assert_eq!(clamp_i64(i64::MAX, -10, 10), 10);
}

#[test]
fn a_step_follows_the_sign_and_shortens_on_a_diagonal() {
    assert_eq!(step_i64(Sign::Plus, Sign::Zero, 7_000, 4_950), 7_000);
    assert_eq!(step_i64(Sign::Minus, Sign::Zero, 7_000, 4_950), -7_000);
    assert_eq!(step_i64(Sign::Zero, Sign::Zero, 7_000, 4_950), 0);
    assert_eq!(step_i64(Sign::Plus, Sign::Minus, 7_000, 4_950), 4_950);
    assert_eq!(step_i64(Sign::Minus, Sign::Plus, 7_000, 4_950), -4_950);
    assert_eq!(step_i64(Sign::Zero, Sign::Plus, 7_000, 4_950), 0);
}

#[test]
fn the_diagonal_step_is_the_nearest_to_the_root() {
    for (straight, diagonal) in [(7_000f64, 4_950i64), (20_000f64, 14_142i64)] {
        let exact = straight / 2f64.sqrt();
        assert_eq!(exact.round() as i64, diagonal);
    }
}

#[test]
fn two_controls_of_one_axis() {
    assert_eq!(pick_axis(false, false), Sign::Zero);
    assert_eq!(pick_axis(true, true), Sign::Zero);
    assert_eq!(pick_axis(true, false), Sign::Minus);
    assert_eq!(pick_axis(false, true), Sign::Plus);
}
