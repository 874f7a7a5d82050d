use bayesian_ridge::fx::{Fx, SCALE};

fn whole(v: i64) -> Fx {
    Fx::from_int(v).unwrap()
}

#[test]
fn from_int_scales() {
    assert_eq!(whole(3).raw, 3 * SCALE);
    assert_eq!(whole(-2).raw, -2 * SCALE);
    assert_eq!(Fx::zero().raw, 0);
    assert_eq!(Fx::one().raw, SCALE);
}

#[test]
fn from_int_rejects_out_of_range() {
    assert!(Fx::from_int(i64::MAX).is_none());
}

#[test]
fn add_and_sub_are_exact() {
    let a = whole(5);
    let b = whole(-3);
    assert_eq!(a.checked_add(b).unwrap().raw, 2 * SCALE);
    assert_eq!(a.checked_sub(b).unwrap().raw, 8 * SCALE);
    assert!(Fx::from_raw(i64::MAX).checked_add(Fx::one()).is_none());
}

#[test]
fn mul_truncates_toward_zero() {
    let half = Fx::from_raw(SCALE / 2);
    assert_eq!(whole(3).checked_mul(half).unwrap().raw, 3 * SCALE / 2);
    // (-1/3) * (1/3) = -1/9, truncated toward zero
    let third = Fx::from_raw(333_333_333);
    let neg_third = Fx::from_raw(-333_333_333);
    let p = neg_third.checked_mul(third).unwrap();
    assert_eq!(p.raw, -111_111_110);
}

#[test]
fn div_truncates_toward_zero() {
    assert_eq!(whole(1).checked_div(whole(3)).unwrap().raw, 333_333_333);
    assert_eq!(whole(-7).checked_div(whole(2)).unwrap().raw, -3_500_000_000);
    assert_eq!(whole(7).checked_div(whole(-2)).unwrap().raw, -3_500_000_000);
    assert!(whole(1).checked_div(Fx::zero()).is_none());
}

#[test]
fn comparison_helpers() {
    assert!(whole(-1).lt(whole(1)));
    assert!(!whole(1).lt(whole(1)));
    assert_eq!(whole(2).max(whole(5)).raw, 5 * SCALE);
    assert_eq!(whole(5).max(whole(2)).raw, 5 * SCALE);
}
