use rigid_bodies::rational::Rat;

#[test]
fn zero_denominator_refused() {
    assert!(Rat::new(1, 0).is_none());
    assert!(Rat::new(0, 0).is_none());
}

#[test]
fn sign_normalized() {
    let r = Rat::new(-3, -6).unwrap();
    assert_eq!(r.num(), 1);
    assert_eq!(r.den(), 2);
    assert!(r.eq_val(Rat::new(1, 2).unwrap()));
}

#[test]
fn exact_arithmetic() {
    let a = Rat::new(1, 3).unwrap();
    let b = Rat::new(1, 6).unwrap();
    assert!(a.add(b).unwrap().eq_val(Rat::new(1, 2).unwrap()));
    assert!(a.sub(b).unwrap().eq_val(Rat::new(1, 6).unwrap()));
    assert!(a.mul(b).unwrap().eq_val(Rat::new(1, 18).unwrap()));
    assert!(a.div(b).unwrap().eq_val(Rat::new(2, 1).unwrap()));
    assert!(a.neg().eq_val(Rat::new(-1, 3).unwrap()));
}

#[test]
fn division_by_zero_refused() {
    let a = Rat::new(5, 7).unwrap();
    let z = Rat::new(0, 9).unwrap();
    assert!(a.div(z).is_none());
    assert!(z.div(a).unwrap().eq_val(Rat::zero()));
}

#[test]
fn negative_divisor_sign() {
    let a = Rat::new(3, 4).unwrap();
    let b = Rat::new(-2, 5).unwrap();
    assert!(a.div(b).unwrap().eq_val(Rat::new(-15, 8).unwrap()));
}

#[test]
fn comparisons() {
    let a = Rat::new(1, 3).unwrap();
    let b = Rat::new(2, 5).unwrap();
    assert!(a.lt(b));
    assert!(a.le(b));
    assert!(!b.le(a));
    assert!(a.le(a));
    assert!(!a.lt(a));
    assert!(a.eq_val(Rat::new(2, 6).unwrap()));
    assert!(!a.eq_val(b));
}

#[test]
fn overflow_returns_none() {
    let big = Rat::new(i64::MAX, 1).unwrap();
    assert!(big.add(big).is_none());
    assert!(big.mul(big).is_none());
    let third = Rat::new(1, 3).unwrap();
    let deep = Rat::new(1, i64::MAX).unwrap();
    assert!(deep.mul(third).is_none());
}

#[test]
fn minimum_magnitude_refused() {
    // the stored range is symmetric: i64::MIN has no negation
    assert!(Rat::new(i64::MIN, 1).is_none());
    assert!(Rat::new(1, i64::MIN).is_none());
    assert!(Rat::new(i64::MIN + 1, 1).is_some());
}
