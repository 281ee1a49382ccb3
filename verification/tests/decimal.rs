use empire::domain::decimal::Decimal;

fn dec(mantissa: i128, scale: u32) -> Decimal {
    Decimal::new(mantissa, scale)
}

fn same(a: &Decimal, b: &Decimal) -> bool {
    a.same_value(b)
}

#[test]
fn sums_align_scales() {
    let s = dec(15, 1).sum(&dec(25, 2));
    assert_eq!(s.scale, 2);
    assert!(same(&s, &dec(175, 2)));
    assert!(same(&dec(-3, 0).sum(&dec(5, 1)), &dec(-25, 1)));
}

#[test]
fn products_add_scales() {
    let p = dec(15, 1).checked_mul(&dec(12, 1)).unwrap();
    assert_eq!(p.scale, 2);
    assert!(same(&p, &dec(180, 2)));
    assert!(same(&Decimal::from_int(7).checked_mul(&dec(-2, 0)).unwrap(), &dec(-14, 0)));
    assert!(dec(1, u32::MAX).checked_mul(&dec(1, 1)).is_none());
}

#[test]
fn arithmetic_has_no_size_bound() {
    // sums and products far past 128 bits stay exact
    let big = dec(i128::MAX, 0);
    let total = big.sum(&dec(1, 0)).sum(&dec(-i128::MAX, 0));
    assert!(same(&total, &dec(1, 0)));
    let square = big.checked_mul(&big).unwrap();
    assert!(square.lt(&square.sum(&dec(1, 0))));
    assert!(big.lt(&square));
    assert!(same(&dec(1, 0).sum(&dec(1, 40)).sum(&dec(-1, 40)), &dec(1, 0)));
}

#[test]
fn comparison_is_by_value() {
    assert!(dec(5, 1).lt(&dec(6, 1)));
    assert!(!dec(50, 2).lt(&dec(5, 1)));
    assert!(!dec(5, 1).lt(&dec(50, 2)));
    assert!(dec(-1, 0).lt(&dec(-5, 1)));
    assert!(dec(-1, 40).lt(&dec(1, 0)));
    assert!(!dec(i128::MAX, 0).lt(&dec(1, 40)));
}

#[test]
fn clamp_keeps_values_in_range() {
    let lo = || dec(5, 1);
    let hi = || Decimal::from_int(3);
    assert!(same(&dec(1, 1).clamp(lo(), hi()), &lo()));
    assert!(same(&dec(31, 1).clamp(lo(), hi()), &hi()));
    assert!(same(&dec(12, 1).clamp(lo(), hi()), &dec(12, 1)));
}

#[test]
fn truncation_and_division() {
    assert_eq!(dec(-375, 2).to_i64(), Some(-3));
    assert_eq!(dec(999, 2).to_i64(), Some(9));
    assert_eq!(dec(i128::MAX, 0).to_i64(), None);
    let q = Decimal::from_int(7200).div_int(3600).unwrap();
    assert_eq!(q.scale, 0);
    assert!(same(&q, &dec(2, 0)));
    let half = Decimal::from_int(1800).div_int(3600).unwrap();
    assert!(same(&half, &dec(5, 1)));
}
