use single_resource_pool::{Decimal, PreciseDecimal};

#[test]
fn decimals_are_built_from_integers() {
    assert_eq!(Decimal::zero().digits, [0, 0, 0]);
    assert_eq!(Decimal::one().digits, [1_000_000_000_000_000_000, 0, 0]);
    assert_eq!(Decimal::from_u64(1), Decimal::one());
    assert_eq!(Decimal::from_u64(0), Decimal::zero());
    assert_eq!(Decimal::from_u64(20).digits, [1553255926290448384, 1, 0]);
    assert_eq!(
        Decimal::from_u64(u64::MAX).digits,
        [17446744073709551616, 999999999999999999, 0]
    );
    assert_eq!(Decimal::from_attos(0), Decimal::zero());
    assert_eq!(Decimal::from_attos(1_000_000_000_000_000_000), Decimal::one());
    assert_eq!(Decimal::from_attos(-1).digits, [u64::MAX, u64::MAX, u64::MAX]);
    assert_eq!(Decimal::from_attos(i128::MAX).digits, [u64::MAX, 0x7fff_ffff_ffff_ffff, 0]);
    assert_eq!(Decimal::from_attos(i128::MIN).digits, [0, 0x8000_0000_0000_0000, u64::MAX]);
    assert_eq!(Decimal::from_attos(-18446744073709551616).digits, [0, u64::MAX, u64::MAX]);
}

#[test]
fn precise_decimals_are_built_from_integers() {
    assert_eq!(PreciseDecimal::zero().digits, [0, 0, 0, 0]);
    assert_eq!(
        PreciseDecimal::one(),
        PreciseDecimal::from_subunits(1_000_000_000_000_000_000_000_000_000_000_000_000)
    );
    assert_eq!(PreciseDecimal::from_subunits(-1).digits, [u64::MAX; 4]);
    assert_eq!(PreciseDecimal::from_subunits(5).digits, [5, 0, 0, 0]);
    assert!(PreciseDecimal::from_subunits(-1).is_negative());
    assert!(!PreciseDecimal::one().is_negative());
    assert!(PreciseDecimal::zero().is_zero());
    assert!(!PreciseDecimal::one().is_zero());
    assert!(PreciseDecimal::one().same(&PreciseDecimal::one()));
    assert!(!PreciseDecimal::one().same(&PreciseDecimal::zero()));
}

#[test]
fn decimals_know_their_sign() {
    let minus = Decimal::from_attos(-1);
    let plus = Decimal::from_attos(1);
    assert!(minus.is_negative() && !minus.is_zero() && !minus.is_positive());
    assert!(!plus.is_negative() && !plus.is_zero() && plus.is_positive());
    let zero = Decimal::zero();
    assert!(!zero.is_negative() && zero.is_zero() && !zero.is_positive());
    let smallest = Decimal { digits: [0, 0, 0x8000_0000_0000_0000] };
    assert!(smallest.is_negative());
    let largest = Decimal { digits: [u64::MAX, u64::MAX, 0x7fff_ffff_ffff_ffff] };
    assert!(largest.is_positive());
}

#[test]
fn decimals_are_ordered_by_their_value() {
    let smallest = Decimal { digits: [0, 0, 0x8000_0000_0000_0000] };
    let largest = Decimal { digits: [u64::MAX, u64::MAX, 0x7fff_ffff_ffff_ffff] };
    let ordered = [
        smallest,
        Decimal::from_attos(i128::MIN),
        Decimal::from_attos(-18446744073709551617),
        Decimal::from_attos(-18446744073709551616),
        Decimal::from_attos(-2),
        Decimal::from_attos(-1),
        Decimal::zero(),
        Decimal::from_attos(1),
        Decimal::one(),
        Decimal::from_attos(18446744073709551615),
        Decimal::from_attos(18446744073709551616),
        Decimal::from_attos(i128::MAX),
        Decimal { digits: [0, 0, 1] },
        largest,
    ];
    for (i, a) in ordered.iter().enumerate() {
        for (j, b) in ordered.iter().enumerate() {
            assert_eq!(a.lt(b), i < j, "{:?} < {:?}", a, b);
            assert_eq!(a.le(b), i <= j, "{:?} <= {:?}", a, b);
            assert_eq!(a.same(b), i == j, "{:?} == {:?}", a, b);
        }
    }
}
