use tolerance::Unit;

#[test]
fn multiply_with_number() {
    assert_eq!(30_000, 3 * Unit::MM());
    assert_eq!(550_000_000, 55 * Unit::METER());
}

#[test]
fn be_equal_dyn() {
    assert_eq!(Unit::MY(), Unit::potency(1));
    assert_eq!(Unit::MM(), Unit::potency(4));
    assert_eq!(Unit::potency(7), Unit::METER());
}

#[test]
fn be_const() {
    assert_eq!(3_048_000, Unit::FT().0);
    assert_eq!(9_144_000, Unit::YD().0);
    assert_eq!(16_093_440_000, Unit::MILE().0);
}

#[test]
fn unit_table() {
    assert_eq!(Unit::CM().multiply(), 100_000);
    assert_eq!(Unit::INCH().multiply(), 254_000);
    assert_eq!(Unit::KM(), Unit::potency(10));
    assert_eq!(Unit::potency(0).multiply(), 1);
    assert_eq!(Unit::MM() * 3, Unit(30_000));
    assert_eq!(i64::from(Unit::MY()), 10);
}
