use std::cmp::Ordering;
use tolerance::{Myth16, Myth32, Myth64, Unit};

fn mm(f: f64) -> Myth32 {
    Myth32((f * 10_000.0) as i32)
}

#[test]
fn myth32_try_from_str() {
    let d = Myth32::try_from("12345.12343").unwrap();
    assert_eq!(d, Myth32(123_451_234));
    let d = Myth32::try_from("6.02").unwrap();
    assert_eq!(d, Myth32(60_200));

    let d = Myth32::try_from(" +2.07").unwrap();
    assert_eq!(d, Myth32(20_700));
    let d = Myth32::try_from("-3.01").unwrap();
    assert_eq!(d, Myth32(-30_100));
}

#[test]
fn cmp() {
    let s1 = Myth32(200_000);
    let i1 = Myth32(190_000);
    let s2 = mm(20.0);
    let i2 = mm(19.0);

    assert!(s1 > i1);
    assert_eq!(s1.partial_cmp(&i1).unwrap(), Ordering::Greater);
    assert_eq!(s1, s1);
    assert_eq!(s1.partial_cmp(&s1).unwrap(), Ordering::Equal);

    assert!(s2 > i2);
    assert_eq!(s2.partial_cmp(&i2).unwrap(), Ordering::Greater);
    assert_eq!(s2, s1);
    assert_eq!(s2.partial_cmp(&s1).unwrap(), Ordering::Equal);

    assert_eq!(i1.cmp(&s1), Ordering::Less);
    assert_eq!(i1.cmp(&i1), Ordering::Equal);
}

#[test]
fn myth32_neg() {
    let m = -Myth32(232_332);
    let n = Myth32(-232_332);
    assert_eq!(n.0, m.0);
    assert_eq!(n, m);
}

#[test]
fn myth32_round() {
    let m = Myth32(1_234_567);
    assert_eq!(Myth32(1_234_570), m.round(Unit::MY()));
    assert_eq!(Myth32(1_200_000), m.round(Unit::CM()));
    assert_eq!(Myth32(10_000_000), Myth32(9_999_000).round(Unit::MM()));
    assert_eq!(Myth32(0), mm(-0.4993).round(Unit::MM()));
    assert_eq!(Myth32(-4990), mm(-0.4993).round(Unit::MY()));
    assert_eq!(Myth32(-10000), Myth32::from(-5000).round(Unit::MM()));
    let m = mm(340.993);
    assert_eq!(10, Unit::potency(1).multiply());
    assert_eq!(Myth32(3_409_930), m.round(Unit::potency(1)));
    assert_eq!(100, Unit::potency(2).multiply());
    assert_eq!(Myth32(3_409_900), m.round(Unit::potency(2)));
    assert_eq!(1000, Unit::potency(3).multiply());
    assert_eq!(Myth32(3_410_000), m.round(Unit::potency(3)));
    assert_eq!(Myth32(3_400_000), m.floor(Unit::potency(4)));
    assert_eq!(-340.000, -(340.993_f64.floor()));
    assert_eq!(Myth32(-3_410_000), mm(-340.993).floor(Unit::potency(4)));
}

#[test]
fn myth32_display() {
    let m = Myth32(12455);
    assert_eq!("1.2455", m.to_string().as_str());
    assert_eq!("1.246", m.format(Some(3)).as_str());
    assert_eq!("1.2", m.format(Some(1)).as_str());
    assert_eq!("1.2455", m.format(Some(7)).as_str());
    assert_eq!("1", m.format(Some(0)).as_str());
    assert_eq!("-1.2455", (-m).format(Some(7)).as_str());
    let m = Myth32(-455);
    assert_eq!("-0.0455", m.to_string().as_str());
    assert_eq!("-0.345", Myth32(-3450).to_string().as_str());
    assert_eq!("-455", m.format_raw().as_str());
    let m = mm(4566.4689);
    assert_eq!(m.format(Some(3)), "4566.469");
    let m = Myth32::ZERO();
    assert_eq!(m.format(Some(2)), "0.00");
}

#[test]
fn myth32_min_max() {
    let max = Myth32::MAX();
    let min = Myth32::MIN();

    assert_eq!(max.0, 2_147_483_647);
    assert_eq!(min.0, -2_147_483_648);
    assert_eq!(max.format(Some(0)), "214748");
}

#[test]
fn compute_absolute_value() {
    assert_eq!(Myth32::from(23455), Myth32::from(23455).abs());
    assert_eq!(Myth32::from(23455), Myth32::from(-23455).abs());
    assert_eq!(Myth32::from(0), Myth32::from(0).abs());
}

#[test]
fn narrowing_reports_overflow() {
    let big = Myth64(1_000_000);
    let r = Myth16::try_from(big);
    assert!(r.is_err());
    assert_eq!(r.unwrap_err().message(), "out of range integral type conversion attempted");
    assert_eq!(Myth32::try_from(Myth64(-123)), Ok(Myth32(-123)));
    assert_eq!(Myth64::from(Myth16(-7)), Myth64(-7));
    assert_eq!(Myth32(5) + Myth16(-7), Myth32(-2));
}
