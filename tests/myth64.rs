use tolerance::{Myth64, Unit};

fn mm(f: f64) -> Myth64 {
    Myth64((f * 10_000.0) as i64)
}

#[test]
fn multiply() {
    let d = Myth64(2_500_000);
    let p1 = Myth64(100_000);
    let p2 = Myth64(250_000);
    assert_eq!(d, p1 * 25);
    assert_eq!(d, 10 * p2);
}

#[test]
fn myth64_subtract() {
    let s = Myth64(350_000);
    let s1 = Myth64(100_000);
    let s2 = Myth64(250_000);

    assert_eq!(s1, s - s2);
    assert_eq!(s2, s - s1);
}

#[test]
fn myth64_try_from_str() {
    let d = Myth64::try_from("12345.12343").unwrap();
    assert_eq!(d, Myth64(123_451_234));
    let d = Myth64::try_from("6.02").unwrap();
    assert_eq!(d, Myth64(60_200));
    let d = Myth64::try_from("18").unwrap();
    assert_eq!(d, Myth64(180_000));
    let d = Myth64::try_from("0").unwrap();
    assert_eq!(d, Myth64(0));
    let d = Myth64::try_from("14.9300").unwrap();
    assert_eq!(d, Myth64(149_300));

    let d = Myth64::try_from(" +2.07").unwrap();
    assert_eq!(d, Myth64(20_700));
    let d = Myth64::try_from("-3.01").unwrap();
    assert_eq!(d, Myth64(-30_100));

    let d = Myth64::try_from(".01").unwrap();
    assert_eq!(d, Myth64(100));

    let d = Myth64::try_from(".01").unwrap();
    assert_eq!(d, Myth64(100));

    let d = Myth64::try_from("-.044").unwrap();
    assert_eq!(d, Myth64(-440));

    let d = Myth64::try_from("+.01").unwrap();
    assert_eq!(d, Myth64(100));

    let d = Myth64::try_from("-12345.12343").unwrap();
    assert_eq!(d, -Myth64(123_451_234));
    let d = Myth64::try_from("-12345.12346345").unwrap();
    assert_eq!(d, -Myth64(123_451_234));

    // not parsable
    let d = Myth64::try_from("12345*12343");
    assert!(d.is_err());

    let d = Myth64::try_from("   ");
    assert!(d.is_err());

    let d = Myth64::try_from(" -  ");
    assert!(d.is_err());

    let d = Myth64::try_from("+");
    assert!(d.is_err());

    let m = mm(5445.234);
    let m_s = m.to_string();
    assert_eq!("5445.234", m_s);
    assert_eq!(Ok(m), Myth64::try_from(m_s));
}

#[test]
fn myth64_round() {
    let m = Myth64(1_234_567);
    assert_eq!(Myth64(1_234_570), m.round(Unit::MY()));
    assert_eq!(Myth64(1_200_000), m.round(Unit::CM()));
    assert_eq!(Myth64(10_000_000), Myth64(9_999_000).round(Unit::MM()));
    assert_eq!(Myth64(0), mm(-0.4993).round(Unit::MM()));
    assert_eq!(Myth64(-4990), mm(-0.4993).round(Unit::MY()));
    assert_eq!(Myth64(-10000), Myth64::from(-5000).round(Unit::MM()));
    let m = mm(340.993);
    assert_eq!(10, Unit::potency(1).multiply());
    assert_eq!(Myth64(3_409_930), m.round(Unit::potency(1)));
    assert_eq!(100, Unit::potency(2).multiply());
    assert_eq!(Myth64(3_409_900), m.round(Unit::potency(2)));
    assert_eq!(1000, Unit::potency(3).multiply());
    assert_eq!(Myth64(3_410_000), m.round(Unit::potency(3)));
    assert_eq!(Myth64(3_400_000), m.floor(Unit::potency(4)));
    assert_eq!(-341.000, (-340.993_f64).floor());
    assert_eq!(Myth64(-3_410_000), mm(-340.993).floor(Unit::potency(4)));
    assert_eq!(Myth64(0), Myth64(4_567).floor(Unit::potency(4)));
    assert_eq!(Myth64(10_000), Myth64(5_567).round(Unit::potency(4)));
    let m = Myth64(-67);
    assert_eq!(Myth64(0), m.round(Unit::potency(3)));
    let m = Myth64(-67);
    assert_eq!(Myth64(-1_000), m.floor(Unit::potency(3)));
    let m = Myth64(-67);
    assert_eq!(Myth64(-100), m.floor(Unit::potency(2)));
}

#[test]
fn myth64_display() {
    let m = Myth64(12455);
    assert_eq!("1.2455", m.to_string().as_str());
    assert_eq!("1.246", m.format(Some(3)).as_str());
    assert_eq!("1.2", m.format(Some(1)).as_str());
    assert_eq!("1.2455", m.format(Some(7)).as_str());
    assert_eq!("1", m.format(Some(0)).as_str());
    assert_eq!("-1.2455", (-m).format(Some(7)).as_str());
    let m = Myth64(-455);
    assert_eq!("-0.046", m.format(Some(3)).as_str());
    assert_eq!("-0.345", Myth64(-3450).to_string().as_str());
    assert_eq!("-0.3450", Myth64(-3450).format(Some(4)).as_str());
    assert_eq!("-455", m.format_raw().as_str());
    let m = mm(4566.4689);
    assert_eq!(m.format(Some(3)), "4566.469");
    let m = Myth64::ZERO();
    assert_eq!(m.format(Some(2)), "0.00");
}

#[test]
fn myth64_min_max() {
    let max = Myth64::MAX();
    let min = Myth64::MIN();
    assert_eq!(max.0, 9_223_372_036_854_775_807);
    assert_eq!(min.0, -9_223_372_036_854_775_808);
}

#[test]
fn sum() {
    let m64s: Vec<Myth64> = (0..10).map(|d| Myth64::from(d * 10_000)).collect();
    assert_eq!(Myth64::from(450_000), Myth64::sum_of(&m64s));
}
