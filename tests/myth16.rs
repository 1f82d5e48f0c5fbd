use tolerance::{Myth16, Unit};

fn mm(f: f64) -> Myth16 {
    Myth16((f * 10_000.0) as i16)
}

#[test]
fn myth16_try_from_str() {
    let d = Myth16::try_from("2.1234").unwrap();
    assert_eq!(d, Myth16(21_234));
    let d = Myth16::try_from("3.01").unwrap();
    assert_eq!(d, Myth16(30_100));

    let d = Myth16::try_from(" +2.07").unwrap();
    assert_eq!(d, Myth16(20_700));
    let d = Myth16::try_from("-3.01").unwrap();
    assert_eq!(d, Myth16(-30_100));
}

#[test]
fn myth16_neg() {
    let m = -Myth16(2323);
    let n = Myth16(-2323);
    assert_eq!(n.0, m.0);
    assert_eq!(n, m);
}

#[test]
fn myth16_round() {
    let m = Myth16(12345);
    assert_eq!(Myth16(12350), m.round(Unit::MY()));
    assert_eq!(Myth16(10_000), m.round(Unit::MM()));
    assert_eq!(Myth16(10_000), Myth16(9_000).round(Unit::MM()));
    assert_eq!(Myth16(0), mm(-0.4993).round(Unit::MM()));
    assert_eq!(Myth16(-4990), mm(-0.4993).round(Unit::MY()));
    assert_eq!(Myth16(-10000), Myth16::from(-5000i16).round(Unit::MM()));
    let m = mm(2.993);
    assert_eq!(10, Unit::potency(1).multiply());
    assert_eq!(Myth16(29930), m.round(Unit::potency(1)));
    assert_eq!(100, Unit::potency(2).multiply());
    assert_eq!(Myth16(29900), m.round(Unit::potency(2)));
    assert_eq!(1000, Unit::potency(3).multiply());
    assert_eq!(Myth16(30000), m.round(Unit::potency(3)));
    assert_eq!(Myth16(20000), m.floor(Unit::potency(4)));
    assert_eq!(Myth16(-30000), mm(-2.293).floor(Unit::potency(4)));
}

#[test]
fn myth16_display() {
    let m = Myth16(12455);
    assert_eq!("1.2455", m.to_string().as_str());
    assert_eq!("1.246", m.format(Some(3)).as_str());
    assert_eq!("1.2", m.format(Some(1)).as_str());
    assert_eq!("1.2455", m.format(Some(7)).as_str());
    assert_eq!("1", m.format(Some(0)).as_str());
    assert_eq!("-1.2455", (-m).format(Some(7)).as_str());
    let m = Myth16(-455);
    assert_eq!("-0.0455", m.to_string().as_str());
    assert_eq!("-0.345", Myth16(-3450).to_string().as_str());
    assert_eq!("-0.3450", Myth16(-3450).format(Some(4)).as_str());
    assert_eq!("-455", m.format_raw().as_str());
    let m = mm(1.4689);
    assert_eq!(m.format(Some(3)), "1.469");
    let m = Myth16::ZERO();
    assert_eq!(m.format(Some(2)), "0.00");
}

#[test]
fn myth16_min_max() {
    let max = Myth16::MAX();
    let min = Myth16::MIN();

    assert_eq!(max.0, 32767);
    assert_eq!(min.0, -32768);
    assert_eq!(max.format(Some(0)), "3");
}
