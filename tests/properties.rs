use tolerance::error::{ErrorKind, ToleranceError};
use tolerance::{Myth16, Myth32, Myth64, MythBased, Unit, T128, T64};

#[test]
fn lengths_read_back_at_full_precision() {
    for v in [0i64, 1, -1, 12455, -455, 123_451_234, i64::MAX, i64::MIN] {
        let m = Myth64(v);
        assert_eq!(Myth64::try_from(m.format(Some(4))), Ok(m));
    }
    for v in [0i32, 7, -30_100, i32::MAX, i32::MIN] {
        let m = Myth32(v);
        assert_eq!(Myth32::try_from(m.format(Some(4))), Ok(m));
    }
    for v in [0i16, 9, -3450, i16::MAX, i16::MIN] {
        let m = Myth16(v);
        assert_eq!(Myth16::try_from(m.format(Some(4))), Ok(m));
    }
}

#[test]
fn tolerances_read_back_at_full_precision() {
    let cases = [
        T128::new(Myth64(140_000), Myth32(10_000), Myth32(-20_000)),
        T128::new(Myth64(-3500), Myth32(100), Myth32(-100)),
        T128::new(Myth64(20_000), Myth32(800), Myth32(400)),
        T128::new(Myth64(20_000), Myth32(-400), Myth32(-800)),
        T128::new(Myth64(1), Myth32(0), Myth32(0)),
    ];
    for t in cases {
        assert_eq!(T128::try_from(t.format(Some(4))), Ok(t));
    }
    let t = T64::new(Myth32(-7), Myth16(3), Myth16(-5));
    assert_eq!(T64::try_from(t.format(Some(4))), Ok(t));
}

#[test]
fn additive_inverse() {
    let x = Myth64(123_456);
    assert_eq!(x + (-x), Myth64::ZERO());
    let x = Myth16(-32767);
    assert_eq!(x + (-x), Myth16::ZERO());
    let t = T128::new(Myth64(200_000), Myth32(10_000), Myth32(-5_000));
    assert_eq!(
        t + t.invert(),
        T128 { value: Myth64(0), plus: Myth32(15_000), minus: Myth32(-15_000) }
    );
    let t = T64::new(Myth32(-1), Myth16(30), Myth16(10));
    assert_eq!(
        t + !t,
        T64 { value: Myth32(0), plus: Myth16(20), minus: Myth16(-20) }
    );
}

#[test]
fn containment_is_reflexive() {
    let t = T128::new(Myth64(5), Myth32(3), Myth32(-8));
    assert!(t.is_inside_of(t));
    assert!(t.enfold(t));
    assert!(t.embrace(t));
    let wide = T128::with_sym(Myth64(5), Myth32(100));
    assert!(t.is_inside_of(wide));
    assert!(wide.enfold(t));
    assert!(!wide.is_inside_of(t));
}

#[test]
fn equal_values_order_by_deviations() {
    let mut ts = vec![
        T128::new(Myth64(10), Myth32(5), Myth32(-1)),
        T128::new(Myth64(10), Myth32(2), Myth32(-3)),
        T128::new(Myth64(10), Myth32(1), Myth32(-3)),
        T128::new(Myth64(9), Myth32(9), Myth32(9)),
    ];
    ts.sort_by(|a, b| a.partial_cmp(b).unwrap());
    assert_eq!(
        ts,
        vec![
            T128::new(Myth64(9), Myth32(9), Myth32(9)),
            T128::new(Myth64(10), Myth32(1), Myth32(-3)),
            T128::new(Myth64(10), Myth32(2), Myth32(-3)),
            T128::new(Myth64(10), Myth32(5), Myth32(-1)),
        ]
    );
}

#[test]
fn rounding_twice_changes_nothing() {
    for v in [1_234_567i64, -67, 5_000, -5_000, 4_999, 0] {
        for u in [Unit::MY(), Unit::MM(), Unit::CM(), Unit::INCH(), Unit(3), Unit(0)] {
            let once = Myth64(v).round(u);
            assert_eq!(once.round(u), once);
        }
    }
    assert_eq!(Myth64(5_000).round(Unit::MM()), Myth64(10_000));
    assert_eq!(Myth64(-5_000).round(Unit::MM()), Myth64(-10_000));
    assert_eq!(Myth64(4_999).round(Unit::MM()), Myth64(0));
    assert_eq!(Myth64(2).round(Unit(5)), Myth64(0));
    assert_eq!(Myth64(3).round(Unit(5)), Myth64(5));
    assert_eq!(Myth64(-3).round(Unit(5)), Myth64(-5));
    assert_eq!(Myth64(-2).round(Unit(5)), Myth64(0));
}

#[test]
fn floor_is_mathematical() {
    assert_eq!(Myth64(-10_000).floor(Unit::MM()), Myth64(-10_000));
    assert_eq!(Myth64(-10_001).floor(Unit::MM()), Myth64(-20_000));
    assert_eq!(Myth64(-9_999).floor(Unit::MM()), Myth64(-10_000));
    assert_eq!(Myth64(19_999).floor(Unit::MM()), Myth64(10_000));
    assert_eq!(Myth32(-1).floor(Unit::MY()), Myth32(-10));
}

#[test]
fn parse_and_format_wide() {
    let t = T128::try_from("14.0 +1 -2").unwrap();
    assert_eq!(t.value, Myth64(140_000));
    assert_eq!(t.plus, Myth32(10_000));
    assert_eq!(t.minus, Myth32(-20_000));
    assert_eq!(t.to_string(), "14.0 +1.0/-2.0");
    assert_eq!(t.format(Some(1)), "14.0 +1.0/-2.0");
}

#[test]
fn symmetric_compaction() {
    let t = T128::with_sym(Myth64(20_000), Myth32(50));
    assert_eq!(t.to_string(), "2.0 +/-0.005");
}

#[test]
fn subtraction_crosses_deviations() {
    let a = T128::new(Myth64(1000), Myth32(0), Myth32(0));
    let b = T128::new(Myth64(300), Myth32(20), Myth32(-10));
    assert_eq!(a - b, T128::new(Myth64(700), Myth32(10), Myth32(-20)));
}

#[test]
fn narrowing_out_of_range_overflows() {
    let r = Myth16::try_from(Myth64(40_000));
    assert_eq!(r.as_ref().unwrap_err().kind(), ErrorKind::Overflow);
    assert!(matches!(r, Err(ToleranceError::Overflow(_))));
    let r = Myth32::try_from(Myth64(i64::MAX));
    assert!(matches!(r, Err(ToleranceError::Overflow(_))));
    assert_eq!(Myth16::try_from(Myth64(-32_768)), Ok(Myth16(-32_768)));
}

#[test]
fn empty_input_is_a_parse_error() {
    let e = Myth64::try_from("").unwrap_err();
    assert_eq!(e, ToleranceError::ParseError("Cannot parse an empty string into a Myth64!".to_string()));
    let e = Myth32::try_from("  ").unwrap_err();
    assert_eq!(e.kind(), ErrorKind::Parse);
    assert!(e.message().contains("empty string"));
    let e = Myth16::try_from("").unwrap_err();
    assert!(e.message().contains("empty string"));
    let e = T128::try_from("").unwrap_err();
    assert_eq!(e.message(), "Can not parse an empty string into a T128!");
    let e = T64::try_from(" ; / ").unwrap_err();
    assert_eq!(e.message(), "Can not parse an empty string into a T64!");
}

#[test]
fn parse_errors_name_the_character() {
    let e = Myth64::try_from("12345*12343").unwrap_err();
    assert_eq!(
        e.message(),
        "Found ascii #42 (a non-numerical literal) in input, can't parse input into a Myth64!"
    );
    let e = Myth32::try_from("1.2x").unwrap_err();
    assert_eq!(
        e.message(),
        "Found ascii #120 (a non-numerical literal) in input, can't parse input into a Myth32!"
    );
    let e = Myth64::try_from("1.é").unwrap_err();
    assert_eq!(
        e.message(),
        "Found ascii #195 (a non-numerical literal) in input, can't parse input into a Myth64!"
    );
    let e = Myth64::try_from(" - ").unwrap_err();
    assert_eq!(e.message(), "Not a valid Number: '-'");
    assert_eq!(Myth64::try_from("."), Ok(Myth64(0)));
    assert_eq!(Myth64::try_from(".0"), Ok(Myth64(0)));
    assert_eq!(Myth64::try_from("-.0"), Ok(Myth64(0)));
    let e = Myth64::try_from("1.23456x").unwrap_err();
    assert_eq!(
        e.message(),
        "Found ascii #120 (a non-numerical literal) in input, can't parse input into a Myth64!"
    );
    assert_eq!(Myth64::try_from("5."), Ok(Myth64(50_000)));
}

#[test]
fn parse_range_errors() {
    let e = Myth64::try_from("99999999999999999999").unwrap_err();
    assert_eq!(e, ToleranceError::Overflow("99999999999999999999 is to big for Myth64".to_string()));
    let e = Myth16::try_from("3.3").unwrap_err();
    assert_eq!(e.kind(), ErrorKind::Overflow);
    assert_eq!(Myth16::try_from("-3.2768"), Ok(Myth16::MIN()));
    assert_eq!(Myth64::try_from("-922337203685477.5808"), Ok(Myth64::MIN()));
    let e = T64::try_from("300000 1").unwrap_err();
    assert_eq!(e, ToleranceError::Overflow("out of range integral type conversion attempted".to_string()));
    let e = T64::try_from("1 4").unwrap_err();
    assert_eq!(e.kind(), ErrorKind::Overflow);
}

#[test]
fn tolerance_text_forms() {
    let t = T128::try_from("12 .4 -1").unwrap();
    assert_eq!(t, T128::new(Myth64(120_000), Myth32(4_000), Myth32(-10_000)));
    assert_eq!(T128::try_from("12/.4/-1"), Ok(t));
    assert_eq!(T128::try_from("12;0.4; -1"), Ok(t));
    assert_eq!(
        T128::try_from("12.0 0.4"),
        Ok(T128::with_sym(Myth64(120_000), Myth32(4_000)))
    );
    assert_eq!(T128::try_from("12.0"), Ok(T128::from(Myth64(120_000))));
    let e = T128::try_from("1 0 -3 4").unwrap_err();
    assert_eq!(e.message(), "T128 not parsable from '1 0 -3 4'!");
    let e = T128::try_from("1 2 3").unwrap_err();
    assert_eq!(e.message(), "T128 not parsable from '1 2 3'!");
    let e = T128::try_from("1 -2").unwrap_err();
    assert_eq!(e.kind(), ErrorKind::Parse);
    let e = T128::try_from("1 2 x").unwrap_err();
    assert_eq!(e.message(), "T128 not parsable from '1 2 x'!");
}

#[test]
fn tolerance_from_parts() {
    assert_eq!(T128::from_parts(Some(5), None, None), Ok(T128::from(Myth64(5))));
    assert_eq!(
        T128::from_parts(Some(5), Some(2), None),
        Ok(T128::with_sym(Myth64(5), Myth32(2)))
    );
    let e = T128::from_parts(None, Some(2), None).unwrap_err();
    assert_eq!(e.message(), "T128 not parsable from '(None, Some(2), None)'!");
    let e = T64::from_parts(Some(5), Some(1), Some(2)).unwrap_err();
    assert_eq!(e.message(), "T64 not parsable from '(Some(5), Some(1), Some(2))'!");
    let e = T64::from_parts(Some(5), Some(40_000), None).unwrap_err();
    assert_eq!(e.kind(), ErrorKind::Overflow);
}

#[test]
fn byte_forms() {
    let m = Myth32(-2);
    assert_eq!(m.to_be_bytes(), [255, 255, 255, 254]);
    assert_eq!(m.to_le_bytes(), [254, 255, 255, 255]);
    assert_eq!(Myth32::from_be_bytes(m.to_be_bytes()), m);
    assert_eq!(Myth32::from_le_bytes(m.to_le_bytes()), m);
    assert_eq!(Myth16::from_ne_bytes(Myth16(300).to_ne_bytes()), Myth16(300));
    assert_eq!(Myth64(1).to_ne_bytes(), 1i64.to_ne_bytes());
    let t = T64::new(Myth32(-1), Myth16(2), Myth16(-3));
    assert_eq!(t.to_be_bytes(), [255, 255, 255, 255, 0, 2, 255, 253]);
    assert_eq!(T64::from_le_bytes(t.to_le_bytes()), t);
}

#[test]
fn arithmetic_and_predicates() {
    assert_eq!(Myth64(10) * 3, Myth64(30));
    assert_eq!(Myth64(-7) / 2, Myth64(-3));
    assert_eq!(Myth64(7).abs_diff(Myth64(10)), Myth64(3));
    assert_eq!(Myth64(-7).signum(), Myth64(-1));
    assert_eq!(Myth64(0).signum(), Myth64(0));
    assert!(Myth16(-1).is_negative() && Myth16(1).is_positive() && Myth16(0).is_zero());
    assert_eq!(Myth64(1) + Myth32(2) - Myth16(4), Myth64(-1));
    let t = T128::new(Myth64(100), Myth32(5), Myth32(-5));
    assert_eq!(t.upper_limit(), Myth64(105));
    assert_eq!(t.lower_limit(), Myth64(95));
    assert_eq!(t.narrow(Myth32(1), Myth32(0)), T128::new(Myth64(100), Myth32(1), Myth32(0)));
    assert_eq!(t.narrow_sym(Myth32(2)), T128::with_sym(Myth64(100), Myth32(2)));
    assert_eq!(t + Myth64(1) - Myth64(2), T128::new(Myth64(99), Myth32(5), Myth32(-5)));
    assert_eq!(T128::ZERO(), T128::from(Myth64(0)));
}

#[test]
fn text_for_serializers() {
    let t = T128::with_sym(Myth64(123_400), Myth32(5_000));
    assert_eq!(t.ser_as_string(), Some("12.34 +/-0.5".to_string()));
    assert!(!t.is_option());
    let none: Option<T64> = None;
    assert_eq!(none.ser_as_string(), None);
    assert!(none.is_option());
    assert_eq!(Some(Myth16(5)).ser_as_string(), Some("0.0005".to_string()));
}

#[test]
fn tolerance_conveniences() {
    assert_eq!(T128::default(), T128::ZERO());
    assert_eq!(
        T128::new(Myth64(10), Myth32(2), Myth32(-1)) * 3,
        T128::new(Myth64(30), Myth32(6), Myth32(-3))
    );
    assert_eq!(
        T64::from_slice(&[400_000, 320]),
        Ok(T64::new(Myth32(400_000), Myth16(320), Myth16(-320)))
    );
    assert!(T64::from_slice(&[]).is_err());
    let t = T128::new(Myth64(-5), Myth32(7), Myth32(-9));
    assert_eq!(T128::from_ne_bytes(t.to_ne_bytes()), t);
    let t = T64::new(Myth32(12), Myth16(3), Myth16(3));
    assert_eq!(T64::from_be_bytes(t.to_be_bytes()), t);
}

#[test]
fn length_integer_arithmetic() {
    assert_eq!(Myth64(10) + 5, Myth64(15));
    assert_eq!(Myth16(10) - 15, Myth16(-5));
    assert_eq!(Myth64::from(7u8), Myth64(7));
    assert_eq!(Myth32::from(-3i8), Myth32(-3));
    let mut m = Myth32(100);
    m.add_assign(Myth32(20));
    m.sub_assign(Myth32(5));
    assert_eq!(m, Myth32(115));
}

#[test]
fn tolerance_stacking() {
    let a = T128::new(Myth64(100), Myth32(5), Myth32(-2));
    let b = T128::new(Myth64(40), Myth32(3), Myth32(-1));
    let mut c = a;
    c.add_assign(b);
    assert_eq!(c, a + b);
    let mut d = a;
    d.sub_assign(b);
    assert_eq!(d, a - b);
    assert_eq!(T128::sum_of(&vec![a, b, b]), a + b + b);
    assert_eq!(T64::sum_of(&vec![]), T64::ZERO());
    let e = T64::new(Myth32(9), Myth16(4), Myth16(4));
    assert_eq!(-e, T64 { value: Myth32(-9), plus: Myth16(-4), minus: Myth16(-4) });
    assert_eq!(a + Myth32(1), T128::new(Myth64(101), Myth32(5), Myth32(-2)));
    assert_eq!(T128::try_from((Some(5), Some(2), None)), Ok(T128::with_sym(Myth64(5), Myth32(2))));
    assert!(T128::try_from((None, None, Some(2))).is_err());
    assert!(!a.is_option() && Some(a).is_option());
}
