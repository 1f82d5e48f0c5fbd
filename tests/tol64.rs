use tolerance::error::ToleranceError;
use tolerance::{Myth16, Myth32, T64};

fn v(f: f64) -> Myth32 {
    Myth32((f * 10_000.0) as i32)
}

fn d(f: f64) -> Myth16 {
    Myth16((f * 10_000.0) as i16)
}

fn t(value: f64, plus: f64, minus: f64) -> T64 {
    T64::new(v(value), d(plus), d(minus))
}

fn ticks(value: i32, plus: i16, minus: i16) -> T64 {
    T64::new(Myth32(value), Myth16(plus), Myth16(minus))
}

#[test]
fn try_from_tuples() {
    let t64 = T64::from_parts(
        Some(v(4.0).0 as i64),
        Some(d(32.0).0 as i64),
        Some(d(23.0).0 as i64),
    )
    .unwrap();
    assert_eq!(t(4.0, 32.0, 23.0), t64);

    let t64 = T64::from_parts(Some(400000), Some(320), None).unwrap();
    assert_eq!(T64::new(v(40.0), Myth16(320), Myth16(-320)), t64);
}

#[test]
fn tol64_prove_tolerance_is_inside_of() {
    let o = ticks(2_000, 5, -10);

    assert!(!o.is_inside_of(T64::with_sym(Myth32(2_000), Myth16(5))));
    assert!(o.is_inside_of(T64::with_sym(Myth32(2_000), Myth16(20))));
    assert!(o.is_inside_of(T64::with_sym(Myth32(2_000), Myth16(10))));
    assert!(o.is_inside_of(ticks(1_995, 10, -5)));
}

#[test]
fn tol64_prove_tolerance_is_partial_ord() {
    let o = ticks(2_000, 5, -10);

    assert!(o < ticks(2_000, 5, -5));
    assert!(o < ticks(2_000, 10, -10));
    assert!(o > ticks(2_000, 2, -10));
    assert!(o > ticks(2_000, 20, -11));
    assert!(o >= ticks(2_000, 5, -10));
    assert!(o <= ticks(2_000, 5, -10));

    let simple: T64 = v(30.0).into();
    assert!(simple < v(30.01).into());
    assert!(simple > v(29.0565).into());
    assert!(simple <= v(30.00).into());
    assert!(simple >= v(30.0).into());
}

#[test]
fn prove_tolerance_is_inside_of() {
    let o = ticks(2_000, 5, -10);

    assert!(!o.is_inside_of(T64::with_sym(Myth32(2_000), Myth16(5))));
    assert!(o.is_inside_of(T64::with_sym(Myth32(2_000), Myth16(20))));
    assert!(o.is_inside_of(T64::with_sym(Myth32(2_000), Myth16(10))));
    assert!(o.is_inside_of(ticks(1_995, 10, -5)));
}

#[test]
fn prove_tolerance_is_partial_ord() {
    let o = ticks(2_000, 5, -10);

    assert!(o < ticks(2_000, 5, -5));
    assert!(o < ticks(2_000, 10, -10));
    assert!(o > ticks(2_000, 2, -10));
    assert!(o > ticks(2_000, 20, -11));
    assert!(o >= ticks(2_000, 5, -10));
    assert!(o <= ticks(2_000, 5, -10));

    let simple: T64 = v(30.0).into();
    assert!(simple < v(30.01).into());
    assert!(simple > v(29.0565).into());
    assert!(simple <= v(30.00).into());
    assert!(simple >= v(30.0).into());
}

#[test]
fn tol64_display_is_adjustable() {
    let o = ticks(20_000, 50, -100);
    assert_eq!("2.0 +0.005/-0.01", o.to_string());
    assert_eq!("2.000 +0.005/-0.010", o.format(Some(3)));
    assert_eq!("2.0000 +0.0050/-0.0100", o.format(Some(4)));
    assert_eq!("2 +/-0", o.format(Some(0)));
    assert_eq!("2.0 +/-0.0", o.format(Some(1)));

    let o = T64::with_sym(Myth32(20_000), Myth16(50));
    assert_eq!("2.0 +/-0.005", o.to_string());
    assert_eq!("2 +/-0", o.format(Some(0)));

    let o = t(0.345, 0.010, -0.014);
    assert_eq!("0.345 +0.010/-0.014", o.format(Some(3)));
    let o = t(-0.35, 0.010, -0.014);
    assert_eq!("-0.350 +0.010/-0.014", o.format(Some(3)));

    assert_eq!(o.format_raw(None), "-3500 +100/-140");
    assert_eq!("T64(-0.350 +0.010 -0.014)", o.format_debug(Some(3)));
}

#[test]
fn tol64_display_is_adjustible() {
    let o = ticks(20_000, 50, -100);
    assert_eq!(o.to_string(), "2.0 +0.005/-0.01");
    assert_eq!(o.format(Some(3)), "2.000 +0.005/-0.010");
    assert_eq!(o.format(Some(4)), "2.0000 +0.0050/-0.0100");
    assert_eq!(o.format(Some(0)), "2 +/-0");
    assert_eq!(o.format(Some(1)), "2.0 +/-0.0");

    let o = T64::with_sym(Myth32(20_000), Myth16(50));
    assert_eq!(o.to_string(), "2.0 +/-0.005");
    assert_eq!(o.format(Some(0)), "2 +/-0");

    let o = t(0.345, 0.010, -0.014);
    assert_eq!(o.format(Some(3)), "0.345 +0.010/-0.014");
    let o = t(-0.35, 0.010, -0.014);
    assert_eq!(o.format(Some(3)), "-0.350 +0.010/-0.014");

    assert_eq!(o.format_raw(None), "-3500 +100/-140");

    assert_eq!(o.format_debug(Some(3)), "T64(-0.350 +0.010 -0.014)");
}

#[test]
fn tol64_construct_consistent() {
    let o = t(2.0, 0.005, -0.01);
    assert_eq!("2.0 +0.005/-0.01", o.to_string())
}

#[test]
fn tol64_subtract() {
    let minuend = t(1000.0, 0.0, 0.0);
    let subtrahend = t(300.0, 0.2, -0.1);
    assert_eq!(minuend - subtrahend, t(700.0, 0.1, -0.2));
    let minuend = t(1000.0, 0.1, -0.3);
    assert_eq!(minuend - subtrahend, t(700.0, 0.20, -0.50));
}

#[test]
fn tol64_substract() {
    let minuend = t(1000.0, 0.0, 0.0);
    let subtrahend = t(300.0, 0.2, -0.1);
    assert_eq!(minuend - subtrahend, t(700.0, 0.1, -0.2));
    let minuend = t(1000.0, 0.1, -0.3);
    assert_eq!(minuend - subtrahend, t(700.0, 0.20, -0.50));
}

#[test]
fn tol64_invert() {
    let basis = t(20.0, 1.0, -0.5);
    let segment = t(5.0, 0.75, -0.2);
    let res = basis + !segment;
    assert_eq!(res, t(15.0, 1.2, -1.25));
    assert_eq!(basis + basis.invert(), t(0.0, 1.5, -1.5));
}

#[test]
fn tol64_error() {
    let tol = T64::try_from("nil");
    assert!(tol.is_err(), "T64 ");
    assert_eq!(
        tol,
        ToleranceError::parse_err("T64 not parsable from 'nil'!")
    );

    let tol = T64::try_from("");
    assert!(tol.is_err(), "T64 ");
    assert_eq!(
        tol,
        ToleranceError::parse_err("Can not parse an empty string into a T64!")
    );
}
