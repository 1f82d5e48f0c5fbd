use tolerance::error::ToleranceError;
use tolerance::{Myth32, Myth64, T128};

fn v(f: f64) -> Myth64 {
    Myth64((f * 10_000.0) as i64)
}

fn d(f: f64) -> Myth32 {
    Myth32((f * 10_000.0) as i32)
}

fn t(value: f64, plus: f64, minus: f64) -> T128 {
    T128::new(v(value), d(plus), d(minus))
}

fn ticks(value: i64, plus: i32, minus: i32) -> T128 {
    T128::new(Myth64(value), Myth32(plus), Myth32(minus))
}

#[test]
fn convert_from_string() {
    assert_eq!(T128::try_from("14.0").unwrap(), ticks(140_000, 0, 0));
    assert_eq!(T128::try_from("14").unwrap(), ticks(140_000, 0, 0));
    assert_eq!(T128::try_from("14 0 0").unwrap(), ticks(140_000, 0, 0));
    assert_eq!(
        T128::try_from("14.0 +1 -2").unwrap(),
        ticks(140_000, 10_000, -20_000)
    );
    assert_eq!(
        T128::try_from("14.0 2 ").unwrap(),
        ticks(140_000, 20_000, -20_000)
    );
    assert_eq!(
        T128::try_from("14.0 +-2 ").unwrap(),
        ticks(140_000, 20_000, -20_000)
    );
    assert_eq!(
        T128::try_from("14.0 +/-2 ").unwrap(),
        ticks(140_000, 20_000, -20_000)
    );

    assert_eq!(
        T128::try_from("14.0 2 1").unwrap(),
        ticks(140_000, 20_000, 10_000)
    );
    assert_eq!(
        T128::try_from("14.0 -1 -2").unwrap(),
        ticks(140_000, -10_000, -20_000)
    );

    assert_eq!(
        T128::try_from("141213 -1/-2").unwrap(),
        ticks(1_412_130_000, -10_000, -20_000)
    );

    assert_eq!(
        T128::try_from("700 .1/-.25").unwrap(),
        ticks(7_000_000, 1_000, -2_500)
    );
    // eat your own output.
    let t1 = t(653.0, 3.0, -2.5);
    assert_eq!("653.0 +3.0/-2.5", t1.format(Some(1)));
    assert_eq!(Ok(t1), T128::try_from(t1.format(Some(1))));

    let t1 = t(-53.0, 3.0, -3.0);
    assert_eq!("-53.0 +/-3.0", t1.format(Some(1)));
    assert_eq!(Ok(t1), T128::try_from(t1.format(Some(1))));

    let a = ticks(363_000, 10_000, 0);
    assert_eq!(a, T128::try_from(a.to_string()).unwrap());
}

#[test]
fn serialize_to_u8_array() {
    let test = T128::new(Myth64(1234567890), Myth32(123455), Myth32(-124555));
    let max = T128 {
        value: Myth64::MAX(),
        plus: Myth32::MAX(),
        minus: Myth32::MIN(),
    };
    assert_eq!(
        format!("{:?}", test.to_be_bytes()),
        "[0, 0, 0, 0, 73, 150, 2, 210, 0, 1, 226, 63, 255, 254, 25, 117]"
    );
    assert_eq!(test, T128::from_be_bytes(test.to_be_bytes()));
    assert_eq!(max, T128::from_be_bytes(max.to_be_bytes()));

    assert_eq!(
        format!("{:?}", test.to_le_bytes()),
        "[210, 2, 150, 73, 0, 0, 0, 0, 63, 226, 1, 0, 117, 25, 254, 255]"
    );
    assert_eq!(test, T128::from_le_bytes(test.to_le_bytes()));
    assert_eq!(max, T128::from_le_bytes(max.to_le_bytes()));
}

#[test]
fn tol128_prove_tolerance_is_inside_of() {
    let o = ticks(2_000, 5, -10);

    assert!(!o.is_inside_of(T128::with_sym(Myth64(2_000), Myth32(5))));
    assert!(o.is_inside_of(T128::with_sym(Myth64(2_000), Myth32(20))));
    assert!(o.is_inside_of(T128::with_sym(Myth64(2_000), Myth32(10))));
    assert!(o.is_inside_of(ticks(1_995, 10, -5)));
}

#[test]
fn tol128_prove_tolerance_is_partial_ord() {
    let o = ticks(2_000, 5, -10);

    assert!(o < ticks(2_000, 5, -5));
    assert!(o < ticks(2_000, 10, -10));
    assert!(o > ticks(2_000, 2, -10));
    assert!(o > ticks(2_000, 20, -11));
    assert!(o >= ticks(2_000, 5, -10));
    assert!(o <= ticks(2_000, 5, -10));

    let simple: T128 = v(30.0).into();
    assert!(simple < v(30.01).into());
    assert!(simple > v(29.0565).into());
    assert!(simple <= v(30.00).into());
    assert!(simple >= v(30.0).into());
}

#[test]
fn display_compact() {
    let o = ticks(20_000, 50, -100);
    assert_eq!(o.to_string(), "2.0 +0.005/-0.01");
    let o = ticks(20_000, 50, -50);
    assert_eq!(o.to_string(), "2.0 +/-0.005");
    let o = ticks(20_000, 0, 0);
    assert_eq!(o.to_string(), "2.0 +/-0.0");
    let o = ticks(20_000, 50, 0);
    assert_eq!(o.to_string(), "2.0 +0.005/-0.0");
    let o = ticks(20_000, 0, -400);
    assert_eq!(o.to_string(), "2.0 +0.0/-0.04");
    let o = ticks(20_000, 800, 400);
    assert_eq!(o.to_string(), "2.0 +0.08/+0.04");
    let o = ticks(20_000, -400, -800);
    assert_eq!(o.to_string(), "2.0 -0.04/-0.08");
}

#[test]
fn tol128_display_is_adjustable() {
    let o = ticks(20_000, 50, -100);
    assert_eq!("2.0 +0.005/-0.01", o.to_string());
    assert_eq!("2.000 +0.005/-0.010", o.format(Some(3)));
    assert_eq!("2.0000 +0.0050/-0.0100", o.format(Some(4)));
    assert_eq!("2 +/-0", o.format(Some(0)));
    assert_eq!("2.0 +/-0.0", o.format(Some(1)));

    let o = T128::with_sym(Myth64(20_000), Myth32(50));
    assert_eq!("2.0 +/-0.005", o.to_string());
    assert_eq!("2 +/-0", o.format(Some(0)));

    let o = t(0.345, 0.010, -0.014);
    assert_eq!("0.345 +0.010/-0.014", o.format(Some(3)));
    let o = t(-0.35, 0.010, -0.014);
    assert_eq!("-0.350 +0.010/-0.014", o.format(Some(3)));
    assert_eq!("            -0.35 +/-0.01", format!("{:>25}", o.format(Some(2))));
    assert_eq!("      -0.35 +/-0.01      ", format!("{:^25}", o.format(Some(2))));

    assert_eq!(o.format_raw(None), "-3500 +100/-140");
    assert_eq!("T128(-0.350 +0.010 -0.014)", o.format_debug(Some(3)));
}

#[test]
fn tol128_display_is_adjustible() {
    let o = ticks(20_000, 50, -100);
    assert_eq!(o.to_string(), "2.0 +0.005/-0.01");
    assert_eq!(o.format(Some(3)), "2.000 +0.005/-0.010");
    assert_eq!(o.format(Some(4)), "2.0000 +0.0050/-0.0100");
    assert_eq!(o.format(Some(0)), "2 +/-0");
    assert_eq!(o.format(Some(1)), "2.0 +/-0.0");

    let o = T128::with_sym(Myth64(20_000), Myth32(50));
    assert_eq!(o.to_string(), "2.0 +/-0.005");
    assert_eq!(o.format(Some(0)), "2 +/-0");

    let o = t(0.345, 0.010, -0.014);
    assert_eq!(o.format(Some(3)), "0.345 +0.010/-0.014");
    let o = t(-0.35, 0.010, -0.014);
    assert_eq!(o.format(Some(3)), "-0.350 +0.010/-0.014");

    assert_eq!(o.format_raw(None), "-3500 +100/-140");

    assert_eq!(o.format_debug(Some(3)), "T128(-0.350 +0.010 -0.014)");
}

#[test]
fn tol128_construct_consistent() {
    let o = t(2.0, 0.005, -0.01);
    assert_eq!("2.0 +0.005/-0.01", o.to_string())
}

#[test]
fn tol128_subtract() {
    let minuend = t(1000.0, 0.0, 0.0);
    let subtrahend = t(300.0, 20.0, -10.0);
    assert_eq!(minuend - subtrahend, t(700.0, 10.0, -20.0));
    let minuend = t(1000.0, 10.0, -30.0);
    assert_eq!(minuend - subtrahend, t(700.0, 20.0, -50.0));
}

#[test]
fn tol128_substract() {
    let minuend = t(1000.0, 0.0, 0.0);
    let subtrahend = t(300.0, 20.0, -10.0);
    assert_eq!(minuend - subtrahend, t(700.0, 10.0, -20.0));
    let minuend = t(1000.0, 10.0, -30.0);
    assert_eq!(minuend - subtrahend, t(700.0, 20.0, -50.0));
}

#[test]
fn tol128_invert() {
    let basis = t(20.0, 1.0, -0.5);
    let segment = t(5.0, 0.75, -0.2);
    let res = basis + !segment;
    assert_eq!(res, t(15.0, 1.2, -1.25));
    assert_eq!(basis + basis.invert(), t(0.0, 1.5, -1.5));
}

#[test]
fn tol128_error() {
    let tol = T128::try_from("nil");
    assert!(tol.is_err(), "T128 ");
    assert_eq!(
        tol,
        ToleranceError::parse_err("T128 not parsable from 'nil'!")
    );

    let tol = T128::try_from("");
    assert!(tol.is_err(), "T128 ");
    assert_eq!(
        tol,
        ToleranceError::parse_err("Can not parse an empty string into a T128!")
    );
}
