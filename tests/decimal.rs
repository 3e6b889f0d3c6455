use bezier::decimal::{push_decimal, Coordinate, Hundredths};

fn fixed(negative: bool, magnitude: u64) -> String {
    Hundredths { negative, magnitude }.to_text()
}

#[test]
fn zero_has_two_decimals() {
    assert_eq!(fixed(false, 0), "0.00");
}

#[test]
fn negative_zero_keeps_its_sign() {
    assert_eq!(fixed(true, 0), "-0.00");
}

#[test]
fn hundredths_split_at_the_point() {
    assert_eq!(fixed(false, 1234), "12.34");
    assert_eq!(fixed(true, 5), "-0.05");
    assert_eq!(fixed(true, 200), "-2.00");
    assert_eq!(fixed(false, 100000), "1000.00");
    assert_eq!(fixed(false, 7), "0.07");
    assert_eq!(fixed(false, 90), "0.90");
}

#[test]
fn largest_magnitude() {
    assert_eq!(fixed(false, u64::MAX), "184467440737095516.15");
}

#[test]
fn decimal_numerals() {
    let mut s = String::from("n=");
    push_decimal(0, &mut s);
    assert_eq!(s, "n=0");
    let mut t = String::new();
    push_decimal(1002003, &mut t);
    assert_eq!(t, "1002003");
}

#[test]
fn coordinate_texts() {
    assert_eq!(Coordinate::Fixed(Hundredths { negative: false, magnitude: 1000 }).to_text(), "10.00");
    assert_eq!(Coordinate::Verbatim(String::from("NaN")).to_text(), "NaN");
    assert_eq!(Coordinate::Verbatim(String::from("-inf")).to_text(), "-inf");
}
