use bezier::decimal::{Coordinate, Hundredths};
use bezier::path::{assemble_path, Curve, CurvePoint, MoveTo};

fn h(v: i64) -> Coordinate {
    Coordinate::Fixed(Hundredths { negative: v < 0, magnitude: v.unsigned_abs() })
}

fn pt(x: i64, y: i64) -> CurvePoint {
    CurvePoint { x: h(x), y: h(y) }
}

fn curve(a: (i64, i64), b: (i64, i64), e: (i64, i64)) -> Curve {
    Curve { start_control: pt(a.0, a.1), end_control: pt(b.0, b.1), end: pt(e.0, e.1) }
}

fn start(x: &str, y: &str) -> Option<MoveTo> {
    Some(MoveTo { x: x.to_string(), y: y.to_string() })
}

#[test]
fn empty_input_gives_empty_path() {
    assert_eq!(assemble_path(&None, &Vec::new()), "");
}

#[test]
fn single_point_gives_move_to_only() {
    assert_eq!(assemble_path(&start("1.5", "-2"), &Vec::new()), "M 1.5,-2");
    assert_eq!(assemble_path(&start("0.123456", "7"), &Vec::new()), "M 0.123456,7");
}

#[test]
fn two_points_without_smoothing() {
    // A = (1.234, 5.678), B = (9.987, -3): both control points sit on their anchors.
    let curves = vec![curve((123, 568), (999, -300), (999, -300))];
    assert_eq!(
        assemble_path(&start("1.234", "5.678"), &curves),
        "M 1.234,5.678 C 1.23,5.68 9.99,-3.00 9.99,-3.00"
    );
}

#[test]
fn right_angle_example() {
    // Points (0,0), (10,0), (10,10) with smoothing 0.2.
    let curves = vec![
        curve((200, 0), (800, -200), (1000, 0)),
        curve((1200, 200), (1000, 800), (1000, 1000)),
    ];
    assert_eq!(
        assemble_path(&start("0", "0"), &curves),
        "M 0,0 C 2.00,0.00 8.00,-2.00 10.00,0.00 C 12.00,2.00 10.00,8.00 10.00,10.00"
    );
}

#[test]
fn one_move_to_and_one_curve_per_later_point() {
    let curves = vec![
        curve((1, 2), (3, 4), (5, 6)),
        curve((-1, -2), (-3, -4), (-5, -6)),
        curve((0, 0), (0, 0), (0, 0)),
    ];
    let d = assemble_path(&start("3", "4"), &curves);
    assert_eq!(d.matches('M').count(), 1);
    assert_eq!(d.matches('C').count(), 3);
    assert!(d.starts_with("M 3,4 C "));
}

#[test]
fn same_parts_same_text() {
    let make = || vec![curve((150, -250), (1, 99), (-1001, 0))];
    let a = assemble_path(&start("1.5", "-2.5"), &make());
    let b = assemble_path(&start("1.5", "-2.5"), &make());
    assert_eq!(a, b);
    assert_eq!(a, "M 1.5,-2.5 C 1.50,-2.50 0.01,0.99 -10.01,0.00");
}

#[test]
fn verbatim_coordinates_pass_through() {
    let c = Curve {
        start_control: CurvePoint { x: Coordinate::Verbatim("NaN".to_string()), y: h(0) },
        end_control: pt(1, 1),
        end: CurvePoint { x: h(100), y: Coordinate::Verbatim("inf".to_string()) },
    };
    assert_eq!(assemble_path(&start("NaN", "0"), &vec![c]), "M NaN,0 C NaN,0.00 0.01,0.01 1.00,inf");
}
