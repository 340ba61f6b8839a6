use spotfreeze::geometry::{Point, Rect};
use spotfreeze::text::{
    chars_of, contains_text, join_path, parse_number, push_decimal, push_signed, to_lower, trim,
};

#[test]
fn rectangles_have_half_open_edges() {
    let r = Rect::new(10, 20, 30, 40);
    assert_eq!((r.right(), r.bottom()), (40, 60));
    assert!(r.contains(Point::new(10, 20)));
    assert!(r.contains(Point::new(39, 59)));
    assert!(!r.contains(Point::new(40, 59)));
    assert!(!r.contains(Point::new(9, 20)));
    assert!(!r.is_empty());
    assert!(Rect::new(1, 1, 0, 5).is_empty());
}

#[test]
fn unions_cover_both_and_ignore_empty_ones() {
    let a = Rect::new(0, 0, 10, 10);
    let b = Rect::new(5, 5, 10, 10);
    assert_eq!(a.union(&b), Rect::new(0, 0, 15, 15));
    assert_eq!(a.union(&b), b.union(&a));
    assert_eq!(a.union(&Rect::new(50, 50, 0, 0)), a);
}

#[test]
fn intersections() {
    let a = Rect::new(0, 0, 10, 10);
    assert_eq!(a.intersection(&Rect::new(5, 5, 10, 10)), Some(Rect::new(5, 5, 5, 5)));
    assert_eq!(a.intersection(&Rect::new(10, 0, 5, 5)), None);
    assert_eq!(
        Rect::new(i32::MAX - 1, 0, u32::MAX, 1).intersection(&a),
        None
    );
    {
        let r = Rect::new(2, 3, 6, 5);
        assert_eq!(Rect::from_points(Point::new(8, 8), Point::new(2, 3)), r);
        assert_eq!(Rect::from_points(Point::new(2, 8), Point::new(8, 3)), r);
        assert_eq!(Rect::from_edges(2, 3, 8, 8), r);
        assert_eq!(Point::default(), Point::new(0, 0));
    }
}

#[test]
fn numbers_round_trip_through_text() {
    for n in [0i64, 1, -1, 42, -3801, i64::MAX, i64::MIN] {
        let mut s = String::new();
        push_signed(&mut s, n);
        assert_eq!(s, n.to_string());
        assert_eq!(parse_number(&chars_of(&s)), Some(n));
    }
    let mut s = String::new();
    push_decimal(&mut s, u64::MAX);
    assert_eq!(s, u64::MAX.to_string());
    for bad in ["", "-", "1x", " 1", "9223372036854775808", "-9223372036854775809"] {
        assert_eq!(parse_number(&chars_of(bad)), None, "{bad}");
    }
}

#[test]
fn text_helpers() {
    let padded = chars_of(" \t a b\u{a0}\n");
    assert_eq!(trim(&padded), chars_of("a b").as_slice());
    assert!(contains_text("the user declined", "declined"));
    assert!(!contains_text("short", "longer than that"));
    assert_eq!(to_lower("Screen RECORDING"), "screen recording");
    assert_eq!(join_path("/run/user", "x"), "/run/user/x");
    assert_eq!(join_path("/run/user/", "x"), "/run/user/x");
}
