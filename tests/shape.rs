use bezier::{CurveKind, PointAction, Shape};

#[test]
fn curve_kind_from_controls() {
    assert_eq!(CurveKind::of(false, false), CurveKind::Segment);
    assert_eq!(CurveKind::of(true, false), CurveKind::QuadFromStart);
    assert_eq!(CurveKind::of(false, true), CurveKind::QuadFromEnd);
    assert_eq!(CurveKind::of(true, true), CurveKind::Cubic);
    assert!(!CurveKind::Segment.is_bezier());
    assert!(CurveKind::Cubic.is_bezier());
}

#[test]
fn curve_count_open_and_closed() {
    let mut s: Shape<u32> = Shape::new();
    assert!(!s.closed());
    assert!(s.is_empty());
    assert_eq!(s.curve_count(), 0);
    s.push(1);
    s.set_close(true);
    assert_eq!(s.curve_count(), 0);
    s.push(2);
    assert_eq!(s.curve_count(), 2);
    s.push(3);
    assert_eq!(s.curve_count(), 3);
    s.toggle_close();
    assert_eq!(s.curve_count(), 2);
}

#[test]
fn curve_ends_wrap_on_closing_curve() {
    let s = Shape::from_points(vec!['a', 'b', 'c']);
    assert!(s.closed());
    assert_eq!(s.curve_ends(0), (0, 1));
    assert_eq!(s.curve_ends(1), (1, 2));
    assert_eq!(s.curve_ends(2), (2, 0));
}

#[test]
fn split_closing_curve_adds_one_point() {
    let mut s = Shape::from_points(vec![10, 20, 30]);
    let before = s.curve_count();
    s.split_curve(2, 31, 35, 11);
    assert_eq!(s.points(), &[11, 20, 31, 35]);
    assert_eq!(s.len(), 4);
    assert_eq!(s.curve_count(), before + 1);
}

#[test]
fn split_inner_curve() {
    let mut s = Shape::from_points(vec![10, 20, 30]);
    s.set_close(false);
    s.split_curve(0, 11, 15, 21);
    assert_eq!(s.points(), &[11, 15, 21, 30]);
    assert_eq!(s.curve_count(), 3);
}

#[test]
fn edit_points() {
    let mut s = Shape::from_points(vec![1, 2, 3]);
    s.insert(1, 9);
    assert_eq!(s.points(), &[1, 9, 2, 3]);
    s.remove(0);
    assert_eq!(s.points(), &[9, 2, 3]);
    s.replace(2, 7);
    assert_eq!(s.points(), &[9, 2, 7]);
    s.points_mut().push(4);
    assert_eq!(s.points(), &[9, 2, 7, 4]);
    assert!(s.closed());
}

#[test]
fn point_actions_are_distinct() {
    assert_ne!(PointAction::Click, PointAction::Delete);
    assert_ne!(PointAction::ConvertToCorner, PointAction::ConvertToSmooth);
}

#[test]
fn default_shape_is_open_and_empty() {
    let s: Shape<u8> = Shape::default();
    assert!(!s.closed());
    assert_eq!(s.len(), 0);
}
