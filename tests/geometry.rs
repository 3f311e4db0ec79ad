use polygon::{add_point_to_path, double_signed_area, is_point_in_polygon, point, Path, Point};

fn area(p: &Path) -> f64 {
    double_signed_area(p).unwrap() as f64 * 0.5
}

fn path_of(points: &[(i64, i64)]) -> Path {
    let mut p = Path::new();
    for &(x, y) in points {
        add_point_to_path(point(x, y), &mut p);
    }
    p
}

#[test]
fn test_point_add() {
    let p1 = Point { x: 1, y: 3 };
    let p2 = Point { x: 2, y: -3 };
    let ps = p1 + p2;
    assert_eq!(ps.x, 3);
    assert_eq!(ps.y, 0);
}

#[test]
fn test_point_sub() {
    let p1 = Point { x: 1, y: 3 };
    let p2 = Point { x: 2, y: -3 };
    let ps = p1 - p2;
    assert_eq!(ps.x, -1);
    assert_eq!(ps.y, 6);
}

#[test]
fn test_polygon_get_area() {
    let p1 = Point { x: 1, y: 2 };
    let p2 = Point { x: 2, y: 2 };
    let p3 = Point { x: 2, y: 3 };
    let p4 = Point { x: 1, y: 3 };
    let mut path = Path::default();
    path += p1;
    assert_eq!(0f64, area(&path));
    path += p2;
    assert_eq!(0f64, area(&path));
    path += p3;
    assert_eq!(0.5f64, area(&path));
    path += p4;
    assert_eq!(1.0f64, area(&path));
}

#[test]
fn test_get_area_positive() {
    let p = path_of(&[(0, 0), (2, 0), (0, 2)]);
    assert_eq!(2f64, area(&p));
}

#[test]
fn test_get_area_negative() {
    let p = path_of(&[(0, 0), (0, 2), (2, 0)]);
    assert_eq!(-2f64, area(&p));
}

#[test]
fn test_point_in_polygon() {
    let p1 = Point { x: 1, y: 2 };
    let p2 = Point { x: 2, y: 2 };
    let p3 = Point { x: 2, y: 3 };
    let p4 = Point { x: 1, y: 3 };
    let p5 = Point { x: -2, y: 4 };
    let p6 = Point { x: 0, y: -2 };
    let mut path = Path::default();
    path += p1;
    let s = Point { x: 0, y: 2 };
    assert_eq!(false, is_point_in_polygon(s.clone(), &path));
    path += p2;
    assert_eq!(false, is_point_in_polygon(s.clone(), &path));
    path += p3;
    assert_eq!(false, is_point_in_polygon(s.clone(), &path));
    path += p4;
    assert_eq!(false, is_point_in_polygon(s.clone(), &path));
    path += p5;
    assert_eq!(false, is_point_in_polygon(s.clone(), &path));
    path += p6;
    assert_eq!(true, is_point_in_polygon(s.clone(), &path));
}

#[test]
fn add_then_sub_gives_back_the_point() {
    let a = point(-7, 12);
    let b = point(40, -3);
    assert_eq!((a + b) - b, a);
}

#[test]
fn add_and_sub_wrap_on_overflow() {
    let a = point(i64::MAX, i64::MIN);
    let b = point(1, 1);
    let c = a + b;
    assert_eq!(c, point(i64::MIN, i64::MIN + 1));
    assert_eq!(c - b, a);
    assert_eq!(point(i64::MIN, 0) - point(1, 0), point(i64::MAX, 0));
}

#[test]
fn degenerate_paths_have_no_area_and_contain_nothing() {
    let empty = Path::new();
    assert_eq!(double_signed_area(&empty), Some(0));
    assert!(!is_point_in_polygon(point(0, 0), &empty));
    let one = path_of(&[(5, 5)]);
    assert_eq!(double_signed_area(&one), Some(0));
    assert!(!is_point_in_polygon(point(5, 5), &one));
    let two = path_of(&[(0, 0), (4, 4)]);
    assert_eq!(double_signed_area(&two), Some(0));
    assert!(!is_point_in_polygon(point(2, 2), &two));
    assert!(!is_point_in_polygon(point(0, 0), &two));
}

#[test]
fn reversed_vertices_negate_the_area() {
    let forward = path_of(&[(1, 2), (2, 2), (2, 3), (1, 3), (-2, 4), (0, -2)]);
    let backward = path_of(&[(0, -2), (-2, 4), (1, 3), (2, 3), (2, 2), (1, 2)]);
    let f = double_signed_area(&forward).unwrap();
    assert_eq!(double_signed_area(&backward), Some(-f));
    assert_ne!(f, 0);
}

#[test]
fn rotated_vertices_keep_the_area() {
    let square = path_of(&[(1, 2), (2, 2), (2, 3), (1, 3)]);
    let rotated = path_of(&[(2, 3), (1, 3), (1, 2), (2, 2)]);
    assert_eq!(double_signed_area(&square), Some(2));
    assert_eq!(double_signed_area(&rotated), Some(2));
}

#[test]
fn area_is_exact_beyond_i64() {
    let m = i64::MAX;
    let p = path_of(&[(0, 0), (m, 0), (0, m)]);
    assert_eq!(double_signed_area(&p), Some((m as i128) * (m as i128)));
}

#[test]
fn area_reports_overflow() {
    let p = path_of(&[(i64::MAX, i64::MIN), (i64::MIN, i64::MIN), (0, 0)]);
    assert_eq!(double_signed_area(&p), None);
}

#[test]
fn query_outside_bounding_box_is_rejected() {
    let square = path_of(&[(1, 2), (2, 2), (2, 3), (1, 3)]);
    assert!(!is_point_in_polygon(point(0, 2), &square));
    assert!(!is_point_in_polygon(point(3, 2), &square));
    assert!(!is_point_in_polygon(point(1, 4), &square));
    assert!(!is_point_in_polygon(point(1, 1), &square));
}

#[test]
fn crossing_uses_truncating_division() {
    let triangle = path_of(&[(0, 0), (4, 0), (0, 3)]);
    assert!(is_point_in_polygon(point(1, 1), &triangle));
    // The hypotenuse meets y = 1 at x = 8/3, truncated to 2: (2, 1) counts as outside.
    assert!(!is_point_in_polygon(point(2, 1), &triangle));
    assert!(!is_point_in_polygon(point(3, 1), &triangle));
    assert!(!is_point_in_polygon(point(1, 2), &triangle));
}

#[test]
fn containment_with_extreme_coordinates() {
    let m = i64::MAX;
    let big = path_of(&[(i64::MIN, i64::MIN), (m, i64::MIN), (m, m), (i64::MIN, m)]);
    assert!(is_point_in_polygon(point(0, 0), &big));
    assert!(!is_point_in_polygon(point(m, 0), &big));
}

#[test]
fn path_keeps_vertices_in_order() {
    let p = path_of(&[(1, 2), (3, 4)]);
    assert_eq!(p.len(), 2);
    assert_eq!(p.vertex(0), point(1, 2));
    assert_eq!(p.vertex(1), point(3, 4));
}
