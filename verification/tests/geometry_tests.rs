use starry::geometry::{align_rect, get_local_rect, PivotType, Point, Rect, Vector2};
use starry::graphicspath::{GraphicsPath, PointType};

#[test]
fn point_and_vector_arithmetic() {
    let p = Point::new(3, 4).add(Point::new(10, 20));
    assert_eq!((p.x, p.y), (13, 24));
    let q = Point::new(3, 4).sub(Point::new(1, 1));
    assert_eq!((q.x, q.y), (2, 3));
    let v = Vector2::new(-5, 6).add(Vector2::new(5, -6));
    assert_eq!((v.x, v.y), (0, 0));
    let w = Vector2::new(-5, 6).sub(Vector2::new(5, -6));
    assert_eq!((w.x, w.y), (-10, 12));
}

#[test]
fn rect_anchor_positions() {
    let r = Rect::new(10, 20, 30, 40);
    assert_eq!(r.top_left_pos(), Vector2::new(10, 20));
    assert_eq!(r.top_pos(), Vector2::new(25, 20));
    assert_eq!(r.top_right_pos(), Vector2::new(40, 20));
    assert_eq!(r.left_pos(), Vector2::new(10, 40));
    assert_eq!(r.center_pos(), Vector2::new(25, 40));
    assert_eq!(r.right_pos(), Vector2::new(40, 40));
    assert_eq!(r.bottom_left_pos(), Vector2::new(10, 60));
    assert_eq!(r.bottom_pos(), Vector2::new(25, 60));
    assert_eq!(r.bottom_right_pos(), Vector2::new(40, 60));
}

#[test]
fn rect_contains_excludes_far_edges() {
    let r = Rect::new(0, 0, 10, 10);
    assert!(r.contains(Vector2::new(0, 0)));
    assert!(r.contains(Vector2::new(9, 9)));
    assert!(!r.contains(Vector2::new(10, 5)));
    assert!(!r.contains(Vector2::new(5, 10)));
}

#[test]
fn rect_contains_rect_and_intersects() {
    let outer = Rect::new(0, 0, 100, 100);
    let inner = Rect::new(10, 10, 20, 20);
    assert!(outer.contains_rect(&inner));
    assert!(!inner.contains_rect(&outer));
    assert!(outer.intersects(&inner));
    let far = Rect::new(200, 200, 5, 5);
    assert!(!outer.intersects(&far));
    // rectangles that merely touch do not intersect
    let touching = Rect::new(100, 0, 5, 5);
    assert!(!outer.intersects(&touching));
}

#[test]
fn align_rect_centres_on_the_reference() {
    let origin = Rect::new(0, 0, 10, 20);
    let reference = Rect::new(100, 100, 50, 50);
    let aligned = align_rect(origin, reference, PivotType::Center, Vector2::new(0, 0));
    // reference centre (125, 125) minus half the extent
    assert_eq!(aligned, Rect::new(120, 115, 10, 20));
}

#[test]
fn align_rect_bottom_right_with_offset() {
    let origin = Rect::new(0, 0, 10, 10);
    let reference = Rect::new(0, 0, 100, 100);
    let aligned = align_rect(origin, reference, PivotType::BottomRight, Vector2::new(-2, -3));
    // corner (100, 100), offset (-2, -3), shifted back by the extent
    assert_eq!(aligned, Rect::new(88, 87, 10, 10));
}

#[test]
fn align_rect_without_pivot_uses_the_offset_alone() {
    let origin = Rect::new(5, 5, 10, 10);
    let reference = Rect::new(100, 100, 50, 50);
    let aligned = align_rect(origin, reference, PivotType::NoAlign, Vector2::new(42, 43));
    assert_eq!(aligned, Rect::new(42, 43, 10, 10));
}

#[test]
fn local_rect_is_relative_to_the_target() {
    let source = Rect::new(100, 120, 30, 40);
    let target = Rect::new(90, 100, 500, 500);
    let local = get_local_rect(source, target);
    assert_eq!(local, Rect::new(10, 20, 30, 40));
}

#[test]
fn graphics_path_records_points_and_pen() {
    let mut p = GraphicsPath::new();
    assert_eq!(p.x, 0);
    assert_eq!(p.y, 0);
    assert!(p.points.is_empty());
    p.move_to(10, 10);
    p.line_to(20, 10);
    p.line_to(20, 20);
    assert_eq!(p.x, 20);
    assert_eq!(p.y, 20);
    assert_eq!(p.points.len(), 3);
    assert!(matches!(p.points[0], (10, 10, PointType::Move)));
    assert!(matches!(p.points[1], (20, 10, PointType::Connect)));
    assert!(matches!(p.points[2], (20, 20, PointType::Connect)));
}
