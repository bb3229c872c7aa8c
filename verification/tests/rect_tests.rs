use starry::rect::Rect;

#[test]
fn new_and_accessors() {
    let r = Rect::new(3, 4, 10, 20);
    assert_eq!(r.left(), 3);
    assert_eq!(r.top(), 4);
    assert_eq!(r.width(), 10);
    assert_eq!(r.height(), 20);
    assert_eq!(r.right(), 13);
    assert_eq!(r.bottom(), 24);
    assert_eq!(r.area(), 200);
    assert!(!r.is_empty());
}

#[test]
fn empty_rects() {
    assert!(Rect::new(5, 5, 0, 7).is_empty());
    assert!(Rect::new(5, 5, 7, 0).is_empty());
    assert!(Rect::new(5, 5, 0, 0).is_empty());
    assert_eq!(Rect::new(5, 5, 0, 7).area(), 0);
}

#[test]
fn intersection_of_overlapping() {
    let a = Rect::new(0, 0, 10, 10);
    let b = Rect::new(5, 5, 10, 10);
    let i = a.intersection(&b);
    assert_eq!(i.left(), 5);
    assert_eq!(i.top(), 5);
    assert_eq!(i.width(), 5);
    assert_eq!(i.height(), 5);
}

#[test]
fn intersection_empty_when_disjoint() {
    let a = Rect::new(0, 0, 10, 10);
    let b = Rect::new(20, 20, 10, 10);
    assert!(a.intersection(&b).is_empty());
    // touching edges only do not overlap
    let c = Rect::new(10, 0, 10, 10);
    assert!(a.intersection(&c).is_empty());
}

#[test]
fn intersection_self_is_identity() {
    let a = Rect::new(-3, 7, 11, 13);
    let i = a.intersection(&a);
    assert_eq!(i, a);
}

#[test]
fn container_self_is_identity() {
    let a = Rect::new(-3, 7, 11, 13);
    assert_eq!(a.container(&a), a);
}

#[test]
fn container_contains_both() {
    let a = Rect::new(-5, 0, 10, 10);
    let b = Rect::new(20, -8, 4, 4);
    let c = a.container(&b);
    assert_eq!(c.left(), -5);
    assert_eq!(c.top(), -8);
    assert_eq!(c.right(), 24);
    assert_eq!(c.bottom(), 10);
    assert!(c.left() <= a.left() && a.right() <= c.right());
    assert!(c.left() <= b.left() && b.right() <= c.right());
    assert!(c.top() <= a.top() && a.bottom() <= c.bottom());
    assert!(c.top() <= b.top() && b.bottom() <= c.bottom());
}

#[test]
fn contains_is_edge_inclusive() {
    let a = Rect::new(0, 0, 10, 10);
    assert!(a.contains(0, 0));
    assert!(a.contains(10, 10));
    assert!(a.contains(5, 5));
    assert!(!a.contains(11, 5));
    assert!(!a.contains(5, -1));
}

#[test]
fn offset_shifts_position_only() {
    let a = Rect::new(1, 2, 3, 4);
    let b = a.offset(10, -20);
    assert_eq!(b.left(), 11);
    assert_eq!(b.top(), -18);
    assert_eq!(b.width(), 3);
    assert_eq!(b.height(), 4);
}
