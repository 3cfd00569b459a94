use quadtree::geometry::Point;
use quadtree::geometry::Rect;
use quadtree::geometry::Size;

fn rect(x: i64, y: i64, w: i64, h: i64) -> Rect {
    Rect::new(Point::new(x, y), Size::new(w, h))
}

#[test]
fn point_add_and_subtract() {
    let p = Point::new(3, -4);
    let q = Point::new(10, 2);
    assert_eq!(p.add(q), Point::new(13, -2));
    assert_eq!(p.subtract(q), Point::new(-7, -6));
}

#[test]
fn min_x_rect_picks_leftmost_and_keeps_first_on_tie() {
    let a = rect(0, 0, 1, 1);
    let b = rect(5, 0, 1, 1);
    let (first, second) = Rect::min_x_rect(&b, &a);
    assert_eq!(*first, a);
    assert_eq!(*second, b);
    let tie_a = rect(2, 0, 1, 1);
    let tie_b = rect(2, 9, 3, 3);
    let (first, second) = Rect::min_x_rect(&tie_a, &tie_b);
    assert_eq!(*first, tie_a);
    assert_eq!(*second, tie_b);
}

#[test]
fn min_y_rect_picks_lowest_y() {
    let a = rect(0, 7, 1, 1);
    let b = rect(9, 1, 1, 1);
    let (first, second) = Rect::min_y_rect(&a, &b);
    assert_eq!(*first, b);
    assert_eq!(*second, a);
}

#[test]
fn intersects_is_symmetric() {
    let pairs = [
        (rect(0, 0, 4, 4), rect(2, 2, 4, 4)),
        (rect(0, 0, 1, 1), rect(5, 5, 1, 1)),
        (rect(-3, -3, 2, 2), rect(-2, -2, 1, 1)),
        (rect(0, 0, 1, 1), rect(1, 0, 1, 1)),
    ];
    for (a, b) in pairs {
        assert_eq!(a.intersects(&b), b.intersects(&a));
        assert_eq!(a.intersect(&b), b.intersect(&a));
    }
}

#[test]
fn touching_vertical_edges_intersect_with_zero_width() {
    let a = rect(0, 0, 1, 1);
    let b = rect(1, 0, 1, 1);
    assert!(a.intersects(&b));
    assert!(b.intersects(&a));
    let overlap = a.intersect(&b).unwrap();
    assert_eq!(overlap, rect(1, 0, 0, 1));
}

#[test]
fn touching_horizontal_edges_intersect_with_zero_height() {
    let a = rect(0, 0, 2, 3);
    let b = rect(0, 3, 2, 3);
    assert!(a.intersects(&b));
    let overlap = a.intersect(&b).unwrap();
    assert_eq!(overlap, rect(0, 3, 2, 0));
}

#[test]
fn intersect_exact_overlap_rect() {
    let a = rect(0, 0, 4, 4);
    let b = rect(2, 2, 4, 4);
    assert_eq!(a.intersect(&b), Some(rect(2, 2, 2, 2)));
}

#[test]
fn intersect_none_when_disjoint() {
    let a = rect(0, 0, 1, 1);
    let b = rect(5, 5, 1, 1);
    assert!(!a.intersects(&b));
    assert_eq!(a.intersect(&b), None);
}

#[test]
fn intersects_at_extreme_coordinates() {
    let quarter: i64 = 1 << 62;
    let big = rect(-quarter, -quarter, i64::MAX, i64::MAX);
    let unit = rect(0, 0, 1, 1);
    assert!(big.intersects(&unit));
    assert_eq!(big.intersect(&unit), Some(unit));
}

#[test]
fn contains_self() {
    for r in [rect(0, 0, 1, 1), rect(-7, 3, 0, 0), rect(2, 3, 5, 9)] {
        assert!(r.contains(&r));
    }
}

#[test]
fn contains_false_when_disjoint() {
    let a = rect(0, 0, 1, 1);
    let b = rect(10, 10, 2, 2);
    assert!(!a.intersects(&b));
    assert!(!a.contains(&b));
    assert!(!b.contains(&a));
}

#[test]
fn contains_true_inside() {
    let outer = rect(0, 0, 10, 10);
    let inner = rect(2, 3, 4, 4);
    assert!(outer.contains(&inner));
}

#[test]
fn contains_uses_min_x_rule() {
    // The tree's containment test hands the "left" role to whichever rect
    // starts further left and only asks that this one dominate the other at
    // the far corner, so a small rect counts as containing a larger one that
    // reaches further left yet is dominated on the right and below.
    let small = rect(1, 0, 1, 1);
    let large = rect(0, 0, 5, 5);
    assert!(small.contains(&large));
    // On a min-x tie the receiver plays the left role, so the answer can
    // differ with the argument order.
    let a = rect(0, 0, 2, 2);
    let b = rect(0, 0, 5, 5);
    assert!(!a.contains(&b));
    assert!(b.contains(&a));
}
