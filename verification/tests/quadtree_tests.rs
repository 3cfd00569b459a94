use quadtree::geometry::Point;
use quadtree::geometry::Rect;
use quadtree::geometry::Size;
use quadtree::quadtree::Elements;
use quadtree::quadtree::QuadTree;

fn rect(x: i64, y: i64, w: i64, h: i64) -> Rect {
    Rect::new(Point::new(x, y), Size::new(w, h))
}

#[test]
fn new_empty_is_the_zero_sized_root() {
    let tree = QuadTree::new_empty();
    assert_eq!(tree.rect, rect(0, 0, 0, 0));
    assert!(matches!(tree.elements, Elements::NoElements));
}

#[test]
fn new_autosized_uses_longer_dimension() {
    let member = rect(4, -1, 3, 2);
    let tree = QuadTree::new_autosized(member);
    assert_eq!(tree.rect, rect(4, -1, 3, 3));
    assert!(matches!(tree.elements, Elements::Member(m) if m == member));
}

#[test]
fn new_builds_each_variant() {
    let empty = QuadTree::new(Point::new(1, 2), Size::new(3, 4), Elements::NoElements);
    assert_eq!(empty.rect, rect(1, 2, 3, 4));
    assert!(matches!(empty.elements, Elements::NoElements));

    let member = rect(0, 0, 1, 1);
    let holder = QuadTree::new(Point::new(0, 0), Size::new(4, 4), Elements::Member(member));
    assert_eq!(holder.rect, rect(0, 0, 4, 4));
    assert!(matches!(holder.elements, Elements::Member(m) if m == member));

    let tl = QuadTree::new(Point::new(0, 0), Size::new(1, 1), Elements::Member(member));
    let tr = QuadTree::new(Point::new(1, 0), Size::new(1, 1), Elements::NoElements);
    let br = QuadTree::new(Point::new(1, 1), Size::new(1, 1), Elements::NoElements);
    let bl = QuadTree::new(Point::new(0, 1), Size::new(1, 1), Elements::NoElements);
    let parent = QuadTree::new(
        Point::new(0, 0),
        Size::new(2, 2),
        Elements::Children(Box::new(tl), Box::new(tr), Box::new(br), Box::new(bl)),
    );
    assert_eq!(parent.rect, rect(0, 0, 2, 2));
    let found = parent.rects_in_child_nodes_intersected_by_rect(&rect(0, 0, 2, 2));
    assert_eq!(found, vec![member]);
}

#[test]
fn insert_into_empty_autosizes() {
    let tree = QuadTree::new_empty();
    let r = rect(2, 3, 1, 1);
    let (accepted, tree) = tree.insert_rect(r);
    assert!(accepted);
    assert_eq!(tree.rect, rect(2, 3, 1, 1));
    assert!(matches!(tree.elements, Elements::Member(m) if m == r));
}

#[test]
fn insert_into_zero_width_root_ignores_the_old_tree() {
    let tree = QuadTree::new(Point::new(9, 9), Size::new(0, 5), Elements::NoElements);
    let r = rect(1, 1, 2, 1);
    let (accepted, tree) = tree.insert_rect(r);
    assert!(accepted);
    assert_eq!(tree.rect, rect(1, 1, 2, 2));
    assert!(matches!(tree.elements, Elements::Member(m) if m == r));
}

#[test]
fn insert_outside_bounds_grows_the_root() {
    let (accepted, tree) = QuadTree::new_empty().insert_rect(rect(2, 3, 1, 1));
    assert!(accepted);
    let far = rect(-5, -5, 1, 1);
    let (accepted, tree) = tree.insert_rect(far);
    assert!(accepted);
    // The root doubled until it contained both rects: a power-of-two
    // multiple of the original side length 1.
    assert_eq!(tree.rect.size, Size::new(8, 8));
    assert!(tree.rect.contains(&rect(2, 3, 1, 1)));
    assert!(tree.rect.contains(&far));
    let found = tree.rects_in_child_nodes_intersected_by_rect(&rect(-10, -10, 20, 20));
    assert_eq!(found.len(), 2);
    assert!(found.contains(&rect(2, 3, 1, 1)));
    assert!(found.contains(&far));
}

#[test]
fn duplicate_insert_is_rejected_and_tree_unchanged() {
    let r = rect(2, 3, 1, 1);
    let (_, tree) = QuadTree::new_empty().insert_rect(r);
    let (_, twin) = QuadTree::new_empty().insert_rect(r);
    let (accepted, tree) = tree.insert_rect(r);
    assert!(!accepted);
    assert_eq!(tree, twin);
    let found = tree.rects_in_child_nodes_intersected_by_rect(&r);
    assert_eq!(found, vec![r]);
}

#[test]
fn rejected_overlap_leaves_tree_structurally_identical() {
    let build = || {
        let (_, t) = QuadTree::new_empty().insert_rect(rect(0, 0, 1, 1));
        let (_, t) = t.insert_rect(rect(5, 5, 1, 1));
        t
    };
    let tree = build();
    let twin = build();
    // Overlaps the stored rect at (0, 0) without being equal to it.
    let (accepted, tree) = tree.insert_rect(rect(0, 0, 2, 2));
    assert!(!accepted);
    assert_eq!(tree, twin);
}

#[test]
fn end_to_end_growth_and_query() {
    let a = rect(0, 0, 1, 1);
    let b = rect(5, 5, 1, 1);
    let (accepted, tree) = QuadTree::new_empty().insert_rect(a);
    assert!(accepted);
    let (accepted, tree) = tree.insert_rect(b);
    assert!(accepted);

    let found = tree.rects_in_child_nodes_intersected_by_rect(&rect(0, 0, 10, 10));
    assert_eq!(found.len(), 2);
    assert!(found.contains(&a));
    assert!(found.contains(&b));

    let found = tree.rects_in_child_nodes_intersected_by_rect(&rect(20, 20, 1, 1));
    assert!(found.is_empty());
}

#[test]
fn query_reports_members_of_touched_nodes() {
    // The query emits the rectangles stored in every node whose bounding
    // rect intersects the query, whether or not the member itself does.
    let (_, tree) = QuadTree::new_empty().insert_rect(rect(0, 0, 1, 1));
    let (_, tree) = tree.insert_rect(rect(5, 5, 1, 1));
    let probe = rect(7, 7, 1, 1);
    let found = tree.rects_in_child_nodes_intersected_by_rect(&probe);
    assert!(!probe.intersects(&rect(5, 5, 1, 1)));
    assert_eq!(found, vec![rect(5, 5, 1, 1)]);
}

#[test]
fn query_on_empty_tree_returns_nothing() {
    let tree = QuadTree::new_empty();
    let found = tree.rects_in_child_nodes_intersected_by_rect(&rect(0, 0, 1, 1));
    assert!(found.is_empty());
}

#[test]
fn third_insert_descends_into_children() {
    let (_, tree) = QuadTree::new_empty().insert_rect(rect(0, 0, 1, 1));
    let (_, tree) = tree.insert_rect(rect(5, 5, 1, 1));
    let c = rect(2, 5, 1, 1);
    let (accepted, tree) = tree.insert_rect(c);
    assert!(accepted);
    let found = tree.rects_in_child_nodes_intersected_by_rect(&rect(-1, -1, 12, 12));
    assert_eq!(found.len(), 3);
    assert!(found.contains(&rect(0, 0, 1, 1)));
    assert!(found.contains(&rect(5, 5, 1, 1)));
    assert!(found.contains(&c));
}

#[test]
fn accepted_then_rejected_sequence() {
    let (accepted, tree) = QuadTree::new_empty().insert_rect(rect(0, 0, 2, 2));
    assert!(accepted);
    // Touching at an edge counts as intersecting, so this is rejected.
    let (accepted, tree) = tree.insert_rect(rect(2, 0, 2, 2));
    assert!(!accepted);
    let found = tree.rects_in_child_nodes_intersected_by_rect(&rect(0, 0, 4, 4));
    assert_eq!(found, vec![rect(0, 0, 2, 2)]);
}
