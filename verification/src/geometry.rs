//! Rectangle geometry: points, sizes and axis-aligned rectangles, with the
//! containment and intersection predicates the quadtree is built on.
//!
//! Rectangles use closed-interval semantics: two rectangles that merely touch
//! along an edge count as intersecting, and their overlap has zero width or
//! height.

use vstd::prelude::*;

verus! {

/// A 2D coordinate.
#[derive(Clone, Copy, PartialEq, Eq, Structural, Debug)]
pub struct Point {
    pub x: i64,
    pub y: i64,
}

/// Non-negative extents of a rectangle.
#[derive(Clone, Copy, PartialEq, Eq, Structural, Debug)]
pub struct Size {
    pub width: i64,
    pub height: i64,
}

/// An axis-aligned rectangle given by its origin (minimal corner) and size.
#[derive(Clone, Copy, PartialEq, Eq, Structural, Debug)]
pub struct Rect {
    pub origin: Point,
    pub size: Size,
}

impl Point {
    pub fn new(x: i64, y: i64) -> (p: Point)
        ensures
            p == (Point { x, y }),
    {
        Point { x, y }
    }

    /// Translate by another point, coordinate-wise.
    pub fn add(&self, add_point: Point) -> (p: Point)
        requires
            i64::MIN <= self.x + add_point.x <= i64::MAX,
            i64::MIN <= self.y + add_point.y <= i64::MAX,
        ensures
            p.x == self.x + add_point.x,
            p.y == self.y + add_point.y,
    {
        Point::new(self.x + add_point.x, self.y + add_point.y)
    }

    /// Translate by the negation of another point, coordinate-wise.
    pub fn subtract(&self, offset_point: Point) -> (p: Point)
        requires
            i64::MIN <= self.x - offset_point.x <= i64::MAX,
            i64::MIN <= self.y - offset_point.y <= i64::MAX,
        ensures
            p.x == self.x - offset_point.x,
            p.y == self.y - offset_point.y,
    {
        Point::new(self.x - offset_point.x, self.y - offset_point.y)
    }
}

impl Size {
    pub fn new(width: i64, height: i64) -> (s: Size)
        ensures
            s == (Size { width, height }),
    {
        Size { width, height }
    }
}

/// The rectangle with the given origin and size, at the spec level.
pub open spec fn rect_at(origin: Point, size: Size) -> Rect {
    Rect { origin, size }
}

impl Rect {
    /// The smallest x coordinate covered by the rectangle.
    pub open spec fn spec_min_x(self) -> int {
        self.origin.x as int
    }

    /// The smallest y coordinate covered by the rectangle.
    pub open spec fn spec_min_y(self) -> int {
        self.origin.y as int
    }

    /// The largest x coordinate covered by the rectangle.
    pub open spec fn spec_max_x(self) -> int {
        self.origin.x + self.size.width
    }

    /// The largest y coordinate covered by the rectangle.
    pub open spec fn spec_max_y(self) -> int {
        self.origin.y + self.size.height
    }

    /// Well-formed: extents are non-negative and the far corner still fits in
    /// the coordinate type.
    pub open spec fn wf(self) -> bool {
        &&& 0 <= self.size.width
        &&& 0 <= self.size.height
        &&& self.spec_max_x() <= i64::MAX
        &&& self.spec_max_y() <= i64::MAX
    }

    /// Closed-interval overlap: the rectangles share at least one point, where
    /// touching along an edge or a corner already counts.
    pub open spec fn spec_intersects(self, other: Rect) -> bool {
        &&& self.spec_min_x() <= other.spec_max_x()
        &&& other.spec_min_x() <= self.spec_max_x()
        &&& self.spec_min_y() <= other.spec_max_y()
        &&& other.spec_min_y() <= self.spec_max_y()
    }

    /// The containment test the tree uses. The rectangles must intersect, and
    /// whichever of the two starts further left must reach at least as far
    /// right and as far down as the other. Note that this is deliberately
    /// weaker than point-set containment: the minimal y coordinates are never
    /// compared, and on a min-x tie the receiver plays the left role.
    pub open spec fn spec_contains(self, other: Rect) -> bool {
        &&& self.spec_intersects(other)
        &&& if self.spec_min_x() <= other.spec_min_x() {
            self.spec_max_x() >= other.spec_max_x() && self.spec_max_y() >= other.spec_max_y()
        } else {
            other.spec_max_x() >= self.spec_max_x() && other.spec_max_y() >= self.spec_max_y()
        }
    }

    /// The overlap rectangle: its origin is the coordinate-wise maximum of the
    /// two origins and its far corner the coordinate-wise minimum of the two
    /// far corners. `None` when the rectangles do not intersect.
    pub open spec fn spec_intersect(self, other: Rect) -> Option<Rect> {
        if !self.spec_intersects(other) {
            None
        } else {
            let common_x_start = if self.spec_min_x() >= other.spec_min_x() {
                self.spec_min_x()
            } else {
                other.spec_min_x()
            };
            let common_y_start = if self.spec_min_y() >= other.spec_min_y() {
                self.spec_min_y()
            } else {
                other.spec_min_y()
            };
            let common_x_end = if self.spec_max_x() <= other.spec_max_x() {
                self.spec_max_x()
            } else {
                other.spec_max_x()
            };
            let common_y_end = if self.spec_max_y() <= other.spec_max_y() {
                self.spec_max_y()
            } else {
                other.spec_max_y()
            };
            Some(
                Rect {
                    origin: Point { x: common_x_start as i64, y: common_y_start as i64 },
                    size: Size {
                        width: (common_x_end - common_x_start) as i64,
                        height: (common_y_end - common_y_start) as i64,
                    },
                },
            )
        }
    }

    pub fn new(origin: Point, size: Size) -> (r: Rect)
        ensures
            r == rect_at(origin, size),
    {
        Rect { origin, size }
    }

    /// Order two rectangles so that the one whose origin is further left comes
    /// first; on a tie the first argument keeps its place.
    pub fn min_x_rect<'a>(rect1: &'a Rect, rect2: &'a Rect) -> (r: (&'a Rect, &'a Rect))
        ensures
            rect1.spec_min_x() <= rect2.spec_min_x() ==> r == (rect1, rect2),
            rect1.spec_min_x() > rect2.spec_min_x() ==> r == (rect2, rect1),
    {
        if rect1.min_x() <= rect2.min_x() {
            (rect1, rect2)
        } else {
            (rect2, rect1)
        }
    }

    /// Order two rectangles so that the one whose origin has the lower y
    /// coordinate comes first; on a tie the first argument keeps its place.
    pub fn min_y_rect<'a>(rect1: &'a Rect, rect2: &'a Rect) -> (r: (&'a Rect, &'a Rect))
        ensures
            rect1.spec_min_y() <= rect2.spec_min_y() ==> r == (rect1, rect2),
            rect1.spec_min_y() > rect2.spec_min_y() ==> r == (rect2, rect1),
    {
        if rect1.min_y() <= rect2.min_y() {
            (rect1, rect2)
        } else {
            (rect2, rect1)
        }
    }

    /// Check whether this rect contains another rect, in the sense of
    /// [`Rect::spec_contains`].
    pub fn contains(&self, rect: &Rect) -> (r: bool)
        requires
            self.wf(),
            rect.wf(),
        ensures
            r == self.spec_contains(*rect),
    {
        let (left_rect, other_rect) = Rect::min_x_rect(self, rect);
        self.intersects(rect) && (left_rect.max_x() >= other_rect.max_x() && left_rect.max_y()
            >= other_rect.max_y())
    }

    /// Check whether this rect and another rect intersect.
    pub fn intersects(&self, rect: &Rect) -> (r: bool)
        requires
            self.wf(),
            rect.wf(),
        ensures
            r == self.spec_intersects(*rect),
    {
        let (left_rect, other_rect) = Rect::min_x_rect(self, rect);
        let overlap: bool = (left_rect.max_x() >= other_rect.min_x()) && ((left_rect.min_y()
            >= other_rect.min_y() && left_rect.min_y() <= other_rect.max_y()) || (left_rect.min_y()
            <= other_rect.min_y() && left_rect.max_y() >= other_rect.min_y()));
        overlap
    }

    /// Get the intersection with another rect, as in [`Rect::spec_intersect`].
    pub fn intersect(&self, rect: &Rect) -> (r: Option<Rect>)
        requires
            self.wf(),
            rect.wf(),
        ensures
            r == self.spec_intersect(*rect),
    {
        if !self.intersects(rect) {
            return None;
        }
        let (min_x_first, other_x_rect) = Rect::min_x_rect(self, rect);
        let (min_y_first, other_y_rect) = Rect::min_y_rect(self, rect);
        let common_x_start = other_x_rect.min_x();
        let common_y_start = other_y_rect.min_y();

        let x_end_a = min_x_first.max_x();
        let x_end_b = other_x_rect.max_x();
        let common_x_end = if x_end_a <= x_end_b {
            x_end_a
        } else {
            x_end_b
        };
        let y_end_a = min_y_first.max_y();
        let y_end_b = other_y_rect.max_y();
        let common_y_end = if y_end_a <= y_end_b {
            y_end_a
        } else {
            y_end_b
        };

        let width = common_x_end - common_x_start;
        let height = common_y_end - common_y_start;

        Some(Rect::new(Point::new(common_x_start, common_y_start), Size::new(width, height)))
    }

    pub fn max_x(&self) -> (r: i64)
        requires
            self.wf(),
        ensures
            r == self.spec_max_x(),
    {
        self.origin.x + self.size.width
    }

    pub fn max_y(&self) -> (r: i64)
        requires
            self.wf(),
        ensures
            r == self.spec_max_y(),
    {
        self.origin.y + self.size.height
    }

    pub fn min_x(&self) -> (r: i64)
        ensures
            r == self.spec_min_x(),
    {
        self.origin.x
    }

    pub fn min_y(&self) -> (r: i64)
        ensures
            r == self.spec_min_y(),
    {
        self.origin.y
    }

    pub fn height(&self) -> (r: i64)
        ensures
            r == self.size.height,
    {
        self.size.height
    }

    pub fn width(&self) -> (r: i64)
        ensures
            r == self.size.width,
    {
        self.size.width
    }
}

/// Intersection does not depend on argument order: the test gives the same
/// answer both ways, and the overlap rectangle is the same both ways.
pub proof fn lemma_intersection_symmetric(a: Rect, b: Rect)
    ensures
        a.spec_intersects(b) == b.spec_intersects(a),
        a.spec_intersect(b) == b.spec_intersect(a),
{
}

/// Rectangles that merely touch along a shared vertical edge intersect, and
/// their overlap rectangle has zero width.
pub proof fn lemma_touching_edges_intersect(a: Rect, b: Rect)
    requires
        a.wf(),
        b.wf(),
        a.spec_max_x() == b.spec_min_x(),
        a.spec_min_y() <= b.spec_max_y(),
        b.spec_min_y() <= a.spec_max_y(),
    ensures
        a.spec_intersects(b),
        a.spec_intersect(b) is Some,
        a.spec_intersect(b)->Some_0.size.width == 0,
{
}

/// Rectangles that merely touch along a shared horizontal edge intersect,
/// and their overlap rectangle has zero height.
pub proof fn lemma_touching_horizontal_edges_intersect(a: Rect, b: Rect)
    requires
        a.wf(),
        b.wf(),
        a.spec_max_y() == b.spec_min_y(),
        a.spec_min_x() <= b.spec_max_x(),
        b.spec_min_x() <= a.spec_max_x(),
    ensures
        a.spec_intersects(b),
        a.spec_intersect(b) is Some,
        a.spec_intersect(b)->Some_0.size.height == 0,
{
}

/// Every well-formed rectangle contains itself.
pub proof fn lemma_contains_self(a: Rect)
    requires
        a.wf(),
    ensures
        a.spec_contains(a),
{
}

/// A rectangle never contains a rectangle it does not intersect.
pub proof fn lemma_contains_implies_intersects(a: Rect, b: Rect)
    ensures
        !a.spec_intersects(b) ==> !a.spec_contains(b),
{
}

} // verus!
