//! The quadtree itself: nodes, construction invariants, insertion with
//! outward growth and node splitting, and the intersection query traversal.

use vstd::prelude::*;

use crate::geometry::Point;
use crate::geometry::Rect;
use crate::geometry::Size;
use crate::geometry::rect_at;

verus! {

/// Elements that may be contained by a quadtree node: either four child
/// nodes, a single member rectangle, or nothing.
#[derive(PartialEq, Debug)]
pub enum Elements {
    /// Children are top left, top right, bottom right, and bottom left,
    /// respectively.
    Children(Box<QuadTree>, Box<QuadTree>, Box<QuadTree>, Box<QuadTree>),
    /// A single rectangle.
    Member(Rect),
    /// Nothing.
    NoElements,
}

/// A quadtree node holding a bounding rect and either one member rectangle,
/// exactly four child nodes, or nothing.
#[derive(PartialEq, Debug)]
pub struct QuadTree {
    pub rect: Rect,
    pub elements: Elements,
}

/// The four child rects exactly tile the parent rect into quadrants:
/// adjacent quadrants share their boundary coordinates and the union of the
/// four equals the parent.
pub open spec fn quadrants_tile(parent: Rect, tl: Rect, tr: Rect, br: Rect, bl: Rect) -> bool {
    &&& tl.spec_min_x() == bl.spec_min_x()
    &&& tl.spec_max_x() == bl.spec_max_x()
    &&& tl.spec_max_y() == bl.spec_min_y()
    &&& tl.spec_max_x() == tr.spec_min_x()
    &&& tl.spec_min_y() == tr.spec_min_y()
    &&& tl.spec_max_y() == tr.spec_max_y()
    &&& bl.spec_max_x() == br.spec_min_x()
    &&& bl.spec_min_y() == br.spec_min_y()
    &&& bl.spec_max_y() == br.spec_max_y()
    &&& tr.spec_min_x() == br.spec_min_x()
    &&& tr.spec_max_x() == br.spec_max_x()
    &&& tr.spec_max_y() == br.spec_min_y()
    &&& parent.spec_min_x() == tl.spec_min_x()
    &&& parent.spec_max_x() == tr.spec_max_x()
    &&& parent.spec_min_y() == tl.spec_min_y()
    &&& parent.spec_max_y() == bl.spec_max_y()
}

/// What a node's rect demands of its elements: child rects tile it into
/// quadrants, and a member rect is contained by it (in the tree's
/// containment sense).
pub open spec fn elements_fit(rect: Rect, elems: Elements) -> bool {
    match elems {
        Elements::Children(tl, tr, br, bl) => quadrants_tile(
            rect,
            tl.rect,
            tr.rect,
            br.rect,
            bl.rect,
        ),
        Elements::Member(member) => rect.spec_contains(member),
        Elements::NoElements => true,
    }
}

/// The node that `new_autosized` builds: a single-member node whose rect is
/// a square anchored at the member's origin, with side length the larger of
/// the member's two dimensions.
pub open spec fn spec_autosized(rect: Rect) -> QuadTree {
    let side = if rect.size.width > rect.size.height {
        rect.size.width
    } else {
        rect.size.height
    };
    QuadTree {
        rect: Rect { origin: rect.origin, size: Size { width: side, height: side } },
        elements: Elements::Member(rect),
    }
}

/// The square that `new_autosized` builds still has its far corner in range.
pub open spec fn autosized_fits(rect: Rect) -> bool {
    let side = if rect.size.width > rect.size.height {
        rect.size.width
    } else {
        rect.size.height
    };
    &&& rect.origin.x + side <= i64::MAX
    &&& rect.origin.y + side <= i64::MAX
}

/// The four fresh empty quadrant nodes covering a rect: each has half the
/// rect's width and height (rounded down), in the order top left, top right,
/// bottom right, bottom left.
pub open spec fn spec_make_children(rect: Rect) -> (QuadTree, QuadTree, QuadTree, QuadTree) {
    let half = Size {
        width: (rect.size.width / 2) as i64,
        height: (rect.size.height / 2) as i64,
    };
    let x0 = rect.origin.x;
    let y0 = rect.origin.y;
    let x1 = (rect.origin.x + rect.size.width / 2) as i64;
    let y1 = (rect.origin.y + rect.size.height / 2) as i64;
    let tl = QuadTree {
        rect: Rect { origin: Point { x: x0, y: y0 }, size: half },
        elements: Elements::NoElements,
    };
    let tr = QuadTree {
        rect: Rect { origin: Point { x: x1, y: y0 }, size: half },
        elements: Elements::NoElements,
    };
    let br = QuadTree {
        rect: Rect { origin: Point { x: x1, y: y1 }, size: half },
        elements: Elements::NoElements,
    };
    let bl = QuadTree {
        rect: Rect { origin: Point { x: x0, y: y1 }, size: half },
        elements: Elements::NoElements,
    };
    (tl, tr, br, bl)
}

/// Recursion budget for subdivision during insertion. Each split halves a
/// node's extents, so any insertion that can finish at all finishes within
/// this depth; an insertion that would subdivide forever (or would violate a
/// construction invariant on the way) has no result at any depth.
pub open spec fn split_fuel() -> nat {
    128
}

/// Growth budget for the outward-growth loop. Each round doubles the root's
/// extents, so a growth phase that can reach containment at all reaches it
/// within this many rounds before the coordinates leave the machine range.
pub open spec fn grow_fuel() -> nat {
    64
}

/// One step of `insert_rect_if_intersects`, as a partial function: `None`
/// when the step would violate a construction invariant (a member stored in
/// a node that does not contain it, or quadrants that fail to tile their
/// parent) or when the subdivision budget runs out.
pub open spec fn spec_insert_if(node: QuadTree, to_insert: Rect, fuel: nat) -> Option<QuadTree>
    decreases fuel,
{
    if fuel == 0 {
        None
    } else if !node.rect.spec_intersects(to_insert) {
        Some(node)
    } else {
        let f = (fuel - 1) as nat;
        match node.elements {
            Elements::Children(tl, tr, br, bl) => {
                let tl2 = spec_insert_if(*tl, to_insert, f);
                let tr2 = spec_insert_if(*tr, to_insert, f);
                let br2 = spec_insert_if(*br, to_insert, f);
                let bl2 = spec_insert_if(*bl, to_insert, f);
                if tl2 is Some && tr2 is Some && br2 is Some && bl2 is Some {
                    let rebuilt = QuadTree {
                        rect: node.rect,
                        elements: Elements::Children(
                            Box::new(tl2->Some_0),
                            Box::new(tr2->Some_0),
                            Box::new(br2->Some_0),
                            Box::new(bl2->Some_0),
                        ),
                    };
                    if elements_fit(rebuilt.rect, rebuilt.elements) {
                        Some(rebuilt)
                    } else {
                        None
                    }
                } else {
                    None
                }
            },
            Elements::Member(member) => {
                if member.spec_intersects(to_insert) {
                    Some(node)
                } else {
                    let quads = spec_make_children(node.rect);
                    let a0 = spec_insert_if(quads.0, member, f);
                    let a1 = spec_insert_if(quads.1, member, f);
                    let a2 = spec_insert_if(quads.2, member, f);
                    let a3 = spec_insert_if(quads.3, member, f);
                    if a0 is Some && a1 is Some && a2 is Some && a3 is Some {
                        let b0 = spec_insert_if(a0->Some_0, to_insert, f);
                        let b1 = spec_insert_if(a1->Some_0, to_insert, f);
                        let b2 = spec_insert_if(a2->Some_0, to_insert, f);
                        let b3 = spec_insert_if(a3->Some_0, to_insert, f);
                        if b0 is Some && b1 is Some && b2 is Some && b3 is Some {
                            let rebuilt = QuadTree {
                                rect: node.rect,
                                elements: Elements::Children(
                                    Box::new(b0->Some_0),
                                    Box::new(b1->Some_0),
                                    Box::new(b2->Some_0),
                                    Box::new(b3->Some_0),
                                ),
                            };
                            if elements_fit(rebuilt.rect, rebuilt.elements) {
                                Some(rebuilt)
                            } else {
                                None
                            }
                        } else {
                            None
                        }
                    } else {
                        None
                    }
                }
            },
            Elements::NoElements => {
                if node.rect.spec_contains(to_insert) {
                    Some(QuadTree { rect: node.rect, elements: Elements::Member(to_insert) })
                } else {
                    None
                }
            },
        }
    }
}

/// One round of outward growth: a new root with double the extents, holding
/// the current tree as one quadrant and three fresh empty quadrants. The
/// quadrant the tree keeps is picked by comparing the candidate's origin
/// against the root's origin; note that the vertical pick compares the
/// root's minimal x coordinate against the candidate's minimal y
/// coordinate — a deliberate axis mismatch, pinned here and by the tests,
/// that can point growth away from the candidate for some inputs.
/// `None` when the doubled rect would leave the coordinate range.
pub open spec fn spec_grow_once(tree: QuadTree, to_insert: Rect) -> Option<QuadTree> {
    let x = tree.rect.spec_min_x();
    let y = tree.rect.spec_min_y();
    let w = tree.rect.size.width as int;
    let h = tree.rect.size.height as int;
    let grow_right = x < to_insert.spec_min_x();
    let grow_down = x < to_insert.spec_min_y();
    let nx = if grow_right {
        x
    } else {
        x - w
    };
    let ny = if grow_down {
        y
    } else {
        y - h
    };
    if i64::MIN <= nx && nx + 2 * w <= i64::MAX && i64::MIN <= ny && ny + 2 * h <= i64::MAX && 2 * w
        <= i64::MAX && 2 * h <= i64::MAX {
        let quad_size = tree.rect.size;
        let empty_tl = QuadTree {
            rect: Rect { origin: Point { x: nx as i64, y: ny as i64 }, size: quad_size },
            elements: Elements::NoElements,
        };
        let empty_tr = QuadTree {
            rect: Rect { origin: Point { x: (nx + w) as i64, y: ny as i64 }, size: quad_size },
            elements: Elements::NoElements,
        };
        let empty_br = QuadTree {
            rect: Rect {
                origin: Point { x: (nx + w) as i64, y: (ny + h) as i64 },
                size: quad_size,
            },
            elements: Elements::NoElements,
        };
        let empty_bl = QuadTree {
            rect: Rect { origin: Point { x: nx as i64, y: (ny + h) as i64 }, size: quad_size },
            elements: Elements::NoElements,
        };
        let root_rect = Rect {
            origin: Point { x: nx as i64, y: ny as i64 },
            size: Size { width: (2 * w) as i64, height: (2 * h) as i64 },
        };
        let elems = if grow_right && grow_down {
            Elements::Children(
                Box::new(tree),
                Box::new(empty_tr),
                Box::new(empty_br),
                Box::new(empty_bl),
            )
        } else if grow_right && !grow_down {
            Elements::Children(
                Box::new(empty_tl),
                Box::new(empty_tr),
                Box::new(empty_br),
                Box::new(tree),
            )
        } else if !grow_right && grow_down {
            Elements::Children(
                Box::new(empty_tl),
                Box::new(tree),
                Box::new(empty_br),
                Box::new(empty_bl),
            )
        } else {
            Elements::Children(
                Box::new(empty_tl),
                Box::new(empty_tr),
                Box::new(tree),
                Box::new(empty_bl),
            )
        };
        Some(QuadTree { rect: root_rect, elements: elems })
    } else {
        None
    }
}

/// The number of nodes in a tree.
pub open spec fn tree_size(tree: QuadTree) -> nat
    decreases tree,
{
    match tree.elements {
        Elements::Children(tl, tr, br, bl) => 1 + tree_size(*tl) + tree_size(*tr) + tree_size(*br)
            + tree_size(*bl),
        Elements::Member(_) => 1,
        Elements::NoElements => 1,
    }
}

/// The total number of nodes over a work list of trees.
pub open spec fn forest_size(nodes: Seq<QuadTree>) -> nat
    decreases nodes.len(),
{
    if nodes.len() == 0 {
        0
    } else {
        tree_size(nodes[0]) + forest_size(nodes.drop_first())
    }
}

/// Concatenating work lists adds their node counts.
pub proof fn lemma_forest_size_concat(a: Seq<QuadTree>, b: Seq<QuadTree>)
    ensures
        forest_size(a + b) == forest_size(a) + forest_size(b),
    decreases a.len(),
{
    if a.len() == 0 {
        assert(a + b =~= b);
    } else {
        lemma_forest_size_concat(a.drop_first(), b);
        assert((a + b).drop_first() =~= a.drop_first() + b);
        assert((a + b)[0] == a[0]);
    }
}

/// A singleton work list counts exactly its tree's nodes.
pub proof fn lemma_forest_size_singleton(tree: QuadTree)
    ensures
        forest_size(seq![tree]) == tree_size(tree),
{
    assert(seq![tree].drop_first() =~= Seq::<QuadTree>::empty());
    assert(forest_size(Seq::<QuadTree>::empty()) == 0);
    assert(forest_size(seq![tree]) == tree_size(seq![tree][0]) + forest_size(
        seq![tree].drop_first(),
    ));
}

/// The children of a node whose rects intersect the query intersection, in
/// child order (top left, top right, bottom right, bottom left). A node
/// without children contributes nothing.
pub open spec fn spec_enqueue(node: QuadTree, isect: Rect) -> Seq<QuadTree> {
    match node.elements {
        Elements::Children(tl, tr, br, bl) => {
            let s0 = if tl.rect.spec_intersects(isect) {
                seq![*tl]
            } else {
                Seq::<QuadTree>::empty()
            };
            let s1 = if tr.rect.spec_intersects(isect) {
                seq![*tr]
            } else {
                Seq::<QuadTree>::empty()
            };
            let s2 = if br.rect.spec_intersects(isect) {
                seq![*br]
            } else {
                Seq::<QuadTree>::empty()
            };
            let s3 = if bl.rect.spec_intersects(isect) {
                seq![*bl]
            } else {
                Seq::<QuadTree>::empty()
            };
            s0 + s1 + s2 + s3
        },
        Elements::Member(_) => Seq::<QuadTree>::empty(),
        Elements::NoElements => Seq::<QuadTree>::empty(),
    }
}

/// What a node enqueues is strictly smaller than the node itself.
pub proof fn lemma_enqueue_size(node: QuadTree, isect: Rect)
    ensures
        forest_size(spec_enqueue(node, isect)) < tree_size(node),
{
    match node.elements {
        Elements::Children(tl, tr, br, bl) => {
            let s0 = if tl.rect.spec_intersects(isect) {
                seq![*tl]
            } else {
                Seq::<QuadTree>::empty()
            };
            let s1 = if tr.rect.spec_intersects(isect) {
                seq![*tr]
            } else {
                Seq::<QuadTree>::empty()
            };
            let s2 = if br.rect.spec_intersects(isect) {
                seq![*br]
            } else {
                Seq::<QuadTree>::empty()
            };
            let s3 = if bl.rect.spec_intersects(isect) {
                seq![*bl]
            } else {
                Seq::<QuadTree>::empty()
            };
            lemma_forest_size_singleton(*tl);
            lemma_forest_size_singleton(*tr);
            lemma_forest_size_singleton(*br);
            lemma_forest_size_singleton(*bl);
            lemma_forest_size_concat(s0, s1);
            lemma_forest_size_concat(s0 + s1, s2);
            lemma_forest_size_concat(s0 + s1 + s2, s3);
        },
        Elements::Member(_) => {
        },
        Elements::NoElements => {
        },
    }
}

/// The rectangles reported by the breadth-first traversal: the work list is
/// consumed in order; a member node emits its rectangle unconditionally, and
/// a node with children appends those of its children whose rects intersect
/// the query intersection to the end of the work list.
pub open spec fn spec_bfs(nodes: Seq<QuadTree>, isect: Rect) -> Seq<Rect>
    decreases forest_size(nodes),
{
    if nodes.len() == 0 {
        Seq::<Rect>::empty()
    } else {
        let node = nodes[0];
        let rest = nodes.drop_first();
        proof {
            lemma_enqueue_size(node, isect);
            lemma_forest_size_concat(rest, spec_enqueue(node, isect));
        }
        match node.elements {
            Elements::Children(tl, tr, br, bl) => spec_bfs(rest + spec_enqueue(node, isect), isect),
            Elements::Member(member) => seq![member] + spec_bfs(rest, isect),
            Elements::NoElements => spec_bfs(rest, isect),
        }
    }
}

/// A work list of borrowed nodes, seen as the nodes themselves.
pub open spec fn deref_seq(nodes: Seq<&QuadTree>) -> Seq<QuadTree> {
    nodes.map_values(|n: &QuadTree| *n)
}

/// The rectangles stored in nodes whose bounding rects are touched by the
/// query rect. Emitted rectangles are those stored in nodes whose bounding
/// rect intersects the query, not necessarily rectangles that themselves
/// intersect the query rect.
pub open spec fn spec_query(tree: QuadTree, test_rect: Rect) -> Seq<Rect> {
    match tree.rect.spec_intersect(test_rect) {
        Some(isect) => spec_bfs(seq![tree], isect),
        None => Seq::<Rect>::empty(),
    }
}

/// Repeated outward growth until the root's rect contains the candidate:
/// `None` when the budget runs out or a round would leave the coordinate
/// range before containment is reached.
pub open spec fn spec_grow(tree: QuadTree, to_insert: Rect, fuel: nat) -> Option<QuadTree>
    decreases fuel,
{
    if tree.rect.spec_contains(to_insert) {
        Some(tree)
    } else if fuel == 0 {
        None
    } else {
        match spec_grow_once(tree, to_insert) {
            Some(grown) => spec_grow(grown, to_insert, (fuel - 1) as nat),
            None => None,
        }
    }
}

/// The full insertion, as a partial function. `None` marks the inputs on
/// which the operation cannot finish: a growth phase or a subdivision that
/// would run forever or leave the coordinate range, or a step that would
/// violate a construction invariant. On every other input it gives the
/// accepted/rejected flag together with the resulting tree.
pub open spec fn spec_insert_rect(tree: QuadTree, to_insert: Rect) -> Option<(bool, QuadTree)> {
    if tree.rect.size.width == 0 {
        if autosized_fits(to_insert) {
            Some((true, spec_autosized(to_insert)))
        } else {
            None
        }
    } else if spec_query(tree, to_insert).len() > 0 {
        Some((false, tree))
    } else {
        match spec_grow(tree, to_insert, grow_fuel()) {
            None => None,
            Some(grown) => match grown.elements {
                Elements::Children(tl, tr, br, bl) => {
                    let tl2 = spec_insert_if(*tl, to_insert, split_fuel());
                    let tr2 = spec_insert_if(*tr, to_insert, split_fuel());
                    let br2 = spec_insert_if(*br, to_insert, split_fuel());
                    let bl2 = spec_insert_if(*bl, to_insert, split_fuel());
                    if tl2 is Some && tr2 is Some && br2 is Some && bl2 is Some {
                        let rebuilt = QuadTree {
                            rect: grown.rect,
                            elements: Elements::Children(
                                Box::new(tl2->Some_0),
                                Box::new(tr2->Some_0),
                                Box::new(br2->Some_0),
                                Box::new(bl2->Some_0),
                            ),
                        };
                        if elements_fit(rebuilt.rect, rebuilt.elements) {
                            Some((true, rebuilt))
                        } else {
                            None
                        }
                    } else {
                        None
                    }
                },
                Elements::Member(member) => {
                    let quads = spec_make_children(grown.rect);
                    let a0 = spec_insert_if(quads.0, member, split_fuel());
                    let a1 = spec_insert_if(quads.1, member, split_fuel());
                    let a2 = spec_insert_if(quads.2, member, split_fuel());
                    let a3 = spec_insert_if(quads.3, member, split_fuel());
                    if a0 is Some && a1 is Some && a2 is Some && a3 is Some {
                        let b0 = spec_insert_if(a0->Some_0, to_insert, split_fuel());
                        let b1 = spec_insert_if(a1->Some_0, to_insert, split_fuel());
                        let b2 = spec_insert_if(a2->Some_0, to_insert, split_fuel());
                        let b3 = spec_insert_if(a3->Some_0, to_insert, split_fuel());
                        if b0 is Some && b1 is Some && b2 is Some && b3 is Some {
                            let rebuilt = QuadTree {
                                rect: grown.rect,
                                elements: Elements::Children(
                                    Box::new(b0->Some_0),
                                    Box::new(b1->Some_0),
                                    Box::new(b2->Some_0),
                                    Box::new(b3->Some_0),
                                ),
                            };
                            if elements_fit(rebuilt.rect, rebuilt.elements) {
                                Some((true, rebuilt))
                            } else {
                                None
                            }
                        } else {
                            None
                        }
                    } else {
                        None
                    }
                },
                Elements::NoElements => {
                    if grown.rect.spec_contains(to_insert) {
                        Some(
                            (
                                true,
                                QuadTree {
                                    rect: grown.rect,
                                    elements: Elements::Member(to_insert),
                                },
                            ),
                        )
                    } else {
                        None
                    }
                },
            },
        }
    }
}

/// The inputs on which insertion finishes: growth reaches containment and
/// every subdivision both terminates and respects the construction
/// invariants, all within the machine's coordinate range.
pub open spec fn spec_insert_ok(tree: QuadTree, to_insert: Rect) -> bool {
    spec_insert_rect(tree, to_insert) is Some
}

/// An insertion into a zero-width tree always succeeds, and afterwards any
/// query that touches the inserted rectangle reports exactly that
/// rectangle: the autosized root covers its member, so no query touching
/// the member can miss the root.
pub proof fn lemma_bootstrap_insert_found(tree: QuadTree, to_insert: Rect, q: Rect)
    requires
        tree.rect.size.width == 0,
        to_insert.wf(),
        q.wf(),
        autosized_fits(to_insert),
        q.spec_intersects(to_insert),
    ensures
        spec_insert_rect(tree, to_insert) == Some((true, spec_autosized(to_insert))),
        spec_query(spec_autosized(to_insert), q) == seq![to_insert],
{
    let grown = spec_autosized(to_insert);
    assert(grown.rect.spec_intersects(q));
    let isect = grown.rect.spec_intersect(q)->Some_0;
    assert(seq![grown].drop_first() =~= Seq::<QuadTree>::empty());
    assert(spec_bfs(Seq::<QuadTree>::empty(), isect) =~= Seq::<Rect>::empty());
    assert(spec_bfs(seq![grown], isect) == seq![to_insert] + spec_bfs(
        seq![grown].drop_first(),
        isect,
    ));
    assert(seq![to_insert] + Seq::<Rect>::empty() =~= seq![to_insert]);
}

impl QuadTree {
    /// Structural well-formedness: every node's rect is well formed, its
    /// elements fit it, and the same holds recursively below.
    pub open spec fn wf(self) -> bool
        decreases self,
    {
        &&& self.rect.wf()
        &&& elements_fit(self.rect, self.elements)
        &&& match self.elements {
            Elements::Children(tl, tr, br, bl) => {
                &&& tl.wf()
                &&& tr.wf()
                &&& br.wf()
                &&& bl.wf()
            },
            Elements::Member(member) => member.wf(),
            Elements::NoElements => true,
        }
    }

    /// Create a quadtree with a root node with the given origin, size and
    /// elements, whichever variant they are.
    pub fn new(origin: Point, size: Size, elems: Elements) -> (tree: QuadTree)
        requires
            elements_fit(rect_at(origin, size), elems),
        ensures
            tree == (QuadTree { rect: rect_at(origin, size), elements: elems }),
    {
        match elems {
            Elements::Children(tl, tr, br, bl) => QuadTree::new_with_children(
                origin,
                size,
                tl,
                tr,
                br,
                bl,
            ),
            Elements::Member(rect) => QuadTree::new_with_member(origin, size, rect),
            Elements::NoElements => QuadTree::new_with_size(origin, size),
        }
    }

    /// Create a quadtree with a root node with the same origin as `rect` and
    /// a square size with side length matching the longer dimension of
    /// `rect`, holding `rect` as its member.
    pub fn new_autosized(rect: Rect) -> (tree: QuadTree)
        requires
            rect.wf(),
            autosized_fits(rect),
        ensures
            tree == spec_autosized(rect),
            tree.wf(),
    {
        let larger_dimen = if rect.size.width > rect.size.height {
            rect.size.width
        } else {
            rect.size.height
        };
        let size = Size::new(larger_dimen, larger_dimen);
        QuadTree::new_with_member(rect.origin, size, rect)
    }

    /// Create an empty quadtree with a zero-sized root node at the origin:
    /// the canonical starting value before any insertion.
    pub fn new_empty() -> (tree: QuadTree)
        ensures
            tree == (QuadTree {
                rect: rect_at(Point { x: 0, y: 0 }, Size { width: 0, height: 0 }),
                elements: Elements::NoElements,
            }),
            tree.wf(),
    {
        let origin = Point::new(0, 0);
        let size = Size::new(0, 0);
        QuadTree::new(origin, size, Elements::NoElements)
    }

    /// Create a quadtree node with the given origin, size, and child nodes.
    /// The children must tile the rect given by `origin` and `size`.
    fn new_with_children(
        origin: Point,
        size: Size,
        tl: Box<QuadTree>,
        tr: Box<QuadTree>,
        br: Box<QuadTree>,
        bl: Box<QuadTree>,
    ) -> (tree: QuadTree)
        requires
            quadrants_tile(rect_at(origin, size), tl.rect, tr.rect, br.rect, bl.rect),
        ensures
            tree == (QuadTree {
                rect: rect_at(origin, size),
                elements: Elements::Children(tl, tr, br, bl),
            }),
    {
        let node_rect = Rect::new(origin, size);
        QuadTree { rect: node_rect, elements: Elements::Children(tl, tr, br, bl) }
    }

    /// Create a quadtree node with the given origin, size, and member
    /// rectangle. The node's rect must contain the member.
    fn new_with_member(origin: Point, size: Size, insert_rect: Rect) -> (tree: QuadTree)
        requires
            rect_at(origin, size).spec_contains(insert_rect),
        ensures
            tree == (QuadTree { rect: rect_at(origin, size), elements: Elements::Member(insert_rect) }),
    {
        let qt_rect = Rect::new(origin, size);
        QuadTree { rect: qt_rect, elements: Elements::Member(insert_rect) }
    }

    /// Create an empty quadtree node with only a position and size.
    fn new_with_size(origin: Point, size: Size) -> (tree: QuadTree)
        ensures
            tree == (QuadTree { rect: rect_at(origin, size), elements: Elements::NoElements }),
    {
        let node_rect = Rect::new(origin, size);
        QuadTree { rect: node_rect, elements: Elements::NoElements }
    }

    /// Create four empty nodes suitable for use as children, covering the
    /// four half-sized quadrants of the passed-in rect.
    fn make_children_for_rect(rect: &Rect) -> (r: (QuadTree, QuadTree, QuadTree, QuadTree))
        requires
            rect.wf(),
        ensures
            r == spec_make_children(*rect),
            r.0.wf() && r.1.wf() && r.2.wf() && r.3.wf(),
    {
        let origin = rect.origin;
        let size = rect.size;
        let new_size = Size::new(size.width / 2, size.height / 2);
        let w_point = Point::new(new_size.width, 0);
        let h_point = Point::new(0, new_size.height);

        let tl = QuadTree::new_with_size(origin, new_size);
        let tr = QuadTree::new_with_size(origin.add(w_point), new_size);
        let br = QuadTree::new_with_size(origin.add(w_point).add(h_point), new_size);
        let bl = QuadTree::new_with_size(origin.add(h_point), new_size);
        (tl, tr, br, bl)
    }

    /// Insert a rectangle into the node, but only descend where relevant:
    /// a node whose rect does not intersect `to_insert` is returned
    /// unchanged, and a member that intersects `to_insert` keeps its region
    /// without further subdivision.
    fn insert_rect_if_intersects(self, to_insert: Rect, fuel: Ghost<nat>) -> (r: QuadTree)
        requires
            self.wf(),
            to_insert.wf(),
            spec_insert_if(self, to_insert, fuel@) is Some,
        ensures
            r == spec_insert_if(self, to_insert, fuel@)->Some_0,
            r.rect == self.rect,
            r.wf(),
        decreases fuel@,
    {
        let ghost f: nat = (fuel@ - 1) as nat;
        if self.rect.intersects(&to_insert) {
            let origin = self.rect.origin;
            let size = self.rect.size;
            let self_rect = self.rect;
            match self.elements {
                Elements::Children(tl, tr, br, bl) => {
                    let tl2 = (*tl).insert_rect_if_intersects(to_insert, Ghost(f));
                    let tr2 = (*tr).insert_rect_if_intersects(to_insert, Ghost(f));
                    let br2 = (*br).insert_rect_if_intersects(to_insert, Ghost(f));
                    let bl2 = (*bl).insert_rect_if_intersects(to_insert, Ghost(f));
                    QuadTree::new_with_children(
                        origin,
                        size,
                        Box::new(tl2),
                        Box::new(tr2),
                        Box::new(br2),
                        Box::new(bl2),
                    )
                },
                Elements::Member(member) => {
                    if member.intersects(&to_insert) {
                        QuadTree { rect: self_rect, elements: Elements::Member(member) }
                    } else {
                        let (tl, tr, br, bl) = QuadTree::make_children_for_rect(&self_rect);
                        let tl = tl.insert_rect_if_intersects(member, Ghost(f));
                        let tr = tr.insert_rect_if_intersects(member, Ghost(f));
                        let br = br.insert_rect_if_intersects(member, Ghost(f));
                        let bl = bl.insert_rect_if_intersects(member, Ghost(f));
                        let tl = tl.insert_rect_if_intersects(to_insert, Ghost(f));
                        let tr = tr.insert_rect_if_intersects(to_insert, Ghost(f));
                        let br = br.insert_rect_if_intersects(to_insert, Ghost(f));
                        let bl = bl.insert_rect_if_intersects(to_insert, Ghost(f));
                        QuadTree::new_with_children(
                            origin,
                            size,
                            Box::new(tl),
                            Box::new(tr),
                            Box::new(br),
                            Box::new(bl),
                        )
                    }
                },
                Elements::NoElements => QuadTree::new_with_member(origin, size, to_insert),
            }
        } else {
            self
        }
    }

    /// Insert a rectangle into the quadtree. If `to_insert` lands in a node
    /// that already stores a rectangle, the return value is `(false, self)`
    /// and the tree is handed back unchanged. If the root node is zero-width,
    /// the resulting tree is a fresh square root node holding `to_insert`.
    /// Otherwise the root grows outward until it contains `to_insert`, and
    /// the rectangle is inserted by recursive descent; the result is
    /// `(true, tree)` with the rectangle stored.
    pub fn insert_rect(self, to_insert: Rect) -> (r: (bool, QuadTree))
        requires
            self.wf(),
            to_insert.wf(),
            spec_insert_ok(self, to_insert),
        ensures
            Some(r) == spec_insert_rect(self, to_insert),
            r.1.wf(),
            !r.0 ==> r.1 == self,
            r.0 == (self.rect.size.width == 0 || spec_query(self, to_insert).len() == 0),
    {
        if self.rect.width() == 0 {
            return (true, QuadTree::new_autosized(to_insert));
        }

        let rects_in_children = self.rects_in_child_nodes_intersected_by_rect(&to_insert);
        if rects_in_children.len() > 0 {
            return (false, self);
        }

        let ghost start = self;
        let mut node = self;
        let ghost mut fuel: nat = grow_fuel();
        let mut big_enough = node.rect.contains(&to_insert);

        while !big_enough
            invariant
                node.wf(),
                to_insert.wf(),
                big_enough == node.rect.spec_contains(to_insert),
                spec_grow(node, to_insert, fuel) == spec_grow(start, to_insert, grow_fuel()),
                spec_grow(start, to_insert, grow_fuel()) is Some,
            decreases fuel,
        {
            let ghost before = node;
            let width = node.rect.width();
            let height = node.rect.height();
            let origin = node.rect.origin;
            let size = node.rect.size;

            let w_point = Point::new(width, 0);
            let h_point = Point::new(0, height);

            // Pick the quadrant the current tree keeps in the doubled root by
            // comparing the candidate's origin against ours. Note that the
            // vertical pick compares our min_x against the candidate's min_y,
            // a deliberate axis mismatch, see `spec_grow_once`.
            let grow_right = node.rect.min_x() < to_insert.min_x();
            let grow_down = node.rect.min_x() < to_insert.min_y();

            let (tl, tr, br, bl) = if grow_right {
                if grow_down {
                    (
                        node,
                        QuadTree::new_with_size(origin.add(w_point), size),
                        QuadTree::new_with_size(origin.add(w_point).add(h_point), size),
                        QuadTree::new_with_size(origin.add(h_point), size),
                    )
                } else {
                    (
                        QuadTree::new_with_size(origin.subtract(h_point), size),
                        QuadTree::new_with_size(origin.subtract(h_point).add(w_point), size),
                        QuadTree::new_with_size(origin.add(w_point), size),
                        node,
                    )
                }
            } else {
                if grow_down {
                    (
                        QuadTree::new_with_size(origin.subtract(w_point), size),
                        node,
                        QuadTree::new_with_size(origin.add(h_point), size),
                        QuadTree::new_with_size(origin.subtract(w_point).add(h_point), size),
                    )
                } else {
                    (
                        QuadTree::new_with_size(origin.subtract(w_point).subtract(h_point), size),
                        QuadTree::new_with_size(origin.subtract(h_point), size),
                        node,
                        QuadTree::new_with_size(origin.subtract(w_point), size),
                    )
                }
            };

            proof {
                assert(spec_grow_once(before, to_insert) is Some);
                assert(tl.wf());
                assert(tr.wf());
                assert(br.wf());
                assert(bl.wf());
            }
            let new_origin = tl.rect.origin;
            node = QuadTree::new_with_children(
                new_origin,
                Size::new(width * 2, height * 2),
                Box::new(tl),
                Box::new(tr),
                Box::new(br),
                Box::new(bl),
            );

            proof {
                assert(node == spec_grow_once(before, to_insert)->Some_0);
                fuel = (fuel - 1) as nat;
            }

            big_enough = node.rect.contains(&to_insert);
        }

        let origin = node.rect.origin;
        let size = node.rect.size;
        let node_rect = node.rect;
        let result = match node.elements {
            Elements::Children(tl, tr, br, bl) => {
                let tl2 = (*tl).insert_rect_if_intersects(to_insert, Ghost(split_fuel()));
                let tr2 = (*tr).insert_rect_if_intersects(to_insert, Ghost(split_fuel()));
                let br2 = (*br).insert_rect_if_intersects(to_insert, Ghost(split_fuel()));
                let bl2 = (*bl).insert_rect_if_intersects(to_insert, Ghost(split_fuel()));
                QuadTree::new_with_children(
                    origin,
                    size,
                    Box::new(tl2),
                    Box::new(tr2),
                    Box::new(br2),
                    Box::new(bl2),
                )
            },
            Elements::Member(member) => {
                let (tl, tr, br, bl) = QuadTree::make_children_for_rect(&node_rect);
                let tl = tl.insert_rect_if_intersects(member, Ghost(split_fuel()));
                let tr = tr.insert_rect_if_intersects(member, Ghost(split_fuel()));
                let br = br.insert_rect_if_intersects(member, Ghost(split_fuel()));
                let bl = bl.insert_rect_if_intersects(member, Ghost(split_fuel()));
                let tl = tl.insert_rect_if_intersects(to_insert, Ghost(split_fuel()));
                let tr = tr.insert_rect_if_intersects(to_insert, Ghost(split_fuel()));
                let br = br.insert_rect_if_intersects(to_insert, Ghost(split_fuel()));
                let bl = bl.insert_rect_if_intersects(to_insert, Ghost(split_fuel()));
                QuadTree::new_with_children(
                    origin,
                    size,
                    Box::new(tl),
                    Box::new(tr),
                    Box::new(br),
                    Box::new(bl),
                )
            },
            Elements::NoElements => QuadTree::new_with_member(origin, size, to_insert),
        };
        (true, result)
    }

    /// Find all of the rects in `self`, or its children, that are stored in
    /// nodes intersected by the given rect. The traversal is breadth first:
    /// the query first narrows to the overlap of the root's rect with
    /// `test_rect`, then visits every node whose rect intersects that
    /// overlap, emitting each member rectangle it meets.
    pub fn rects_in_child_nodes_intersected_by_rect(&self, test_rect: &Rect) -> (r: Vec<Rect>)
        requires
            self.wf(),
            test_rect.wf(),
        ensures
            r@ == spec_query(*self, *test_rect),
    {
        match self.rect.intersect(test_rect) {
            Some(intersection) => {
                let mut rects: Vec<Rect> = Vec::new();
                let mut nodes_to_check: Vec<&QuadTree> = Vec::new();
                nodes_to_check.push(self);
                proof {
                    assert(deref_seq(nodes_to_check@) =~= seq![*self]);
                }
                while nodes_to_check.len() > 0
                    invariant
                        intersection.wf(),
                        forall|i: int|
                            0 <= i < nodes_to_check@.len() ==> (#[trigger] nodes_to_check@[i]).wf(),
                        rects@ + spec_bfs(deref_seq(nodes_to_check@), intersection) == spec_bfs(
                            seq![*self],
                            intersection,
                        ),
                    decreases forest_size(deref_seq(nodes_to_check@)),
                {
                    let ghost old_nodes = deref_seq(nodes_to_check@);
                    let ghost old_rects = rects@;
                    let node = nodes_to_check.remove(0);
                    proof {
                        assert(old_nodes[0] == *node);
                        assert(deref_seq(nodes_to_check@) =~= old_nodes.drop_first());
                        lemma_enqueue_size(*node, intersection);
                        lemma_forest_size_concat(
                            old_nodes.drop_first(),
                            spec_enqueue(*node, intersection),
                        );
                    }
                    match &node.elements {
                        Elements::Children(tl, tr, br, bl) => {
                            let ghost before = deref_seq(nodes_to_check@);
                            proof {
                                assert((*node).wf());
                                assert(tl.wf() && tr.wf() && br.wf() && bl.wf());
                            }
                            if tl.rect.intersects(&intersection) {
                                nodes_to_check.push(&**tl);
                            }
                            if tr.rect.intersects(&intersection) {
                                nodes_to_check.push(&**tr);
                            }
                            if br.rect.intersects(&intersection) {
                                nodes_to_check.push(&**br);
                            }
                            if bl.rect.intersects(&intersection) {
                                nodes_to_check.push(&**bl);
                            }
                            proof {
                                assert(deref_seq(nodes_to_check@) =~= before + spec_enqueue(
                                    *node,
                                    intersection,
                                ));
                            }
                        },
                        Elements::Member(member_rect) => {
                            rects.push(*member_rect);
                            proof {
                                assert(rects@ =~= old_rects + seq![*member_rect]);
                                assert(old_rects + (seq![*member_rect] + spec_bfs(
                                    old_nodes.drop_first(),
                                    intersection,
                                )) =~= (old_rects + seq![*member_rect]) + spec_bfs(
                                    old_nodes.drop_first(),
                                    intersection,
                                ));
                            }
                        },
                        Elements::NoElements => {
                        },
                    }
                }
                proof {
                    assert(spec_bfs(deref_seq(nodes_to_check@), intersection) =~= Seq::<
                        Rect,
                    >::empty());
                    assert(rects@ + Seq::<Rect>::empty() =~= rects@);
                }
                rects
            },
            None => Vec::new(),
        }
    }
}

} // verus!

