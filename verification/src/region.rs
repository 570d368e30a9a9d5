//! Region descriptors and the traversal that lists them.
//!
//! The tree stores no coordinates: a node's position is computed during the
//! traversal, with the same quadrant-offset arithmetic the builder used.

use crate::grid::PixelGrid;
use crate::grid::is_pow2;
use crate::pixel::Pixel;
use crate::tree::QuadtreeNode;
use vstd::prelude::*;

verus! {

/// The mathematical form of a region descriptor: the bottom-left corner and
/// side length of a square, and the leaf color when the square is a leaf.
pub struct SpecRegion {
    pub x: int,
    pub y: int,
    pub side: int,
    pub color: Option<Pixel>,
}

/// A displayable square: the (x, y) position of its bottom-left corner, its
/// side length, and the leaf color if the node it came from is a leaf.
/// Produced fresh by each traversal and never mutated.
#[derive(Clone, Copy, PartialEq, Eq, Debug)]
pub struct Region {
    pub x: usize,
    pub y: usize,
    pub side: usize,
    pub color: Option<Pixel>,
}

impl View for Region {
    type V = SpecRegion;

    open spec fn view(&self) -> SpecRegion {
        SpecRegion { x: self.x as int, y: self.y as int, side: self.side as int, color: self.color }
    }
}

/// The region views of an enumerated list.
pub open spec fn views_of(rs: Seq<Region>) -> Seq<SpecRegion> {
    rs.map_values(|r: Region| r@)
}

/// The ordered region sequence of the subtree `node` over the square with
/// bottom-left corner (x, y) and side length `side`: the node's own region
/// first, then the children's regions in the fixed order bottom-left,
/// bottom-right, top-left, top-right.
pub open spec fn regions_of(node: QuadtreeNode, x: int, y: int, side: int) -> Seq<SpecRegion>
    decreases node,
{
    match node {
        QuadtreeNode::Leaf { color } => seq![SpecRegion { x, y, side, color: Some(color) }],
        QuadtreeNode::Internal { bottom_left, bottom_right, top_left, top_right } => {
            let half = side / 2;
            seq![SpecRegion { x, y, side, color: None }] + regions_of(*bottom_left, x, y, half)
                + regions_of(*bottom_right, x + half, y, half) + regions_of(
                *top_left,
                x,
                y + half,
                half,
            ) + regions_of(*top_right, x + half, y + half, half)
        },
    }
}

/// Appends the regions of the subtree `node` over the square at (x, y) with
/// side length `side`, in pre-order.
fn enumerate_region(node: &QuadtreeNode, x: usize, y: usize, side: usize, out: &mut Vec<Region>)
    requires
        x + side <= usize::MAX,
        y + side <= usize::MAX,
    ensures
        views_of(final(out)@) == views_of(old(out)@) + regions_of(
            *node,
            x as int,
            y as int,
            side as int,
        ),
    decreases node,
{
    match node {
        QuadtreeNode::Leaf { color } => {
            out.push(Region { x, y, side, color: Some(*color) });
        },
        QuadtreeNode::Internal { bottom_left, bottom_right, top_left, top_right } => {
            out.push(Region { x, y, side, color: None });
            let half = side / 2;
            enumerate_region(&**bottom_left, x, y, half, out);
            enumerate_region(&**bottom_right, x + half, y, half, out);
            enumerate_region(&**top_left, x, y + half, half, out);
            enumerate_region(&**top_right, x + half, y + half, half, out);
        },
    }
}

/// Walks a built tree and produces the ordered list of its regions for
/// display: a node's region comes before its children's (pre-order), and
/// children are visited bottom-left, bottom-right, top-left, top-right,
/// starting from the whole square of side `side` at (0, 0).
pub fn enumerate(root: &QuadtreeNode, side: usize) -> (regions: Vec<Region>)
    ensures
        views_of(regions@) == regions_of(*root, 0, 0, side as int),
{
    let mut out: Vec<Region> = Vec::new();
    enumerate_region(root, 0, 0, side, &mut out);
    out
}

/// Whether `r` is a leaf region whose square contains the point (px, py).
pub open spec fn leaf_covers(r: SpecRegion, px: int, py: int) -> bool {
    r.color is Some && r.x <= px < r.x + r.side && r.y <= py < r.y + r.side
}

/// How many leaf regions of `rs` contain the point (px, py).
pub open spec fn leaf_cover_count(rs: Seq<SpecRegion>, px: int, py: int) -> nat
    decreases rs.len(),
{
    if rs.len() == 0 {
        0
    } else {
        (if leaf_covers(rs[0], px, py) {
            1nat
        } else {
            0nat
        }) + leaf_cover_count(rs.drop_first(), px, py)
    }
}

proof fn lemma_leaf_cover_count_add(a: Seq<SpecRegion>, b: Seq<SpecRegion>, px: int, py: int)
    ensures
        leaf_cover_count(a + b, px, py) == leaf_cover_count(a, px, py) + leaf_cover_count(
            b,
            px,
            py,
        ),
    decreases a.len(),
{
    if a.len() == 0 {
        assert(a + b =~= b);
    } else {
        assert((a + b).drop_first() =~= a.drop_first() + b);
        lemma_leaf_cover_count_add(a.drop_first(), b, px, py);
    }
}

proof fn lemma_leaf_cover_count_singleton(r: SpecRegion, px: int, py: int)
    ensures
        leaf_cover_count(seq![r], px, py) == if leaf_covers(r, px, py) {
            1int
        } else {
            0int
        },
{
    assert(seq![r].drop_first() =~= Seq::<SpecRegion>::empty());
    assert(leaf_cover_count(Seq::<SpecRegion>::empty(), px, py) == 0);
}

/// Law: the leaf squares tile the image exactly. For a tree satisfying the
/// node invariant over a halvable square, every point of that square lies
/// in exactly one enumerated leaf region, and no point outside it lies in
/// any: no gaps and no overlaps.
pub proof fn lemma_leaf_regions_tile(
    grid: PixelGrid,
    node: QuadtreeNode,
    x: int,
    y: int,
    side: int,
    px: int,
    py: int,
)
    requires
        node.matches_grid(grid, x, y, side),
        is_pow2(side),
    ensures
        leaf_cover_count(regions_of(node, x, y, side), px, py) == if x <= px < x + side && y <= py
            < y + side {
            1int
        } else {
            0int
        },
    decreases node,
{
    let rs = regions_of(node, x, y, side);
    match node {
        QuadtreeNode::Leaf { color } => {
            lemma_leaf_cover_count_singleton(SpecRegion { x, y, side, color: Some(color) }, px, py);
        },
        QuadtreeNode::Internal { bottom_left, bottom_right, top_left, top_right } => {
            let half = side / 2;
            let r0 = seq![SpecRegion { x, y, side, color: None }];
            let r1 = regions_of(*bottom_left, x, y, half);
            let r2 = regions_of(*bottom_right, x + half, y, half);
            let r3 = regions_of(*top_left, x, y + half, half);
            let r4 = regions_of(*top_right, x + half, y + half, half);
            lemma_leaf_cover_count_add(r0 + r1 + r2 + r3, r4, px, py);
            lemma_leaf_cover_count_add(r0 + r1 + r2, r3, px, py);
            lemma_leaf_cover_count_add(r0 + r1, r2, px, py);
            lemma_leaf_cover_count_add(r0, r1, px, py);
            lemma_leaf_cover_count_singleton(SpecRegion { x, y, side, color: None }, px, py);
            lemma_leaf_regions_tile(grid, *bottom_left, x, y, half, px, py);
            lemma_leaf_regions_tile(grid, *bottom_right, x + half, y, half, px, py);
            lemma_leaf_regions_tile(grid, *top_left, x, y + half, half, px, py);
            lemma_leaf_regions_tile(grid, *top_right, x + half, y + half, half, px, py);
        },
    }
}

/// A leaf region reports a square that really is uniform on the grid, in
/// the color of the square's reference corner. (Says nothing of regions
/// that carry no color.)
pub open spec fn leaf_region_truthful(grid: PixelGrid, r: SpecRegion) -> bool {
    r.color matches Some(c) ==> grid.uniform(r.x, r.y, r.side) && c == grid.pixel_at(r.x, r.y)
}

/// A colorless region reports a square that really had to be subdivided:
/// larger than one pixel and not uniform on the grid. (Says nothing of
/// leaf regions.)
pub open spec fn split_region_necessary(grid: PixelGrid, r: SpecRegion) -> bool {
    r.color is None ==> r.side > 1 && !grid.uniform(r.x, r.y, r.side)
}

/// Law: every leaf region tells the truth. Re-checking any enumerated
/// region that carries a color, over its reported square, finds the square
/// uniform, and the carried color is the reference corner's color.
pub proof fn lemma_leaf_regions_uniform(
    grid: PixelGrid,
    node: QuadtreeNode,
    x: int,
    y: int,
    side: int,
)
    requires
        node.matches_grid(grid, x, y, side),
    ensures
        forall|i: int|
            0 <= i < regions_of(node, x, y, side).len() ==> leaf_region_truthful(
                grid,
                #[trigger] regions_of(node, x, y, side)[i],
            ),
    decreases node,
{
    let rs = regions_of(node, x, y, side);
    match node {
        QuadtreeNode::Leaf { color } => {},
        QuadtreeNode::Internal { bottom_left, bottom_right, top_left, top_right } => {
            let half = side / 2;
            let r1 = regions_of(*bottom_left, x, y, half);
            let r2 = regions_of(*bottom_right, x + half, y, half);
            let r3 = regions_of(*top_left, x, y + half, half);
            let r4 = regions_of(*top_right, x + half, y + half, half);
            lemma_leaf_regions_uniform(grid, *bottom_left, x, y, half);
            lemma_leaf_regions_uniform(grid, *bottom_right, x + half, y, half);
            lemma_leaf_regions_uniform(grid, *top_left, x, y + half, half);
            lemma_leaf_regions_uniform(grid, *top_right, x + half, y + half, half);
            assert forall|i: int| 1 <= i < rs.len() implies rs[i] == if i < 1 + r1.len() {
                r1[i - 1]
            } else if i < 1 + r1.len() + r2.len() {
                r2[i - 1 - r1.len()]
            } else if i < 1 + r1.len() + r2.len() + r3.len() {
                r3[i - 1 - r1.len() - r2.len()]
            } else {
                r4[i - 1 - r1.len() - r2.len() - r3.len()]
            } by {}
        },
    }
}

/// Law: subdivision happens only where it must. Each enumerated region that
/// carries no color came from an internal node, so its square is larger
/// than one pixel and genuinely not uniform: no leaf could have been merged
/// with its siblings into a larger uniform square that the builder missed.
pub proof fn lemma_split_regions_not_uniform(
    grid: PixelGrid,
    node: QuadtreeNode,
    x: int,
    y: int,
    side: int,
)
    requires
        node.matches_grid(grid, x, y, side),
    ensures
        forall|i: int|
            0 <= i < regions_of(node, x, y, side).len() ==> split_region_necessary(
                grid,
                #[trigger] regions_of(node, x, y, side)[i],
            ),
    decreases node,
{
    let rs = regions_of(node, x, y, side);
    match node {
        QuadtreeNode::Leaf { color } => {},
        QuadtreeNode::Internal { bottom_left, bottom_right, top_left, top_right } => {
            let half = side / 2;
            let r1 = regions_of(*bottom_left, x, y, half);
            let r2 = regions_of(*bottom_right, x + half, y, half);
            let r3 = regions_of(*top_left, x, y + half, half);
            let r4 = regions_of(*top_right, x + half, y + half, half);
            lemma_split_regions_not_uniform(grid, *bottom_left, x, y, half);
            lemma_split_regions_not_uniform(grid, *bottom_right, x + half, y, half);
            lemma_split_regions_not_uniform(grid, *top_left, x, y + half, half);
            lemma_split_regions_not_uniform(grid, *top_right, x + half, y + half, half);
            assert forall|i: int| 1 <= i < rs.len() implies rs[i] == if i < 1 + r1.len() {
                r1[i - 1]
            } else if i < 1 + r1.len() + r2.len() {
                r2[i - 1 - r1.len()]
            } else if i < 1 + r1.len() + r2.len() + r3.len() {
                r3[i - 1 - r1.len() - r2.len()]
            } else {
                r4[i - 1 - r1.len() - r2.len() - r3.len()]
            } by {}
        },
    }
}

} // verus!
