//! The quadtree and its builder.

use crate::grid::PixelGrid;
use crate::grid::is_pow2;
use crate::pixel::Pixel;
use crate::pixel::HAS_CHILDREN_NODE;
use vstd::prelude::*;

verus! {

/// One node of the quadtree. A `Leaf` stands for a square all of whose
/// pixels equal `color`. An `Internal` node stands for a square whose
/// pixels differ; its four children cover the four quadrants, each with
/// half the parent's side length, in the fixed order bottom-left,
/// bottom-right, top-left, top-right. Every child is owned by exactly one
/// parent: the builder returns fully formed subtrees bottom-up.
#[derive(PartialEq, Eq, Debug)]
pub enum QuadtreeNode {
    Leaf { color: Pixel },
    Internal {
        bottom_left: Box<QuadtreeNode>,
        bottom_right: Box<QuadtreeNode>,
        top_left: Box<QuadtreeNode>,
        top_right: Box<QuadtreeNode>,
    },
}

impl QuadtreeNode {
    /// The node invariant over the square with bottom-left corner (x, y)
    /// and side length `side`: a leaf's square is uniform and the leaf
    /// carries the color of the reference corner; an internal node's square
    /// is strictly larger than one pixel, genuinely non-uniform (a square
    /// is subdivided only when it must be), and its children satisfy the
    /// same invariant over the four quadrants.
    pub open spec fn matches_grid(self, grid: PixelGrid, x: int, y: int, side: int) -> bool
        decreases self,
    {
        match self {
            QuadtreeNode::Leaf { color } => grid.uniform(x, y, side) && color == grid.pixel_at(
                x,
                y,
            ),
            QuadtreeNode::Internal { bottom_left, bottom_right, top_left, top_right } => {
                let half = side / 2;
                &&& side > 1
                &&& !grid.uniform(x, y, side)
                &&& bottom_left.matches_grid(grid, x, y, half)
                &&& bottom_right.matches_grid(grid, x + half, y, half)
                &&& top_left.matches_grid(grid, x, y + half, half)
                &&& top_right.matches_grid(grid, x + half, y + half, half)
            },
        }
    }

    /// The node's one-field packed encoding, for a serialization boundary
    /// that collapses the tagged variant into a single 32-bit integer: a
    /// leaf packs its color with a zero top byte, an internal node is
    /// marked by the all-ones top byte sentinel, and the two can never
    /// collide.
    pub fn packed_data(&self) -> (data: u32)
        ensures
            match *self {
                QuadtreeNode::Leaf { color } => data == color.spec_pack() && data
                    != HAS_CHILDREN_NODE,
                QuadtreeNode::Internal { .. } => data == HAS_CHILDREN_NODE,
            },
    {
        match self {
            QuadtreeNode::Leaf { color } => color.pack(),
            QuadtreeNode::Internal { .. } => HAS_CHILDREN_NODE,
        }
    }
}

/// Builds the subtree for the square with bottom-left corner (x, y) and
/// side length `side`. A square of side 1, or a uniform square, becomes a
/// leaf carrying the reference corner's color; any other square is split
/// into its four quadrants, which are built recursively.
pub fn build_region(grid: &PixelGrid, x: usize, y: usize, side: usize) -> (node: QuadtreeNode)
    requires
        grid.wf(),
        side >= 1,
        is_pow2(side as int),
        x + side <= grid.dim(),
        y + side <= grid.dim(),
    ensures
        node.matches_grid(*grid, x as int, y as int, side as int),
    decreases side,
{
    if side == 1 {
        QuadtreeNode::Leaf { color: grid.pixel(x, y) }
    } else if grid.is_uniform(x, y, side) {
        QuadtreeNode::Leaf { color: grid.pixel(x, y) }
    } else {
        let half = side / 2;
        proof {
            // One unfolding of is_pow2: a power of two above 1 is even and
            // halves to a power of two.
            assert(side % 2 == 0 && is_pow2(side as int / 2));
        }
        let bottom_left = Box::new(build_region(grid, x, y, half));
        let bottom_right = Box::new(build_region(grid, x + half, y, half));
        let top_left = Box::new(build_region(grid, x, y + half, half));
        let top_right = Box::new(build_region(grid, x + half, y + half, half));
        QuadtreeNode::Internal { bottom_left, bottom_right, top_left, top_right }
    }
}

/// Builds the quadtree of the whole grid. The root satisfies the node
/// invariant over the full square; in particular, a grid of one solid
/// color yields a single leaf carrying that color, whatever the dimension.
pub fn build(grid: &PixelGrid) -> (root: QuadtreeNode)
    requires
        grid.wf(),
    ensures
        root.matches_grid(*grid, 0, 0, grid.dim()),
        grid.uniform(0, 0, grid.dim()) ==> root == (QuadtreeNode::Leaf {
            color: grid.pixel_at(0, 0),
        }),
{
    let side = grid.dimension();
    let root = build_region(grid, 0, 0, side);
    proof {
        if grid.uniform(0, 0, grid.dim()) {
            // An internal root would contradict uniformity, so the root is
            // a leaf, and its color is the reference corner's.
            assert(root is Leaf);
        }
    }
    root
}

/// Law: the grid determines the tree. Any two trees that satisfy the node
/// invariant over the same square of the same grid are equal, so building
/// twice from the same grid yields identical shape and identical leaf
/// colors.
pub proof fn lemma_build_deterministic(
    grid: PixelGrid,
    x: int,
    y: int,
    side: int,
    n1: QuadtreeNode,
    n2: QuadtreeNode,
)
    requires
        n1.matches_grid(grid, x, y, side),
        n2.matches_grid(grid, x, y, side),
    ensures
        n1 == n2,
    decreases n1,
{
    match (n1, n2) {
        (
            QuadtreeNode::Internal {
                bottom_left: bl1,
                bottom_right: br1,
                top_left: tl1,
                top_right: tr1,
            },
            QuadtreeNode::Internal {
                bottom_left: bl2,
                bottom_right: br2,
                top_left: tl2,
                top_right: tr2,
            },
        ) => {
            let half = side / 2;
            lemma_build_deterministic(grid, x, y, half, *bl1, *bl2);
            lemma_build_deterministic(grid, x + half, y, half, *br1, *br2);
            lemma_build_deterministic(grid, x, y + half, half, *tl1, *tl2);
            lemma_build_deterministic(grid, x + half, y + half, half, *tr1, *tr2);
        },
        _ => {
            // Two leaves both carry the reference corner's color; a leaf and
            // an internal node would make the square both uniform and
            // non-uniform.
        },
    }
}

} // verus!
