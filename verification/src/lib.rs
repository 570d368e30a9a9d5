//! Quadtree approximation of square RGB raster images.
//!
//! A square pixel grid is recursively partitioned into axis-aligned square
//! regions of uniform color. The result is a quadtree whose leaves carry a
//! color and whose shape records where the image varies: fine subdivision
//! where neighbouring pixels differ, a single coarse leaf where they do not.
//! A separate traversal reconstructs the list of displayable regions
//! (position, side length, optional leaf color) from the tree.

pub mod grid;
pub mod pixel;
pub mod region;
pub mod tree;
