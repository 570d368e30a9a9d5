use quadtree_compressor::grid::{ConfigError, PixelGrid};
use quadtree_compressor::pixel::{Pixel, HAS_CHILDREN_NODE};
use quadtree_compressor::region::{enumerate, Region};
use quadtree_compressor::tree::{build, QuadtreeNode};

const RED: Pixel = Pixel { red: 255, green: 0, blue: 0 };
const BLUE: Pixel = Pixel { red: 0, green: 0, blue: 255 };

/// Builds a grid of the given dimension whose pixel at (x, y) is f(x, y).
fn grid_from(dimension: usize, f: impl Fn(usize, usize) -> Pixel) -> PixelGrid {
    let mut pixels = Vec::new();
    for y in 0..dimension {
        for x in 0..dimension {
            pixels.push(f(x, y));
        }
    }
    PixelGrid::new(pixels, dimension).expect("valid grid")
}

/// A 4x4 grid whose bottom-left 2x2 quadrant is red and whose other pixels
/// are blue.
fn quadrant_grid() -> PixelGrid {
    grid_from(4, |x, y| if x < 2 && y < 2 { RED } else { BLUE })
}

/// A 4x4 grid where every pixel differs from its horizontal and vertical
/// neighbors (a checkerboard of two colors).
fn checkerboard_grid() -> PixelGrid {
    grid_from(4, |x, y| if (x + y) % 2 == 0 { RED } else { BLUE })
}

#[test]
fn uniform_grid_builds_single_leaf() {
    let c = Pixel::new(7, 8, 9);
    let grid = grid_from(4, |_, _| c);
    let root = build(&grid);
    assert_eq!(root, QuadtreeNode::Leaf { color: c });
    let regions = enumerate(&root, grid.dimension());
    assert_eq!(regions, vec![Region { x: 0, y: 0, side: 4, color: Some(c) }]);
}

#[test]
fn uniform_grid_builds_single_leaf_regardless_of_dimension() {
    let c = Pixel::new(1, 2, 3);
    for dimension in [4usize, 8, 16, 32] {
        let grid = grid_from(dimension, |_, _| c);
        let root = build(&grid);
        assert_eq!(root, QuadtreeNode::Leaf { color: c });
        let regions = enumerate(&root, grid.dimension());
        assert_eq!(regions.len(), 1);
        assert_eq!(regions[0], Region { x: 0, y: 0, side: dimension, color: Some(c) });
    }
}

#[test]
fn quadrant_grid_builds_one_level() {
    let grid = quadrant_grid();
    let root = build(&grid);
    let expected = QuadtreeNode::Internal {
        bottom_left: Box::new(QuadtreeNode::Leaf { color: RED }),
        bottom_right: Box::new(QuadtreeNode::Leaf { color: BLUE }),
        top_left: Box::new(QuadtreeNode::Leaf { color: BLUE }),
        top_right: Box::new(QuadtreeNode::Leaf { color: BLUE }),
    };
    assert_eq!(root, expected);
    let regions = enumerate(&root, grid.dimension());
    assert_eq!(
        regions,
        vec![
            Region { x: 0, y: 0, side: 4, color: None },
            Region { x: 0, y: 0, side: 2, color: Some(RED) },
            Region { x: 2, y: 0, side: 2, color: Some(BLUE) },
            Region { x: 0, y: 2, side: 2, color: Some(BLUE) },
            Region { x: 2, y: 2, side: 2, color: Some(BLUE) },
        ]
    );
}

#[test]
fn alternating_grid_splits_down_to_pixels() {
    let grid = checkerboard_grid();
    let root = build(&grid);
    let regions = enumerate(&root, grid.dimension());
    // 1 root region + 4 internal quadrants + 16 single-pixel leaves.
    assert_eq!(regions.len(), 21);
    let leaves: Vec<&Region> = regions.iter().filter(|r| r.color.is_some()).collect();
    let internals: Vec<&Region> = regions.iter().filter(|r| r.color.is_none()).collect();
    assert_eq!(leaves.len(), 16);
    assert_eq!(internals.len(), 5);
    assert!(leaves.iter().all(|r| r.side == 1));
    assert_eq!(internals[0], &Region { x: 0, y: 0, side: 4, color: None });
    assert!(internals[1..].iter().all(|r| r.side == 2));
    for leaf in leaves {
        assert_eq!(leaf.color, Some(grid.pixel(leaf.x, leaf.y)));
    }
}

#[test]
fn enumeration_is_preorder_with_fixed_child_order() {
    let grid = checkerboard_grid();
    let root = build(&grid);
    let regions = enumerate(&root, grid.dimension());
    // The root region comes first, then the bottom-left quadrant's subtree,
    // whose own region precedes its four single-pixel leaves.
    assert_eq!(regions[0], Region { x: 0, y: 0, side: 4, color: None });
    assert_eq!(regions[1], Region { x: 0, y: 0, side: 2, color: None });
    assert_eq!(regions[2].color, Some(grid.pixel(0, 0)));
    assert_eq!((regions[2].x, regions[2].y, regions[2].side), (0, 0, 1));
    assert_eq!((regions[3].x, regions[3].y, regions[3].side), (1, 0, 1));
    assert_eq!((regions[4].x, regions[4].y, regions[4].side), (0, 1, 1));
    assert_eq!((regions[5].x, regions[5].y, regions[5].side), (1, 1, 1));
    // After the bottom-left subtree comes the bottom-right quadrant.
    assert_eq!(regions[6], Region { x: 2, y: 0, side: 2, color: None });
}

#[test]
fn build_is_idempotent() {
    let grid = quadrant_grid();
    let first = build(&grid);
    let second = build(&grid);
    assert_eq!(first, second);
    assert_eq!(enumerate(&first, grid.dimension()), enumerate(&second, grid.dimension()));

    let grid = checkerboard_grid();
    let first = build(&grid);
    let second = build(&grid);
    assert_eq!(first, second);
}

#[test]
fn leaf_regions_recheck_uniform() {
    for grid in [quadrant_grid(), checkerboard_grid()] {
        let root = build(&grid);
        for region in enumerate(&root, grid.dimension()) {
            match region.color {
                Some(color) => {
                    assert!(grid.is_uniform(region.x, region.y, region.side));
                    assert_eq!(color, grid.pixel(region.x, region.y));
                }
                None => {
                    assert!(region.side > 1);
                    assert!(!grid.is_uniform(region.x, region.y, region.side));
                }
            }
        }
    }
}

#[test]
fn leaf_regions_tile_exactly() {
    for grid in [quadrant_grid(), checkerboard_grid()] {
        let dimension = grid.dimension();
        let root = build(&grid);
        let regions = enumerate(&root, dimension);
        for px in 0..dimension {
            for py in 0..dimension {
                let covering = regions
                    .iter()
                    .filter(|r| {
                        r.color.is_some() && r.x <= px && px < r.x + r.side && r.y <= py
                            && py < r.y + r.side
                    })
                    .count();
                assert_eq!(covering, 1, "point ({px}, {py}) must lie in exactly one leaf");
            }
        }
    }
}

#[test]
fn dimension_four_is_the_minimum_valid_size() {
    let pixels = vec![RED; 16];
    assert!(PixelGrid::new(pixels, 4).is_ok());
}

#[test]
fn dimension_not_divisible_by_four_is_rejected() {
    let pixels = vec![RED; 36];
    assert_eq!(PixelGrid::new(pixels, 6).err(), Some(ConfigError::DimensionNotDivisibleByFour));
}

#[test]
fn dimension_not_halvable_is_rejected() {
    let pixels = vec![RED; 144];
    assert_eq!(PixelGrid::new(pixels, 12).err(), Some(ConfigError::DimensionNotHalvable));
}

#[test]
fn non_square_buffer_is_rejected() {
    let pixels = vec![RED; 15];
    assert_eq!(PixelGrid::new(pixels, 4).err(), Some(ConfigError::NotSquare));
    // A wrong pixel count is reported before a bad side length.
    let pixels = vec![RED; 35];
    assert_eq!(PixelGrid::new(pixels, 6).err(), Some(ConfigError::NotSquare));
}

#[test]
fn is_uniform_detects_a_single_differing_pixel() {
    let grid = grid_from(4, |x, y| if x == 3 && y == 3 { RED } else { BLUE });
    assert!(!grid.is_uniform(0, 0, 4));
    assert!(!grid.is_uniform(2, 2, 2));
    assert!(grid.is_uniform(0, 0, 2));
    assert!(grid.is_uniform(3, 3, 1));
    assert!(grid.is_uniform(2, 3, 1));
}

#[test]
fn pixel_getters_return_channels() {
    let p = Pixel::new(11, 22, 33);
    assert_eq!(p.get_red(), 11);
    assert_eq!(p.get_green(), 22);
    assert_eq!(p.get_blue(), 33);
    assert_eq!(p, Pixel { red: 11, green: 22, blue: 33 });
    assert_ne!(p, Pixel { red: 11, green: 22, blue: 34 });
}

#[test]
fn pack_and_unpack_are_inverse() {
    let p = Pixel::new(0x01, 0x02, 0x03);
    let packed = p.pack();
    assert_eq!(packed, 0x010203);
    assert_eq!(Pixel::unpack(packed), p);

    let q = Pixel::new(0xFF, 0xFF, 0xFF);
    let packed = q.pack();
    assert_eq!(packed, 0x00FFFFFF);
    assert!(packed < HAS_CHILDREN_NODE);
    assert_eq!(Pixel::unpack(packed), q);
}

#[test]
fn packed_node_data_distinguishes_leaves_from_internals() {
    let grid = quadrant_grid();
    let root = build(&grid);
    assert_eq!(root.packed_data(), HAS_CHILDREN_NODE);
    if let QuadtreeNode::Internal { bottom_left, bottom_right, .. } = root {
        assert_eq!(bottom_left.packed_data(), RED.pack());
        assert_eq!(bottom_left.packed_data(), 0x00FF0000);
        assert_eq!(bottom_right.packed_data(), BLUE.pack());
        assert_eq!(bottom_right.packed_data(), 0x000000FF);
    } else {
        unreachable!("a two-color grid must split");
    }
}

#[test]
fn packed_color_never_equals_the_sentinel() {
    for channel in [0u8, 1, 127, 255] {
        let p = Pixel::new(channel, channel, channel);
        assert!(p.pack() < HAS_CHILDREN_NODE);
    }
}
