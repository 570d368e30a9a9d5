//! Square pixel grids addressed by (x, y) coordinates.
//!
//! Every square region the library works on is named by explicit (x, y, side)
//! coordinates against this grid; no index arithmetic over a flattened,
//! row-skipping range appears anywhere downstream.

use crate::pixel::Pixel;
use vstd::arithmetic::div_mod::lemma_fundamental_div_mod;
use vstd::arithmetic::div_mod::lemma_fundamental_div_mod_converse;
use vstd::prelude::*;

verus! {

/// True iff `n` is a power of two: halving it repeatedly reaches exactly 1
/// without ever passing through an odd number greater than 1.
pub open spec fn is_pow2(n: int) -> bool
    decreases n,
{
    if n <= 0 {
        false
    } else if n == 1 {
        true
    } else {
        n % 2 == 0 && is_pow2(n / 2)
    }
}

/// Why a pixel buffer was rejected at grid construction.
#[derive(Clone, Copy, PartialEq, Eq, Structural, Debug)]
pub enum ConfigError {
    /// The buffer does not hold exactly `dimension * dimension` pixels.
    NotSquare,
    /// The side length is not divisible by 4.
    DimensionNotDivisibleByFour,
    /// The side length cannot be halved down to 1: it is not a power of two,
    /// so some subdivision would produce quadrants that do not tile it.
    DimensionNotHalvable,
}

/// An immutable square grid of pixels, addressed by (x, y) with (0, 0) at
/// the bottom-left corner. Row `y` occupies the index range
/// `[y * dimension, (y + 1) * dimension)` of the backing buffer, so the
/// buffer stores the bottom row first, each row left to right.
pub struct PixelGrid {
    pixels: Vec<Pixel>,
    dimension: usize,
}

impl PixelGrid {
    /// The side length (width and height are equal by construction).
    pub closed spec fn dim(&self) -> int {
        self.dimension as int
    }

    /// How many pixels the backing buffer holds.
    pub closed spec fn data_len(&self) -> int {
        self.pixels@.len() as int
    }

    /// The pixel at (x, y).
    pub closed spec fn pixel_at(&self, x: int, y: int) -> Pixel {
        self.pixels@[y * self.dim() + x]
    }

    /// Well-formedness: the buffer holds one pixel for every coordinate of a
    /// square whose side is divisible by 4 and halvable down to 1.
    pub open spec fn wf(&self) -> bool {
        &&& self.data_len() == self.dim() * self.dim()
        &&& self.dim() <= usize::MAX
        &&& self.dim() % 4 == 0
        &&& is_pow2(self.dim())
    }

    /// Every pixel of the square with bottom-left corner (x, y) and side
    /// length `side` equals the pixel at that corner.
    pub open spec fn uniform(&self, x: int, y: int, side: int) -> bool {
        forall|px: int, py: int|
            x <= px < x + side && y <= py < y + side ==> #[trigger] self.pixel_at(px, py)
                == self.pixel_at(x, y)
    }

    /// Builds a grid over a flat pixel buffer that stores the bottom row
    /// first, each row left to right. Rejects the input, before any use,
    /// unless the buffer is square of side `dimension` and `dimension` is
    /// divisible by 4 and halvable down to 1; the error says which of those
    /// checks failed first, in that order.
    pub fn new(pixels: Vec<Pixel>, dimension: usize) -> (result: Result<PixelGrid, ConfigError>)
        ensures
            match result {
                Ok(grid) => {
                    &&& grid.wf()
                    &&& grid.dim() == dimension
                    &&& pixels@.len() == dimension * dimension
                    &&& dimension % 4 == 0
                    &&& is_pow2(dimension as int)
                    &&& forall|x: int, y: int|
                        0 <= x < dimension && 0 <= y < dimension ==> #[trigger] grid.pixel_at(x, y)
                            == pixels@[y * dimension + x]
                },
                Err(e) => {
                    &&& (e == ConfigError::NotSquare <==> pixels@.len() != dimension * dimension)
                    &&& (e == ConfigError::DimensionNotDivisibleByFour <==> pixels@.len()
                        == dimension * dimension && dimension % 4 != 0)
                    &&& (e == ConfigError::DimensionNotHalvable <==> pixels@.len() == dimension
                        * dimension && dimension % 4 == 0 && !is_pow2(dimension as int))
                },
            },
    {
        if dimension == 0 {
            if pixels.len() == 0 {
                // 0 % 4 == 0, but 0 cannot be halved down to 1.
                return Err(ConfigError::DimensionNotHalvable);
            }
            return Err(ConfigError::NotSquare);
        }
        if pixels.len() % dimension != 0 || pixels.len() / dimension != dimension {
            proof {
                if pixels@.len() == dimension * dimension {
                    lemma_fundamental_div_mod_converse(
                        pixels@.len() as int,
                        dimension as int,
                        dimension as int,
                        0,
                    );
                }
            }
            return Err(ConfigError::NotSquare);
        }
        proof {
            lemma_fundamental_div_mod(pixels@.len() as int, dimension as int);
        }
        if dimension % 4 != 0 {
            return Err(ConfigError::DimensionNotDivisibleByFour);
        }
        let mut m: usize = dimension;
        while m % 2 == 0 && m > 1
            invariant
                1 <= m <= dimension,
                is_pow2(dimension as int) <==> is_pow2(m as int),
            decreases m,
        {
            m = m / 2;
        }
        if m != 1 {
            return Err(ConfigError::DimensionNotHalvable);
        }
        Ok(PixelGrid { pixels, dimension })
    }

    /// The side length.
    pub fn dimension(&self) -> (d: usize)
        ensures
            d == self.dim(),
    {
        self.dimension
    }

    /// The pixel at (x, y).
    pub fn pixel(&self, x: usize, y: usize) -> (p: Pixel)
        requires
            self.wf(),
            x < self.dim(),
            y < self.dim(),
        ensures
            p == self.pixel_at(x as int, y as int),
    {
        let count = self.pixels.len();
        proof {
            let d = self.dim();
            assert((y as int) * d + (x as int) < d * d) by (nonlinear_arith)
                requires
                    0 <= (x as int) < d,
                    0 <= (y as int) < d,
            ;
            assert(count == d * d);
        }
        self.pixels[y * self.dimension + x]
    }

    /// Decides whether the square with bottom-left corner (x, y) and side
    /// length `side` is a single solid color: true iff every pixel in
    /// `[x, x + side) x [y, y + side)` equals the pixel at the corner
    /// (x, y), the fixed reference corner.
    pub fn is_uniform(&self, x: usize, y: usize, side: usize) -> (r: bool)
        requires
            self.wf(),
            side >= 1,
            x + side <= self.dim(),
            y + side <= self.dim(),
        ensures
            r == self.uniform(x as int, y as int, side as int),
    {
        let reference = self.pixel(x, y);
        let mut dy: usize = 0;
        while dy < side
            invariant
                self.wf(),
                side >= 1,
                x + side <= self.dim(),
                y + side <= self.dim(),
                dy <= side,
                reference == self.pixel_at(x as int, y as int),
                forall|px: int, py: int|
                    x <= px < x + side && y <= py < y + dy ==> #[trigger] self.pixel_at(px, py)
                        == self.pixel_at(x as int, y as int),
            decreases side - dy,
        {
            let mut dx: usize = 0;
            while dx < side
                invariant
                    self.wf(),
                    side >= 1,
                    x + side <= self.dim(),
                    y + side <= self.dim(),
                    dy < side,
                    dx <= side,
                    reference == self.pixel_at(x as int, y as int),
                    forall|px: int, py: int|
                        x <= px < x + side && y <= py < y + dy ==> #[trigger] self.pixel_at(
                            px,
                            py,
                        ) == self.pixel_at(x as int, y as int),
                    forall|px: int|
                        x <= px < x + dx ==> #[trigger] self.pixel_at(px, y + dy as int)
                            == self.pixel_at(x as int, y as int),
                decreases side - dx,
            {
                let p = self.pixel(x + dx, y + dy);
                if p != reference {
                    return false;
                }
                dx = dx + 1;
            }
            dy = dy + 1;
        }
        true
    }
}

} // verus!
