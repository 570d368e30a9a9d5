//! Solid RGB color values and their packed 32-bit encoding.

use vstd::prelude::*;

verus! {

/// Sentinel value for the packed encoding: a node whose 32-bit data field
/// holds this value has children instead of a color. A packed color never
/// reaches it, because its top byte is always zero (`Pixel::pack`).
pub const HAS_CHILDREN_NODE: u32 = 0xFF000000;

/// One RGB color sample. Equality is defined purely on the three channel
/// values; a pixel carries no position and is immutable once created.
#[derive(Clone, Copy, PartialEq, Eq, Structural, Debug)]
pub struct Pixel {
    pub red: u8,
    pub green: u8,
    pub blue: u8,
}

impl Pixel {
    /// Initializes a pixel from its three channel values.
    pub fn new(red: u8, green: u8, blue: u8) -> (p: Pixel)
        ensures
            p == (Pixel { red, green, blue }),
    {
        Pixel { red, green, blue }
    }

    /// Getter of the red color value.
    pub fn get_red(&self) -> (r: u8)
        ensures
            r == self.red,
    {
        self.red
    }

    /// Getter of the green color value.
    pub fn get_green(&self) -> (r: u8)
        ensures
            r == self.green,
    {
        self.green
    }

    /// Getter of the blue color value.
    pub fn get_blue(&self) -> (r: u8)
        ensures
            r == self.blue,
    {
        self.blue
    }

    /// The packed 32-bit form of this color: red in bits 16..24, green in
    /// bits 8..16, blue in bits 0..8, top byte zero.
    pub open spec fn spec_pack(self) -> u32 {
        ((self.red as u32) << 16) | ((self.green as u32) << 8) | (self.blue as u32)
    }

    /// Packs the color into one 32-bit value. The top byte stays zero, so
    /// the result is always below `HAS_CHILDREN_NODE` and can share an
    /// integer field with that sentinel.
    pub fn pack(&self) -> (data: u32)
        ensures
            data == self.spec_pack(),
            data < HAS_CHILDREN_NODE,
    {
        let data = ((self.red as u32) << 16) | ((self.green as u32) << 8) | (self.blue as u32);
        proof {
            let r = self.red;
            let g = self.green;
            let b = self.blue;
            assert((((r as u32) << 16) | ((g as u32) << 8) | (b as u32)) < 0xFF000000u32)
                by (bit_vector);
        }
        data
    }

    /// Recovers the color from its packed 32-bit form. Inverse of `pack`:
    /// the result packs back to exactly the given value.
    pub fn unpack(data: u32) -> (p: Pixel)
        requires
            data < 0x1000000,
        ensures
            p.spec_pack() == data,
    {
        let red = ((data >> 16) & 0xFF) as u8;
        let green = ((data >> 8) & 0xFF) as u8;
        let blue = (data & 0xFF) as u8;
        proof {
            let r: u8 = red;
            let g: u8 = green;
            let b: u8 = blue;
            assert(r == ((data >> 16) & 0xFF) as u8 && g == ((data >> 8) & 0xFF) as u8 && b == (
            data & 0xFF) as u8 && data < 0x1000000u32 ==> ((r as u32) << 16) | ((g as u32) << 8)
                | (b as u32) == data) by (bit_vector);
        }
        Pixel { red, green, blue }
    }
}

/// Law: the packed encoding is injective. Two colors with the same packed
/// 32-bit value have the same channel values, so `unpack` after `pack`
/// returns the original pixel.
pub proof fn lemma_pack_injective(p: Pixel, q: Pixel)
    requires
        p.spec_pack() == q.spec_pack(),
    ensures
        p == q,
{
    let (r1, g1, b1) = (p.red, p.green, p.blue);
    let (r2, g2, b2) = (q.red, q.green, q.blue);
    assert((((r1 as u32) << 16) | ((g1 as u32) << 8) | (b1 as u32)) == (((r2 as u32) << 16) | ((
    g2 as u32) << 8) | (b2 as u32)) ==> r1 == r2 && g1 == g2 && b1 == b2) by (bit_vector);
}

} // verus!
