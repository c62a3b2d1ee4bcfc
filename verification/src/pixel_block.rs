//! The 2x2 block of RGB pixels that one code word carries.
//!
//! A pixel holds its three channel intensities as plain integers in
//! `[0, denominator]`; a block holds four pixels and the pixel coordinates
//! of its top-left corner, which are always even.

use vstd::prelude::*;

verus! {

/// One RGB pixel: three channel intensities, each in `[0, denominator]`
/// for the image's denominator (typically 255).
#[derive(Clone, Copy, Debug, PartialEq, Eq)]
pub struct Pixel {
    pub red: u16,
    pub green: u16,
    pub blue: u16,
}

/// A 2x2 block of RGB pixels together with the coordinates of its top-left
/// pixel in the image.
#[derive(Clone, Copy, Debug, PartialEq, Eq)]
pub struct PixelBlock {
    pub row_position: usize,
    pub col_position: usize,
    pub top_left: Pixel,
    pub top_right: Pixel,
    pub bottom_left: Pixel,
    pub bottom_right: Pixel,
}

/// The block whose top-left corner sits at `(row, col)` of a row-major
/// pixel sequence `width` pixels wide.
pub open spec fn spec_block_at(pixels: Seq<Pixel>, width: usize, row: int, col: int) -> PixelBlock {
    PixelBlock {
        row_position: row as usize,
        col_position: col as usize,
        top_left: pixels[row * width + col],
        top_right: pixels[row * width + col + 1],
        bottom_left: pixels[(row + 1) * width + col],
        bottom_right: pixels[(row + 1) * width + col + 1],
    }
}

/// The pixel of `block` at row offset `dr` and column offset `dc`, each 0
/// or 1.
pub open spec fn spec_corner(block: PixelBlock, dr: int, dc: int) -> Pixel {
    if dr == 0 {
        if dc == 0 {
            block.top_left
        } else {
            block.top_right
        }
    } else {
        if dc == 0 {
            block.bottom_left
        } else {
            block.bottom_right
        }
    }
}

impl PixelBlock {
    /// Packs 4 pixels and the coordinates of the block's top-left corner
    /// into a block.
    pub fn pack(
        row_position: usize,
        col_position: usize,
        top_left: Pixel,
        top_right: Pixel,
        bottom_left: Pixel,
        bottom_right: Pixel,
    ) -> (block: PixelBlock)
        ensures
            block == (PixelBlock {
                row_position,
                col_position,
                top_left,
                top_right,
                bottom_left,
                bottom_right,
            }),
    {
        PixelBlock { row_position, col_position, top_left, top_right, bottom_left, bottom_right }
    }

    /// Consumes the block and returns its four pixels, each with its own
    /// pixel coordinates, in row-major order starting from the top-left
    /// corner.
    pub fn unpack(self) -> (r: Vec<(usize, usize, Pixel)>)
        requires
            self.row_position + 1 <= usize::MAX,
            self.col_position + 1 <= usize::MAX,
        ensures
            r@.len() == 4,
            r@[0] == (self.row_position, self.col_position, self.top_left),
            r@[1] == (self.row_position, (self.col_position + 1) as usize, self.top_right),
            r@[2] == ((self.row_position + 1) as usize, self.col_position, self.bottom_left),
            r@[3] == ((self.row_position + 1) as usize, (self.col_position + 1) as usize,
            self.bottom_right),
    {
        let mut r: Vec<(usize, usize, Pixel)> = Vec::new();
        r.push((self.row_position, self.col_position, self.top_left));
        r.push((self.row_position, self.col_position + 1, self.top_right));
        r.push((self.row_position + 1, self.col_position, self.bottom_left));
        r.push((self.row_position + 1, self.col_position + 1, self.bottom_right));
        r
    }
}

} // verus!
