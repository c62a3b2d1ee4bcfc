//! The integer spine of the compression pipeline: big-endian serialization
//! of code words, the quantized-block level of compression and
//! decompression, and the mapping between a code word's position in the
//! stream and its block's pixel coordinates.
//!
//! The compressed stream is a dense row-major sequence of 32-bit code words,
//! one per 2x2 block, each serialized as 4 big-endian bytes.

use vstd::prelude::*;

use crate::pixel_block::{spec_block_at, spec_corner, Pixel, PixelBlock};
use crate::quantize;
use crate::quantize::{block_in_range, packed_word, parsed_block};
use vstd::arithmetic::div_mod::{
    lemma_fundamental_div_mod, lemma_fundamental_div_mod_converse,
    lemma_mod_division_less_than_divisor,
};

verus! {

/// The 32-bit word spelled by four bytes in big-endian order.
pub open spec fn be_word(bytes: [u8; 4]) -> u32 {
    ((bytes[0] * 0x100_0000 + bytes[1] * 0x1_0000 + bytes[2] * 0x100 + bytes[3]) as u32)
}

/// The code word of a quantized field sextuple.
pub open spec fn block_word(q: (u64, i64, i64, i64, u64, u64)) -> u64 {
    packed_word(q.0, q.1, q.2, q.3, q.4, q.5)
}

/// Every quantized block that fits its fields survives the trip through
/// its code word: parsing the word built from the block yields the block
/// again.
pub proof fn lemma_block_round_trip(q: (u64, i64, i64, i64, u64, u64))
    requires
        block_in_range(q),
    ensures
        block_word(q) <= u32::MAX,
        parsed_block((block_word(q) as u32)) == q,
{
    let (a, b, c, d, pb, pr) = q;
    assert(packed_word(a, b, c, d, pb, pr) <= 0xffff_ffffu64) by (bit_vector)
        requires
            a <= 511 && -16 <= b <= 15 && -16 <= c <= 15 && -16 <= d <= 15 && pb <= 15 && pr
                <= 15,
    ;
    quantize::lemma_construct_then_parse(a, b, c, d, pb, pr);
}

/// Every code word survives the trip through its quantized block:
/// re-packing the fields parsed out of the word yields the word again.
pub proof fn lemma_record_round_trip(word: u32)
    ensures
        block_word(parsed_block(word)) == word,
{
    quantize::lemma_parse_then_construct(word);
}

/// Serializes one code word as its 4 big-endian bytes, the on-disk record.
pub fn word_to_be_bytes(word: u32) -> (bytes: [u8; 4])
    ensures
        be_word(bytes) == word,
{
    let b0: u8 = #[verifier::truncate] ((word >> 24) as u8);
    let b1: u8 = #[verifier::truncate] ((word >> 16) as u8);
    let b2: u8 = #[verifier::truncate] ((word >> 8) as u8);
    let b3: u8 = #[verifier::truncate] (word as u8);
    proof {
        assert(((word >> 24) as u8) * 0x100_0000 + ((word >> 16) as u8) * 0x1_0000 + ((word
            >> 8) as u8) * 0x100 + (word as u8) == word) by (bit_vector);
    }
    [b0, b1, b2, b3]
}

/// Reads the code word spelled by 4 big-endian bytes.
pub fn be_bytes_to_word(bytes: [u8; 4]) -> (word: u32)
    ensures
        word == be_word(bytes),
{
    let b0: u8 = bytes[0];
    let b1: u8 = bytes[1];
    let b2: u8 = bytes[2];
    let b3: u8 = bytes[3];
    proof {
        assert(((b0 as u32) << 24) | ((b1 as u32) << 16) | ((b2 as u32) << 8) | (b3 as u32) == b0
            * 0x100_0000 + b1 * 0x1_0000 + b2 * 0x100 + b3) by (bit_vector);
    }
    ((b0 as u32) << 24) | ((b1 as u32) << 16) | ((b2 as u32) << 8) | (b3 as u32)
}

/// Packs a row-major sequence of quantized blocks into the compressed
/// record stream: for each block, its code word as 4 big-endian bytes.
pub fn compress(blocks: &Vec<(u64, i64, i64, i64, u64, u64)>) -> (stream: Vec<[u8; 4]>)
    requires
        forall|i: int| 0 <= i < blocks@.len() ==> block_in_range(#[trigger] blocks@[i]),
    ensures
        stream@.len() == blocks@.len(),
        forall|i: int|
            0 <= i < blocks@.len() ==> be_word(#[trigger] stream@[i]) == block_word(blocks@[i]),
{
    let mut stream: Vec<[u8; 4]> = Vec::new();
    let mut k: usize = 0;
    while k < blocks.len()
        invariant
            k <= blocks@.len(),
            stream@.len() == k,
            forall|i: int| 0 <= i < blocks@.len() ==> block_in_range(#[trigger] blocks@[i]),
            forall|i: int|
                0 <= i < k ==> be_word(#[trigger] stream@[i]) == block_word(blocks@[i]),
        decreases blocks@.len() - k,
    {
        let q: (u64, i64, i64, i64, u64, u64) = blocks[k];
        let word: u32 = quantize::construct_word(q.0, q.1, q.2, q.3, q.4, q.5);
        let bytes: [u8; 4] = word_to_be_bytes(word);
        stream.push(bytes);
        k += 1;
    }
    stream
}

/// Unpacks a compressed record stream into its row-major sequence of
/// quantized blocks: each 4-byte big-endian record parsed back into the
/// field sextuple its code word carries.
pub fn decompress(stream: &Vec<[u8; 4]>) -> (blocks: Vec<(u64, i64, i64, i64, u64, u64)>)
    ensures
        blocks@.len() == stream@.len(),
        forall|i: int|
            0 <= i < stream@.len() ==> #[trigger] blocks@[i] == parsed_block(
                be_word(stream@[i]),
            ),
        forall|i: int| 0 <= i < stream@.len() ==> block_in_range(#[trigger] blocks@[i]),
{
    let mut blocks: Vec<(u64, i64, i64, i64, u64, u64)> = Vec::new();
    let mut k: usize = 0;
    while k < stream.len()
        invariant
            k <= stream@.len(),
            blocks@.len() == k,
            forall|i: int|
                0 <= i < k ==> #[trigger] blocks@[i] == parsed_block(be_word(stream@[i])),
            forall|i: int| 0 <= i < k ==> block_in_range(#[trigger] blocks@[i]),
        decreases stream@.len() - k,
    {
        let word: u32 = be_bytes_to_word(stream[k]);
        let fields: (u64, i64, i64, i64, u64, u64) = quantize::parse_word(word);
        blocks.push(fields);
        k += 1;
    }
    blocks
}

/// Maps a code word's linear index in the compressed stream to the pixel
/// coordinates of its block's top-left corner, given the trimmed image
/// width.  Blocks are laid out row-major with `width / 2` blocks per row;
/// the returned coordinates lead back to the index they came from.
pub fn block_position(index: usize, width: usize) -> (pos: (usize, usize))
    requires
        width >= 2,
        index <= usize::MAX / 2,
    ensures
        pos.0 == 2 * (index / (width / 2)),
        pos.1 == 2 * (index % (width / 2)),
        (pos.0 / 2) * (width / 2) + pos.1 / 2 == index,
{
    let blocks_per_row: usize = width / 2;
    proof {
        assert(index / blocks_per_row <= index) by (nonlinear_arith)
            requires
                blocks_per_row >= 1 && index >= 0,
        ;
        lemma_fundamental_div_mod(index as int, blocks_per_row as int);
    }
    let row: usize = (index / blocks_per_row) * 2;
    let col: usize = (index % blocks_per_row) * 2;
    proof {
        assert((2 * (index / blocks_per_row)) / 2 == index / blocks_per_row && (2 * (index
            % blocks_per_row)) / 2 == index % blocks_per_row) by (nonlinear_arith);
    }
    (row, col)
}

/// Rounds a source image dimension down to the nearest even value, the
/// extent the codec actually covers.
pub fn trim_to_even(n: usize) -> (t: usize)
    ensures
        t == 2 * (n / 2),
        t <= n,
        n - t <= 1,
        t % 2 == 0,
{
    proof {
        lemma_fundamental_div_mod(n as int, 2);
        assert((2 * (n / 2)) % 2 == 0) by (nonlinear_arith);
    }
    (n / 2) * 2
}

/// Crops a row-major pixel sequence down to even dimensions and cuts it
/// into the row-major sequence of its 2x2 blocks, each tagged with the
/// coordinates of its top-left pixel.
pub fn tile_blocks(pixels: &Vec<Pixel>, height: usize, width: usize) -> (blocks: Vec<PixelBlock>)
    requires
        pixels@.len() == height * width,
        height * width <= usize::MAX,
    ensures
        blocks@.len() == (height / 2) * (width / 2),
        forall|k: int|
            0 <= k < blocks@.len() ==> #[trigger] blocks@[k] == spec_block_at(
                pixels@,
                width,
                2 * (k / ((width / 2) as int)),
                2 * (k % ((width / 2) as int)),
            ),
{
    let block_rows: usize = height / 2;
    let block_cols: usize = width / 2;
    proof {
        lemma_fundamental_div_mod(height as int, 2);
        lemma_fundamental_div_mod(width as int, 2);
        lemma_mod_division_less_than_divisor(height as int, 2);
        lemma_mod_division_less_than_divisor(width as int, 2);
    }
    let mut blocks: Vec<PixelBlock> = Vec::new();
    let mut i: usize = 0;
    while i < block_rows
        invariant
            pixels@.len() == height * width,
            height * width <= usize::MAX,
            block_rows == height / 2,
            block_cols == width / 2,
            2 * block_rows <= height,
            2 * block_cols <= width,
            i <= block_rows,
            blocks@.len() == i * block_cols,
            forall|k: int|
                0 <= k < blocks@.len() ==> #[trigger] blocks@[k] == spec_block_at(
                    pixels@,
                    width,
                    2 * (k / (block_cols as int)),
                    2 * (k % (block_cols as int)),
                ),
        decreases block_rows - i,
    {
        let mut j: usize = 0;
        while j < block_cols
            invariant
                pixels@.len() == height * width,
                height * width <= usize::MAX,
                block_rows == height / 2,
                block_cols == width / 2,
                2 * block_rows <= height,
                2 * block_cols <= width,
                i < block_rows,
                j <= block_cols,
                blocks@.len() == i * block_cols + j,
                forall|k: int|
                    0 <= k < blocks@.len() ==> #[trigger] blocks@[k] == spec_block_at(
                        pixels@,
                        width,
                        2 * (k / (block_cols as int)),
                        2 * (k % (block_cols as int)),
                    ),
            decreases block_cols - j,
        {
            proof {
                assert(2 * i + 1 < height && 2 * j + 1 < width && (2 * i) * width + 2 * j + 1
                    < height * width && (2 * i + 1) * width + 2 * j + 1 < height * width
                    && i * block_cols + j < block_rows * block_cols) by (nonlinear_arith)
                    requires
                        0 <= i < block_rows,
                        0 <= j < block_cols,
                        2 * block_rows <= height,
                        2 * block_cols <= width,
                ;
            }
            let r: usize = 2 * i;
            let c: usize = 2 * j;
            let block: PixelBlock = PixelBlock {
                row_position: r,
                col_position: c,
                top_left: pixels[r * width + c],
                top_right: pixels[r * width + c + 1],
                bottom_left: pixels[(r + 1) * width + c],
                bottom_right: pixels[(r + 1) * width + c + 1],
            };
            blocks.push(block);
            proof {
                lemma_fundamental_div_mod_converse(
                    (i * block_cols + j) as int,
                    block_cols as int,
                    i as int,
                    j as int,
                );
                assert(blocks@[(i * block_cols + j) as int] == spec_block_at(
                    pixels@,
                    width,
                    2 * (i as int),
                    2 * (j as int),
                ));
            }
            j += 1;
        }
        proof {
            assert((i + 1) * block_cols == i * block_cols + block_cols) by (nonlinear_arith);
        }
        i += 1;
    }
    blocks
}

/// Lays the blocks of a decompressed image, given in row-major block
/// order, back out as the row-major pixel sequence of an image with the
/// given even dimensions.
pub fn assemble_image(blocks: &Vec<PixelBlock>, height: usize, width: usize) -> (pixels: Vec<
    Pixel,
>)
    requires
        height % 2 == 0,
        width % 2 == 0,
        blocks@.len() == (height / 2) * (width / 2),
        height * width <= usize::MAX,
    ensures
        pixels@.len() == height * width,
        forall|k: int|
            0 <= k < pixels@.len() ==> #[trigger] pixels@[k] == spec_corner(
                blocks@[((k / (width as int)) / 2) * ((width / 2) as int) + (k % (
                width as int)) / 2],
                (k / (width as int)) % 2,
                (k % (width as int)) % 2,
            ),
{
    let block_rows: usize = height / 2;
    let block_cols: usize = width / 2;
    proof {
        lemma_fundamental_div_mod(height as int, 2);
        lemma_fundamental_div_mod(width as int, 2);
    }
    let mut pixels: Vec<Pixel> = Vec::new();
    let mut r: usize = 0;
    while r < height
        invariant
            height == 2 * block_rows,
            width == 2 * block_cols,
            blocks@.len() == block_rows * block_cols,
            height * width <= usize::MAX,
            r <= height,
            pixels@.len() == r * width,
            forall|k: int|
                0 <= k < pixels@.len() ==> #[trigger] pixels@[k] == spec_corner(
                    blocks@[((k / (width as int)) / 2) * (block_cols as int) + (k % (
                    width as int)) / 2],
                    (k / (width as int)) % 2,
                    (k % (width as int)) % 2,
                ),
        decreases height - r,
    {
        let mut c: usize = 0;
        while c < width
            invariant
                height == 2 * block_rows,
                width == 2 * block_cols,
                blocks@.len() == block_rows * block_cols,
                height * width <= usize::MAX,
                r < height,
                c <= width,
                pixels@.len() == r * width + c,
                forall|k: int|
                    0 <= k < pixels@.len() ==> #[trigger] pixels@[k] == spec_corner(
                        blocks@[((k / (width as int)) / 2) * (block_cols as int) + (k % (
                        width as int)) / 2],
                        (k / (width as int)) % 2,
                        (k % (width as int)) % 2,
                    ),
            decreases width - c,
        {
            proof {
                lemma_fundamental_div_mod(r as int, 2);
                lemma_fundamental_div_mod(c as int, 2);
                lemma_mod_division_less_than_divisor(r as int, 2);
                lemma_mod_division_less_than_divisor(c as int, 2);
                assert((r / 2) * block_cols + c / 2 < block_rows * block_cols && block_rows
                    * block_cols <= height * width && r * width + c + 1 <= height * width) by (nonlinear_arith)
                    requires
                        0 <= r,
                        0 <= c,
                        r < height,
                        c < width,
                        height == 2 * block_rows,
                        width == 2 * block_cols,
                        r / 2 < block_rows,
                        c / 2 < block_cols,
                ;
            }
            let block: PixelBlock = blocks[(r / 2) * block_cols + c / 2];
            let pixel: Pixel = if r % 2 == 0 {
                if c % 2 == 0 {
                    block.top_left
                } else {
                    block.top_right
                }
            } else {
                if c % 2 == 0 {
                    block.bottom_left
                } else {
                    block.bottom_right
                }
            };
            pixels.push(pixel);
            proof {
                lemma_fundamental_div_mod_converse(
                    (r * width + c) as int,
                    width as int,
                    r as int,
                    c as int,
                );
                assert(pixels@[(r * width + c) as int] == spec_corner(
                    blocks@[((r as int) / 2) * (block_cols as int) + (c as int) / 2],
                    (r as int) % 2,
                    (c as int) % 2,
                ));
            }
            c += 1;
        }
        proof {
            assert((r + 1) * width == r * width + width) by (nonlinear_arith);
        }
        r += 1;
    }
    pixels
}

} // verus!
