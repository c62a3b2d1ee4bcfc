//! Core of a lossy image codec for 2x2 pixel blocks.
//!
//! The codec turns a raw RGB image into a stream of 32-bit code words and
//! back.  This crate holds the integer layers that define the bit-exact wire
//! format: safe bitfield packing on 64-bit words (`bitpack`), assembly and
//! disassembly of the per-block code word (`quantize`), big-endian byte
//! serialization and block indexing (`codec`), the 2x2 pixel block model
//! (`pixel_block`), and a row-major 2-D container (`array2`).
//!
//! The floating-point layers (colorspace conversion, luma decomposition,
//! coefficient scaling, the chroma table) sit outside this crate: they drive
//! these verified layers but cannot be verified themselves.

pub mod array2;
pub mod bitpack;
pub mod codec;
pub mod pixel_block;
pub mod quantize;
