#![verifier::loop_isolation(false)]
//! QR Code symbol encoding engine with verified contracts.
//!
//! The core turns a payload into an immutable module matrix: segmentation
//! into mode-tagged bit segments, version selection under a capacity and
//! error-correction constraint, Reed-Solomon coding over GF(256), codeword
//! interleaving, function-pattern stamping, zigzag data placement, and the
//! eight-mask evaluation that fixes the final grid.

pub mod bits;
pub mod cli;
pub mod codewords;
pub mod ecc;
pub mod format;
pub mod gf256;
pub mod matrix;
pub mod models;
pub mod qrcode;
pub mod render;
pub mod segment;
pub mod shared;
pub mod tables;
