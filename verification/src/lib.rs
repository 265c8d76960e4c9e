//! Decoder for the IDX binary format used to distribute labeled image
//! datasets (the canonical MNIST files).
//!
//! The decoders work on in-memory byte sources: a caller reads a file into a
//! `Vec<u8>` and hands the bytes here. Every decoding step — the big-endian
//! header fields, the magic-number and dimension validation, the fixed-size
//! pixel records — is specified against a mathematical model of the wire
//! format and verified.

use vstd::prelude::*;

pub mod dataset;
pub mod decode;
pub mod error;
pub mod image;

pub use dataset::Mnist;
pub use decode::{decode_images, decode_labels};
pub use error::MnistError;
pub use image::Image;

verus! {

/// Column count of an image in the canonical dataset.
pub const IMAGE_WIDTH: u32 = 28;

/// Row count of an image in the canonical dataset.
pub const IMAGE_HEIGHT: u32 = 28;

/// Pixels per image in the canonical dataset.
pub const NPIXELS: usize = 784;

} // verus!
