//! A safe, verified core around an H.264 codec: the frame and picture data
//! model, the decisions taken on what the native codec reports, the removal
//! of stride padding from decoded planes and the re-framing of encoded NAL
//! units into one byte stream.
use vstd::prelude::*;

pub mod config;
pub mod decoder;
pub mod encoder;

verus! {

pub use crate::decoder::{Decoder, I420Frame};
pub use crate::encoder::{Encoder, I420Picture};

} // verus!
