//! Conversion between uncompressed RGBA data and the block compressed and
//! uncompressed texture formats used by DDS files and GPUs.
//!
//! The decoders for the BCn block formats, the pixel format conversions, the surface
//! layout arithmetic, mipmap generation, the encoding of surfaces with the input prepared
//! for the block compressors and the DDS format tables are verified against their
//! contracts. The block compressor of `intel_tex_2` is called behind trusted wrappers.
use vstd::prelude::*;

pub mod format;
pub mod layout;
pub mod bcdec;
pub mod bitstream;
pub mod bc6h;
pub mod bc7;
pub mod bc7_partitions;
pub mod convert;
pub mod rounding;
pub mod bc45;
pub mod floatbits;
pub mod error;
pub mod rgba;
pub mod surface;
pub mod bcn;
pub mod bcn_encode;
pub mod decode;
pub mod mipgen;
pub mod encode;
pub mod laws;
pub mod encoded_size;
pub mod compress;
pub mod surface_roundtrip;
pub mod dds;

pub use error::{CompressSurfaceError, CreateImageError, DecompressSurfaceError, SurfaceError};
pub use format::{ImageFormat, Mipmaps, Quality};
pub use layout::mip_dimension;
pub use surface::{Surface, SurfaceRgba32Float, SurfaceRgba8};

verus! {

} // verus!
