# image_dds

Conversion between uncompressed RGBA data and the block compressed (BCn) and uncompressed
texture formats of DDS files and GPUs, verified with Verus.

- `src/` is the verified library: the BCn block decoders, the pixel format conversions,
  the surface layout arithmetic, surface validation, decoding and encoding of surfaces
  with their array layers and mipmaps, mipmap generation, block compression through the
  ISPC compressor of `intel_tex_2` (`src/compress.rs`, behind wrappers whose contracts state
  the length of the blocks written), and the DDS format tables. `src/laws.rs`, `src/encoded_size.rs`,
  `src/convert.rs` and `src/dds.rs` hold the properties that relate several operations,
  such as reading back what was written.
- `app/` holds what the library hands to other crates: DDS files of `ddsfile`, images of `image`, conversions of floating point
  data, and copies of the library's types with `serde`, `strum` and `thiserror` derives.
- `tests/` runs the library on concrete values.
