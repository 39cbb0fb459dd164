//! Surfaces: image data with dimensions, array layers, mipmaps and a format.
use vstd::prelude::*;
use crate::error::SurfaceError;
use crate::format::{ImageFormat, spec_block_dimensions, spec_block_size_in_bytes};
use crate::layout::{
    bit_length, calculate_offset, max_mipmap_count, mip_dimension, mip_size,
    spec_calculate_offset, spec_mip_dimension, spec_mip_size,
};

verus! {

/// Data that can be read as a slice of elements.
pub trait AsElements<E> {
    /// The elements of the data.
    spec fn spec_elements(&self) -> Seq<E>;

    fn elements(&self) -> (r: &[E])
        ensures
            r@ == self.spec_elements(),
    ;
}

impl<E> AsElements<E> for Vec<E> {
    open spec fn spec_elements(&self) -> Seq<E> {
        self@
    }

    fn elements(&self) -> (r: &[E]) {
        self.as_slice()
    }
}

impl<'a, E> AsElements<E> for &'a [E] {
    open spec fn spec_elements(&self) -> Seq<E> {
        (*self)@
    }

    fn elements(&self) -> (r: &[E]) {
        *self
    }
}

impl<'a, E, const N: usize> AsElements<E> for &'a [E; N] {
    open spec fn spec_elements(&self) -> Seq<E> {
        (*self)@
    }

    fn elements(&self) -> (r: &[E]) {
        (*self).as_slice()
    }
}

/// A surface with an image format known at runtime.
#[derive(Debug, PartialEq, Clone, Copy)]
pub struct Surface<T> {
    /// The width of the surface in pixels.
    pub width: u32,
    /// The height of the surface in pixels.
    pub height: u32,
    /// The depth of the surface in pixels.
    /// This should be `1` for 2D surfaces.
    pub depth: u32,
    /// The number of array layers in the surface.
    /// This should be `1` for most surfaces and `6` for cube maps.
    pub layers: u32,
    /// The number of mipmaps in the surface.
    /// This should be `1` if the surface has only the base mip level.
    /// All array layers are assumed to have the same number of mipmaps.
    pub mipmaps: u32,
    /// The format of the bytes in [data](#structfield.data).
    pub image_format: ImageFormat,
    /// The combined image data ordered by layer and then mipmap without additional padding.
    ///
    /// A surface with L layers and M mipmaps would have the following layout:
    /// Layer 0 Mip 0, Layer 0 Mip 1,  ..., Layer L-1 Mip M-1
    pub data: T,
}

/// An uncompressed [ImageFormat::Rgba8Unorm] surface with 4 bytes per pixel.
#[derive(Debug, PartialEq, Clone, Copy)]
pub struct SurfaceRgba8<T> {
    /// The width of the surface in pixels.
    pub width: u32,
    /// The height of the surface in pixels.
    pub height: u32,
    /// The depth of the surface in pixels.
    /// This should be `1` for 2D surfaces.
    pub depth: u32,
    /// The number of array layers in the surface.
    /// This should be `1` for most surfaces and `6` for cube maps.
    pub layers: u32,
    /// The number of mipmaps in the surface.
    /// This should be `1` if the surface has only the base mip level.
    /// All array layers are assumed to have the same number of mipmaps.
    pub mipmaps: u32,
    /// The combined image data ordered by layer and then mipmap without additional padding.
    ///
    /// A surface with L layers and M mipmaps would have the following layout:
    /// Layer 0 Mip 0, Layer 0 Mip 1,  ..., Layer L-1 Mip M-1
    pub data: T,
}

/// An uncompressed [ImageFormat::Rgba32Float] surface with 16 bytes per pixel, whose data
/// holds 4 byte elements, one per channel.
#[derive(Debug, PartialEq, Clone, Copy)]
pub struct SurfaceRgba32Float<T> {
    /// The width of the surface in pixels.
    pub width: u32,
    /// The height of the surface in pixels.
    pub height: u32,
    /// The depth of the surface in pixels.
    /// This should be `1` for 2D surfaces.
    pub depth: u32,
    /// The number of array layers in the surface.
    /// This should be `1` for most surfaces and `6` for cube maps.
    pub layers: u32,
    /// The number of mipmaps in the surface.
    /// This should be `1` if the surface has only the base mip level.
    /// All array layers are assumed to have the same number of mipmaps.
    pub mipmaps: u32,
    /// The combined channel data ordered by layer and then mipmap without additional padding.
    ///
    /// A surface with L layers and M mipmaps would have the following layout:
    /// Layer 0 Mip 0, Layer 0 Mip 1,  ..., Layer L-1 Mip M-1
    pub data: T,
}

/// The range of elements, of `element_size` bytes each, that holds depth slice `depth_level`
/// of mipmap `mipmap` of array layer `layer` of a surface in `format`, if its offset and size
/// are representable and it lies within `data_len` elements.
pub open spec fn spec_mipmap_range(
    data_len: nat,
    dimensions: (u32, u32, u32),
    mipmaps: u32,
    format: ImageFormat,
    layer: u32,
    depth_level: u32,
    mipmap: u32,
    element_size: usize,
) -> Option<(int, int)> {
    let block_dimensions = spec_block_dimensions(format);
    let offset = spec_calculate_offset(
        layer,
        depth_level,
        mipmap,
        dimensions,
        block_dimensions,
        spec_block_size_in_bytes(format),
        mipmaps,
    );
    let size = spec_mip_size(
        spec_mip_dimension(dimensions.0, mipmap) as usize,
        spec_mip_dimension(dimensions.1, mipmap) as usize,
        1,
        block_dimensions.0 as usize,
        block_dimensions.1 as usize,
        block_dimensions.2 as usize,
        spec_block_size_in_bytes(format),
    );
    match (offset, size) {
        (Some(o), Some(s)) => {
            let start = o / element_size;
            let end = start + s / element_size;
            if end <= data_len && end <= usize::MAX {
                Some((start as int, end as int))
            } else {
                None
            }
        },
        _ => None,
    }
}

/// The elements of `data` that hold depth slice `depth_level` of mipmap `mipmap` of array
/// layer `layer`, where each element has `element_size` bytes.
pub fn get_mipmap<'a, E>(
    data: &'a [E],
    dimensions: (u32, u32, u32),
    mipmaps: u32,
    format: ImageFormat,
    layer: u32,
    depth_level: u32,
    mipmap: u32,
    element_size: usize,
) -> (r: Option<&'a [E]>)
    requires
        mipmap < 32,
        mipmaps <= 32,
        element_size > 0,
    ensures
        match spec_mipmap_range(
            data@.len(),
            dimensions,
            mipmaps,
            format,
            layer,
            depth_level,
            mipmap,
            element_size,
        ) {
            None => r is None,
            Some((start, end)) => r matches Some(s) && s@ == data@.subrange(start, end),
        },
{
    let (width, height, depth) = dimensions;
    let block_size_in_bytes = format.block_size_in_bytes();
    let block_dimensions = format.block_dimensions();
    let offset_in_bytes = calculate_offset(
        layer,
        depth_level,
        mipmap,
        (width, height, depth),
        block_dimensions,
        block_size_in_bytes,
        mipmaps,
    );
    let offset_in_bytes = match offset_in_bytes {
        None => return None,
        Some(o) => o,
    };
    // The returned slice is always 2D.
    let mip_width = mip_dimension(width, mipmap);
    let mip_height = mip_dimension(height, mipmap);
    let size_in_bytes = mip_size(
        mip_width as usize,
        mip_height as usize,
        1,
        block_dimensions.0 as usize,
        block_dimensions.1 as usize,
        block_dimensions.2 as usize,
        block_size_in_bytes,
    );
    let size_in_bytes = match size_in_bytes {
        None => return None,
        Some(s) => s,
    };
    let start = offset_in_bytes / element_size;
    let count = size_in_bytes / element_size;
    match start.checked_add(count) {
        None => None,
        Some(end) => {
            if end <= data.len() {
                Some(&data[start..end])
            } else {
                None
            }
        },
    }
}

/// The first `n` depth slices of mipmap `mipmap`, taken layer by layer and, in each layer,
/// slice by slice: slice `k` is depth slice `k % depth` of array layer `k / depth`. The
/// concatenated elements of those slices, or `None` if one of them lies outside `data`.
pub open spec fn stacked_slices<E>(
    data: Seq<E>,
    dimensions: (u32, u32, u32),
    mipmaps: u32,
    format: ImageFormat,
    mipmap: u32,
    element_size: usize,
    n: nat,
) -> Option<Seq<E>>
    decreases n,
{
    if n == 0 {
        Some(Seq::empty())
    } else {
        match stacked_slices(data, dimensions, mipmaps, format, mipmap, element_size, (n - 1) as nat) {
            None => None,
            Some(acc) => match spec_mipmap_range(
                data.len(),
                dimensions,
                mipmaps,
                format,
                ((n - 1) / dimensions.2 as int) as u32,
                ((n - 1) % dimensions.2 as int) as u32,
                mipmap,
                element_size,
            ) {
                None => None,
                Some((start, end)) => Some(acc + data.subrange(start, end)),
            },
        }
    }
}

/// Once a slice lies outside the data, so do all longer runs of slices.
proof fn lemma_stacked_slices_none<E>(
    data: Seq<E>,
    dimensions: (u32, u32, u32),
    mipmaps: u32,
    format: ImageFormat,
    mipmap: u32,
    element_size: usize,
    k: nat,
    n: nat,
)
    requires
        k <= n,
        stacked_slices(data, dimensions, mipmaps, format, mipmap, element_size, k) is None,
    ensures
        stacked_slices(data, dimensions, mipmaps, format, mipmap, element_size, n) is None,
    decreases n - k,
{
    if k < n {
        lemma_stacked_slices_none(data, dimensions, mipmaps, format, mipmap, element_size, (k + 1) as nat, n);
    }
}

/// Append the elements of `s` to `out`.
fn append_elements<E: Copy>(out: &mut Vec<E>, s: &[E])
    ensures
        final(out)@ == old(out)@ + s@,
{
    let ghost start = out@;
    let mut i: usize = 0;
    while i < s.len()
        invariant
            i <= s@.len(),
            out@ == start + s@.subrange(0, i as int),
        decreases s@.len() - i,
    {
        out.push(s[i]);
        assert(out@ =~= start + s@.subrange(0, i + 1));
        i += 1;
    }
    assert(s@.subrange(0, s@.len() as int) =~= s@);
}

/// The elements of every depth slice of mipmap `mipmap` in each of the first `layers` array
/// layers, layer by layer and slice by slice, where the base `depth` gives the slices of a
/// layer and each element has `element_size` bytes. `None` if a slice lies outside `data`.
pub fn stack_slices<E: Copy>(
    data: &[E],
    dimensions: (u32, u32, u32),
    mipmaps: u32,
    format: ImageFormat,
    layers: u32,
    mipmap: u32,
    element_size: usize,
) -> (r: Option<Vec<E>>)
    requires
        mipmap < 32,
        mipmaps <= 32,
        element_size > 0,
    ensures
        match stacked_slices(data@, dimensions, mipmaps, format, mipmap, element_size, (layers * dimensions.2) as nat) {
            None => r is None,
            Some(s) => r matches Some(v) && v@ == s,
        },
{
    let depth = dimensions.2;
    let ghost n: nat = (layers * depth) as nat;
    let mut out: Vec<E> = Vec::new();
    let mut layer: u32 = 0;
    while layer < layers
        invariant
            layer <= layers,
            depth == dimensions.2,
            n == layers * depth,
            mipmap < 32,
            mipmaps <= 32,
            element_size > 0,
            stacked_slices(data@, dimensions, mipmaps, format, mipmap, element_size, (layer * depth) as nat)
                == Some(out@),
        decreases layers - layer,
    {
        let mut level: u32 = 0;
        while level < depth
            invariant
                layer < layers,
                level <= depth,
                depth == dimensions.2,
                n == layers * depth,
                mipmap < 32,
                mipmaps <= 32,
                element_size > 0,
                stacked_slices(data@, dimensions, mipmaps, format, mipmap, element_size, (layer * depth + level) as nat)
                    == Some(out@),
            decreases depth - level,
        {
            let ghost k: int = layer * depth + level;
            assert(k / depth as int == layer && k % depth as int == level) by {
                vstd::arithmetic::div_mod::lemma_fundamental_div_mod_converse(
                    k,
                    depth as int,
                    layer as int,
                    level as int,
                );
            }
            assert((layer + 1) * depth <= n) by (nonlinear_arith)
                requires
                    layer < layers,
                    n == layers * depth,
            ;
            assert(k + 1 <= (layer + 1) * depth) by (nonlinear_arith)
                requires
                    k == layer * depth + level,
                    level < depth,
            ;
            match get_mipmap(data, dimensions, mipmaps, format, layer, level, mipmap, element_size) {
                None => {
                    proof {
                        lemma_stacked_slices_none(
                            data@,
                            dimensions,
                            mipmaps,
                            format,
                            mipmap,
                            element_size,
                            (k + 1) as nat,
                            n,
                        );
                    }
                    return None;
                },
                Some(s) => {
                    append_elements(&mut out, s);
                },
            }
            level += 1;
        }
        assert(layer * depth + depth == (layer + 1) * depth) by (nonlinear_arith);
        layer += 1;
    }
    Some(out)
}

/// The first `n` depth slices of mipmap `mipmap` of array layer `layer`, concatenated, or
/// `None` if one of them lies outside `data`.
pub open spec fn layer_slices<E>(
    data: Seq<E>,
    dimensions: (u32, u32, u32),
    mipmaps: u32,
    format: ImageFormat,
    layer: u32,
    mipmap: u32,
    element_size: usize,
    n: nat,
) -> Option<Seq<E>>
    decreases n,
{
    if n == 0 {
        Some(Seq::empty())
    } else {
        match layer_slices(data, dimensions, mipmaps, format, layer, mipmap, element_size, (n - 1) as nat) {
            None => None,
            Some(acc) => match spec_mipmap_range(
                data.len(),
                dimensions,
                mipmaps,
                format,
                layer,
                (n - 1) as u32,
                mipmap,
                element_size,
            ) {
                None => None,
                Some((start, end)) => Some(acc + data.subrange(start, end)),
            },
        }
    }
}

/// Once a depth slice lies outside the data, so does every longer run of slices.
pub proof fn lemma_layer_slices_none<E>(
    data: Seq<E>,
    dimensions: (u32, u32, u32),
    mipmaps: u32,
    format: ImageFormat,
    layer: u32,
    mipmap: u32,
    element_size: usize,
    k: nat,
    n: nat,
)
    requires
        k <= n,
        layer_slices(data, dimensions, mipmaps, format, layer, mipmap, element_size, k) is None,
    ensures
        layer_slices(data, dimensions, mipmaps, format, layer, mipmap, element_size, n) is None,
    decreases n - k,
{
    if k < n {
        lemma_layer_slices_none(data, dimensions, mipmaps, format, layer, mipmap, element_size, k, (n - 1) as nat);
    }
}

/// The elements of the depth slices of mipmap `mipmap` of array layer `layer`, one for each
/// level of the base depth, or `None` if one of them lies outside `data`.
pub fn layer_mip_slices<E: Copy>(
    data: &[E],
    dimensions: (u32, u32, u32),
    mipmaps: u32,
    format: ImageFormat,
    layer: u32,
    mipmap: u32,
    element_size: usize,
) -> (r: Option<Vec<E>>)
    requires
        mipmap < 32,
        mipmaps <= 32,
        element_size > 0,
    ensures
        match layer_slices(data@, dimensions, mipmaps, format, layer, mipmap, element_size, dimensions.2 as nat) {
            None => r is None,
            Some(s) => r matches Some(v) && v@ == s,
        },
{
    let mut out: Vec<E> = Vec::new();
    let mut level: u32 = 0;
    while level < dimensions.2
        invariant
            level <= dimensions.2,
            mipmap < 32,
            mipmaps <= 32,
            element_size > 0,
            layer_slices(data@, dimensions, mipmaps, format, layer, mipmap, element_size, level as nat)
                == Some(out@),
        decreases dimensions.2 - level,
    {
        match get_mipmap(data, dimensions, mipmaps, format, layer, level, mipmap, element_size) {
            None => {
                proof {
                    lemma_layer_slices_none(
                        data@,
                        dimensions,
                        mipmaps,
                        format,
                        layer,
                        mipmap,
                        element_size,
                        (level + 1) as nat,
                        dimensions.2 as nat,
                    );
                }
                return None;
            },
            Some(slice) => {
                append_elements(&mut out, slice);
            },
        }
        level += 1;
    }
    Some(out)
}

/// The largest of three dimensions.
pub open spec fn max3(a: u32, b: u32, c: u32) -> u32 {
    let ab = if a >= b { a } else { b };
    if ab >= c { ab } else { c }
}

/// The outcome of checking a `width` x `height` x `depth` surface with `mipmaps` mipmaps in
/// `format` against `data_len` bytes of data: the dimensions must hold pixels, the mipmap
/// count must not exceed the levels down to 1 pixel, and the data must hold the base level
/// of one layer.
pub open spec fn spec_validate(
    width: u32,
    height: u32,
    depth: u32,
    mipmaps: u32,
    format: ImageFormat,
    data_len: nat,
) -> Result<(), SurfaceError> {
    let block_dimensions = spec_block_dimensions(format);
    let max_mipmaps = bit_length(max3(width, height, depth) as nat) as u32;
    let base_size = spec_mip_size(
        width as usize,
        height as usize,
        depth as usize,
        block_dimensions.0 as usize,
        block_dimensions.1 as usize,
        block_dimensions.2 as usize,
        spec_block_size_in_bytes(format),
    );
    if width == 0 || height == 0 || depth == 0 {
        Err(SurfaceError::ZeroSizedSurface { width, height, depth })
    } else if mipmaps > max_mipmaps {
        Err(SurfaceError::UnexpectedMipmapCount { mipmaps, max_mipmaps })
    } else {
        match base_size {
            None => Err(SurfaceError::PixelCountWouldOverflow { width, height, depth }),
            Some(s) => if s > data_len {
                Err(SurfaceError::NotEnoughData { expected: s, actual: data_len as usize })
            } else {
                Ok(())
            },
        }
    }
}

/// Check the dimensions, mipmap count and data length of a surface.
pub fn validate_surface(
    width: u32,
    height: u32,
    depth: u32,
    mipmaps: u32,
    format: ImageFormat,
    data_len: usize,
) -> (r: Result<(), SurfaceError>)
    ensures
        r == spec_validate(width, height, depth, mipmaps, format, data_len as nat),
{
    if width == 0 || height == 0 || depth == 0 {
        return Err(SurfaceError::ZeroSizedSurface { width, height, depth });
    }
    let wh = if width >= height { width } else { height };
    let whd = if wh >= depth { wh } else { depth };
    let max_mipmaps = max_mipmap_count(whd);
    if mipmaps > max_mipmaps {
        return Err(SurfaceError::UnexpectedMipmapCount { mipmaps, max_mipmaps });
    }
    let (block_width, block_height, block_depth) = format.block_dimensions();
    let block_size_in_bytes = format.block_size_in_bytes();
    let base_layer_size = mip_size(
        width as usize,
        height as usize,
        depth as usize,
        block_width as usize,
        block_height as usize,
        block_depth as usize,
        block_size_in_bytes,
    );
    match base_layer_size {
        None => Err(SurfaceError::PixelCountWouldOverflow { width, height, depth }),
        Some(s) => {
            // Only the base level of one layer is checked here; a layer or mipmap past the
            // end of the data is found when it is read.
            if s > data_len {
                Err(SurfaceError::NotEnoughData { expected: s, actual: data_len })
            } else {
                Ok(())
            }
        },
    }
}

impl<T: AsElements<u8>> Surface<T> {
    /// Get the range of image data corresponding to the specified `layer`, `depth_level`, and `mipmap`.
    ///
    /// The dimensions of the returned data should be calculated using [mip_dimension].
    /// Returns [None] if the expected range is not fully contained within the buffer.
    pub fn get(&self, layer: u32, depth_level: u32, mipmap: u32) -> (r: Option<&[u8]>)
        requires
            mipmap < 32,
            self.mipmaps <= 32,
        ensures
            match spec_mipmap_range(
                self.data.spec_elements().len(),
                (self.width, self.height, self.depth),
                self.mipmaps,
                self.image_format,
                layer,
                depth_level,
                mipmap,
                1,
            ) {
                None => r is None,
                Some((start, end)) => r matches Some(s) && s@ == self.data.spec_elements().subrange(
                    start,
                    end,
                ),
            },
    {
        get_mipmap(
            self.data.elements(),
            (self.width, self.height, self.depth),
            self.mipmaps,
            self.image_format,
            layer,
            depth_level,
            mipmap,
            1,
        )
    }

    /// Check the dimensions, mipmap count and data length of the surface.
    pub fn validate(&self) -> (r: Result<(), SurfaceError>)
        ensures
            r == spec_validate(
                self.width,
                self.height,
                self.depth,
                self.mipmaps,
                self.image_format,
                self.data.spec_elements().len(),
            ),
    {
        validate_surface(
            self.width,
            self.height,
            self.depth,
            self.mipmaps,
            self.image_format,
            self.data.elements().len(),
        )
    }
}

impl<T> Surface<Vec<T>> {
    /// Convert to a surface with borrowed data.
    pub fn as_ref(&self) -> (r: Surface<&[T]>)
        ensures
            r.width == self.width,
            r.height == self.height,
            r.depth == self.depth,
            r.layers == self.layers,
            r.mipmaps == self.mipmaps,
            r.image_format == self.image_format,
            r.data@ == self.data@,
    {
        Surface {
            width: self.width,
            height: self.height,
            depth: self.depth,
            layers: self.layers,
            mipmaps: self.mipmaps,
            image_format: self.image_format,
            data: self.data.as_slice(),
        }
    }
}

impl<T> SurfaceRgba8<Vec<T>> {
    /// Convert to a surface with borrowed data.
    pub fn as_ref(&self) -> (r: SurfaceRgba8<&[T]>)
        ensures
            r.width == self.width,
            r.height == self.height,
            r.depth == self.depth,
            r.layers == self.layers,
            r.mipmaps == self.mipmaps,
            r.data@ == self.data@,
    {
        SurfaceRgba8 {
            width: self.width,
            height: self.height,
            depth: self.depth,
            layers: self.layers,
            mipmaps: self.mipmaps,
            data: self.data.as_slice(),
        }
    }
}

impl<T: AsElements<u8>> SurfaceRgba8<T> {
    /// Get the range of 2D image data corresponding to the specified `layer`, `depth_level`, and `mipmap`.
    ///
    /// The dimensions of the returned data should be calculated using [mip_dimension].
    /// Returns [None] if the expected range is not fully contained within the buffer.
    pub fn get(&self, layer: u32, depth_level: u32, mipmap: u32) -> (r: Option<&[u8]>)
        requires
            mipmap < 32,
            self.mipmaps <= 32,
        ensures
            match spec_mipmap_range(
                self.data.spec_elements().len(),
                (self.width, self.height, self.depth),
                self.mipmaps,
                ImageFormat::Rgba8Unorm,
                layer,
                depth_level,
                mipmap,
                1,
            ) {
                None => r is None,
                Some((start, end)) => r matches Some(s) && s@ == self.data.spec_elements().subrange(
                    start,
                    end,
                ),
            },
    {
        get_mipmap(
            self.data.elements(),
            (self.width, self.height, self.depth),
            self.mipmaps,
            ImageFormat::Rgba8Unorm,
            layer,
            depth_level,
            mipmap,
            1,
        )
    }

    /// Check the dimensions, mipmap count and data length of the surface.
    pub fn validate(&self) -> (r: Result<(), SurfaceError>)
        ensures
            r == spec_validate(
                self.width,
                self.height,
                self.depth,
                self.mipmaps,
                ImageFormat::Rgba8Unorm,
                self.data.spec_elements().len(),
            ),
    {
        validate_surface(
            self.width,
            self.height,
            self.depth,
            self.mipmaps,
            ImageFormat::Rgba8Unorm,
            self.data.elements().len(),
        )
    }

    /// The data of every array layer and depth slice of `mipmap`, arranged from top to
    /// bottom: layer by layer and, in each layer, one slice for each level of the base depth.
    /// Returns [None] if one of those slices is not fully contained within the buffer.
    pub fn image_data(&self, mipmap: u32) -> (r: Option<Vec<u8>>)
        requires
            mipmap < 32,
            self.mipmaps <= 32,
        ensures
            match stacked_slices(
                self.data.spec_elements(),
                (self.width, self.height, self.depth),
                self.mipmaps,
                ImageFormat::Rgba8Unorm,
                mipmap,
                1,
                (self.layers * self.depth) as nat,
            ) {
                None => r is None,
                Some(s) => r matches Some(v) && v@ == s,
            },
    {
        stack_slices(
            self.data.elements(),
            (self.width, self.height, self.depth),
            self.mipmaps,
            ImageFormat::Rgba8Unorm,
            self.layers,
            mipmap,
            1,
        )
    }
}

impl<T> SurfaceRgba32Float<Vec<T>> {
    /// Convert to a surface with borrowed data.
    pub fn as_ref(&self) -> (r: SurfaceRgba32Float<&[T]>)
        ensures
            r.width == self.width,
            r.height == self.height,
            r.depth == self.depth,
            r.layers == self.layers,
            r.mipmaps == self.mipmaps,
            r.data@ == self.data@,
    {
        SurfaceRgba32Float {
            width: self.width,
            height: self.height,
            depth: self.depth,
            layers: self.layers,
            mipmaps: self.mipmaps,
            data: self.data.as_slice(),
        }
    }
}

impl<T> SurfaceRgba32Float<T> {
    /// Get the range of 2D channel data corresponding to the specified `layer`, `depth_level`, and `mipmap`.
    ///
    /// The dimensions of the returned data should be calculated using [mip_dimension].
    /// Returns [None] if the expected range is not fully contained within the buffer.
    pub fn get<E>(&self, layer: u32, depth_level: u32, mipmap: u32) -> (r: Option<&[E]>)
        where
            T: AsElements<E>,
        requires
            mipmap < 32,
            self.mipmaps <= 32,
        ensures
            match spec_mipmap_range(
                self.data.spec_elements().len(),
                (self.width, self.height, self.depth),
                self.mipmaps,
                ImageFormat::Rgba32Float,
                layer,
                depth_level,
                mipmap,
                4,
            ) {
                None => r is None,
                Some((start, end)) => r matches Some(s) && s@ == self.data.spec_elements().subrange(
                    start,
                    end,
                ),
            },
    {
        get_mipmap(
            self.data.elements(),
            (self.width, self.height, self.depth),
            self.mipmaps,
            ImageFormat::Rgba32Float,
            layer,
            depth_level,
            mipmap,
            4,
        )
    }

    /// The channel data of the depth slices of `mipmap` of array layer `layer`, one for each
    /// level of the base depth, or [None] if one of them is not fully contained within the
    /// buffer.
    pub fn layer_data<E: Copy>(&self, layer: u32, mipmap: u32) -> (r: Option<Vec<E>>)
        where
            T: AsElements<E>,
        requires
            mipmap < 32,
            self.mipmaps <= 32,
        ensures
            match layer_slices(
                self.data.spec_elements(),
                (self.width, self.height, self.depth),
                self.mipmaps,
                ImageFormat::Rgba32Float,
                layer,
                mipmap,
                4,
                self.depth as nat,
            ) {
                None => r is None,
                Some(s) => r matches Some(v) && v@ == s,
            },
    {
        layer_mip_slices(
            self.data.elements(),
            (self.width, self.height, self.depth),
            self.mipmaps,
            ImageFormat::Rgba32Float,
            layer,
            mipmap,
            4,
        )
    }

    /// The channel data of every array layer and depth slice of `mipmap`, layer by layer
    /// and, in each layer, one slice for each level of the base depth.
    /// Returns [None] if one of those slices is not fully contained within the buffer.
    pub fn image_data<E: Copy>(&self, mipmap: u32) -> (r: Option<Vec<E>>)
        where
            T: AsElements<E>,
        requires
            mipmap < 32,
            self.mipmaps <= 32,
        ensures
            match stacked_slices(
                self.data.spec_elements(),
                (self.width, self.height, self.depth),
                self.mipmaps,
                ImageFormat::Rgba32Float,
                mipmap,
                4,
                (self.layers * self.depth) as nat,
            ) {
                None => r is None,
                Some(s) => r matches Some(v) && v@ == s,
            },
    {
        stack_slices(
            self.data.elements(),
            (self.width, self.height, self.depth),
            self.mipmaps,
            ImageFormat::Rgba32Float,
            self.layers,
            mipmap,
            4,
        )
    }

    /// Check the dimensions, mipmap count and data length of the surface, where each
    /// element of the data holds 4 bytes.
    pub fn validate<E>(&self) -> (r: Result<(), SurfaceError>)
        where
            T: AsElements<E>,
        ensures
            r == spec_validate(
                self.width,
                self.height,
                self.depth,
                self.mipmaps,
                ImageFormat::Rgba32Float,
                if self.data.spec_elements().len() * 4 > usize::MAX {
                    usize::MAX as nat
                } else {
                    self.data.spec_elements().len() * 4
                },
            ),
    {
        let len = self.data.elements().len();
        let bytes = if len > usize::MAX / 4 { usize::MAX } else { len * 4 };
        validate_surface(
            self.width,
            self.height,
            self.depth,
            self.mipmaps,
            ImageFormat::Rgba32Float,
            bytes,
        )
    }
}

} // verus!
