//! Images of the OpenGL backend: textures and renderbuffers.
//!
//! What is decided here is which storage to ask the driver for, and whether
//! the data of an upload fits the region it is meant for. Asking, and
//! creating and deleting the objects, is left to whoever owns the GL context.

use crate::flags::{Format, ImageUsageFlags, texel_size};
use crate::image::{
    Dimensions, MipmapsCount, extent_of, get_texture_mip_map_count, longer, mip_chain_length,
};
use vstd::prelude::*;

verus! {

pub const TEXTURE_1D: u32 = 0x0DE0;

pub const TEXTURE_2D: u32 = 0x0DE1;

pub const TEXTURE_3D: u32 = 0x806F;

pub const RENDERBUFFER: u32 = 0x8D41;

pub const CLAMP_TO_EDGE: u32 = 0x812F;

pub const NEAREST: u32 = 0x2600;

/// Why an image cannot be had in this backend.
#[derive(Clone, Copy, Debug, PartialEq, Eq, Structural)]
pub enum ImageError {
    /// A multisampled image has one mip level and no more.
    MultisampleMipmaps,
    /// Images of this shape are not supported.
    UnsupportedDimensions,
    /// A size or an offset is beyond what the driver's interface can express.
    TooLarge,
    /// The data is not as long as the region it is meant for.
    DataSizeMismatch,
    /// The target is none that takes uploads.
    UnsupportedTarget,
}

/// What an image of this backend is.
#[derive(Copy, Clone, Debug, Eq, PartialEq, Hash, Structural)]
pub struct ImageDescription {
    pub format: Format,
    pub dimensions: Dimensions,
    pub mipcount: u32,
    pub samples: u32,
    pub usage: ImageUsageFlags,
}

/// The number of mip levels of an image: the whole chain of its longer side,
/// one level, or the number asked for. A multisampled image cannot have a
/// number of levels other than one.
pub open spec fn mip_levels(
    width: u32,
    height: u32,
    mipmaps_count: MipmapsCount,
    samples: u32,
) -> Result<u32, ImageError> {
    match mipmaps_count {
        MipmapsCount::Log2 => Ok(mip_chain_length(longer(width, height) as nat) as u32),
        MipmapsCount::Specific(count) => if samples > 1 && count != 1 {
            Err(ImageError::MultisampleMipmaps)
        } else {
            Ok(count)
        },
        MipmapsCount::One => Ok(1),
    }
}

fn count_mip_levels(width: u32, height: u32, mipmaps_count: MipmapsCount, samples: u32) -> (result:
    Result<u32, ImageError>)
    ensures
        result == mip_levels(width, height, mipmaps_count, samples),
{
    match mipmaps_count {
        MipmapsCount::Log2 => {
            let side = if width >= height {
                width
            } else {
                height
            };
            Ok(get_texture_mip_map_count(side))
        },
        MipmapsCount::Specific(count) => {
            if samples > 1 && count != 1 {
                Err(ImageError::MultisampleMipmaps)
            } else {
                Ok(count)
            }
        },
        MipmapsCount::One => Ok(1),
    }
}

impl ImageDescription {
    /// Describes an image, with the number of its mip levels worked out from
    /// its width and height.
    pub fn new(
        format: Format,
        dimensions: Dimensions,
        mipmaps_count: MipmapsCount,
        samples: u32,
        usage: ImageUsageFlags,
    ) -> (result: Result<ImageDescription, ImageError>)
        ensures
            result == match mip_levels(
                extent_of(dimensions).0,
                extent_of(dimensions).1,
                mipmaps_count,
                samples,
            ) {
                Ok(mipcount) => Ok::<ImageDescription, ImageError>(
                    ImageDescription { format, dimensions, mipcount, samples, usage },
                ),
                Err(e) => Err(e),
            },
    {
        let (w, h, _d) = dimensions.width_height_depth();
        match count_mip_levels(w, h, mipmaps_count, samples) {
            Ok(mipcount) => Ok(ImageDescription { format, dimensions, mipcount, usage, samples }),
            Err(e) => Err(e),
        }
    }
}

/// The texture target that holds an image of some shape, and the image's
/// extents.
#[derive(Clone, Copy, Debug, PartialEq, Eq, Structural)]
pub struct ExtentsAndType {
    pub target: u32,
    pub width: u32,
    pub height: u32,
    pub depth: u32,
    pub array_layers: u32,
}

/// The target and extents for an image of shape `dim`. Cube maps have none.
pub open spec fn extents_and_type(dim: Dimensions) -> Result<ExtentsAndType, ImageError> {
    match dim {
        Dimensions::Dim1d { width } => Ok(
            ExtentsAndType { target: TEXTURE_1D, width, height: 1, depth: 1, array_layers: 1 },
        ),
        Dimensions::Dim1dArray { width, array_layers } => Ok(
            ExtentsAndType { target: TEXTURE_2D, width, height: 1, depth: 1, array_layers },
        ),
        Dimensions::Dim2d { width, height } => Ok(
            ExtentsAndType { target: TEXTURE_2D, width, height, depth: 1, array_layers: 1 },
        ),
        Dimensions::Dim2dArray { width, height, array_layers } => Ok(
            ExtentsAndType { target: TEXTURE_2D, width, height, depth: 1, array_layers },
        ),
        Dimensions::Dim3d { width, height, depth } => Ok(
            ExtentsAndType { target: TEXTURE_3D, width, height, depth, array_layers: 1 },
        ),
        Dimensions::Cubemap { size } => Err(ImageError::UnsupportedDimensions),
        Dimensions::CubemapArray { size, array_layers } => Err(ImageError::UnsupportedDimensions),
    }
}

impl ExtentsAndType {
    /// The target and extents for an image of shape `dim`. Cube maps are not
    /// supported.
    pub fn from_dimensions(dim: &Dimensions) -> (result: Result<ExtentsAndType, ImageError>)
        ensures
            result == extents_and_type(*dim),
    {
        match *dim {
            Dimensions::Dim1d { width } => Ok(
                ExtentsAndType { target: TEXTURE_1D, width, height: 1, depth: 1, array_layers: 1 },
            ),
            Dimensions::Dim1dArray { width, array_layers } => Ok(
                ExtentsAndType { target: TEXTURE_2D, width, height: 1, depth: 1, array_layers },
            ),
            Dimensions::Dim2d { width, height } => Ok(
                ExtentsAndType { target: TEXTURE_2D, width, height, depth: 1, array_layers: 1 },
            ),
            Dimensions::Dim2dArray { width, height, array_layers } => Ok(
                ExtentsAndType { target: TEXTURE_2D, width, height, depth: 1, array_layers },
            ),
            Dimensions::Dim3d { width, height, depth } => Ok(
                ExtentsAndType { target: TEXTURE_3D, width, height, depth, array_layers: 1 },
            ),
            _ => Err(ImageError::UnsupportedDimensions),
        }
    }
}

/// The storage to ask the driver for, for a new texture.
#[derive(Clone, Copy, Debug, PartialEq, Eq, Structural)]
pub enum TextureStorage {
    Storage1D { levels: i32, width: i32 },
    Storage2D { levels: i32, width: i32, height: i32 },
    Storage2DMultisample { samples: i32, width: i32, height: i32, fixed_sample_locations: bool },
    Storage3D { levels: i32, width: i32, height: i32, depth: i32 },
}

/// What to ask of the driver to create a texture: an object for `target`,
/// with `storage` in `format`, wrapping as `wrap` says along every axis and
/// filtered as `filter` says for magnification and minification alike.
#[derive(Clone, Copy, Debug, PartialEq, Eq, Structural)]
pub struct TextureRequest {
    pub target: u32,
    pub format: Format,
    pub storage: TextureStorage,
    pub wrap: u32,
    pub filter: u32,
}

/// What to ask of the driver to create a renderbuffer: storage of `width` by
/// `height` in `format`, multisampled if `samples` says how many times.
#[derive(Clone, Copy, Debug, PartialEq, Eq, Structural)]
pub struct RenderbufferRequest {
    pub format: Format,
    pub samples: Option<i32>,
    pub width: i32,
    pub height: i32,
}

/// What to ask of the driver to delete an image.
#[derive(Clone, Copy, Debug, PartialEq, Eq, Structural)]
pub enum Deletion {
    Renderbuffer(u32),
    Texture(u32),
}

/// Whether the driver's interface, which counts in `i32`, can express `size`.
pub open spec fn fits(size: u32) -> bool {
    size <= i32::MAX
}

/// The storage of a texture on `target` with the extents `extents`, `levels`
/// mip levels and `samples` samples.
///
/// A two-dimensional texture with more than one sample gets multisampled
/// storage, which has no mip levels. A three-dimensional texture gets one
/// level. Targets other than the three texture targets have no storage.
pub open spec fn storage_for(extents: ExtentsAndType, levels: u32, samples: u32) -> Result<
    TextureStorage,
    ImageError,
> {
    if !fits(extents.width) || !fits(extents.height) || !fits(extents.depth) || !fits(levels)
        || !fits(samples) {
        Err(ImageError::TooLarge)
    } else if extents.target == TEXTURE_1D {
        Ok(TextureStorage::Storage1D { levels: levels as i32, width: extents.width as i32 })
    } else if extents.target == TEXTURE_2D {
        if samples > 1 {
            Ok(
                TextureStorage::Storage2DMultisample {
                    samples: samples as i32,
                    width: extents.width as i32,
                    height: extents.height as i32,
                    fixed_sample_locations: true,
                },
            )
        } else {
            Ok(
                TextureStorage::Storage2D {
                    levels: levels as i32,
                    width: extents.width as i32,
                    height: extents.height as i32,
                },
            )
        }
    } else if extents.target == TEXTURE_3D {
        Ok(
            TextureStorage::Storage3D {
                levels: 1,
                width: extents.width as i32,
                height: extents.height as i32,
                depth: extents.depth as i32,
            },
        )
    } else {
        Err(ImageError::UnsupportedTarget)
    }
}

/// What `RawImage::new_texture` answers.
pub open spec fn texture_request(
    format: Format,
    dimensions: Dimensions,
    mipmaps: MipmapsCount,
    samples: u32,
) -> Result<TextureRequest, ImageError> {
    match extents_and_type(dimensions) {
        Err(e) => Err(e),
        Ok(extents) => match mip_levels(extents.width, extents.height, mipmaps, samples) {
            Err(e) => Err(e),
            Ok(levels) => match storage_for(extents, levels, samples) {
                Err(e) => Err(e),
                Ok(storage) => Ok(
                    TextureRequest {
                        target: extents.target,
                        format,
                        storage,
                        wrap: CLAMP_TO_EDGE,
                        filter: NEAREST,
                    },
                ),
            },
        },
    }
}

/// What `RawImage::new_renderbuffer` answers.
pub open spec fn renderbuffer_request(format: Format, dimensions: Dimensions, samples: u32) -> Result<
    RenderbufferRequest,
    ImageError,
> {
    match extents_and_type(dimensions) {
        Err(e) => Err(e),
        Ok(extents) => if !fits(extents.width) || !fits(extents.height) || !fits(samples) {
            Err(ImageError::TooLarge)
        } else {
            Ok(
                RenderbufferRequest {
                    format,
                    samples: if samples > 1 {
                        Some(samples as i32)
                    } else {
                        None
                    },
                    width: extents.width as i32,
                    height: extents.height as i32,
                },
            )
        },
    }
}

fn storage(extents: &ExtentsAndType, levels: u32, samples: u32) -> (result: Result<
    TextureStorage,
    ImageError,
>)
    ensures
        result == storage_for(*extents, levels, samples),
{
    let limit: u32 = 0x7fff_ffff;
    if extents.width > limit || extents.height > limit || extents.depth > limit || levels > limit
        || samples > limit {
        return Err(ImageError::TooLarge);
    }
    let width = extents.width as i32;
    let height = extents.height as i32;
    if extents.target == TEXTURE_1D {
        Ok(TextureStorage::Storage1D { levels: levels as i32, width })
    } else if extents.target == TEXTURE_2D {
        if samples > 1 {
            Ok(
                TextureStorage::Storage2DMultisample {
                    samples: samples as i32,
                    width,
                    height,
                    fixed_sample_locations: true,
                },
            )
        } else {
            Ok(TextureStorage::Storage2D { levels: levels as i32, width, height })
        }
    } else if extents.target == TEXTURE_3D {
        Ok(TextureStorage::Storage3D { levels: 1, width, height, depth: extents.depth as i32 })
    } else {
        Err(ImageError::UnsupportedTarget)
    }
}

/// A texture or a renderbuffer of the driver.
#[derive(Copy, Clone, Debug)]
pub struct RawImage {
    pub obj: u32,
    pub target: u32,
}

impl RawImage {
    /// What to ask of the driver for a new texture of the given format, shape,
    /// mip levels and sample count.
    pub fn new_texture(format: Format, dimensions: &Dimensions, mipmaps: MipmapsCount, samples: u32) -> (result:
        Result<TextureRequest, ImageError>)
        ensures
            result == texture_request(format, *dimensions, mipmaps, samples),
    {
        let et = match ExtentsAndType::from_dimensions(dimensions) {
            Ok(et) => et,
            Err(e) => {
                return Err(e);
            },
        };
        let mipcount = match count_mip_levels(et.width, et.height, mipmaps, samples) {
            Ok(mipcount) => mipcount,
            Err(e) => {
                return Err(e);
            },
        };
        match storage(&et, mipcount, samples) {
            Ok(storage) => Ok(
                TextureRequest {
                    target: et.target,
                    format,
                    storage,
                    wrap: CLAMP_TO_EDGE,
                    filter: NEAREST,
                },
            ),
            Err(e) => Err(e),
        }
    }

    /// What to ask of the driver for a new renderbuffer of the given format,
    /// shape and sample count.
    pub fn new_renderbuffer(format: Format, dimensions: &Dimensions, samples: u32) -> (result: Result<
        RenderbufferRequest,
        ImageError,
    >)
        ensures
            result == renderbuffer_request(format, *dimensions, samples),
    {
        let et = match ExtentsAndType::from_dimensions(dimensions) {
            Ok(et) => et,
            Err(e) => {
                return Err(e);
            },
        };
        let limit: u32 = 0x7fff_ffff;
        if et.width > limit || et.height > limit || samples > limit {
            return Err(ImageError::TooLarge);
        }
        let samples = if samples > 1 {
            Some(samples as i32)
        } else {
            None
        };
        Ok(RenderbufferRequest { format, samples, width: et.width as i32, height: et.height as i32 })
    }

    /// Whether the image is a renderbuffer rather than a texture.
    pub fn is_renderbuffer(&self) -> (r: bool)
        ensures
            r == (self.target == RENDERBUFFER),
    {
        self.target == RENDERBUFFER
    }

    /// What to ask of the driver to delete the image.
    pub fn destroy(&self) -> (deletion: Deletion)
        ensures
            deletion == if self.target == RENDERBUFFER {
                Deletion::Renderbuffer(self.obj)
            } else {
                Deletion::Texture(self.obj)
            },
    {
        if self.target == RENDERBUFFER {
            Deletion::Renderbuffer(self.obj)
        } else {
            Deletion::Texture(self.obj)
        }
    }
}

/// What to ask of the driver to replace a region of a texture: the region of
/// mip level `mip_level` of `img` that starts at `x`, `y`, `z` and is `width`
/// by `height` by `depth` large, as far as the target has the axes, with rows
/// of data packed byte by byte.
#[derive(Clone, Copy, Debug, PartialEq, Eq, Structural)]
pub enum TextureUpload {
    SubImage1D { img: u32, format: Format, mip_level: i32, x: i32, width: i32 },
    SubImage2D {
        img: u32,
        format: Format,
        mip_level: i32,
        x: i32,
        y: i32,
        width: i32,
        height: i32,
    },
    SubImage3D {
        img: u32,
        format: Format,
        mip_level: i32,
        x: i32,
        y: i32,
        z: i32,
        width: i32,
        height: i32,
        depth: i32,
    },
}

/// The number of bytes that a region of `size` texels takes in `format`.
pub open spec fn region_bytes(format: Format, size: (u32, u32, u32)) -> nat {
    (size.0 * size.1 * size.2 * texel_size(format)) as nat
}

/// What `upload_image_region` answers.
pub open spec fn upload_request(
    target: u32,
    img: u32,
    format: Format,
    mip_level: i32,
    offset: (u32, u32, u32),
    size: (u32, u32, u32),
    data_len: nat,
) -> Result<TextureUpload, ImageError> {
    if data_len != region_bytes(format, size) {
        Err(ImageError::DataSizeMismatch)
    } else if target != TEXTURE_1D && target != TEXTURE_2D && target != TEXTURE_3D {
        Err(ImageError::UnsupportedTarget)
    } else if !fits(offset.0) || !fits(offset.1) || !fits(offset.2) || !fits(size.0) || !fits(size.1)
        || !fits(size.2) {
        Err(ImageError::TooLarge)
    } else if target == TEXTURE_1D {
        Ok(
            TextureUpload::SubImage1D {
                img,
                format,
                mip_level,
                x: offset.0 as i32,
                width: size.0 as i32,
            },
        )
    } else if target == TEXTURE_2D {
        Ok(
            TextureUpload::SubImage2D {
                img,
                format,
                mip_level,
                x: offset.0 as i32,
                y: offset.1 as i32,
                width: size.0 as i32,
                height: size.1 as i32,
            },
        )
    } else {
        Ok(
            TextureUpload::SubImage3D {
                img,
                format,
                mip_level,
                x: offset.0 as i32,
                y: offset.1 as i32,
                z: offset.2 as i32,
                width: size.0 as i32,
                height: size.1 as i32,
                depth: size.2 as i32,
            },
        )
    }
}

/// What to ask of the driver to upload `data` to a region of the texture
/// `img`.
///
/// The data must be exactly as long as the region is large in `fmt`; the
/// target must be one of the three texture targets; and the driver's
/// interface must be able to express the offsets and sizes.
pub fn upload_image_region(
    target: u32,
    img: u32,
    fmt: Format,
    mip_level: i32,
    offset: (u32, u32, u32),
    size: (u32, u32, u32),
    data: &[u8],
) -> (result: Result<TextureUpload, ImageError>)
    ensures
        result == upload_request(target, img, fmt, mip_level, offset, size, data@.len()),
{
    let texel = fmt.byte_size();
    assert(size.0 * size.1 <= 0xffff_ffff * 0xffff_ffff) by (nonlinear_arith)
        requires
            size.0 <= 0xffff_ffff,
            size.1 <= 0xffff_ffff,
    ;
    let area: u64 = size.0 as u64 * size.1 as u64;
    assert(size.0 * size.1 * size.2 <= 0xffff_ffff * 0xffff_ffff * 0xffff_ffff) by (nonlinear_arith)
        requires
            0 <= size.0 * size.1 <= 0xffff_ffff * 0xffff_ffff,
            size.2 <= 0xffff_ffff,
    ;
    let volume: u128 = area as u128 * size.2 as u128;
    assert(volume * texel <= 0xffff_ffff * 0xffff_ffff * 0xffff_ffff * 16) by (nonlinear_arith)
        requires
            0 <= volume <= 0xffff_ffff * 0xffff_ffff * 0xffff_ffff,
            texel <= 16,
    ;
    let bytes: u128 = volume * texel as u128;
    if data.len() as u128 != bytes {
        return Err(ImageError::DataSizeMismatch);
    }
    if target != TEXTURE_1D && target != TEXTURE_2D && target != TEXTURE_3D {
        return Err(ImageError::UnsupportedTarget);
    }
    let limit: u32 = 0x7fff_ffff;
    if offset.0 > limit || offset.1 > limit || offset.2 > limit || size.0 > limit || size.1 > limit
        || size.2 > limit {
        return Err(ImageError::TooLarge);
    }
    if target == TEXTURE_1D {
        Ok(
            TextureUpload::SubImage1D {
                img,
                format: fmt,
                mip_level,
                x: offset.0 as i32,
                width: size.0 as i32,
            },
        )
    } else if target == TEXTURE_2D {
        Ok(
            TextureUpload::SubImage2D {
                img,
                format: fmt,
                mip_level,
                x: offset.0 as i32,
                y: offset.1 as i32,
                width: size.0 as i32,
                height: size.1 as i32,
            },
        )
    } else {
        Ok(
            TextureUpload::SubImage3D {
                img,
                format: fmt,
                mip_level,
                x: offset.0 as i32,
                y: offset.1 as i32,
                z: offset.2 as i32,
                width: size.0 as i32,
                height: size.1 as i32,
                depth: size.2 as i32,
            },
        )
    }
}

} // verus!
