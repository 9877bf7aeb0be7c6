//! What an image is, apart from any backend: its dimensions and its mip chain.

use vstd::prelude::*;

verus! {

/// The shape and size of an image.
#[derive(Clone, Copy, Debug, PartialEq, Eq, Hash, Structural)]
pub enum Dimensions {
    Dim1d { width: u32 },
    Dim1dArray { width: u32, array_layers: u32 },
    Dim2d { width: u32, height: u32 },
    Dim2dArray { width: u32, height: u32, array_layers: u32 },
    Dim3d { width: u32, height: u32, depth: u32 },
    Cubemap { size: u32 },
    CubemapArray { size: u32, array_layers: u32 },
}

/// How many mip levels an image gets.
#[derive(Clone, Copy, Debug, PartialEq, Eq, Hash, Structural)]
pub enum MipmapsCount {
    /// The whole chain, down to one texel.
    Log2,
    /// The base level only.
    One,
    /// This many levels.
    Specific(u32),
}

/// The width, height and depth of an image in texels. A side that the shape
/// does not have counts as 1.
pub open spec fn extent_of(dimensions: Dimensions) -> (u32, u32, u32) {
    match dimensions {
        Dimensions::Dim1d { width } => (width, 1, 1),
        Dimensions::Dim1dArray { width, array_layers } => (width, 1, 1),
        Dimensions::Dim2d { width, height } => (width, height, 1),
        Dimensions::Dim2dArray { width, height, array_layers } => (width, height, 1),
        Dimensions::Dim3d { width, height, depth } => (width, height, depth),
        Dimensions::Cubemap { size } => (size, size, 1),
        Dimensions::CubemapArray { size, array_layers } => (size, size, 1),
    }
}

impl Dimensions {
    /// The width, height and depth of the image in texels. A side that the
    /// shape does not have counts as 1.
    pub fn width_height_depth(&self) -> (extent: (u32, u32, u32))
        ensures
            extent == extent_of(*self),
    {
        match *self {
            Dimensions::Dim1d { width } => (width, 1, 1),
            Dimensions::Dim1dArray { width, array_layers } => (width, 1, 1),
            Dimensions::Dim2d { width, height } => (width, height, 1),
            Dimensions::Dim2dArray { width, height, array_layers } => (width, height, 1),
            Dimensions::Dim3d { width, height, depth } => (width, height, depth),
            Dimensions::Cubemap { size } => (size, size, 1),
            Dimensions::CubemapArray { size, array_layers } => (size, size, 1),
        }
    }
}

/// The larger of two sides.
pub open spec fn longer(a: u32, b: u32) -> u32 {
    if a >= b {
        a
    } else {
        b
    }
}

/// The length of the mip chain of an image whose longest side is `size`
/// texels: the number of times `size` can be halved before it falls below one
/// texel, and one level for an image without texels.
pub open spec fn mip_chain_length(size: nat) -> nat
    decreases size,
{
    if size <= 1 {
        1
    } else {
        1 + mip_chain_length(size / 2)
    }
}

/// The chain of a `u32` side has at most 32 levels.
pub proof fn lemma_mip_chain_bounded(size: nat, bits: nat)
    requires
        size < vstd::arithmetic::power2::pow2(bits),
        bits >= 1,
    ensures
        mip_chain_length(size) <= bits,
    decreases size,
{
    vstd::arithmetic::power2::lemma2_to64();
    if size > 1 {
        assert(bits >= 2) by {
            if bits == 1 {
                assert(vstd::arithmetic::power2::pow2(1) == 2);
            }
        }
        vstd::arithmetic::power2::lemma_pow2_unfold(bits);
        lemma_mip_chain_bounded(size / 2, (bits - 1) as nat);
    }
}

/// The length of the mip chain of an image whose longest side is `size`
/// texels.
pub fn get_texture_mip_map_count(size: u32) -> (count: u32)
    ensures
        count == mip_chain_length(size as nat),
        1 <= count <= 32,
{
    proof {
        vstd::arithmetic::power2::lemma2_to64();
        lemma_mip_chain_bounded(size as nat, 32);
    }
    let mut rest = size;
    let mut count: u32 = 1;
    while rest > 1
        invariant
            count + mip_chain_length(rest as nat) == 1 + mip_chain_length(size as nat),
            mip_chain_length(size as nat) <= 32,
            count >= 1,
        decreases rest,
    {
        rest = rest / 2;
        count = count + 1;
    }
    count
}

} // verus!
