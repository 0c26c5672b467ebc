//! Material description attached to each primitive, reduced to plain
//! values: PBR factors as bit patterns, optional texture references, and
//! the alpha mode that drives render-bucket classification.

use vstd::prelude::*;

use crate::fbits::{ONE_BITS, ZERO_BITS};
use crate::mathx::{Vec3B, Vec4B};

verus! {

/// How a material's alpha channel is applied.
#[derive(Clone, Copy, Debug, PartialEq, Eq, Structural)]
pub enum AlphaMode {
    Opaque,
    Mask,
    Blend,
}

impl AlphaMode {
    /// The wire value of the mode, in declaration order.
    pub fn as_u32(self) -> (r: u32)
        ensures
            r == spec_alpha_mode_u32(self),
    {
        match self {
            AlphaMode::Opaque => 0,
            AlphaMode::Mask => 1,
            AlphaMode::Blend => 2,
        }
    }
}

/// The wire value of an alpha mode.
pub open spec fn spec_alpha_mode_u32(m: AlphaMode) -> u32 {
    match m {
        AlphaMode::Opaque => 0,
        AlphaMode::Mask => 1,
        AlphaMode::Blend => 2,
    }
}

/// A reference to a texture: which image it samples and which UV set it
/// reads.
#[derive(Clone, Copy, Debug, PartialEq, Eq, Structural)]
pub struct TextureInfo {
    pub texture_index: usize,
    pub tex_index: u32,
}

/// The metallic/roughness part of a PBR material.
#[derive(Clone, Copy, Debug, PartialEq, Eq, Structural)]
pub struct MetallicRoughness {
    pub metallic: u32,
    pub roughness: u32,
    pub metallic_roughness_texture: Option<TextureInfo>,
}

/// One primitive's material.
#[derive(Clone, Copy, Debug, PartialEq, Eq, Structural)]
pub struct Material {
    pub color: Vec4B,
    pub emissive: Vec3B,
    pub occlusion: u32,
    pub color_texture: Option<TextureInfo>,
    pub emissive_texture: Option<TextureInfo>,
    pub normals_texture: Option<TextureInfo>,
    pub occlusion_texture: Option<TextureInfo>,
    pub metallic_roughness: MetallicRoughness,
    pub alpha_mode: AlphaMode,
    pub alpha_cutoff: u32,
    pub double_sided: bool,
}

/// The base color of a source with no material: opaque white.
pub open spec fn spec_white() -> Vec4B {
    Vec4B { x: ONE_BITS, y: ONE_BITS, z: ONE_BITS, w: ONE_BITS }
}

impl Material {
    /// True when the base color factor is exactly opaque white, the value
    /// that needs no vertex tinting.
    pub fn is_white(&self) -> (r: bool)
        ensures
            r == (self.color == spec_white()),
    {
        self.color == Vec4B { x: ONE_BITS, y: ONE_BITS, z: ONE_BITS, w: ONE_BITS }
    }
}

impl Default for Material {
    /// The material a primitive without one receives: white base color, no
    /// emission, no textures, full metallic and roughness, opaque, with the
    /// conventional alpha cutoff of one half.
    fn default() -> (r: Material)
        ensures
            r == spec_default_material(),
    {
        Material {
            color: Vec4B::splat(ONE_BITS),
            emissive: Vec3B::splat(ZERO_BITS),
            occlusion: ZERO_BITS,
            color_texture: None,
            emissive_texture: None,
            normals_texture: None,
            occlusion_texture: None,
            metallic_roughness: MetallicRoughness {
                metallic: ONE_BITS,
                roughness: ONE_BITS,
                metallic_roughness_texture: None,
            },
            alpha_mode: AlphaMode::Opaque,
            // Bit pattern of one half.
            alpha_cutoff: 0x3f00_0000,
            double_sided: false,
        }
    }
}

/// The default material's exact contents.
pub open spec fn spec_default_material() -> Material {
    Material {
        color: Vec4B { x: ONE_BITS, y: ONE_BITS, z: ONE_BITS, w: ONE_BITS },
        emissive: Vec3B { x: ZERO_BITS, y: ZERO_BITS, z: ZERO_BITS },
        occlusion: ZERO_BITS,
        color_texture: None,
        emissive_texture: None,
        normals_texture: None,
        occlusion_texture: None,
        metallic_roughness: MetallicRoughness {
            metallic: ONE_BITS,
            roughness: ONE_BITS,
            metallic_roughness_texture: None,
        },
        alpha_mode: AlphaMode::Opaque,
        alpha_cutoff: 0x3f00_0000,
        double_sided: false,
    }
}

} // verus!
