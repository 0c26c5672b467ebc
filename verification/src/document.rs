//! The in-memory scene document the pipeline consumes: nodes, meshes,
//! primitives, materials, animation channels and image blobs, all as plain
//! values. An unverified front end fills this in from whatever container
//! format the asset uses; everything after that point is checked.

use vstd::prelude::*;

use crate::animation::{Interpolation, PropertyKind};
use crate::material::Material;
use crate::mathx::{Mat4B, UVec4B, Vec2B, Vec3B, Vec4B};

verus! {

/// One scene: the indices of its root nodes.
#[derive(Clone, Debug)]
pub struct DocScene {
    pub nodes: Vec<u32>,
}

/// One node of the hierarchy, with its local transform, the mesh it
/// instances (if any) and its child indices.
#[derive(Clone, Debug)]
pub struct DocNode {
    pub local_transform: Mat4B,
    pub mesh: Option<u32>,
    pub children: Vec<u32>,
}

/// One primitive's raw attribute streams. Only positions are mandatory;
/// a missing stream is filled with defaults during assembly.
#[derive(Clone, Debug)]
pub struct DocPrimitive {
    pub positions: Option<Vec<Vec3B>>,
    pub normals: Option<Vec<Vec3B>>,
    pub tangents: Option<Vec<Vec4B>>,
    pub tex_coords_0: Option<Vec<Vec2B>>,
    pub tex_coords_1: Option<Vec<Vec2B>>,
    pub weights: Option<Vec<Vec4B>>,
    pub joints: Option<Vec<UVec4B>>,
    pub colors: Option<Vec<Vec4B>>,
    pub indices: Option<Vec<u32>>,
    pub material: Material,
    /// Declared bounds of the position stream; computed from the positions
    /// when the source declares none.
    pub bound_min: Option<Vec3B>,
    pub bound_max: Option<Vec3B>,
}

/// One mesh: a list of primitives.
#[derive(Clone, Debug)]
pub struct DocMesh {
    pub primitives: Vec<DocPrimitive>,
}

/// One keyframe track: the node and property it animates, its mode, the
/// keyframe times and the flat value stream.
#[derive(Clone, Debug)]
pub struct DocChannel {
    pub node_index: u32,
    pub property: PropertyKind,
    pub interpolation: Interpolation,
    pub times: Vec<u32>,
    pub values: Vec<u32>,
    pub input_normalized: bool,
    pub output_normalized: bool,
}

/// One animation clip: its channels.
#[derive(Clone, Debug)]
pub struct DocAnimation {
    pub channels: Vec<DocChannel>,
}

/// The encoding of an embedded image's pixel stream.
#[derive(Clone, Copy, Debug, PartialEq, Eq, Structural)]
pub enum PixelFormat {
    Rgb8,
    Rgba8,
    /// Any source encoding the uploader does not handle.
    Unsupported,
}

/// One embedded image.
#[derive(Clone, Debug)]
pub struct DocImage {
    pub width: u32,
    pub height: u32,
    pub format: PixelFormat,
    pub pixels: Vec<u8>,
}

/// A parsed scene-description asset.
#[derive(Clone, Debug)]
pub struct Document {
    pub scenes: Vec<DocScene>,
    pub nodes: Vec<DocNode>,
    pub meshes: Vec<DocMesh>,
    pub animations: Vec<DocAnimation>,
    pub materials: Vec<Material>,
    pub images: Vec<DocImage>,
    /// How many skins the source declares; skinned animation itself is
    /// outside this pipeline's scope.
    pub skin_count: usize,
}

/// How many bytes one pixel of the encoding occupies.
pub open spec fn spec_pixel_bytes(format: PixelFormat) -> int {
    match format {
        PixelFormat::Rgb8 => 3,
        PixelFormat::Rgba8 => 4,
        PixelFormat::Unsupported => 0,
    }
}

/// The image is usable by the texture uploader: an encoding it handles,
/// with a byte stream matching the declared dimensions.
pub open spec fn spec_image_supported(img: DocImage) -> bool {
    &&& img.format != PixelFormat::Unsupported
    &&& img.pixels@.len() == img.width * img.height * spec_pixel_bytes(img.format)
}

/// Every image is usable by the texture uploader.
pub open spec fn spec_images_supported(images: Seq<DocImage>) -> bool {
    forall|i: int| 0 <= i < images.len() ==> spec_image_supported(#[trigger] images[i])
}

/// Checks that every embedded image is 8-bit RGB or 8-bit RGBA and that
/// its byte stream matches its declared width and height.
pub fn images_supported(images: &Vec<DocImage>) -> (r: bool)
    ensures
        r == spec_images_supported(images@),
{
    let mut i: usize = 0;
    while i < images.len()
        invariant
            i <= images@.len(),
            forall|j: int| 0 <= j < i ==> spec_image_supported(#[trigger] images@[j]),
        decreases images@.len() - i,
    {
        let img = &images[i];
        let bytes_per_pixel: u128 = match img.format {
            PixelFormat::Rgb8 => 3,
            PixelFormat::Rgba8 => 4,
            PixelFormat::Unsupported => {
                return false;
            },
        };
        proof {
            assert((img.width as u128) * (img.height as u128) * bytes_per_pixel
                < u128::MAX) by (nonlinear_arith)
                requires
                    img.width <= u32::MAX,
                    img.height <= u32::MAX,
                    bytes_per_pixel <= 4,
            ;
        }
        let expected = (img.width as u128) * (img.height as u128) * bytes_per_pixel;
        if (img.pixels.len() as u128) != expected {
            return false;
        }
        i = i + 1;
    }
    true
}

} // verus!
