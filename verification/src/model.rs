//! A loaded asset pack: all primitives of one document packed into shared
//! vertex/index lists, its images expanded to RGBA texture data, and the
//! per-frame staging cache that rebuilds draw records only when animated
//! state can have changed.

use vstd::prelude::*;

use crate::animation::{Channel, PropertyValue, spec_interpolate};
use crate::document::{DocImage, Document, PixelFormat, spec_image_supported, spec_images_supported};
use crate::material::Material;
use crate::mathx::{
    mat4_from_quat, mat4_from_scale, mat4_from_translation, mat4_mul, mat_mul, mat_of_quat,
    mat_of_scale, mat_of_translation, Mat4B,
};
use crate::mesh::{spec_aabb_unions, Aabb, Mesh, Primitive, PrimitiveVertex};

verus! {

/// Why an asset failed to load.
#[derive(Debug, Clone, Copy, PartialEq, Eq, Structural)]
pub enum ModelError {
    /// The byte source could not be read.
    InvalidPath,
    /// The document is malformed: structurally broken references, missing
    /// mandatory streams, keyframe tracks that are not strictly
    /// increasing, or counts too large for their handles.
    InvalidGltf,
    /// The document declares no scene at all.
    NoScene,
}

/// One image expanded to GPU-ready RGBA data.
pub struct TextureData {
    pub width: u32,
    pub height: u32,
    pub rgba: Vec<u8>,
}

/// The RGBA byte stream of an image: RGBA sources verbatim; RGB sources
/// with a full-opacity byte after every third byte (a supported image's
/// stream divides evenly into pixels).
pub open spec fn spec_texture_rgba(img: DocImage) -> Seq<u8> {
    match img.format {
        PixelFormat::Rgba8 => img.pixels@,
        _ => Seq::new(
            ((img.pixels@.len() as int / 3) * 4) as nat,
            |i: int|
                if i % 4 == 3 {
                    255u8
                } else {
                    img.pixels@[(i / 4) * 3 + i % 4]
                },
        ),
    }
}

/// Expands one embedded image to RGBA texture data.
pub fn create_texture_data(img: &DocImage) -> (r: TextureData)
    requires
        spec_image_supported(*img),
    ensures
        r.width == img.width,
        r.height == img.height,
        r.rgba@ == spec_texture_rgba(*img),
        r.rgba@.len() == img.width * img.height * 4,
{
    proof {
        assert(spec_texture_rgba(*img).len() == img.width * img.height * 4) by (
        nonlinear_arith)
            requires
                spec_image_supported(*img),
                spec_texture_rgba(*img).len() == (match img.format {
                    PixelFormat::Rgba8 => img.pixels@.len() as int,
                    _ => (img.pixels@.len() as int / 3) * 4,
                }),
        ;
    }
    match img.format {
        PixelFormat::Rgba8 => {
            let rgba = img.pixels.clone();
            proof {
                assert(rgba@ =~= img.pixels@);
            }
            TextureData { width: img.width, height: img.height, rgba }
        },
        _ => {
            let plen = img.pixels.len();
            let count = plen / 3;
            let mut rgba: Vec<u8> = Vec::new();
            let ghost target = spec_texture_rgba(*img);
            let mut c: usize = 0;
            while c < count
                invariant
                    c <= count,
                    count == img.pixels@.len() as int / 3,
                    plen == img.pixels@.len(),
                    img.format != PixelFormat::Rgba8,
                    img.format != PixelFormat::Unsupported,
                    target == spec_texture_rgba(*img),
                    target.len() == count * 4,
                    rgba@.len() == c * 4,
                    forall|k: int| 0 <= k < rgba@.len() ==> (#[trigger] rgba@[k]) == target[k],
                decreases count - c,
            {
                proof {
                    assert((c as int) * 3 + 3 <= plen && (c as int) * 4 + 4 <= count * 4) by (
                    nonlinear_arith)
                        requires
                            (c as int) < count,
                            count == plen as int / 3,
                            plen as int >= 0,
                    ;
                    assert forall|d: int| 0 <= d < 4 implies #[trigger] target[(c as int) * 4 + d]
                        == (if d == 3 {
                        255u8
                    } else {
                        img.pixels@[(c as int) * 3 + d]
                    }) by {
                        let k = (c as int) * 4 + d;
                        assert(k / 4 == c as int && k % 4 == d) by (nonlinear_arith)
                            requires
                                k == (c as int) * 4 + d,
                                0 <= d < 4,
                                c as int >= 0,
                        ;
                    }
                }
                let base = c * 3;
                rgba.push(img.pixels[base]);
                rgba.push(img.pixels[base + 1]);
                rgba.push(img.pixels[base + 2]);
                rgba.push(255);
                c = c + 1;
            }
            proof {
                assert(rgba@ =~= target);
            }
            TextureData { width: img.width, height: img.height, rgba }
        },
    }
}

/// One primitive's slot in the packed buffers, with its staging data.
pub struct PerPrimitive {
    pub id: usize,
    /// Element range of this primitive's indices in the shared index
    /// list.
    pub index_range: (usize, usize),
    /// Element range of this primitive's vertices in the shared vertex
    /// list.
    pub vertex_range: (usize, usize),
    pub instance_animations: Vec<Vec<Channel>>,
    pub instance_transforms: Vec<Mat4B>,
    pub instance_count: u32,
    pub staging_index: Option<Vec<u32>>,
    pub staging_vertex: Vec<PrimitiveVertex>,
    pub material: Material,
}

/// One staged draw record: the buffer contents and bindings the draw
/// submission stage consumes.
pub struct ModelRender {
    pub instance_transforms: Vec<Mat4B>,
    pub instance_count: u32,
    pub vertex_data: Vec<PrimitiveVertex>,
    pub index_data: Option<Vec<u32>>,
    /// Index of the bound base-color texture in the pack's texture list.
    pub color_texture: Option<usize>,
    pub vertex_count: u32,
}

/// The shared buffers of one pack.
pub struct PackedPrimitives {
    pub index_buffer: Vec<u32>,
    pub vertex_buffer: Vec<PrimitiveVertex>,
    pub per_primitives: Vec<PerPrimitive>,
    pub aabb: Aabb,
}

/// One loaded asset pack.
pub struct Model {
    pub index: usize,
    pub packed_primitives: PackedPrimitives,
    pub textures: Vec<TextureData>,
    pub cached_model_render: Vec<Option<ModelRender>>,
}

/// One packed primitive is internally consistent: ranges inside the
/// shared buffers, staging data mirroring its range, counts narrow
/// enough for draw calls, and instance bookkeeping parallel.
#[verifier::opaque]
pub open spec fn spec_packed_wf(
    pp: PerPrimitive,
    vertex_buffer: Seq<PrimitiveVertex>,
    index_buffer: Seq<u32>,
) -> bool {
    &&& pp.vertex_range.0 <= pp.vertex_range.1 <= vertex_buffer.len()
    &&& pp.vertex_range.1 - pp.vertex_range.0 == pp.staging_vertex@.len()
    &&& pp.staging_vertex@ == vertex_buffer.subrange(
        pp.vertex_range.0 as int,
        pp.vertex_range.1 as int,
    )
    &&& pp.vertex_range.1 - pp.vertex_range.0 <= u32::MAX
    &&& pp.index_range.0 <= pp.index_range.1 <= index_buffer.len()
    &&& pp.index_range.1 - pp.index_range.0 <= u32::MAX
    &&& match pp.staging_index {
        Some(v) => {
            &&& v@.len() == pp.index_range.1 - pp.index_range.0
            &&& v@ == index_buffer.subrange(pp.index_range.0 as int, pp.index_range.1 as int)
        },
        None => pp.index_range.0 == pp.index_range.1,
    }
    &&& pp.instance_transforms@.len() == pp.instance_count as int
    &&& pp.instance_animations@.len() == pp.instance_count as int
    &&& forall|k: int, t: int|
        0 <= k < pp.instance_animations@.len() && 0 <= t < pp.instance_animations@[k]@.len()
            ==> (#[trigger] pp.instance_animations@[k]@[t]).wf()
}

impl Model {
    /// The pack's internal consistency.
    pub open spec fn wf(self) -> bool {
        forall|k: int|
            0 <= k < self.packed_primitives.per_primitives@.len() ==> spec_packed_wf(
                #[trigger] self.packed_primitives.per_primitives@[k],
                self.packed_primitives.vertex_buffer@,
                self.packed_primitives.index_buffer@,
            )
    }
}

/// Every instance of the primitive is static: no channel animates it.
pub open spec fn spec_all_static(pp: PerPrimitive) -> bool {
    forall|k: int|
        0 <= k < pp.instance_animations@.len() ==> (#[trigger] pp.instance_animations@[k])@.len()
            == 0
}

/// The transform matrix one evaluated property applies.
pub open spec fn spec_property_matrix(v: PropertyValue) -> Seq<u32> {
    match v {
        PropertyValue::Rotation(q) => mat_of_quat(q.view()),
        PropertyValue::Scale(s) => mat_of_scale(s.view()),
        PropertyValue::Translation(t) => mat_of_translation(t.view()),
        PropertyValue::MorphTargetWeights(_) => Seq::empty(),
    }
}

/// One channel applied to an accumulated instance transform at time `t`:
/// the evaluated property's matrix composed on the right, or the
/// transform unchanged where evaluation yields nothing.
pub open spec fn spec_apply_one(ch: Channel, acc: Seq<u32>, t: u32) -> Seq<u32> {
    match spec_interpolate(ch, t) {
        None => acc,
        Some(v) => match v {
            PropertyValue::MorphTargetWeights(_) => acc,
            _ => mat_mul(acc, spec_property_matrix(v)),
        },
    }
}

/// Every channel of one instance applied in order at time `t`.
pub open spec fn spec_apply_channels(chs: Seq<Channel>, acc: Seq<u32>, t: u32) -> Seq<u32>
    decreases chs.len(),
{
    if chs.len() == 0 {
        acc
    } else {
        spec_apply_channels(chs.drop_first(), spec_apply_one(chs[0], acc, t), t)
    }
}

/// The draw record staged for primitive `pp` at time `t`. When `animate`
/// is set, each animated instance's transform is recomputed from its
/// resting pose by its channels; otherwise the resting transforms are
/// used as they are.
pub open spec fn spec_render_matches(
    r: ModelRender,
    pp: PerPrimitive,
    t: u32,
    animate: bool,
) -> bool {
    &&& r.instance_count == pp.instance_count
    &&& r.instance_transforms@.len() == pp.instance_transforms@.len()
    &&& forall|k: int|
        0 <= k < pp.instance_transforms@.len() ==> (#[trigger] r.instance_transforms@[k])@ == (
        if animate && pp.instance_animations@[k]@.len() > 0 {
            spec_apply_channels(
                pp.instance_animations@[k]@,
                pp.instance_transforms@[k]@,
                t,
            )
        } else {
            pp.instance_transforms@[k]@
        })
    &&& r.vertex_data@ == pp.staging_vertex@
    &&& (r.index_data is Some <==> pp.staging_index is Some)
    &&& (r.index_data is Some ==> r.index_data->Some_0@ == pp.staging_index->Some_0@)
    &&& r.color_texture == (match pp.material.color_texture {
        Some(ti) => Some(ti.texture_index),
        None => None::<usize>,
    })
    &&& r.vertex_count as int == (if pp.staging_index is Some {
        pp.index_range.1 - pp.index_range.0
    } else {
        pp.vertex_range.1 - pp.vertex_range.0
    })
}

impl Model {
    /// Stages (or re-stages) the draw record of one primitive.
    ///
    /// The cache rules: an empty slot is staged from the resting
    /// transforms; an occupied slot whose primitive has no animated
    /// instance is left exactly as it is (the record is reused); an
    /// occupied slot with any animated instance is restaged with each
    /// animated instance's transform recomputed at the given time.
    pub fn update_index(&mut self, index: usize, elapsed_bits: u32)
        requires
            old(self).wf(),
            index < old(self).packed_primitives.per_primitives@.len(),
            old(self).cached_model_render@.len() == old(self).packed_primitives.per_primitives@.len(),
        ensures
            final(self).packed_primitives == old(self).packed_primitives,
            final(self).textures == old(self).textures,
            final(self).index == old(self).index,
            final(self).wf(),
            final(self).cached_model_render@.len() == old(self).cached_model_render@.len(),
            forall|k: int|
                0 <= k < old(self).cached_model_render@.len() && k != index
                    ==> final(self).cached_model_render@[k] == old(self).cached_model_render@[k],
            ({
                let pp = old(self).packed_primitives.per_primitives@[index as int];
                let was_cached = old(self).cached_model_render@[index as int] is Some;
                if was_cached && spec_all_static(pp) {
                    final(self).cached_model_render@[index as int] == old(self).cached_model_render@[index as int]
                } else {
                    final(self).cached_model_render@[index as int] is Some
                        && spec_render_matches(
                        final(self).cached_model_render@[index as int]->Some_0,
                        pp,
                        elapsed_bits,
                        was_cached,
                    )
                }
            }),
    {
        proof {
            reveal(spec_packed_wf);
        }
        let was_cached = self.cached_model_render[index].is_some();
        let animate = if was_cached {
            // Only a primitive with some animated instance needs
            // restaging; a fully static one keeps its record.
            let mesh = &self.packed_primitives.per_primitives[index];
            let mut any_animated = false;
            let mut k: usize = 0;
            while k < mesh.instance_animations.len()
                invariant
                    k <= mesh.instance_animations@.len(),
                    any_animated == exists|t: int|
                        0 <= t < k && (#[trigger] mesh.instance_animations@[t])@.len() > 0,
                decreases mesh.instance_animations@.len() - k,
            {
                if mesh.instance_animations[k].len() > 0 {
                    any_animated = true;
                }
                k = k + 1;
            }
            if !any_animated {
                proof {
                    assert(spec_all_static(
                        old(self).packed_primitives.per_primitives@[index as int],
                    ));
                }
                return;
            }
            true
        } else {
            false
        };
        // Build the instance-transform contents: resting pose, with each
        // animated instance's channels applied when restaging.
        let mesh = &self.packed_primitives.per_primitives[index];
        let mut transforms: Vec<Mat4B> = Vec::new();
        let mut k: usize = 0;
        while k < mesh.instance_transforms.len()
            invariant
                k <= mesh.instance_transforms@.len(),
                mesh.instance_animations@.len() == mesh.instance_transforms@.len(),
                forall|a: int, t: int|
                    0 <= a < mesh.instance_animations@.len() && 0 <= t
                        < mesh.instance_animations@[a]@.len()
                        ==> (#[trigger] mesh.instance_animations@[a]@[t]).wf(),
                transforms@.len() == k,
                forall|t: int|
                    0 <= t < k ==> (#[trigger] transforms@[t])@ == (
                    if animate && mesh.instance_animations@[t]@.len() > 0 {
                        spec_apply_channels(
                            mesh.instance_animations@[t]@,
                            mesh.instance_transforms@[t]@,
                            elapsed_bits,
                        )
                    } else {
                        mesh.instance_transforms@[t]@
                    }),
            decreases mesh.instance_transforms@.len() - k,
        {
            let animations = &mesh.instance_animations[k];
            if animate && animations.len() > 0 {
                let mut node_transform = mesh.instance_transforms[k];
                proof {
                    assert(animations@.subrange(0, animations@.len() as int) =~= animations@);
                }
                let mut c: usize = 0;
                while c < animations.len()
                    invariant
                        c <= animations@.len(),
                        forall|t: int|
                            0 <= t < animations@.len() ==> (#[trigger] animations@[t]).wf(),
                        spec_apply_channels(
                            animations@,
                            mesh.instance_transforms@[k as int]@,
                            elapsed_bits,
                        ) == spec_apply_channels(
                            animations@.subrange(c as int, animations@.len() as int),
                            node_transform@,
                            elapsed_bits,
                        ),
                    decreases animations@.len() - c,
                {
                    proof {
                        let rest = animations@.subrange(c as int, animations@.len() as int);
                        assert(rest.drop_first() =~= animations@.subrange(
                            c as int + 1,
                            animations@.len() as int,
                        ));
                        assert(rest[0] == animations@[c as int]);
                    }
                    let channel = &animations[c];
                    match channel.interpolate(elapsed_bits) {
                        Some(value) => match value {
                            PropertyValue::Rotation(q) => {
                                node_transform = mat4_mul(
                                    &node_transform,
                                    &mat4_from_quat(&q),
                                );
                            },
                            PropertyValue::Scale(s) => {
                                node_transform = mat4_mul(
                                    &node_transform,
                                    &mat4_from_scale(&s),
                                );
                            },
                            PropertyValue::Translation(tr) => {
                                node_transform = mat4_mul(
                                    &node_transform,
                                    &mat4_from_translation(&tr),
                                );
                            },
                            PropertyValue::MorphTargetWeights(_) => {},
                        },
                        None => {},
                    }
                    c = c + 1;
                }
                proof {
                    assert(animations@.subrange(0, animations@.len() as int) =~= animations@);
                    assert(animations@.subrange(
                        animations@.len() as int,
                        animations@.len() as int,
                    ).len() == 0);
                }
                transforms.push(node_transform);
            } else {
                transforms.push(mesh.instance_transforms[k]);
            }
            k = k + 1;
        }
        // Assemble the record from the primitive's staging data.
        let vertex_data = mesh.staging_vertex.clone();
        proof {
            assert(vertex_data@ =~= mesh.staging_vertex@);
        }
        let index_data = match &mesh.staging_index {
            Some(v) => {
                let c = v.clone();
                proof {
                    assert(c@ =~= mesh.staging_index->Some_0@);
                }
                Some(c)
            },
            None => None,
        };
        let color_texture = match mesh.material.color_texture {
            Some(ti) => Some(ti.texture_index),
            None => None,
        };
        proof {
            reveal(spec_packed_wf);
        }
        let vertex_count_usize = if mesh.staging_index.is_some() {
            mesh.index_range.1 - mesh.index_range.0
        } else {
            mesh.vertex_range.1 - mesh.vertex_range.0
        };
        let vertex_count = vertex_count_usize as u32;
        let instance_count = mesh.instance_count;
        let render = ModelRender {
            instance_transforms: transforms,
            instance_count,
            vertex_data,
            index_data,
            color_texture,
            vertex_count,
        };
        self.cached_model_render[index] = Some(render);
    }

    /// Refreshes every primitive's record (sizing the cache on first
    /// use) and returns the indices of the staged records, in
    /// primitive-index order.
    pub fn iter(&mut self, elapsed_bits: u32) -> (r: Vec<usize>)
        requires
            old(self).wf(),
            old(self).cached_model_render@.len() == 0 || old(self).cached_model_render@.len()
                == old(self).packed_primitives.per_primitives@.len(),
        ensures
            final(self).packed_primitives == old(self).packed_primitives,
            final(self).textures == old(self).textures,
            final(self).index == old(self).index,
            final(self).wf(),
            final(self).cached_model_render@.len() == final(self).packed_primitives.per_primitives@.len(),
            forall|k: int|
                0 <= k < final(self).cached_model_render@.len()
                    ==> (#[trigger] final(self).cached_model_render@[k]) is Some,
            r@.len() == final(self).packed_primitives.per_primitives@.len(),
            forall|k: int| 0 <= k < r@.len() ==> (#[trigger] r@[k]) == k,
    {
        let n = self.packed_primitives.per_primitives.len();
        if self.cached_model_render.len() != n {
            let mut fresh: Vec<Option<ModelRender>> = Vec::new();
            let mut k: usize = 0;
            while k < n
                invariant
                    k <= n,
                    fresh@.len() == k,
                decreases n - k,
            {
                fresh.push(None);
                k = k + 1;
            }
            self.cached_model_render = fresh;
        }
        let mut i: usize = 0;
        let mut out: Vec<usize> = Vec::new();
        while i < n
            invariant
                self.wf(),
                n == self.packed_primitives.per_primitives@.len(),
                self.cached_model_render@.len() == n,
                self.packed_primitives == old(self).packed_primitives,
                self.textures == old(self).textures,
                self.index == old(self).index,
                i <= n,
                out@.len() == i,
                forall|k: int| 0 <= k < i ==> (#[trigger] out@[k]) == k,
                forall|k: int|
                    0 <= k < i ==> (#[trigger] self.cached_model_render@[k]) is Some,
            decreases n - i,
        {
            self.update_index(i, elapsed_bits);
            out.push(i);
            i = i + 1;
        }
        out
    }

    /// The staged record of one primitive, if that slot has been staged.
    pub fn get_render(&self, index: usize) -> (r: &Option<ModelRender>)
        requires
            index < self.cached_model_render@.len(),
        ensures
            r == self.cached_model_render@[index as int],
    {
        &self.cached_model_render[index]
    }
}

/// Index width for the non-instanced legacy draw path.
#[derive(Clone, Copy, Debug, PartialEq, Eq, Structural)]
pub enum IndexWidth {
    Uint16,
    Uint32,
}

/// An index stream prepared for the legacy draw path: narrowed to 16
/// bits when the vertex count allows it, kept wide otherwise.
pub struct IndexData {
    pub format: IndexWidth,
    /// The narrowed stream; present exactly for 16-bit indices (a wide
    /// stream is drawn from the original indices).
    pub narrow: Option<Vec<u16>>,
}

/// Chooses the index width for a primitive on the legacy path: 16-bit
/// indices when every vertex index fits in 16 bits (vertex count at most
/// 65535), 32-bit indices otherwise. Returns nothing for unindexed
/// geometry.
pub fn create_index(indices: &Option<Vec<u32>>, vertex_count: usize) -> (r: Option<IndexData>)
    ensures
        match r {
            None => indices is None,
            Some(d) => {
                &&& indices is Some
                &&& if vertex_count > u16::MAX {
                    d.format == IndexWidth::Uint32 && d.narrow is None
                } else {
                    &&& d.format == IndexWidth::Uint16
                    &&& d.narrow is Some
                    &&& d.narrow->Some_0@.len() == indices->Some_0@.len()
                    &&& forall|k: int|
                        0 <= k < indices->Some_0@.len()
                            ==> (#[trigger] d.narrow->Some_0@[k]) == indices->Some_0@[k] as u16
                }
            },
        },
{
    let idx = match indices {
        Some(v) => v,
        None => {
            return None;
        },
    };
    if vertex_count > u16::MAX as usize {
        Some(IndexData { format: IndexWidth::Uint32, narrow: None })
    } else {
        let mut narrow: Vec<u16> = Vec::new();
        let mut i: usize = 0;
        while i < idx.len()
            invariant
                i <= idx@.len(),
                narrow@.len() == i,
                forall|k: int| 0 <= k < i ==> (#[trigger] narrow@[k]) == idx@[k] as u16,
            decreases idx@.len() - i,
        {
            #[verifier::truncate]
            let v = idx[i] as u16;
            narrow.push(v);
            i = i + 1;
        }
        Some(IndexData { format: IndexWidth::Uint16, narrow: Some(narrow) })
    }
}

/// Summary counts of one loaded document.
#[derive(Debug, Clone)]
pub struct ModelMetadata {
    pub name: String,
    pub path: String,
    pub scene_count: usize,
    pub mesh_count: usize,
    pub texture_count: usize,
    pub animation_count: usize,
    pub skin_count: usize,
    pub material_count: usize,
    pub node_count: usize,
}

impl ModelMetadata {
    /// Collects the document's counts under the asset's name and path.
    pub fn new(name: String, path: String, doc: &Document) -> (r: ModelMetadata)
        ensures
            r.scene_count == doc.scenes@.len(),
            r.mesh_count == doc.meshes@.len(),
            r.texture_count == doc.images@.len(),
            r.animation_count == doc.animations@.len(),
            r.skin_count == doc.skin_count,
            r.material_count == doc.materials@.len(),
            r.node_count == doc.nodes@.len(),
    {
        ModelMetadata {
            name,
            path,
            scene_count: doc.scenes.len(),
            mesh_count: doc.meshes.len(),
            texture_count: doc.images.len(),
            animation_count: doc.animations.len(),
            skin_count: doc.skin_count,
            material_count: doc.materials.len(),
            node_count: doc.nodes.len(),
        }
    }
}

/// Per-primitive diagnostic tag.
#[derive(Debug, Clone)]
pub struct PerPrimitiveMetadata {
    pub mesh_name: Option<String>,
}

/// The primitives of a list of meshes, flattened in order.
pub open spec fn spec_flat_prims(meshes: Seq<Mesh>) -> Seq<Primitive>
    decreases meshes.len(),
{
    if meshes.len() == 0 {
        Seq::empty()
    } else {
        spec_flat_prims(meshes.drop_last()) + meshes.last().primitives@
    }
}

/// The packed slot `pp` carries primitive `p` with its staging data and
/// instance bookkeeping intact.
#[verifier::opaque]
pub open spec fn spec_packed_matches(pp: PerPrimitive, p: Primitive) -> bool {
    &&& pp.id == p.index
    &&& pp.material == p.material
    &&& pp.staging_vertex@ == p.vertices@
    &&& (pp.staging_index is Some <==> p.indices is Some)
    &&& (pp.staging_index is Some ==> pp.staging_index->Some_0@ == p.indices->Some_0@)
    &&& pp.instance_transforms@ == p.instance_transforms@
    &&& pp.instance_animations@.len() == p.instance_animations@.len()
    &&& forall|k: int|
        0 <= k < p.instance_animations@.len() ==> crate::mesh::spec_channels_eq(
            (#[trigger] pp.instance_animations@[k])@,
            p.instance_animations@[k]@,
        )
    &&& pp.instance_count == p.instance_count
}

impl Model {
    /// Packs the assembled meshes of one document into a single shared
    /// vertex list and index list, recording each primitive's element
    /// ranges, expands the embedded images, and leaves the staging cache
    /// empty.
    ///
    /// Fails with `NoScene` exactly when the document declares no scene,
    /// and with `InvalidGltf` exactly when some primitive's vertex or
    /// index count does not fit the draw path's counters.
    #[verifier::rlimit(100)]
    #[verifier::spinoff_prover]
    pub fn from_meshes(
        model_index: usize,
        scene_count: usize,
        meshes: Vec<Mesh>,
        images: &Vec<DocImage>,
    ) -> (r: Result<Model, ModelError>)
        requires
            spec_mesh_list_wf(meshes@),
            spec_images_supported(images@),
        ensures
            ({
                let flat = spec_flat_prims(meshes@);
                match r {
                    Ok(model) => {
                        &&& scene_count > 0
                        &&& forall|j: int| 0 <= j < flat.len() ==> spec_prim_fits(#[trigger] flat[j])
                        &&& model.index == model_index
                        &&& model.wf()
                        &&& model.cached_model_render@.len() == 0
                        &&& model.packed_primitives.per_primitives@.len() == flat.len()
                        &&& forall|j: int|
                            0 <= j < flat.len() ==> spec_packed_matches(
                                #[trigger] model.packed_primitives.per_primitives@[j],
                                flat[j],
                            )
                        &&& spec_contiguous(
                            model.packed_primitives.per_primitives@,
                            model.packed_primitives.vertex_buffer@.len() as int,
                            model.packed_primitives.index_buffer@.len() as int,
                        )
                        &&& model.packed_primitives.aabb == spec_aabb_unions(
                            Seq::new(meshes@.len(), |m: int| meshes@[m].aabb),
                        )
                        &&& model.textures@.len() == images@.len()
                        &&& forall|j: int|
                            0 <= j < images@.len()
                                ==> (#[trigger] model.textures@[j]).rgba@ == spec_texture_rgba(
                                images@[j],
                            ) && model.textures@[j].width == images@[j].width
                                && model.textures@[j].height == images@[j].height
                    },
                    Err(e) => {
                        if scene_count == 0 {
                            e == ModelError::NoScene
                        } else {
                            &&& e == ModelError::InvalidGltf
                            &&& exists|j: int|
                                0 <= j < flat.len() && !spec_prim_fits(#[trigger] flat[j])
                        }
                    },
                }
            }),
    {
        if scene_count == 0 {
            return Err(ModelError::NoScene);
        }
        let mut per_primitives: Vec<PerPrimitive> = Vec::new();
        let mut global_indices: Vec<u32> = Vec::new();
        let mut global_vertices: Vec<PrimitiveVertex> = Vec::new();
        let meshes_len = meshes.len();
        // The pack box is the plain union of its meshes' boxes.
        let mut mesh_boxes: Vec<Aabb> = Vec::new();
        let mut b: usize = 0;
        while b < meshes_len
            invariant
                b <= meshes_len,
                meshes_len == meshes@.len(),
                mesh_boxes@.len() == b,
                forall|t: int| 0 <= t < b ==> (#[trigger] mesh_boxes@[t]) == meshes@[t].aabb,
            decreases meshes_len - b,
        {
            mesh_boxes.push(meshes[b].aabb);
            b = b + 1;
        }
        let aabb = Aabb::unions(&mesh_boxes);
        proof {
            assert(mesh_boxes@ =~= Seq::new(meshes@.len(), |t: int| meshes@[t].aabb));
        }
        let mut m: usize = 0;
        let ghost mut flat_prefix: Seq<Primitive> = Seq::empty();
        proof {
            assert(meshes@.subrange(0, 0).len() == 0);
            reveal(spec_contiguous);
        }
        while m < meshes_len
            invariant
                m <= meshes_len,
                meshes_len == meshes@.len(),
                scene_count > 0,
                spec_mesh_list_wf(meshes@),
                flat_prefix == spec_flat_prims(meshes@.subrange(0, m as int)),
                per_primitives@.len() == flat_prefix.len(),
                forall|j: int|
                    0 <= j < per_primitives@.len() ==> spec_packed_matches(
                        #[trigger] per_primitives@[j],
                        flat_prefix[j],
                    ),
                forall|j: int|
                    0 <= j < per_primitives@.len() ==> spec_prim_fits(
                        #[trigger] flat_prefix[j],
                    ),
                forall|j: int|
                    0 <= j < per_primitives@.len() ==> spec_packed_wf(
                        #[trigger] per_primitives@[j],
                        global_vertices@,
                        global_indices@,
                    ),
                spec_contiguous(
                    per_primitives@,
                    global_vertices@.len() as int,
                    global_indices@.len() as int,
                ),
            decreases meshes_len - m,
        {
            let mesh = &meshes[m];
            proof {
                reveal(spec_mesh_list_wf);
                reveal(spec_mesh_prims_wf);
            }
            match pack_mesh(mesh, &mut per_primitives, &mut global_vertices, &mut global_indices) {
                Ok(_u) => {},
                Err(e) => {
                    proof {
                        let t = choose|t: int|
                            0 <= t < mesh.primitives@.len() && !spec_prim_fits(
                                #[trigger] mesh.primitives@[t],
                            );
                        lemma_flat_prims_contains(meshes@, m as int, t);
                        let k = choose|k: int|
                            0 <= k < spec_flat_prims(meshes@).len()
                                && #[trigger] spec_flat_prims(meshes@)[k]
                                == meshes@[m as int].primitives@[t];
                        assert(!spec_prim_fits(spec_flat_prims(meshes@)[k]));
                    }
                    return Err(e);
                },
            }
            proof {
                let post = meshes@.subrange(0, m as int + 1);
                assert(post.drop_last() =~= meshes@.subrange(0, m as int));
                assert(post.last() == meshes@[m as int]);
                let ghost pre_prefix = flat_prefix;
                let ghost pre_len = pre_prefix.len();
                flat_prefix = flat_prefix + mesh.primitives@;
                assert(flat_prefix == spec_flat_prims(post));
                assert forall|j: int|
                    0 <= j < per_primitives@.len() implies spec_packed_matches(
                    #[trigger] per_primitives@[j],
                    flat_prefix[j],
                ) by {
                    if j < pre_len {
                        assert(flat_prefix[j] == pre_prefix[j]);
                        assert(spec_packed_matches(per_primitives@[j], pre_prefix[j]));
                    } else {
                        let t = j - pre_len;
                        assert(flat_prefix[j] == mesh.primitives@[t]);
                        assert(spec_packed_matches(
                            per_primitives@[pre_len + t],
                            mesh.primitives@[t],
                        ));
                        assert(pre_len + t == j);
                    }
                }
                assert forall|j: int|
                    0 <= j < per_primitives@.len() implies spec_prim_fits(
                    #[trigger] flat_prefix[j],
                ) by {
                    if j < pre_len {
                        assert(flat_prefix[j] == pre_prefix[j]);
                    } else {
                        assert(flat_prefix[j] == mesh.primitives@[j - pre_len]);
                    }
                }
            }
            m = m + 1;
        }
        proof {
            assert(meshes@.subrange(0, meshes@.len() as int) =~= meshes@);
        }
        let mut textures: Vec<TextureData> = Vec::new();
        let mut t: usize = 0;
        while t < images.len()
            invariant
                t <= images@.len(),
                spec_images_supported(images@),
                textures@.len() == t,
                forall|j: int|
                    0 <= j < t ==> (#[trigger] textures@[j]).rgba@ == spec_texture_rgba(
                        images@[j],
                    ) && textures@[j].width == images@[j].width && textures@[j].height
                        == images@[j].height,
            decreases images@.len() - t,
        {
            textures.push(create_texture_data(&images[t]));
            t = t + 1;
        }
        Ok(Model {
            index: model_index,
            packed_primitives: PackedPrimitives {
                index_buffer: global_indices,
                vertex_buffer: global_vertices,
                per_primitives,
                aabb,
            },
            textures,
            cached_model_render: Vec::new(),
        })
    }
}

/// Every primitive of every mesh in the list is well-formed.
#[verifier::opaque]
pub open spec fn spec_mesh_list_wf(meshes: Seq<Mesh>) -> bool {
    forall|m: int, j: int|
        0 <= m < meshes.len() && 0 <= j < meshes[m].primitives@.len()
            ==> (#[trigger] meshes[m].primitives@[j]).wf()
}

/// The primitive's counts fit the draw path's 32-bit counters.
pub open spec fn spec_prim_fits(p: Primitive) -> bool {
    &&& p.vertices@.len() <= u32::MAX
    &&& (p.indices is Some ==> p.indices->Some_0@.len() <= u32::MAX)
}

/// The packed slots cover the shared buffers back to back: each slot
/// starts where the one before it ends, and the last ends at the buffer
/// ends (empty buffers when there is no slot).
#[verifier::opaque]
pub open spec fn spec_contiguous(pps: Seq<PerPrimitive>, vlen: int, ilen: int) -> bool {
    &&& forall|t: int|
        0 <= t < pps.len() ==> (#[trigger] pps[t]).vertex_range.0 == (if t == 0 {
            0int
        } else {
            pps[t - 1].vertex_range.1 as int
        }) && pps[t].index_range.0 == (if t == 0 {
            0int
        } else {
            pps[t - 1].index_range.1 as int
        })
    &&& (pps.len() > 0 ==> pps.last().vertex_range.1 == vlen && pps.last().index_range.1 == ilen)
    &&& (pps.len() == 0 ==> vlen == 0 && ilen == 0)
}

/// Every primitive of the mesh is well-formed.
#[verifier::opaque]
pub open spec fn spec_mesh_prims_wf(mesh: Mesh) -> bool {
    forall|t: int| 0 <= t < mesh.primitives@.len() ==> (#[trigger] mesh.primitives@[t]).wf()
}

/// Packs every primitive of one mesh onto the shared buffers, extending
/// the slot list in order. Fails exactly when some primitive's counts do
/// not fit the draw path's counters (the buffers may then be partially
/// extended; the caller discards them).
#[verifier::rlimit(100)]
#[verifier::spinoff_prover]
fn pack_mesh(
    mesh: &Mesh,
    per_primitives: &mut Vec<PerPrimitive>,
    global_vertices: &mut Vec<PrimitiveVertex>,
    global_indices: &mut Vec<u32>,
) -> (r: Result<(), ModelError>)
    requires
        spec_mesh_prims_wf(*mesh),
        forall|t: int|
            0 <= t < old(per_primitives)@.len() ==> spec_packed_wf(
                #[trigger] old(per_primitives)@[t],
                old(global_vertices)@,
                old(global_indices)@,
            ),
        spec_contiguous(
            old(per_primitives)@,
            old(global_vertices)@.len() as int,
            old(global_indices)@.len() as int,
        ),
    ensures
        match r {
            Ok(_) => {
                &&& forall|t: int|
                    0 <= t < mesh.primitives@.len() ==> spec_prim_fits(
                        #[trigger] mesh.primitives@[t],
                    )
                &&& final(per_primitives)@.len() == old(per_primitives)@.len()
                    + mesh.primitives@.len()
                &&& forall|t: int|
                    0 <= t < old(per_primitives)@.len() ==> (#[trigger] final(per_primitives)@[t]) == old(per_primitives)@[t]
                &&& forall|t: int|
                    0 <= t < mesh.primitives@.len() ==> spec_packed_matches(
                        #[trigger] final(per_primitives)@[old(per_primitives)@.len() + t],
                        mesh.primitives@[t],
                    )
                &&& forall|t: int|
                    0 <= t < final(per_primitives)@.len() ==> spec_packed_wf(
                        #[trigger] final(per_primitives)@[t],
                        final(global_vertices)@,
                        final(global_indices)@,
                    )
                &&& spec_contiguous(
                    final(per_primitives)@,
                    final(global_vertices)@.len() as int,
                    final(global_indices)@.len() as int,
                )
            },
            Err(e) => {
                &&& e == ModelError::InvalidGltf
                &&& exists|t: int|
                    0 <= t < mesh.primitives@.len() && !spec_prim_fits(
                        #[trigger] mesh.primitives@[t],
                    )
            },
        },
{
    let ghost base = per_primitives@.len();
    let mut j: usize = 0;
    while j < mesh.primitives.len()
        invariant
            j <= mesh.primitives@.len(),
            spec_mesh_prims_wf(*mesh),
            base == old(per_primitives)@.len(),
            per_primitives@.len() == base + j,
            forall|t: int|
                0 <= t < base ==> (#[trigger] per_primitives@[t]) == old(per_primitives)@[t],
            forall|t: int|
                0 <= t < j ==> spec_prim_fits(#[trigger] mesh.primitives@[t]),
            forall|t: int|
                0 <= t < j ==> spec_packed_matches(
                    #[trigger] per_primitives@[base + t],
                    mesh.primitives@[t],
                ),
            forall|t: int|
                0 <= t < per_primitives@.len() ==> spec_packed_wf(
                    #[trigger] per_primitives@[t],
                    global_vertices@,
                    global_indices@,
                ),
            spec_contiguous(
                per_primitives@,
                global_vertices@.len() as int,
                global_indices@.len() as int,
            ),
        decreases mesh.primitives@.len() - j,
    {
        let primitive = &mesh.primitives[j];
        proof {
            reveal(spec_mesh_prims_wf);
        }
        if primitive.vertices.len() > u32::MAX as usize {
            return Err(ModelError::InvalidGltf);
        }
        match &primitive.indices {
            Some(v) => {
                if v.len() > u32::MAX as usize {
                    return Err(ModelError::InvalidGltf);
                }
            },
            None => {},
        }
        let ghost pre_vertices = global_vertices@;
        let ghost pre_indices = global_indices@;
        let packed = pack_primitive(primitive, global_vertices, global_indices);
        per_primitives.push(packed);
        proof {
            reveal(spec_contiguous);
            assert(global_vertices@.subrange(0, pre_vertices.len() as int) =~= pre_vertices);
            assert(global_indices@.subrange(0, pre_indices.len() as int) =~= pre_indices);
            assert forall|t: int|
                0 <= t < per_primitives@.len() - 1 implies spec_packed_wf(
                #[trigger] per_primitives@[t],
                global_vertices@,
                global_indices@,
            ) by {
                lemma_packed_wf_extend(
                    per_primitives@[t],
                    pre_vertices,
                    pre_indices,
                    global_vertices@,
                    global_indices@,
                );
            }
        }
        j = j + 1;
    }
    Ok(())
}

/// Extending the shared buffers on the right leaves an already packed
/// slot consistent.
proof fn lemma_packed_wf_extend(
    pp: PerPrimitive,
    vb: Seq<PrimitiveVertex>,
    ib: Seq<u32>,
    vb2: Seq<PrimitiveVertex>,
    ib2: Seq<u32>,
)
    requires
        spec_packed_wf(pp, vb, ib),
        vb2.len() >= vb.len(),
        ib2.len() >= ib.len(),
        vb2.subrange(0, vb.len() as int) == vb,
        ib2.subrange(0, ib.len() as int) == ib,
    ensures
        spec_packed_wf(pp, vb2, ib2),
{
    reveal(spec_packed_wf);
    assert(vb2.subrange(pp.vertex_range.0 as int, pp.vertex_range.1 as int) =~= vb.subrange(
        pp.vertex_range.0 as int,
        pp.vertex_range.1 as int,
    ));
    assert(ib2.subrange(pp.index_range.0 as int, pp.index_range.1 as int) =~= ib.subrange(
        pp.index_range.0 as int,
        pp.index_range.1 as int,
    ));
}

/// Packs one primitive: appends its vertices (and indices) to the shared
/// buffers and returns its slot, whose ranges cover exactly what was
/// appended.
fn pack_primitive(
    primitive: &Primitive,
    global_vertices: &mut Vec<PrimitiveVertex>,
    global_indices: &mut Vec<u32>,
) -> (pp: PerPrimitive)
    requires
        primitive.wf(),
        primitive.vertices@.len() <= u32::MAX,
        primitive.indices is Some ==> primitive.indices->Some_0@.len() <= u32::MAX,
    ensures
        final(global_vertices)@ == old(global_vertices)@ + primitive.vertices@,
        final(global_indices)@ == old(global_indices)@ + (match primitive.indices {
            Some(v) => v@,
            None => Seq::empty(),
        }),
        spec_packed_matches(pp, *primitive),
        spec_packed_wf(pp, final(global_vertices)@, final(global_indices)@),
        pp.vertex_range.0 == old(global_vertices)@.len(),
        pp.vertex_range.1 == final(global_vertices)@.len(),
        pp.index_range.0 == old(global_indices)@.len(),
        pp.index_range.1 == final(global_indices)@.len(),
{
    proof {
        reveal(Primitive::wf);
    }
    let vertex_offset = global_vertices.len();
    let index_offset = global_indices.len();
    let ghost pre_vertices = global_vertices@;
    let ghost pre_indices = global_indices@;
    let mut vi: usize = 0;
    while vi < primitive.vertices.len()
        invariant
            vi <= primitive.vertices@.len(),
            global_vertices@.len() == pre_vertices.len() + vi,
            global_vertices@ == pre_vertices + primitive.vertices@.subrange(0, vi as int),
        decreases primitive.vertices@.len() - vi,
    {
        global_vertices.push(primitive.vertices[vi]);
        proof {
            assert(global_vertices@ =~= pre_vertices + primitive.vertices@.subrange(
                0,
                vi as int + 1,
            ));
        }
        vi = vi + 1;
    }
    proof {
        assert(primitive.vertices@.subrange(0, primitive.vertices@.len() as int)
            =~= primitive.vertices@);
        assert(global_vertices@.subrange(0, pre_vertices.len() as int) =~= pre_vertices);
    }
    match &primitive.indices {
        Some(v) => {
            let mut ii: usize = 0;
            while ii < v.len()
                invariant
                    ii <= v@.len(),
                    global_indices@.len() == pre_indices.len() + ii,
                    global_indices@ == pre_indices + v@.subrange(0, ii as int),
                decreases v@.len() - ii,
            {
                global_indices.push(v[ii]);
                proof {
                    assert(global_indices@ =~= pre_indices + v@.subrange(0, ii as int + 1));
                }
                ii = ii + 1;
            }
            proof {
                assert(v@.subrange(0, v@.len() as int) =~= v@);
            }
        },
        None => {
            proof {
                assert(global_indices@ =~= pre_indices + Seq::<u32>::empty());
            }
        },
    }
    let staging_index = match &primitive.indices {
        Some(v) => {
            let c = v.clone();
            proof {
                assert(c@ =~= primitive.indices->Some_0@);
            }
            Some(c)
        },
        None => None,
    };
    let staging_vertex = primitive.vertices.clone();
    proof {
        assert(staging_vertex@ =~= primitive.vertices@);
    }
    let mut instance_transforms: Vec<Mat4B> = Vec::new();
    let mut ci: usize = 0;
    while ci < primitive.instance_transforms.len()
        invariant
            ci <= primitive.instance_transforms@.len(),
            instance_transforms@.len() == ci,
            forall|t: int|
                0 <= t < ci ==> (#[trigger] instance_transforms@[t])
                    == primitive.instance_transforms@[t],
        decreases primitive.instance_transforms@.len() - ci,
    {
        instance_transforms.push(primitive.instance_transforms[ci]);
        ci = ci + 1;
    }
    proof {
        assert(instance_transforms@ =~= primitive.instance_transforms@);
    }
    let mut instance_animations: Vec<Vec<Channel>> = Vec::new();
    let mut ca: usize = 0;
    while ca < primitive.instance_animations.len()
        invariant
            ca <= primitive.instance_animations@.len(),
            primitive.wf(),
            instance_animations@.len() == ca,
            forall|t: int|
                0 <= t < ca ==> crate::mesh::spec_channels_eq(
                    (#[trigger] instance_animations@[t])@,
                    primitive.instance_animations@[t]@,
                ),
            forall|t: int, u: int|
                0 <= t < ca && 0 <= u < instance_animations@[t]@.len()
                    ==> (#[trigger] instance_animations@[t]@[u]).wf(),
        decreases primitive.instance_animations@.len() - ca,
    {
        let mut inner: Vec<Channel> = Vec::new();
        let chs = &primitive.instance_animations[ca];
        let mut cc: usize = 0;
        while cc < chs.len()
            invariant
                cc <= chs@.len(),
                ca < primitive.instance_animations@.len(),
                primitive.wf(),
                chs@ == primitive.instance_animations@[ca as int]@,
                inner@.len() == cc,
                forall|t: int|
                    0 <= t < cc ==> crate::animation::spec_channel_eq(
                        #[trigger] inner@[t],
                        chs@[t],
                    ) && inner@[t].wf(),
            decreases chs@.len() - cc,
        {
            proof {
                reveal(Primitive::wf);
            }
            inner.push(chs[cc].duplicate());
            cc = cc + 1;
        }
        instance_animations.push(inner);
        ca = ca + 1;
    }
    let pp = PerPrimitive {
        id: primitive.index,
        index_range: (index_offset, global_indices.len()),
        vertex_range: (vertex_offset, global_vertices.len()),
        instance_animations,
        instance_transforms,
        instance_count: primitive.instance_count,
        staging_index,
        staging_vertex,
        material: primitive.material,
    };
    proof {
        reveal(spec_packed_wf);
        reveal(spec_packed_matches);
        assert(pp.staging_vertex@ =~= global_vertices@.subrange(
            pp.vertex_range.0 as int,
            pp.vertex_range.1 as int,
        ));
        match pp.staging_index {
            Some(ref v) => {
                assert(v@ =~= global_indices@.subrange(
                    pp.index_range.0 as int,
                    pp.index_range.1 as int,
                ));
            },
            None => {},
        }
    }
    pp
}

/// A primitive of mesh `m` at offset `j` appears in the flattened list.
pub proof fn lemma_flat_prims_contains(meshes: Seq<Mesh>, m: int, j: int)
    requires
        0 <= m < meshes.len(),
        0 <= j < meshes[m].primitives@.len(),
    ensures
        exists|k: int|
            0 <= k < spec_flat_prims(meshes).len() && #[trigger] spec_flat_prims(meshes)[k]
                == meshes[m].primitives@[j],
    decreases meshes.len(),
{
    if m == meshes.len() - 1 {
        let pre = spec_flat_prims(meshes.drop_last());
        assert(meshes.last() == meshes[m]);
        assert(spec_flat_prims(meshes)[pre.len() + j] == meshes[m].primitives@[j]);
    } else {
        lemma_flat_prims_contains(meshes.drop_last(), m, j);
        let k = choose|k: int|
            0 <= k < spec_flat_prims(meshes.drop_last()).len() && #[trigger] spec_flat_prims(
                meshes.drop_last(),
            )[k] == meshes.drop_last()[m].primitives@[j];
        assert(spec_flat_prims(meshes)[k] == meshes[m].primitives@[j]);
    }
}

} // verus!
