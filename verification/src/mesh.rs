//! Mesh assembly: turning raw primitive attribute streams into the
//! uniform GPU vertex layout (defaults filled in, feature mask recorded),
//! bounding boxes, instance transforms and per-instance animation
//! channels, and the face lists handed to tangent-space generation.

use vstd::prelude::*;

use crate::animation::{spec_channel_eq, Animation, Channel};
use crate::document::{DocMesh, DocPrimitive};
use crate::fbits::{min_bits, max_bits, ONE_BITS, ZERO_BITS};
use crate::kind::{kinds_from_flags, spec_kinds, ShaderKinds};
use crate::layout::{NodeIndex, NodeLayout};
use crate::material::{spec_white, Material};
use crate::mathx::{vec3_max, vec3_min, Mat4B, UVec4B, Vec2B, Vec3B, Vec4B};
use crate::model::ModelError;

verus! {

/// Bit pattern of the largest finite single-precision value.
pub const BOUND_MAX_BITS: u32 = 0x7f7f_ffff;

/// Bit pattern of the smallest finite single-precision value.
pub const BOUND_MIN_BITS: u32 = 0xff7f_ffff;

/// An axis-aligned bounding box.
#[derive(Clone, Copy, Debug, PartialEq, Eq, Structural)]
pub struct Aabb {
    pub min: Vec3B,
    pub max: Vec3B,
}

/// The componentwise minimum of two corners.
pub open spec fn spec_vec3_min(a: Vec3B, b: Vec3B) -> Vec3B {
    Vec3B { x: min_bits(a.x, b.x), y: min_bits(a.y, b.y), z: min_bits(a.z, b.z) }
}

/// The componentwise maximum of two corners.
pub open spec fn spec_vec3_max(a: Vec3B, b: Vec3B) -> Vec3B {
    Vec3B { x: max_bits(a.x, b.x), y: max_bits(a.y, b.y), z: max_bits(a.z, b.z) }
}

/// The box around both boxes.
pub open spec fn spec_aabb_union(a: Aabb, b: Aabb) -> Aabb {
    Aabb { min: spec_vec3_min(a.min, b.min), max: spec_vec3_max(a.max, b.max) }
}

/// The box at the origin.
pub open spec fn spec_aabb_zero() -> Aabb {
    Aabb {
        min: Vec3B { x: ZERO_BITS, y: ZERO_BITS, z: ZERO_BITS },
        max: Vec3B { x: ZERO_BITS, y: ZERO_BITS, z: ZERO_BITS },
    }
}

/// The left fold of box union (componentwise extremes) over a sequence of
/// boxes.
pub open spec fn spec_aabb_fold(boxes: Seq<Aabb>, acc: Aabb) -> Aabb
    decreases boxes.len(),
{
    if boxes.len() == 0 {
        acc
    } else {
        spec_aabb_fold(
            boxes.drop_first(),
            Aabb {
                min: spec_vec3_min(acc.min, boxes[0].min),
                max: spec_vec3_max(acc.max, boxes[0].max),
            },
        )
    }
}

/// The combined bounds of a list of boxes: the origin box when the list
/// is empty, otherwise the componentwise extremes seeded with the extreme
/// finite values.
pub open spec fn spec_aabb_unions(boxes: Seq<Aabb>) -> Aabb {
    if boxes.len() == 0 {
        spec_aabb_zero()
    } else {
        spec_aabb_fold(
            boxes,
            Aabb {
                min: Vec3B { x: BOUND_MAX_BITS, y: BOUND_MAX_BITS, z: BOUND_MAX_BITS },
                max: Vec3B { x: BOUND_MIN_BITS, y: BOUND_MIN_BITS, z: BOUND_MIN_BITS },
            },
        )
    }
}

impl Aabb {
    /// The box at the origin.
    pub fn zero() -> (r: Aabb)
        ensures
            r == spec_aabb_zero(),
    {
        Aabb {
            min: Vec3B::splat(ZERO_BITS),
            max: Vec3B::splat(ZERO_BITS),
        }
    }

    /// The box around both boxes.
    pub fn union(&self, other: &Aabb) -> (r: Aabb)
        ensures
            r == spec_aabb_union(*self, *other),
    {
        Aabb { min: vec3_min(&self.min, &other.min), max: vec3_max(&self.max, &other.max) }
    }

    /// The combined bounds of a list of boxes.
    pub fn unions(aabbs: &Vec<Aabb>) -> (r: Aabb)
        ensures
            r == spec_aabb_unions(aabbs@),
    {
        if aabbs.len() == 0 {
            return Aabb::zero();
        }
        let mut min = Vec3B::splat(BOUND_MAX_BITS);
        let mut max = Vec3B::splat(BOUND_MIN_BITS);
        proof {
            assert(aabbs@.subrange(0, aabbs@.len() as int) =~= aabbs@);
        }
        let mut i: usize = 0;
        while i < aabbs.len()
            invariant
                i <= aabbs@.len(),
                spec_aabb_fold(
                    aabbs@,
                    Aabb {
                        min: Vec3B {
                            x: BOUND_MAX_BITS,
                            y: BOUND_MAX_BITS,
                            z: BOUND_MAX_BITS,
                        },
                        max: Vec3B {
                            x: BOUND_MIN_BITS,
                            y: BOUND_MIN_BITS,
                            z: BOUND_MIN_BITS,
                        },
                    },
                ) == spec_aabb_fold(
                    aabbs@.subrange(i as int, aabbs@.len() as int),
                    Aabb { min, max },
                ),
            decreases aabbs@.len() - i,
        {
            proof {
                let rest = aabbs@.subrange(i as int, aabbs@.len() as int);
                assert(rest.drop_first() =~= aabbs@.subrange(i as int + 1, aabbs@.len() as int));
                assert(rest[0] == aabbs@[i as int]);
            }
            min = vec3_min(&min, &aabbs[i].min);
            max = vec3_max(&max, &aabbs[i].max);
            i = i + 1;
        }
        proof {
            assert(aabbs@.subrange(0, aabbs@.len() as int) =~= aabbs@);
            assert(aabbs@.subrange(aabbs@.len() as int, aabbs@.len() as int).len() == 0);
        }
        Aabb { min, max }
    }
}

/// One assembled vertex in the uniform GPU layout.
#[derive(Clone, Copy, Debug, PartialEq, Eq, Structural)]
pub struct PrimitiveVertex {
    pub position: Vec3B,
    pub normal: Vec3B,
    pub tex_coord_0: Vec2B,
    pub tex_coord_1: Vec2B,
    pub tangent: Vec4B,
    pub weights: Vec4B,
    pub joints: UVec4B,
    pub color: Vec4B,
    pub shader_kinds: ShaderKinds,
}

/// The default normal for sources without one.
pub open spec fn spec_default_normal() -> Vec3B {
    Vec3B { x: ONE_BITS, y: ONE_BITS, z: ONE_BITS }
}

/// The default texture coordinate.
pub open spec fn spec_default_tex() -> Vec2B {
    Vec2B { x: ZERO_BITS, y: ZERO_BITS }
}

/// The default tangent (`w` carries the handedness sign).
pub open spec fn spec_default_tangent() -> Vec4B {
    Vec4B { x: ONE_BITS, y: ONE_BITS, z: ONE_BITS, w: ONE_BITS }
}

/// The default skin weights.
pub open spec fn spec_default_weights() -> Vec4B {
    Vec4B { x: ZERO_BITS, y: ZERO_BITS, z: ZERO_BITS, w: ZERO_BITS }
}

/// The default joint indices.
pub open spec fn spec_default_joints() -> UVec4B {
    UVec4B { x: 0, y: 0, z: 0, w: 0 }
}

/// A primitive source the assembler accepts: a position stream is
/// present, and every optional stream that is present runs parallel to
/// it.
pub open spec fn spec_prim_ok(dp: DocPrimitive) -> bool {
    &&& dp.positions is Some
    &&& {
        let plen = dp.positions->Some_0@.len();
        &&& (dp.normals is Some ==> dp.normals->Some_0@.len() == plen)
        &&& (dp.tangents is Some ==> dp.tangents->Some_0@.len() == plen)
        &&& (dp.tex_coords_0 is Some ==> dp.tex_coords_0->Some_0@.len() == plen)
        &&& (dp.tex_coords_1 is Some ==> dp.tex_coords_1->Some_0@.len() == plen)
        &&& (dp.weights is Some ==> dp.weights->Some_0@.len() == plen)
        &&& (dp.joints is Some ==> dp.joints->Some_0@.len() == plen)
        &&& (dp.colors is Some ==> dp.colors->Some_0@.len() == plen)
    }
}

/// The feature mask every vertex of the primitive receives: a bit per
/// optional stream that was present, with the color bit also forced when
/// the material's base color is not plain white.
pub open spec fn spec_prim_kinds(dp: DocPrimitive) -> u32 {
    spec_kinds(
        dp.normals is Some,
        dp.tangents is Some,
        dp.tex_coords_0 is Some,
        dp.tex_coords_1 is Some,
        dp.weights is Some,
        dp.joints is Some,
        dp.colors is Some || dp.material.color != spec_white(),
    )
}

/// Vertex `i` of the assembled primitive: each attribute taken from its
/// stream when present, its documented default otherwise (a missing color
/// stream falls back to the material's base color).
pub open spec fn spec_vertex(dp: DocPrimitive, i: int) -> PrimitiveVertex {
    PrimitiveVertex {
        position: dp.positions->Some_0@[i],
        normal: match dp.normals {
            Some(v) => v@[i],
            None => spec_default_normal(),
        },
        tex_coord_0: match dp.tex_coords_0 {
            Some(v) => v@[i],
            None => spec_default_tex(),
        },
        tex_coord_1: match dp.tex_coords_1 {
            Some(v) => v@[i],
            None => spec_default_tex(),
        },
        tangent: match dp.tangents {
            Some(v) => v@[i],
            None => spec_default_tangent(),
        },
        weights: match dp.weights {
            Some(v) => v@[i],
            None => spec_default_weights(),
        },
        joints: match dp.joints {
            Some(v) => v@[i],
            None => spec_default_joints(),
        },
        color: match dp.colors {
            Some(v) => v@[i],
            None => dp.material.color,
        },
        shader_kinds: ShaderKinds(spec_prim_kinds(dp)),
    }
}

/// The left fold of componentwise extremes over a position stream.
pub open spec fn spec_pos_fold(pos: Seq<Vec3B>, mn: Vec3B, mx: Vec3B) -> (Vec3B, Vec3B)
    decreases pos.len(),
{
    if pos.len() == 0 {
        (mn, mx)
    } else {
        spec_pos_fold(pos.drop_first(), spec_vec3_min(mn, pos[0]), spec_vec3_max(mx, pos[0]))
    }
}

/// The primitive's bounds: the declared corners when the source has
/// them, otherwise the extremes of the position stream (seeded with the
/// extreme finite values).
pub open spec fn spec_prim_aabb(dp: DocPrimitive) -> Aabb {
    match (dp.bound_min, dp.bound_max) {
        (Some(mn), Some(mx)) => Aabb { min: mn, max: mx },
        _ => {
            let folded = spec_pos_fold(
                dp.positions->Some_0@,
                Vec3B { x: BOUND_MAX_BITS, y: BOUND_MAX_BITS, z: BOUND_MAX_BITS },
                Vec3B { x: BOUND_MIN_BITS, y: BOUND_MIN_BITS, z: BOUND_MIN_BITS },
            );
            Aabb { min: folded.0, max: folded.1 }
        },
    }
}

/// Channels of one clip targeting `node`, in clip order.
pub open spec fn spec_filter_channels(chs: Seq<Channel>, node: NodeIndex) -> Seq<Channel>
    decreases chs.len(),
{
    if chs.len() == 0 {
        Seq::empty()
    } else if chs.last().node_index == node {
        spec_filter_channels(chs.drop_last(), node).push(chs.last())
    } else {
        spec_filter_channels(chs.drop_last(), node)
    }
}

/// Every channel of every clip targeting `node`, clips in document order,
/// channels in clip order.
pub open spec fn spec_node_channels(anims: Seq<Animation>, node: NodeIndex) -> Seq<Channel>
    decreases anims.len(),
{
    if anims.len() == 0 {
        Seq::empty()
    } else {
        spec_node_channels(anims.drop_last(), node) + spec_filter_channels(
            anims.last().channels@,
            node,
        )
    }
}

/// Two channel lists with pairwise identical content.
pub open spec fn spec_channels_eq(a: Seq<Channel>, b: Seq<Channel>) -> bool {
    &&& a.len() == b.len()
    &&& forall|k: int| 0 <= k < a.len() ==> spec_channel_eq(#[trigger] a[k], b[k])
}

/// Every channel of every clip is well-formed.
pub open spec fn spec_animations_wf(anims: Seq<Animation>) -> bool {
    forall|a: int, k: int|
        0 <= a < anims.len() && 0 <= k < anims[a].channels@.len()
            ==> (#[trigger] anims[a].channels@[k]).wf()
}

/// Collects owned copies of every channel targeting `node`.
fn channels_for_node(animations: &Vec<Animation>, node: NodeIndex) -> (r: Vec<Channel>)
    requires
        spec_animations_wf(animations@),
    ensures
        spec_channels_eq(r@, spec_node_channels(animations@, node)),
        forall|k: int| 0 <= k < r@.len() ==> (#[trigger] r@[k]).wf(),
{
    let mut out: Vec<Channel> = Vec::new();
    let mut a: usize = 0;
    while a < animations.len()
        invariant
            a <= animations@.len(),
            spec_animations_wf(animations@),
            spec_channels_eq(
                out@,
                spec_node_channels(animations@.subrange(0, a as int), node),
            ),
            forall|k: int| 0 <= k < out@.len() ==> (#[trigger] out@[k]).wf(),
        decreases animations@.len() - a,
    {
        let chs = &animations[a].channels;
        let mut c: usize = 0;
        while c < chs.len()
            invariant
                c <= chs@.len(),
                a < animations@.len(),
                chs@ == animations@[a as int].channels@,
                spec_animations_wf(animations@),
                spec_channels_eq(
                    out@,
                    spec_node_channels(animations@.subrange(0, a as int), node)
                        + spec_filter_channels(chs@.subrange(0, c as int), node),
                ),
                forall|k: int| 0 <= k < out@.len() ==> (#[trigger] out@[k]).wf(),
            decreases chs@.len() - c,
        {
            proof {
                let pre = chs@.subrange(0, c as int);
                let post = chs@.subrange(0, c as int + 1);
                assert(post.drop_last() =~= pre);
                assert(post.last() == chs@[c as int]);
            }
            if chs[c].node_index == node {
                out.push(chs[c].duplicate());
            }
            c = c + 1;
        }
        proof {
            assert(chs@.subrange(0, chs@.len() as int) =~= chs@);
            let pre = animations@.subrange(0, a as int);
            let post = animations@.subrange(0, a as int + 1);
            assert(post.drop_last() =~= pre);
            assert(post.last() == animations@[a as int]);
        }
        a = a + 1;
    }
    proof {
        assert(animations@.subrange(0, animations@.len() as int) =~= animations@);
    }
    out
}

/// One drawable geometry chunk with its instances.
pub struct Primitive {
    pub index: usize,
    pub vertices: Vec<PrimitiveVertex>,
    pub indices: Option<Vec<u32>>,
    pub material: Material,
    pub aabb: Aabb,
    pub instance_transforms: Vec<Mat4B>,
    /// Parallel to `instance_transforms`: the channels animating each
    /// instance; an empty list marks a static instance.
    pub instance_animations: Vec<Vec<Channel>>,
    pub instance_count: u32,
}

impl Primitive {
    /// The instance bookkeeping invariant: one transform and one channel
    /// list per instance, and every channel well-formed.
    #[verifier::opaque]
    pub open spec fn wf(self) -> bool {
        &&& self.instance_transforms@.len() == self.instance_count as int
        &&& self.instance_animations@.len() == self.instance_count as int
        &&& forall|k: int, t: int|
            0 <= k < self.instance_animations@.len() && 0 <= t
                < self.instance_animations@[k]@.len()
                ==> (#[trigger] self.instance_animations@[k]@[t]).wf()
    }

    /// True when tangent-space generation applies: there are vertices,
    /// normals and a texture-coordinate set were present, and tangents
    /// were not.
    pub fn wants_generated_tangents(&self) -> (r: bool)
        ensures
            r == spec_wants_tangents(*self),
    {
        if self.vertices.len() == 0 {
            return false;
        }
        let kinds = self.vertices[0].shader_kinds;
        kinds.is_normal() && kinds.is_tex_coord() && !kinds.is_tangent()
    }
}

/// Tangent generation applies to a primitive: it has vertices whose mask
/// shows normals and a texture-coordinate set but no tangents.
pub open spec fn spec_wants_tangents(p: Primitive) -> bool {
    &&& p.vertices@.len() > 0
    &&& p.vertices@[0].shader_kinds.0 & 2 != 0
    &&& (p.vertices@[0].shader_kinds.0 & 4 != 0 || p.vertices@[0].shader_kinds.0 & 8 != 0)
    &&& p.vertices@[0].shader_kinds.0 & 16 == 0
}

/// One triangle of a face list, as three vertex indices.
#[derive(Clone, Copy, Debug, PartialEq, Eq, Structural)]
pub struct TriFace {
    pub a: u32,
    pub b: u32,
    pub c: u32,
}

/// The face list tangent generation walks, or nothing when the topology
/// is unusable: no vertices, an index count that is not a multiple of
/// three, or an implicit (unindexed) triangle list whose vertex count is
/// not a multiple of three or too large to index.
pub open spec fn spec_tangent_faces(indices: Option<Seq<u32>>, vc: int) -> Option<Seq<TriFace>> {
    if vc == 0 {
        None
    } else {
        match indices {
            None => {
                if vc % 3 != 0 || vc > u32::MAX {
                    None
                } else {
                    Some(
                        Seq::new(
                            (vc / 3) as nat,
                            |f: int| TriFace {
                                a: (3 * f) as u32,
                                b: (3 * f + 1) as u32,
                                c: (3 * f + 2) as u32,
                            },
                        ),
                    )
                }
            },
            Some(idx) => {
                if idx.len() != 0 && idx.len() % 3 != 0 {
                    None
                } else {
                    Some(
                        Seq::new(
                            (idx.len() as int / 3) as nat,
                            |f: int| TriFace { a: idx[3 * f], b: idx[3 * f + 1], c: idx[3 * f + 2] },
                        ),
                    )
                }
            },
        }
    }
}

/// Builds the triangle list tangent generation walks: triples of stored
/// indices when the primitive is indexed, implicit consecutive triples
/// otherwise.
pub fn tangent_faces(indices: &Option<Vec<u32>>, vertex_count: usize) -> (r: Option<
    Vec<TriFace>,
>)
    ensures
        match r {
            Some(faces) => {
                &&& spec_tangent_faces(
                    match indices {
                        Some(v) => Some(v@),
                        None => None,
                    },
                    vertex_count as int,
                ) == Some(faces@)
            },
            None => spec_tangent_faces(
                match indices {
                    Some(v) => Some(v@),
                    None => None,
                },
                vertex_count as int,
            ) is None,
        },
{
    if vertex_count == 0 {
        return None;
    }
    match indices {
        None => {
            if vertex_count % 3 != 0 {
                return None;
            }
            if vertex_count > u32::MAX as usize {
                return None;
            }
            let count = vertex_count / 3;
            let mut faces: Vec<TriFace> = Vec::new();
            let mut f: usize = 0;
            while f < count
                invariant
                    f <= count,
                    count == vertex_count as int / 3,
                    vertex_count % 3 == 0,
                    vertex_count <= u32::MAX,
                    faces@.len() == f,
                    forall|k: int|
                        0 <= k < f ==> (#[trigger] faces@[k]) == (TriFace {
                            a: (3 * k) as u32,
                            b: (3 * k + 1) as u32,
                            c: (3 * k + 2) as u32,
                        }),
                decreases count - f,
            {
                proof {
                    assert(3 * (f as int) + 3 <= vertex_count) by (nonlinear_arith)
                        requires
                            (f as int) < vertex_count as int / 3,
                            vertex_count as int % 3 == 0,
                            vertex_count as int >= 0,
                    ;
                }
                let base = 3 * f;
                faces.push(TriFace { a: base as u32, b: (base + 1) as u32, c: (base + 2) as u32 });
                f = f + 1;
            }
            proof {
                assert(faces@ =~= spec_tangent_faces(
                    None,
                    vertex_count as int,
                )->Some_0);
            }
            Some(faces)
        },
        Some(idx) => {
            let ilen = idx.len();
            if ilen != 0 && ilen % 3 != 0 {
                return None;
            }
            let count = ilen / 3;
            let mut faces: Vec<TriFace> = Vec::new();
            let mut f: usize = 0;
            while f < count
                invariant
                    f <= count,
                    count == ilen as int / 3,
                    ilen == idx@.len(),
                    ilen % 3 == 0 || ilen == 0,
                    faces@.len() == f,
                    forall|k: int|
                        0 <= k < f ==> (#[trigger] faces@[k]) == (TriFace {
                            a: idx@[3 * k],
                            b: idx@[3 * k + 1],
                            c: idx@[3 * k + 2],
                        }),
                decreases count - f,
            {
                proof {
                    assert(3 * (f as int) + 3 <= ilen) by (nonlinear_arith)
                        requires
                            (f as int) < ilen as int / 3,
                            ilen as int % 3 == 0 || ilen as int == 0,
                            ilen as int >= 0,
                    ;
                }
                let base = 3 * f;
                faces.push(TriFace { a: idx[base], b: idx[base + 1], c: idx[base + 2] });
                f = f + 1;
            }
            proof {
                assert(faces@ =~= spec_tangent_faces(
                    Some(idx@),
                    vertex_count as int,
                )->Some_0);
            }
            Some(faces)
        },
    }
}

/// A vertex with its tangent replaced.
pub open spec fn spec_with_tangent(v: PrimitiveVertex, t: Vec4B) -> PrimitiveVertex {
    PrimitiveVertex { tangent: t, ..v }
}

/// Writes a generated tangent into one vertex, leaving every other
/// attribute unchanged.
pub fn set_vertex_tangent(vertices: &mut Vec<PrimitiveVertex>, index: usize, tangent: Vec4B)
    requires
        index < old(vertices)@.len(),
    ensures
        final(vertices)@ == old(vertices)@.update(
            index as int,
            spec_with_tangent(old(vertices)@[index as int], tangent),
        ),
{
    let v = vertices[index];
    vertices[index] = PrimitiveVertex {
        position: v.position,
        normal: v.normal,
        tex_coord_0: v.tex_coord_0,
        tex_coord_1: v.tex_coord_1,
        tangent,
        weights: v.weights,
        joints: v.joints,
        color: v.color,
        shader_kinds: v.shader_kinds,
    };
    proof {
        assert(vertices@ =~= old(vertices)@.update(
            index as int,
            spec_with_tangent(old(vertices)@[index as int], tangent),
        ));
    }
}

/// One assembled mesh.
pub struct Mesh {
    pub primitives: Vec<Primitive>,
    pub aabb: Aabb,
}

/// The assembled primitive `p` is exactly what source primitive `dp`
/// prescribes under the given layout, clip list, and identifier.
pub open spec fn spec_prim_matches(
    p: Primitive,
    dp: DocPrimitive,
    l: NodeLayout,
    mi: int,
    anims: Seq<Animation>,
    id: int,
) -> bool {
    let nodes = l.mesh_nodes@[mi]@;
    &&& p.index == id
    &&& p.vertices@.len() == dp.positions->Some_0@.len()
    &&& forall|i: int| 0 <= i < p.vertices@.len() ==> (#[trigger] p.vertices@[i]) == spec_vertex(dp, i)
    &&& (p.indices is Some <==> dp.indices is Some)
    &&& (p.indices is Some ==> p.indices->Some_0@ == dp.indices->Some_0@)
    &&& p.material == dp.material
    &&& p.aabb == spec_prim_aabb(dp)
    &&& p.instance_transforms@.len() == nodes.len()
    &&& forall|k: int|
        0 <= k < nodes.len() ==> (#[trigger] p.instance_transforms@[k])@ == l.spec_world(
            nodes[k] as int,
        )
    &&& p.instance_count as int == nodes.len()
    &&& p.instance_animations@.len() == nodes.len()
    &&& forall|k: int|
        0 <= k < nodes.len() ==> spec_channels_eq(
            (#[trigger] p.instance_animations@[k])@,
            spec_node_channels(anims, NodeIndex(nodes[k])),
        )
}

/// Assembles one primitive.
fn parse_primitive(
    node_layout: &NodeLayout,
    mesh_index: usize,
    dp: &DocPrimitive,
    animations: &Vec<Animation>,
    id: usize,
) -> (r: Result<Primitive, ModelError>)
    requires
        node_layout.wf(),
        mesh_index < node_layout.mesh_nodes@.len(),
        spec_animations_wf(animations@),
    ensures
        match r {
            Ok(p) => {
                &&& spec_prim_ok(*dp)
                &&& p.wf()
                &&& spec_prim_matches(
                    p,
                    *dp,
                    *node_layout,
                    mesh_index as int,
                    animations@,
                    id as int,
                )
            },
            Err(e) => {
                &&& e == ModelError::InvalidGltf
                &&& !spec_prim_ok(*dp)
            },
        },
{
    let positions = match &dp.positions {
        Some(p) => p,
        None => {
            return Err(ModelError::InvalidGltf);
        },
    };
    let plen = positions.len();
    // Every present stream must run parallel to the positions.
    match &dp.normals {
        Some(v) => {
            if v.len() != plen {
                return Err(ModelError::InvalidGltf);
            }
        },
        None => {},
    }
    match &dp.tangents {
        Some(v) => {
            if v.len() != plen {
                return Err(ModelError::InvalidGltf);
            }
        },
        None => {},
    }
    match &dp.tex_coords_0 {
        Some(v) => {
            if v.len() != plen {
                return Err(ModelError::InvalidGltf);
            }
        },
        None => {},
    }
    match &dp.tex_coords_1 {
        Some(v) => {
            if v.len() != plen {
                return Err(ModelError::InvalidGltf);
            }
        },
        None => {},
    }
    match &dp.weights {
        Some(v) => {
            if v.len() != plen {
                return Err(ModelError::InvalidGltf);
            }
        },
        None => {},
    }
    match &dp.joints {
        Some(v) => {
            if v.len() != plen {
                return Err(ModelError::InvalidGltf);
            }
        },
        None => {},
    }
    match &dp.colors {
        Some(v) => {
            if v.len() != plen {
                return Err(ModelError::InvalidGltf);
            }
        },
        None => {},
    }
    // The feature mask, shared by every vertex of the primitive.
    let has_colors = match &dp.colors {
        Some(_) => true,
        None => false,
    };
    let shader_kinds = kinds_from_flags(
        match &dp.normals {
            Some(_) => true,
            None => false,
        },
        match &dp.tangents {
            Some(_) => true,
            None => false,
        },
        match &dp.tex_coords_0 {
            Some(_) => true,
            None => false,
        },
        match &dp.tex_coords_1 {
            Some(_) => true,
            None => false,
        },
        match &dp.weights {
            Some(_) => true,
            None => false,
        },
        match &dp.joints {
            Some(_) => true,
            None => false,
        },
        has_colors || !dp.material.is_white(),
    );
    // Assemble the uniform vertices, defaults filling absent streams.
    let mut vertices: Vec<PrimitiveVertex> = Vec::new();
    let mut i: usize = 0;
    while i < plen
        invariant
            i <= plen,
            spec_prim_ok(*dp),
            plen == dp.positions->Some_0@.len(),
            shader_kinds.0 == spec_prim_kinds(*dp),
            vertices@.len() == i,
            forall|k: int| 0 <= k < i ==> (#[trigger] vertices@[k]) == spec_vertex(*dp, k),
        decreases plen - i,
    {
        let position = match &dp.positions {
            Some(v) => v[i],
            None => Vec3B::splat(ZERO_BITS),
        };
        let normal = match &dp.normals {
            Some(v) => v[i],
            None => Vec3B::splat(ONE_BITS),
        };
        let tex_coord_0 = match &dp.tex_coords_0 {
            Some(v) => v[i],
            None => Vec2B::splat(ZERO_BITS),
        };
        let tex_coord_1 = match &dp.tex_coords_1 {
            Some(v) => v[i],
            None => Vec2B::splat(ZERO_BITS),
        };
        let tangent = match &dp.tangents {
            Some(v) => v[i],
            None => Vec4B::splat(ONE_BITS),
        };
        let weights = match &dp.weights {
            Some(v) => v[i],
            None => Vec4B::splat(ZERO_BITS),
        };
        let joints = match &dp.joints {
            Some(v) => v[i],
            None => UVec4B::splat(0),
        };
        let color = match &dp.colors {
            Some(v) => v[i],
            None => dp.material.color,
        };
        vertices.push(PrimitiveVertex {
            position,
            normal,
            tex_coord_0,
            tex_coord_1,
            tangent,
            weights,
            joints,
            color,
            shader_kinds,
        });
        i = i + 1;
    }
    // Bounds: declared when available, computed from positions otherwise.
    let aabb = compute_prim_aabb(dp, positions);
    // Instances: one transform and one channel list per instancing node.
    let nodes = &node_layout.mesh_nodes[mesh_index];
    let mut instance_transforms: Vec<Mat4B> = Vec::new();
    let mut instance_animations: Vec<Vec<Channel>> = Vec::new();
    let mut k: usize = 0;
    while k < nodes.len()
        invariant
            k <= nodes@.len(),
            node_layout.wf(),
            mesh_index < node_layout.mesh_nodes@.len(),
            nodes@ == node_layout.mesh_nodes@[mesh_index as int]@,
            spec_animations_wf(animations@),
            instance_transforms@.len() == k,
            instance_animations@.len() == k,
            forall|t: int|
                0 <= t < k ==> (#[trigger] instance_transforms@[t])@ == node_layout.spec_world(
                    nodes@[t] as int,
                ),
            forall|t: int|
                0 <= t < k ==> spec_channels_eq(
                    (#[trigger] instance_animations@[t])@,
                    spec_node_channels(animations@, NodeIndex(nodes@[t])),
                ),
            forall|t: int, u: int|
                0 <= t < k && 0 <= u < instance_animations@[t]@.len()
                    ==> (#[trigger] instance_animations@[t]@[u]).wf(),
        decreases nodes@.len() - k,
    {
        let node = nodes[k];
        instance_transforms.push(node_layout.get_node_transform(NodeIndex(node)));
        instance_animations.push(channels_for_node(animations, NodeIndex(node)));
        k = k + 1;
    }
    proof {
        reveal(Primitive::wf);
    }
    let instance_count = instance_transforms.len() as u32;
    let indices = match &dp.indices {
        Some(v) => {
            let c = v.clone();
            proof {
                assert(c@ =~= dp.indices->Some_0@);
            }
            Some(c)
        },
        None => None,
    };
    Ok(Primitive {
        index: id,
        vertices,
        indices,
        material: dp.material,
        aabb,
        instance_transforms,
        instance_animations,
        instance_count,
    })
}

/// The primitive's bounds, exactly as `spec_prim_aabb` prescribes.
fn compute_prim_aabb(dp: &DocPrimitive, positions: &Vec<Vec3B>) -> (r: Aabb)
    requires
        dp.positions is Some,
        positions@ == dp.positions->Some_0@,
    ensures
        r == spec_prim_aabb(*dp),
{
    match (&dp.bound_min, &dp.bound_max) {
        (Some(mn), Some(mx)) => Aabb { min: *mn, max: *mx },
        _ => {
            let mut mn = Vec3B::splat(BOUND_MAX_BITS);
            let mut mx = Vec3B::splat(BOUND_MIN_BITS);
            proof {
                assert(positions@.subrange(0, positions@.len() as int) =~= positions@);
            }
            let mut i: usize = 0;
            while i < positions.len()
                invariant
                    i <= positions@.len(),
                    spec_pos_fold(
                        positions@,
                        Vec3B { x: BOUND_MAX_BITS, y: BOUND_MAX_BITS, z: BOUND_MAX_BITS },
                        Vec3B { x: BOUND_MIN_BITS, y: BOUND_MIN_BITS, z: BOUND_MIN_BITS },
                    ) == spec_pos_fold(
                        positions@.subrange(i as int, positions@.len() as int),
                        mn,
                        mx,
                    ),
                decreases positions@.len() - i,
            {
                proof {
                    let rest = positions@.subrange(i as int, positions@.len() as int);
                    assert(rest.drop_first() =~= positions@.subrange(
                        i as int + 1,
                        positions@.len() as int,
                    ));
                    assert(rest[0] == positions@[i as int]);
                }
                mn = vec3_min(&mn, &positions[i]);
                mx = vec3_max(&mx, &positions[i]);
                i = i + 1;
            }
            proof {
                assert(positions@.subrange(0, positions@.len() as int) =~= positions@);
                assert(positions@.subrange(
                    positions@.len() as int,
                    positions@.len() as int,
                ).len() == 0);
            }
            Aabb { min: mn, max: mx }
        },
    }
}

impl Mesh {
    /// Assembles every primitive of one source mesh. Primitive `j`
    /// receives identifier `base_id + j`. Fails exactly when some
    /// primitive is malformed.
    pub fn parse(
        node_layout: &NodeLayout,
        mesh_index: usize,
        dm: &DocMesh,
        animations: &Vec<Animation>,
        base_id: usize,
    ) -> (r: Result<Mesh, ModelError>)
        requires
            node_layout.wf(),
            mesh_index < node_layout.mesh_nodes@.len(),
            spec_animations_wf(animations@),
            base_id + dm.primitives@.len() <= usize::MAX,
        ensures
            match r {
                Ok(m) => {
                    &&& forall|j: int|
                        0 <= j < dm.primitives@.len() ==> spec_prim_ok(
                            #[trigger] dm.primitives@[j],
                        )
                    &&& m.primitives@.len() == dm.primitives@.len()
                    &&& forall|j: int|
                        0 <= j < dm.primitives@.len() ==> (#[trigger] m.primitives@[j]).wf()
                            && spec_prim_matches(
                            m.primitives@[j],
                            dm.primitives@[j],
                            *node_layout,
                            mesh_index as int,
                            animations@,
                            base_id + j,
                        )
                    &&& m.aabb == spec_aabb_unions(
                        Seq::new(m.primitives@.len(), |j: int| m.primitives@[j].aabb),
                    )
                },
                Err(e) => {
                    &&& e == ModelError::InvalidGltf
                    &&& exists|j: int|
                        0 <= j < dm.primitives@.len() && !spec_prim_ok(
                            #[trigger] dm.primitives@[j],
                        )
                },
            },
    {
        let mut primitives: Vec<Primitive> = Vec::new();
        let mut boxes: Vec<Aabb> = Vec::new();
        let mut j: usize = 0;
        while j < dm.primitives.len()
            invariant
                j <= dm.primitives@.len(),
                node_layout.wf(),
                mesh_index < node_layout.mesh_nodes@.len(),
                spec_animations_wf(animations@),
                base_id + dm.primitives@.len() <= usize::MAX,
                primitives@.len() == j,
                forall|t: int|
                    0 <= t < j ==> spec_prim_ok(#[trigger] dm.primitives@[t]),
                forall|t: int|
                    0 <= t < j ==> (#[trigger] primitives@[t]).wf() && spec_prim_matches(
                        primitives@[t],
                        dm.primitives@[t],
                        *node_layout,
                        mesh_index as int,
                        animations@,
                        base_id + t,
                    ),
                boxes@.len() == j,
                forall|t: int| 0 <= t < j ==> (#[trigger] boxes@[t]) == primitives@[t].aabb,
            decreases dm.primitives@.len() - j,
        {
            let prim = match parse_primitive(
                node_layout,
                mesh_index,
                &dm.primitives[j],
                animations,
                base_id + j,
            ) {
                Ok(p) => p,
                Err(e) => {
                    return Err(e);
                },
            };
            boxes.push(prim.aabb);
            primitives.push(prim);
            j = j + 1;
        }
        // The mesh box is the plain union of its primitives' boxes.
        let aabb = Aabb::unions(&boxes);
        proof {
            assert(boxes@ =~= Seq::new(
                primitives@.len(),
                |t: int| primitives@[t].aabb,
            ));
        }
        Ok(Mesh { primitives, aabb })
    }
}

/// Default-attribute fill: a primitive assembled without a normal stream
/// carries the default normal on every vertex.
pub proof fn lemma_default_normal_fill(dp: DocPrimitive, i: int)
    requires
        dp.normals is None,
    ensures
        spec_vertex(dp, i).normal == spec_default_normal(),
{
}

/// A primitive assembled without a tangent stream carries the default
/// tangent on every vertex, until tangent generation (if it applies)
/// replaces it.
pub proof fn lemma_default_tangent_fill(dp: DocPrimitive, i: int)
    requires
        dp.tangents is None,
    ensures
        spec_vertex(dp, i).tangent == spec_default_tangent(),
{
}

/// A primitive lacking both texture-coordinate sets is never a candidate
/// for tangent generation, so its default tangents stay.
pub proof fn lemma_no_uv_no_tangent_generation(p: Primitive, dp: DocPrimitive)
    requires
        dp.tex_coords_0 is None,
        dp.tex_coords_1 is None,
        p.vertices@.len() > 0,
        forall|i: int| 0 <= i < p.vertices@.len() ==> (#[trigger] p.vertices@[i]) == spec_vertex(dp, i),
    ensures
        !spec_wants_tangents(p),
{
    crate::kind::lemma_kinds_bits(
        dp.normals is Some,
        dp.tangents is Some,
        false,
        false,
        dp.weights is Some,
        dp.joints is Some,
        dp.colors is Some || dp.material.color != spec_white(),
    );
    assert(p.vertices@[0] == spec_vertex(dp, 0));
}

} // verus!
