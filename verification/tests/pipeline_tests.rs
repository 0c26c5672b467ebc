use mario_skurt::document::{
    images_supported, DocAnimation, DocChannel, DocImage, DocMesh, DocNode, DocPrimitive,
    DocScene, Document, PixelFormat,
};
use mario_skurt::animation::{Interpolation, PropertyKind};
use mario_skurt::kind::ShaderKinds;
use mario_skurt::layout::{NodeIndex, NodeLayout};
use mario_skurt::loader::prepare_document;
use mario_skurt::material::{AlphaMode, Material};
use mario_skurt::mathx::{Mat4B, Vec2B, Vec3B, Vec4B};
use mario_skurt::mesh::{set_vertex_tangent, tangent_faces, Aabb};
use mario_skurt::model::{create_texture_data, Model, ModelError};
use mario_skurt::world::AssetRegistry;

fn b(x: f32) -> u32 {
    x.to_bits()
}

fn v3(x: f32, y: f32, z: f32) -> Vec3B {
    Vec3B { x: b(x), y: b(y), z: b(z) }
}

fn v2(x: f32, y: f32) -> Vec2B {
    Vec2B { x: b(x), y: b(y) }
}

fn m4(m: glam::Mat4) -> Mat4B {
    let a = m.to_cols_array();
    let mut bits = [0u32; 16];
    let mut i = 0;
    while i < 16 {
        bits[i] = a[i].to_bits();
        i += 1;
    }
    Mat4B { m: bits }
}

fn node(transform: glam::Mat4, mesh: Option<u32>, children: Vec<u32>) -> DocNode {
    DocNode { local_transform: m4(transform), mesh, children }
}

fn bare_primitive(positions: Vec<Vec3B>) -> DocPrimitive {
    DocPrimitive {
        positions: Some(positions),
        normals: None,
        tangents: None,
        tex_coords_0: None,
        tex_coords_1: None,
        weights: None,
        joints: None,
        colors: None,
        indices: None,
        material: Material::default(),
        bound_min: None,
        bound_max: None,
    }
}

fn triangle_positions() -> Vec<Vec3B> {
    vec![v3(0.0, 0.0, 0.0), v3(1.0, 0.0, 0.0), v3(0.0, 1.0, 0.0)]
}

fn one_triangle_document() -> Document {
    Document {
        scenes: vec![DocScene { nodes: vec![0] }],
        nodes: vec![node(glam::Mat4::IDENTITY, Some(0), vec![])],
        meshes: vec![DocMesh { primitives: vec![bare_primitive(triangle_positions())] }],
        animations: vec![],
        materials: vec![],
        images: vec![],
        skin_count: 0,
    }
}

#[test]
fn world_transform_composes_parent_on_the_left() {
    let r = glam::Mat4::from_translation(glam::Vec3::new(1.0, 2.0, 3.0));
    let a = glam::Mat4::from_rotation_z(std::f32::consts::FRAC_PI_2);
    let bm = glam::Mat4::from_scale(glam::Vec3::new(2.0, 1.0, 1.0));
    let nodes = vec![
        node(r, None, vec![1]),
        node(a, None, vec![2]),
        node(bm, None, vec![]),
    ];
    let layout = NodeLayout::from_document(&nodes, 0).unwrap();
    let world = layout.get_node_transform(NodeIndex(2));
    let expected = m4(r * (a * bm));
    assert_eq!(world.m, expected.m);
    // The same chain with the order flipped gives a different matrix, so
    // the composition order is observable.
    let flipped = m4(bm * (a * r));
    assert_ne!(world.m, flipped.m);
}

#[test]
fn out_of_range_child_is_a_load_error() {
    let nodes = vec![node(glam::Mat4::IDENTITY, None, vec![7])];
    assert_eq!(
        NodeLayout::from_document(&nodes, 0).err(),
        Some(ModelError::InvalidGltf)
    );
}

#[test]
fn cyclic_hierarchy_is_a_load_error() {
    let nodes = vec![
        node(glam::Mat4::IDENTITY, None, vec![1]),
        node(glam::Mat4::IDENTITY, None, vec![0]),
    ];
    assert_eq!(
        NodeLayout::from_document(&nodes, 0).err(),
        Some(ModelError::InvalidGltf)
    );
}

#[test]
fn missing_positions_are_a_load_error() {
    let mut doc = one_triangle_document();
    doc.meshes[0].primitives[0].positions = None;
    assert_eq!(prepare_document(&doc).err(), Some(ModelError::InvalidGltf));
}

#[test]
fn default_normals_fill_missing_stream() {
    let doc = one_triangle_document();
    let (_, _, meshes) = prepare_document(&doc).unwrap();
    let prim = &meshes[0].primitives[0];
    assert_eq!(prim.vertices.len(), 3);
    for v in prim.vertices.iter() {
        assert_eq!(v.normal, v3(1.0, 1.0, 1.0));
        assert_eq!(v.tangent, Vec4B { x: b(1.0), y: b(1.0), z: b(1.0), w: b(1.0) });
        assert_eq!(v.tex_coord_0, v2(0.0, 0.0));
        assert_eq!(v.color, Vec4B { x: b(1.0), y: b(1.0), z: b(1.0), w: b(1.0) });
    }
    // Only the forced color bit could have been set; with a white
    // material and no streams the mask is empty.
    let mask: ShaderKinds = prim.vertices[0].shader_kinds;
    assert!(mask.is_none());
}

#[test]
fn instance_bookkeeping_is_parallel() {
    let mut doc = one_triangle_document();
    // Two nodes instance the same mesh.
    doc.nodes = vec![
        node(glam::Mat4::IDENTITY, Some(0), vec![]),
        node(glam::Mat4::from_translation(glam::Vec3::X), Some(0), vec![]),
    ];
    let (_, _, meshes) = prepare_document(&doc).unwrap();
    let prim = &meshes[0].primitives[0];
    assert_eq!(prim.instance_transforms.len(), 2);
    assert_eq!(prim.instance_animations.len(), 2);
    assert_eq!(prim.instance_count, 2);
}

struct TangentProbe {
    faces: Vec<[u32; 3]>,
    positions: Vec<[f32; 3]>,
    normals: Vec<[f32; 3]>,
    tex_coords: Vec<[f32; 2]>,
    out: Vec<(usize, [f32; 4])>,
}

impl mikktspace::Geometry for TangentProbe {
    fn num_faces(&self) -> usize {
        self.faces.len()
    }

    fn num_vertices_of_face(&self, _face: usize) -> usize {
        3
    }

    fn position(&self, face: usize, vert: usize) -> [f32; 3] {
        self.positions[self.faces[face][vert] as usize]
    }

    fn normal(&self, face: usize, vert: usize) -> [f32; 3] {
        self.normals[self.faces[face][vert] as usize]
    }

    fn tex_coord(&self, face: usize, vert: usize) -> [f32; 2] {
        self.tex_coords[self.faces[face][vert] as usize]
    }

    fn set_tangent_encoded(&mut self, tangent: [f32; 4], face: usize, vert: usize) {
        let index = self.faces[face][vert] as usize;
        self.out.push((index, tangent));
    }
}

#[test]
fn tangents_are_generated_when_normals_and_uvs_exist() {
    let mut doc = one_triangle_document();
    let prim = &mut doc.meshes[0].primitives[0];
    prim.normals = Some(vec![v3(0.0, 0.0, 1.0); 3]);
    prim.tex_coords_0 = Some(vec![v2(0.0, 0.0), v2(1.0, 0.0), v2(0.0, 1.0)]);
    let (_, _, mut meshes) = prepare_document(&doc).unwrap();
    let prim = &mut meshes[0].primitives[0];
    assert!(prim.wants_generated_tangents());
    let faces = tangent_faces(&prim.indices, prim.vertices.len()).unwrap();
    let mut probe = TangentProbe {
        faces: faces.iter().map(|f| [f.a, f.b, f.c]).collect(),
        positions: prim
            .vertices
            .iter()
            .map(|v| {
                [
                    f32::from_bits(v.position.x),
                    f32::from_bits(v.position.y),
                    f32::from_bits(v.position.z),
                ]
            })
            .collect(),
        normals: prim
            .vertices
            .iter()
            .map(|v| {
                [
                    f32::from_bits(v.normal.x),
                    f32::from_bits(v.normal.y),
                    f32::from_bits(v.normal.z),
                ]
            })
            .collect(),
        tex_coords: prim
            .vertices
            .iter()
            .map(|v| {
                [
                    f32::from_bits(v.tex_coord_0.x),
                    f32::from_bits(v.tex_coord_0.y),
                ]
            })
            .collect(),
        out: Vec::new(),
    };
    assert!(mikktspace::generate_tangents(&mut probe));
    for (index, tangent) in probe.out.iter() {
        set_vertex_tangent(
            &mut prim.vertices,
            *index,
            Vec4B {
                x: tangent[0].to_bits(),
                y: tangent[1].to_bits(),
                z: tangent[2].to_bits(),
                w: tangent[3].to_bits(),
            },
        );
    }
    let default_tangent = Vec4B { x: b(1.0), y: b(1.0), z: b(1.0), w: b(1.0) };
    for v in prim.vertices.iter() {
        assert_ne!(v.tangent, default_tangent);
    }
}

#[test]
fn primitive_without_uvs_keeps_default_tangent() {
    let mut doc = one_triangle_document();
    doc.meshes[0].primitives[0].normals = Some(vec![v3(0.0, 0.0, 1.0); 3]);
    let (_, _, meshes) = prepare_document(&doc).unwrap();
    let prim = &meshes[0].primitives[0];
    assert!(!prim.wants_generated_tangents());
    let default_tangent = Vec4B { x: b(1.0), y: b(1.0), z: b(1.0), w: b(1.0) };
    for v in prim.vertices.iter() {
        assert_eq!(v.tangent, default_tangent);
    }
}

#[test]
fn faces_need_a_triangle_multiple() {
    assert!(tangent_faces(&None, 4).is_none());
    assert!(tangent_faces(&None, 0).is_none());
    assert!(tangent_faces(&Some(vec![0, 1, 2, 3]), 4).is_none());
    let faces = tangent_faces(&Some(vec![0, 1, 2, 2, 1, 3]), 4).unwrap();
    assert_eq!(faces.len(), 2);
    assert_eq!([faces[1].a, faces[1].b, faces[1].c], [2, 1, 3]);
}

#[test]
fn end_to_end_minimal_document() {
    let doc = one_triangle_document();
    let model = Model::from_document(&doc, 0).unwrap();
    assert_eq!(model.packed_primitives.vertex_buffer.len(), 3);
    assert_eq!(model.packed_primitives.index_buffer.len(), 0);
    let prim = &model.packed_primitives.per_primitives[0];
    assert!(prim.staging_index.is_none());
    assert_eq!(prim.instance_transforms.len(), 1);
    assert_eq!(prim.instance_transforms[0].m, m4(glam::Mat4::IDENTITY).m);
    let mut registry = AssetRegistry::new();
    registry.register(model);
    assert_eq!(registry.opaque_models.len(), 1);
    assert_eq!(registry.transparent_models.len(), 0);
}

#[test]
fn blend_material_sends_whole_pack_to_transparent_bucket() {
    let mut doc = one_triangle_document();
    let mut blend_prim = bare_primitive(triangle_positions());
    blend_prim.material.alpha_mode = AlphaMode::Blend;
    doc.meshes[0].primitives.push(blend_prim);
    let model = Model::from_document(&doc, 0).unwrap();
    let mut registry = AssetRegistry::new();
    registry.register(model);
    assert_eq!(registry.opaque_models.len(), 0);
    assert_eq!(registry.transparent_models.len(), 1);
}

#[test]
fn mask_material_stays_in_opaque_bucket() {
    let mut doc = one_triangle_document();
    doc.meshes[0].primitives[0].material.alpha_mode = AlphaMode::Mask;
    let model = Model::from_document(&doc, 0).unwrap();
    let mut registry = AssetRegistry::new();
    registry.register(model);
    assert_eq!(registry.opaque_models.len(), 1);
    assert_eq!(registry.transparent_models.len(), 0);
}

#[test]
fn empty_scene_list_is_no_scene() {
    let mut doc = one_triangle_document();
    doc.scenes = vec![];
    assert_eq!(Model::from_document(&doc, 0).err(), Some(ModelError::NoScene));
}

#[test]
fn rgb_pixels_gain_full_opacity() {
    let img = DocImage {
        width: 2,
        height: 1,
        format: PixelFormat::Rgb8,
        pixels: vec![1, 2, 3, 4, 5, 6],
    };
    let t = create_texture_data(&img);
    assert_eq!(t.rgba, vec![1, 2, 3, 255, 4, 5, 6, 255]);
}

#[test]
fn rgba_pixels_pass_through() {
    let img = DocImage {
        width: 1,
        height: 1,
        format: PixelFormat::Rgba8,
        pixels: vec![9, 8, 7, 6],
    };
    let t = create_texture_data(&img);
    assert_eq!(t.rgba, vec![9, 8, 7, 6]);
}

#[test]
fn declared_bounds_are_used_and_missing_bounds_are_computed() {
    let mut doc = one_triangle_document();
    doc.meshes[0].primitives[0].bound_min = Some(v3(-1.0, -2.0, -3.0));
    doc.meshes[0].primitives[0].bound_max = Some(v3(4.0, 5.0, 6.0));
    let (_, _, meshes) = prepare_document(&doc).unwrap();
    assert_eq!(meshes[0].primitives[0].aabb.min, v3(-1.0, -2.0, -3.0));
    assert_eq!(meshes[0].primitives[0].aabb.max, v3(4.0, 5.0, 6.0));

    let doc2 = one_triangle_document();
    let (_, _, meshes2) = prepare_document(&doc2).unwrap();
    assert_eq!(meshes2[0].primitives[0].aabb.min, v3(0.0, 0.0, 0.0));
    assert_eq!(meshes2[0].primitives[0].aabb.max, v3(1.0, 1.0, 0.0));
}

#[test]
fn mesh_bounds_do_not_include_the_origin() {
    // A mesh sitting away from the origin must get exactly its own box,
    // not one stretched to the origin.
    let mut doc = one_triangle_document();
    doc.meshes[0].primitives[0].bound_min = Some(v3(1.0, 2.0, 3.0));
    doc.meshes[0].primitives[0].bound_max = Some(v3(4.0, 5.0, 6.0));
    let (_, _, meshes) = prepare_document(&doc).unwrap();
    assert_eq!(meshes[0].aabb.min, v3(1.0, 2.0, 3.0));
    assert_eq!(meshes[0].aabb.max, v3(4.0, 5.0, 6.0));
    let model = Model::from_document(&doc, 0).unwrap();
    assert_eq!(model.packed_primitives.aabb.min, v3(1.0, 2.0, 3.0));
    assert_eq!(model.packed_primitives.aabb.max, v3(4.0, 5.0, 6.0));
}

#[test]
fn image_stream_must_match_declared_dimensions() {
    let good = DocImage {
        width: 2,
        height: 1,
        format: PixelFormat::Rgb8,
        pixels: vec![0; 6],
    };
    let short = DocImage {
        width: 2,
        height: 2,
        format: PixelFormat::Rgb8,
        pixels: vec![0; 6],
    };
    assert!(images_supported(&vec![good]));
    assert!(!images_supported(&vec![short]));
}

#[test]
fn aabb_union_takes_componentwise_extremes() {
    let a = Aabb { min: v3(-1.0, 0.0, 0.0), max: v3(1.0, 1.0, 1.0) };
    let c = Aabb { min: v3(0.0, -2.0, 0.5), max: v3(0.5, 3.0, 0.75) };
    let u = a.union(&c);
    assert_eq!(u.min, v3(-1.0, -2.0, 0.0));
    assert_eq!(u.max, v3(1.0, 3.0, 1.0));
}

#[test]
fn non_white_base_color_tints_vertices() {
    let mut doc = one_triangle_document();
    doc.meshes[0].primitives[0].material.color =
        Vec4B { x: b(0.5), y: b(0.25), z: b(1.0), w: b(1.0) };
    let (_, _, meshes) = prepare_document(&doc).unwrap();
    let prim = &meshes[0].primitives[0];
    assert!(prim.vertices[0].shader_kinds.is_color());
    assert_eq!(prim.vertices[0].color, Vec4B { x: b(0.5), y: b(0.25), z: b(1.0), w: b(1.0) });
}

fn animated_document() -> Document {
    let mut doc = one_triangle_document();
    doc.animations = vec![DocAnimation {
        channels: vec![DocChannel {
            node_index: 0,
            property: PropertyKind::Translation,
            interpolation: Interpolation::Linear,
            times: vec![b(0.0), b(1.0)],
            values: vec![b(0.0), b(0.0), b(0.0), b(10.0), b(0.0), b(0.0)],
            input_normalized: false,
            output_normalized: false,
        }],
    }];
    doc
}

#[test]
fn static_primitive_is_staged_once() {
    let doc = one_triangle_document();
    let mut model = Model::from_document(&doc, 0).unwrap();
    model.iter(b(0.0));
    let first = snapshot(&model);
    model.iter(b(123.5));
    let second = snapshot(&model);
    assert_eq!(first, second);
}

#[test]
fn animated_primitive_is_restaged_with_the_clock() {
    let doc = animated_document();
    let mut model = Model::from_document(&doc, 0).unwrap();
    // First staging uses the resting pose; later ones animate.
    model.iter(b(0.0));
    model.iter(b(0.25));
    let early = snapshot(&model);
    model.iter(b(0.75));
    let late = snapshot(&model);
    assert_ne!(early, late);
    // The evaluated translation is applied on the right of the resting
    // transform.
    let expected = m4(glam::Mat4::IDENTITY * glam::Mat4::from_translation(
        glam::Vec3::new(7.5, 0.0, 0.0),
    ));
    assert_eq!(late[0], expected.m);
}

#[test]
fn staging_applies_rotation_and_scale_channels() {
    let q = glam::Quat::from_rotation_y(std::f32::consts::FRAC_PI_2);
    let qa = q.to_array();
    let mut doc = one_triangle_document();
    doc.animations = vec![
        DocAnimation {
            channels: vec![DocChannel {
                node_index: 0,
                property: PropertyKind::Rotation,
                interpolation: Interpolation::Step,
                times: vec![b(0.0), b(1.0)],
                values: vec![
                    b(qa[0]),
                    b(qa[1]),
                    b(qa[2]),
                    b(qa[3]),
                    b(0.0),
                    b(0.0),
                    b(0.0),
                    b(1.0),
                ],
                input_normalized: false,
                output_normalized: false,
            }],
        },
        DocAnimation {
            channels: vec![DocChannel {
                node_index: 0,
                property: PropertyKind::Scale,
                interpolation: Interpolation::Step,
                times: vec![b(0.0), b(1.0)],
                values: vec![b(2.0), b(2.0), b(2.0), b(1.0), b(1.0), b(1.0)],
                input_normalized: false,
                output_normalized: false,
            }],
        },
    ];
    let mut model = Model::from_document(&doc, 0).unwrap();
    model.iter(b(0.0));
    // A step track held at 0.5 applies the left keyframe of each channel,
    // rotation first, then scale, each composed on the right.
    model.iter(b(0.5));
    let staged = snapshot(&model);
    let expected = m4(
        glam::Mat4::IDENTITY * glam::Mat4::from_quat(q) * glam::Mat4::from_scale(
            glam::Vec3::new(2.0, 2.0, 2.0),
        ),
    );
    assert_eq!(staged[0], expected.m);
}

fn snapshot(model: &Model) -> Vec<[u32; 16]> {
    let render = model.get_render(0).as_ref().unwrap();
    render.instance_transforms.iter().map(|t| t.m).collect()
}
