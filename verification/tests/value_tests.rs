use mario_skurt::document::{DocMesh, DocScene, Document};
use mario_skurt::fbits::{f32_eq, f32_le, f32_lt, f32_max, f32_min, f32_rem};
use mario_skurt::kind::ShaderKinds;
use mario_skurt::material::{AlphaMode, Material};
use mario_skurt::mathx::{mat4_mul, Mat4B};
use mario_skurt::model::{create_index, IndexWidth, ModelMetadata};

fn b(x: f32) -> u32 {
    x.to_bits()
}

#[test]
fn bit_comparisons_follow_float_order() {
    assert!(f32_lt(b(1.0), b(2.0)));
    assert!(!f32_lt(b(2.0), b(1.0)));
    assert!(f32_lt(b(-3.0), b(-2.0)));
    assert!(f32_le(b(2.0), b(2.0)));
    // The two zeros compare equal.
    assert!(f32_eq(b(0.0), b(-0.0)));
    // NaN is unordered against everything, itself included.
    let nan = b(f32::NAN);
    assert!(!f32_lt(nan, b(1.0)));
    assert!(!f32_le(b(1.0), nan));
    assert!(!f32_eq(nan, nan));
}

#[test]
fn bit_min_max_pick_the_extremes() {
    assert_eq!(f32_min(b(1.5), b(-2.0)), b(-2.0));
    assert_eq!(f32_max(b(1.5), b(-2.0)), b(1.5));
}

#[test]
fn bit_remainder_matches_float_remainder() {
    assert_eq!(f32_rem(b(2.5), b(2.0)), b(0.5));
    assert_eq!(f32_rem(b(7.75), b(2.0)), b(1.75));
}

#[test]
fn shader_kind_flags_answer_their_bits() {
    let k = ShaderKinds(ShaderKinds::NORMAL | ShaderKinds::TEX_COORD_1);
    assert!(k.is_normal());
    assert!(!k.is_tangent());
    assert!(!k.is_tex_coord0());
    assert!(k.is_tex_coord1());
    assert!(k.is_tex_coord());
    assert!(!k.is_color());
    assert!(!k.is_none());
    assert!(ShaderKinds(0).is_none());
}

#[test]
fn all_flags_cover_every_bit() {
    assert_eq!(ShaderKinds::all_flags(), ShaderKinds(255));
    assert_eq!(ShaderKinds::all().len(), 8);
}

#[test]
fn default_material_is_opaque_white() {
    let m = Material::default();
    assert_eq!(m.color.x, b(1.0));
    assert_eq!(m.color.w, b(1.0));
    assert_eq!(m.alpha_mode, AlphaMode::Opaque);
    assert_eq!(m.alpha_cutoff, b(0.5));
    assert_eq!(m.metallic_roughness.metallic, b(1.0));
    assert!(m.color_texture.is_none());
    assert!(m.is_white());
}

#[test]
fn alpha_modes_have_stable_wire_values() {
    assert_eq!(AlphaMode::Opaque.as_u32(), 0);
    assert_eq!(AlphaMode::Mask.as_u32(), 1);
    assert_eq!(AlphaMode::Blend.as_u32(), 2);
}

#[test]
fn identity_matrix_multiplication_is_neutral() {
    let id = Mat4B::identity();
    let m = {
        let a = glam::Mat4::from_translation(glam::Vec3::new(4.0, 5.0, 6.0)).to_cols_array();
        let mut bits = [0u32; 16];
        let mut i = 0;
        while i < 16 {
            bits[i] = a[i].to_bits();
            i += 1;
        }
        Mat4B { m: bits }
    };
    assert_eq!(mat4_mul(&id, &m).m, m.m);
    assert_eq!(mat4_mul(&m, &id).m, m.m);
}

#[test]
fn metadata_counts_the_document() {
    let doc = Document {
        scenes: vec![DocScene { nodes: vec![] }, DocScene { nodes: vec![] }],
        nodes: vec![],
        meshes: vec![DocMesh { primitives: vec![] }],
        animations: vec![],
        materials: vec![],
        images: vec![],
        skin_count: 4,
    };
    let meta = ModelMetadata::new(String::from("scene"), String::from("scene.gltf"), &doc);
    assert_eq!(meta.scene_count, 2);
    assert_eq!(meta.mesh_count, 1);
    assert_eq!(meta.node_count, 0);
    assert_eq!(meta.skin_count, 4);
    assert_eq!(meta.name, "scene");
}

#[test]
fn index_width_narrows_when_vertices_fit() {
    assert!(create_index(&None, 10).is_none());
    let wide = create_index(&Some(vec![0, 1, 2]), 70000).unwrap();
    assert_eq!(wide.format, IndexWidth::Uint32);
    assert!(wide.narrow.is_none());
    let narrow = create_index(&Some(vec![0, 1, 2]), 3).unwrap();
    assert_eq!(narrow.format, IndexWidth::Uint16);
    assert_eq!(narrow.narrow.unwrap(), vec![0u16, 1, 2]);
}
