use mario_skurt::animation::{Channel, Interpolation, PropertyKind, PropertyValue};
use mario_skurt::document::DocChannel;
use mario_skurt::mathx::{Vec3B, Vec4B};
use mario_skurt::model::ModelError;

fn b(x: f32) -> u32 {
    x.to_bits()
}

fn v3(x: f32, y: f32, z: f32) -> Vec3B {
    Vec3B { x: b(x), y: b(y), z: b(z) }
}

fn translation_channel(times: &[f32], values: &[[f32; 3]], mode: Interpolation) -> DocChannel {
    let mut flat = Vec::new();
    for v in values {
        flat.push(b(v[0]));
        flat.push(b(v[1]));
        flat.push(b(v[2]));
    }
    DocChannel {
        node_index: 0,
        property: PropertyKind::Translation,
        interpolation: mode,
        times: times.iter().map(|t| b(*t)).collect(),
        values: flat,
        input_normalized: false,
        output_normalized: false,
    }
}

fn rotation_channel(times: &[f32], values: &[[f32; 4]]) -> DocChannel {
    let mut flat = Vec::new();
    for v in values {
        flat.push(b(v[0]));
        flat.push(b(v[1]));
        flat.push(b(v[2]));
        flat.push(b(v[3]));
    }
    DocChannel {
        node_index: 0,
        property: PropertyKind::Rotation,
        interpolation: Interpolation::Linear,
        times: times.iter().map(|t| b(*t)).collect(),
        values: flat,
        input_normalized: false,
        output_normalized: false,
    }
}

#[test]
fn animation_loops_modulo_duration() {
    let dc = translation_channel(
        &[0.0, 1.0, 2.0],
        &[[0.0, 0.0, 0.0], [10.0, 0.0, 0.0], [4.0, 4.0, 4.0]],
        Interpolation::Linear,
    );
    let c = Channel::parse(&dc).unwrap();
    let at_half = c.interpolate(b(0.5));
    let looped = c.interpolate(b(2.5));
    assert!(at_half.is_some());
    assert_eq!(at_half, looped);
}

#[test]
fn exact_keyframe_is_passed_through() {
    let dc = translation_channel(
        &[0.0, 1.0, 2.0],
        &[[0.0, 0.0, 0.0], [10.0, 20.0, 30.0], [4.0, 4.0, 4.0]],
        Interpolation::Linear,
    );
    let c = Channel::parse(&dc).unwrap();
    let v = c.interpolate(b(1.0)).unwrap();
    assert_eq!(v, PropertyValue::Translation(v3(10.0, 20.0, 30.0)));
}

#[test]
fn linear_interpolation_midpoint() {
    let dc = translation_channel(
        &[0.0, 1.0],
        &[[0.0, 0.0, 0.0], [10.0, 0.0, 0.0]],
        Interpolation::Linear,
    );
    let c = Channel::parse(&dc).unwrap();
    let v = c.interpolate(b(0.5)).unwrap();
    assert_eq!(v, PropertyValue::Translation(v3(5.0, 0.0, 0.0)));
}

#[test]
fn step_mode_holds_left_sample() {
    let dc = translation_channel(
        &[0.0, 1.0],
        &[[1.0, 2.0, 3.0], [9.0, 9.0, 9.0]],
        Interpolation::Step,
    );
    let c = Channel::parse(&dc).unwrap();
    let v = c.interpolate(b(0.75)).unwrap();
    assert_eq!(v, PropertyValue::Translation(v3(1.0, 2.0, 3.0)));
}

#[test]
fn slerp_result_stays_unit_length() {
    let half = std::f32::consts::FRAC_1_SQRT_2;
    let dc = rotation_channel(&[0.0, 1.0], &[[0.0, 0.0, 0.0, 1.0], [0.0, half, 0.0, half]]);
    let c = Channel::parse(&dc).unwrap();
    for ratio in [0.1f32, 0.25, 0.5, 0.75, 0.9] {
        match c.interpolate(b(ratio)).unwrap() {
            PropertyValue::Rotation(Vec4B { x, y, z, w }) => {
                let (x, y, z, w) = (
                    f32::from_bits(x),
                    f32::from_bits(y),
                    f32::from_bits(z),
                    f32::from_bits(w),
                );
                let norm = (x * x + y * y + z * z + w * w).sqrt();
                assert!((norm - 1.0).abs() < 1e-5);
            },
            other => panic!("expected a rotation, got {:?}", other),
        }
    }
}

#[test]
fn time_before_first_keyframe_yields_nothing() {
    let dc = translation_channel(
        &[1.0, 2.0],
        &[[0.0, 0.0, 0.0], [1.0, 1.0, 1.0]],
        Interpolation::Linear,
    );
    let c = Channel::parse(&dc).unwrap();
    // 0.5 modulo the duration of 2.0 stays 0.5, before the first key.
    assert_eq!(c.interpolate(b(0.5)), None);
}

#[test]
fn non_monotonic_times_are_rejected() {
    let dc = translation_channel(
        &[0.0, 2.0, 1.0],
        &[[0.0, 0.0, 0.0], [1.0, 1.0, 1.0], [2.0, 2.0, 2.0]],
        Interpolation::Linear,
    );
    assert_eq!(Channel::parse(&dc).err(), Some(ModelError::InvalidGltf));
}

#[test]
fn empty_times_are_rejected() {
    let dc = translation_channel(&[], &[], Interpolation::Linear);
    assert_eq!(Channel::parse(&dc).err(), Some(ModelError::InvalidGltf));
}

#[test]
fn morph_target_channels_are_rejected() {
    let mut dc = translation_channel(
        &[0.0, 1.0],
        &[[0.0, 0.0, 0.0], [1.0, 1.0, 1.0]],
        Interpolation::Linear,
    );
    dc.property = PropertyKind::MorphTargetWeights;
    dc.values = vec![b(0.0), b(1.0)];
    assert_eq!(Channel::parse(&dc).err(), Some(ModelError::InvalidGltf));
}

#[test]
fn wrong_value_stream_length_is_rejected() {
    let mut dc = translation_channel(
        &[0.0, 1.0],
        &[[0.0, 0.0, 0.0], [1.0, 1.0, 1.0]],
        Interpolation::Linear,
    );
    dc.values.pop();
    assert_eq!(Channel::parse(&dc).err(), Some(ModelError::InvalidGltf));
}

#[test]
fn normalized_input_rescales_times() {
    let mut dc = translation_channel(
        &[10.0, 20.0, 30.0],
        &[[0.0, 0.0, 0.0], [10.0, 0.0, 0.0], [0.0, 0.0, 0.0]],
        Interpolation::Linear,
    );
    dc.input_normalized = true;
    let c = Channel::parse(&dc).unwrap();
    // Times become [0, 0.5, 1]; halfway between the first two keys.
    let v = c.interpolate(b(0.25)).unwrap();
    assert_eq!(v, PropertyValue::Translation(v3(5.0, 0.0, 0.0)));
}

#[test]
fn normalized_output_renormalizes_quaternions() {
    let mut dc = rotation_channel(
        &[0.0, 1.0],
        &[[0.0, 0.0, 0.0, 2.0], [0.0, 2.0, 0.0, 0.0]],
    );
    dc.output_normalized = true;
    let c = Channel::parse(&dc).unwrap();
    let v = c.interpolate(b(0.0)).unwrap();
    assert_eq!(
        v,
        PropertyValue::Rotation(Vec4B { x: b(0.0), y: b(0.0), z: b(0.0), w: b(1.0) })
    );
}

#[test]
fn slerp_moves_between_the_endpoints() {
    let half = std::f32::consts::FRAC_1_SQRT_2;
    let dc = rotation_channel(&[0.0, 1.0], &[[0.0, 0.0, 0.0, 1.0], [0.0, half, 0.0, half]]);
    let c = Channel::parse(&dc).unwrap();
    let mid = c.interpolate(b(0.5)).unwrap();
    assert_ne!(mid, PropertyValue::Rotation(Vec4B { x: b(0.0), y: b(0.0), z: b(0.0), w: b(1.0) }));
    assert_ne!(mid, PropertyValue::Rotation(Vec4B { x: b(0.0), y: b(half), z: b(0.0), w: b(half) }));
}

#[test]
fn normalized_output_renormalizes_vectors() {
    let mut dc = translation_channel(
        &[0.0, 1.0],
        &[[3.0, 0.0, 0.0], [0.0, 5.0, 0.0]],
        Interpolation::Linear,
    );
    dc.output_normalized = true;
    let c = Channel::parse(&dc).unwrap();
    assert_eq!(
        c.interpolate(b(0.0)).unwrap(),
        PropertyValue::Translation(v3(1.0, 0.0, 0.0))
    );
}

#[test]
fn cubic_spline_channels_are_rejected() {
    let mut dc = translation_channel(
        &[0.0, 1.0],
        &[[0.0, 0.0, 0.0], [1.0, 1.0, 1.0]],
        Interpolation::Linear,
    );
    dc.interpolation = Interpolation::CubicSpline;
    assert_eq!(Channel::parse(&dc).err(), Some(ModelError::InvalidGltf));
}

#[test]
fn property_kind_sample_sizes() {
    assert_eq!(PropertyKind::Translation.size(), 3);
    assert_eq!(PropertyKind::Rotation.size(), 4);
    assert_eq!(PropertyKind::Scale.size(), 3);
    assert_eq!(PropertyKind::MorphTargetWeights.size(), 1);
}

#[test]
fn property_value_reports_its_kind() {
    let v = PropertyValue::Scale(v3(1.0, 1.0, 1.0));
    assert_eq!(v.kind(), PropertyKind::Scale);
}
