//! Vector, quaternion and matrix values in bit-pattern form, with the
//! floating-point operations the pipeline needs named and delegated to glam.

use vstd::prelude::*;

use crate::fbits::ZERO_BITS;

verus! {

/// A two-component single-precision vector as bit patterns.
#[derive(Clone, Copy, Debug, PartialEq, Eq, Structural)]
pub struct Vec2B {
    pub x: u32,
    pub y: u32,
}

/// A three-component single-precision vector as bit patterns.
#[derive(Clone, Copy, Debug, PartialEq, Eq, Structural)]
pub struct Vec3B {
    pub x: u32,
    pub y: u32,
    pub z: u32,
}

/// A four-component single-precision vector (or quaternion, `w` last) as
/// bit patterns.
#[derive(Clone, Copy, Debug, PartialEq, Eq, Structural)]
pub struct Vec4B {
    pub x: u32,
    pub y: u32,
    pub z: u32,
    pub w: u32,
}

/// Four unsigned integer lanes (joint indices).
#[derive(Clone, Copy, Debug, PartialEq, Eq, Structural)]
pub struct UVec4B {
    pub x: u32,
    pub y: u32,
    pub z: u32,
    pub w: u32,
}

/// A 4x4 column-major single-precision matrix as bit patterns.
#[derive(Clone, Copy, Debug)]
pub struct Mat4B {
    pub m: [u32; 16],
}

impl Vec2B {
    pub open spec fn view(self) -> Seq<u32> {
        seq![self.x, self.y]
    }

    pub fn splat(v: u32) -> (r: Vec2B)
        ensures
            r == (Vec2B { x: v, y: v }),
    {
        Vec2B { x: v, y: v }
    }
}

impl Vec3B {
    pub open spec fn view(self) -> Seq<u32> {
        seq![self.x, self.y, self.z]
    }

    pub fn splat(v: u32) -> (r: Vec3B)
        ensures
            r == (Vec3B { x: v, y: v, z: v }),
    {
        Vec3B { x: v, y: v, z: v }
    }
}

impl Vec4B {
    pub open spec fn view(self) -> Seq<u32> {
        seq![self.x, self.y, self.z, self.w]
    }

    pub fn splat(v: u32) -> (r: Vec4B)
        ensures
            r == (Vec4B { x: v, y: v, z: v, w: v }),
    {
        Vec4B { x: v, y: v, z: v, w: v }
    }
}

impl UVec4B {
    pub open spec fn view(self) -> Seq<u32> {
        seq![self.x, self.y, self.z, self.w]
    }

    pub fn splat(v: u32) -> (r: UVec4B)
        ensures
            r == (UVec4B { x: v, y: v, z: v, w: v }),
    {
        UVec4B { x: v, y: v, z: v, w: v }
    }
}

impl Mat4B {
    pub open spec fn view(self) -> Seq<u32> {
        self.m@
    }

    /// The identity matrix: ones on the diagonal, zeros elsewhere, in bit
    /// patterns.
    pub fn identity() -> (r: Mat4B)
        ensures
            r@ == identity_bits(),
    {
        let mut m: [u32; 16] = [ZERO_BITS; 16];
        m[0] = crate::fbits::ONE_BITS;
        m[5] = crate::fbits::ONE_BITS;
        m[10] = crate::fbits::ONE_BITS;
        m[15] = crate::fbits::ONE_BITS;
        let r = Mat4B { m };
        proof {
            assert(r@ =~= identity_bits());
        }
        r
    }
}

/// The identity matrix in bit-pattern form.
pub open spec fn identity_bits() -> Seq<u32> {
    Seq::new(16, |i: int|
        if i == 0 || i == 5 || i == 10 || i == 15 {
            crate::fbits::ONE_BITS
        } else {
            ZERO_BITS
        }
    )
}

/// Names the product of two matrices as computed by glam's `Mat4 * Mat4`.
pub uninterp spec fn mat_mul(a: Seq<u32>, b: Seq<u32>) -> Seq<u32>;

/// Names the rotation matrix glam builds from a quaternion.
pub uninterp spec fn mat_of_quat(q: Seq<u32>) -> Seq<u32>;

/// Names the scale matrix glam builds from a three-vector.
pub uninterp spec fn mat_of_scale(s: Seq<u32>) -> Seq<u32>;

/// Names the translation matrix glam builds from a three-vector.
pub uninterp spec fn mat_of_translation(t: Seq<u32>) -> Seq<u32>;

/// Names glam's linear interpolation of two three-vectors at a ratio.
pub uninterp spec fn lerp3(a: Seq<u32>, b: Seq<u32>, s: u32) -> Seq<u32>;

/// Names glam's spherical linear interpolation of two quaternions at a
/// ratio.
pub uninterp spec fn slerp4(a: Seq<u32>, b: Seq<u32>, s: u32) -> Seq<u32>;

/// Names glam's normalization of a three-vector.
pub uninterp spec fn norm3(v: Seq<u32>) -> Seq<u32>;

/// Names glam's normalization of a quaternion.
pub uninterp spec fn norm4(q: Seq<u32>) -> Seq<u32>;

/// Relies on glam's `Mat4::mul`: the product depends on the operands alone.
#[verifier::external_body]
pub fn mat4_mul(a: &Mat4B, b: &Mat4B) -> (r: Mat4B)
    ensures
        r@ == mat_mul(a@, b@),
{
    let am = glam::Mat4::from_cols_array(bytemuck::cast_ref(&a.m));
    let bm = glam::Mat4::from_cols_array(bytemuck::cast_ref(&b.m));
    Mat4B { m: bytemuck::cast((am * bm).to_cols_array()) }
}

/// Relies on glam's `Mat4::from_quat`: a function of the quaternion alone.
#[verifier::external_body]
pub fn mat4_from_quat(q: &Vec4B) -> (r: Mat4B)
    ensures
        r@ == mat_of_quat(q@),
{
    let quat = glam::Quat::from_array(bytemuck::cast([q.x, q.y, q.z, q.w]));
    Mat4B { m: bytemuck::cast(glam::Mat4::from_quat(quat).to_cols_array()) }
}

/// Relies on glam's `Mat4::from_scale`: a function of the vector alone.
#[verifier::external_body]
pub fn mat4_from_scale(s: &Vec3B) -> (r: Mat4B)
    ensures
        r@ == mat_of_scale(s@),
{
    let v = glam::Vec3::from_array(bytemuck::cast([s.x, s.y, s.z]));
    Mat4B { m: bytemuck::cast(glam::Mat4::from_scale(v).to_cols_array()) }
}

/// Relies on glam's `Mat4::from_translation`: a function of the vector
/// alone.
#[verifier::external_body]
pub fn mat4_from_translation(t: &Vec3B) -> (r: Mat4B)
    ensures
        r@ == mat_of_translation(t@),
{
    let v = glam::Vec3::from_array(bytemuck::cast([t.x, t.y, t.z]));
    Mat4B { m: bytemuck::cast(glam::Mat4::from_translation(v).to_cols_array()) }
}

/// Relies on glam's `Vec3::lerp`: a function of the endpoints and the
/// ratio alone.
#[verifier::external_body]
pub fn vec3_lerp(a: &Vec3B, b: &Vec3B, s: u32) -> (r: Vec3B)
    ensures
        r@ == lerp3(a@, b@, s),
{
    let av = glam::Vec3::from_array(bytemuck::cast([a.x, a.y, a.z]));
    let bv = glam::Vec3::from_array(bytemuck::cast([b.x, b.y, b.z]));
    let sv = glam::Vec2::from_array(bytemuck::cast([s, 0u32]));
    let o: [u32; 3] = bytemuck::cast(av.lerp(bv, sv.x).to_array());
    Vec3B { x: o[0], y: o[1], z: o[2] }
}

/// Relies on glam's `Quat::slerp`: a pure function of the endpoints and
/// the ratio, with no other input (the crate's assertions are compiled
/// out by default, so the call never panics).
#[verifier::external_body]
pub fn quat_slerp(a: &Vec4B, b: &Vec4B, s: u32) -> (r: Vec4B)
    ensures
        r@ == slerp4(a@, b@, s),
{
    let aq = glam::Quat::from_array(bytemuck::cast([a.x, a.y, a.z, a.w]));
    let bq = glam::Quat::from_array(bytemuck::cast([b.x, b.y, b.z, b.w]));
    let sv = glam::Vec2::from_array(bytemuck::cast([s, 0u32]));
    let o: [u32; 4] = bytemuck::cast(aq.slerp(bq, sv.x).to_array());
    Vec4B { x: o[0], y: o[1], z: o[2], w: o[3] }
}

/// Relies on glam's `Vec3::normalize`: a function of the vector alone (the
/// crate's assertions are compiled out by default, so a zero vector yields
/// non-finite components, not a panic).
#[verifier::external_body]
pub fn vec3_normalize(v: &Vec3B) -> (r: Vec3B)
    ensures
        r@ == norm3(v@),
{
    let av = glam::Vec3::from_array(bytemuck::cast([v.x, v.y, v.z]));
    let o: [u32; 3] = bytemuck::cast(av.normalize().to_array());
    Vec3B { x: o[0], y: o[1], z: o[2] }
}

/// Relies on glam's `Quat::normalize`: a function of the quaternion alone,
/// as for `vec3_normalize`.
#[verifier::external_body]
pub fn quat_normalize(q: &Vec4B) -> (r: Vec4B)
    ensures
        r@ == norm4(q@),
{
    let aq = glam::Quat::from_array(bytemuck::cast([q.x, q.y, q.z, q.w]));
    let o: [u32; 4] = bytemuck::cast(aq.normalize().to_array());
    Vec4B { x: o[0], y: o[1], z: o[2], w: o[3] }
}

/// Componentwise minimum of two three-vectors, per `min_bits`.
pub fn vec3_min(a: &Vec3B, b: &Vec3B) -> (r: Vec3B)
    ensures
        r.x == crate::fbits::min_bits(a.x, b.x),
        r.y == crate::fbits::min_bits(a.y, b.y),
        r.z == crate::fbits::min_bits(a.z, b.z),
{
    Vec3B {
        x: crate::fbits::f32_min(a.x, b.x),
        y: crate::fbits::f32_min(a.y, b.y),
        z: crate::fbits::f32_min(a.z, b.z),
    }
}

/// Componentwise maximum of two three-vectors, per `max_bits`.
pub fn vec3_max(a: &Vec3B, b: &Vec3B) -> (r: Vec3B)
    ensures
        r.x == crate::fbits::max_bits(a.x, b.x),
        r.y == crate::fbits::max_bits(a.y, b.y),
        r.z == crate::fbits::max_bits(a.z, b.z),
{
    Vec3B {
        x: crate::fbits::f32_max(a.x, b.x),
        y: crate::fbits::f32_max(a.y, b.y),
        z: crate::fbits::f32_max(a.z, b.z),
    }
}

} // verus!
