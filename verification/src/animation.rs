//! Keyframe animation channels: per-node, per-property tracks evaluated
//! by looping wall-clock time, with step, linear and spherical-linear
//! interpolation between bracketing keyframes.

use vstd::prelude::*;

use crate::document::{DocAnimation, DocChannel};
use crate::fbits::{
    div_bits, eq_bits, f32_div, f32_eq, f32_le, f32_lt, f32_max, f32_min, f32_rem, f32_sub,
    is_nan_bits, le_bits, lt_bits, max_bits, min_bits, rem_bits, sub_bits,
};
use crate::layout::NodeIndex;
use crate::mathx::{lerp3, quat_slerp, slerp4, vec3_lerp, vec3_normalize, quat_normalize, norm3,
    norm4, Vec3B, Vec4B};
use crate::model::ModelError;

verus! {

/// Bit pattern of the largest finite single-precision value.
pub const F32_MAX_BITS: u32 = 0x7f7f_ffff;

/// Bit pattern of the smallest (most negative) finite single-precision
/// value.
pub const F32_MIN_BITS: u32 = 0xff7f_ffff;

/// Which transform property a channel animates.
#[derive(Clone, Copy, Debug, PartialEq, Eq, Structural)]
pub enum PropertyKind {
    Translation,
    Rotation,
    Scale,
    MorphTargetWeights,
}

/// How many scalars one keyframe sample of a property holds.
pub open spec fn spec_prop_size(p: PropertyKind) -> int {
    match p {
        PropertyKind::Translation => 3,
        PropertyKind::Rotation => 4,
        PropertyKind::Scale => 3,
        PropertyKind::MorphTargetWeights => 1,
    }
}

impl PropertyKind {
    /// The number of scalars in one sample of this property.
    pub fn size(&self) -> (r: usize)
        ensures
            r as int == spec_prop_size(*self),
            1 <= r <= 4,
    {
        match self {
            PropertyKind::Translation => 3,
            PropertyKind::Rotation => 4,
            PropertyKind::Scale => 3,
            PropertyKind::MorphTargetWeights => 1,
        }
    }
}

/// How values between two keyframes are produced.
#[derive(Clone, Copy, Debug, PartialEq, Eq, Structural)]
pub enum Interpolation {
    Linear,
    Step,
    CubicSpline,
}

/// One evaluated property value.
#[derive(Clone, Copy, Debug, PartialEq, Eq, Structural)]
pub enum PropertyValue {
    Translation(Vec3B),
    Rotation(Vec4B),
    Scale(Vec3B),
    MorphTargetWeights(u32),
}

impl PropertyValue {
    /// The property kind this value belongs to.
    pub fn kind(&self) -> (r: PropertyKind)
        ensures
            r == spec_value_kind(*self),
    {
        match self {
            PropertyValue::Translation(_) => PropertyKind::Translation,
            PropertyValue::Rotation(_) => PropertyKind::Rotation,
            PropertyValue::Scale(_) => PropertyKind::Scale,
            PropertyValue::MorphTargetWeights(_) => PropertyKind::MorphTargetWeights,
        }
    }
}

/// The kind of an evaluated value.
pub open spec fn spec_value_kind(v: PropertyValue) -> PropertyKind {
    match v {
        PropertyValue::Translation(_) => PropertyKind::Translation,
        PropertyValue::Rotation(_) => PropertyKind::Rotation,
        PropertyValue::Scale(_) => PropertyKind::Scale,
        PropertyValue::MorphTargetWeights(_) => PropertyKind::MorphTargetWeights,
    }
}

/// Keyframe times are usable: none is NaN and each strictly precedes the
/// next.
pub open spec fn spec_times_valid(times: Seq<u32>) -> bool {
    &&& forall|i: int| 0 <= i < times.len() ==> !is_nan_bits(#[trigger] times[i])
    &&& forall|i: int|
        0 <= i < times.len() - 1 ==> lt_bits(#[trigger] times[i], times[i + 1])
}

/// Strict order between adjacent keyframes extends to any two.
pub proof fn lemma_times_global_order(times: Seq<u32>, i: int, j: int)
    requires
        spec_times_valid(times),
        0 <= i < j < times.len(),
    ensures
        lt_bits(times[i], times[j]),
    decreases j - i,
{
    if j == i + 1 {
    } else {
        lemma_times_global_order(times, i, j - 1);
    }
}

/// The left fold of `min_bits` over a sequence.
pub open spec fn spec_min_fold(s: Seq<u32>, acc: u32) -> u32
    decreases s.len(),
{
    if s.len() == 0 {
        acc
    } else {
        spec_min_fold(s.drop_first(), min_bits(acc, s[0]))
    }
}

/// The left fold of `max_bits` over a sequence.
pub open spec fn spec_max_fold(s: Seq<u32>, acc: u32) -> u32
    decreases s.len(),
{
    if s.len() == 0 {
        acc
    } else {
        spec_max_fold(s.drop_first(), max_bits(acc, s[0]))
    }
}

/// Keyframe times rescaled by the observed extent: `(t - min) / range`,
/// with the fold seeded by the extreme finite values.
pub open spec fn spec_norm_times(times: Seq<u32>) -> Seq<u32> {
    let mn = spec_min_fold(times, F32_MAX_BITS);
    let mx = spec_max_fold(times, F32_MIN_BITS);
    let range = sub_bits(mx, mn);
    Seq::new(times.len(), |i: int| div_bits(sub_bits(times[i], mn), range))
}

/// The keyframe times a channel ends up with: rescaled when the source
/// declares its input normalized, verbatim otherwise.
pub open spec fn spec_final_times(dc: DocChannel) -> Seq<u32> {
    if dc.input_normalized {
        spec_norm_times(dc.times@)
    } else {
        dc.times@
    }
}

/// The output stream with every sample re-normalized: quaternions through
/// `norm4`, three-vectors through `norm3`, scalar weights untouched.
pub open spec fn spec_norm_values(values: Seq<u32>, p: PropertyKind) -> Seq<u32> {
    match p {
        PropertyKind::Rotation => Seq::new(
            values.len(),
            |i: int| norm4(values.subrange(4 * (i / 4), 4 * (i / 4) + 4))[i % 4],
        ),
        PropertyKind::Translation | PropertyKind::Scale => Seq::new(
            values.len(),
            |i: int| norm3(values.subrange(3 * (i / 3), 3 * (i / 3) + 3))[i % 3],
        ),
        PropertyKind::MorphTargetWeights => values,
    }
}

/// The value stream a channel ends up with.
pub open spec fn spec_final_values(dc: DocChannel) -> Seq<u32> {
    if dc.output_normalized {
        spec_norm_values(dc.values@, dc.property)
    } else {
        dc.values@
    }
}

/// A channel source the parser accepts: at least one keyframe, a property
/// and an interpolation mode the evaluator implements, a value stream of
/// matching length, and final keyframe times that are NaN-free and
/// strictly increasing. Cubic-spline tracks are declared but not
/// implemented, so exercising one is fatal at load rather than silently
/// wrong at playback.
pub open spec fn spec_channel_ok(dc: DocChannel) -> bool {
    &&& dc.times@.len() > 0
    &&& dc.property != PropertyKind::MorphTargetWeights
    &&& dc.interpolation != Interpolation::CubicSpline
    &&& dc.values@.len() == dc.times@.len() * spec_prop_size(dc.property)
    &&& spec_times_valid(spec_final_times(dc))
}

/// One parsed keyframe track.
#[derive(Clone, Debug)]
pub struct Channel {
    pub node_index: NodeIndex,
    pub interpolation: Interpolation,
    pub times: Vec<u32>,
    pub duration: u32,
    pub property: PropertyKind,
    /// Flat scalar stream; each keyframe occupies `property.size()`
    /// consecutive entries.
    pub data: Vec<u32>,
}

/// A parsed channel carrying exactly what a source channel prescribes.
pub open spec fn spec_channel_matches(c: Channel, dc: DocChannel) -> bool {
    &&& c.node_index == NodeIndex(dc.node_index)
    &&& c.interpolation == dc.interpolation
    &&& c.property == dc.property
    &&& c.times@ == spec_final_times(dc)
    &&& c.data@ == spec_final_values(dc)
    &&& c.duration == spec_final_times(dc).last()
}

impl Channel {
    /// The channel's internal consistency.
    pub open spec fn wf(self) -> bool {
        &&& self.times@.len() >= 1
        &&& self.duration == self.times@.last()
        &&& spec_times_valid(self.times@)
        &&& self.data@.len() == self.times@.len() * spec_prop_size(self.property)
        &&& self.property != PropertyKind::MorphTargetWeights
        &&& self.interpolation != Interpolation::CubicSpline
    }
}

/// The scalars of keyframe `i` of a channel, as one short sequence.
pub open spec fn spec_chunk(c: Channel, i: int) -> Seq<u32> {
    c.data@.subrange(i * spec_prop_size(c.property), (i + 1) * spec_prop_size(c.property))
}

/// The stored sample at keyframe `i`, decoded as the channel's property.
pub open spec fn spec_sample(c: Channel, i: int) -> PropertyValue {
    let base = i * spec_prop_size(c.property);
    match c.property {
        PropertyKind::Translation => PropertyValue::Translation(
            Vec3B { x: c.data@[base], y: c.data@[base + 1], z: c.data@[base + 2] },
        ),
        PropertyKind::Scale => PropertyValue::Scale(
            Vec3B { x: c.data@[base], y: c.data@[base + 1], z: c.data@[base + 2] },
        ),
        PropertyKind::Rotation => PropertyValue::Rotation(
            Vec4B {
                x: c.data@[base],
                y: c.data@[base + 1],
                z: c.data@[base + 2],
                w: c.data@[base + 3],
            },
        ),
        PropertyKind::MorphTargetWeights => PropertyValue::MorphTargetWeights(c.data@[base]),
    }
}

/// The insertion point of `t` among the keyframe times: the index of the
/// first time not below `t`.
pub open spec fn spec_seek(times: Seq<u32>, t: u32) -> int
    decreases times.len(),
{
    if times.len() == 0 {
        0
    } else if !lt_bits(times[0], t) {
        0
    } else {
        1 + spec_seek(times.drop_first(), t)
    }
}

/// What the insertion point satisfies: everything before it is below `t`,
/// and the entry at it (if any) is not.
pub proof fn lemma_seek_props(times: Seq<u32>, t: u32)
    ensures
        0 <= spec_seek(times, t) <= times.len(),
        forall|k: int| 0 <= k < spec_seek(times, t) ==> lt_bits(#[trigger] times[k], t),
        spec_seek(times, t) < times.len() ==> !lt_bits(times[spec_seek(times, t)], t),
    decreases times.len(),
{
    if times.len() > 0 && lt_bits(times[0], t) {
        lemma_seek_props(times.drop_first(), t);
        assert forall|k: int| 0 <= k < spec_seek(times, t) implies lt_bits(
            #[trigger] times[k],
            t,
        ) by {
            if k > 0 {
                assert(times.drop_first()[k - 1] == times[k]);
            }
        }
        if spec_seek(times, t) < times.len() {
            assert(times.drop_first()[spec_seek(times, t) - 1] == times[spec_seek(times, t)]);
        }
    }
}

/// The interpolation ratio between keyframes `l` and `l + 1` at time `t`.
pub open spec fn spec_ratio(c: Channel, l: int, t: u32) -> u32 {
    div_bits(sub_bits(t, c.times@[l]), sub_bits(c.times@[l + 1], c.times@[l]))
}

/// The linearly interpolated value between keyframes `l` and `l + 1`:
/// componentwise for translations and scales, spherical for rotations.
pub open spec fn spec_linear(c: Channel, l: int, ratio: u32) -> PropertyValue {
    match c.property {
        PropertyKind::Translation => {
            let s = lerp3(spec_chunk(c, l), spec_chunk(c, l + 1), ratio);
            PropertyValue::Translation(Vec3B { x: s[0], y: s[1], z: s[2] })
        },
        PropertyKind::Scale => {
            let s = lerp3(spec_chunk(c, l), spec_chunk(c, l + 1), ratio);
            PropertyValue::Scale(Vec3B { x: s[0], y: s[1], z: s[2] })
        },
        PropertyKind::Rotation => {
            let s = slerp4(spec_chunk(c, l), spec_chunk(c, l + 1), ratio);
            PropertyValue::Rotation(Vec4B { x: s[0], y: s[1], z: s[2], w: s[3] })
        },
        PropertyKind::MorphTargetWeights => spec_sample(c, l),
    }
}

/// The value of the channel at an in-window time `t`: the stored sample on
/// an exact hit, otherwise the bracketing samples combined according to
/// the interpolation mode (a step track holds the left sample).
pub open spec fn spec_interpolate_at(c: Channel, t: u32) -> PropertyValue {
    let i = spec_seek(c.times@, t);
    if i < c.times@.len() && eq_bits(c.times@[i], t) {
        spec_sample(c, i)
    } else {
        let l = i - 1;
        match c.interpolation {
            Interpolation::Step => spec_sample(c, l),
            Interpolation::Linear => spec_linear(c, l, spec_ratio(c, l, t)),
            // A well-formed channel never carries this mode; the arm only
            // keeps the function total.
            Interpolation::CubicSpline => spec_sample(c, l),
        }
    }
}

/// `t` lies within the keyframe window.
pub open spec fn spec_in_window(c: Channel, t: u32) -> bool {
    &&& le_bits(c.times@[0], t)
    &&& le_bits(t, c.times@.last())
}

/// What `interpolate` returns for a clock value `t`: the clock is reduced
/// modulo the duration; evaluation happens exactly when the reduced time
/// falls in the keyframe window.
pub open spec fn spec_interpolate(c: Channel, t: u32) -> Option<PropertyValue> {
    let tm = rem_bits(t, c.duration);
    if spec_in_window(c, tm) {
        Some(spec_interpolate_at(c, tm))
    } else {
        None
    }
}

impl Channel {
    /// Parses one channel source. Fails exactly when the source is
    /// unusable: no keyframes, an unimplemented target property or
    /// interpolation mode, a value stream of the wrong length, or final
    /// times that are not strictly increasing.
    pub fn parse(dc: &DocChannel) -> (r: Result<Channel, ModelError>)
        ensures
            match r {
                Ok(c) => {
                    &&& spec_channel_ok(*dc)
                    &&& c.wf()
                    &&& spec_channel_matches(c, *dc)
                },
                Err(e) => {
                    &&& e == ModelError::InvalidGltf
                    &&& !spec_channel_ok(*dc)
                },
            },
    {
        if dc.times.len() == 0 {
            return Err(ModelError::InvalidGltf);
        }
        match dc.property {
            PropertyKind::MorphTargetWeights => {
                return Err(ModelError::InvalidGltf);
            },
            _ => {},
        }
        match dc.interpolation {
            Interpolation::CubicSpline => {
                return Err(ModelError::InvalidGltf);
            },
            _ => {},
        }
        let size = dc.property.size();
        let vlen = dc.values.len();
        // The value stream must hold exactly one sample per keyframe.
        if dc.times.len() > usize::MAX / size {
            proof {
                assert(dc.times@.len() * spec_prop_size(dc.property) > usize::MAX) by (
                nonlinear_arith)
                    requires
                        dc.times@.len() > usize::MAX as int / (size as int),
                        size as int == spec_prop_size(dc.property),
                        1 <= size <= 4,
                ;
            }
            return Err(ModelError::InvalidGltf);
        }
        proof {
            assert(dc.times@.len() * (size as int) <= usize::MAX) by (nonlinear_arith)
                requires
                    dc.times@.len() <= usize::MAX as int / (size as int),
                    1 <= size <= 4,
            ;
        }
        if dc.values.len() != dc.times.len() * size {
            return Err(ModelError::InvalidGltf);
        }
        let times = normalize_times_step(dc);
        // Validate the final times: strictly increasing and NaN-free.
        let mut i: usize = 0;
        while i < times.len() - 1
            invariant
                times@ == spec_final_times(*dc),
                times@.len() > 0,
                i <= times@.len(),
                forall|k: int| 0 <= k < i ==> lt_bits(#[trigger] times@[k], times@[k + 1]),
            decreases times@.len() - i,
        {
            if !f32_lt(times[i], times[i + 1]) {
                return Err(ModelError::InvalidGltf);
            }
            i = i + 1;
        }
        let last = times[times.len() - 1];
        if !f32_eq(last, last) {
            return Err(ModelError::InvalidGltf);
        }
        proof {
            assert forall|k: int| 0 <= k < times@.len() implies !is_nan_bits(
                #[trigger] times@[k],
            ) by {
                if k < times@.len() - 1 {
                    assert(lt_bits(times@[k], times@[k + 1]));
                }
            }
        }
        let data = normalize_values_step(dc, size);
        let c = Channel {
            node_index: NodeIndex(dc.node_index),
            interpolation: dc.interpolation,
            duration: last,
            times,
            property: dc.property,
            data,
        };
        Ok(c)
    }

    /// The index of the first keyframe time not below `t`, found by
    /// binary search over the strictly increasing times.
    pub fn find_index(&self, t: u32) -> (r: usize)
        requires
            self.wf(),
        ensures
            r as int == spec_seek(self.times@, t),
    {
        let ghost times = self.times@;
        proof {
            assert forall|i: int, j: int| 0 <= i < j < times.len() implies lt_bits(
                #[trigger] times[i],
                #[trigger] times[j],
            ) by {
                lemma_times_global_order(times, i, j);
            }
            lemma_seek_props(times, t);
        }
        let mut lo: usize = 0;
        let mut hi: usize = self.times.len();
        while lo < hi
            invariant
                self.wf(),
                times == self.times@,
                lo <= hi <= times.len(),
                forall|k: int| 0 <= k < lo ==> lt_bits(#[trigger] times[k], t),
                forall|k: int| hi <= k < times.len() ==> !lt_bits(#[trigger] times[k], t),
                forall|i: int, j: int|
                    0 <= i < j < times.len() ==> lt_bits(#[trigger] times[i], #[trigger] times[j]),
            decreases hi - lo,
        {
            let mid = lo + (hi - lo) / 2;
            if f32_lt(self.times[mid], t) {
                proof {
                    assert forall|k: int| 0 <= k < mid + 1 implies lt_bits(
                        #[trigger] times[k],
                        t,
                    ) by {
                        if k < mid as int {
                            assert(lt_bits(times[k], times[mid as int]));
                        }
                    }
                }
                lo = mid + 1;
            } else {
                proof {
                    assert forall|k: int| mid <= k < times.len() implies !lt_bits(
                        #[trigger] times[k],
                        t,
                    ) by {
                        if k > mid as int {
                            assert(lt_bits(times[mid as int], times[k]));
                        }
                    }
                }
                hi = mid;
            }
        }
        proof {
            let s = spec_seek(times, t);
            if (lo as int) < s {
                assert(lt_bits(times[lo as int], t));
            }
            if s < lo as int {
                assert(lt_bits(times[s], t));
            }
        }
        lo
    }

    /// The stored sample at keyframe `i`, decoded as the channel's
    /// property.
    pub fn get_sample(&self, i: usize) -> (r: PropertyValue)
        requires
            self.wf(),
            i < self.times@.len(),
        ensures
            r == spec_sample(*self, i as int),
    {
        let size = self.property.size();
        let dlen = self.data.len();
        proof {
            assert((i as int) * (size as int) + size as int <= self.times@.len() * (
            size as int)) by (nonlinear_arith)
                requires
                    (i as int) < self.times@.len(),
                    1 <= size,
            ;
        }
        let base = i * size;
        match self.property {
            PropertyKind::Translation => PropertyValue::Translation(
                Vec3B { x: self.data[base], y: self.data[base + 1], z: self.data[base + 2] },
            ),
            PropertyKind::Scale => PropertyValue::Scale(
                Vec3B { x: self.data[base], y: self.data[base + 1], z: self.data[base + 2] },
            ),
            PropertyKind::Rotation => PropertyValue::Rotation(
                Vec4B {
                    x: self.data[base],
                    y: self.data[base + 1],
                    z: self.data[base + 2],
                    w: self.data[base + 3],
                },
            ),
            PropertyKind::MorphTargetWeights => PropertyValue::MorphTargetWeights(
                self.data[base],
            ),
        }
    }

    /// The scalars of keyframe `i`, as a short vector pair helper.
    fn chunk3(&self, i: usize) -> (r: Vec3B)
        requires
            self.wf(),
            i < self.times@.len(),
            spec_prop_size(self.property) == 3,
        ensures
            r@ == spec_chunk(*self, i as int),
    {
        let dlen = self.data.len();
        proof {
            assert((i as int) * 3 + 3 <= self.times@.len() * 3) by (nonlinear_arith)
                requires
                    (i as int) < self.times@.len(),
            ;
        }
        let base = i * 3;
        let r = Vec3B { x: self.data[base], y: self.data[base + 1], z: self.data[base + 2] };
        proof {
            assert(r.view() =~= spec_chunk(*self, i as int));
        }
        r
    }

    /// The scalars of keyframe `i`, as a quaternion helper.
    fn chunk4(&self, i: usize) -> (r: Vec4B)
        requires
            self.wf(),
            i < self.times@.len(),
            spec_prop_size(self.property) == 4,
        ensures
            r@ == spec_chunk(*self, i as int),
    {
        let dlen = self.data.len();
        proof {
            assert((i as int) * 4 + 4 <= self.times@.len() * 4) by (nonlinear_arith)
                requires
                    (i as int) < self.times@.len(),
            ;
        }
        let base = i * 4;
        let r = Vec4B {
            x: self.data[base],
            y: self.data[base + 1],
            z: self.data[base + 2],
            w: self.data[base + 3],
        };
        proof {
            assert(r.view() =~= spec_chunk(*self, i as int));
        }
        r
    }

    /// Evaluates the channel at an in-window time.
    pub fn interpolate_at(&self, t: u32) -> (r: PropertyValue)
        requires
            self.wf(),
            spec_in_window(*self, t),
        ensures
            r == spec_interpolate_at(*self, t),
    {
        proof {
            lemma_seek_props(self.times@, t);
        }
        let time_index = self.find_index(t);
        if time_index < self.times.len() && f32_eq(self.times[time_index], t) {
            return self.get_sample(time_index);
        }
        proof {
            // Inside the window a miss still has keyframes on both sides.
            let s = spec_seek(self.times@, t);
            if s == 0 {
                assert(!lt_bits(self.times@[0], t));
                assert(le_bits(self.times@[0], t));
                assert(false);
            }
            if s == self.times@.len() {
                assert(lt_bits(self.times@[s - 1], t));
                assert(le_bits(t, self.times@.last()));
                assert(false);
            }
        }
        let left = time_index - 1;
        match self.interpolation {
            Interpolation::Step => self.get_sample(left),
            Interpolation::CubicSpline => {
                proof {
                    assert(false);
                }
                self.get_sample(left)
            },
            Interpolation::Linear => {
                let first_time = self.times[left];
                let second_time = self.times[left + 1];
                let delta = f32_sub(second_time, first_time);
                let time_ratio = f32_div(f32_sub(t, first_time), delta);
                match self.property {
                    PropertyKind::Translation => {
                        let a = self.chunk3(left);
                        let b = self.chunk3(left + 1);
                        PropertyValue::Translation(vec3_lerp(&a, &b, time_ratio))
                    },
                    PropertyKind::Scale => {
                        let a = self.chunk3(left);
                        let b = self.chunk3(left + 1);
                        PropertyValue::Scale(vec3_lerp(&a, &b, time_ratio))
                    },
                    PropertyKind::Rotation => {
                        let a = self.chunk4(left);
                        let b = self.chunk4(left + 1);
                        PropertyValue::Rotation(quat_slerp(&a, &b, time_ratio))
                    },
                    PropertyKind::MorphTargetWeights => {
                        proof {
                            assert(false);
                        }
                        self.get_sample(left)
                    },
                }
            },
        }
    }

    /// Evaluates the channel at a wall-clock time. The clock loops: it is
    /// reduced modulo the track's duration first. Returns nothing exactly
    /// when the reduced time falls outside the keyframe window.
    pub fn interpolate(&self, time_since_program_start: u32) -> (r: Option<PropertyValue>)
        requires
            self.wf(),
        ensures
            r == spec_interpolate(*self, time_since_program_start),
    {
        let time_mod = f32_rem(time_since_program_start, self.duration);
        if !f32_le(self.times[0], time_mod) {
            return None;
        }
        if !f32_le(time_mod, self.times[self.times.len() - 1]) {
            return None;
        }
        Some(self.interpolate_at(time_mod))
    }
}

/// Computes the final keyframe times of a channel source: rescales by the
/// observed extent when the input is declared normalized.
fn normalize_times_step(dc: &DocChannel) -> (r: Vec<u32>)
    ensures
        r@ == spec_final_times(*dc),
{
    if !dc.input_normalized {
        let r = dc.times.clone();
        proof {
            assert(r@ =~= dc.times@);
        }
        return r;
    }
    let mut mn: u32 = F32_MAX_BITS;
    let mut mx: u32 = F32_MIN_BITS;
    proof {
        assert(dc.times@.subrange(0, dc.times@.len() as int) =~= dc.times@);
    }
    let mut i: usize = 0;
    while i < dc.times.len()
        invariant
            i <= dc.times@.len(),
            spec_min_fold(dc.times@, F32_MAX_BITS) == spec_min_fold(
                dc.times@.subrange(i as int, dc.times@.len() as int),
                mn,
            ),
            spec_max_fold(dc.times@, F32_MIN_BITS) == spec_max_fold(
                dc.times@.subrange(i as int, dc.times@.len() as int),
                mx,
            ),
        decreases dc.times@.len() - i,
    {
        proof {
            let rest = dc.times@.subrange(i as int, dc.times@.len() as int);
            assert(rest.drop_first() =~= dc.times@.subrange(i as int + 1, dc.times@.len() as int));
            assert(rest[0] == dc.times@[i as int]);
        }
        mn = f32_min(mn, dc.times[i]);
        mx = f32_max(mx, dc.times[i]);
        i = i + 1;
    }
    proof {
        assert(dc.times@.subrange(0, dc.times@.len() as int) =~= dc.times@);
        assert(dc.times@.subrange(dc.times@.len() as int, dc.times@.len() as int).len() == 0);
    }
    let range = f32_sub(mx, mn);
    let mut out: Vec<u32> = Vec::new();
    let mut i: usize = 0;
    while i < dc.times.len()
        invariant
            i <= dc.times@.len(),
            out@.len() == i,
            mn == spec_min_fold(dc.times@, F32_MAX_BITS),
            range == sub_bits(spec_max_fold(dc.times@, F32_MIN_BITS), mn),
            forall|k: int|
                0 <= k < i ==> (#[trigger] out@[k]) == div_bits(
                    sub_bits(dc.times@[k], mn),
                    range,
                ),
        decreases dc.times@.len() - i,
    {
        out.push(f32_div(f32_sub(dc.times[i], mn), range));
        i = i + 1;
    }
    proof {
        assert(out@ =~= spec_norm_times(dc.times@));
    }
    out
}

/// Computes the final value stream of a channel source: re-normalizes
/// every sample when the output is declared normalized.
fn normalize_values_step(dc: &DocChannel, size: usize) -> (r: Vec<u32>)
    requires
        size as int == spec_prop_size(dc.property),
        dc.property != PropertyKind::MorphTargetWeights,
        dc.values@.len() == dc.times@.len() * spec_prop_size(dc.property),
    ensures
        r@ == spec_final_values(*dc),
{
    if !dc.output_normalized {
        let r = dc.values.clone();
        proof {
            assert(r@ =~= dc.values@);
        }
        return r;
    }
    let count = dc.times.len();
    let vlen = dc.values.len();
    let mut out: Vec<u32> = Vec::new();
    let ghost target = spec_norm_values(dc.values@, dc.property);
    proof {
        assert(target.len() == dc.values@.len());
    }
    let mut c: usize = 0;
    while c < count
        invariant
            c <= count,
            count == dc.times@.len(),
            size as int == spec_prop_size(dc.property),
            dc.property != PropertyKind::MorphTargetWeights,
            dc.output_normalized,
            dc.values@.len() == dc.times@.len() * spec_prop_size(dc.property),
            dc.values@.len() <= usize::MAX,
            target == spec_norm_values(dc.values@, dc.property),
            target.len() == dc.values@.len(),
            out@.len() == c * (size as int),
            forall|k: int| 0 <= k < out@.len() ==> (#[trigger] out@[k]) == target[k],
        decreases count - c,
    {
        proof {
            assert((c as int) * (size as int) + size as int <= count * (size as int)) by (
            nonlinear_arith)
                requires
                    (c as int) < count,
                    1 <= size,
            ;
            assert(count * (size as int) == dc.values@.len());
        }
        let base = c * size;
        match dc.property {
            PropertyKind::Rotation => {
                let q = Vec4B {
                    x: dc.values[base],
                    y: dc.values[base + 1],
                    z: dc.values[base + 2],
                    w: dc.values[base + 3],
                };
                let n = quat_normalize(&q);
                proof {
                    assert(q.view() =~= dc.values@.subrange(
                        (base as int),
                        (base as int) + 4,
                    ));
                    assert forall|k: int| base as int <= k < base as int + 4 implies target[k]
                        == n.view()[k - base as int] by {
                        assert(4 * (k / 4) == base as int) by (nonlinear_arith)
                            requires
                                base as int == (c as int) * 4,
                                (base as int) <= k < (base as int) + 4,
                        ;
                        assert(k % 4 == k - base as int) by (nonlinear_arith)
                            requires
                                base as int == (c as int) * 4,
                                (base as int) <= k < (base as int) + 4,
                        ;
                    }
                }
                out.push(n.x);
                out.push(n.y);
                out.push(n.z);
                out.push(n.w);
            },
            _ => {
                let v = Vec3B {
                    x: dc.values[base],
                    y: dc.values[base + 1],
                    z: dc.values[base + 2],
                };
                let n = vec3_normalize(&v);
                proof {
                    assert(v.view() =~= dc.values@.subrange(
                        (base as int),
                        (base as int) + 3,
                    ));
                    assert forall|k: int| base as int <= k < base as int + 3 implies target[k]
                        == n.view()[k - base as int] by {
                        assert(3 * (k / 3) == base as int) by (nonlinear_arith)
                            requires
                                base as int == (c as int) * 3,
                                (base as int) <= k < (base as int) + 3,
                        ;
                        assert(k % 3 == k - base as int) by (nonlinear_arith)
                            requires
                                base as int == (c as int) * 3,
                                (base as int) <= k < (base as int) + 3,
                        ;
                    }
                }
                out.push(n.x);
                out.push(n.y);
                out.push(n.z);
            },
        }
        c = c + 1;
    }
    proof {
        assert(out@ =~= spec_final_values(*dc));
    }
    out
}

/// Evaluation loops: two clock values with the same remainder modulo the
/// duration evaluate to the same result.
pub proof fn lemma_interpolate_loops(c: Channel, t1: u32, t2: u32)
    requires
        c.wf(),
        rem_bits(t1, c.duration) == rem_bits(t2, c.duration),
    ensures
        spec_interpolate(c, t1) == spec_interpolate(c, t2),
{
}

/// Exact-keyframe passthrough: evaluating at a stored keyframe time
/// returns the stored sample verbatim, whatever the interpolation mode.
pub proof fn lemma_exact_keyframe_passthrough(c: Channel, i: int)
    requires
        c.wf(),
        0 <= i < c.times@.len(),
    ensures
        spec_interpolate_at(c, c.times@[i]) == spec_sample(c, i),
{
    let t = c.times@[i];
    lemma_seek_props(c.times@, t);
    let s = spec_seek(c.times@, t);
    assert forall|k: int, j: int| 0 <= k < j < c.times@.len() implies lt_bits(
        #[trigger] c.times@[k],
        #[trigger] c.times@[j],
    ) by {
        lemma_times_global_order(c.times@, k, j);
    }
    if s < i {
        assert(lt_bits(c.times@[s], c.times@[i]));
        assert(lt_bits(c.times@[s], t));
        assert(false);
    }
    if i < s {
        assert(lt_bits(c.times@[i], t));
        assert(false);
    }
    assert(s == i);
    assert(eq_bits(c.times@[i], t));
}

/// Two channels with identical content.
pub open spec fn spec_channel_eq(a: Channel, b: Channel) -> bool {
    &&& a.node_index == b.node_index
    &&& a.interpolation == b.interpolation
    &&& a.property == b.property
    &&& a.times@ == b.times@
    &&& a.data@ == b.data@
    &&& a.duration == b.duration
}

impl Channel {
    /// An owned copy with identical content.
    pub fn duplicate(&self) -> (r: Channel)
        ensures
            spec_channel_eq(r, *self),
            self.wf() ==> r.wf(),
    {
        let times = self.times.clone();
        let data = self.data.clone();
        proof {
            assert(times@ =~= self.times@);
            assert(data@ =~= self.data@);
        }
        Channel {
            node_index: self.node_index,
            interpolation: self.interpolation,
            times,
            duration: self.duration,
            property: self.property,
            data,
        }
    }
}

/// One animation clip: the channels it carries and the set of nodes they
/// target.
pub struct Animation {
    /// Each node targeted by at least one channel, first occurrence
    /// first, without duplicates.
    pub target_nodes: Vec<NodeIndex>,
    pub channels: Vec<Channel>,
}

impl Animation {
    /// Parses one clip. Fails exactly when some channel of the clip is
    /// unusable.
    pub fn parse(da: &DocAnimation) -> (r: Result<Animation, ModelError>)
        ensures
            match r {
                Ok(an) => {
                    &&& forall|k: int|
                        0 <= k < da.channels@.len() ==> spec_channel_ok(#[trigger] da.channels@[k])
                    &&& an.channels@.len() == da.channels@.len()
                    &&& forall|k: int|
                        0 <= k < da.channels@.len() ==> (#[trigger] an.channels@[k]).wf()
                            && spec_channel_matches(an.channels@[k], da.channels@[k])
                    &&& forall|n: NodeIndex| #[trigger]
                        an.target_nodes@.contains(n) <==> (exists|k: int|
                            0 <= k < da.channels@.len() && NodeIndex(
                                (#[trigger] da.channels@[k]).node_index,
                            ) == n)
                    &&& forall|p: int, q: int|
                        0 <= p < q < an.target_nodes@.len() ==> (#[trigger] an.target_nodes@[p])
                            != (#[trigger] an.target_nodes@[q])
                },
                Err(e) => {
                    &&& e == ModelError::InvalidGltf
                    &&& exists|k: int|
                        0 <= k < da.channels@.len() && !spec_channel_ok(
                            #[trigger] da.channels@[k],
                        )
                },
            },
    {
        let mut target_nodes: Vec<NodeIndex> = Vec::new();
        let mut channels: Vec<Channel> = Vec::new();
        let mut i: usize = 0;
        while i < da.channels.len()
            invariant
                i <= da.channels@.len(),
                channels@.len() == i,
                forall|k: int|
                    0 <= k < i ==> spec_channel_ok(#[trigger] da.channels@[k]),
                forall|k: int|
                    0 <= k < i ==> (#[trigger] channels@[k]).wf() && spec_channel_matches(
                        channels@[k],
                        da.channels@[k],
                    ),
                forall|n: NodeIndex| #[trigger]
                    target_nodes@.contains(n) <==> (exists|k: int|
                        0 <= k < i && NodeIndex((#[trigger] da.channels@[k]).node_index) == n),
                forall|p: int, q: int|
                    0 <= p < q < target_nodes@.len() ==> (#[trigger] target_nodes@[p])
                        != (#[trigger] target_nodes@[q]),
            decreases da.channels@.len() - i,
        {
            let channel = match Channel::parse(&da.channels[i]) {
                Ok(c) => c,
                Err(e) => {
                    return Err(e);
                },
            };
            let node = channel.node_index;
            let mut seen = false;
            let mut j: usize = 0;
            while j < target_nodes.len()
                invariant
                    j <= target_nodes@.len(),
                    seen == target_nodes@.subrange(0, j as int).contains(node),
                decreases target_nodes@.len() - j,
            {
                proof {
                    let pre = target_nodes@.subrange(0, j as int);
                    let post = target_nodes@.subrange(0, j as int + 1);
                    assert(post =~= pre.push(target_nodes@[j as int]));
                    assert(post.contains(node) <==> (pre.contains(node)
                        || target_nodes@[j as int] == node)) by {
                        if post.contains(node) {
                            let idx = choose|idx: int|
                                0 <= idx < post.len() && post[idx] == node;
                            if idx < j as int {
                                assert(pre[idx] == node);
                                assert(pre.contains(node));
                            }
                        }
                        if pre.contains(node) {
                            let idx = choose|idx: int|
                                0 <= idx < pre.len() && pre[idx] == node;
                            assert(post[idx] == node);
                            assert(post.contains(node));
                        }
                        if target_nodes@[j as int] == node {
                            assert(post[j as int] == node);
                            assert(post.contains(node));
                        }
                    }
                }
                if target_nodes[j] == node {
                    seen = true;
                }
                j = j + 1;
            }
            proof {
                assert(target_nodes@.subrange(0, target_nodes@.len() as int) =~= target_nodes@);
            }
            let ghost pre = target_nodes@;
            if !seen {
                target_nodes.push(node);
            }
            channels.push(channel);
            proof {
                assert(NodeIndex(da.channels@[i as int].node_index) == node);
                assert forall|n: NodeIndex| #[trigger] target_nodes@.contains(n) implies (
                exists|k: int|
                    0 <= k < i + 1 && NodeIndex((#[trigger] da.channels@[k]).node_index)
                        == n) by {
                    let idx = choose|idx: int|
                        0 <= idx < target_nodes@.len() && target_nodes@[idx] == n;
                    if idx < pre.len() {
                        assert(pre[idx] == n);
                        assert(pre.contains(n));
                    } else {
                        assert(n == node);
                    }
                }
                assert forall|n: NodeIndex| (exists|k: int|
                    0 <= k < i + 1 && NodeIndex((#[trigger] da.channels@[k]).node_index)
                        == n) implies #[trigger] target_nodes@.contains(n) by {
                    let k = choose|k: int|
                        0 <= k < i + 1 && NodeIndex((#[trigger] da.channels@[k]).node_index)
                            == n;
                    if k < i as int {
                        assert(pre.contains(n));
                        let idx = choose|idx: int| 0 <= idx < pre.len() && pre[idx] == n;
                        assert(target_nodes@[idx] == n);
                        assert(target_nodes@.contains(n));
                    } else {
                        assert(n == node);
                        if seen {
                            assert(pre.contains(node));
                            let idx = choose|idx: int|
                                0 <= idx < pre.len() && pre[idx] == node;
                            assert(target_nodes@[idx] == node);
                            assert(target_nodes@.contains(n));
                        } else {
                            assert(target_nodes@[pre.len() as int] == node);
                            assert(target_nodes@.contains(n));
                        }
                    }
                }
            }
            i = i + 1;
        }
        Ok(Animation { target_nodes, channels })
    }
}

} // verus!
