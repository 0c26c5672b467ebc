//! Bit flags recording which vertex attributes a primitive's source data
//! actually carried, as opposed to being filled with defaults.

use vstd::prelude::*;

verus! {

/// A set of vertex-attribute flags packed into one unsigned word.
#[derive(Clone, Copy, Debug, PartialEq, Eq, Structural)]
pub struct ShaderKinds(pub u32);

impl ShaderKinds {
    /// The bit masks of the individual flags.
    pub const NONE: u32 = 0;
    pub const POSITION: u32 = 1;
    pub const NORMAL: u32 = 2;
    pub const TEX_COORD_0: u32 = 4;
    pub const TEX_COORD_1: u32 = 8;
    pub const TANGENT: u32 = 16;
    pub const WEIGHT: u32 = 32;
    pub const JOINT: u32 = 64;
    pub const COLOR: u32 = 128;

    /// Every individual flag, from lowest to highest bit.
    pub fn all() -> (r: [ShaderKinds; 8])
        ensures
            r@ == seq![
                ShaderKinds(1), ShaderKinds(2), ShaderKinds(4), ShaderKinds(8),
                ShaderKinds(16), ShaderKinds(32), ShaderKinds(64), ShaderKinds(128),
            ],
    {
        let r: [ShaderKinds; 8] = [
            ShaderKinds(1),
            ShaderKinds(2),
            ShaderKinds(4),
            ShaderKinds(8),
            ShaderKinds(16),
            ShaderKinds(32),
            ShaderKinds(64),
            ShaderKinds(128),
        ];
        proof {
            assert(r@ =~= seq![
                ShaderKinds(1), ShaderKinds(2), ShaderKinds(4), ShaderKinds(8),
                ShaderKinds(16), ShaderKinds(32), ShaderKinds(64), ShaderKinds(128),
            ]);
        }
        r
    }

    /// The union of every flag.
    pub fn all_flags() -> (r: ShaderKinds)
        ensures
            r == ShaderKinds(255),
    {
        let flags = Self::all();
        let mut acc = ShaderKinds(0);
        acc = acc.union(flags[0]);
        acc = acc.union(flags[1]);
        acc = acc.union(flags[2]);
        acc = acc.union(flags[3]);
        acc = acc.union(flags[4]);
        acc = acc.union(flags[5]);
        acc = acc.union(flags[6]);
        acc = acc.union(flags[7]);
        proof {
            assert(0u32 | 1 | 2 | 4 | 8 | 16 | 32 | 64 | 128 == 255u32) by (bit_vector);
        }
        acc
    }

    /// No flag at all is set.
    pub fn is_none(self) -> (r: bool)
        ensures
            r == (self.0 == 0),
    {
        self.0 == 0
    }

    pub fn is_position(self) -> (r: bool)
        ensures
            r == (self.0 & 1 != 0),
    {
        self.0 & 1 != 0
    }

    pub fn is_normal(self) -> (r: bool)
        ensures
            r == (self.0 & 2 != 0),
    {
        self.0 & 2 != 0
    }

    pub fn is_tex_coord0(self) -> (r: bool)
        ensures
            r == (self.0 & 4 != 0),
    {
        self.0 & 4 != 0
    }

    pub fn is_tex_coord1(self) -> (r: bool)
        ensures
            r == (self.0 & 8 != 0),
    {
        self.0 & 8 != 0
    }

    pub fn is_tangent(self) -> (r: bool)
        ensures
            r == (self.0 & 16 != 0),
    {
        self.0 & 16 != 0
    }

    pub fn is_weight(self) -> (r: bool)
        ensures
            r == (self.0 & 32 != 0),
    {
        self.0 & 32 != 0
    }

    pub fn is_joint(self) -> (r: bool)
        ensures
            r == (self.0 & 64 != 0),
    {
        self.0 & 64 != 0
    }

    pub fn is_color(self) -> (r: bool)
        ensures
            r == (self.0 & 128 != 0),
    {
        self.0 & 128 != 0
    }

    /// Either texture-coordinate set is present.
    pub fn is_tex_coord(self) -> (r: bool)
        ensures
            r == (self.0 & 4 != 0 || self.0 & 8 != 0),
    {
        self.is_tex_coord0() || self.is_tex_coord1()
    }

    /// The flag word with another set of flags merged in.
    pub fn union(self, other: ShaderKinds) -> (r: ShaderKinds)
        ensures
            r.0 == self.0 | other.0,
    {
        ShaderKinds(self.0 | other.0)
    }
}

/// The mask that `assemble` gives every vertex of a primitive whose source
/// carried exactly the listed optional attributes (`color` also covers a
/// non-white material base color).
pub open spec fn spec_kinds(
    normal: bool,
    tangent: bool,
    tex0: bool,
    tex1: bool,
    weight: bool,
    joint: bool,
    color: bool,
) -> u32 {
    (if normal { 2u32 } else { 0u32 })
        | (if tangent { 16u32 } else { 0u32 })
        | (if tex0 { 4u32 } else { 0u32 })
        | (if tex1 { 8u32 } else { 0u32 })
        | (if weight { 32u32 } else { 0u32 })
        | (if joint { 64u32 } else { 0u32 })
        | (if color { 128u32 } else { 0u32 })
}

/// Each flag in the combined mask reports exactly its own attribute.
pub proof fn lemma_kinds_bits(
    normal: bool,
    tangent: bool,
    tex0: bool,
    tex1: bool,
    weight: bool,
    joint: bool,
    color: bool,
)
    ensures
        (spec_kinds(normal, tangent, tex0, tex1, weight, joint, color) & 2 != 0) == normal,
        (spec_kinds(normal, tangent, tex0, tex1, weight, joint, color) & 16 != 0) == tangent,
        (spec_kinds(normal, tangent, tex0, tex1, weight, joint, color) & 4 != 0) == tex0,
        (spec_kinds(normal, tangent, tex0, tex1, weight, joint, color) & 8 != 0) == tex1,
        (spec_kinds(normal, tangent, tex0, tex1, weight, joint, color) & 32 != 0) == weight,
        (spec_kinds(normal, tangent, tex0, tex1, weight, joint, color) & 64 != 0) == joint,
        (spec_kinds(normal, tangent, tex0, tex1, weight, joint, color) & 128 != 0) == color,
{
    let n: u32 = if normal { 2u32 } else { 0u32 };
    let tg: u32 = if tangent { 16u32 } else { 0u32 };
    let t0: u32 = if tex0 { 4u32 } else { 0u32 };
    let t1: u32 = if tex1 { 8u32 } else { 0u32 };
    let w: u32 = if weight { 32u32 } else { 0u32 };
    let j: u32 = if joint { 64u32 } else { 0u32 };
    let c: u32 = if color { 128u32 } else { 0u32 };
    assert((n | tg | t0 | t1 | w | j | c) & 2 == n) by (bit_vector)
        requires
            n == 2u32 || n == 0u32,
            tg == 16u32 || tg == 0u32,
            t0 == 4u32 || t0 == 0u32,
            t1 == 8u32 || t1 == 0u32,
            w == 32u32 || w == 0u32,
            j == 64u32 || j == 0u32,
            c == 128u32 || c == 0u32,
    ;
    assert((n | tg | t0 | t1 | w | j | c) & 16 == tg) by (bit_vector)
        requires
            n == 2u32 || n == 0u32,
            tg == 16u32 || tg == 0u32,
            t0 == 4u32 || t0 == 0u32,
            t1 == 8u32 || t1 == 0u32,
            w == 32u32 || w == 0u32,
            j == 64u32 || j == 0u32,
            c == 128u32 || c == 0u32,
    ;
    assert((n | tg | t0 | t1 | w | j | c) & 4 == t0) by (bit_vector)
        requires
            n == 2u32 || n == 0u32,
            tg == 16u32 || tg == 0u32,
            t0 == 4u32 || t0 == 0u32,
            t1 == 8u32 || t1 == 0u32,
            w == 32u32 || w == 0u32,
            j == 64u32 || j == 0u32,
            c == 128u32 || c == 0u32,
    ;
    assert((n | tg | t0 | t1 | w | j | c) & 8 == t1) by (bit_vector)
        requires
            n == 2u32 || n == 0u32,
            tg == 16u32 || tg == 0u32,
            t0 == 4u32 || t0 == 0u32,
            t1 == 8u32 || t1 == 0u32,
            w == 32u32 || w == 0u32,
            j == 64u32 || j == 0u32,
            c == 128u32 || c == 0u32,
    ;
    assert((n | tg | t0 | t1 | w | j | c) & 32 == w) by (bit_vector)
        requires
            n == 2u32 || n == 0u32,
            tg == 16u32 || tg == 0u32,
            t0 == 4u32 || t0 == 0u32,
            t1 == 8u32 || t1 == 0u32,
            w == 32u32 || w == 0u32,
            j == 64u32 || j == 0u32,
            c == 128u32 || c == 0u32,
    ;
    assert((n | tg | t0 | t1 | w | j | c) & 64 == j) by (bit_vector)
        requires
            n == 2u32 || n == 0u32,
            tg == 16u32 || tg == 0u32,
            t0 == 4u32 || t0 == 0u32,
            t1 == 8u32 || t1 == 0u32,
            w == 32u32 || w == 0u32,
            j == 64u32 || j == 0u32,
            c == 128u32 || c == 0u32,
    ;
    assert((n | tg | t0 | t1 | w | j | c) & 128 == c) by (bit_vector)
        requires
            n == 2u32 || n == 0u32,
            tg == 16u32 || tg == 0u32,
            t0 == 4u32 || t0 == 0u32,
            t1 == 8u32 || t1 == 0u32,
            w == 32u32 || w == 0u32,
            j == 64u32 || j == 0u32,
            c == 128u32 || c == 0u32,
    ;
}

/// Builds the combined mask with executable bitwise unions.
pub fn kinds_from_flags(
    normal: bool,
    tangent: bool,
    tex0: bool,
    tex1: bool,
    weight: bool,
    joint: bool,
    color: bool,
) -> (r: ShaderKinds)
    ensures
        r.0 == spec_kinds(normal, tangent, tex0, tex1, weight, joint, color),
{
    let n: u32 = if normal { 2 } else { 0 };
    let tg: u32 = if tangent { 16 } else { 0 };
    let t0: u32 = if tex0 { 4 } else { 0 };
    let t1: u32 = if tex1 { 8 } else { 0 };
    let w: u32 = if weight { 32 } else { 0 };
    let j: u32 = if joint { 64 } else { 0 };
    let c: u32 = if color { 128 } else { 0 };
    ShaderKinds(n | tg | t0 | t1 | w | j | c)
}

} // verus!
