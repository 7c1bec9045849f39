//! Geometry primitives and the integer arithmetic the resolvers are built on.
//!
//! Resolved coordinates and extents live in `i32`.  All intermediate layout
//! arithmetic is carried out exactly (modelled on mathematical integers) and
//! is saturated into the `i32` range only where a value is stored back into a
//! rectangle, mirroring a narrowing store.  Ratios are exact rationals and
//! scaling by a ratio truncates toward zero.

use vstd::prelude::*;

verus! {

/// A 2-D extent (width, height): the resolution context for relative sizing.
#[derive(Clone, Copy, Debug, PartialEq, Eq, Structural)]
pub struct Dimension {
    pub width: i32,
    pub height: i32,
}

impl Dimension {
    pub fn new(width: i32, height: i32) -> (d: Dimension)
        ensures
            d.width == width,
            d.height == height,
    {
        Dimension { width, height }
    }
}

/// An axis-aligned rectangle: position plus size, in screen pixels.
///
/// Width and height may be transiently negative during layout; they are
/// clamped to zero only at the point a draw primitive is emitted.
#[derive(Clone, Copy, Debug, PartialEq, Eq, Structural)]
pub struct Rect {
    pub x: i32,
    pub y: i32,
    pub w: i32,
    pub h: i32,
}

impl Rect {
    pub fn new(x: i32, y: i32, w: i32, h: i32) -> (r: Rect)
        ensures
            r.x == x,
            r.y == y,
            r.w == w,
            r.h == h,
    {
        Rect { x, y, w, h }
    }

    /// The extent of this rectangle, used as the resolution context for the
    /// sizes of its children.
    pub open spec fn spec_dimension(self) -> Dimension {
        Dimension { width: self.w, height: self.h }
    }

    pub fn dimension(self) -> (d: Dimension)
        ensures
            d == self.spec_dimension(),
    {
        Dimension::new(self.w, self.h)
    }
}

/// An exact rational ratio `num / den`, the relative-sizing factor carried by
/// the ratio variants of `Size`.
///
/// A ratio whose denominator is not positive is degenerate; scaling by it
/// resolves to zero (see `ratio_scaled`).
#[derive(Clone, Copy, Debug, PartialEq, Eq, Structural)]
pub struct Ratio {
    pub num: i32,
    pub den: i32,
}

impl Ratio {
    pub fn new(num: i32, den: i32) -> (r: Ratio)
        ensures
            r.num == num,
            r.den == den,
    {
        Ratio { num, den }
    }
}

/// An RGBA color.  Each channel holds the bit pattern of the caller's own
/// color encoding (for instance an IEEE-754 single per channel); the layout
/// engine never computes on channels, it only carries them through to the
/// emitted primitives.
#[derive(Clone, Copy, Debug, PartialEq, Eq, Structural)]
pub struct Color {
    pub r: u32,
    pub g: u32,
    pub b: u32,
    pub a: u32,
}

impl Color {
    pub fn new(r: u32, g: u32, b: u32, a: u32) -> (c: Color)
        ensures
            c.r == r,
            c.g == g,
            c.b == b,
            c.a == a,
    {
        Color { r, g, b, a }
    }
}

/// Saturates a mathematical integer into the `i32` range.
pub open spec fn sat32(v: int) -> int {
    if v > i32::MAX as int {
        i32::MAX as int
    } else if v < i32::MIN as int {
        i32::MIN as int
    } else {
        v
    }
}

/// Integer division truncating toward zero (for a positive divisor), the
/// rounding rule of every ratio scaling and weight split in this engine.
pub open spec fn trunc_div(a: int, b: int) -> int
    recommends
        b >= 1,
{
    if a >= 0 {
        a / b
    } else {
        -((-a) / b)
    }
}

/// Clamps a distribution-axis length into `[0, i32::MAX]`: a negative length
/// occupies no space, an oversized one saturates at the largest extent.
pub open spec fn clamp_len(v: int) -> int {
    if v < 0 {
        0
    } else if v > i32::MAX as int {
        i32::MAX as int
    } else {
        v
    }
}

/// Scales an extent by a ratio, truncating toward zero and saturating into
/// `i32`; a degenerate ratio (denominator not positive) scales to zero.
pub open spec fn ratio_scaled(extent: int, r: Ratio) -> int {
    if r.den <= 0 {
        0
    } else {
        sat32(trunc_div(extent * r.num, r.den as int))
    }
}

pub(crate) fn sat_i128_to_i32(v: i128) -> (r: i32)
    ensures
        r as int == sat32(v as int),
{
    if v > i32::MAX as i128 {
        i32::MAX
    } else if v < i32::MIN as i128 {
        i32::MIN
    } else {
        v as i32
    }
}

pub(crate) fn clamp_len_i128(v: i128) -> (r: i32)
    ensures
        r as int == clamp_len(v as int),
{
    if v < 0 {
        0
    } else if v > i32::MAX as i128 {
        i32::MAX
    } else {
        v as i32
    }
}

pub(crate) fn trunc_div_i128(a: i128, b: i128) -> (q: i128)
    requires
        b >= 1,
        a > i128::MIN,
    ensures
        q as int == trunc_div(a as int, b as int),
        trunc_div(a as int, b as int) == q,
{
    if a >= 0 {
        ((a as u128) / (b as u128)) as i128
    } else {
        let m: u128 = ((0 - a) as u128) / (b as u128);
        assert(m <= (0 - a) as u128) by {
            vstd::arithmetic::div_mod::lemma_div_is_ordered_by_denominator(
                (0 - a) as int,
                1,
                b as int,
            );
            vstd::arithmetic::div_mod::lemma_div_basics((0 - a) as int);
        }
        0 - (m as i128)
    }
}

/// Scales `extent` by the ratio `r`: the resolved length of a ratio size.
pub(crate) fn ratio_apply(extent: i32, r: Ratio) -> (out: i32)
    ensures
        out as int == ratio_scaled(extent as int, r),
{
    if r.den <= 0 {
        0
    } else {
        proof {
            lemma_mul_bounds(extent as int, r.num as int, 0x8000_0000, 0x8000_0000);
        }
        let p: i128 = (extent as i128) * (r.num as i128);
        let q: i128 = trunc_div_i128(p, r.den as i128);
        sat_i128_to_i32(q)
    }
}

/// The remainder that truncating division leaves behind: `trunc_div(a, b)`
/// multiplied back by `b` misses `a` by less than `b`, in the direction of
/// zero.
pub proof fn lemma_trunc_div_bound(a: int, b: int)
    requires
        b >= 1,
    ensures
        a >= 0 ==> a - b < trunc_div(a, b) * b <= a,
        a <= 0 ==> a <= trunc_div(a, b) * b < a + b,
{
    if a >= 0 {
        vstd::arithmetic::div_mod::lemma_fundamental_div_mod(a, b);
        vstd::arithmetic::div_mod::lemma_mod_bound(a, b);
        assert(b * (a / b) == (a / b) * b) by (nonlinear_arith);
    } else {
        let na = -a;
        vstd::arithmetic::div_mod::lemma_fundamental_div_mod(na, b);
        vstd::arithmetic::div_mod::lemma_mod_bound(na, b);
        assert(trunc_div(a, b) == -(na / b));
        assert((-(na / b)) * b == -(b * (na / b))) by (nonlinear_arith);
        assert(trunc_div(a, b) * b == -(na - na % b));
    }
}

/// Bounds a product by the product of the bounds.
pub proof fn lemma_mul_bounds(a: int, b: int, bound_a: int, bound_b: int)
    requires
        -bound_a <= a <= bound_a,
        -bound_b <= b <= bound_b,
        0 <= bound_a,
        0 <= bound_b,
    ensures
        -(bound_a * bound_b) <= a * b <= bound_a * bound_b,
{
    assert(-(bound_a * bound_b) <= a * b <= bound_a * bound_b) by (nonlinear_arith)
        requires
            -bound_a <= a <= bound_a,
            -bound_b <= b <= bound_b,
            0 <= bound_a,
            0 <= bound_b,
    ;
}

} // verus!
