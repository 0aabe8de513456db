//! The per-shape attribute record: geometry, transform, paint and children.
//!
//! Numeric attributes cross the call boundary as IEEE-754 single-precision
//! values. The core never does arithmetic on them (they are forwarded to the
//! drawing backend as they came), so it stores each one as its 32-bit bit
//! pattern. The one place where a fractional value is interpreted is the
//! alpha channel of a solid fill, which is converted here to an 8-bit
//! channel with exact floor semantics.

use crate::ident::ShapeId;
use vstd::arithmetic::power2::lemma2_to64;
use vstd::arithmetic::power2::lemma2_to64_rest;
use vstd::arithmetic::power2::lemma_pow2_strictly_increases;
use vstd::arithmetic::power2::pow2;
use vstd::bits::lemma_u64_shr_is_div;
use vstd::prelude::*;

verus! {

/// The bit pattern of `1.0` in IEEE-754 single precision.
pub const F32_ONE_BITS: u32 = 0x3f80_0000;

/// Axis-aligned bounding rectangle `(x1, y1, x2, y2)`, each field the bit
/// pattern of a single-precision value. No ordering between `x1`/`x2` or
/// `y1`/`y2` is enforced: callers may store inverted rectangles.
#[derive(Clone, Copy, PartialEq, Eq, Structural, Debug)]
pub struct Rect {
    pub x1: u32,
    pub y1: u32,
    pub x2: u32,
    pub y2: u32,
}

impl Rect {
    /// The all-zero rectangle a fresh shape starts with.
    pub fn zero() -> (r: Rect)
        ensures
            r == zero_rect(),
    {
        Rect { x1: 0, y1: 0, x2: 0, y2: 0 }
    }
}

/// The rectangle of a fresh shape: all four coordinates are `0.0`, whose
/// single-precision bit pattern is zero.
pub open spec fn zero_rect() -> Rect {
    Rect { x1: 0, y1: 0, x2: 0, y2: 0 }
}

/// A 2x3 affine matrix `(a, b, c, d, e, f)`, each field the bit pattern of a
/// single-precision value.
#[derive(Clone, Copy, PartialEq, Eq, Structural, Debug)]
pub struct Matrix {
    pub a: u32,
    pub b: u32,
    pub c: u32,
    pub d: u32,
    pub e: u32,
    pub f: u32,
}

impl Matrix {
    /// The identity matrix `(1, 0, 0, 1, 0, 0)`.
    pub fn identity() -> (r: Matrix)
        ensures
            r == identity_matrix(),
    {
        Matrix { a: F32_ONE_BITS, b: 0, c: 0, d: F32_ONE_BITS, e: 0, f: 0 }
    }
}

/// The identity transform `(1, 0, 0, 1, 0, 0)` in bit-pattern form.
pub open spec fn identity_matrix() -> Matrix {
    Matrix { a: F32_ONE_BITS, b: 0, c: 0, d: F32_ONE_BITS, e: 0, f: 0 }
}

/// One ordered paint layer. The core supports a single variant: a solid
/// color with 8-bit channels. Fills paint in list order, later entries
/// compositing over earlier ones.
#[derive(Clone, Copy, PartialEq, Eq, Structural, Debug)]
pub enum Fill {
    Solid { r: u8, g: u8, b: u8, a: u8 },
}

/// The sign bit of a single-precision bit pattern.
pub open spec fn f32_sign(bits: u32) -> u32 {
    bits >> 31
}

/// The biased exponent of a single-precision bit pattern.
pub open spec fn f32_exp(bits: u32) -> u32 {
    (bits >> 23) & 0xff
}

/// The mantissa field of a single-precision bit pattern.
pub open spec fn f32_mant(bits: u32) -> u32 {
    bits & 0x7f_ffff
}

/// `floor(255 * v)` for a non-negative value `v < 1` given by exponent field
/// `e <= 126` and mantissa field `m`: the represented value is
/// `frac / 2^(150 - e1)` with `frac` the significand and `e1` the effective
/// exponent, so the product floors to `255 * frac` shifted down by
/// `150 - e1` bits.
pub open spec fn scaled_alpha(e: u32, m: u32) -> u8
    recommends
        e <= 126,
        m < 0x80_0000,
{
    let e1: u32 = if e == 0 {
        1u32
    } else {
        e
    };
    let frac: int = if e == 0 {
        m as int
    } else {
        m + 0x80_0000
    };
    ((255 * frac) / pow2((150 - e1) as nat) as int) as u8
}

/// The 8-bit alpha channel stored for a host-supplied alpha fraction, given
/// as the bit pattern of a single-precision value. For a fraction in
/// `[0, 1]` this is exactly `floor(255 * fraction)`; out-of-range and NaN
/// inputs saturate the way a float-to-byte conversion does: negative values
/// and NaN give `0`, values of one or more give `255`.
pub open spec fn alpha_byte_of(bits: u32) -> u8 {
    if f32_sign(bits) == 1 {
        0u8
    } else if f32_exp(bits) == 255 {
        if f32_mant(bits) == 0 {
            255u8
        } else {
            0u8
        }
    } else if f32_exp(bits) >= 127 {
        255u8
    } else {
        scaled_alpha(f32_exp(bits), f32_mant(bits))
    }
}

/// Converts a host-supplied alpha fraction, given as the bit pattern of a
/// single-precision value, to the 8-bit channel that is stored.
pub fn alpha_byte(bits: u32) -> (r: u8)
    ensures
        r == alpha_byte_of(bits),
{
    let sign: u32 = bits >> 31;
    let e: u32 = (bits >> 23) & 0xff;
    let m: u32 = bits & 0x7f_ffff;
    proof {
        assert(m < 0x80_0000) by (bit_vector)
            requires
                m == bits & 0x7f_ffff,
        ;
    }
    if sign == 1 {
        0
    } else if e == 255 {
        if m == 0 {
            255
        } else {
            0
        }
    } else if e >= 127 {
        255
    } else if e <= 118 {
        // The represented value is below 2^-8, so 255 times it is below 1.
        proof {
            let e1: u32 = if e == 0 {
                1u32
            } else {
                e
            };
            let frac: int = if e == 0 {
                m as int
            } else {
                m + 0x80_0000
            };
            lemma2_to64();
            if (150 - e1) as nat > 32 {
                lemma_pow2_strictly_increases(32, (150 - e1) as nat);
            }
            assert(255 * frac < pow2(32));
            assert(255 * frac < pow2((150 - e1) as nat));
            vstd::arithmetic::div_mod::lemma_multiply_divide_lt(
                255 * frac,
                pow2((150 - e1) as nat) as int,
                1,
            );
            vstd::arithmetic::div_mod::lemma_div_pos_is_pos(
                255 * frac,
                pow2((150 - e1) as nat) as int,
            );
            assert((255 * frac) / (pow2((150 - e1) as nat) as int) == 0);
        }
        0
    } else {
        // 119 <= e <= 126: the significand carries the hidden bit and the
        // shift distance fits a 64-bit product.
        let frac: u64 = (m + 0x80_0000) as u64;
        let shift: u64 = (150 - e) as u64;
        let q: u64 = (255u64 * frac) >> shift;
        proof {
            lemma_u64_shr_is_div((255 * frac) as u64, shift);
            lemma2_to64();
            lemma2_to64_rest();
            assert(255u64 * frac < pow2(32));
            if (shift as nat) > 24 {
                lemma_pow2_strictly_increases(24, shift as nat);
            }
            assert(255 * frac < pow2(shift as nat) * 256);
            vstd::arithmetic::div_mod::lemma_multiply_divide_lt(
                (255 * frac) as int,
                pow2(shift as nat) as int,
                256,
            );
        }
        q as u8
    }
}

/// One visual node of the scene tree.
///
/// `children` holds lookup keys into the store, not owning references: an
/// entry need not resolve to a stored shape, and the renderer skips ones
/// that do not. `rotation` is an independent attribute; the traversal does
/// not fold it into `transform` (see the render module).
#[derive(Debug)]
pub struct Shape {
    pub id: ShapeId,
    pub selrect: Rect,
    pub rotation: u32,
    pub transform: Matrix,
    pub children: Vec<ShapeId>,
    pub fills: Vec<Fill>,
}

/// The mathematical value of a [`Shape`]: the same attributes with the two
/// lists abstracted to sequences.
pub struct ShapeView {
    pub id: u128,
    pub selrect: Rect,
    pub rotation: u32,
    pub transform: Matrix,
    pub children: Seq<u128>,
    pub fills: Seq<Fill>,
}

impl View for Shape {
    type V = ShapeView;

    open spec fn view(&self) -> ShapeView {
        ShapeView {
            id: self.id.value,
            selrect: self.selrect,
            rotation: self.rotation,
            transform: self.transform,
            children: self.children@.map_values(|c: ShapeId| c.value),
            fills: self.fills@,
        }
    }
}

/// The attributes every freshly created shape starts with: all-zero
/// rectangle, rotation `0`, identity transform, no children, no fills.
pub open spec fn default_shape(id: u128) -> ShapeView {
    ShapeView {
        id,
        selrect: zero_rect(),
        rotation: 0,
        transform: identity_matrix(),
        children: Seq::empty(),
        fills: Seq::empty(),
    }
}

impl Shape {
    /// A fresh shape with default attributes under the given identifier.
    pub fn new(id: ShapeId) -> (s: Shape)
        ensures
            s@ == default_shape(id.value),
    {
        let s = Shape {
            id,
            selrect: Rect::zero(),
            rotation: 0,
            transform: Matrix::identity(),
            children: Vec::new(),
            fills: Vec::new(),
        };
        proof {
            assert(s@.children =~= Seq::<u128>::empty());
            assert(s@ =~= default_shape(id.value));
        }
        s
    }

    /// Overwrites the bounding rectangle.
    pub fn set_selrect(&mut self, selrect: Rect)
        ensures
            final(self)@ == (ShapeView { selrect, ..old(self)@ }),
    {
        self.selrect = selrect;
    }

    /// Overwrites the rotation attribute.
    pub fn set_rotation(&mut self, rotation: u32)
        ensures
            final(self)@ == (ShapeView { rotation, ..old(self)@ }),
    {
        self.rotation = rotation;
    }

    /// Overwrites the transform matrix.
    pub fn set_transform(&mut self, transform: Matrix)
        ensures
            final(self)@ == (ShapeView { transform, ..old(self)@ }),
    {
        self.transform = transform;
    }

    /// Appends an identifier at the end of the child list.
    pub fn add_child(&mut self, child: ShapeId)
        ensures
            final(self)@ == (ShapeView {
                children: old(self)@.children.push(child.value),
                ..old(self)@
            }),
    {
        self.children.push(child);
        proof {
            assert(self@.children =~= old(self)@.children.push(child.value));
            assert(self@ =~= (ShapeView {
                children: old(self)@.children.push(child.value),
                ..old(self)@
            }));
        }
    }

    /// Empties the child list.
    pub fn clear_children(&mut self)
        ensures
            final(self)@ == (ShapeView { children: Seq::empty(), ..old(self)@ }),
    {
        self.children.clear();
        proof {
            assert(self@.children =~= Seq::<u128>::empty());
            assert(self@ =~= (ShapeView { children: Seq::empty(), ..old(self)@ }));
        }
    }

    /// Appends a fill at the end of the paint list.
    pub fn add_fill(&mut self, fill: Fill)
        ensures
            final(self)@ == (ShapeView { fills: old(self)@.fills.push(fill), ..old(self)@ }),
    {
        self.fills.push(fill);
        proof {
            assert(self@ =~= (ShapeView { fills: old(self)@.fills.push(fill), ..old(self)@ }));
        }
    }

    /// Empties the paint list.
    pub fn clear_fills(&mut self)
        ensures
            final(self)@ == (ShapeView { fills: Seq::empty(), ..old(self)@ }),
    {
        self.fills.clear();
        proof {
            assert(self@ =~= (ShapeView { fills: Seq::empty(), ..old(self)@ }));
        }
    }
}

} // verus!
