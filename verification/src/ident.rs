//! Shape identity: a 128-bit identifier built from four 32-bit words.
//!
//! The host addresses shapes with four unsigned 32-bit words. They are packed
//! into one 128-bit value by concatenation, word `a` in the most significant
//! position and word `d` in the least significant one. The all-zero
//! identifier is reserved as the scene-root sentinel: it names the virtual
//! root of the tree, which the render entry point starts from.

use vstd::prelude::*;

verus! {

/// A 128-bit shape identifier, the key of the shape store.
#[derive(Clone, Copy, PartialEq, Eq, Structural, Debug)]
pub struct ShapeId {
    pub value: u128,
}

/// The packed value of four 32-bit words: `a` occupies bits 96..128,
/// `b` bits 64..96, `c` bits 32..64 and `d` bits 0..32.
pub open spec fn id_value_of_words(a: u32, b: u32, c: u32, d: u32) -> u128 {
    ((a as int) * 0x1000000000000000000000000 + (b as int) * 0x10000000000000000
        + (c as int) * 0x100000000 + (d as int)) as u128
}

impl ShapeId {
    /// Packs four 32-bit words into one identifier.
    pub fn from_u32_quartet(a: u32, b: u32, c: u32, d: u32) -> (r: ShapeId)
        ensures
            r.value == id_value_of_words(a, b, c, d),
    {
        let value: u128 = (a as u128) * 0x1000000000000000000000000
            + (b as u128) * 0x10000000000000000 + (c as u128) * 0x100000000 + (d as u128);
        ShapeId { value }
    }

    /// The all-zero scene-root sentinel.
    pub fn nil() -> (r: ShapeId)
        ensures
            r.value == 0,
    {
        ShapeId { value: 0 }
    }

    /// True exactly on the scene-root sentinel.
    pub fn is_nil(&self) -> (r: bool)
        ensures
            r == (self.value == 0),
    {
        self.value == 0
    }
}

/// Packing is injective: distinct word quartets give distinct identifiers.
/// In particular the sentinel is only reached from four zero words, so no
/// host-supplied non-zero identifier collides with the virtual root.
pub proof fn lemma_id_packing_injective(a1: u32, b1: u32, c1: u32, d1: u32, a2: u32, b2: u32, c2: u32, d2: u32)
    requires
        id_value_of_words(a1, b1, c1, d1) == id_value_of_words(a2, b2, c2, d2),
    ensures
        a1 == a2 && b1 == b2 && c1 == c2 && d1 == d2,
{
}

} // verus!
