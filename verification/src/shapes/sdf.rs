//! Signed-distance-field scenes: the preset selector and the integer lattice
//! hash behind the terrain noise.

use vstd::prelude::*;

verus! {

/// Preset signed-distance-field scenes
#[derive(Debug, Clone, Copy, PartialEq, Eq, Hash, Structural)]
pub enum SdfPreset {
    Metaballs,
    Fractal,
    Blend,
    Twist,
    Rings,
    Terrain,
}

impl Default for SdfPreset {
    fn default() -> (r: Self)
        ensures
            r == SdfPreset::Metaballs,
    {
        SdfPreset::Metaballs
    }
}

impl SdfPreset {
    /// Position of the variant in the cycle `Metaballs, Fractal, Blend, Twist, Rings, Terrain`.
    pub open spec fn position(self) -> nat {
        match self {
            SdfPreset::Metaballs => 0,
            SdfPreset::Fractal => 1,
            SdfPreset::Blend => 2,
            SdfPreset::Twist => 3,
            SdfPreset::Rings => 4,
            SdfPreset::Terrain => 5,
        }
    }

    pub open spec fn spec_next(self) -> Self {
        match self {
            SdfPreset::Metaballs => SdfPreset::Fractal,
            SdfPreset::Fractal => SdfPreset::Blend,
            SdfPreset::Blend => SdfPreset::Twist,
            SdfPreset::Twist => SdfPreset::Rings,
            SdfPreset::Rings => SdfPreset::Terrain,
            SdfPreset::Terrain => SdfPreset::Metaballs,
        }
    }

    /// The variant after this one, wrapping around after the last.
    pub fn next(self) -> (r: Self)
        ensures
            r == self.spec_next(),
            r.position() == (self.position() + 1) % 6,
    {
        match self {
            SdfPreset::Metaballs => SdfPreset::Fractal,
            SdfPreset::Fractal => SdfPreset::Blend,
            SdfPreset::Blend => SdfPreset::Twist,
            SdfPreset::Twist => SdfPreset::Rings,
            SdfPreset::Rings => SdfPreset::Terrain,
            SdfPreset::Terrain => SdfPreset::Metaballs,
        }
    }

    pub open spec fn spec_name(self) -> Seq<char> {
        match self {
            SdfPreset::Metaballs => "Metaballs"@,
            SdfPreset::Fractal => "Fractal"@,
            SdfPreset::Blend => "Blend"@,
            SdfPreset::Twist => "Twist"@,
            SdfPreset::Rings => "Rings"@,
            SdfPreset::Terrain => "Terrain"@,
        }
    }

    pub fn name(self) -> (r: &'static str)
        ensures
            r@ == self.spec_name(),
    {
        match self {
            SdfPreset::Metaballs => "Metaballs",
            SdfPreset::Fractal => "Fractal",
            SdfPreset::Blend => "Blend",
            SdfPreset::Twist => "Twist",
            SdfPreset::Rings => "Rings",
            SdfPreset::Terrain => "Terrain",
        }
    }
}

impl SdfPreset {
    /// The variant reached after `k` calls of `next`.
    pub open spec fn after(self, k: nat) -> Self
        decreases k,
    {
        if k == 0 {
            self
        } else {
            self.after((k - 1) as nat).spec_next()
        }
    }
}

/// Cycling with `next` visits every variant before coming back: after
/// 6 steps it returns to where it started, and never earlier.
pub proof fn lemma_sdf_preset_cycle(start: SdfPreset)
    ensures
        start.after(6) == start,
        forall|k: nat| 0 < k < 6 ==> #[trigger] start.after(k) != start,
{
    lemma_sdf_preset_after_position(start, 6);
    assert forall|k: nat| 0 < k < 6 implies #[trigger] start.after(k) != start by {
        assert(start.after(k).position() == (start.position() + k) % 6) by {
            lemma_sdf_preset_after_position(start, k);
        }
    }
}

proof fn lemma_sdf_preset_after_position(start: SdfPreset, k: nat)
    ensures
        start.after(k).position() == (start.position() + k) % 6,
    decreases k,
{
    if k > 0 {
        lemma_sdf_preset_after_position(start, (k - 1) as nat);
    }
}


/// The pseudo-random value the terrain noise gives lattice point
/// `(x, y)`: a multiply-and-xor hash in wrapping `i32` arithmetic.
pub open spec fn lattice_hash_spec(x: i32, y: i32) -> i32 {
    let n = x.wrapping_mul(374761393).wrapping_add(y.wrapping_mul(668265263));
    (n ^ (n >> 13u32)).wrapping_mul(1274126177)
}

/// Hash a lattice point of the terrain noise.
pub fn lattice_hash(x: i32, y: i32) -> (r: i32)
    ensures
        r == lattice_hash_spec(x, y),
{
    let n = x.wrapping_mul(374761393).wrapping_add(y.wrapping_mul(668265263));
    (n ^ (n >> 13u32)).wrapping_mul(1274126177)
}

} // verus!
