//! Particle effects: the preset selector and the integer random-number
//! generator that drives spawning.

use vstd::prelude::*;

verus! {

/// Preset particle effects
#[derive(Debug, Clone, Copy, PartialEq, Eq, Hash, Structural)]
pub enum ParticlePreset {
    Fire,
    Smoke,
    Rain,
    Snow,
    Sparks,
    Fountain,
    Explosion,
    Matrix,
}

impl Default for ParticlePreset {
    fn default() -> (r: Self)
        ensures
            r == ParticlePreset::Fire,
    {
        ParticlePreset::Fire
    }
}

impl ParticlePreset {
    /// Position of the variant in the cycle `Fire, Smoke, Rain, Snow, Sparks, Fountain, Explosion, Matrix`.
    pub open spec fn position(self) -> nat {
        match self {
            ParticlePreset::Fire => 0,
            ParticlePreset::Smoke => 1,
            ParticlePreset::Rain => 2,
            ParticlePreset::Snow => 3,
            ParticlePreset::Sparks => 4,
            ParticlePreset::Fountain => 5,
            ParticlePreset::Explosion => 6,
            ParticlePreset::Matrix => 7,
        }
    }

    pub open spec fn spec_next(self) -> Self {
        match self {
            ParticlePreset::Fire => ParticlePreset::Smoke,
            ParticlePreset::Smoke => ParticlePreset::Rain,
            ParticlePreset::Rain => ParticlePreset::Snow,
            ParticlePreset::Snow => ParticlePreset::Sparks,
            ParticlePreset::Sparks => ParticlePreset::Fountain,
            ParticlePreset::Fountain => ParticlePreset::Explosion,
            ParticlePreset::Explosion => ParticlePreset::Matrix,
            ParticlePreset::Matrix => ParticlePreset::Fire,
        }
    }

    /// The variant after this one, wrapping around after the last.
    pub fn next(self) -> (r: Self)
        ensures
            r == self.spec_next(),
            r.position() == (self.position() + 1) % 8,
    {
        match self {
            ParticlePreset::Fire => ParticlePreset::Smoke,
            ParticlePreset::Smoke => ParticlePreset::Rain,
            ParticlePreset::Rain => ParticlePreset::Snow,
            ParticlePreset::Snow => ParticlePreset::Sparks,
            ParticlePreset::Sparks => ParticlePreset::Fountain,
            ParticlePreset::Fountain => ParticlePreset::Explosion,
            ParticlePreset::Explosion => ParticlePreset::Matrix,
            ParticlePreset::Matrix => ParticlePreset::Fire,
        }
    }

    pub open spec fn spec_name(self) -> Seq<char> {
        match self {
            ParticlePreset::Fire => "Fire"@,
            ParticlePreset::Smoke => "Smoke"@,
            ParticlePreset::Rain => "Rain"@,
            ParticlePreset::Snow => "Snow"@,
            ParticlePreset::Sparks => "Sparks"@,
            ParticlePreset::Fountain => "Fountain"@,
            ParticlePreset::Explosion => "Explosion"@,
            ParticlePreset::Matrix => "Matrix"@,
        }
    }

    pub fn name(self) -> (r: &'static str)
        ensures
            r@ == self.spec_name(),
    {
        match self {
            ParticlePreset::Fire => "Fire",
            ParticlePreset::Smoke => "Smoke",
            ParticlePreset::Rain => "Rain",
            ParticlePreset::Snow => "Snow",
            ParticlePreset::Sparks => "Sparks",
            ParticlePreset::Fountain => "Fountain",
            ParticlePreset::Explosion => "Explosion",
            ParticlePreset::Matrix => "Matrix",
        }
    }
}

impl ParticlePreset {
    /// The variant reached after `k` calls of `next`.
    pub open spec fn after(self, k: nat) -> Self
        decreases k,
    {
        if k == 0 {
            self
        } else {
            self.after((k - 1) as nat).spec_next()
        }
    }
}

/// Cycling with `next` visits every variant before coming back: after
/// 8 steps it returns to where it started, and never earlier.
pub proof fn lemma_particle_preset_cycle(start: ParticlePreset)
    ensures
        start.after(8) == start,
        forall|k: nat| 0 < k < 8 ==> #[trigger] start.after(k) != start,
{
    lemma_particle_preset_after_position(start, 8);
    assert forall|k: nat| 0 < k < 8 implies #[trigger] start.after(k) != start by {
        assert(start.after(k).position() == (start.position() + k) % 8) by {
            lemma_particle_preset_after_position(start, k);
        }
    }
}

proof fn lemma_particle_preset_after_position(start: ParticlePreset, k: nat)
    ensures
        start.after(k).position() == (start.position() + k) % 8,
    decreases k,
{
    if k > 0 {
        lemma_particle_preset_after_position(start, (k - 1) as nat);
    }
}


/// The seed of the particle random-number generator.
pub const RNG_SEED: u32 = 0xDEAD_BEEF;

/// One step of the xorshift generator: shift-xor by 13 left, 17 right
/// and 5 left.
pub open spec fn xorshift_step(x: u32) -> u32 {
    let a = x ^ (x << 13u32);
    let b = a ^ (a >> 17u32);
    b ^ (b << 5u32)
}

/// The next state of the xorshift generator.
pub fn xorshift(x: u32) -> (r: u32)
    ensures
        r == xorshift_step(x),
{
    let mut v = x;
    v = v ^ (v << 13u32);
    v = v ^ (v >> 17u32);
    v = v ^ (v << 5u32);
    v
}

/// A nonzero state never steps to zero, so the generator never sticks.
pub proof fn lemma_xorshift_never_sticks(x: u32)
    requires
        x != 0,
    ensures
        xorshift_step(x) != 0,
{
    let a = x ^ (x << 13u32);
    let b = a ^ (a >> 17u32);
    assert(x != 0 ==> x ^ (x << 13u32) != 0) by (bit_vector);
    assert(a != 0 ==> a ^ (a >> 17u32) != 0) by (bit_vector);
    assert(b != 0 ==> b ^ (b << 5u32) != 0) by (bit_vector);
}

/// How many particles a burst of `count` spawns when `alive` exist and at
/// most `max` may: one per step while there is room.
pub fn burst_size(alive: usize, max: usize, count: usize) -> (r: usize)
    ensures
        alive >= max ==> r == 0,
        alive < max ==> r == (if count < max - alive {
            count
        } else {
            (max - alive) as usize
        }),
{
    if alive >= max {
        0
    } else if count < max - alive {
        count
    } else {
        max - alive
    }
}

/// A burst fills the system up to its limit, and never past it.
pub proof fn lemma_burst_fills_to_limit(alive: usize, max: usize, count: usize, r: usize)
    requires
        alive <= max,
        r == (if count < max - alive {
            count
        } else {
            (max - alive) as usize
        }),
    ensures
        alive + r <= max,
        alive + r == max || r == count,
{
}

} // verus!
