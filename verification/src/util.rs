//! Small utilities shared by the engine and the games: a deterministic
//! pseudo-random generator, grid points and movement directions.

use vstd::prelude::*;

verus! {

/// A deterministic xorshift pseudo-random generator.  The whole state is one
/// word, and every draw is fully specified by `spec_next`, so code that mixes
/// random draws into its logic can still be reasoned about exactly.
pub struct Rand {
    pub seed: u64,
}

/// The seed every generator starts from.
pub const RAND_DEFAULT_SEED: u64 = 0x9E3779B97F4A7C15;

impl Rand {
    /// The xorshift64 state transition.
    pub open spec fn spec_next(s: u64) -> u64 {
        let a = s ^ (s << 13);
        let b = a ^ (a >> 7);
        b ^ (b << 17)
    }

    /// The value a draw returns for a given pre-draw state.
    pub open spec fn spec_value(s: u64) -> u32 {
        (Self::spec_next(s) >> 32) as u32
    }

    pub fn new() -> (r: Rand)
        ensures
            r.seed == RAND_DEFAULT_SEED,
    {
        Rand { seed: RAND_DEFAULT_SEED }
    }

    /// Re-seed the generator.
    pub fn srand(&mut self, seed: u64)
        ensures
            final(self).seed == seed,
    {
        self.seed = seed;
    }

    /// Draw the next value and advance the state.
    pub fn rand(&mut self) -> (r: u32)
        ensures
            final(self).seed == Self::spec_next(old(self).seed),
            r == Self::spec_value(old(self).seed),
    {
        let mut s = self.seed;
        s = s ^ (s << 13);
        s = s ^ (s >> 7);
        s = s ^ (s << 17);
        self.seed = s;
        (s >> 32) as u32
    }
}

/// A position on the cell grid.
#[derive(Clone, Copy, PartialEq, Eq, Structural, Debug)]
pub struct Point {
    pub x: u16,
    pub y: u16,
}

/// A movement direction on the grid.
#[derive(Clone, Copy, PartialEq, Eq, Structural, Debug)]
pub enum Dir {
    Up,
    Down,
    Left,
    Right,
}

} // verus!

verus! {

/// Relies on rand::random: one draw from the thread-local generator.  The
/// result depends on process entropy, so nothing is promised of it.
#[verifier::external_body]
fn random_u32() -> u32 {
    ::rand::random()
}

/// A random draw reduced below `n`.  Whatever the generator returned, the
/// result is in range; nothing else holds of it.
pub fn rand_in_range(n: u32) -> (r: u32)
    requires
        n > 0,
    ensures
        r < n,
{
    let v: u32 = random_u32();
    v % n
}

} // verus!
