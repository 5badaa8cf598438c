//! A small linear-congruential pseudo-random source, used to scatter the
//! initial particle population.
//!
//! Only the range of each drawn value is part of the contract: which value
//! comes out is deliberately left unspecified, and callers may not depend
//! on it.

use vstd::prelude::*;

verus! {

/// A pseudo-random source with 64 bits of state.
pub struct Rng {
    state: u64,
}

impl Rng {
    /// A source seeded with `seed`.
    pub fn new(seed: u64) -> Rng {
        Rng { state: seed }
    }

    /// The next pseudo-random value, drawn from `[0, bound)`.
    pub fn next_below(&mut self, bound: u64) -> (r: u64)
        requires
            bound >= 1,
        ensures
            r < bound,
    {
        proof {
            assert((self.state as int) * 6364136223846793005 <= (u64::MAX as int)
                * 6364136223846793005) by (nonlinear_arith)
                requires
                    self.state <= u64::MAX,
            ;
        }
        let wide: u128 = (self.state as u128) * 6364136223846793005u128 + 1442695040888963407u128;
        let next: u64 = (wide % 18446744073709551616u128) as u64;
        self.state = next;
        next % bound
    }
}

} // verus!
