use vstd::prelude::*;

verus! {

/// The generator's next state: `state * 1103515245 + 12345`, modulo 2^64.
pub open spec fn lcg_step(state: u64) -> u64 {
    ((state * 1103515245 + 12345) % 0x1_0000_0000_0000_0000) as u64
}

/// The 15 bits a state yields: bits 16 to 30.
pub open spec fn lcg_bits(state: u64) -> u32 {
    ((state / 0x1_0000) % 0x8000) as u32
}

/// A deterministic generator of pseudo-random numbers (a linear congruential generator), so
/// that a seed always gives the same world layout.
#[derive(Debug, Clone, Copy)]
pub struct SeededRng {
    pub state: u64,
}

impl SeededRng {
    /// A generator starting from `seed`.
    pub fn new(seed: u64) -> (r: SeededRng)
        ensures
            r.state == seed,
    {
        SeededRng { state: seed }
    }

    /// Advances the generator and returns the 15 bits of its new state (0 to 32767); as a
    /// fraction of 32767 they give the generator's next number in 0..=1.
    pub fn next_bits(&mut self) -> (r: u32)
        ensures
            final(self).state == lcg_step(old(self).state),
            r == lcg_bits(final(self).state),
            r <= 0x7fff,
    {
        let s = self.state;
        let next = s.wrapping_mul(1103515245).wrapping_add(12345);
        proof {
            let m: int = 0x1_0000_0000_0000_0000;
            let prod: int = s as int * 1103515245;
            assert(s.wrapping_mul(1103515245) as int == prod % m) by (nonlinear_arith)
                requires
                    s.wrapping_mul(1103515245) == ((s as nat * 1103515245nat) % 0x1_0000_0000_0000_0000nat) as u64,
                    prod == s as int * 1103515245,
                    m == 0x1_0000_0000_0000_0000,
            ;
            vstd::arithmetic::div_mod::lemma_add_mod_noop(prod, 12345, m);
            vstd::arithmetic::div_mod::lemma_mod_bound(prod + 12345, m);
            vstd::arithmetic::div_mod::lemma_mod_bound(prod, m);
            assert(next == lcg_step(s));
        }
        self.state = next;
        let bits = ((next >> 16u64) & 0x7fffu64) as u32;
        assert(((next >> 16u64) & 0x7fffu64) == (next / 0x1_0000) % 0x8000) by (bit_vector);
        assert(((next >> 16u64) & 0x7fffu64) <= 0x7fff) by (bit_vector);
        bits
    }
}

} // verus!
