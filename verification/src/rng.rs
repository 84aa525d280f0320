use vstd::prelude::*;

verus! {

/// One million: the denominator for rational parameters (scale factors,
/// probabilities) given in parts per million.
pub const PPM: u64 = 1_000_000;

/// 2^64, used to state the wrap-around of 64-bit mixing arithmetic.
pub const TWO64: u128 = 0x1_0000_0000_0000_0000;

/// The increment of the stream counter (a large odd constant with good
/// bit-mixing behaviour, from the splitmix64 family).
pub const GAMMA: u64 = 0x9E37_79B9_7F4A_7C15;

/// First multiplier of the output scrambler.
pub const MIX_A: u64 = 0xBF58_476D_1CE4_E5B9;

/// Second multiplier of the output scrambler.
pub const MIX_B: u64 = 0x94D0_49BB_1331_11EB;

/// The successor state of the stream: the counter advances by `GAMMA`
/// modulo 2^64.
pub open spec fn spec_step(s: u64) -> u64 {
    ((s + GAMMA) % TWO64 as int) as u64
}

/// The 64-bit word the stream emits at state `s`: two rounds of
/// xor-shift-multiply scrambling.
pub open spec fn spec_out(s: u64) -> u64 {
    let z1 = (((s ^ (s >> 30)) * MIX_A) % TWO64 as int) as u64;
    let z2 = (((z1 ^ (z1 >> 27)) * MIX_B) % TWO64 as int) as u64;
    z2 ^ (z2 >> 31)
}

/// A deterministic 64-bit random stream. The whole run of an optimizer
/// draws from a single such stream, so a run is a function of its seed.
pub struct Rand {
    pub state: u64,
}

pub assume_specification<T>[ rand::random::<T> ]() -> (r: T)
    where
        rand::distributions::Standard: rand::distributions::Distribution<T>,
;

impl Rand {
    /// A stream whose seed comes from the process's ambient entropy.
    /// Relies on rand's `random`; nothing is promised of the drawn seed.
    pub fn from_entropy() -> (r: Rand) {
        Rand::new(rand::random::<u64>())
    }

    /// A stream positioned at `seed`.
    pub fn new(seed: u64) -> (r: Rand)
        ensures
            r.state == seed,
    {
        Rand { state: seed }
    }

    /// Draw the next raw 64-bit word and advance the stream.
    pub fn next_u64(&mut self) -> (r: u64)
        ensures
            final(self).state == spec_step(old(self).state),
            r == spec_out(final(self).state),
    {
        let s: u64 = ((self.state as u128 + GAMMA as u128) % TWO64) as u64;
        self.state = s;
        let z1: u64 = (((s ^ (s >> 30)) as u128 * MIX_A as u128) % TWO64) as u64;
        let z2: u64 = (((z1 ^ (z1 >> 27)) as u128 * MIX_B as u128) % TWO64) as u64;
        z2 ^ (z2 >> 31)
    }

    /// Draw a value uniformly below `n`.
    pub fn below(&mut self, n: u64) -> (r: u64)
        requires
            n >= 1,
        ensures
            final(self).state == spec_step(old(self).state),
            r == spec_out(final(self).state) % n,
            r < n,
    {
        let w = self.next_u64();
        w % n
    }

    /// Draw an index below `n`.
    pub fn index_below(&mut self, n: usize) -> (r: usize)
        requires
            n >= 1,
        ensures
            final(self).state == spec_step(old(self).state),
            r == spec_out(final(self).state) % (n as u64),
            r < n,
    {
        self.below(n as u64) as usize
    }

    /// Draw a value uniformly from the half-open range `[lo, hi)`.
    pub fn range_i64(&mut self, lo: i64, hi: i64) -> (r: i64)
        requires
            lo < hi,
        ensures
            final(self).state == spec_step(old(self).state),
            lo <= r < hi,
            r == lo + spec_out(final(self).state) % ((hi - lo) as u64),
    {
        let width: u64 = (hi as i128 - lo as i128) as u64;
        let off = self.below(width);
        (lo as i128 + off as i128) as i64
    }

    /// Draw a fraction of one million: a value uniformly below `PPM`.
    pub fn ppm(&mut self) -> (r: u64)
        ensures
            final(self).state == spec_step(old(self).state),
            r == spec_out(final(self).state) % PPM,
            r < PPM,
    {
        self.below(PPM)
    }

    /// A Bernoulli trial that succeeds with probability `p_ppm` parts
    /// per million.
    pub fn maybe(&mut self, p_ppm: u32) -> (r: bool)
        ensures
            final(self).state == spec_step(old(self).state),
            r == (spec_out(final(self).state) % PPM < p_ppm as u64),
    {
        let u = self.ppm();
        u < p_ppm as u64
    }
}

} // verus!
