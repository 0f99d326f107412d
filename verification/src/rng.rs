//! A tiny self-contained xorshift generator used to scatter zombies around
//! the edges of the arena.
use vstd::prelude::*;

verus! {

/// One step of the 64-bit xorshift generator (shifts 13, 7, 17).
pub open spec fn xorshift64(x: u64) -> u64 {
    let a: u64 = x ^ (x << 13u64);
    let b: u64 = a ^ (a >> 7u64);
    b ^ (b << 17u64)
}

/// One xorshift step maps a non-zero state to a non-zero state: each of
/// its three xor-shift stages is invertible, and so keeps zero the only
/// value that maps to zero.
pub proof fn lemma_xorshift64_nonzero(x: u64)
    requires
        x != 0,
    ensures
        xorshift64(x) != 0,
{
    let a: u64 = x ^ (x << 13u64);
    assert(a != 0) by (bit_vector)
        requires
            x != 0u64,
            a == x ^ (x << 13u64),
    ;
    let b: u64 = a ^ (a >> 7u64);
    assert(b != 0) by (bit_vector)
        requires
            a != 0u64,
            b == a ^ (a >> 7u64),
    ;
    let c: u64 = b ^ (b << 17u64);
    assert(c != 0) by (bit_vector)
        requires
            b != 0u64,
            c == b ^ (b << 17u64),
    ;
}

/// The state after `n` steps of the generator from state `x`.
pub open spec fn xorshift64_iter(x: u64, n: nat) -> u64
    decreases n,
{
    if n == 0 {
        x
    } else {
        xorshift64(xorshift64_iter(x, (n - 1) as nat))
    }
}

/// Any non-zero seed works for xorshift: zero is the one state the
/// generator maps to itself, and from a non-zero state it never gets there,
/// however many values it produces.
pub proof fn lemma_nonzero_seed_never_stalls(x: u64, n: nat)
    requires
        x != 0,
    ensures
        xorshift64(0) == 0,
        xorshift64_iter(x, n) != 0,
    decreases n,
{
    assert(xorshift64(0) == 0) by (bit_vector);
    if n > 0 {
        lemma_nonzero_seed_never_stalls(x, (n - 1) as nat);
        lemma_xorshift64_nonzero(xorshift64_iter(x, (n - 1) as nat));
    }
}

/// The seed every generator starts from.
pub const DEFAULT_SEED: u64 = 0x2545_F491_4F6C_DD1D;

/// A xorshift random number generator. Its view is its 64-bit state.
pub struct Rng(u64);

impl View for Rng {
    type V = u64;

    closed spec fn view(&self) -> u64 {
        self.0
    }
}

impl Default for Rng {
    fn default() -> (r: Self)
        ensures
            r@ == DEFAULT_SEED,
            r@ != 0,
    {
        Rng(DEFAULT_SEED)
    }
}

impl Rng {
    /// Advance the generator and return the next raw 64-bit value, which is
    /// also the generator's new state.
    pub fn next_u64(&mut self) -> (r: u64)
        ensures
            r == xorshift64(old(self)@),
            final(self)@ == r,
    {
        let mut x: u64 = self.0;
        x ^= x << 13u64;
        x ^= x >> 7u64;
        x ^= x << 17u64;
        self.0 = x;
        x
    }

    /// The high 24 bits of the next raw value: the numerator of a uniform
    /// fraction `n / 2^24` in the half-open range `[0, 1)`.
    pub fn next_unit_numerator(&mut self) -> (r: u32)
        ensures
            r as int == xorshift64(old(self)@) >> 40u64,
            r < 0x100_0000,
            final(self)@ == xorshift64(old(self)@),
    {
        let x: u64 = self.next_u64();
        let high: u64 = x >> 40u64;
        assert(high < 0x100_0000) by (bit_vector)
            requires
                high == x >> 40u64,
        ;
        high as u32
    }
}

} // verus!
