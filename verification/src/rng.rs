//! The xorshift generator behind the hit-effect scatter.
use vstd::prelude::*;

verus! {

/// The generator state before any seeding.
pub const DEFAULT_STATE: u64 = 0x9E3779B97F4A7C15;

/// One xorshift64 step (shifts 13, 7, 17).
pub open spec fn xorshift_step(x: u64) -> u64 {
    let a = x ^ (x << 13u64);
    let b = a ^ (a >> 7u64);
    b ^ (b << 17u64)
}

/// A xorshift64 generator; its state is never zero, the one state xorshift cannot leave.
pub struct Xorshift64 {
    state: u64,
}

impl View for Xorshift64 {
    type V = u64;

    closed spec fn view(&self) -> u64 {
        self.state
    }
}

impl Xorshift64 {
    #[verifier::type_invariant]
    spec fn nonzero(self) -> bool {
        self.state != 0
    }

    /// The generator as it starts, before the player seeds it.
    pub fn new() -> (g: Self)
        ensures
            g@ == DEFAULT_STATE,
    {
        Xorshift64 { state: DEFAULT_STATE }
    }

    /// Seeds the generator from raw clock bits; the lowest bit is forced on so
    /// that the state is never zero.
    pub fn from_seed(raw: u64) -> (g: Self)
        ensures
            g@ == raw | 1,
    {
        let s = raw | 1;
        assert(s != 0) by (bit_vector)
            requires
                s == raw | 1,
        ;
        Xorshift64 { state: s }
    }

    /// Advances the generator and returns the top 53 bits of the new state,
    /// the mantissa of a uniform draw from `[0, 1)`.
    pub fn next_bits53(&mut self) -> (bits: u64)
        ensures
            final(self)@ == xorshift_step(old(self)@),
            bits == final(self)@ >> 11u64,
            bits < 0x20_0000_0000_0000,
    {
        proof {
            use_type_invariant(&*self);
        }
        let x = self.state;
        let a = x ^ (x << 13u64);
        let b = a ^ (a >> 7u64);
        let c = b ^ (b << 17u64);
        proof {
            lemma_step_keeps_nonzero(x);
        }
        self.state = c;
        let bits = c >> 11u64;
        assert(bits < 0x20_0000_0000_0000) by (bit_vector)
            requires
                bits == c >> 11u64,
        ;
        bits
    }
}

/// A nonzero state stays nonzero: every xorshift step is invertible and fixes zero.
pub proof fn lemma_step_keeps_nonzero(x: u64)
    requires
        x != 0,
    ensures
        xorshift_step(x) != 0,
{
    let a = x ^ (x << 13u64);
    let b = a ^ (a >> 7u64);
    let c = b ^ (b << 17u64);
    assert(b != 0 ==> c != 0) by (bit_vector)
        requires
            c == b ^ (b << 17u64),
    ;
    assert(a != 0 ==> b != 0) by (bit_vector)
        requires
            b == a ^ (a >> 7u64),
    ;
    assert(x != 0 ==> a != 0) by (bit_vector)
        requires
            a == x ^ (x << 13u64),
    ;
}

} // verus!
