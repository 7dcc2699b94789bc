//! A small xorshift generator: fast, not cryptographic, one per worker.

use vstd::prelude::*;

verus! {

/// Seed that replaces a zero seed, which xorshift could never leave.
pub const DEFAULT_SEED: u64 = 0x9e37_79b9_7f4a_7c15;

/// One round of the 13/7/17 xorshift permutation on 64 bits.
pub open spec fn xorshift(x: u64) -> u64 {
    let a = x ^ (x << 13);
    let b = a ^ (a >> 7);
    b ^ (b << 17)
}

/// The low 32 bits of a word.
pub open spec fn low32(x: u64) -> u32 {
    (x & 0xffff_ffff) as u32
}

/// The state with which a generator seeded by `seed` starts.
pub open spec fn initial_state(seed: u64) -> u64 {
    if seed == 0 {
        DEFAULT_SEED
    } else {
        seed
    }
}

/// The state after `n` rounds starting from `x`.
pub open spec fn xorshift_n(x: u64, n: nat) -> u64
    decreases n,
{
    if n == 0 {
        x
    } else {
        xorshift(xorshift_n(x, (n - 1) as nat))
    }
}

/// A round never maps a nonzero state to zero.
pub proof fn lemma_xorshift_nonzero(x: u64)
    requires
        x != 0,
    ensures
        xorshift(x) != 0,
{
    let a = x ^ (x << 13);
    let b = a ^ (a >> 7);
    assert(a != 0) by (bit_vector)
        requires
            x != 0,
            a == x ^ (x << 13),
    ;
    assert(b != 0) by (bit_vector)
        requires
            a != 0,
            b == a ^ (a >> 7),
    ;
    assert(b ^ (b << 17) != 0) by (bit_vector)
        requires
            b != 0,
    ;
}

/// Xorshift generator; its state is never zero.
pub struct Rng(u64);

impl View for Rng {
    type V = u64;

    closed spec fn view(&self) -> u64 {
        self.0
    }
}

impl Rng {
    /// The generator's invariant: a zero state would be a fixed point.
    pub open spec fn wf(&self) -> bool {
        self@ != 0
    }

    /// Starts a generator from `seed`; zero is replaced by `DEFAULT_SEED`.
    pub fn new(seed: u64) -> (r: Self)
        ensures
            r@ == initial_state(seed),
            r.wf(),
    {
        let seed: u64 = if seed == 0 {
            DEFAULT_SEED
        } else {
            seed
        };
        Rng(seed)
    }

    /// Advances by one round and returns the new state.
    pub fn next_u64(&mut self) -> (r: u64)
        requires
            old(self).wf(),
        ensures
            final(self)@ == xorshift(old(self)@),
            r == final(self)@,
            final(self).wf(),
    {
        let mut x: u64 = self.0;
        x ^= x << 13;
        x ^= x >> 7;
        x ^= x << 17;
        proof {
            lemma_xorshift_nonzero(self.0);
        }
        self.0 = x;
        x
    }

    /// Advances by one round and returns the low half of the new state.
    pub fn next_u32(&mut self) -> (r: u32)
        requires
            old(self).wf(),
        ensures
            final(self)@ == xorshift(old(self)@),
            r == low32(final(self)@),
            final(self).wf(),
    {
        let x: u64 = self.next_u64();
        (x & 0xffff_ffff) as u32
    }
}

/// The low 64 bits of a wide number.
pub open spec fn low64(x: u128) -> u64 {
    (x & 0xffff_ffff_ffff_ffff) as u64
}

/// The seed that a time stamp and a number that identifies the thread give:
/// the low 64 bits of the time, combined bit by bit with the thread's number.
pub open spec fn seed_of(nanos: u128, thread_hash: u64) -> u64 {
    low64(nanos) ^ thread_hash
}

/// Seed for a worker's generator from the time in nanoseconds and a hash of
/// the worker's thread, so that workers started together differ.
pub fn seed_from_time(nanos: u128, thread_hash: u64) -> (seed: u64)
    ensures
        seed == seed_of(nanos, thread_hash),
{
    ((nanos & 0xffff_ffff_ffff_ffff) as u64) ^ thread_hash
}

} // verus!
