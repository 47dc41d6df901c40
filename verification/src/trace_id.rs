//! Trace identifier generation: a seedable pseudo-random source of 64- and
//! 128-bit identifiers.
//!
//! Entropy is the host's business: the host binding seeds a source from the
//! operating system (and may reseed it, for instance after a fork) and reads
//! the clock for the 128-bit layout. Everything here works from those plain
//! values.

use vstd::prelude::*;
use xorshift::Rng;
use xorshift::SeedableRng;

verus! {

#[verifier::external_type_specification]
#[verifier::external_body]
pub struct ExSplitMix64(xorshift::SplitMix64);

/// The 128-bit trace identifier layout: the clock reading in seconds
/// (truncated to its low 32 bits) in the top 32 bits, the pseudo-random draw
/// in the low 64 bits, and zero bits between.
pub open spec fn compose_trace_id(now_secs: u64, low: u64) -> u128 {
    ((now_secs as u128) << 96) | (low as u128)
}

/// Lays a 128-bit trace identifier out from a clock reading and a draw.
pub fn compose_trace_id_128(now_secs: u64, low: u64) -> (r: u128)
    ensures
        r == compose_trace_id(now_secs, low),
        r >> 96 == (now_secs as u128) & 0xFFFF_FFFF,
        r & 0xFFFF_FFFF_FFFF_FFFF == low as u128,
{
    let r = ((now_secs as u128) << 96) | (low as u128);
    proof {
        assert(r >> 96 == (now_secs as u128) & 0xFFFF_FFFF && r
            & 0xFFFF_FFFF_FFFF_FFFF == low as u128) by (bit_vector)
            requires
                r == ((now_secs as u128) << 96) | (low as u128),
        ;
    }
    r
}

/// A source of pseudo-random trace identifiers.
pub struct TraceIdSource {
    rng: xorshift::SplitMix64,
}

impl TraceIdSource {
    /// Relies on xorshift's `SeedableRng::from_seed` for `SplitMix64`: builds
    /// the generator state from the seed. Nothing is promised of the stream.
    #[verifier::external_body]
    pub fn new(seed: u64) -> (s: TraceIdSource) {
        TraceIdSource { rng: SeedableRng::from_seed(seed) }
    }

    /// Relies on xorshift's `SeedableRng::reseed` for `SplitMix64`: replaces
    /// the generator state with the seed.
    #[verifier::external_body]
    pub fn reseed(&mut self, seed: u64) {
        self.rng.reseed(seed);
    }

    /// Draws a 64-bit trace identifier.
    ///
    /// Relies on xorshift's `Rng::next_u64` for `SplitMix64`: one draw from
    /// the pseudo-random stream. Nothing is promised of the value.
    #[verifier::external_body]
    pub fn gen_trace_id_64_bits(&mut self) -> u64 {
        self.rng.next_u64()
    }

    /// Draws a 128-bit trace identifier: whatever 64-bit value the stream
    /// hands out, laid out under the clock reading as [`compose_trace_id`]
    /// says.
    pub fn gen_trace_id_128_bits(&mut self, now_secs: u64) -> (r: u128)
        ensures
            exists|low: u64| r == compose_trace_id(now_secs, low),
    {
        let low = self.gen_trace_id_64_bits();
        let r = compose_trace_id_128(now_secs, low);
        proof {
            assert(r == compose_trace_id(now_secs, low));
        }
        r
    }
}

} // verus!
