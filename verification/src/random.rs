//! The random stream and the integer hashes behind every "stable random"
//! quantity: terrain noise lattices, per-creature proportions, per-keep
//! layouts and boulder relief.
//!
//! Each hash hands back a 16-bit sample; turning that into a fraction is left
//! to the caller, so everything here is exact integer arithmetic with the
//! same wrap-around the shipped terrain depends on.
use vstd::prelude::*;

verus! {

/// The generator's state before anything seeds it.
pub const DEFAULT_STATE: u32 = 0x9e37_79b9;

/// One xorshift32 step (13, 17, 5).
pub open spec fn xorshift(x: u32) -> u32 {
    let a = x ^ (x << 13u32);
    let b = a ^ (a >> 17u32);
    b ^ (b << 5u32)
}

/// The 24-bit sample a state yields; divided by 2^24 it is a fraction in 0..1.
pub open spec fn sample_bits(x: u32) -> u32 {
    x & 0xff_ffffu32
}

/// A xorshift step never maps a non-zero state to zero, so a seeded stream
/// never collapses onto the all-zero fixed point.
pub proof fn lemma_xorshift_nonzero(x: u32)
    requires
        x != 0,
    ensures
        xorshift(x) != 0,
{
    assert(x != 0 ==> (x ^ (x << 13u32)) != 0) by (bit_vector);
    let a = x ^ (x << 13u32);
    assert(a != 0 ==> (a ^ (a >> 17u32)) != 0) by (bit_vector);
    let b = a ^ (a >> 17u32);
    assert(b != 0 ==> (b ^ (b << 5u32)) != 0) by (bit_vector);
}

/// A sample is always below 2^24.
pub proof fn lemma_sample_below_unit(x: u32)
    ensures
        sample_bits(x) < 0x100_0000,
{
    assert(x & 0xff_ffffu32 < 0x100_0000u32) by (bit_vector);
}

/// The shared random stream.
pub struct Rng {
    state: u32,
}

impl Rng {
    /// Current state.
    pub closed spec fn state_spec(&self) -> u32 {
        self.state
    }

    /// A stream in its power-on state.
    pub fn new() -> (r: Rng)
        ensures
            r.state_spec() == DEFAULT_STATE,
    {
        Rng { state: DEFAULT_STATE }
    }

    /// A stream seeded with `seed`; the low bit is forced on so the state is
    /// never zero.
    pub fn seeded(seed: u32) -> (r: Rng)
        ensures
            r.state_spec() == seed | 1u32,
            r.state_spec() != 0,
    {
        assert((seed | 1u32) != 0) by (bit_vector);
        Rng { state: seed | 1 }
    }

    /// Reseeds in place.
    pub fn reseed(&mut self, seed: u32)
        ensures
            final(self).state_spec() == seed | 1u32,
            final(self).state_spec() != 0,
    {
        assert((seed | 1u32) != 0) by (bit_vector);
        self.state = seed | 1;
    }

    /// The current state, which the terrain lattice also mixes in.
    pub fn state(&self) -> (s: u32)
        ensures
            s == self.state_spec(),
    {
        self.state
    }

    /// Advances the stream one step and returns the new state's 24-bit sample.
    pub fn next_sample(&mut self) -> (r: u32)
        ensures
            final(self).state_spec() == xorshift(old(self).state_spec()),
            r == sample_bits(final(self).state_spec()),
            r < 0x100_0000,
    {
        let x = self.state;
        let a = x ^ (x << 13u32);
        let b = a ^ (a >> 17u32);
        let c = b ^ (b << 5u32);
        self.state = c;
        proof {
            lemma_sample_below_unit(c);
        }
        c & 0xff_ffff
    }
}

/// Final avalanche shared by the creature and keep hashes.
pub open spec fn avalanche(h0: u32) -> u32 {
    let h1 = h0 ^ (h0 >> 15u32);
    let h2 = h1.wrapping_mul(2_246_822_519u32);
    let h3 = h2 ^ (h2 >> 13u32);
    let h4 = h3.wrapping_mul(3_266_489_917u32);
    h4 ^ (h4 >> 16u32)
}

/// Value-noise lattice hash for point `(x, y)` under state `seed`, as a
/// 16-bit sample.
pub open spec fn lattice_spec(x: i32, y: i32, seed: u32) -> u32 {
    let h0 = x.wrapping_mul(374_761_393i32).wrapping_add(y.wrapping_mul(668_265_263i32)).wrapping_add(
        seed as i32,
    ) as u32;
    let h1 = (h0 ^ (h0 >> 13u32)).wrapping_mul(1_274_126_177u32);
    (h1 ^ (h1 >> 16u32)) & 0xffffu32
}

/// Per-creature variation hash for slot `slot` and salt `salt`, 16 bits.
pub open spec fn body_spec(slot: u32, salt: i32) -> u32 {
    avalanche(slot.wrapping_mul(747_796_405u32).wrapping_add(salt as u32)) & 0xffffu32
}

/// The seed of one keep, from its owner and its pad (in quarter units).
pub open spec fn keep_seed_spec(wizard: u32, qx: i32, qz: i32) -> u32 {
    let h0 = wizard.wrapping_mul(2_654_435_761u32);
    let h1 = h0.wrapping_add((qx as u32).wrapping_mul(374_761_393u32));
    let h2 = h1.wrapping_add((qz as u32).wrapping_mul(668_265_263u32));
    let h3 = h2 ^ (h2 >> 13u32);
    h3.wrapping_mul(1_274_126_177u32)
}

/// Per-keep variation hash for seed `seed` and salt `salt`, 16 bits.
pub open spec fn keep_spec(seed: u32, salt: i32) -> u32 {
    avalanche(seed.wrapping_add((salt as u32).wrapping_mul(747_796_405u32))) & 0xffffu32
}

/// Meridians around the boulder prototype.
pub const BOULDER_SEGMENTS: u32 = 10;

/// Relief of the boulder vertex at `(ring, segment)`, 16 bits. The segment
/// wraps, so the closing column repeats the first.
pub open spec fn relief_spec(ring: u32, segment: u32) -> u32 {
    let wrapped = segment % BOULDER_SEGMENTS;
    let h0 = ring.wrapping_mul(374_761_393u32).wrapping_add(wrapped.wrapping_mul(668_265_263u32));
    let h1 = (h0 ^ (h0 >> 13u32)).wrapping_mul(1_274_126_177u32);
    (h1 ^ (h1 >> 16u32)) & 0xffffu32
}

fn mix(h0: u32) -> (r: u32)
    ensures
        r == avalanche(h0),
{
    let mut h = h0 ^ (h0 >> 15u32);
    h = h.wrapping_mul(2_246_822_519);
    h = h ^ (h >> 13u32);
    h = h.wrapping_mul(3_266_489_917);
    h ^ (h >> 16u32)
}

/// Lattice hash for the terrain noise.
pub fn lattice_hash(x: i32, y: i32, seed: u32) -> (r: u32)
    ensures
        r == lattice_spec(x, y, seed),
        r <= 0xffff,
{
    let h0 = x.wrapping_mul(374_761_393).wrapping_add(y.wrapping_mul(668_265_263)).wrapping_add(
        seed as i32,
    ) as u32;
    let h1 = (h0 ^ (h0 >> 13u32)).wrapping_mul(1_274_126_177);
    let h2 = h1 ^ (h1 >> 16u32);
    assert(h2 & 0xffffu32 <= 0xffffu32) by (bit_vector);
    h2 & 0xffff
}

/// Stable per-creature variation for slot `slot` and salt `salt`.
pub fn body_hash(slot: u32, salt: i32) -> (r: u32)
    ensures
        r == body_spec(slot, salt),
        r <= 0xffff,
{
    let h = mix(slot.wrapping_mul(747_796_405).wrapping_add(salt as u32));
    assert(h & 0xffffu32 <= 0xffffu32) by (bit_vector);
    h & 0xffff
}

/// The seed one keep's whole layout is hashed from.
pub fn keep_seed(wizard: u32, qx: i32, qz: i32) -> (r: u32)
    ensures
        r == keep_seed_spec(wizard, qx, qz),
{
    let h0 = wizard.wrapping_mul(2_654_435_761);
    let h1 = h0.wrapping_add((qx as u32).wrapping_mul(374_761_393));
    let h2 = h1.wrapping_add((qz as u32).wrapping_mul(668_265_263));
    let h3 = h2 ^ (h2 >> 13u32);
    h3.wrapping_mul(1_274_126_177)
}

/// Stable per-keep variation for `seed` and salt `salt`.
pub fn keep_hash(seed: u32, salt: i32) -> (r: u32)
    ensures
        r == keep_spec(seed, salt),
        r <= 0xffff,
{
    let h = mix(seed.wrapping_add((salt as u32).wrapping_mul(747_796_405)));
    assert(h & 0xffffu32 <= 0xffffu32) by (bit_vector);
    h & 0xffff
}

/// True when a keep's variation for `salt` falls in the lower half of its
/// range, which is the "negative" half once the sample is centred on zero.
pub fn keep_coin(seed: u32, salt: i32) -> (r: bool)
    ensures
        r == (keep_spec(seed, salt) < 0x8000),
{
    keep_hash(seed, salt) < 0x8000
}

/// Relief sample of boulder vertex `(ring, segment)`.
pub fn relief_hash(ring: u32, segment: u32) -> (r: u32)
    ensures
        r == relief_spec(ring, segment),
        r <= 0xffff,
{
    let wrapped = segment % BOULDER_SEGMENTS;
    let h0 = ring.wrapping_mul(374_761_393).wrapping_add(wrapped.wrapping_mul(668_265_263));
    let h1 = (h0 ^ (h0 >> 13u32)).wrapping_mul(1_274_126_177);
    let h2 = h1 ^ (h1 >> 16u32);
    assert(h2 & 0xffffu32 <= 0xffffu32) by (bit_vector);
    h2 & 0xffff
}

/// The closing meridian of every boulder ring lands on the same relief as the
/// opening one, so the mesh never splits open along a seam.
pub proof fn lemma_relief_closes(ring: u32)
    ensures
        relief_spec(ring, BOULDER_SEGMENTS) == relief_spec(ring, 0),
{
    assert(BOULDER_SEGMENTS % BOULDER_SEGMENTS == 0u32 % BOULDER_SEGMENTS);
}

} // verus!
