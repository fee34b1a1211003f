//! A small reproducible generator of random numbers.

use vstd::prelude::*;

verus! {

/// What each draw adds to the state.
pub const GAMMA: u64 = 0x9e37_79b9_7f4a_7c15;

/// A number whose bits are spread over all 64 places.
pub open spec fn mixed(x: u64) -> u64 {
    let a = (x ^ (x >> 30)).wrapping_mul(0xbf58_476d_1ce4_e5b9);
    let b = (a ^ (a >> 27)).wrapping_mul(0x94d0_49bb_1331_11eb);
    b ^ (b >> 31)
}

/// A number whose bits are spread over all 64 places.
pub fn mix64(x: u64) -> (result: u64)
    ensures
        result == mixed(x),
{
    let a: u64 = (x ^ (x >> 30)).wrapping_mul(0xbf58_476d_1ce4_e5b9);
    let b: u64 = (a ^ (a >> 27)).wrapping_mul(0x94d0_49bb_1331_11eb);
    b ^ (b >> 31)
}

/// The first number that a seed gives.
pub open spec fn spec_splitmix64(x: u64) -> u64 {
    mixed(x.wrapping_add(GAMMA))
}

pub fn splitmix64(x: u64) -> (result: u64)
    ensures
        result == spec_splitmix64(x),
{
    mix64(x.wrapping_add(GAMMA))
}

/// A stream of numbers that its seed determines.
#[derive(Clone, Copy, Debug, PartialEq, Eq, Structural)]
pub struct SplitMix64 {
    pub state: u64,
}

impl SplitMix64 {
    pub fn new(seed: u64) -> (rng: SplitMix64)
        ensures
            rng.state == seed,
    {
        SplitMix64 { state: seed }
    }

    pub fn next_u64(&mut self) -> (value: u64)
        ensures
            final(self).state == old(self).state.wrapping_add(GAMMA),
            value == spec_splitmix64(old(self).state),
    {
        self.state = self.state.wrapping_add(GAMMA);
        mix64(self.state)
    }
}

// Laws.

/// Different seeds begin with different numbers.
pub proof fn law_first_numbers_differ(a: u64, b: u64)
    requires
        a != b,
    ensures
        spec_splitmix64(a) != spec_splitmix64(b),
{
    if spec_splitmix64(a) == spec_splitmix64(b) {
        lemma_mixed_injective(a.wrapping_add(GAMMA), b.wrapping_add(GAMMA));
    }
}

proof fn lemma_mixed_injective(x: u64, y: u64)
    requires
        mixed(x) == mixed(y),
    ensures
        x == y,
{
    let x0 = x ^ (x >> 30);
    let y0 = y ^ (y >> 30);
    let x1 = x0.wrapping_mul(0xbf58_476d_1ce4_e5b9);
    let y1 = y0.wrapping_mul(0xbf58_476d_1ce4_e5b9);
    let x2 = x1 ^ (x1 >> 27);
    let y2 = y1 ^ (y1 >> 27);
    let x3 = x2.wrapping_mul(0x94d0_49bb_1331_11eb);
    let y3 = y2.wrapping_mul(0x94d0_49bb_1331_11eb);
    assert(x3 ^ (x3 >> 31) == y3 ^ (y3 >> 31) ==> x3 == y3) by (bit_vector);
    lemma_product_injective(
        x2 as int,
        y2 as int,
        0x94d0_49bb_1331_11eb,
        0x319642b2d24d8ec3,
        0x1cd336eda85f1453,
    );
    assert(x1 ^ (x1 >> 27) == y1 ^ (y1 >> 27) ==> x1 == y1) by (bit_vector);
    lemma_product_injective(
        x0 as int,
        y0 as int,
        0xbf58_476d_1ce4_e5b9,
        0x96de1b173f119089,
        0x70c3bca78f27f46c,
    );
    assert(x ^ (x >> 30) == y ^ (y >> 30) ==> x == y) by (bit_vector);
}

/// A factor that has an inverse keeps numbers apart.
proof fn lemma_product_injective(x: int, y: int, factor: int, inverse: int, turns: int)
    requires
        0 <= x < 0x1_0000_0000_0000_0000,
        0 <= y < 0x1_0000_0000_0000_0000,
        factor * inverse == 1 + 0x1_0000_0000_0000_0000 * turns,
        (x * factor) % 0x1_0000_0000_0000_0000 == (y * factor) % 0x1_0000_0000_0000_0000,
    ensures
        x == y,
{
    let range = 0x1_0000_0000_0000_0000int;
    vstd::arithmetic::div_mod::lemma_fundamental_div_mod(x * factor, range);
    vstd::arithmetic::div_mod::lemma_fundamental_div_mod(y * factor, range);
    let gap = (x * factor) / range - (y * factor) / range;
    let apart = x - y;
    assert(apart * factor == range * gap) by (nonlinear_arith)
        requires
            apart == x - y,
            gap == (x * factor) / range - (y * factor) / range,
            x * factor == range * ((x * factor) / range) + (x * factor) % range,
            y * factor == range * ((y * factor) / range) + (y * factor) % range,
            (x * factor) % range == (y * factor) % range,
    ;
    let m = gap * inverse - turns * apart;
    assert(apart == range * m) by (nonlinear_arith)
        requires
            apart * factor == range * gap,
            factor * inverse == 1 + range * turns,
            m == gap * inverse - turns * apart,
    {
        assert(apart * (factor * inverse) == range * gap * inverse);
        assert(apart * (factor * inverse) == apart + range * turns * apart);
    }
    assert(m == 0) by (nonlinear_arith)
        requires
            apart == range * m,
            -range < apart < range,
            range > 0,
    ;
}

} // verus!
