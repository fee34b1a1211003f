//! Little-endian integers on byte sequences.

use vstd::prelude::*;

verus! {

/// The `width` low-order base-256 digits of `value`, least significant first.
pub open spec fn le(value: nat, width: nat) -> Seq<u8>
    decreases width,
{
    if width == 0 {
        Seq::empty()
    } else {
        seq![(value % 256) as u8] + le(value / 256, (width - 1) as nat)
    }
}

/// The number whose base-256 digits, least significant first, are `digits`.
pub open spec fn from_le(digits: Seq<u8>) -> nat
    decreases digits.len(),
{
    if digits.len() == 0 {
        0
    } else {
        digits[0] as nat + 256 * from_le(digits.skip(1))
    }
}

/// 256 to the power of `width`.
pub open spec fn radix_power(width: nat) -> nat
    decreases width,
{
    if width == 0 {
        1
    } else {
        256 * radix_power((width - 1) as nat)
    }
}

pub proof fn lemma_le_len(value: nat, width: nat)
    ensures
        le(value, width).len() == width,
    decreases width,
{
    if width > 0 {
        lemma_le_len(value / 256, (width - 1) as nat);
    }
}

/// Reading back the digits of a number that fits their width gives the number.
pub proof fn lemma_le_round_trip(value: nat, width: nat)
    requires
        value < radix_power(width),
    ensures
        from_le(le(value, width)) == value,
        le(value, width).len() == width,
    decreases width,
{
    lemma_le_len(value, width);
    if width > 0 {
        let rest = le(value / 256, (width - 1) as nat);
        assert(value / 256 < radix_power((width - 1) as nat));
        lemma_le_round_trip(value / 256, (width - 1) as nat);
        assert(le(value, width).skip(1) =~= rest);
    }
}

/// Digits are determined by the number that they denote.
pub proof fn lemma_from_le_round_trip(digits: Seq<u8>)
    ensures
        from_le(digits) < radix_power(digits.len()),
        le(from_le(digits), digits.len()) == digits,
    decreases digits.len(),
{
    if digits.len() > 0 {
        let rest = digits.skip(1);
        lemma_from_le_round_trip(rest);
        let value = from_le(digits);
        assert(value % 256 == digits[0] as nat);
        assert(value / 256 == from_le(rest));
        assert(le(value, digits.len()) =~= seq![digits[0]] + rest);
        assert(seq![digits[0]] + rest =~= digits);
    } else {
        assert(le(0, 0) =~= digits);
    }
}

pub proof fn lemma_radix_powers()
    ensures
        radix_power(4) == 0x1_0000_0000,
        radix_power(8) == 0x1_0000_0000_0000_0000,
{
    reveal_with_fuel(radix_power, 9);
}

/// Appends the `width` little-endian digits of `value`.
pub fn push_le(bytes: &mut Vec<u8>, value: u64, width: usize)
    requires
        width <= 8,
    ensures
        final(bytes)@ == old(bytes)@ + le(value as nat, width as nat),
{
    let mut left: u64 = value;
    let mut i: usize = 0;
    while i < width
        invariant
            i <= width,
            bytes@ + le(left as nat, (width - i) as nat) == old(bytes)@ + le(
                value as nat,
                width as nat,
            ),
        decreases width - i,
    {
        let ghost before = bytes@;
        bytes.push((left % 256) as u8);
        proof {
            let tail = le((left / 256) as nat, (width - i - 1) as nat);
            assert(le(left as nat, (width - i) as nat) == seq![(left % 256) as u8] + tail);
            assert(bytes@ + tail =~= before + (seq![(left % 256) as u8] + tail));
        }
        left = left / 256;
        i = i + 1;
    }
    assert(bytes@ + le(left as nat, 0) =~= bytes@);
}

/// Appends a 64-bit integer, least significant byte first.
pub fn push_u64(bytes: &mut Vec<u8>, value: u64)
    ensures
        final(bytes)@ == old(bytes)@ + le(value as nat, 8),
{
    push_le(bytes, value, 8);
}

/// Appends a 32-bit integer, least significant byte first.
pub fn push_u32(bytes: &mut Vec<u8>, value: u32)
    ensures
        final(bytes)@ == old(bytes)@ + le(value as nat, 4),
{
    push_le(bytes, value as u64, 4);
}

/// Reads the `width` little-endian digits that start at `at`.
pub fn read_le(bytes: &[u8], at: usize, width: usize) -> (value: u64)
    requires
        width <= 8,
        at + width <= bytes@.len(),
    ensures
        value == from_le(bytes@.subrange(at as int, at + width)),
{
    let ghost digits = bytes@.subrange(at as int, at + width);
    let total: usize = bytes.len();
    let mut value: u64 = 0;
    let mut i: usize = width;
    proof {
        assert(digits.skip(width as int) =~= Seq::empty());
    }
    while i > 0
        invariant
            i <= width <= 8,
            at + width <= total,
            total == bytes@.len(),
            digits == bytes@.subrange(at as int, at + width),
            value == from_le(digits.skip(i as int)),
        decreases i,
    {
        i = i - 1;
        let digit: u8 = bytes[at + i];
        proof {
            let tail = digits.skip(i as int);
            assert(tail.skip(1) =~= digits.skip(i + 1));
            assert(tail[0] == digit);
            lemma_from_le_round_trip(tail);
            lemma_radix_monotonic(tail.len(), 8);
            lemma_radix_powers();
        }
        value = digit as u64 + 256 * value;
    }
    assert(digits.skip(0) =~= digits);
    value
}

proof fn lemma_radix_monotonic(small: nat, large: nat)
    requires
        small <= large,
    ensures
        radix_power(small) <= radix_power(large),
    decreases large,
{
    if small < large {
        lemma_radix_monotonic(small, (large - 1) as nat);
    }
}

/// Whether two runs of bytes are the same.
pub fn same_bytes(a: &Vec<u8>, b: &Vec<u8>) -> (result: bool)
    ensures
        result == (a@ == b@),
{
    if a.len() != b.len() {
        return false;
    }
    let mut i: usize = 0;
    while i < a.len()
        invariant
            i <= a@.len(),
            a@.len() == b@.len(),
            forall|k: int| 0 <= k < i ==> a@[k] == b@[k],
        decreases a@.len() - i,
    {
        if a[i] != b[i] {
            assert(a@[i as int] != b@[i as int]);
            return false;
        }
        i = i + 1;
    }
    assert(a@ =~= b@);
    true
}

} // verus!
