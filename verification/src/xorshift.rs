//! A tiny deterministic random number generator (xorshift64).
//!
//! The generator's whole state is one 64-bit word; every output is the next
//! state, so two generators seeded alike hand out the same stream forever.

use core::convert::Infallible;
use vstd::arithmetic::power::pow;
use vstd::prelude::*;

verus! {

/// One xorshift64 step: the state that follows `x`, which is also the
/// number the generator hands out.
pub open spec fn xorshift_next(x: u64) -> u64 {
    let a = x ^ (x << 13u64);
    let b = a ^ (a >> 7u64);
    b ^ (b << 17u64)
}

/// Byte `i` (0 = least significant) of `x`.
pub open spec fn le_byte(x: u64, i: int) -> u8 {
    ((x >> (8 * i) as u64) & 0xffu64) as u8
}

/// The little-endian bytes of `x`, the first `k` of them.
pub open spec fn le_prefix(x: u64, k: nat) -> Seq<u8> {
    Seq::new(k, |i: int| le_byte(x, i))
}

/// How many bytes of one output go into a buffer that still has `n` bytes
/// to fill.
pub open spec fn chunk_len(n: nat) -> nat {
    if n < 8 { n } else { 8 }
}

/// The bytes that a generator in state `s` writes into a buffer of `n`
/// bytes: each output in turn, in little-endian order, the last one cut
/// short where the buffer ends.
pub open spec fn fill_spec(s: u64, n: nat) -> Seq<u8>
    decreases n,
{
    if n == 0 {
        Seq::empty()
    } else {
        let x = xorshift_next(s);
        le_prefix(x, chunk_len(n)) + fill_spec(x, (n - chunk_len(n)) as nat)
    }
}

/// The state of a generator in state `s` after it has filled a buffer of
/// `n` bytes: one step per started group of eight bytes.
pub open spec fn fill_state(s: u64, n: nat) -> u64
    decreases n,
{
    if n == 0 {
        s
    } else {
        fill_state(xorshift_next(s), (n - chunk_len(n)) as nat)
    }
}

/// The state of a generator seeded with `s` after `k` steps.
pub open spec fn iterate(s: u64, k: nat) -> u64
    decreases k,
{
    if k == 0 {
        s
    } else {
        iterate(xorshift_next(s), (k - 1) as nat)
    }
}

/// A tiny deterministic random number generator whose whole state is one
/// 64-bit word.
#[derive(Clone)]
pub struct Xorshift(pub u64);

impl Xorshift {
    /// Advances the state by one xorshift64 step and returns the new state.
    pub fn step(&mut self) -> (r: u64)
        ensures
            r == xorshift_next(old(self).0),
            final(self).0 == r,
    {
        let mut x = self.0;
        x ^= x << 13u64;
        x ^= x >> 7u64;
        x ^= x << 17u64;
        self.0 = x;
        x
    }

    /// The next output, cut to its low 32 bits. Never fails.
    pub fn try_next_u32(&mut self) -> (r: Result<u32, Infallible>)
        ensures
            r == Ok::<u32, Infallible>(xorshift_next(old(self).0) as u32),
            final(self).0 == xorshift_next(old(self).0),
    {
        let x = self.step();
        Ok(x as u32)
    }

    /// The next output. Never fails.
    pub fn try_next_u64(&mut self) -> (r: Result<u64, Infallible>)
        ensures
            r == Ok::<u64, Infallible>(xorshift_next(old(self).0)),
            final(self).0 == xorshift_next(old(self).0),
    {
        Ok(self.step())
    }

    /// Fills `dst` with the little-endian bytes of successive outputs, eight
    /// bytes per output; the last output is cut short where `dst` ends.
    /// Never fails.
    pub fn try_fill_bytes(&mut self, dst: &mut [u8]) -> (r: Result<(), Infallible>)
        ensures
            r == Ok::<(), Infallible>(()),
            final(dst)@ == fill_spec(old(self).0, old(dst)@.len()),
            final(self).0 == fill_state(old(self).0, old(dst)@.len()),
    {
        let n = dst.len();
        let ghost s0 = self.0;
        let mut pos: usize = 0;
        while pos < n
            invariant
                n == dst@.len(),
                n == old(dst)@.len(),
                pos <= n,
                fill_spec(s0, n as nat) == dst@.subrange(0, pos as int) + fill_spec(
                    self.0,
                    (n - pos) as nat,
                ),
                fill_state(s0, n as nat) == fill_state(self.0, (n - pos) as nat),
            decreases n - pos,
        {
            let ghost before = dst@;
            let ghost s = self.0;
            let x = self.step();
            let k: usize = if n - pos < 8 { n - pos } else { 8 };
            assert(k == chunk_len((n - pos) as nat));
            let mut j: usize = 0;
            while j < k
                invariant
                    k <= 8,
                    pos + k <= n,
                    n == dst@.len(),
                    j <= k,
                    dst@.subrange(0, pos as int) == before.subrange(0, pos as int),
                    forall|i: int| 0 <= i < j ==> dst@[pos + i] == le_byte(x, i),
                decreases k - j,
            {
                let shift: u64 = 8 * (j as u64);
                dst[pos + j] = ((x >> shift) & 0xffu64) as u8;
                j += 1;
            }
            assert(dst@.subrange(pos as int, (pos + k) as int) =~= le_prefix(x, k as nat));
            assert(dst@.subrange(0, (pos + k) as int) =~= dst@.subrange(0, pos as int)
                + dst@.subrange(pos as int, (pos + k) as int));
            pos = pos + k;
        }
        assert(dst@.subrange(0, n as int) =~= dst@);
        Ok(())
    }
}

/// Zero is the one state that xorshift64 never leaves, and no other state
/// ever leads to it: a generator seeded with a nonzero word never gets stuck.
pub proof fn lemma_zero_state(x: u64)
    ensures
        xorshift_next(0) == 0,
        x != 0 ==> xorshift_next(x) != 0,
{
    assert(xorshift_next(0) == 0) by (bit_vector);
    assert(x != 0 ==> (x ^ (x << 13u64)) != 0) by (bit_vector);
    let a = x ^ (x << 13u64);
    assert(a != 0 ==> (a ^ (a >> 7u64)) != 0) by (bit_vector);
    let b = a ^ (a >> 7u64);
    assert(b != 0 ==> (b ^ (b << 17u64)) != 0) by (bit_vector);
}

/// `iterate` counts steps: zero steps leave the seed, and one more step is
/// one more xorshift64 step from where the previous count left off.
pub proof fn lemma_iterate_steps(s: u64, k: nat)
    ensures
        iterate(s, 0) == s,
        iterate(s, k + 1) == xorshift_next(iterate(s, k)),
    decreases k,
{
    if k > 0 {
        lemma_iterate_steps(xorshift_next(s), (k - 1) as nat);
        assert(iterate(s, k + 1) == iterate(xorshift_next(s), k));
        assert(((k - 1) as nat) + 1 == k);
    } else {
        assert(iterate(s, 1) == iterate(xorshift_next(s), 0));
    }
}

/// xorshift64 in arithmetic terms: with `<< k` read as multiplication by
/// `2^k` wrapped to 64 bits and `>> k` as division by `2^k`, the step is
/// `a = x ^ (x * 2^13 mod 2^64)`, `b = a ^ (a / 2^7)`,
/// `next = b ^ (b * 2^17 mod 2^64)`; no bit of the wide products is lost
/// below bit 64 and none above it is kept.
pub proof fn lemma_xorshift_arithmetic(x: u64)
    ensures
        ({
            let a = x ^ (((x as int * 8192) % 0x1_0000_0000_0000_0000) as u64);
            let b = a ^ ((a as int / 128) as u64);
            xorshift_next(x) == b ^ (((b as int * 131072) % 0x1_0000_0000_0000_0000) as u64)
        }),
{
    assert((x << 13u64) as int == (x as int * 8192) % 0x1_0000_0000_0000_0000) by (bit_vector);
    let a = x ^ (x << 13u64);
    assert((a >> 7u64) as int == a as int / 128) by (bit_vector);
    let b = a ^ (a >> 7u64);
    assert((b << 17u64) as int == (b as int * 131072) % 0x1_0000_0000_0000_0000) by (bit_vector);
}

/// The step is linear over XOR: the step of `x ^ y` is the XOR of the steps
/// of `x` and of `y`.
pub proof fn lemma_xorshift_linear(x: u64, y: u64)
    ensures
        xorshift_next(x ^ y) == xorshift_next(x) ^ xorshift_next(y),
{
    let (ax, ay, axy) = (x ^ (x << 13u64), y ^ (y << 13u64), (x ^ y) ^ ((x ^ y) << 13u64));
    assert(axy == ax ^ ay) by (bit_vector)
        requires
            ax == x ^ (x << 13u64),
            ay == y ^ (y << 13u64),
            axy == (x ^ y) ^ ((x ^ y) << 13u64),
    ;
    let (bx, by_, bxy) = (ax ^ (ax >> 7u64), ay ^ (ay >> 7u64), axy ^ (axy >> 7u64));
    assert(bxy == bx ^ by_) by (bit_vector)
        requires
            bx == ax ^ (ax >> 7u64),
            by_ == ay ^ (ay >> 7u64),
            bxy == axy ^ (axy >> 7u64),
            axy == ax ^ ay,
    ;
    let (cx, cy, cxy) = (bx ^ (bx << 17u64), by_ ^ (by_ << 17u64), bxy ^ (bxy << 17u64));
    assert(cxy == cx ^ cy) by (bit_vector)
        requires
            cx == bx ^ (bx << 17u64),
            cy == by_ ^ (by_ << 17u64),
            cxy == bxy ^ (bxy << 17u64),
            bxy == bx ^ by_,
    ;
}

/// Byte `i` of a little-endian word is the base-256 digit of weight
/// `256^i`.
pub proof fn lemma_le_byte_is_base_256_digit(x: u64, i: int)
    requires
        0 <= i < 8,
    ensures
        le_byte(x, i) as int == (x as int / pow(256, i as nat)) % 256,
{
    reveal_with_fuel(pow, 9);
    if i == 0 {
        assert(((x >> 0u64) & 0xffu64) as int == (x as int / 1) % 256) by (bit_vector);
    } else if i == 1 {
        assert(((x >> 8u64) & 0xffu64) as int == (x as int / 0x100) % 256) by (bit_vector);
    } else if i == 2 {
        assert(((x >> 16u64) & 0xffu64) as int == (x as int / 0x1_0000) % 256) by (bit_vector);
    } else if i == 3 {
        assert(((x >> 24u64) & 0xffu64) as int == (x as int / 0x100_0000) % 256) by (bit_vector);
    } else if i == 4 {
        assert(((x >> 32u64) & 0xffu64) as int == (x as int / 0x1_0000_0000) % 256)
            by (bit_vector);
    } else if i == 5 {
        assert(((x >> 40u64) & 0xffu64) as int == (x as int / 0x100_0000_0000) % 256)
            by (bit_vector);
    } else if i == 6 {
        assert(((x >> 48u64) & 0xffu64) as int == (x as int / 0x1_0000_0000_0000) % 256)
            by (bit_vector);
    } else {
        assert(((x >> 56u64) & 0xffu64) as int == (x as int / 0x100_0000_0000_0000) % 256)
            by (bit_vector);
    }
}

/// Byte `i` of a filled buffer, as a number: the base-256 digit of weight
/// `256^(i % 8)` of output number `i / 8`.
pub proof fn lemma_fill_byte_value(s: u64, n: nat, i: int)
    requires
        0 <= i < n,
    ensures
        fill_spec(s, n)[i] as int == (iterate(s, (i / 8 + 1) as nat) as int / pow(
            256,
            (i % 8) as nat,
        )) % 256,
{
    lemma_fill_byte(s, n, i);
    lemma_le_byte_is_base_256_digit(iterate(s, (i / 8 + 1) as nat), i % 8);
}

/// Byte `i` of a buffer filled by a generator seeded with `s` is byte
/// `i % 8` (little-endian) of output number `i / 8` (counting from 0).
pub proof fn lemma_fill_byte(s: u64, n: nat, i: int)
    requires
        0 <= i < n,
    ensures
        fill_spec(s, n)[i] == le_byte(iterate(s, (i / 8 + 1) as nat), i % 8),
    decreases n,
{
    let x = xorshift_next(s);
    let c = chunk_len(n);
    lemma_fill_state(x, (n - c) as nat);
    assert(fill_spec(s, n) == le_prefix(x, c) + fill_spec(x, (n - c) as nat));
    if i < c {
        assert(i / 8 == 0 && i % 8 == i);
        assert(iterate(s, 1) == iterate(x, 0));
        assert(fill_spec(s, n)[i] == le_prefix(x, c)[i]);
    } else {
        assert(c == 8);
        lemma_fill_byte(x, (n - 8) as nat, i - 8);
        assert((i - 8) / 8 + 1 == i / 8);
        assert((i - 8) % 8 == i % 8);
    }
}

/// Filling a buffer of `n` bytes takes one step per started group of eight
/// bytes.
pub proof fn lemma_fill_state(s: u64, n: nat)
    ensures
        fill_state(s, n) == iterate(s, ((n + 7) / 8) as nat),
        fill_spec(s, n).len() == n,
    decreases n,
{
    if n > 0 {
        let c = chunk_len(n);
        lemma_fill_state(xorshift_next(s), (n - c) as nat);
        assert(((n - c + 7) / 8) + 1 == (n + 7) / 8);
    }
}

/// A shorter buffer gets a prefix of what a longer buffer gets from a
/// generator in the same state.
pub proof fn lemma_fill_prefix(s: u64, m: nat, n: nat)
    requires
        m <= n,
    ensures
        fill_spec(s, m) == fill_spec(s, n).subrange(0, m as int),
{
    lemma_fill_state(s, m);
    lemma_fill_state(s, n);
    assert forall|i: int| 0 <= i < m implies fill_spec(s, m)[i] == fill_spec(s, n)[i] by {
        lemma_fill_byte(s, m, i);
        lemma_fill_byte(s, n, i);
    }
    assert(fill_spec(s, m) =~= fill_spec(s, n).subrange(0, m as int));
}

} // verus!
