//! SHA-256 over byte sequences.
//!
//! The digest is defined as a mathematical function on `Seq<u8>`
//! ([`spec_sha256`]); the executable [`sha256`] is proved to compute it.
//! Words are combined big-endian and added modulo 2^32 throughout.

use crate::bytes::{be32, be64, push_be32, push_be64};
use vstd::prelude::*;

verus! {

/// The eight 32-bit words of a chaining value, also used as the working
/// variables of one compression.
#[derive(Clone, Copy, Debug)]
pub struct State {
    pub a: u32,
    pub b: u32,
    pub c: u32,
    pub d: u32,
    pub e: u32,
    pub f: u32,
    pub g: u32,
    pub h: u32,
}

/// The round constants: the first 32 bits of the fractional parts of the
/// cube roots of the first 64 primes.
pub const ROUND_CONSTANTS: [u32; 64] = [
    0x428a2f98, 0x71374491, 0xb5c0fbcf, 0xe9b5dba5, 0x3956c25b, 0x59f111f1, 0x923f82a4, 0xab1c5ed5,
    0xd807aa98, 0x12835b01, 0x243185be, 0x550c7dc3, 0x72be5d74, 0x80deb1fe, 0x9bdc06a7, 0xc19bf174,
    0xe49b69c1, 0xefbe4786, 0x0fc19dc6, 0x240ca1cc, 0x2de92c6f, 0x4a7484aa, 0x5cb0a9dc, 0x76f988da,
    0x983e5152, 0xa831c66d, 0xb00327c8, 0xbf597fc7, 0xc6e00bf3, 0xd5a79147, 0x06ca6351, 0x14292967,
    0x27b70a85, 0x2e1b2138, 0x4d2c6dfc, 0x53380d13, 0x650a7354, 0x766a0abb, 0x81c2c92e, 0x92722c85,
    0xa2bfe8a1, 0xa81a664b, 0xc24b8b70, 0xc76c51a3, 0xd192e819, 0xd6990624, 0xf40e3585, 0x106aa070,
    0x19a4c116, 0x1e376c08, 0x2748774c, 0x34b0bcb5, 0x391c0cb3, 0x4ed8aa4a, 0x5b9cca4f, 0x682e6ff3,
    0x748f82ee, 0x78a5636f, 0x84c87814, 0x8cc70208, 0x90befffa, 0xa4506ceb, 0xbef9a3f7, 0xc67178f2,
];

/// Sum of two words modulo 2^32.
pub open spec fn spec_add32(x: u32, y: u32) -> u32 {
    ((x + y) % 0x1_0000_0000) as u32
}

/// Rotation of `x` to the right by `n` bit positions, for `0 < n < 32`.
pub open spec fn spec_rotr(x: u32, n: u32) -> u32 {
    (x >> n) | (x << ((32 - n) as u32))
}

/// Bit by bit, `y` where `x` is set and `z` where it is not.
pub open spec fn spec_ch(x: u32, y: u32, z: u32) -> u32 {
    (x & y) ^ (!x & z)
}

/// Bit by bit, the value that at least two of `x`, `y`, `z` have.
pub open spec fn spec_maj(x: u32, y: u32, z: u32) -> u32 {
    (x & y) ^ (x & z) ^ (y & z)
}

/// The mixing function applied to `a` in each round.
pub open spec fn spec_big_sigma0(x: u32) -> u32 {
    spec_rotr(x, 2) ^ spec_rotr(x, 13) ^ spec_rotr(x, 22)
}

/// The mixing function applied to `e` in each round.
pub open spec fn spec_big_sigma1(x: u32) -> u32 {
    spec_rotr(x, 6) ^ spec_rotr(x, 11) ^ spec_rotr(x, 25)
}

/// The mixing function applied to the word fifteen places back in the
/// message schedule.
pub open spec fn spec_small_sigma0(x: u32) -> u32 {
    spec_rotr(x, 7) ^ spec_rotr(x, 18) ^ (x >> 3)
}

/// The mixing function applied to the word two places back in the message
/// schedule.
pub open spec fn spec_small_sigma1(x: u32) -> u32 {
    spec_rotr(x, 17) ^ spec_rotr(x, 19) ^ (x >> 10)
}

/// The word whose bytes, most significant first, are `b0 b1 b2 b3`.
pub open spec fn spec_word(b0: u8, b1: u8, b2: u8, b3: u8) -> u32 {
    (b0 * 0x100_0000 + b1 * 0x1_0000 + b2 * 0x100 + b3) as u32
}

/// Word `t` of the message schedule of a 64-byte block.
pub open spec fn schedule(block: Seq<u8>, t: int) -> u32
    decreases t,
{
    if t < 0 {
        0
    } else if t < 16 {
        spec_word(block[4 * t], block[4 * t + 1], block[4 * t + 2], block[4 * t + 3])
    } else {
        spec_add32(
            spec_add32(spec_small_sigma1(schedule(block, t - 2)), schedule(block, t - 7)),
            spec_add32(spec_small_sigma0(schedule(block, t - 15)), schedule(block, t - 16)),
        )
    }
}

/// One round of the compression function, with round constant `k` and
/// schedule word `w`.
pub open spec fn spec_round(s: State, k: u32, w: u32) -> State {
    let t1 = spec_add32(
        spec_add32(spec_add32(spec_add32(s.h, spec_big_sigma1(s.e)), spec_ch(s.e, s.f, s.g)), k),
        w,
    );
    let t2 = spec_add32(spec_big_sigma0(s.a), spec_maj(s.a, s.b, s.c));
    State {
        a: spec_add32(t1, t2),
        b: s.a,
        c: s.b,
        d: s.c,
        e: spec_add32(s.d, t1),
        f: s.e,
        g: s.f,
        h: s.g,
    }
}

/// The working variables after the first `t` rounds on `block`.
pub open spec fn rounds(s: State, block: Seq<u8>, t: nat) -> State
    decreases t,
{
    if t == 0 {
        s
    } else {
        spec_round(
            rounds(s, block, (t - 1) as nat),
            ROUND_CONSTANTS@[t - 1],
            schedule(block, t - 1),
        )
    }
}

/// Word-wise sum of two states modulo 2^32.
pub open spec fn spec_combine(x: State, y: State) -> State {
    State {
        a: spec_add32(x.a, y.a),
        b: spec_add32(x.b, y.b),
        c: spec_add32(x.c, y.c),
        d: spec_add32(x.d, y.d),
        e: spec_add32(x.e, y.e),
        f: spec_add32(x.f, y.f),
        g: spec_add32(x.g, y.g),
        h: spec_add32(x.h, y.h),
    }
}

/// The chaining value that follows `h` once the 64-byte `block` is absorbed.
pub open spec fn spec_compress(h: State, block: Seq<u8>) -> State {
    spec_combine(h, rounds(h, block, 64))
}

/// Adds two words modulo 2^32.
pub fn add32(x: u32, y: u32) -> (r: u32)
    ensures
        r == spec_add32(x, y),
{
    x.wrapping_add(y)
}

/// Rotates `x` to the right by `n` bit positions.
pub fn rotr(x: u32, n: u32) -> (r: u32)
    requires
        0 < n < 32,
    ensures
        r == spec_rotr(x, n),
{
    (x >> n) | (x << (32 - n))
}

/// Chooses between `y` and `z` bit by bit, as `x` says.
pub fn ch(x: u32, y: u32, z: u32) -> (r: u32)
    ensures
        r == spec_ch(x, y, z),
{
    (x & y) ^ (!x & z)
}

/// Takes the majority of `x`, `y`, `z` bit by bit.
pub fn maj(x: u32, y: u32, z: u32) -> (r: u32)
    ensures
        r == spec_maj(x, y, z),
{
    (x & y) ^ (x & z) ^ (y & z)
}

/// Mixes the bits of `a` for a round.
pub fn big_sigma0(x: u32) -> (r: u32)
    ensures
        r == spec_big_sigma0(x),
{
    rotr(x, 2) ^ rotr(x, 13) ^ rotr(x, 22)
}

/// Mixes the bits of `e` for a round.
pub fn big_sigma1(x: u32) -> (r: u32)
    ensures
        r == spec_big_sigma1(x),
{
    rotr(x, 6) ^ rotr(x, 11) ^ rotr(x, 25)
}

/// Mixes the bits of the schedule word fifteen places back.
pub fn small_sigma0(x: u32) -> (r: u32)
    ensures
        r == spec_small_sigma0(x),
{
    rotr(x, 7) ^ rotr(x, 18) ^ (x >> 3)
}

/// Mixes the bits of the schedule word two places back.
pub fn small_sigma1(x: u32) -> (r: u32)
    ensures
        r == spec_small_sigma1(x),
{
    rotr(x, 17) ^ rotr(x, 19) ^ (x >> 10)
}

/// Joins four bytes, most significant first, into a word.
pub fn word(b0: u8, b1: u8, b2: u8, b3: u8) -> (r: u32)
    ensures
        r == spec_word(b0, b1, b2, b3),
{
    (b0 as u32) * 0x100_0000 + (b1 as u32) * 0x1_0000 + (b2 as u32) * 0x100 + (b3 as u32)
}

/// Performs one round on the working variables.
pub fn round(s: State, k: u32, w: u32) -> (r: State)
    ensures
        r == spec_round(s, k, w),
{
    let t1: u32 = add32(add32(add32(add32(s.h, big_sigma1(s.e)), ch(s.e, s.f, s.g)), k), w);
    let t2: u32 = add32(big_sigma0(s.a), maj(s.a, s.b, s.c));
    State { a: add32(t1, t2), b: s.a, c: s.b, d: s.c, e: add32(s.d, t1), f: s.e, g: s.f, h: s.g }
}

/// Adds two states word by word modulo 2^32.
pub fn combine(x: State, y: State) -> (r: State)
    ensures
        r == spec_combine(x, y),
{
    State {
        a: add32(x.a, y.a),
        b: add32(x.b, y.b),
        c: add32(x.c, y.c),
        d: add32(x.d, y.d),
        e: add32(x.e, y.e),
        f: add32(x.f, y.f),
        g: add32(x.g, y.g),
        h: add32(x.h, y.h),
    }
}

/// Expands the 64 bytes of `data` that start at `off` into the message
/// schedule.
fn expand(data: &[u8], off: usize) -> (w: [u32; 64])
    requires
        off + 64 <= data@.len(),
    ensures
        forall|t: int|
            0 <= t < 64 ==> w@[t] == schedule(data@.subrange(off as int, off + 64), t),
{
    let ghost block = data@.subrange(off as int, off + 64);
    let len = data.len();
    let mut w: [u32; 64] = [0u32; 64];
    let mut t: usize = 0;
    while t < 16
        invariant
            t <= 16,
            off + 64 <= data@.len() == len,
            block == data@.subrange(off as int, off + 64),
            forall|j: int| 0 <= j < t ==> w@[j] == schedule(block, j),
        decreases 16 - t,
    {
        let i: usize = off + 4 * t;
        w[t] = word(data[i], data[i + 1], data[i + 2], data[i + 3]);
        t += 1;
    }
    while t < 64
        invariant
            16 <= t <= 64,
            forall|j: int| 0 <= j < t ==> #[trigger] w@[j] == schedule(block, j),
        decreases 64 - t,
    {
        let next = add32(
            add32(small_sigma1(w[t - 2]), w[t - 7]),
            add32(small_sigma0(w[t - 15]), w[t - 16]),
        );
        w[t] = next;
        t += 1;
    }
    w
}

/// Absorbs the 64 bytes of `data` that start at `off` into the chaining
/// value `h`.
pub fn compress(h: State, data: &[u8], off: usize) -> (r: State)
    requires
        off + 64 <= data@.len(),
    ensures
        r == spec_compress(h, data@.subrange(off as int, off + 64)),
{
    let ghost block = data@.subrange(off as int, off + 64);
    let w = expand(data, off);
    let mut s = h;
    let mut t: usize = 0;
    while t < 64
        invariant
            t <= 64,
            s == rounds(h, block, t as nat),
            forall|j: int| 0 <= j < 64 ==> w@[j] == schedule(block, j),
        decreases 64 - t,
    {
        s = round(s, ROUND_CONSTANTS[t], w[t]);
        t += 1;
    }
    combine(h, s)
}

/// The chaining value before any block is absorbed: the first 32 bits of
/// the fractional parts of the square roots of the first eight primes.
pub open spec fn spec_initial_state() -> State {
    State {
        a: 0x6a09e667,
        b: 0xbb67ae85,
        c: 0x3c6ef372,
        d: 0xa54ff53a,
        e: 0x510e527f,
        f: 0x9b05688c,
        g: 0x1f83d9ab,
        h: 0x5be0cd19,
    }
}

/// How many zero bytes the padding of a message of `len` bytes holds
/// between the marker byte and the length field.
pub open spec fn zero_count(len: nat) -> nat {
    ((119 - len % 64) % 64) as nat
}

/// The padding of a message of `len` bytes: the marker byte `0x80`, zero
/// bytes up to eight short of a multiple of 64, and the message length in
/// bits as a big-endian 64-bit number (taken modulo 2^64).
pub open spec fn padding(len: nat) -> Seq<u8> {
    seq![0x80u8] + Seq::new(zero_count(len), |i: int| 0u8) + be64(
        ((8 * len) % 0x1_0000_0000_0000_0000) as u64,
    )
}

/// The message followed by its padding; its length is a multiple of 64.
pub open spec fn padded(msg: Seq<u8>) -> Seq<u8> {
    msg + padding(msg.len())
}

/// The chaining value after the first `n` 64-byte blocks of `data` are
/// absorbed into `h`, in order.
pub open spec fn absorb(h: State, data: Seq<u8>, n: nat) -> State
    decreases n,
{
    if n == 0 {
        h
    } else {
        spec_compress(absorb(h, data, (n - 1) as nat), data.subrange(64 * (n - 1), 64 * n as int))
    }
}

/// The 32 bytes of a chaining value, word by word, each big-endian.
pub open spec fn state_bytes(s: State) -> Seq<u8> {
    be32(s.a) + be32(s.b) + be32(s.c) + be32(s.d) + be32(s.e) + be32(s.f) + be32(s.g) + be32(s.h)
}

/// The SHA-256 digest of `msg`.
pub open spec fn spec_sha256(msg: Seq<u8>) -> Seq<u8> {
    let p = padded(msg);
    state_bytes(absorb(spec_initial_state(), p, p.len() / 64))
}

/// A chaining value has 32 bytes.
pub proof fn lemma_state_bytes_len(s: State)
    ensures
        state_bytes(s).len() == 32,
{
    assert(be32(s.a).len() == 4 && be32(s.b).len() == 4 && be32(s.c).len() == 4 && be32(
        s.d,
    ).len() == 4);
    assert(be32(s.e).len() == 4 && be32(s.f).len() == 4 && be32(s.g).len() == 4 && be32(
        s.h,
    ).len() == 4);
}

/// A digest is 32 bytes long.
pub proof fn lemma_digest_len(msg: Seq<u8>)
    ensures
        spec_sha256(msg).len() == 32,
{
    lemma_state_bytes_len(absorb(spec_initial_state(), padded(msg), padded(msg).len() / 64));
}

/// The padded message fills a whole number of blocks: one more than the
/// message's whole blocks, or two more where fewer than nine bytes would
/// be left in the last one.
pub proof fn lemma_padded_len(msg: Seq<u8>)
    ensures
        padded(msg).len() % 64 == 0,
        padded(msg).len() == 64 * (msg.len() / 64) + (if msg.len() % 64 < 56 {
            64int
        } else {
            128int
        }),
{
}

/// The chaining value before any block is absorbed.
pub fn initial_state() -> (s: State)
    ensures
        s == spec_initial_state(),
{
    State {
        a: 0x6a09e667,
        b: 0xbb67ae85,
        c: 0x3c6ef372,
        d: 0xa54ff53a,
        e: 0x510e527f,
        f: 0x9b05688c,
        g: 0x1f83d9ab,
        h: 0x5be0cd19,
    }
}

/// The length field of the padding holds eight times the length, reduced
/// modulo 2^64.
proof fn lemma_bit_length(len: u64)
    by (bit_vector)
    ensures
        (len % 0x2000_0000_0000_0000) * 8 == (8 * len) % 0x1_0000_0000_0000_0000,
{
}

/// The part of the padded message that follows the whole blocks of `data`:
/// its last, partial block and the padding.
fn final_blocks(data: &[u8]) -> (tail: Vec<u8>)
    ensures
        tail@ == data@.skip(64 * (data@.len() as int / 64)) + padding(data@.len()),
{
    let len = data.len();
    let start: usize = len - len % 64;
    let mut tail: Vec<u8> = Vec::new();
    let mut i: usize = start;
    while i < len
        invariant
            start <= i <= len == data@.len(),
            tail@ == data@.subrange(start as int, i as int),
        decreases len - i,
    {
        tail.push(data[i]);
        i += 1;
    }
    let ghost rest = tail@;
    tail.push(0x80);
    let zeros: usize = (119 - len % 64) % 64;
    let mut k: usize = 0;
    while k < zeros
        invariant
            k <= zeros,
            tail@ == rest + seq![0x80u8] + Seq::new(k as nat, |i: int| 0u8),
        decreases zeros - k,
    {
        tail.push(0);
        k += 1;
    }
    let bits: u64 = ((len as u64) % 0x2000_0000_0000_0000) * 8;
    proof {
        lemma_bit_length(len as u64);
    }
    push_be64(&mut tail, bits);
    tail
}

/// Copies 32 bytes into an array.
fn array_of(bytes: &Vec<u8>) -> (array: [u8; 32])
    requires
        bytes@.len() == 32,
    ensures
        array@ == bytes@,
{
    let mut array: [u8; 32] = [0u8; 32];
    let mut i: usize = 0;
    while i < 32
        invariant
            i <= 32,
            bytes@.len() == 32,
            forall|j: int| 0 <= j < i ==> array@[j] == bytes@[j],
        decreases 32 - i,
    {
        array[i] = bytes[i];
        i += 1;
    }
    assert(array@ =~= bytes@);
    array
}

/// The bytes of a chaining value.
fn digest_of(s: State) -> (digest: [u8; 32])
    ensures
        digest@ == state_bytes(s),
{
    let mut bytes: Vec<u8> = Vec::new();
    push_be32(&mut bytes, s.a);
    assert(bytes@ =~= be32(s.a));
    push_be32(&mut bytes, s.b);
    push_be32(&mut bytes, s.c);
    push_be32(&mut bytes, s.d);
    push_be32(&mut bytes, s.e);
    push_be32(&mut bytes, s.f);
    push_be32(&mut bytes, s.g);
    push_be32(&mut bytes, s.h);
    array_of(&bytes)
}

/// Absorbing one more block compresses it into the chaining value reached
/// so far.
proof fn lemma_absorb_next(h: State, data: Seq<u8>, n: nat, block: Seq<u8>)
    requires
        block == data.subrange(64 * (n as int), 64 * (n as int) + 64),
    ensures
        absorb(h, data, n + 1) == spec_compress(absorb(h, data, n), block),
{
    assert(data.subrange(64 * ((n + 1) - 1), 64 * (n + 1) as int) == block);
}

/// Computes the SHA-256 digest of `data`.
pub fn sha256(data: &[u8]) -> (digest: [u8; 32])
    ensures
        digest@ == spec_sha256(data@),
{
    let ghost pad = padding(data@.len());
    let ghost p = data@ + pad;
    let full: usize = data.len() / 64;
    let mut h = initial_state();
    let mut i: usize = 0;
    while i < full
        invariant
            i <= full,
            64 * full <= data@.len() <= usize::MAX,
            p == data@ + pad,
            h == absorb(spec_initial_state(), p, i as nat),
        decreases full - i,
    {
        proof {
            let block = data@.subrange(i * 64, i * 64 + 64);
            assert(block =~= p.subrange(64 * i, 64 * i + 64));
            lemma_absorb_next(spec_initial_state(), p, i as nat, block);
        }
        h = compress(h, data, i * 64);
        i += 1;
    }
    let tail = final_blocks(data);
    let blocks: usize = tail.len() / 64;
    proof {
        lemma_padded_len(data@);
    }
    let mut j: usize = 0;
    while j < blocks
        invariant
            j <= blocks,
            64 * blocks == tail@.len() <= 128,
            p.len() == 64 * full + 64 * blocks,
            tail@ == p.skip(64 * full),
            h == absorb(spec_initial_state(), p, (full + j) as nat),
        decreases blocks - j,
    {
        proof {
            let block = tail@.subrange(j * 64, j * 64 + 64);
            assert(block =~= p.subrange(64 * (full + j), 64 * (full + j) + 64));
            lemma_absorb_next(spec_initial_state(), p, (full + j) as nat, block);
        }
        h = compress(h, tail.as_slice(), j * 64);
        j += 1;
    }
    digest_of(h)
}

} // verus!
