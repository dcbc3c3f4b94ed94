//! Access to bit-packed buffers, most significant bit of each byte first,
//! the order in which LNAV words are stored and read.

use vstd::prelude::*;

verus! {

/// The bit at position `pos` of a bit-packed buffer: bit 0 is the most
/// significant bit of byte 0.
pub open spec fn nth_bit(buf: Seq<u8>, pos: int) -> u32 {
    ((buf[pos / 8] >> ((7 - pos % 8) as u8)) & 1u8) as u32
}

/// The unsigned value of bits `pos .. pos + len`, most significant first.
pub open spec fn spec_getbitu(buf: Seq<u8>, pos: int, len: int) -> u32
    decreases len,
{
    if len <= 0 {
        0u32
    } else {
        (spec_getbitu(buf, pos, len - 1) << 1u32) | nth_bit(buf, pos + len - 1)
    }
}

/// The value of bits `pos .. pos + len` read as a two's-complement integer.
pub open spec fn spec_getbits(buf: Seq<u8>, pos: int, len: int) -> int {
    let u = spec_getbitu(buf, pos, len) as int;
    if u >= (1u64 << ((len - 1) as u64)) as int {
        u - (1u64 << (len as u64)) as int
    } else {
        u
    }
}

pub proof fn lemma_getbitu_bound(buf: Seq<u8>, pos: int, len: int)
    requires
        0 <= len <= 32,
    ensures
        (spec_getbitu(buf, pos, len) as u64) < (1u64 << (len as u64)),
    decreases len,
{
    if len == 0 {
        lemma_pow2_values();
    } else {
        lemma_getbitu_bound(buf, pos, len - 1);
        let p = spec_getbitu(buf, pos, len - 1);
        let b = nth_bit(buf, pos + len - 1);
        let x = buf[(pos + len - 1) / 8];
        let sh = (7 - (pos + len - 1) % 8) as u8;
        assert(((x >> sh) & 1u8) as u32 <= 1) by (bit_vector);
        let m = (len - 1) as u64;
        assert((((p << 1u32) | b) as u64) < (1u64 << ((m + 1) as u64))) by (bit_vector)
            requires
                (p as u64) < (1u64 << m),
                b <= 1,
                m <= 31,
        ;
    }
}

pub proof fn lemma_getbits_bound(buf: Seq<u8>, pos: int, len: int)
    requires
        1 <= len <= 31,
    ensures
        -((1u64 << ((len - 1) as u64)) as int) <= spec_getbits(buf, pos, len) < (1u64 << ((len
            - 1) as u64)) as int,
{
    lemma_getbitu_bound(buf, pos, len);
    let u = spec_getbitu(buf, pos, len);
    let lm = (len - 1) as u64;
    assert((1u64 << ((lm + 1) as u64)) == 2 * (1u64 << lm) && 1u64 << lm >= 1) by (bit_vector)
        requires
            lm <= 30,
    ;
}

/// The numeric value of each power of two that a field width can take.
pub proof fn lemma_pow2_values()
    by (bit_vector)
    ensures
        (1u64 << 0u64) == 0x1,
        (1u64 << 1u64) == 0x2,
        (1u64 << 2u64) == 0x4,
        (1u64 << 3u64) == 0x8,
        (1u64 << 4u64) == 0x10,
        (1u64 << 5u64) == 0x20,
        (1u64 << 6u64) == 0x40,
        (1u64 << 7u64) == 0x80,
        (1u64 << 8u64) == 0x100,
        (1u64 << 9u64) == 0x200,
        (1u64 << 10u64) == 0x400,
        (1u64 << 11u64) == 0x800,
        (1u64 << 12u64) == 0x1000,
        (1u64 << 13u64) == 0x2000,
        (1u64 << 14u64) == 0x4000,
        (1u64 << 15u64) == 0x8000,
        (1u64 << 16u64) == 0x1_0000,
        (1u64 << 17u64) == 0x2_0000,
        (1u64 << 21u64) == 0x20_0000,
        (1u64 << 22u64) == 0x40_0000,
        (1u64 << 23u64) == 0x80_0000,
        (1u64 << 24u64) == 0x100_0000,
        (1u64 << 25u64) == 0x200_0000,
        (1u64 << 30u64) == 0x4000_0000,
        (1u64 << 31u64) == 0x8000_0000,
        (1u64 << 32u64) == 0x1_0000_0000,
{
}

/// Two buffers that agree bit-for-bit on a range read the same value there.
pub proof fn lemma_getbitu_frame(b1: Seq<u8>, b2: Seq<u8>, pos: int, len: int)
    requires
        forall|p: int| pos <= p < pos + len ==> nth_bit(b1, p) == nth_bit(b2, p),
    ensures
        spec_getbitu(b1, pos, len) == spec_getbitu(b2, pos, len),
    decreases len,
{
    if len > 0 {
        lemma_getbitu_frame(b1, b2, pos, len - 1);
    }
}

/// A buffer whose bits `pos .. pos + len` are the big-endian bits of `data`
/// reads back exactly `data`.
pub proof fn lemma_getbitu_from_bits(buf: Seq<u8>, pos: int, len: int, data: u32)
    requires
        0 <= len <= 32,
        (data as u64) < (1u64 << (len as u64)),
        forall|p: int|
            pos <= p < pos + len ==> nth_bit(buf, p) == ((data >> ((len - 1 - (p - pos)) as u32))
                & 1u32),
    ensures
        spec_getbitu(buf, pos, len) == data,
    decreases len,
{
    if len == 0 {
        lemma_pow2_values();
    } else {
        let d2 = data >> 1u32;
        let m = (len - 1) as u64;
        assert((d2 as u64) < (1u64 << m) && ((d2 << 1u32) | ((data >> 0u32) & 1u32)) == data)
            by (bit_vector)
            requires
                d2 == data >> 1u32,
                (data as u64) < (1u64 << ((m + 1) as u64)),
                m <= 31,
        ;
        assert forall|p: int|
            pos <= p < pos + (len - 1) implies nth_bit(buf, p) == ((d2 >> ((len - 2 - (p
            - pos)) as u32)) & 1u32) by {
            let k = p - pos;
            assert(nth_bit(buf, p) == ((data >> ((len - 1 - k) as u32)) & 1u32));
            let s = (len - 2 - k) as u32;
            assert((d2 >> s) & 1u32 == (data >> ((s + 1) as u32)) & 1u32) by (bit_vector)
                requires
                    d2 == data >> 1u32,
                    s <= 30,
            ;
        }
        lemma_getbitu_from_bits(buf, pos, len - 1, d2);
        let b = nth_bit(buf, pos + len - 1);
        assert(b == (data >> 0u32) & 1u32);
    }
}

/// Each bit of a range is the corresponding bit of the value the range
/// reads as.
pub proof fn lemma_getbitu_to_bits(buf: Seq<u8>, pos: int, len: int)
    requires
        0 <= len <= 32,
    ensures
        forall|p: int|
            pos <= p < pos + len ==> nth_bit(buf, p) == (spec_getbitu(buf, pos, len) >> ((len - 1
                - (p - pos)) as u32)) & 1u32,
    decreases len,
{
    if len > 0 {
        lemma_getbitu_to_bits(buf, pos, len - 1);
        lemma_getbitu_bound(buf, pos, len - 1);
        let x = spec_getbitu(buf, pos, len - 1);
        let b = nth_bit(buf, pos + len - 1);
        let v = spec_getbitu(buf, pos, len);
        let byte = buf[(pos + len - 1) / 8];
        let shb = (7 - (pos + len - 1) % 8) as u8;
        assert(((byte >> shb) & 1u8) as u32 <= 1) by (bit_vector);
        assert forall|p: int|
            pos <= p < pos + len implies nth_bit(buf, p) == (v >> ((len - 1 - (p
            - pos)) as u32)) & 1u32 by {
            let s = (len - 1 - (p - pos)) as u32;
            if p == pos + len - 1 {
                assert((((x << 1u32) | b) >> 0u32) & 1u32 == b) by (bit_vector)
                    requires
                        b <= 1,
                ;
            } else {
                assert(nth_bit(buf, p) == (x >> ((len - 2 - (p - pos)) as u32)) & 1u32);
                assert((((x << 1u32) | b) >> s) & 1u32 == (x >> ((s - 1) as u32)) & 1u32)
                    by (bit_vector)
                    requires
                        1 <= s < 32,
                        b <= 1,
                ;
            }
        }
    }
}

/// Reads `len` bits at `pos` as an unsigned integer, most significant first.
pub fn getbitu(buf: &[u8], pos: usize, len: usize) -> (r: u32)
    requires
        len <= 32,
        pos + len <= buf@.len() * 8,
        buf@.len() * 8 <= usize::MAX,
    ensures
        r == spec_getbitu(buf@, pos as int, len as int),
{
    let mut bits: u32 = 0;
    let mut i: usize = 0;
    while i < len
        invariant
            i <= len,
            len <= 32,
            pos + len <= buf@.len() * 8,
            buf@.len() * 8 <= usize::MAX,
            bits == spec_getbitu(buf@, pos as int, i as int),
        decreases len - i,
    {
        let p = pos + i;
        assert(p / 8 < buf@.len());
        let byte = buf[p / 8];
        let sh: u8 = (7 - (p % 8)) as u8;
        let b: u32 = ((byte >> sh) & 1u8) as u32;
        bits = (bits << 1u32) | b;
        i += 1;
    }
    bits
}

/// Reads `len` bits at `pos` as a two's-complement signed integer.
pub fn getbits(buf: &[u8], pos: usize, len: usize) -> (r: i32)
    requires
        1 <= len <= 31,
        pos + len <= buf@.len() * 8,
        buf@.len() * 8 <= usize::MAX,
    ensures
        r as int == spec_getbits(buf@, pos as int, len as int),
{
    let u = getbitu(buf, pos, len);
    proof {
        lemma_getbitu_bound(buf@, pos as int, len as int);
    }
    let m: u32 = (len - 1) as u32;
    let ghost lm: u64 = (len - 1) as u64;
    let sign = (u >> m) & 1;
    if sign == 1 {
        let sc: u64 = 1u64 << (len as u64);
        proof {
            assert(2 <= sc <= 0x8000_0000 && (u as u64) < sc && (u as u64) >= (1u64 << lm)
                && (1u64 << lm) * 2 == sc) by (bit_vector)
                requires
                    sc == 1u64 << (len as u64),
                    m == (len - 1) as u32,
                    lm == (len - 1) as u64,
                    (u >> m) & 1 == 1,
                    (u as u64) < (1u64 << (len as u64)),
                    1 <= len <= 31,
            ;
        }
        let v: i64 = (u as i64) - (sc as i64);
        v as i32
    } else {
        proof {
            assert((u as u64) < (1u64 << lm) && (1u64 << lm) <= 0x4000_0000) by (bit_vector)
                requires
                    m == (len - 1) as u32,
                    lm == (len - 1) as u64,
                    (u >> m) & 1 != 1,
                    (u as u64) < (1u64 << (len as u64)),
                    1 <= len <= 31,
            ;
        }
        u as i32
    }
}

/// Reads a signed field split in two parts: `len1` high bits at `pos1`
/// (carrying the sign) and `len2` low bits at `pos2`.
pub fn getbits2(buf: &[u8], pos1: usize, len1: usize, pos2: usize, len2: usize) -> (r: i64)
    requires
        1 <= len1 <= 31,
        len2 <= 31,
        len1 + len2 <= 32,
        pos1 + len1 <= buf@.len() * 8,
        pos2 + len2 <= buf@.len() * 8,
        buf@.len() * 8 <= usize::MAX,
    ensures
        r == spec_getbits(buf@, pos1 as int, len1 as int) * ((1u64 << (len2 as u64)) as int)
            + spec_getbitu(buf@, pos2 as int, len2 as int) as int,
{
    let hi = getbits(buf, pos1, len1) as i64;
    let lo = getbitu(buf, pos2, len2) as i64;
    let sc: u64 = 1u64 << (len2 as u64);
    proof {
        lemma_getbitu_bound(buf@, pos2 as int, len2 as int);
        assert(1 <= sc <= 0x8000_0000) by (bit_vector)
            requires
                sc == 1u64 << (len2 as u64),
                len2 <= 31,
        ;
        assert(-0x8000_0000 <= hi <= 0x7fff_ffff);
        assert(hi * (sc as i64) <= 0x7fff_ffff * 0x8000_0000 && hi * (sc as i64) >= (
        -0x8000_0000) * 0x8000_0000) by (nonlinear_arith)
            requires
                -0x8000_0000 <= hi <= 0x7fff_ffff,
                1 <= (sc as i64) <= 0x8000_0000,
        ;
    }
    hi * (sc as i64) + lo
}

/// Reads an unsigned field split in two parts: `len1` high bits at `pos1`
/// and `len2` low bits at `pos2`.
pub fn getbitu2(buf: &[u8], pos1: usize, len1: usize, pos2: usize, len2: usize) -> (r: u32)
    requires
        len1 <= 32,
        len2 <= 31,
        len1 + len2 <= 32,
        pos1 + len1 <= buf@.len() * 8,
        pos2 + len2 <= buf@.len() * 8,
        buf@.len() * 8 <= usize::MAX,
    ensures
        r as int == spec_getbitu(buf@, pos1 as int, len1 as int) as int * ((1u64 << (
        len2 as u64)) as int) + spec_getbitu(buf@, pos2 as int, len2 as int) as int,
{
    let hi = getbitu(buf, pos1, len1);
    let lo = getbitu(buf, pos2, len2);
    proof {
        lemma_getbitu_bound(buf@, pos1 as int, len1 as int);
        lemma_getbitu_bound(buf@, pos2 as int, len2 as int);
    }
    let r = hi << (len2 as u32);
    let r = r | lo;
    proof {
        assert(((hi << (len2 as u32)) | lo) as u64 == (hi as u64) * (1u64 << (len2 as u64)) + (
        lo as u64) && (hi as u64) * (1u64 << (len2 as u64)) + (lo as u64) < 0x1_0000_0000)
            by (bit_vector)
            requires
                (hi as u64) < (1u64 << (len1 as u64)),
                (lo as u64) < (1u64 << (len2 as u64)),
                len1 + len2 <= 32,
                len2 <= 31,
                len1 <= 32,
        ;
    }
    r
}

/// Writes the low `len` bits of `data` at `pos`, most significant first;
/// every other bit of the buffer keeps its value.
pub fn setbitu(buf: &mut Vec<u8>, pos: usize, len: usize, data: u32)
    requires
        len <= 32,
        pos + len <= old(buf)@.len() * 8,
        old(buf)@.len() * 8 <= usize::MAX,
        (data as u64) < (1u64 << (len as u64)),
    ensures
        final(buf)@.len() == old(buf)@.len(),
        spec_getbitu(final(buf)@, pos as int, len as int) == data,
        forall|p: int|
            0 <= p < old(buf)@.len() * 8 && !(pos <= p < pos + len) ==> nth_bit(final(buf)@, p)
                == nth_bit(old(buf)@, p),
{
    let mut i: usize = 0;
    while i < len
        invariant
            i <= len,
            len <= 32,
            pos + len <= buf@.len() * 8,
            buf@.len() * 8 <= usize::MAX,
            buf@.len() == old(buf)@.len(),
            forall|p: int|
                pos <= p < pos + i ==> nth_bit(buf@, p) == ((data >> ((len - 1 - (p
                    - pos)) as u32)) & 1u32),
            forall|p: int|
                0 <= p < buf@.len() * 8 && !(pos <= p < pos + i) ==> nth_bit(buf@, p) == nth_bit(
                    old(buf)@,
                    p,
                ),
        decreases len - i,
    {
        let p = pos + i;
        assert(p / 8 < buf@.len());
        let bidx = p / 8;
        let sh: u8 = (7 - (p % 8)) as u8;
        let b: u32 = (data >> ((len - 1 - i) as u32)) & 1;
        let obyte = buf[bidx];
        let nbyte: u8 = if b == 1 {
            obyte | (1u8 << sh)
        } else {
            obyte & !(1u8 << sh)
        };
        let ghost prev = buf@;
        buf.set(bidx, nbyte);
        proof {
            assert(((obyte | (1u8 << sh)) >> sh) & 1u8 == 1u8 && ((obyte & !(1u8 << sh)) >> sh)
                & 1u8 == 0u8 && b <= 1) by (bit_vector)
                requires
                    sh <= 7,
                    b == (data >> ((len - 1 - i) as u32)) & 1,
            ;
            assert(nth_bit(buf@, p as int) == b);
            assert forall|q: int|
                0 <= q < buf@.len() * 8 && q != p implies nth_bit(buf@, q) == nth_bit(prev, q) by {
                if q / 8 == p as int / 8 {
                    vstd::arithmetic::div_mod::lemma_fundamental_div_mod(q, 8);
                    vstd::arithmetic::div_mod::lemma_fundamental_div_mod(p as int, 8);
                    assert(q == 8 * (q / 8) + q % 8);
                    assert(p as int == 8 * (p as int / 8) + p as int % 8);
                    assert(q % 8 != p as int % 8);
                    let sq = (7 - q % 8) as u8;
                    assert(((obyte | (1u8 << sh)) >> sq) & 1u8 == (obyte >> sq) & 1u8 && ((obyte
                        & !(1u8 << sh)) >> sq) & 1u8 == (obyte >> sq) & 1u8) by (bit_vector)
                        requires
                            sh <= 7,
                            sq <= 7,
                            sq != sh,
                    ;
                }
            }
            assert forall|pp: int|
                pos <= pp < pos + i + 1 implies nth_bit(buf@, pp) == ((data >> ((len - 1 - (pp
                - pos)) as u32)) & 1u32) by {
                if pp == p {
                    assert(nth_bit(buf@, pp) == b);
                } else {
                    assert(nth_bit(buf@, pp) == nth_bit(prev, pp));
                }
            }
        }
        i += 1;
    }
    proof {
        lemma_getbitu_from_bits(buf@, pos as int, len as int, data);
    }
}

/// Sums the bits of `v` modulo two.
pub fn xor_bits(v: u32) -> (r: u8)
    ensures
        r == spec_parity(v),
        r <= 1,
{
    let mut acc: u32 = 0;
    let mut cur: u32 = v;
    let mut i: usize = 0;
    proof {
        let s0 = spec_parity_rec(v, 32);
        assert(0u32 ^ s0 == s0) by (bit_vector);
    }
    while i < 32
        invariant
            i <= 32,
            acc <= 1,
            spec_parity(v) == acc ^ spec_parity_rec(cur, (32 - i) as nat),
        decreases 32 - i,
    {
        let b = cur & 1;
        let ghost s = spec_parity_rec(cur >> 1u32, (32 - i - 1) as nat);
        proof {
            assert(spec_parity_rec(cur, (32 - i) as nat) == (cur & 1u32) ^ s);
            assert((cur & 1) <= 1 && acc ^ ((cur & 1) ^ s) == (acc ^ (cur & 1)) ^ s && (acc <= 1
                && (cur & 1) <= 1 ==> (acc ^ (cur & 1)) <= 1)) by (bit_vector);
        }
        acc = acc ^ b;
        cur = cur >> 1u32;
        i += 1;
    }
    proof {
        let ghost sz = spec_parity_rec(cur, 0);
        assert(acc ^ sz == acc) by (bit_vector)
            requires
                sz == 0u32,
        ;
    }
    acc as u8
}

/// The parity (xor) of the low `n` bits of `v`.
pub open spec fn spec_parity_rec(v: u32, n: nat) -> u32
    decreases n,
{
    if n == 0 {
        0u32
    } else {
        (v & 1u32) ^ spec_parity_rec(v >> 1u32, (n - 1) as nat)
    }
}

/// The parity (xor) of all 32 bits of `v`.
pub open spec fn spec_parity(v: u32) -> u32 {
    spec_parity_rec(v, 32)
}

pub proof fn lemma_parity_rec_bound(v: u32, n: nat)
    ensures
        spec_parity_rec(v, n) <= 1,
    decreases n,
{
    if n > 0 {
        lemma_parity_rec_bound(v >> 1u32, (n - 1) as nat);
        let s = spec_parity_rec(v >> 1u32, (n - 1) as nat);
        assert(s <= 1 ==> ((v & 1u32) ^ s) <= 1) by (bit_vector);
    }
}

/// Parity distributes over xor.
pub proof fn lemma_parity_rec_xor(a: u32, b: u32, n: nat)
    ensures
        spec_parity_rec(a ^ b, n) == spec_parity_rec(a, n) ^ spec_parity_rec(b, n),
    decreases n,
{
    if n > 0 {
        lemma_parity_rec_xor(a >> 1u32, b >> 1u32, (n - 1) as nat);
        let ra = spec_parity_rec(a >> 1u32, (n - 1) as nat);
        let rb = spec_parity_rec(b >> 1u32, (n - 1) as nat);
        assert((a ^ b) >> 1u32 == (a >> 1u32) ^ (b >> 1u32) && ((a ^ b) & 1u32) == (a & 1u32) ^ (b
            & 1u32) && (((a & 1u32) ^ (b & 1u32)) ^ (ra ^ rb)) == (((a & 1u32) ^ ra) ^ ((b
            & 1u32) ^ rb))) by (bit_vector);
        assert(spec_parity_rec(a, n) == (a & 1u32) ^ ra);
        assert(spec_parity_rec(b, n) == (b & 1u32) ^ rb);
        assert(spec_parity_rec(a ^ b, n) == ((a ^ b) & 1u32) ^ spec_parity_rec(
            (a ^ b) >> 1u32,
            (n - 1) as nat,
        ));
    } else {
        assert(0u32 ^ 0u32 == 0u32) by (bit_vector);
    }
}

pub proof fn lemma_parity_rec_zero(n: nat)
    ensures
        spec_parity_rec(0u32, n) == 0,
    decreases n,
{
    if n > 0 {
        assert(0u32 >> 1u32 == 0u32 && 0u32 & 1u32 == 0u32 && 0u32 ^ 0u32 == 0u32)
            by (bit_vector);
        lemma_parity_rec_zero((n - 1) as nat);
    }
}

/// The parity of a word with a single set bit is one.
pub proof fn lemma_parity_single_bit(t: u32, n: nat)
    requires
        t < n <= 32,
    ensures
        spec_parity_rec(1u32 << t, n) == 1,
    decreases t,
{
    if t == 0 {
        assert((1u32 << 0u32) & 1u32 == 1u32 && (1u32 << 0u32) >> 1u32 == 0u32 && 1u32 ^ 0u32
            == 1u32) by (bit_vector);
        lemma_parity_rec_zero((n - 1) as nat);
    } else {
        lemma_parity_single_bit((t - 1) as u32, (n - 1) as nat);
        let s = spec_parity_rec(1u32 << ((t - 1) as u32), (n - 1) as nat);
        assert((1u32 << t) & 1u32 == 0u32 && (1u32 << t) >> 1u32 == 1u32 << ((t - 1) as u32) && (s
            == 1 ==> (0u32 ^ s) == 1)) by (bit_vector)
            requires
                0 < t < 32,
        ;
    }
}

/// Flipping one bit of `v` flips its parity.
pub proof fn lemma_parity_flip(v: u32, t: u32)
    requires
        t < 32,
    ensures
        spec_parity(v ^ (1u32 << t)) == spec_parity(v) ^ 1,
        spec_parity(v) ^ 1 != spec_parity(v),
{
    lemma_parity_rec_xor(v, 1u32 << t, 32);
    lemma_parity_single_bit(t, 32);
    lemma_parity_rec_bound(v, 32);
    let p = spec_parity(v);
    assert(p <= 1 ==> (p ^ 1u32) != p && (p ^ 1u32) <= 1) by (bit_vector);
}

/// Element-wise equality of two symbol slices.
pub fn bits_equal(a: &[u8], b: &[u8]) -> (r: bool)
    requires
        a@.len() == b@.len(),
    ensures
        r <==> a@ == b@,
{
    let mut i: usize = 0;
    let n = a.len();
    while i < n
        invariant
            i <= n,
            n == a@.len(),
            a@.len() == b@.len(),
            forall|k: int| 0 <= k < i ==> a@[k] == b@[k],
        decreases n - i,
    {
        if a[i] != b[i] {
            assert(a@ != b@);
            return false;
        }
        i += 1;
    }
    proof {
        assert(a@ =~= b@);
    }
    true
}

/// Element-wise opposition of two 0/1 symbol slices: every entry of `b`
/// is the complement of the entry of `a`.
pub fn bits_opposed(a: &[u8], b: &[u8]) -> (r: bool)
    requires
        a@.len() == b@.len(),
    ensures
        r <==> (forall|k: int| 0 <= k < a@.len() ==> b@[k] == a@[k] ^ 1),
{
    let mut i: usize = 0;
    let n = a.len();
    while i < n
        invariant
            i <= n,
            n == a@.len(),
            a@.len() == b@.len(),
            forall|k: int| 0 <= k < i ==> b@[k] == a@[k] ^ 1,
        decreases n - i,
    {
        if b[i] != a[i] ^ 1 {
            return false;
        }
        i += 1;
    }
    true
}

} // verus!
