//! Big-endian integers on the wire: how they are read from a byte sequence
//! and how they are written.

use vstd::prelude::*;

verus! {

/// The 16-bit big-endian integer at offset `i` of `s`.
pub open spec fn spec_u16_at(s: Seq<u8>, i: int) -> u16 {
    (s[i] * 0x100 + s[i + 1]) as u16
}

/// The 24-bit big-endian integer at offset `i` of `s`.
pub open spec fn spec_u24_at(s: Seq<u8>, i: int) -> u32 {
    (s[i] * 0x1_0000 + s[i + 1] * 0x100 + s[i + 2]) as u32
}

/// The 32-bit big-endian integer at offset `i` of `s`.
pub open spec fn spec_u32_at(s: Seq<u8>, i: int) -> u32 {
    (s[i] * 0x100_0000 + s[i + 1] * 0x1_0000 + s[i + 2] * 0x100 + s[i + 3]) as u32
}

/// The 64-bit big-endian integer at offset `i` of `s`.
pub open spec fn spec_u64_at(s: Seq<u8>, i: int) -> u64 {
    (spec_u32_at(s, i) * 0x1_0000_0000 + spec_u32_at(s, i + 4)) as u64
}

/// The two octets of `x`, most significant first.
pub open spec fn spec_u16_octets(x: u16) -> Seq<u8> {
    seq![(x / 0x100) as u8, (x % 0x100) as u8]
}

/// The three low octets of `x`, most significant first.
pub open spec fn spec_u24_octets(x: u32) -> Seq<u8> {
    seq![((x / 0x1_0000) % 0x100) as u8, ((x / 0x100) % 0x100) as u8, (x % 0x100) as u8]
}

/// The four octets of `x`, most significant first.
pub open spec fn spec_u32_octets(x: u32) -> Seq<u8> {
    seq![
        (x / 0x100_0000) as u8,
        ((x / 0x1_0000) % 0x100) as u8,
        ((x / 0x100) % 0x100) as u8,
        (x % 0x100) as u8,
    ]
}

/// The eight octets of `x`, most significant first.
pub open spec fn spec_u64_octets(x: u64) -> Seq<u8> {
    spec_u32_octets((x / 0x1_0000_0000) as u32) + spec_u32_octets((x % 0x1_0000_0000) as u32)
}

/// Reading back the octets of a 16-bit integer gives the integer.
pub proof fn lemma_u16_round_trip(x: u16, s: Seq<u8>, i: int)
    requires
        0 <= i,
        i + 2 <= s.len(),
        s.subrange(i, i + 2) == spec_u16_octets(x),
    ensures
        spec_u16_at(s, i) == x,
{
    let t = s.subrange(i, i + 2);
    assert(s[i] == t[0]);
    assert(s[i + 1] == t[1]);
}

/// Reading back the octets of an integer below 2^24 gives the integer.
pub proof fn lemma_u24_round_trip(x: u32, s: Seq<u8>, i: int)
    requires
        0 <= i,
        i + 3 <= s.len(),
        s.subrange(i, i + 3) == spec_u24_octets(x),
    ensures
        spec_u24_at(s, i) == x % 0x100_0000,
{
    let t = s.subrange(i, i + 3);
    assert(s[i] == t[0]);
    assert(s[i + 1] == t[1]);
    assert(s[i + 2] == t[2]);
}

/// Reading back the octets of a 32-bit integer gives the integer.
pub proof fn lemma_u32_round_trip(x: u32, s: Seq<u8>, i: int)
    requires
        0 <= i,
        i + 4 <= s.len(),
        s.subrange(i, i + 4) == spec_u32_octets(x),
    ensures
        spec_u32_at(s, i) == x,
{
    let t = s.subrange(i, i + 4);
    assert(s[i] == t[0]);
    assert(s[i + 1] == t[1]);
    assert(s[i + 2] == t[2]);
    assert(s[i + 3] == t[3]);
}

/// Reading back the octets of a 64-bit integer gives the integer.
pub proof fn lemma_u64_round_trip(x: u64, s: Seq<u8>, i: int)
    requires
        0 <= i,
        i + 8 <= s.len(),
        s.subrange(i, i + 8) == spec_u64_octets(x),
    ensures
        spec_u64_at(s, i) == x,
{
    let t = s.subrange(i, i + 8);
    let hi = (x / 0x1_0000_0000) as u32;
    let lo = (x % 0x1_0000_0000) as u32;
    assert(s.subrange(i, i + 4) =~= spec_u32_octets(hi)) by {
        assert forall|k: int| 0 <= k < 4 implies s.subrange(i, i + 4)[k] == spec_u32_octets(hi)[k] by {
            assert(s[i + k] == t[k]);
        }
    }
    assert(s.subrange(i + 4, i + 8) =~= spec_u32_octets(lo)) by {
        assert forall|k: int| 0 <= k < 4 implies s.subrange(i + 4, i + 8)[k] == spec_u32_octets(
            lo,
        )[k] by {
            assert(s[i + 4 + k] == t[4 + k]);
        }
    }
    lemma_u32_round_trip(hi, s, i);
    lemma_u32_round_trip(lo, s, i + 4);
}

/// Reads the 16-bit big-endian integer at offset `i` of `buf`.
pub fn unpack_u16(buf: &[u8], i: usize) -> (r: u16)
    requires
        i + 2 <= buf@.len(),
    ensures
        r == spec_u16_at(buf@, i as int),
{
    let b0: u16 = buf[i] as u16;
    let b1: u16 = buf[i + 1] as u16;
    b0 * 0x100 + b1
}

/// Reads the 24-bit big-endian integer at offset `i` of `buf`.
pub fn unpack_u24(buf: &[u8], i: usize) -> (r: u32)
    requires
        i + 3 <= buf@.len(),
    ensures
        r == spec_u24_at(buf@, i as int),
        r < 0x100_0000,
{
    let b0: u32 = buf[i] as u32;
    let b1: u32 = buf[i + 1] as u32;
    let b2: u32 = buf[i + 2] as u32;
    b0 * 0x1_0000 + b1 * 0x100 + b2
}

/// Reads the 32-bit big-endian integer at offset `i` of `buf`.
pub fn unpack_u32(buf: &[u8], i: usize) -> (r: u32)
    requires
        i + 4 <= buf@.len(),
    ensures
        r == spec_u32_at(buf@, i as int),
{
    let b0: u32 = buf[i] as u32;
    let b1: u32 = buf[i + 1] as u32;
    let b2: u32 = buf[i + 2] as u32;
    let b3: u32 = buf[i + 3] as u32;
    b0 * 0x100_0000 + b1 * 0x1_0000 + b2 * 0x100 + b3
}

/// Reads the 64-bit big-endian integer at offset `i` of `buf`.
pub fn unpack_u64(buf: &[u8], i: usize) -> (r: u64)
    requires
        i + 8 <= buf@.len(),
    ensures
        r == spec_u64_at(buf@, i as int),
{
    let n: usize = buf.len();
    let hi: u64 = unpack_u32(buf, i) as u64;
    let lo: u64 = unpack_u32(buf, i + 4) as u64;
    hi * 0x1_0000_0000 + lo
}

/// The two octets of `x`, most significant first.
pub fn u16_octets(x: u16) -> (r: [u8; 2])
    ensures
        r@ == spec_u16_octets(x),
{
    let r: [u8; 2] = [(x / 0x100) as u8, (x % 0x100) as u8];
    assert(r@ =~= spec_u16_octets(x));
    r
}

/// The three low octets of `x`, most significant first.
pub fn u24_octets(x: u32) -> (r: [u8; 3])
    ensures
        r@ == spec_u24_octets(x),
{
    let r: [u8; 3] = [
        ((x / 0x1_0000) % 0x100) as u8,
        ((x / 0x100) % 0x100) as u8,
        (x % 0x100) as u8,
    ];
    assert(r@ =~= spec_u24_octets(x));
    r
}

/// The four octets of `x`, most significant first.
pub fn u32_octets(x: u32) -> (r: [u8; 4])
    ensures
        r@ == spec_u32_octets(x),
{
    let r: [u8; 4] = [
        (x / 0x100_0000) as u8,
        ((x / 0x1_0000) % 0x100) as u8,
        ((x / 0x100) % 0x100) as u8,
        (x % 0x100) as u8,
    ];
    assert(r@ =~= spec_u32_octets(x));
    r
}

} // verus!
