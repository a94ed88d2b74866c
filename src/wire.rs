//! Big-endian reads from a byte slice and big-endian byte forms of integers.
use vstd::prelude::*;
use vstd::arithmetic::div_mod::lemma_fundamental_div_mod_converse;

verus! {

/// The unsigned value of the two bytes at `p`, most significant first.
pub open spec fn be16_at(s: Seq<u8>, p: int) -> int {
    s[p] * 256 + s[p + 1]
}

/// The unsigned value of the four bytes at `p`, most significant first.
pub open spec fn be32_at(s: Seq<u8>, p: int) -> int {
    s[p] * 16777216 + s[p + 1] * 65536 + s[p + 2] * 256 + s[p + 3]
}

/// The unsigned value of the eight bytes at `p`, most significant first.
pub open spec fn be64_at(s: Seq<u8>, p: int) -> int {
    be32_at(s, p) * 4294967296 + be32_at(s, p + 4)
}

/// The unsigned value of the sixteen bytes at `p`, most significant first.
pub open spec fn be128_at(s: Seq<u8>, p: int) -> int {
    be64_at(s, p) * 18446744073709551616 + be64_at(s, p + 8)
}

/// Two's complement reading of a 16-bit unsigned value.
pub open spec fn signed16(u: int) -> int {
    if u >= 32768 { u - 65536 } else { u }
}

/// Two's complement reading of a 32-bit unsigned value.
pub open spec fn signed32(u: int) -> int {
    if u >= 2147483648 { u - 4294967296 } else { u }
}

/// Two's complement reading of a byte.
pub open spec fn signed8(b: u8) -> i8 {
    (if b >= 128 { b - 256 } else { b as int }) as i8
}

/// The byte that holds `x` in two's complement.
pub open spec fn byte_of_i8(x: i8) -> u8 {
    (if x < 0 { x + 256 } else { x as int }) as u8
}

/// The two big-endian bytes of an unsigned value below 2^16.
pub open spec fn be16_bytes(u: int) -> Seq<u8> {
    seq![(u / 256) as u8, (u % 256) as u8]
}

/// The four big-endian bytes of an unsigned value below 2^32.
pub open spec fn be32_bytes(u: int) -> Seq<u8> {
    seq![(u / 16777216) as u8, (u / 65536 % 256) as u8, (u / 256 % 256) as u8, (u % 256) as u8]
}

/// The two big-endian bytes of `x` in two's complement.
pub open spec fn i16_bytes(x: i16) -> Seq<u8> {
    be16_bytes(if x < 0 { x + 65536 } else { x as int })
}

/// The four big-endian bytes of `x` in two's complement.
pub open spec fn i32_bytes(x: i32) -> Seq<u8> {
    be32_bytes(if x < 0 { x + 4294967296 } else { x as int })
}

/// The eight big-endian bytes of an unsigned value below 2^64.
pub open spec fn be64_bytes(u: int) -> Seq<u8> {
    be32_bytes(u / 4294967296) + be32_bytes(u % 4294967296)
}

/// The sixteen big-endian bytes of `x`.
pub open spec fn u128_bytes(x: u128) -> Seq<u8> {
    be64_bytes(x as int / 18446744073709551616) + be64_bytes(x as int % 18446744073709551616)
}

/// Compact encoding: a count byte holds the count plus one, and 0 means empty.
pub open spec fn compact_count(b: u8) -> int {
    if b == 0 { 0 } else { b - 1 }
}

/// Reads the byte at `pos`, if there is one.
pub fn read_u8(s: &[u8], pos: usize) -> (r: Option<u8>)
    ensures
        r == (if pos < s@.len() { Some(s@[pos as int]) } else { None::<u8> }),
{
    if pos < s.len() {
        Some(s[pos])
    } else {
        None
    }
}

/// Reads the big-endian 16-bit value at `pos`, if the slice holds it.
pub fn read_be16(s: &[u8], pos: usize) -> (r: Option<u16>)
    ensures
        r matches Some(v) ==> v == be16_at(s@, pos as int),
        r is Some <==> pos + 2 <= s@.len(),
{
    if pos < s.len() && s.len() - pos >= 2 {
        Some((s[pos] as u16) * 256 + (s[pos + 1] as u16))
    } else {
        None
    }
}

/// Reads the big-endian 32-bit value at `pos`, if the slice holds it.
pub fn read_be32(s: &[u8], pos: usize) -> (r: Option<u32>)
    ensures
        r matches Some(v) ==> v == be32_at(s@, pos as int),
        r is Some <==> pos + 4 <= s@.len(),
{
    if pos < s.len() && s.len() - pos >= 4 {
        Some((s[pos] as u32) * 16777216 + (s[pos + 1] as u32) * 65536 + (s[pos + 2] as u32) * 256
            + (s[pos + 3] as u32))
    } else {
        None
    }
}

/// Reads the big-endian 64-bit value at `pos`, if the slice holds it.
pub fn read_be64(s: &[u8], pos: usize) -> (r: Option<u64>)
    ensures
        r matches Some(v) ==> v == be64_at(s@, pos as int),
        r is Some <==> pos + 8 <= s@.len(),
{
    if pos < s.len() && s.len() - pos >= 8 {
        let hi = read_be32(s, pos).unwrap();
        let lo = read_be32(s, pos + 4).unwrap();
        Some((hi as u64) * 4294967296 + (lo as u64))
    } else {
        None
    }
}

/// Reads the big-endian 128-bit value at `pos`, if the slice holds it.
pub fn read_be128(s: &[u8], pos: usize) -> (r: Option<u128>)
    ensures
        r matches Some(v) ==> v == be128_at(s@, pos as int),
        r is Some <==> pos + 16 <= s@.len(),
{
    if pos < s.len() && s.len() - pos >= 16 {
        let hi = read_be64(s, pos).unwrap();
        let lo = read_be64(s, pos + 8).unwrap();
        Some((hi as u128) * 18446744073709551616 + (lo as u128))
    } else {
        None
    }
}

/// The value of a 16-bit two's complement bit pattern.
pub fn to_i16(u: u16) -> (r: i16)
    ensures
        r == signed16(u as int),
{
    if u >= 32768 {
        (u as i32 - 65536) as i16
    } else {
        u as i16
    }
}

/// The value of a 32-bit two's complement bit pattern.
pub fn to_i32(u: u32) -> (r: i32)
    ensures
        r == signed32(u as int),
{
    if u >= 2147483648 {
        (u as i64 - 4294967296) as i32
    } else {
        u as i32
    }
}

/// The value of a byte read as two's complement.
pub fn to_i8(b: u8) -> (r: i8)
    ensures
        r == signed8(b),
{
    if b >= 128 {
        (b as i16 - 256) as i8
    } else {
        b as i8
    }
}

/// The byte that holds `x` in two's complement.
pub fn i8_to_byte(x: i8) -> (r: u8)
    ensures
        r == byte_of_i8(x),
{
    if x < 0 {
        (x as i16 + 256) as u8
    } else {
        x as u8
    }
}

/// The big-endian bytes of `x` in two's complement.
pub fn i16_be(x: i16) -> (r: [u8; 2])
    ensures
        r@ == i16_bytes(x),
{
    let u: u32 = if x < 0 { (x as i32 + 65536) as u32 } else { x as u32 };
    let r: [u8; 2] = [(u / 256) as u8, (u % 256) as u8];
    assert(r@ =~= i16_bytes(x));
    r
}

/// The big-endian bytes of `x` in two's complement.
pub fn i32_be(x: i32) -> (r: [u8; 4])
    ensures
        r@ == i32_bytes(x),
{
    let u: u64 = if x < 0 { (x as i64 + 4294967296) as u64 } else { x as u64 };
    let r: [u8; 4] = [
        (u / 16777216) as u8,
        (u / 65536 % 256) as u8,
        (u / 256 % 256) as u8,
        (u % 256) as u8,
    ];
    assert(r@ =~= i32_bytes(x));
    r
}

/// The big-endian bytes of `x`.
pub fn u128_be(x: u128) -> (r: [u8; 16])
    ensures
        r@ == u128_bytes(x),
{
    let hi: u64 = (x / 18446744073709551616) as u64;
    let lo: u64 = (x % 18446744073709551616) as u64;
    let h1: u64 = hi / 4294967296;
    let h2: u64 = hi % 4294967296;
    let l1: u64 = lo / 4294967296;
    let l2: u64 = lo % 4294967296;
    let r: [u8; 16] = [
        (h1 / 16777216) as u8,
        (h1 / 65536 % 256) as u8,
        (h1 / 256 % 256) as u8,
        (h1 % 256) as u8,
        (h2 / 16777216) as u8,
        (h2 / 65536 % 256) as u8,
        (h2 / 256 % 256) as u8,
        (h2 % 256) as u8,
        (l1 / 16777216) as u8,
        (l1 / 65536 % 256) as u8,
        (l1 / 256 % 256) as u8,
        (l1 % 256) as u8,
        (l2 / 16777216) as u8,
        (l2 / 65536 % 256) as u8,
        (l2 / 256 % 256) as u8,
        (l2 % 256) as u8,
    ];
    assert(r@ =~= u128_bytes(x));
    r
}

/// The compact count that a count byte stands for.
pub fn compact_len(b: u8) -> (r: usize)
    ensures
        r == compact_count(b),
{
    if b == 0 {
        0
    } else {
        (b - 1) as usize
    }
}

/// Appends the bytes of `src` to `buf`.
pub fn push_all(buf: &mut Vec<u8>, src: &[u8])
    ensures
        final(buf)@ == old(buf)@ + src@,
{
    let mut i: usize = 0;
    while i < src.len()
        invariant
            i <= src@.len(),
            buf@ == old(buf)@ + src@.subrange(0, i as int),
        decreases src@.len() - i,
    {
        buf.push(src[i]);
        i = i + 1;
        assert(src@.subrange(0, i as int) =~= src@.subrange(0, i - 1) + seq![src@[i - 1]]);
    }
    assert(src@.subrange(0, src@.len() as int) =~= src@);
}

/// Copies `n` bytes from `pos`, if the slice holds them.
pub fn read_bytes(s: &[u8], pos: usize, n: usize) -> (r: Option<Vec<u8>>)
    ensures
        r is Some <==> pos + n <= s@.len(),
        r matches Some(v) ==> v@ == s@.subrange(pos as int, pos + n),
{
    if pos > s.len() || s.len() - pos < n {
        return None;
    }
    let mut v: Vec<u8> = Vec::new();
    let mut i: usize = 0;
    while i < n
        invariant
            i <= n,
            pos + n <= s.len(),
            v@ == s@.subrange(pos as int, pos + i),
        decreases n - i,
    {
        v.push(s[pos + i]);
        i = i + 1;
        assert(v@ =~= s@.subrange(pos as int, pos + i));
    }
    Some(v)
}

/// Four bytes read as a signed 32-bit value and written back give the same
/// four bytes.
pub proof fn lemma_i32_round_trip(s: Seq<u8>, p: int)
    requires
        0 <= p,
        p + 4 <= s.len(),
    ensures
        i32_bytes(signed32(be32_at(s, p)) as i32) == s.subrange(p, p + 4),
{
    let u = be32_at(s, p);
    let (b0, b1, b2, b3) = (s[p] as int, s[p + 1] as int, s[p + 2] as int, s[p + 3] as int);
    lemma_fundamental_div_mod_converse(u, 16777216, b0, b1 * 65536 + b2 * 256 + b3);
    lemma_fundamental_div_mod_converse(u, 65536, b0 * 256 + b1, b2 * 256 + b3);
    lemma_fundamental_div_mod_converse(b0 * 256 + b1, 256, b0, b1);
    lemma_fundamental_div_mod_converse(u, 256, b0 * 65536 + b1 * 256 + b2, b3);
    lemma_fundamental_div_mod_converse(b0 * 65536 + b1 * 256 + b2, 256, b0 * 256 + b1, b2);
    assert(i32_bytes(signed32(u) as i32) =~= s.subrange(p, p + 4));
}

} // verus!
