//! IPv4 addresses as 32-bit numbers: the dotted-quad notation, and the
//! arithmetic of network prefixes.
//!
//! An address `a.b.c.d` is the number `a * 2^24 + b * 2^16 + c * 2^8 + d`, so
//! the numeric order of addresses is the order in which a range is walked.

use crate::text::{all_digits, decimal_value, parse_numeral, split, split_fields, windows};
use vstd::arithmetic::power2::*;
use vstd::prelude::*;

verus! {

/// `s` read as one octet of a dotted quad: one to three ASCII digits, without
/// a leading zero unless the octet is the single digit `0`, standing for a
/// number of at most 255.
pub open spec fn octet(s: Seq<char>) -> Option<u8> {
    if 1 <= s.len() <= 3 && all_digits(s) && (s.len() == 1 || s[0] != '0') && decimal_value(s)
        <= 255 {
        Some(decimal_value(s) as u8)
    } else {
        None
    }
}

/// The address whose four octets are `a`, `b`, `c` and `d`, most significant
/// first.
pub open spec fn pack(a: u8, b: u8, c: u8, d: u8) -> u32 {
    (a * 0x100_0000 + b * 0x1_0000 + c * 0x100 + d) as u32
}

/// `s` read as an IPv4 address in dotted-quad notation: exactly four octets
/// with a `.` between them and nothing else.
pub open spec fn dotted_quad(s: Seq<char>) -> Option<u32> {
    let f = split(s, '.');
    if f.len() == 4 && octet(f[0]) is Some && octet(f[1]) is Some && octet(f[2]) is Some && octet(
        f[3],
    ) is Some {
        Some(pack(octet(f[0])->0, octet(f[1])->0, octet(f[2])->0, octet(f[3])->0))
    } else {
        None
    }
}

/// The network mask of a prefix of `prefix` bits: that many leading one bits,
/// then zeros.
pub open spec fn netmask(prefix: u8) -> u32 {
    if prefix == 0 {
        0
    } else {
        u32::MAX << ((32 - prefix) as u32)
    }
}

/// The lowest address of the block that holds `address` under a prefix of
/// `prefix` bits: `address` with its host bits cleared.
pub open spec fn network_base(address: u32, prefix: u8) -> u32 {
    address & netmask(prefix)
}

/// Number of addresses in a block with a prefix of `prefix` bits.
pub open spec fn block_size(prefix: u8) -> nat {
    pow2((32 - prefix) as nat)
}

/// The addresses of the block that holds `address` under a prefix of
/// `prefix` bits, lowest first.
pub open spec fn block(address: u32, prefix: u8) -> Seq<u32> {
    Seq::new(block_size(prefix), |i: int| (network_base(address, prefix) + i) as u32)
}

/// A block lies within the 32-bit address space and holds the address it was
/// named by.
pub proof fn lemma_block_bounds(address: u32, prefix: u8)
    requires
        prefix <= 32,
    ensures
        0 < block_size(prefix) <= 0x1_0000_0000,
        network_base(address, prefix) <= address < network_base(address, prefix) + block_size(
            prefix,
        ) <= 0x1_0000_0000,
{
    lemma2_to64();
    lemma2_to64_rest();
    if prefix == 0 {
        assert(address & 0 == 0) by (bit_vector);
    } else {
        let h: u32 = (32 - prefix) as u32;
        let base: u32 = address & (u32::MAX << h);
        lemma_pow2_strictly_increases(h as nat, 32);
        lemma_pow2_pos(h as nat);
        vstd::bits::lemma_u32_shl_is_mul(1, h);
        assert(base <= address && address - base < (1u32 << h) && base + (1u32 << h)
            <= 0x1_0000_0000) by (bit_vector)
            requires
                h < 32,
                base == address & (u32::MAX << h),
        ;
    }
}

/// The address whose four octets are `a`, `b`, `c` and `d`, most significant
/// first.
pub fn pack_octets(a: u8, b: u8, c: u8, d: u8) -> (address: u32)
    ensures
        address == pack(a, b, c, d),
{
    let a: u32 = a as u32;
    let b: u32 = b as u32;
    let c: u32 = c as u32;
    let d: u32 = d as u32;
    a * 0x100_0000 + b * 0x1_0000 + c * 0x100 + d
}

/// Reads the window `[from, to)` of `text` as one octet of a dotted quad.
pub fn parse_octet(text: &Vec<char>, from: usize, to: usize) -> (value: Option<u8>)
    requires
        from <= to <= text.len(),
    ensures
        value == octet(text@.subrange(from as int, to as int)),
{
    if to - from > 3 {
        return None;
    }
    if to - from > 1 && text[from] == '0' {
        return None;
    }
    match parse_numeral(text, from, to, 255) {
        Some(n) => Some(n as u8),
        None => None,
    }
}

/// Reads the window `[from, to)` of `text` as an IPv4 address in dotted-quad
/// notation.
pub fn parse_dotted_quad(text: &Vec<char>, from: usize, to: usize) -> (address: Option<u32>)
    requires
        from <= to <= text.len(),
    ensures
        address == dotted_quad(text@.subrange(from as int, to as int)),
{
    let fields = split_fields(text, from, to, '.');
    if fields.len() != 4 {
        return None;
    }
    let ghost f = split(text@.subrange(from as int, to as int), '.');
    assert(forall|i: int| 0 <= i < 4 ==> f[i] == windows(text@, fields@)[i]);
    let a = parse_octet(text, fields[0].0, fields[0].1);
    let b = parse_octet(text, fields[1].0, fields[1].1);
    let c = parse_octet(text, fields[2].0, fields[2].1);
    let d = parse_octet(text, fields[3].0, fields[3].1);
    match (a, b, c, d) {
        (Some(a), Some(b), Some(c), Some(d)) => Some(pack_octets(a, b, c, d)),
        _ => None,
    }
}

} // verus!
