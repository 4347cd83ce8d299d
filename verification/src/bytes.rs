//! Little-endian integers in byte sequences.

use vstd::prelude::*;

verus! {

/// The 16-bit number whose bytes start at `at`, least significant first.
pub open spec fn le16(s: Seq<u8>, at: int) -> int {
    s[at] + 0x100 * s[at + 1]
}

/// The 32-bit number whose bytes start at `at`, least significant first.
pub open spec fn le32(s: Seq<u8>, at: int) -> int {
    le16(s, at) + 0x1_0000 * le16(s, at + 2)
}

/// The 64-bit number whose bytes start at `at`, least significant first.
pub open spec fn le64(s: Seq<u8>, at: int) -> int {
    le32(s, at) + 0x1_0000_0000 * le32(s, at + 4)
}

/// The number that the bits of `v` stand for in two's complement.
pub open spec fn signed(v: int) -> int {
    if v < 0x8000_0000_0000_0000 {
        v
    } else {
        v - 0x1_0000_0000_0000_0000
    }
}

/// The bits that stand for `v` in two's complement, as a number.
pub open spec fn unsigned(v: int) -> int {
    if v < 0 {
        v + 0x1_0000_0000_0000_0000
    } else {
        v
    }
}

/// The eight bytes of `v`, least significant first.
pub open spec fn le_bytes(v: u64) -> Seq<u8> {
    seq![
        (v % 0x100) as u8,
        (v / 0x100 % 0x100) as u8,
        (v / 0x1_0000 % 0x100) as u8,
        (v / 0x100_0000 % 0x100) as u8,
        (v / 0x1_0000_0000 % 0x100) as u8,
        (v / 0x100_0000_0000 % 0x100) as u8,
        (v / 0x1_0000_0000_0000 % 0x100) as u8,
        (v / 0x100_0000_0000_0000 % 0x100) as u8,
    ]
}

/// A number is read back from the bytes that it was written to.
pub proof fn law_write_then_read(v: u64)
    ensures
        le64(le_bytes(v), 0) == v,
{
    let q1 = v / 0x100;
    let q2 = v / 0x1_0000;
    let q3 = v / 0x100_0000;
    let q4 = v / 0x1_0000_0000;
    let q5 = v / 0x100_0000_0000;
    let q6 = v / 0x1_0000_0000_0000;
    let q7 = v / 0x100_0000_0000_0000;
    assert(q2 == q1 / 0x100);
    assert(q3 == q2 / 0x100);
    assert(q4 == q3 / 0x100);
    assert(q5 == q4 / 0x100);
    assert(q6 == q5 / 0x100);
    assert(q7 == q6 / 0x100);
    assert(q7 < 0x100);
    let s = le_bytes(v);
    assert(s[6] + 0x100 * s[7] == q6);
    assert(s[5] + 0x100 * q6 == q5);
    assert(s[4] + 0x100 * q5 == q4);
    assert(s[3] + 0x100 * q4 == q3);
    assert(s[2] + 0x100 * q3 == q2);
    assert(s[1] + 0x100 * q2 == q1);
    assert(s[0] + 0x100 * q1 == v);
    assert(le32(s, 4) == q4);
}

/// Reads the 32-bit number that starts at `at`.
fn read_u32(s: &[u8], at: usize) -> (r: u32)
    requires
        at + 4 <= s@.len(),
    ensures
        r == le32(s@, at as int),
{
    s[at] as u32 + 0x100 * s[at + 1] as u32 + 0x1_0000 * s[at + 2] as u32 + 0x100_0000
        * s[at + 3] as u32
}

/// Reads the 64-bit number that starts at `at`.
pub fn read_u64(s: &[u8], at: usize) -> (r: u64)
    requires
        at + 8 <= s@.len(),
    ensures
        r == le64(s@, at as int),
{
    assert(s@.len() == s.len());
    read_u32(s, at) as u64 + 0x1_0000_0000 * read_u32(s, at + 4) as u64
}

/// The bytes of `v`, least significant first.
pub fn to_le_bytes(v: u64) -> (r: Vec<u8>)
    ensures
        r@ == le_bytes(v),
{
    let mut r: Vec<u8> = Vec::new();
    r.push((v % 0x100) as u8);
    r.push((v / 0x100 % 0x100) as u8);
    r.push((v / 0x1_0000 % 0x100) as u8);
    r.push((v / 0x100_0000 % 0x100) as u8);
    r.push((v / 0x1_0000_0000 % 0x100) as u8);
    r.push((v / 0x100_0000_0000 % 0x100) as u8);
    r.push((v / 0x1_0000_0000_0000 % 0x100) as u8);
    r.push((v / 0x100_0000_0000_0000 % 0x100) as u8);
    r
}

/// Reads the bits of `v` as a signed number.
pub fn to_signed(v: u64) -> (r: i64)
    ensures
        r == signed(v as int),
{
    if v < 0x8000_0000_0000_0000 {
        v as i64
    } else {
        -((u64::MAX - v) as i64) - 1
    }
}

/// Reads the bits of `v` as an unsigned number.
pub fn to_unsigned(v: i64) -> (r: u64)
    ensures
        r == unsigned(v as int),
{
    if v < 0 {
        u64::MAX - (-(v + 1)) as u64
    } else {
        v as u64
    }
}

/// Adds two numbers unless the sum leaves the machine word.
pub fn checked_sum(a: usize, b: usize) -> (r: Option<usize>)
    ensures
        r == (if a + b <= usize::MAX { Some((a + b) as usize) } else { None::<usize> }),
{
    a.checked_add(b)
}

// ---------- Laws ----------

/// The bytes of a number come least significant first: each weighs 256 times as
/// much as the one before.
pub proof fn law_little_endian(s: Seq<u8>, at: int)
    ensures
        le16(s, at) == s[at] + 0x100 * s[at + 1],
        le32(s, at) == s[at] + 0x100 * s[at + 1] + 0x1_0000 * s[at + 2] + 0x100_0000 * s[at + 3],
        le64(s, at) == s[at] + 0x100 * s[at + 1] + 0x1_0000 * s[at + 2] + 0x100_0000 * s[at + 3]
            + 0x1_0000_0000 * s[at + 4] + 0x100_0000_0000 * s[at + 5] + 0x1_0000_0000_0000 * s[at
            + 6] + 0x100_0000_0000_0000 * s[at + 7],
        0 <= le64(s, at) <= u64::MAX,
{
}

/// The eight bytes that are written for a number weigh as much as the number.
pub proof fn law_written(v: u64)
    ensures
        le_bytes(v).len() == 8,
        v == le_bytes(v)[0] + 0x100 * le_bytes(v)[1] + 0x1_0000 * le_bytes(v)[2] + 0x100_0000
            * le_bytes(v)[3] + 0x1_0000_0000 * le_bytes(v)[4] + 0x100_0000_0000 * le_bytes(v)[5]
            + 0x1_0000_0000_0000 * le_bytes(v)[6] + 0x100_0000_0000_0000 * le_bytes(v)[7],
{
    law_write_then_read(v);
    law_little_endian(le_bytes(v), 0);
}

/// The signed number of 64 bits is the one in the signed range that differs from
/// the unsigned one by a multiple of 2^64, and the other way round.
pub proof fn law_twos_complement(v: u64, w: i64)
    ensures
        i64::MIN <= signed(v as int) <= i64::MAX,
        signed(v as int) == v || signed(v as int) == v - 0x1_0000_0000_0000_0000,
        0 <= unsigned(w as int) <= u64::MAX,
        unsigned(w as int) == w || unsigned(w as int) == w + 0x1_0000_0000_0000_0000,
        signed(unsigned(w as int)) == w,
        unsigned(signed(v as int)) == v,
{
}

} // verus!
