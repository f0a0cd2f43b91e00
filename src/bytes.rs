//! Little-endian reads and big-endian writes of 32-bit words over byte sequences.
use vstd::prelude::*;

verus! {

/// The unsigned value of the four bytes at `i..i + 4`, least significant byte first.
pub open spec fn le_u32_at(s: Seq<u8>, i: int) -> int {
    s[i] as int + 256 * (s[i + 1] as int) + 65536 * (s[i + 2] as int) + 16777216 * (s[i + 3] as int)
}

/// The unsigned value of the four bytes at `i..i + 4`, most significant byte first.
pub open spec fn be_u32_at(s: Seq<u8>, i: int) -> int {
    16777216 * (s[i] as int) + 65536 * (s[i + 1] as int) + 256 * (s[i + 2] as int) + s[i + 3] as int
}

/// The four bytes of `n`, most significant byte first.
pub open spec fn be_bytes(n: u32) -> Seq<u8> {
    seq![
        (n as int / 16777216) as u8,
        (n as int / 65536 % 256) as u8,
        (n as int / 256 % 256) as u8,
        (n as int % 256) as u8,
    ]
}

/// Reads the little-endian word at byte offset `off` of `data`, or `None` when fewer than
/// four bytes are left there.
pub fn read_u32_le(data: &[u8], off: u64) -> (r: Option<u32>)
    ensures
        r is Some <==> off + 4 <= data@.len(),
        r matches Some(v) ==> v as int == le_u32_at(data@, off as int),
{
    if off >= data.len() as u64 || data.len() as u64 - off < 4 {
        return None;
    }
    let i = off as usize;
    let b0 = data[i] as u32;
    let b1 = data[i + 1] as u32;
    let b2 = data[i + 2] as u32;
    let b3 = data[i + 3] as u32;
    Some(b0 + 256 * b1 + 65536 * b2 + 16777216 * b3)
}

/// Appends the four big-endian bytes of `n` to `out`.
pub fn push_u32_be(out: &mut Vec<u8>, n: u32)
    ensures
        final(out)@ == old(out)@ + be_bytes(n),
{
    let ghost start = out@;
    out.push((n / 16777216) as u8);
    out.push((n / 65536 % 256) as u8);
    out.push((n / 256 % 256) as u8);
    out.push((n % 256) as u8);
    assert(out@ =~= start + be_bytes(n));
}

/// Reads the big-endian word at byte offset `off` of `data`, or `None` when fewer than four
/// bytes are left there.
pub fn read_u32_be(data: &[u8], off: usize) -> (r: Option<u32>)
    ensures
        r is Some <==> off + 4 <= data@.len(),
        r matches Some(v) ==> v as int == be_u32_at(data@, off as int),
{
    if off >= data.len() || data.len() - off < 4 {
        return None;
    }
    let b0 = data[off] as u32;
    let b1 = data[off + 1] as u32;
    let b2 = data[off + 2] as u32;
    let b3 = data[off + 3] as u32;
    Some(16777216 * b0 + 65536 * b1 + 256 * b2 + b3)
}

/// The big-endian bytes of a word read back as a big-endian word give the word itself.
pub proof fn lemma_be_round_trip(n: u32, s: Seq<u8>, i: int)
    requires
        0 <= i,
        i + 4 <= s.len(),
        s.subrange(i, i + 4) == be_bytes(n),
    ensures
        be_u32_at(s, i) == n as int,
{
    assert(s[i] == s.subrange(i, i + 4)[0]);
    assert(s[i + 1] == s.subrange(i, i + 4)[1]);
    assert(s[i + 2] == s.subrange(i, i + 4)[2]);
    assert(s[i + 3] == s.subrange(i, i + 4)[3]);
    let x = n as int;
    assert(16777216 * (x / 16777216) + 65536 * (x / 65536 % 256) + 256 * (x / 256 % 256) + x % 256
        == x) by (nonlinear_arith)
        requires
            0 <= x < 0x1_0000_0000,
    ;
}

} // verus!
