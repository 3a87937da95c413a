use vstd::prelude::*;

verus! {

/// Whether `count` bytes starting at `pos` lie inside `bytes`.
pub open spec fn fits(bytes: Seq<u8>, pos: int, count: int) -> bool {
    0 <= pos && pos + count <= bytes.len()
}

/// The little-endian unsigned value of the `count` bytes at `pos`.
pub open spec fn le_value(bytes: Seq<u8>, pos: int, count: nat) -> nat
    decreases count,
{
    if count == 0 {
        0
    } else {
        bytes[pos] as nat + 256 * le_value(bytes, pos + 1, (count - 1) as nat)
    }
}

/// The two's complement value of the little-endian 16-bit word at `pos`.
pub open spec fn le_i16(bytes: Seq<u8>, pos: int) -> int {
    let v = le_value(bytes, pos, 2);
    if v >= 0x8000 {
        v - 0x10000
    } else {
        v as int
    }
}

/// `le_value` of `count` bytes is below `256^count`.
pub proof fn lemma_le_value_bound(bytes: Seq<u8>, pos: int, count: nat)
    requires
        fits(bytes, pos, count as int),
    ensures
        count == 1 ==> le_value(bytes, pos, count) < 0x100,
        count == 2 ==> le_value(bytes, pos, count) < 0x1_0000,
        count == 3 ==> le_value(bytes, pos, count) < 0x100_0000,
        count == 4 ==> le_value(bytes, pos, count) < 0x1_0000_0000,
    decreases count,
{
    if count > 0 {
        lemma_le_value_bound(bytes, pos + 1, (count - 1) as nat);
        reveal_with_fuel(le_value, 2);
    }
}

/// Splits an eight-byte value into its two four-byte halves.
pub proof fn lemma_le_value_split(bytes: Seq<u8>, pos: int, count: nat)
    requires
        fits(bytes, pos, count as int + 4),
    ensures
        le_value(bytes, pos, count + 4) == le_value(bytes, pos, count) + pow256(count)
            * le_value(bytes, pos + count, 4),
    decreases count,
{
    if count == 0 {
        assert(le_value(bytes, pos, 0) == 0);
        assert(pow256(0) == 1);
        let x = le_value(bytes, pos, 4);
        assert(pow256(0) * x == x) by (nonlinear_arith)
            requires
                pow256(0) == 1,
        ;
    } else {
        let c1 = (count - 1) as nat;
        let x = le_value(bytes, pos + count, 4);
        lemma_le_value_split(bytes, pos + 1, c1);
        assert(le_value(bytes, pos + 1, c1 + 4) == le_value(bytes, pos + 1, c1) + pow256(c1) * x);
        assert(le_value(bytes, pos, count + 4) == bytes[pos] as nat + 256 * le_value(
            bytes,
            pos + 1,
            c1 + 4,
        ));
        assert(le_value(bytes, pos, count) == bytes[pos] as nat + 256 * le_value(
            bytes,
            pos + 1,
            c1,
        ));
        assert(pow256(count) == 256 * pow256(c1));
        let l1 = le_value(bytes, pos + 1, c1);
        let p1 = pow256(c1);
        assert(256 * (l1 + p1 * x) == 256 * l1 + (256 * p1) * x) by (nonlinear_arith);
        assert(pow256(count) * x == (256 * p1) * x);
    }
}

/// `256^n`.
pub open spec fn pow256(n: nat) -> nat
    decreases n,
{
    if n == 0 {
        1
    } else {
        256 * pow256((n - 1) as nat)
    }
}

/// The byte at `pos`, if there is one.
pub fn read_u8(bytes: &[u8], pos: usize) -> (r: Option<u8>)
    ensures
        r is Some <==> fits(bytes@, pos as int, 1),
        r matches Some(v) ==> v == bytes@[pos as int],
{
    if pos < bytes.len() {
        Some(bytes[pos])
    } else {
        None
    }
}

/// The little-endian `u16` at `pos`, if two bytes are there.
pub fn read_u16(bytes: &[u8], pos: usize) -> (r: Option<u16>)
    ensures
        r is Some <==> fits(bytes@, pos as int, 2),
        r matches Some(v) ==> v == le_value(bytes@, pos as int, 2),
{
    if pos < bytes.len() && bytes.len() - pos >= 2 {
        reveal_with_fuel(le_value, 3);
        Some(bytes[pos] as u16 + 256 * (bytes[pos + 1] as u16))
    } else {
        None
    }
}

/// The little-endian `i16` at `pos`, if two bytes are there.
pub fn read_i16(bytes: &[u8], pos: usize) -> (r: Option<i16>)
    ensures
        r is Some <==> fits(bytes@, pos as int, 2),
        r matches Some(v) ==> v == le_i16(bytes@, pos as int),
{
    match read_u16(bytes, pos) {
        Some(v) => {
            if v >= 0x8000 {
                Some((v as i32 - 0x10000) as i16)
            } else {
                Some(v as i16)
            }
        },
        None => None,
    }
}

/// The little-endian 24-bit value at `pos`, if three bytes are there.
pub fn read_u24(bytes: &[u8], pos: usize) -> (r: Option<u32>)
    ensures
        r is Some <==> fits(bytes@, pos as int, 3),
        r matches Some(v) ==> v == le_value(bytes@, pos as int, 3),
{
    if pos < bytes.len() && bytes.len() - pos >= 3 {
        reveal_with_fuel(le_value, 4);
        Some(bytes[pos] as u32 + 256 * (bytes[pos + 1] as u32) + 0x1_0000 * (bytes[pos
            + 2] as u32))
    } else {
        None
    }
}

/// The little-endian `u32` at `pos`, if four bytes are there.
pub fn read_u32(bytes: &[u8], pos: usize) -> (r: Option<u32>)
    ensures
        r is Some <==> fits(bytes@, pos as int, 4),
        r matches Some(v) ==> v == le_value(bytes@, pos as int, 4),
{
    if pos < bytes.len() && bytes.len() - pos >= 4 {
        reveal_with_fuel(le_value, 5);
        Some(bytes[pos] as u32 + 256 * (bytes[pos + 1] as u32) + 0x1_0000 * (bytes[pos
            + 2] as u32) + 0x100_0000 * (bytes[pos + 3] as u32))
    } else {
        None
    }
}

/// The little-endian `u64` at `pos`, if eight bytes are there.
pub fn read_u64(bytes: &[u8], pos: usize) -> (r: Option<u64>)
    ensures
        r is Some <==> fits(bytes@, pos as int, 8),
        r matches Some(v) ==> v == le_value(bytes@, pos as int, 8),
{
    if pos < bytes.len() && bytes.len() - pos >= 8 {
        let lo = read_u32(bytes, pos).unwrap();
        let hi = read_u32(bytes, pos + 4).unwrap();
        proof {
            lemma_le_value_split(bytes@, pos as int, 4);
            reveal_with_fuel(pow256, 5);
        }
        Some(lo as u64 + 0x1_0000_0000 * (hi as u64))
    } else {
        None
    }
}

} // verus!
