use vstd::prelude::*;

verus! {

/// Big-endian unsigned 16-bit value held by the two bytes at `i`.
pub open spec fn be_u16(d: Seq<u8>, i: int) -> int {
    d[i] * 256 + d[i + 1]
}

/// Big-endian unsigned 32-bit value held by the four bytes at `i`.
pub open spec fn be_u32(d: Seq<u8>, i: int) -> int {
    be_u16(d, i) * 0x10000 + be_u16(d, i + 2)
}

/// Big-endian unsigned 64-bit value held by the eight bytes at `i`.
pub open spec fn be_u64(d: Seq<u8>, i: int) -> int {
    be_u32(d, i) * 0x100000000 + be_u32(d, i + 4)
}

/// Two's-complement reading of an unsigned 8-bit value.
pub open spec fn as_i8(v: int) -> int {
    if v < 0x80 {
        v
    } else {
        v - 0x100
    }
}

/// Two's-complement reading of an unsigned 16-bit value.
pub open spec fn as_i16(v: int) -> int {
    if v < 0x8000 {
        v
    } else {
        v - 0x10000
    }
}

/// Two's-complement reading of an unsigned 64-bit value.
pub open spec fn as_i64(v: int) -> int {
    if v < 0x8000000000000000 {
        v
    } else {
        v - 0x10000000000000000
    }
}

/// Big-endian signed 16-bit value held by the two bytes at `i`.
pub open spec fn be_i16(d: Seq<u8>, i: int) -> int {
    as_i16(be_u16(d, i))
}

/// Big-endian signed 64-bit value held by the eight bytes at `i`.
pub open spec fn be_i64(d: Seq<u8>, i: int) -> int {
    as_i64(be_u64(d, i))
}

/// The sum `v`, wrapped into the value range of `i16`.
/// Sums of two in-range 16-bit values need at most one correction.
pub open spec fn wrap_i16(v: int) -> int {
    if v > 0x7fff {
        v - 0x10000
    } else if v < -0x8000 {
        v + 0x10000
    } else {
        v
    }
}

} // verus!
