use vstd::prelude::*;

verus! {

/// The little-endian 16-bit value at `offset`, or 0 where two bytes are not there.
pub open spec fn spec_get_16bit(d: Seq<u8>, offset: int) -> u16 {
    if 0 <= offset && offset + 2 <= d.len() {
        (d[offset] as int + 256 * (d[offset + 1] as int)) as u16
    } else {
        0
    }
}

/// The little-endian 32-bit value at `offset` (two 16-bit halves, low half first),
/// or 0 where four bytes are not there.
pub open spec fn spec_get_32bit(d: Seq<u8>, offset: int) -> u32 {
    if 0 <= offset && offset + 4 <= d.len() {
        (spec_get_16bit(d, offset) as int + 65536 * (spec_get_16bit(d, offset + 2) as int)) as u32
    } else {
        0
    }
}

/// The byte at `offset`, or 0 past the end.
pub open spec fn byte_or_zero(d: Seq<u8>, offset: int) -> u8 {
    if 0 <= offset < d.len() {
        d[offset]
    } else {
        0
    }
}

/// Whether the byte at `offset` exists and is nonzero.
pub open spec fn flag_at(d: Seq<u8>, offset: int) -> bool {
    0 <= offset < d.len() && d[offset] != 0
}

/// Sum of all bytes, as a natural number.
pub open spec fn byte_sum(s: Seq<u8>) -> nat
    decreases s.len(),
{
    if s.len() == 0 {
        0
    } else {
        byte_sum(s.drop_last()) + s.last() as nat
    }
}

/// The additive checksum of the first `len` bytes (fewer where the data is shorter).
pub open spec fn spec_crc(d: Seq<u8>, len: int) -> u8 {
    let n = if len < d.len() { len } else { d.len() as int };
    (byte_sum(d.take(n)) % 256) as u8
}

/// A 300-byte response frame carries in byte 299 the checksum of bytes 0..299.
pub open spec fn spec_crc_ok(d: Seq<u8>) -> bool {
    d.len() >= 300 && spec_crc(d, 299) == d[299]
}

} // verus!
