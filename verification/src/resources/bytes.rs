use vstd::prelude::*;

verus! {

/// The little-endian 16-bit value at `off`.
pub open spec fn spec_le_u16(data: Seq<u8>, off: int) -> u16 {
    (data[off] + 256 * data[off + 1]) as u16
}

/// The little-endian 32-bit value at `off`.
pub open spec fn spec_le_u32(data: Seq<u8>, off: int) -> u32 {
    (data[off] + 256 * data[off + 1] + 65536 * data[off + 2] + 16777216 * data[off + 3]) as u32
}

/// Read a little-endian `u16`.
pub fn read_le_u16(data: &[u8], off: usize) -> (v: u16)
    requires
        off + 2 <= data@.len(),
    ensures
        v == spec_le_u16(data@, off as int),
        v as int == data@[off as int] + 256 * data@[off + 1],
{
    let b0 = data[off] as u16;
    let b1 = data[off + 1] as u16;
    b0 + b1 * 256
}

/// Read a little-endian `u32`.
pub fn read_le_u32(data: &[u8], off: usize) -> (v: u32)
    requires
        off + 4 <= data@.len(),
    ensures
        v == spec_le_u32(data@, off as int),
        v as int == data@[off as int] + 256 * data@[off + 1] + 65536 * data@[off + 2] + 16777216
            * data@[off + 3],
{
    let b0 = data[off] as u32;
    let b1 = data[off + 1] as u32;
    let b2 = data[off + 2] as u32;
    let b3 = data[off + 3] as u32;
    b0 + b1 * 256 + b2 * 65536 + b3 * 16777216
}

} // verus!
