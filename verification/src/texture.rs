//! The minimal uncompressed-bitmap header reader: a signature check and
//! three little-endian fields at fixed offsets. Pixel rows are consumed
//! as-is by the backend (no row-padding correction), so only the header is
//! interpreted here.

use vstd::prelude::*;
use crate::error::LoadError;

verus! {

/// Size in bytes of the fixed header this reader understands.
pub const BMP_HEADER_LEN: usize = 54;

/// The little-endian 32-bit value at `off`.
pub open spec fn le_u32(s: Seq<u8>, off: int) -> int {
    s[off] as int + 256 * s[off + 1] as int + 65536 * s[off + 2] as int + 16777216 * s[off
        + 3] as int
}

/// The signed reading of a 32-bit value (two's complement).
pub open spec fn as_signed_32(v: int) -> int {
    if v < 0x8000_0000 {
        v
    } else {
        v - 0x1_0000_0000
    }
}

/// Whether the bytes carry the bitmap signature and a complete header,
/// and the pixel data offset points inside the bytes.
pub open spec fn bmp_acceptable(s: Seq<u8>) -> bool {
    &&& s.len() >= BMP_HEADER_LEN as int
    &&& s[0] == 66u8
    &&& s[1] == 77u8
    &&& le_u32(s, 10) <= s.len()
}

/// The decoded header: pixel dimensions (signed, as the format stores
/// them) and the offset of the pixel data within the resource bytes.
#[derive(Clone, Copy, PartialEq, Eq, Structural, Debug)]
pub struct BmpHeader {
    pub width: i32,
    pub height: i32,
    pub data_offset: usize,
}

/// Reads the 32-bit little-endian field at `off`.
fn read_le_u32(bytes: &Vec<u8>, off: usize) -> (r: u32)
    requires
        off + 4 <= bytes@.len(),
    ensures
        r as int == le_u32(bytes@, off as int),
{
    let n: usize = bytes.len();
    assert(off + 4 <= n);
    let b0: u32 = bytes[off] as u32;
    let b1: u32 = bytes[off + 1] as u32;
    let b2: u32 = bytes[off + 2] as u32;
    let b3: u32 = bytes[off + 3] as u32;
    b0 + 256 * b1 + 65536 * b2 + 16777216 * b3
}

/// Reads the field at `off` as a signed 32-bit value.
fn read_le_i32(bytes: &Vec<u8>, off: usize) -> (r: i32)
    requires
        off + 4 <= bytes@.len(),
    ensures
        r as int == as_signed_32(le_u32(bytes@, off as int)),
{
    let v: u32 = read_le_u32(bytes, off);
    if v <= 0x7FFF_FFFF {
        v as i32
    } else {
        let w: i64 = (v as i64) - 0x1_0000_0000i64;
        w as i32
    }
}

/// Decodes the header of a bitmap resource: the signature must read "BM",
/// the header must be complete, and the pixel data offset must not point
/// past the end; anything else is an unsupported image. On success the
/// returned fields are exactly the stored little-endian values.
pub fn parse_bmp_header(bytes: &Vec<u8>) -> (r: Result<BmpHeader, LoadError>)
    ensures
        r is Ok <==> bmp_acceptable(bytes@),
        r is Err ==> r == Result::<BmpHeader, LoadError>::Err(LoadError::UnsupportedImageFormat),
        r matches Ok(h) ==> {
            &&& h.width as int == as_signed_32(le_u32(bytes@, 18))
            &&& h.height as int == as_signed_32(le_u32(bytes@, 22))
            &&& h.data_offset as int == le_u32(bytes@, 10)
            &&& h.data_offset <= bytes@.len()
        },
{
    if bytes.len() < BMP_HEADER_LEN {
        return Err(LoadError::UnsupportedImageFormat);
    }
    if bytes[0] != 66u8 || bytes[1] != 77u8 {
        return Err(LoadError::UnsupportedImageFormat);
    }
    let data_offset_raw: u32 = read_le_u32(bytes, 10);
    if !(data_offset_raw as usize <= bytes.len()) {
        return Err(LoadError::UnsupportedImageFormat);
    }
    let width: i32 = read_le_i32(bytes, 18);
    let height: i32 = read_le_i32(bytes, 22);
    Ok(BmpHeader { width, height, data_offset: data_offset_raw as usize })
}

} // verus!
