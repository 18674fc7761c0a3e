use vstd::prelude::*;

use crate::buffer2d::{B2D, B2DO};
use crate::utils::{color_from_tuple, le_value, packed_color, read_u16, read_u32};

verus! {

/// The two bytes "BM" that open a bitmap file, read as a little-endian `u16`.
pub const SIGNATURE: u16 = 19778;

/// The size of the file header and the info header together.
pub const HEADER_SIZE: usize = 70;

/// Why a bitmap could not be decoded.
#[derive(Clone, Copy, Debug, PartialEq, Eq, Structural)]
pub enum BmpError {
    /// The bytes end before the header or the pixel data does.
    Truncated,
    /// The file does not open with `SIGNATURE`.
    BadSignature,
    /// Neither 24 nor 32 bits per pixel.
    UnsupportedBitDepth,
    /// Neither uncompressed (0) nor bit fields (3).
    UnsupportedCompression,
    /// A supported depth and compression that do not go together.
    BadCombination,
    /// An uncompressed 24-bit image that is not a square of a power of two.
    NotPowerOfTwo,
    /// A width or height that is not positive.
    BadSize,
}

/// The header fields that decoding reads.
pub open spec fn hdr_u16(b: Seq<u8>, off: int) -> int {
    le_value(b, off, 2) as int
}

pub open spec fn hdr_u32(b: Seq<u8>, off: int) -> int {
    le_value(b, off, 4) as int
}

/// A signed 32-bit header field.
pub open spec fn hdr_i32(b: Seq<u8>, off: int) -> int {
    if le_value(b, off, 4) < 0x8000_0000 {
        le_value(b, off, 4) as int
    } else {
        le_value(b, off, 4) - 0x1_0000_0000
    }
}

pub open spec fn bmp_width(b: Seq<u8>) -> int {
    hdr_i32(b, 18)
}

pub open spec fn bmp_height(b: Seq<u8>) -> int {
    hdr_i32(b, 22)
}

pub open spec fn bmp_bits(b: Seq<u8>) -> int {
    hdr_u16(b, 28)
}

pub open spec fn bmp_compression(b: Seq<u8>) -> int {
    hdr_u32(b, 30)
}

pub open spec fn bmp_data_offset(b: Seq<u8>) -> int {
    hdr_u32(b, 10)
}

/// Whether a positive `v` is a power of two: it shares no bit with `v - 1`.
pub open spec fn pow2_or_zero(v: int) -> bool {
    (v as i32) & ((v - 1) as i32) == 0
}

/// The error that decoding `b` ends in, if any, in the order the checks run.
pub open spec fn bmp_error(b: Seq<u8>) -> Option<BmpError> {
    let w = bmp_width(b);
    let h = bmp_height(b);
    let bpp = bmp_bits(b) / 8;
    if b.len() < HEADER_SIZE {
        Some(BmpError::Truncated)
    } else if hdr_u16(b, 0) != SIGNATURE {
        Some(BmpError::BadSignature)
    } else if bmp_bits(b) != 24 && bmp_bits(b) != 32 {
        Some(BmpError::UnsupportedBitDepth)
    } else if bmp_compression(b) != 0 && bmp_compression(b) != 3 {
        Some(BmpError::UnsupportedCompression)
    } else if w <= 0 || h <= 0 {
        Some(BmpError::BadSize)
    } else if bmp_data_offset(b) + w * h * bpp > b.len() {
        Some(BmpError::Truncated)
    } else if bmp_compression(b) == 0 && bmp_bits(b) == 24 {
        if w != h || !pow2_or_zero(w) {
            Some(BmpError::NotPowerOfTwo)
        } else {
            None
        }
    } else if bmp_compression(b) == 3 && bmp_bits(b) == 32 {
        None
    } else {
        Some(BmpError::BadCombination)
    }
}

/// A 5-5-5 color from 8-bit blue, green and red bytes at `off`.
pub open spec fn bgr_color(b: Seq<u8>, off: int) -> int {
    packed_color((b[off + 2] / 8) as u16, (b[off + 1] / 8) as u16, (b[off] / 8) as u16)
}

/// Where the color of pixel `(x, y)` of a decoded bitmap is read: an
/// uncompressed 24-bit image is read from its last pixel back, a 32-bit one
/// row by row from its last row back.
pub open spec fn bmp_source(b: Seq<u8>, x: int, y: int) -> int {
    let w = bmp_width(b);
    let h = bmp_height(b);
    let off = bmp_data_offset(b);
    if bmp_bits(b) == 24 {
        off + 3 * (w * h - 1 - (y * w + x))
    } else {
        off + 4 * ((h - 1 - y) * w + x)
    }
}

/// Decodes a bitmap file held in `bytes` into 5-5-5 colors.
pub fn decode_bmp(bytes: &[u8]) -> (r: Result<B2DO, BmpError>)
    ensures
        bmp_error(bytes@).is_some() ==> r == Err::<B2DO, BmpError>(bmp_error(bytes@).unwrap()),
        bmp_error(bytes@).is_none() ==> r.is_ok() && {
            let img = r.unwrap();
            &&& img.wf()
            &&& img.width == bmp_width(bytes@)
            &&& img.height == bmp_height(bytes@)
            &&& forall|x: int, y: int|
                img.in_bounds(x, y) ==> #[trigger] img.at(x, y) == bgr_color(
                    bytes@,
                    bmp_source(bytes@, x, y),
                )
        },
{
    let len = bytes.len();
    if len < HEADER_SIZE {
        return Err(BmpError::Truncated);
    }
    if read_u16(bytes, 0) != SIGNATURE {
        return Err(BmpError::BadSignature);
    }
    let bits = read_u16(bytes, 28);
    if bits != 24 && bits != 32 {
        return Err(BmpError::UnsupportedBitDepth);
    }
    let compression = read_u32(bytes, 30);
    if compression != 0 && compression != 3 {
        return Err(BmpError::UnsupportedCompression);
    }
    let w = signed32(read_u32(bytes, 18));
    let h = signed32(read_u32(bytes, 22));
    if w <= 0 || h <= 0 {
        return Err(BmpError::BadSize);
    }
    let offset = read_u32(bytes, 10);
    let bpp: u128 = (bits / 8) as u128;
    assert(w as int * h as int <= 0x8000_0000 * 0x8000_0000) by (nonlinear_arith)
        requires
            0 < w <= 0x8000_0000,
            0 < h <= 0x8000_0000,
    ;
    assert(w as int * h as int * bpp <= 0x8000_0000 * 0x8000_0000 * 4) by (nonlinear_arith)
        requires
            0 <= w as int * h as int <= 0x8000_0000 * 0x8000_0000,
            bpp <= 4,
    ;
    if offset as u128 + w as u128 * h as u128 * bpp > len as u128 {
        return Err(BmpError::Truncated);
    }
    let upside_down = compression == 0 && bits == 24;
    if upside_down {
        if w != h || w & (w - 1) != 0 {
            return Err(BmpError::NotPowerOfTwo);
        }
    } else if !(compression == 3 && bits == 32) {
        return Err(BmpError::BadCombination);
    }
    let ghost b = bytes@;
    let wu = w as usize;
    let hu = h as usize;
    let bp = (bits / 8) as usize;
    let off = offset as usize;
    let n = wu * hu;
    let mut pixels: Vec<u16> = Vec::new();
    let mut y: usize = 0;
    while y < hu
        invariant
            b == bytes@,
            len == b.len(),
            wu == bmp_width(b) && hu == bmp_height(b) && wu > 0 && hu > 0,
            n == wu * hu,
            off == bmp_data_offset(b),
            bp == bmp_bits(b) / 8,
            bp == 3 || bp == 4,
            bp == 3 <==> bmp_bits(b) == 24,
            off + n * bp <= len,
            y <= hu,
            pixels@.len() == y * wu,
            forall|px: int, py: int|
                0 <= px < wu && 0 <= py < y ==> #[trigger] pixels@[crate::utils::index_of(
                    px,
                    py,
                    wu as int,
                )] == bgr_color(b, bmp_source(b, px, py)),
        decreases hu - y,
    {
        let mut x: usize = 0;
        while x < wu
            invariant
                b == bytes@,
                len == b.len(),
                wu == bmp_width(b) && hu == bmp_height(b) && wu > 0 && hu > 0,
                n == wu * hu,
                off == bmp_data_offset(b),
                bp == bmp_bits(b) / 8,
                bp == 3 || bp == 4,
                bp == 3 <==> bmp_bits(b) == 24,
                off + n * bp <= len,
                y < hu,
                x <= wu,
                pixels@.len() == y * wu + x,
                forall|px: int, py: int|
                    0 <= px < wu && 0 <= py <= y && crate::utils::index_of(px, py, wu as int) < y
                        * wu + x ==> #[trigger] pixels@[crate::utils::index_of(px, py, wu as int)]
                        == bgr_color(b, bmp_source(b, px, py)),
            decreases wu - x,
        {
            proof {
                crate::buffer2d::lemma_index_in_grid(x as int, y as int, wu as int, hu as int);
                crate::buffer2d::lemma_index_in_grid(
                    x as int,
                    (hu - 1 - y) as int,
                    wu as int,
                    hu as int,
                );
                assert((n - 1 - (y * wu + x)) * 3 + 3 <= n * 3) by (nonlinear_arith)
                    requires
                        y * wu + x < n,
                ;
                assert(((hu - 1 - y) * wu + x) * 4 + 4 <= n * 4) by (nonlinear_arith)
                    requires
                        (hu - 1 - y) * wu + x < n,
                ;
            }
            let k = y * wu + x;
            let src = if bp == 3 {
                off + 3 * (n - 1 - k)
            } else {
                off + 4 * ((hu - 1 - y) * wu + x)
            };
            let c = color_from_tuple(
                ((bytes[src + 2] / 8) as u16, (bytes[src + 1] / 8) as u16, (bytes[src] / 8) as u16),
            );
            let ghost before = pixels@;
            pixels.push(c);
            proof {
                assert forall|px: int, py: int|
                    0 <= px < wu && 0 <= py <= y && crate::utils::index_of(px, py, wu as int) < y
                        * wu + x + 1 implies #[trigger] pixels@[crate::utils::index_of(
                    px,
                    py,
                    wu as int,
                )] == bgr_color(b, bmp_source(b, px, py)) by {
                    if crate::utils::index_of(px, py, wu as int) == k {
                        crate::buffer2d::lemma_index_unique(px, py, x as int, y as int, wu as int);
                    }
                }
            }
            x = x + 1;
        }
        proof {
            assert forall|px: int, py: int|
                0 <= px < wu && 0 <= py < y + 1 implies #[trigger] pixels@[crate::utils::index_of(
                px,
                py,
                wu as int,
            )] == bgr_color(b, bmp_source(b, px, py)) by {
                assert(py * wu <= y * wu) by (nonlinear_arith)
                    requires
                        py <= y,
                        wu > 0,
                ;
            }
            assert((y + 1) * wu == y * wu + wu) by (nonlinear_arith);
        }
        y = y + 1;
    }
    assert(hu * wu == wu * hu) by (nonlinear_arith);
    let img = B2D { width: w, height: h, pixels };
    assert(img.wf());
    assert(bmp_error(bytes@).is_none());
    Ok(img)
}

/// `v` read as a two's complement `i32`.
fn signed32(v: u32) -> (r: i32)
    ensures
        r as int == if v < 0x8000_0000 {
            v as int
        } else {
            v - 0x1_0000_0000
        },
{
    if v < 0x8000_0000 {
        v as i32
    } else {
        (v as i64 - 0x1_0000_0000) as i32
    }
}

} // verus!
