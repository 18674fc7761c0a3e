use vstd::prelude::*;
use vstd::utf8::{decode_utf8, valid_utf8};

verus! {

/// The value of `n` little-endian bytes of `b` starting at `off`.
pub open spec fn le_value(b: Seq<u8>, off: int, n: nat) -> nat
    decreases n,
{
    if n == 0 {
        0
    } else {
        b[off] as nat + 256 * le_value(b, off + 1, (n - 1) as nat)
    }
}

/// Reads the byte at `offset`.
pub fn read_u8(buf: &[u8], offset: usize) -> (r: u8)
    requires
        offset < buf@.len(),
    ensures
        r as nat == le_value(buf@, offset as int, 1),
{
    proof {
        reveal_with_fuel(le_value, 2);
    }
    buf[offset]
}

/// Reads a little-endian `u16` at `offset`.
pub fn read_u16(buf: &[u8], offset: usize) -> (r: u16)
    requires
        offset + 2 <= buf@.len(),
    ensures
        r as nat == le_value(buf@, offset as int, 2),
{
    proof {
        reveal_with_fuel(le_value, 3);
    }
    buf[offset] as u16 + 256 * (buf[offset + 1] as u16)
}

/// Reads a little-endian two's complement `i16` at `offset`.
pub fn read_i16(buf: &[u8], offset: usize) -> (r: i16)
    requires
        offset + 2 <= buf@.len(),
    ensures
        r as int == if le_value(buf@, offset as int, 2) < 0x8000 {
            le_value(buf@, offset as int, 2) as int
        } else {
            le_value(buf@, offset as int, 2) - 0x10000
        },
{
    let u = read_u16(buf, offset);
    if u < 0x8000 {
        u as i16
    } else {
        (u as i32 - 0x10000) as i16
    }
}

/// Reads a little-endian `u32` at `offset`.
pub fn read_u32(buf: &[u8], offset: usize) -> (r: u32)
    requires
        offset + 4 <= buf@.len(),
    ensures
        r as nat == le_value(buf@, offset as int, 4),
{
    proof {
        reveal_with_fuel(le_value, 5);
    }
    let b0 = buf[offset] as u32;
    let b1 = buf[offset + 1] as u32;
    let b2 = buf[offset + 2] as u32;
    let b3 = buf[offset + 3] as u32;
    b0 + 256 * (b1 + 256 * (b2 + 256 * b3))
}

/// The bytes of `b[off..off + n]` with every zero byte left out.
pub open spec fn name_bytes(b: Seq<u8>, off: int, n: int) -> Seq<u8> {
    b.subrange(off, off + n).filter(|x: u8| x != 0)
}

/// Relies on `String::from_utf8`: it succeeds exactly on valid UTF-8 and then
/// holds the decoded characters.
#[verifier::external_body]
fn string_from_utf8(v: Vec<u8>) -> (r: Option<String>)
    ensures
        r.is_some() == valid_utf8(v@),
        r.is_some() ==> r.unwrap()@ == decode_utf8(v@),
{
    String::from_utf8(v).ok()
}

/// Collects the nonzero bytes of `buf[offset..offset + n]`.
pub fn nonzero_bytes(buf: &[u8], offset: usize, n: usize) -> (r: Vec<u8>)
    requires
        offset + n <= buf@.len(),
    ensures
        r@ == name_bytes(buf@, offset as int, n as int),
{
    let mut out: Vec<u8> = Vec::new();
    let len = buf.len();
    let mut i: usize = 0;
    while i < n
        invariant
            i <= n,
            len == buf@.len(),
            offset + n <= buf@.len(),
            out@ == buf@.subrange(offset as int, offset + i).filter(|x: u8| x != 0),
        decreases n - i,
    {
        let b = buf[offset + i];
        proof {
            let s = buf@.subrange(offset as int, offset + i + 1);
            assert(s.drop_last() =~= buf@.subrange(offset as int, offset + i));
            reveal(Seq::filter);
        }
        if b != 0 {
            out.push(b);
        }
        i = i + 1;
    }
    assert(buf@.subrange(offset as int, offset + n) =~= buf@.subrange(offset as int, offset + i));
    out
}

/// Reads a text field of 4 bytes at `offset`, without its NUL padding.
pub fn read_str_4bytes(buf: &[u8], offset: usize) -> (r: String)
    requires
        offset + 4 <= buf@.len(),
        valid_utf8(name_bytes(buf@, offset as int, 4)),
    ensures
        r@ == decode_utf8(name_bytes(buf@, offset as int, 4)),
{
    let bytes = nonzero_bytes(buf, offset, 4);
    let r = string_from_utf8(bytes);
    r.unwrap()
}

/// Reads a text field of 8 bytes at `offset`, without its NUL padding.
pub fn read_str_8bytes(buf: &[u8], offset: usize) -> (r: String)
    requires
        offset + 8 <= buf@.len(),
        valid_utf8(name_bytes(buf@, offset as int, 8)),
    ensures
        r@ == decode_utf8(name_bytes(buf@, offset as int, 8)),
{
    let bytes = nonzero_bytes(buf, offset, 8);
    let r = string_from_utf8(bytes);
    r.unwrap()
}

/// Whether `point` lies in the rectangle `(x, y, width, height)`, edges included.
pub fn is_inside(point: (i32, i32), rect: (i32, i32, i32, i32)) -> (r: bool)
    ensures
        r == (point.0 >= rect.0 && point.0 <= rect.0 + rect.2 && point.1 >= rect.1 && point.1
            <= rect.1 + rect.3),
{
    let px = point.0 as i64;
    let py = point.1 as i64;
    px >= rect.0 as i64 && px <= rect.0 as i64 + rect.2 as i64 && py >= rect.1 as i64 && py
        <= rect.1 as i64 + rect.3 as i64
}

/// The row-major index of pixel `(x, y)` in a buffer `width` cells wide.
pub open spec fn index_of(x: int, y: int, width: int) -> int {
    y * width + x
}

/// A product of two values of `i32` range fits comfortably in `i64`.
pub proof fn lemma_mul_i32(a: int, b: int)
    requires
        -0x8000_0000 <= a <= 0x8000_0000,
        -0x8000_0000 <= b <= 0x8000_0000,
    ensures
        -0x4000_0000_0000_0000 <= a * b <= 0x4000_0000_0000_0000,
{
    assert(-0x8000_0000 * 0x8000_0000 <= a * b <= 0x8000_0000 * 0x8000_0000) by (nonlinear_arith)
        requires
            -0x8000_0000 <= a <= 0x8000_0000,
            -0x8000_0000 <= b <= 0x8000_0000,
    ;
}

/// The flat index `y * width + x`.
pub fn calculate_index(x: i32, y: i32, width: i32) -> (r: usize)
    requires
        0 <= index_of(x as int, y as int, width as int) <= usize::MAX,
    ensures
        r as int == index_of(x as int, y as int, width as int),
{
    proof {
        lemma_mul_i32(y as int, width as int);
    }
    (y as i64 * width as i64 + x as i64) as usize
}

/// A 5-5-5 color from its red, green and blue channels; each is shifted into
/// place and the upper bits that leave the 16 bits are lost.
pub open spec fn packed_color(r: u16, g: u16, b: u16) -> int {
    (r as int % 64) * 1024 + (g as int % 2048) * 32 + b as int
}

/// Packs the channels `(r, g, b)` into one 16-bit color.
pub fn color_from_tuple(color: (u16, u16, u16)) -> (r: u16)
    requires
        packed_color(color.0, color.1, color.2) <= u16::MAX,
    ensures
        r as int == packed_color(color.0, color.1, color.2),
{
    (color.0 % 64) * 1024 + (color.1 % 2048) * 32 + color.2
}

} // verus!
