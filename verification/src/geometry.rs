//! Layout of a frame: row-major pixels of four bytes each.

use vstd::prelude::*;
use vstd::arithmetic::div_mod::lemma_fundamental_div_mod;
use vstd::arithmetic::div_mod::lemma_fundamental_div_mod_converse;

verus! {

/// Bytes that one pixel takes in a frame: red, green, blue, alpha.
pub const BYTES_PER_PIXEL: usize = 4;

/// Number of pixels of a frame.
pub open spec fn pixel_count(width: u32, height: u32) -> int {
    width as int * height as int
}

/// Number of bytes of a frame.
pub open spec fn frame_bytes(width: u32, height: u32) -> int {
    4 * pixel_count(width, height)
}

/// Column of the pixel with the given row-major index.
pub open spec fn column_of(index: int, width: u32) -> int {
    index % (width as int)
}

/// Row of the pixel with the given row-major index.
pub open spec fn row_of(index: int, width: u32) -> int {
    index / (width as int)
}

/// Row-major index of the pixel in column `x` of row `y`.
pub open spec fn index_of(x: int, y: int, width: u32) -> int {
    y * (width as int) + x
}

/// Signed distance of a coordinate from the center line of its axis. The
/// center is the pixel at half the extent, rounded down.
pub open spec fn centered(coordinate: int, extent: u32) -> int {
    coordinate - (extent as int) / 2
}

/// Every index of a frame names a pixel inside it, and that pixel's
/// coordinates lead back to the index.
pub proof fn lemma_position_in_frame(index: int, width: u32, height: u32)
    requires
        0 <= index < pixel_count(width, height),
    ensures
        0 <= column_of(index, width) < width,
        0 <= row_of(index, width) < height,
        index_of(column_of(index, width), row_of(index, width), width) == index,
{
    let w = width as int;
    let h = height as int;
    assert(w > 0) by (nonlinear_arith)
        requires
            0 <= index < w * h,
            w >= 0,
            h >= 0,
    ;
    lemma_fundamental_div_mod(index, w);
    let q = index / w;
    assert(index == q * w + index % w) by (nonlinear_arith)
        requires
            index == w * q + index % w,
    ;
    assert(0 <= q < h) by (nonlinear_arith)
        requires
            index == q * w + index % w,
            0 <= index % w < w,
            0 <= index < w * h,
    ;
}

/// Every pixel of a frame has an index inside it, and the index leads back to
/// the pixel's coordinates.
pub proof fn lemma_index_in_frame(x: int, y: int, width: u32, height: u32)
    requires
        0 <= x < width,
        0 <= y < height,
    ensures
        0 <= index_of(x, y, width) < pixel_count(width, height),
        column_of(index_of(x, y, width), width) == x,
        row_of(index_of(x, y, width), width) == y,
{
    let w = width as int;
    let h = height as int;
    assert(0 <= y * w + x < w * h) by (nonlinear_arith)
        requires
            0 <= x < w,
            0 <= y < h,
    ;
    assert(y * w + x == w * y + x) by (nonlinear_arith);
    lemma_fundamental_div_mod_converse(y * w + x, w, y, x);
}

/// Two pixels of a frame with the same index are the same pixel: no index is
/// shared, so a pass over the indices meets each pixel once.
pub proof fn lemma_index_is_injective(x1: int, y1: int, x2: int, y2: int, width: u32, height: u32)
    requires
        0 <= x1 < width,
        0 <= y1 < height,
        0 <= x2 < width,
        0 <= y2 < height,
        index_of(x1, y1, width) == index_of(x2, y2, width),
    ensures
        x1 == x2,
        y1 == y2,
{
    lemma_index_in_frame(x1, y1, width, height);
    lemma_index_in_frame(x2, y2, width, height);
}

/// Length in bytes of a frame of the given size, or `None` where that length
/// cannot be held in a `usize`.
pub fn frame_len(width: u32, height: u32) -> (len: Option<usize>)
    ensures
        frame_bytes(width, height) <= usize::MAX ==> len == Some(frame_bytes(width, height) as usize),
        frame_bytes(width, height) > usize::MAX ==> len.is_none(),
{
    assert(width as int * height as int <= 0xffff_ffff * 0xffff_ffff) by (nonlinear_arith)
        requires
            0 <= width <= 0xffff_ffff,
            0 <= height <= 0xffff_ffff,
    ;
    let pixels: u64 = width as u64 * height as u64;
    if pixels > (usize::MAX / BYTES_PER_PIXEL) as u64 {
        None
    } else {
        Some(pixels as usize * BYTES_PER_PIXEL)
    }
}

/// Column and row of the pixel with the given row-major index.
pub fn pixel_position(index: usize, width: u32, height: u32) -> (at: (u32, u32))
    requires
        index < pixel_count(width, height),
    ensures
        at.0 == column_of(index as int, width),
        at.1 == row_of(index as int, width),
        at.0 < width,
        at.1 < height,
{
    proof {
        lemma_position_in_frame(index as int, width, height);
    }
    let w: usize = width as usize;
    ((index % w) as u32, (index / w) as u32)
}

/// Row-major index of the pixel in column `x` of row `y`.
pub fn pixel_index(x: u32, y: u32, width: u32, height: u32) -> (index: usize)
    requires
        x < width,
        y < height,
        pixel_count(width, height) <= usize::MAX,
    ensures
        index == index_of(x as int, y as int, width),
        index < pixel_count(width, height),
{
    proof {
        lemma_index_in_frame(x as int, y as int, width, height);
        assert(0 <= y as int * width as int <= index_of(x as int, y as int, width)) by (nonlinear_arith)
            requires
                0 <= x,
                0 <= y,
                0 <= width,
                index_of(x as int, y as int, width) == y as int * width as int + x as int,
        ;
    }
    y as usize * width as usize + x as usize
}

/// Signed distance of a coordinate from the center line of its axis.
pub fn offset_from_center(coordinate: u32, extent: u32) -> (offset: i64)
    ensures
        offset == centered(coordinate as int, extent),
{
    coordinate as i64 - (extent / 2) as i64
}

} // verus!
