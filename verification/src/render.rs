//! Painting a frame: one opaque gray pixel per index, the shade of each
//! chosen by the caller from the pixel's place relative to the center.

use vstd::prelude::*;
use rayon::iter::IndexedParallelIterator;
use rayon::iter::ParallelIterator;
use rayon::slice::ParallelSliceMut;
use crate::geometry::centered;
use crate::geometry::column_of;
use crate::geometry::frame_bytes;
use crate::geometry::index_of;
use crate::geometry::lemma_index_in_frame;
use crate::geometry::offset_from_center;
use crate::geometry::pixel_count;
use crate::geometry::pixel_position;
use crate::geometry::row_of;

verus! {

/// Alpha of every pixel that is painted: fully opaque.
pub const OPAQUE: u8 = 255;

/// The four bytes of an opaque gray pixel.
pub open spec fn gray(level: u8) -> Seq<u8> {
    seq![level, level, level, 255u8]
}

/// The four bytes of pixel `index` of a frame.
pub open spec fn pixel_at(frame: Seq<u8>, index: int) -> Seq<u8> {
    frame.subrange(4 * index, 4 * index + 4)
}

/// What a shading function is called with for pixel `index`: the pixel's
/// column and row, each counted from the center.
pub open spec fn shade_input(index: int, width: u32, height: u32) -> (i64, i64) {
    (
        centered(column_of(index, width), width) as i64,
        centered(row_of(index, width), height) as i64,
    )
}

/// Whether `shade` may be called for every pixel of a frame.
pub open spec fn shades_frame<F: Fn(i64, i64) -> u8>(shade: F, width: u32, height: u32) -> bool {
    forall|index: int|
        0 <= index < pixel_count(width, height) ==> call_requires(
            shade,
            #[trigger] shade_input(index, width, height),
        )
}

/// Whether `shade` gives each place one shade only.
pub open spec fn single_valued<F: Fn(i64, i64) -> u8>(shade: F) -> bool {
    forall|at: (i64, i64), first: u8, second: u8|
        call_ensures(shade, at, first) && call_ensures(shade, at, second) ==> first == second
}

/// Whether four bytes are pixel `index` as `shade` paints it: opaque gray,
/// of a level that `shade` gives for the pixel's place.
pub open spec fn painted<F: Fn(i64, i64) -> u8>(
    pixel: Seq<u8>,
    shade: F,
    index: int,
    width: u32,
    height: u32,
) -> bool {
    &&& pixel.len() == 4
    &&& pixel == gray(pixel[0])
    &&& call_ensures(shade, shade_input(index, width, height), pixel[0])
}

/// Whether a frame is painted by `shade` from its first pixel to its last.
pub open spec fn rendered<F: Fn(i64, i64) -> u8>(
    frame: Seq<u8>,
    shade: F,
    width: u32,
    height: u32,
) -> bool {
    &&& frame.len() == frame_bytes(width, height)
    &&& forall|index: int|
        0 <= index < pixel_count(width, height) ==> painted(
            #[trigger] pixel_at(frame, index),
            shade,
            index,
            width,
            height,
        )
}

/// Paints pixel `index` of a frame into its four bytes.
pub fn paint_pixel<F: Fn(i64, i64) -> u8>(
    pixel: &mut [u8],
    index: usize,
    width: u32,
    height: u32,
    shade: &F,
)
    requires
        old(pixel)@.len() == 4,
        index < pixel_count(width, height),
        call_requires(*shade, shade_input(index as int, width, height)),
    ensures
        painted(final(pixel)@, *shade, index as int, width, height),
{
    let (x, y) = pixel_position(index, width, height);
    let level = shade(offset_from_center(x, width), offset_from_center(y, height));
    pixel[0] = level;
    pixel[1] = level;
    pixel[2] = level;
    pixel[3] = OPAQUE;
    assert(pixel@ =~= gray(level));
}

/// Paints every pixel of a frame, handing the pixels out to rayon's worker
/// threads with `par_chunks_exact_mut`, `enumerate` and `for_each`.
///
/// Trusted: rayon cuts the frame into its consecutive chunks of four bytes,
/// numbers them from zero in the order in which they lie, runs the closure
/// once on each, and returns when all are done. Each chunk is then as
/// `paint_pixel` leaves the pixel of that number.
#[verifier::external_body]
pub(crate) fn paint_every_pixel<F: Fn(i64, i64) -> u8 + Sync>(
    frame: &mut [u8],
    width: u32,
    height: u32,
    shade: &F,
)
    requires
        old(frame)@.len() == frame_bytes(width, height),
        shades_frame(*shade, width, height),
    ensures
        rendered(final(frame)@, *shade, width, height),
{
    frame.par_chunks_exact_mut(4).enumerate().for_each(
        |(index, pixel)| paint_pixel(pixel, index, width, height, shade),
    );
}

/// In a rendered frame the pixel in column `x` of row `y` lies at byte
/// `4 * (y * width + x)`, is opaque gray, and has a level that the shading
/// function gives for the pixel's distance from the center.
pub proof fn lemma_rendered_pixel<F: Fn(i64, i64) -> u8>(
    frame: Seq<u8>,
    shade: F,
    width: u32,
    height: u32,
    x: int,
    y: int,
)
    requires
        rendered(frame, shade, width, height),
        0 <= x < width,
        0 <= y < height,
    ensures
        0 <= 4 * index_of(x, y, width),
        4 * index_of(x, y, width) + 4 <= frame.len(),
        frame[4 * index_of(x, y, width) + 1] == frame[4 * index_of(x, y, width)],
        frame[4 * index_of(x, y, width) + 2] == frame[4 * index_of(x, y, width)],
        frame[4 * index_of(x, y, width) + 3] == 255,
        call_ensures(
            shade,
            (centered(x, width) as i64, centered(y, height) as i64),
            frame[4 * index_of(x, y, width)],
        ),
{
    lemma_index_in_frame(x, y, width, height);
    let index = index_of(x, y, width);
    let pixel = pixel_at(frame, index);
    assert(painted(pixel, shade, index, width, height));
    assert(pixel[0] == frame[4 * index]);
    assert(pixel[1] == frame[4 * index + 1]);
    assert(pixel[2] == frame[4 * index + 2]);
    assert(pixel[3] == frame[4 * index + 3]);
}

/// A shading function that gives each place one shade leaves no choice: any
/// two frames of one size that it has rendered are equal byte for byte.
pub proof fn lemma_rendering_is_determined<F: Fn(i64, i64) -> u8>(
    first: Seq<u8>,
    second: Seq<u8>,
    shade: F,
    width: u32,
    height: u32,
)
    requires
        single_valued(shade),
        rendered(first, shade, width, height),
        rendered(second, shade, width, height),
    ensures
        first == second,
{
    assert forall|at: int| 0 <= at < first.len() implies first[at] == second[at] by {
        let index = at / 4;
        let a = pixel_at(first, index);
        let b = pixel_at(second, index);
        assert(painted(a, shade, index, width, height));
        assert(painted(b, shade, index, width, height));
        assert(a[0] == b[0]);
        assert(a[at - 4 * index] == first[at]);
        assert(b[at - 4 * index] == second[at]);
    }
    assert(first =~= second);
}

} // verus!
