//! Transparency in frames: marking the pixels that are transparent, and cropping a frame to
//! the part that is not.

use crate::giffel::image::{lemma_pixel_index_in_bounds, Image};
use vstd::prelude::*;

verus! {

/// A rectangle of an image: its left column, its top row, and its size.
#[derive(Debug, Clone, Copy, PartialEq, Eq)]
pub struct Rect {
    pub x: usize,
    pub y: usize,
    pub width: usize,
    pub height: usize,
}

/// The color index that stands for transparency.
pub const TRANSPARENT: u8 = 255;

/// Whether the image has a pixel at the given column and row that is not transparent.
pub open spec fn opaque_at(image: Image<u8>, x: int, y: int) -> bool {
    0 <= x < image.width && 0 <= y < image.height && image.pixels[x + y * image.width]
        != TRANSPARENT
}

/// Whether the rectangle is the smallest that holds every pixel of the image that is not
/// transparent: it holds them all, and each of its four sides touches one of them.
pub open spec fn is_opaque_frame(image: Image<u8>, rect: Rect) -> bool {
    let left = rect.x as int;
    let right = rect.x + rect.width - 1;
    let top = rect.y as int;
    let bottom = rect.y + rect.height - 1;
    &&& rect.width > 0
    &&& rect.height > 0
    &&& rect.x + rect.width <= image.width
    &&& rect.y + rect.height <= image.height
    &&& forall|x: int, y: int| #[trigger]
        opaque_at(image, x, y) ==> rect.x <= x < rect.x + rect.width && rect.y <= y < rect.y
            + rect.height
    &&& exists|y: int| #[trigger] opaque_at(image, left, y)
    &&& exists|y: int| #[trigger] opaque_at(image, right, y)
    &&& exists|x: int| #[trigger] opaque_at(image, x, top)
    &&& exists|x: int| #[trigger] opaque_at(image, x, bottom)
}

/// Whether the rectangle lies within the image.
pub open spec fn fits(image: Image<u8>, rect: Rect) -> bool {
    rect.x + rect.width <= image.width && rect.y + rect.height <= image.height
}

/// The first and the last column of a row that hold a pixel which is not transparent;
/// the width and 0 where the row has none.
fn row_extent(image: &Image<u8>, y: usize) -> (extent: (usize, usize))
    requires
        image.wf(),
        y < image.height,
    ensures
        extent.0 <= image.width,
        extent.1 < image.width || extent.1 == 0,
        forall|x: int| 0 <= x < extent.0 ==> !opaque_at(*image, x, y as int),
        forall|x: int| extent.1 < x < image.width ==> !opaque_at(*image, x, y as int),
        extent.0 < image.width ==> opaque_at(*image, extent.0 as int, y as int) && opaque_at(
            *image,
            extent.1 as int,
            y as int,
        ) && extent.0 <= extent.1,
        extent.0 == image.width ==> extent.1 == 0,
{
    let mut first: usize = image.width;
    let mut last: usize = 0;
    let mut x: usize = 0;
    while x < image.width
        invariant
            x <= image.width,
            image.wf(),
            y < image.height,
            first <= image.width,
            first == image.width ==> last == 0,
            first < image.width ==> first <= last < x,
            forall|k: int| 0 <= k < x && k < first ==> !opaque_at(*image, k, y as int),
            forall|k: int| last < k < x ==> !opaque_at(*image, k, y as int),
            first < image.width ==> opaque_at(*image, first as int, y as int) && opaque_at(
                *image,
                last as int,
                y as int,
            ),
            first == image.width ==> forall|k: int| 0 <= k < x ==> !opaque_at(*image, k, y as int),
        decreases image.width - x,
    {
        if *image.index((x, y)) != TRANSPARENT {
            if first == image.width {
                first = x;
            }
            last = x;
        }
        x = x + 1;
    }
    (first, last)
}

/// The first and the last row of a column that hold a pixel which is not transparent;
/// the height and 0 where the column has none.
fn column_extent(image: &Image<u8>, x: usize) -> (extent: (usize, usize))
    requires
        image.wf(),
        x < image.width,
    ensures
        extent.0 <= image.height,
        extent.1 < image.height || extent.1 == 0,
        forall|y: int| 0 <= y < extent.0 ==> !opaque_at(*image, x as int, y),
        forall|y: int| extent.1 < y < image.height ==> !opaque_at(*image, x as int, y),
        extent.0 < image.height ==> opaque_at(*image, x as int, extent.0 as int) && opaque_at(
            *image,
            x as int,
            extent.1 as int,
        ) && extent.0 <= extent.1,
        extent.0 == image.height ==> extent.1 == 0,
{
    let mut first: usize = image.height;
    let mut last: usize = 0;
    let mut y: usize = 0;
    while y < image.height
        invariant
            y <= image.height,
            image.wf(),
            x < image.width,
            first <= image.height,
            first == image.height ==> last == 0,
            first < image.height ==> first <= last < y,
            forall|k: int| 0 <= k < y && k < first ==> !opaque_at(*image, x as int, k),
            forall|k: int| last < k < y ==> !opaque_at(*image, x as int, k),
            first < image.height ==> opaque_at(*image, x as int, first as int) && opaque_at(
                *image,
                x as int,
                last as int,
            ),
            first == image.height ==> forall|k: int| 0 <= k < y ==> !opaque_at(*image, x as int, k),
        decreases image.height - y,
    {
        if *image.index((x, y)) != TRANSPARENT {
            if first == image.height {
                first = y;
            }
            last = y;
        }
        y = y + 1;
    }
    (first, last)
}

/// Finds the smallest rectangle that holds every pixel of the image that is not
/// transparent.
pub fn find_opaque_frame(image: &Image<u8>) -> (rect: Rect)
    requires
        image.wf(),
        exists|x: int, y: int| opaque_at(*image, x, y),
    ensures
        is_opaque_frame(*image, rect),
{
    let mut left: usize = image.width;
    let mut right: usize = 0;
    let mut y: usize = 0;
    let ghost mut left_row: int = 0;
    let ghost mut right_row: int = 0;
    while y < image.height
        invariant
            y <= image.height,
            image.wf(),
            left <= image.width,
            left == image.width ==> right == 0,
            left < image.width ==> left <= right < image.width,
            forall|i: int, j: int|
                0 <= j < y && #[trigger] opaque_at(*image, i, j) ==> left <= i <= right && left
                    < image.width,
            left < image.width ==> opaque_at(*image, left as int, left_row) && opaque_at(
                *image,
                right as int,
                right_row,
            ),
        decreases image.height - y,
    {
        let (first, last) = row_extent(image, y);
        if first < left {
            left = first;
            proof {
                left_row = y as int;
            }
        }
        if first < image.width && last >= right {
            right = last;
            proof {
                right_row = y as int;
            }
        }
        y = y + 1;
    }
    let mut top: usize = image.height;
    let mut bottom: usize = 0;
    let mut x: usize = 0;
    let ghost mut top_column: int = 0;
    let ghost mut bottom_column: int = 0;
    while x < image.width
        invariant
            x <= image.width,
            image.wf(),
            top <= image.height,
            top == image.height ==> bottom == 0,
            top < image.height ==> top <= bottom < image.height,
            forall|i: int, j: int|
                0 <= i < x && #[trigger] opaque_at(*image, i, j) ==> top <= j <= bottom && top
                    < image.height,
            top < image.height ==> opaque_at(*image, top_column, top as int) && opaque_at(
                *image,
                bottom_column,
                bottom as int,
            ),
        decreases image.width - x,
    {
        let (first, last) = column_extent(image, x);
        if first < top {
            top = first;
            proof {
                top_column = x as int;
            }
        }
        if first < image.height && last >= bottom {
            bottom = last;
            proof {
                bottom_column = x as int;
            }
        }
        x = x + 1;
    }
    proof {
        let (i, j) = choose|i: int, j: int| opaque_at(*image, i, j);
        assert(opaque_at(*image, i, j));
        assert(left < image.width);
        assert(top < image.height);
    }
    let rect = Rect { x: left, y: top, width: right - left + 1, height: bottom - top + 1 };
    proof {
        assert(opaque_at(*image, rect.x as int, left_row));
        assert(opaque_at(*image, rect.x + rect.width - 1, right_row));
        assert(opaque_at(*image, top_column, rect.y as int));
        assert(opaque_at(*image, bottom_column, rect.y + rect.height - 1));
        assert forall|x: int, y: int| #[trigger] opaque_at(*image, x, y) implies rect.x <= x
            < rect.x + rect.width && rect.y <= y < rect.y + rect.height by {}
    }
    rect
}

/// Cuts a rectangle out of an image: the pixel at column `x` and row `y` of the result is
/// the pixel at column `rect.x + x` and row `rect.y + y` of the image.
pub fn crop(image: &Image<u8>, rect: &Rect) -> (result: Image<u8>)
    requires
        image.wf(),
        fits(*image, *rect),
    ensures
        result.width == rect.width,
        result.height == rect.height,
        result.wf(),
        forall|x: int, y: int|
            0 <= x < rect.width && 0 <= y < rect.height ==> #[trigger] result.pixels[x + y
                * rect.width] == image.pixels[(rect.x + x) + (rect.y + y) * image.width],
{
    let mut pixels: Vec<u8> = Vec::new();
    let mut y: usize = 0;
    while y < rect.height
        invariant
            y <= rect.height,
            image.wf(),
            fits(*image, *rect),
            pixels.len() == y * rect.width,
            forall|i: int, j: int|
                0 <= i < rect.width && 0 <= j < y ==> #[trigger] pixels[i + j * rect.width]
                    == image.pixels[(rect.x + i) + (rect.y + j) * image.width],
        decreases rect.height - y,
    {
        let ghost done = pixels@;
        let mut x: usize = 0;
        while x < rect.width
            invariant
                x <= rect.width,
                y < rect.height,
                image.wf(),
                fits(*image, *rect),
                pixels.len() == y * rect.width + x,
                done.len() == y * rect.width,
                pixels@.take(done.len() as int) == done,
                forall|i: int|
                    0 <= i < x ==> #[trigger] pixels[y * rect.width + i] == image.pixels[(rect.x
                        + i) + (rect.y + y) * image.width],
            decreases rect.width - x,
        {
            let ghost before = pixels@;
            let pixel = *image.index((rect.x + x, rect.y + y));
            pixels.push(pixel);
            proof {
                assert(pixels@.take(done.len() as int) =~= before.take(done.len() as int));
                assert forall|i: int| 0 <= i < x + 1 implies #[trigger] pixels[y * rect.width + i]
                    == image.pixels[(rect.x + i) + (rect.y + y) * image.width] by {
                    if i < x {
                        assert(pixels[y * rect.width + i] == before[y * rect.width + i]);
                    }
                }
            }
            x = x + 1;
        }
        proof {
            assert((y + 1) * rect.width == y * rect.width + rect.width) by (nonlinear_arith);
            assert forall|i: int, j: int| 0 <= i < rect.width && 0 <= j < y + 1 implies #[trigger] pixels[i
                + j * rect.width] == image.pixels[(rect.x + i) + (rect.y + j) * image.width] by {
                if j < y {
                    lemma_pixel_index_in_bounds(rect.width as int, y as int, i, j);
                    assert(rect.width * y == y * rect.width) by (nonlinear_arith);
                    let k = i + j * rect.width;
                    assert(0 <= k < done.len());
                    assert(pixels@.take(done.len() as int)[k] == pixels@[k]);
                    assert(pixels[i + j * rect.width] == done[i + j * rect.width]);
                } else {
                    assert(i + j * rect.width == y * rect.width + i) by (nonlinear_arith)
                        requires
                            j == y,
                    ;
                }
            }
        }
        y = y + 1;
    }
    proof {
        assert(rect.height * rect.width == rect.width * rect.height) by (nonlinear_arith);
    }
    Image { width: rect.width, height: rect.height, pixels }
}

/// The opacity below which a pixel counts as transparent.
pub const OPAQUE_FROM: u8 = 128;

/// Marks the transparent pixels of a frame: a pixel whose opacity in `alpha` is below 128
/// gets the color index `transparent`, and every other pixel stays as it is.
pub fn mark_transparent(indexed: &mut Image<u8>, alpha: &Image<u8>, transparent: u8)
    requires
        old(indexed).wf(),
        alpha.wf(),
        alpha.width == old(indexed).width,
        alpha.height == old(indexed).height,
    ensures
        final(indexed).width == old(indexed).width,
        final(indexed).height == old(indexed).height,
        final(indexed).wf(),
        forall|i: int|
            0 <= i < old(indexed).pixels.len() ==> #[trigger] final(indexed).pixels[i] == (
            if alpha.pixels[i] < OPAQUE_FROM {
                transparent
            } else {
                old(indexed).pixels[i]
            }),
{
    let mut y: usize = 0;
    while y < indexed.height
        invariant
            y <= indexed.height,
            indexed.width == old(indexed).width,
            indexed.height == old(indexed).height,
            indexed.wf(),
            alpha.wf(),
            alpha.width == indexed.width,
            alpha.height == indexed.height,
            forall|i: int|
                0 <= i < y * indexed.width ==> #[trigger] indexed.pixels[i] == (if alpha.pixels[i]
                    < OPAQUE_FROM {
                    transparent
                } else {
                    old(indexed).pixels[i]
                }),
            forall|i: int|
                y * indexed.width <= i < indexed.pixels.len() ==> #[trigger] indexed.pixels[i]
                    == old(indexed).pixels[i],
        decreases indexed.height - y,
    {
        let mut x: usize = 0;
        while x < indexed.width
            invariant
                x <= indexed.width,
                y < indexed.height,
                indexed.width == old(indexed).width,
                indexed.height == old(indexed).height,
                indexed.wf(),
                alpha.wf(),
                alpha.width == indexed.width,
                alpha.height == indexed.height,
                forall|i: int|
                    0 <= i < y * indexed.width + x ==> #[trigger] indexed.pixels[i] == (
                    if alpha.pixels[i] < OPAQUE_FROM {
                        transparent
                    } else {
                        old(indexed).pixels[i]
                    }),
                forall|i: int|
                    y * indexed.width + x <= i < indexed.pixels.len() ==> #[trigger] indexed.pixels[i]
                        == old(indexed).pixels[i],
            decreases indexed.width - x,
        {
            proof {
                lemma_pixel_index_in_bounds(
                    indexed.width as int,
                    indexed.height as int,
                    x as int,
                    y as int,
                );
                assert(x + y * indexed.width == y * indexed.width + x);
            }
            if *alpha.index((x, y)) < OPAQUE_FROM {
                indexed.set((x, y), transparent);
            }
            x = x + 1;
        }
        proof {
            assert((y + 1) * indexed.width == y * indexed.width + indexed.width)
                by (nonlinear_arith);
        }
        y = y + 1;
    }
    proof {
        assert(indexed.height * indexed.width == indexed.width * indexed.height)
            by (nonlinear_arith);
    }
}

} // verus!
