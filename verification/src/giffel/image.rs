//! Images as rows of pixels.

use vstd::prelude::*;

verus! {

/// An image: its pixels row by row, each row from left to right.
#[derive(Debug, Clone, PartialEq, Eq)]
pub struct Image<T> {
    pub width: usize,
    pub height: usize,
    pub pixels: Vec<T>,
}

/// In an image of `height` rows of `width` pixels, the pixel at column `x` of row `y` has
/// an index below the number of pixels.
pub proof fn lemma_pixel_index_in_bounds(width: int, height: int, x: int, y: int)
    requires
        0 <= x < width,
        0 <= y < height,
    ensures
        0 <= x + y * width < width * height,
{
    assert(y * width <= (height - 1) * width) by (nonlinear_arith)
        requires
            0 <= y <= height - 1,
            0 <= width,
    ;
    assert((height - 1) * width == width * height - width) by (nonlinear_arith);
    assert(0 <= y * width) by (nonlinear_arith)
        requires
            0 <= y,
            0 <= width,
    ;
}

impl<T> Image<T> {
    /// The image has as many pixels as its width and height say.
    pub open spec fn wf(&self) -> bool {
        self.pixels.len() == self.width * self.height
    }

    /// Whether the position is one of the image: a column and a row that it has.
    pub open spec fn has(&self, position: (usize, usize)) -> bool {
        position.0 < self.width && position.1 < self.height
    }

    /// The place of a position in the pixels.
    pub open spec fn index_of(&self, position: (usize, usize)) -> int {
        position.0 + position.1 * self.width
    }

    /// The pixel at a position.
    pub open spec fn at(&self, position: (usize, usize)) -> T {
        self.pixels[self.index_of(position)]
    }

    /// Computes the index in `pixels` of the pixel at a position, given as column and row.
    pub fn pixel_index(&self, position: (usize, usize)) -> (index: usize)
        requires
            position.0 + position.1 * self.width <= usize::MAX,
        ensures
            index == self.index_of(position),
    {
        assert(0 <= position.1 * self.width) by (nonlinear_arith);
        position.0 + position.1 * self.width
    }

    /// The pixel at a position of the image.
    pub fn index(&self, position: (usize, usize)) -> (pixel: &T)
        requires
            self.wf(),
            self.has(position),
        ensures
            *pixel == self.at(position),
    {
        proof {
            lemma_pixel_index_in_bounds(
                self.width as int,
                self.height as int,
                position.0 as int,
                position.1 as int,
            );
        }
        let index = self.pixel_index(position);
        &self.pixels[index]
    }

    /// Puts a pixel at a position of the image.
    pub fn set(&mut self, position: (usize, usize), pixel: T)
        requires
            old(self).wf(),
            old(self).has(position),
        ensures
            final(self).width == old(self).width,
            final(self).height == old(self).height,
            final(self).pixels@ == old(self).pixels@.update(old(self).index_of(position), pixel),
            final(self).wf(),
    {
        proof {
            lemma_pixel_index_in_bounds(
                self.width as int,
                self.height as int,
                position.0 as int,
                position.1 as int,
            );
        }
        let index = self.pixel_index(position);
        self.pixels.set(index, pixel);
    }
}

} // verus!
