//! Colors and palettes: how far two colors are apart, and which color of a palette is
//! nearest to a pixel.

use vstd::prelude::*;

verus! {

/// How far two values of a channel are apart.
pub open spec fn channel_gap(a: u8, b: u8) -> int {
    if a >= b {
        a - b
    } else {
        b - a
    }
}

/// How far two colors are apart: the sum of the gaps of their three channels.
pub open spec fn distance(a: [u8; 3], b: [u8; 3]) -> int {
    channel_gap(a[0], b[0]) + channel_gap(a[1], b[1]) + channel_gap(a[2], b[2])
}

/// The index of the color nearest to `color` among the first `n` colors of a palette; of
/// several colors that are equally near, the first.
pub open spec fn nearest(palette: Seq<[u8; 3]>, color: [u8; 3], n: int) -> int
    decreases n,
{
    if n <= 1 {
        0
    } else {
        let best = nearest(palette, color, n - 1);
        if distance(color, palette[n - 1]) < distance(color, palette[best]) {
            n - 1
        } else {
            best
        }
    }
}

/// The smallest value that the pixels have in a channel.
pub open spec fn channel_min(pixels: Seq<[u8; 3]>, channel: int) -> int
    decreases pixels.len(),
{
    if pixels.len() == 0 {
        255
    } else {
        let rest = channel_min(pixels.drop_last(), channel);
        if pixels.last()[channel] < rest {
            pixels.last()[channel] as int
        } else {
            rest
        }
    }
}

/// The largest value that the pixels have in a channel.
pub open spec fn channel_max(pixels: Seq<[u8; 3]>, channel: int) -> int
    decreases pixels.len(),
{
    if pixels.len() == 0 {
        0
    } else {
        let rest = channel_max(pixels.drop_last(), channel);
        if pixels.last()[channel] > rest {
            pixels.last()[channel] as int
        } else {
            rest
        }
    }
}

/// The nearest color is a color of the palette, no color of the palette is nearer, and
/// every color before it is farther.
pub proof fn lemma_nearest_is_closest(palette: Seq<[u8; 3]>, color: [u8; 3], n: int)
    requires
        1 <= n <= palette.len(),
    ensures
        0 <= nearest(palette, color, n) < n,
        forall|j: int|
            0 <= j < n ==> distance(color, palette[nearest(palette, color, n)]) <= distance(
                color,
                #[trigger] palette[j],
            ),
        forall|j: int|
            0 <= j < nearest(palette, color, n) ==> distance(
                color,
                palette[nearest(palette, color, n)],
            ) < distance(color, #[trigger] palette[j]),
    decreases n,
{
    if n > 1 {
        lemma_nearest_is_closest(palette, color, n - 1);
    }
}

/// In a list of pixels that is not empty, the smallest value of a channel is no larger
/// than the largest, and both are values of a byte.
pub proof fn lemma_channel_bounds(pixels: Seq<[u8; 3]>, channel: int)
    requires
        pixels.len() > 0,
        0 <= channel < 3,
    ensures
        0 <= channel_min(pixels, channel) <= channel_max(pixels, channel) <= 255,
    decreases pixels.len(),
{
    if pixels.len() > 1 {
        lemma_channel_bounds(pixels.drop_last(), channel);
    } else {
        assert(pixels.drop_last().len() == 0);
        assert(channel_min(pixels.drop_last(), channel) == 255);
        assert(channel_max(pixels.drop_last(), channel) == 0);
    }
}

/// Computes, for each channel, how far the largest and the smallest value of the pixels
/// are apart.
pub fn calculate_color_range(image: &[[u8; 3]]) -> (range: [u8; 3])
    requires
        image@.len() > 0,
    ensures
        range[0] == channel_max(image@, 0) - channel_min(image@, 0),
        range[1] == channel_max(image@, 1) - channel_min(image@, 1),
        range[2] == channel_max(image@, 2) - channel_min(image@, 2),
{
    let mut min_r: u8 = 255;
    let mut min_g: u8 = 255;
    let mut min_b: u8 = 255;
    let mut max_r: u8 = 0;
    let mut max_g: u8 = 0;
    let mut max_b: u8 = 0;
    let mut i: usize = 0;
    while i < image.len()
        invariant
            i <= image.len(),
            min_r == channel_min(image@.take(i as int), 0),
            min_g == channel_min(image@.take(i as int), 1),
            min_b == channel_min(image@.take(i as int), 2),
            max_r == channel_max(image@.take(i as int), 0),
            max_g == channel_max(image@.take(i as int), 1),
            max_b == channel_max(image@.take(i as int), 2),
        decreases image.len() - i,
    {
        let pixel = image[i];
        proof {
            assert(image@.take(i + 1).drop_last() == image@.take(i as int));
            assert(image@.take(i + 1).last() == pixel);
        }
        if pixel[0] < min_r {
            min_r = pixel[0];
        }
        if pixel[0] > max_r {
            max_r = pixel[0];
        }
        if pixel[1] < min_g {
            min_g = pixel[1];
        }
        if pixel[1] > max_g {
            max_g = pixel[1];
        }
        if pixel[2] < min_b {
            min_b = pixel[2];
        }
        if pixel[2] > max_b {
            max_b = pixel[2];
        }
        i = i + 1;
    }
    proof {
        assert(image@.take(image.len() as int) == image@);
        lemma_channel_bounds(image@, 0);
        lemma_channel_bounds(image@, 1);
        lemma_channel_bounds(image@, 2);
    }
    [max_r - min_r, max_g - min_g, max_b - min_b]
}

/// Finds the channel with the largest value; of several that are equally large, the
/// first.
pub fn max_channel(pixel: [u8; 3]) -> (channel: usize)
    ensures
        channel < 3,
        forall|c: int| 0 <= c < 3 ==> pixel[c] <= pixel[channel as int],
        forall|c: int| 0 <= c < channel ==> pixel[c] < pixel[channel as int],
{
    if pixel[0] >= pixel[1] && pixel[0] >= pixel[2] {
        0
    } else if pixel[1] >= pixel[2] {
        1
    } else {
        2
    }
}

/// Splits the pixels in the middle; of an odd number of pixels the second half gets one
/// more.
pub fn halves(pixels: &mut [[u8; 3]]) -> (parts: (&mut [[u8; 3]], &mut [[u8; 3]]))
    ensures
        parts.0@ == old(pixels)@.subrange(0, old(pixels)@.len() as int / 2),
        parts.1@ == old(pixels)@.subrange(
            old(pixels)@.len() as int / 2,
            old(pixels)@.len() as int,
        ),
        final(pixels)@ == final(parts.0)@ + final(parts.1)@,
{
    let middle = pixels.len() / 2;
    pixels.split_at_mut(middle)
}

/// Computes how far two colors are apart.
pub fn color_difference(a: [u8; 3], b: [u8; 3]) -> (difference: u16)
    ensures
        difference == distance(a, b),
{
    let dr: u16 = if a[0] >= b[0] {
        (a[0] - b[0]) as u16
    } else {
        (b[0] - a[0]) as u16
    };
    let dg: u16 = if a[1] >= b[1] {
        (a[1] - b[1]) as u16
    } else {
        (b[1] - a[1]) as u16
    };
    let db: u16 = if a[2] >= b[2] {
        (a[2] - b[2]) as u16
    } else {
        (b[2] - a[2]) as u16
    };
    dr + dg + db
}

/// Finds the color of the palette that is nearest to the given one.
pub fn nearest_color(palette: &[[u8; 3]], color: [u8; 3]) -> (index: usize)
    requires
        palette@.len() > 0,
    ensures
        index == nearest(palette@, color, palette@.len() as int),
{
    let mut best: usize = 0;
    let mut least: u16 = color_difference(color, palette[0]);
    let mut i: usize = 1;
    while i < palette.len()
        invariant
            1 <= i <= palette.len(),
            best == nearest(palette@, color, i as int),
            best < i,
            least == distance(color, palette@[best as int]),
        decreases palette.len() - i,
    {
        let difference = color_difference(color, palette[i]);
        if difference < least {
            least = difference;
            best = i;
        }
        i = i + 1;
    }
    best
}

/// Maps each pixel to the index of the color of the palette that is nearest to it. An
/// index is cut down to its low eight bits.
pub fn quantize(image: &[[u8; 3]], palette: &[[u8; 3]]) -> (indices: Vec<u8>)
    requires
        image@.len() == 0 || palette@.len() > 0,
    ensures
        indices.len() == image@.len(),
        forall|i: int|
            0 <= i < image@.len() ==> #[trigger] indices[i] == nearest(
                palette@,
                image@[i],
                palette@.len() as int,
            ) % 256,
{
    let mut indices: Vec<u8> = Vec::new();
    let mut i: usize = 0;
    while i < image.len()
        invariant
            i <= image.len(),
            image@.len() == 0 || palette@.len() > 0,
            indices.len() == i,
            forall|k: int|
                0 <= k < i ==> #[trigger] indices[k] == nearest(
                    palette@,
                    image@[k],
                    palette@.len() as int,
                ) % 256,
        decreases image.len() - i,
    {
        let index = nearest_color(palette, image[i]);
        indices.push((index % 256) as u8);
        i = i + 1;
    }
    indices
}

} // verus!
