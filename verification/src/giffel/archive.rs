//! The archive format: a header, then the frames, each its palette followed by its
//! pixels.

use crate::giffel::error::Error;
use crate::giffel::image::Image;
use vstd::prelude::*;
use vstd::string::StringExecFns;

verus! {

/// The number of bytes of the header: the magic bytes, the width and the height in two
/// bytes each, and the palette color count in one.
pub const HEADER_SIZE: usize = 13;

/// The bytes that an archive starts with: `GIFFEL22`.
pub open spec fn magic() -> Seq<u8> {
    seq![71u8, 73u8, 70u8, 70u8, 69u8, 76u8, 50u8, 50u8]
}

/// What all the frames of an archive have in common.
#[derive(Debug, Clone, Copy, PartialEq, Eq)]
pub struct Dimensions {
    pub width: u16,
    pub height: u16,
    /// The number of colors in the palette, less one.
    pub palette_color_count: u8,
}

/// The dimensions of a frame of the given width and height with a palette of `colors`
/// colors, or the reason why an archive cannot hold such a frame.
pub open spec fn dimensions_of(width: usize, height: usize, colors: nat) -> Result<
    Dimensions,
    Error,
> {
    if colors == 0 {
        Err(Error::PaletteIsEmpty)
    } else if width > u16::MAX {
        Err(Error::FramesTooBig)
    } else if height > u16::MAX {
        Err(Error::FramesTooBig)
    } else if colors > 256 {
        Err(Error::PaletteTooBig)
    } else {
        Ok(
            Dimensions {
                width: width as u16,
                height: height as u16,
                palette_color_count: (colors - 1) as u8,
            },
        )
    }
}

/// The number of bytes that a frame of the given dimensions takes in an archive.
pub open spec fn frame_size_of(dimensions: Dimensions) -> int {
    dimensions.width * dimensions.height + (dimensions.palette_color_count + 1) * 3
}

/// The header of an archive of the given dimensions: the magic bytes, the width and the
/// height with the low byte first, and the palette color count.
pub open spec fn header_bytes(dimensions: Dimensions) -> Seq<u8> {
    magic() + seq![
        (dimensions.width % 256) as u8,
        (dimensions.width / 256) as u8,
        (dimensions.height % 256) as u8,
        (dimensions.height / 256) as u8,
        dimensions.palette_color_count,
    ]
}

/// The bytes of a palette: red, green and blue of each color in turn.
pub open spec fn palette_bytes(palette: Seq<[u8; 3]>) -> Seq<u8>
    decreases palette.len(),
{
    if palette.len() == 0 {
        Seq::empty()
    } else {
        palette_bytes(palette.drop_last()) + seq![
            palette.last()[0],
            palette.last()[1],
            palette.last()[2],
        ]
    }
}

/// The bytes of a frame: its palette, then its pixels.
pub open spec fn frame_bytes(pixels: Seq<u8>, palette: Seq<[u8; 3]>) -> Seq<u8> {
    palette_bytes(palette) + pixels
}

pub proof fn lemma_palette_bytes_len(palette: Seq<[u8; 3]>)
    ensures
        palette_bytes(palette).len() == 3 * palette.len(),
    decreases palette.len(),
{
    if palette.len() > 0 {
        lemma_palette_bytes_len(palette.drop_last());
    }
}

proof fn lemma_frame_size_bounds(dimensions: Dimensions)
    ensures
        3 <= frame_size_of(dimensions) <= 65535 * 65535 + 768,
{
    let w = dimensions.width as int;
    let h = dimensions.height as int;
    assert(0 <= w * h <= 65535 * 65535) by (nonlinear_arith)
        requires
            0 <= w <= 65535,
            0 <= h <= 65535,
    ;
}

impl Dimensions {
    /// Works out the dimensions of a frame, and refuses a frame that no archive can
    /// hold: one without colors, one wider or higher than 65535 pixels, one with more
    /// than 256 colors.
    pub fn of(image: &Image<u8>, palette: &[[u8; 3]]) -> (dimensions: Result<Self, Error>)
        ensures
            dimensions == dimensions_of(image.width, image.height, palette@.len()),
    {
        if palette.len() == 0 {
            return Err(Error::PaletteIsEmpty);
        }
        if image.width > 65535 {
            return Err(Error::FramesTooBig);
        }
        if image.height > 65535 {
            return Err(Error::FramesTooBig);
        }
        if palette.len() > 256 {
            return Err(Error::PaletteTooBig);
        }
        Ok(
            Dimensions {
                width: image.width as u16,
                height: image.height as u16,
                palette_color_count: (palette.len() - 1) as u8,
            },
        )
    }

    /// Returns the width as a `usize`.
    pub fn width(&self) -> (width: usize)
        ensures
            width == self.width,
    {
        self.width as usize
    }

    /// Returns the height as a `usize`.
    pub fn height(&self) -> (height: usize)
        ensures
            height == self.height,
    {
        self.height as usize
    }

    /// Returns the number of colors in the palette. This is one more than the field,
    /// in which 0 stands for 1 color.
    pub fn palette_color_count(&self) -> (count: usize)
        ensures
            count == self.palette_color_count + 1,
    {
        self.palette_color_count as usize + 1
    }

    /// Returns the size, in bytes, of a single frame saved in an archive with these
    /// dimensions.
    pub fn frame_size(&self) -> (size: usize)
        ensures
            size == frame_size_of(*self),
    {
        proof {
            lemma_frame_size_bounds(*self);
            let w = self.width as int;
            let h = self.height as int;
            assert(0 <= w * h <= 65535 * 65535) by (nonlinear_arith)
                requires
                    0 <= w <= 65535,
                    0 <= h <= 65535,
            ;
        }
        self.width() * self.height() + self.palette_color_count() * 3
    }

    fn same(&self, other: &Dimensions) -> (same: bool)
        ensures
            same == (*self == *other),
    {
        self.width == other.width && self.height == other.height && self.palette_color_count
            == other.palette_color_count
    }
}

/// Writer for archives. The bytes that it makes wait in it until they are taken out.
pub struct ArchiveWriter {
    pending: Vec<u8>,
    dimensions: Option<Dimensions>,
}

impl ArchiveWriter {
    /// The bytes that wait to be taken out.
    pub closed spec fn pending(&self) -> Seq<u8> {
        self.pending@
    }

    /// The dimensions of the archive: those of its first frame, once it has one.
    pub closed spec fn dimensions(&self) -> Option<Dimensions> {
        self.dimensions
    }

    /// A writer for a new archive.
    pub fn new() -> (writer: Self)
        ensures
            writer.pending() == Seq::<u8>::empty(),
            writer.dimensions() is None,
    {
        ArchiveWriter { pending: Vec::new(), dimensions: None }
    }

    fn write_dimensions(&mut self, dims: Dimensions)
        ensures
            final(self).pending() == old(self).pending() + header_bytes(dims),
            final(self).dimensions() == old(self).dimensions(),
    {
        self.pending.push(71);
        self.pending.push(73);
        self.pending.push(70);
        self.pending.push(70);
        self.pending.push(69);
        self.pending.push(76);
        self.pending.push(50);
        self.pending.push(50);
        self.pending.push((dims.width % 256) as u8);
        self.pending.push((dims.width / 256) as u8);
        self.pending.push((dims.height % 256) as u8);
        self.pending.push((dims.height / 256) as u8);
        self.pending.push(dims.palette_color_count);
        proof {
            assert(final(self).pending() =~= old(self).pending() + header_bytes(dims));
        }
    }

    /// Writes a frame to the archive: an image and its palette, whose colors are red,
    /// green and blue in this order. The color index 255 stands for transparency.
    ///
    /// The first frame sets the dimensions of the archive and is preceded by the header.
    /// Every later frame must have the same dimensions and palette color count. A frame
    /// that is refused leaves the writer as it was.
    pub fn write_frame(&mut self, image: &Image<u8>, palette: &[[u8; 3]]) -> (written: Result<
        (),
        Error,
    >)
        ensures
            match dimensions_of(image.width, image.height, palette@.len()) {
                Err(error) => {
                    &&& written == Err::<(), Error>(error)
                    &&& final(self).pending() == old(self).pending()
                    &&& final(self).dimensions() == old(self).dimensions()
                },
                Ok(dimensions) => match old(self).dimensions() {
                    None => {
                        &&& written is Ok
                        &&& final(self).dimensions() == Some(dimensions)
                        &&& final(self).pending() == old(self).pending() + header_bytes(dimensions)
                            + frame_bytes(image.pixels@, palette@)
                    },
                    Some(first) => if first == dimensions {
                        &&& written is Ok
                        &&& final(self).dimensions() == old(self).dimensions()
                        &&& final(self).pending() == old(self).pending() + frame_bytes(
                            image.pixels@,
                            palette@,
                        )
                    } else {
                        &&& written == Err::<(), Error>(Error::FrameIncompatible)
                        &&& final(self).pending() == old(self).pending()
                        &&& final(self).dimensions() == old(self).dimensions()
                    },
                },
            },
    {
        let dimensions = match Dimensions::of(image, palette) {
            Ok(dimensions) => dimensions,
            Err(error) => {
                return Err(error);
            },
        };
        match &self.dimensions {
            None => {
                self.write_dimensions(dimensions);
                self.dimensions = Some(dimensions);
            },
            Some(first) => {
                if !first.same(&dimensions) {
                    return Err(Error::FrameIncompatible);
                }
            },
        }
        let ghost start = self.pending@;
        let mut c: usize = 0;
        while c < palette.len()
            invariant
                c <= palette.len(),
                self.dimensions == Some(dimensions),
                self.pending@ == start + palette_bytes(palette@.take(c as int)),
            decreases palette.len() - c,
        {
            let color = palette[c];
            self.pending.push(color[0]);
            self.pending.push(color[1]);
            self.pending.push(color[2]);
            proof {
                assert(palette@.take(c + 1).drop_last() == palette@.take(c as int));
                assert(palette@.take(c + 1).last() == palette@[c as int]);
                assert(self.pending@ =~= start + palette_bytes(palette@.take(c + 1)));
            }
            c = c + 1;
        }
        proof {
            assert(palette@.take(palette.len() as int) == palette@);
        }
        let ghost filled = self.pending@;
        let mut p: usize = 0;
        while p < image.pixels.len()
            invariant
                p <= image.pixels.len(),
                self.dimensions == Some(dimensions),
                self.pending@ == filled + image.pixels@.take(p as int),
            decreases image.pixels.len() - p,
        {
            self.pending.push(image.pixels[p]);
            proof {
                assert(image.pixels@.take(p + 1) == image.pixels@.take(p as int).push(
                    image.pixels@[p as int],
                ));
            }
            p = p + 1;
        }
        proof {
            assert(image.pixels@.take(image.pixels.len() as int) == image.pixels@);
            assert(self.pending@ =~= start + frame_bytes(image.pixels@, palette@));
        }
        Ok(())
    }

    /// Takes out the bytes that wait in the writer; none wait in it afterwards.
    pub fn take_bytes(&mut self) -> (bytes: Vec<u8>)
        ensures
            bytes@ == old(self).pending(),
            final(self).pending() == Seq::<u8>::empty(),
            final(self).dimensions() == old(self).dimensions(),
    {
        let mut bytes: Vec<u8> = Vec::new();
        std::mem::swap(&mut bytes, &mut self.pending);
        bytes
    }
}

/// The dimensions that the header of an archive holds.
pub open spec fn parsed_dimensions(data: Seq<u8>) -> Dimensions {
    Dimensions {
        width: (data[8] + data[9] * 256) as u16,
        height: (data[10] + data[11] * 256) as u16,
        palette_color_count: data[12],
    }
}

/// Where the frame with the given index, counted from 1, starts in an archive.
pub open spec fn frame_offset(dimensions: Dimensions, index: int) -> int {
    HEADER_SIZE + (index - 1) * frame_size_of(dimensions)
}

/// The text of the error for an archive that ends too early.
pub open spec fn end_of_file_text() -> Seq<char> {
    "failed to fill whole buffer"@
}

proof fn lemma_frames_fit(size: int, frame_size: int)
    requires
        0 <= size,
        0 < frame_size,
    ensures
        0 <= (size / frame_size) * frame_size <= size,
{
    assert(0 <= (size / frame_size) * frame_size <= size) by (nonlinear_arith)
        requires
            0 <= size,
            0 < frame_size,
    ;
}

proof fn lemma_frame_in_bounds(index: int, frame_count: int, frame_size: int)
    requires
        1 <= index <= frame_count,
        0 < frame_size,
    ensures
        0 <= (index - 1) * frame_size,
        (index - 1) * frame_size + frame_size <= frame_count * frame_size,
{
    assert(0 <= (index - 1) * frame_size && (index - 1) * frame_size + frame_size <= frame_count
        * frame_size) by (nonlinear_arith)
        requires
            1 <= index <= frame_count,
            0 < frame_size,
    ;
}

/// Reader for archives, over the bytes of a whole archive.
pub struct ArchiveReader {
    data: Vec<u8>,
    dimensions: Dimensions,
    frame_count: usize,
}

impl ArchiveReader {
    /// The bytes of the archive.
    pub closed spec fn data(&self) -> Seq<u8> {
        self.data@
    }

    /// The dimensions of the frames.
    pub closed spec fn dimensions(&self) -> Dimensions {
        self.dimensions
    }

    /// The number of frames.
    pub closed spec fn frame_count(&self) -> usize {
        self.frame_count
    }

    /// The archive holds the header and as many whole frames as the frame count says.
    #[verifier::type_invariant]
    spec fn wf(&self) -> bool {
        HEADER_SIZE + self.frame_count * frame_size_of(self.dimensions) <= self.data@.len()
    }

    /// The dimensions of the frames.
    pub fn get_dimensions(&self) -> (dimensions: Dimensions)
        ensures
            dimensions == self.dimensions(),
    {
        self.dimensions
    }

    /// The number of frames.
    pub fn get_frame_count(&self) -> (count: usize)
        ensures
            count == self.frame_count(),
    {
        self.frame_count
    }

    /// Opens an archive for reading. The archive must start with the magic bytes and hold
    /// the whole header; the frames are those that fit whole into what follows.
    pub fn new(data: Vec<u8>) -> (reader: Result<Self, Error>)
        ensures
            match reader {
                Ok(reader) => {
                    &&& data.len() >= HEADER_SIZE
                    &&& data@.take(8) == magic()
                    &&& reader.data() == data@
                    &&& reader.dimensions() == parsed_dimensions(data@)
                    &&& reader.frame_count() == (data.len() - HEADER_SIZE) / frame_size_of(
                        reader.dimensions(),
                    )
                },
                Err(error) => if data.len() >= 8 && data@.take(8) != magic() {
                    error == Error::InvalidMagic
                } else {
                    &&& data.len() < HEADER_SIZE
                    &&& error matches Error::Io(text)
                    &&& text@ == end_of_file_text()
                },
            },
    {
        if data.len() < 8 {
            return Err(Error::Io(String::from_str("failed to fill whole buffer")));
        }
        if data[0] != 71 || data[1] != 73 || data[2] != 70 || data[3] != 70 || data[4] != 69
            || data[5] != 76 || data[6] != 50 || data[7] != 50 {
            proof {
                assert(data@.take(8)[0] == data@[0]);
                assert(data@.take(8)[1] == data@[1]);
                assert(data@.take(8)[2] == data@[2]);
                assert(data@.take(8)[3] == data@[3]);
                assert(data@.take(8)[4] == data@[4]);
                assert(data@.take(8)[5] == data@[5]);
                assert(data@.take(8)[6] == data@[6]);
                assert(data@.take(8)[7] == data@[7]);
            }
            return Err(Error::InvalidMagic);
        }
        proof {
            assert(data@.take(8) =~= magic());
        }
        if data.len() < 13 {
            return Err(Error::Io(String::from_str("failed to fill whole buffer")));
        }
        let dimensions = Dimensions {
            width: data[8] as u16 + data[9] as u16 * 256,
            height: data[10] as u16 + data[11] as u16 * 256,
            palette_color_count: data[12],
        };
        let frame_size = dimensions.frame_size();
        proof {
            lemma_frame_size_bounds(dimensions);
            lemma_frames_fit(data.len() - 13, frame_size as int);
        }
        let frame_count = (data.len() - 13) / frame_size;
        Ok(ArchiveReader { data, dimensions, frame_count })
    }

    /// Reads the frame at the given index; indices start at 1. An index that the archive
    /// has no frame for is refused.
    pub fn read_frame(&self, index: usize) -> (frame: Result<(Image<u8>, Vec<[u8; 3]>), Error>)
        ensures
            match frame {
                Ok((image, palette)) => {
                    &&& 1 <= index <= self.frame_count()
                    &&& image.width == self.dimensions().width
                    &&& image.height == self.dimensions().height
                    &&& image.wf()
                    &&& palette.len() == self.dimensions().palette_color_count + 1
                    &&& HEADER_SIZE + index * frame_size_of(self.dimensions()) <= self.data().len()
                    &&& frame_bytes(image.pixels@, palette@) == self.data().subrange(
                        frame_offset(self.dimensions(), index as int),
                        frame_offset(self.dimensions(), index as int) + frame_size_of(
                            self.dimensions(),
                        ),
                    )
                },
                Err(error) => {
                    &&& index == 0 || index > self.frame_count()
                    &&& error == Error::FrameOutOfBounds { got: index, count: self.frame_count() }
                },
            },
    {
        proof {
            use_type_invariant(self);
        }
        if index == 0 || index > self.frame_count {
            return Err(Error::FrameOutOfBounds { got: index, count: self.frame_count });
        }
        let frame_size = self.dimensions.frame_size();
        let size = self.data.len();
        proof {
            lemma_frame_size_bounds(self.dimensions);
            lemma_frame_in_bounds(index as int, self.frame_count as int, frame_size as int);
            assert(self.frame_count * frame_size == self.frame_count * frame_size_of(
                self.dimensions,
            ));
            assert(13 + (index - 1) * frame_size + frame_size <= self.data@.len());
            assert((index - 1) * frame_size + frame_size == index * frame_size) by (nonlinear_arith);
        }
        let offset = 13 + (index - 1) * frame_size;
        let colors = self.dimensions.palette_color_count();
        let mut palette: Vec<[u8; 3]> = Vec::new();
        let mut c: usize = 0;
        while c < colors
            invariant
                c <= colors,
                colors == self.dimensions.palette_color_count + 1,
                3 * colors <= frame_size,
                size == self.data@.len(),
                offset + frame_size <= self.data@.len(),
                frame_size == frame_size_of(self.dimensions),
                palette.len() == c,
                palette_bytes(palette@) == self.data@.subrange(offset as int, offset + 3 * c),
            decreases colors - c,
        {
            let at = offset + 3 * c;
            let ghost before = palette@;
            palette.push([self.data[at], self.data[at + 1], self.data[at + 2]]);
            proof {
                assert(palette@.drop_last() == before);
                assert(palette_bytes(palette@) =~= self.data@.subrange(
                    offset as int,
                    offset + 3 * (c + 1),
                ));
            }
            c = c + 1;
        }
        let start = offset + 3 * colors;
        let count = frame_size - 3 * colors;
        let mut pixels: Vec<u8> = Vec::new();
        let mut p: usize = 0;
        while p < count
            invariant
                p <= count,
                size == self.data@.len(),
                start + count <= self.data@.len(),
                pixels@ == self.data@.subrange(start as int, start + p),
            decreases count - p,
        {
            pixels.push(self.data[start + p]);
            proof {
                assert(pixels@ =~= self.data@.subrange(start as int, start + p + 1));
            }
            p = p + 1;
        }
        proof {
            assert(frame_bytes(pixels@, palette@) =~= self.data@.subrange(
                offset as int,
                offset + frame_size,
            ));
        }
        Ok(
            (
                Image { width: self.dimensions.width(), height: self.dimensions.height(), pixels },
                palette,
            ),
        )
    }
}

/// A frame as an archive holds it: the pixels and the palette.
pub struct FrameData {
    pub pixels: Seq<u8>,
    pub palette: Seq<[u8; 3]>,
}

/// Whether a frame has the number of pixels and of colors that the dimensions say.
pub open spec fn frame_fits(dimensions: Dimensions, frame: FrameData) -> bool {
    frame.pixels.len() == dimensions.width * dimensions.height && frame.palette.len()
        == dimensions.palette_color_count + 1
}

/// The bytes of the given frames, one after another.
pub open spec fn frames_bytes(frames: Seq<FrameData>) -> Seq<u8>
    decreases frames.len(),
{
    if frames.len() == 0 {
        Seq::empty()
    } else {
        frames_bytes(frames.drop_last()) + frame_bytes(frames.last().pixels, frames.last().palette)
    }
}

/// The bytes of an archive of the given frames: the header, then the frames.
pub open spec fn archive_bytes(dimensions: Dimensions, frames: Seq<FrameData>) -> Seq<u8> {
    header_bytes(dimensions) + frames_bytes(frames)
}

proof fn lemma_frames_bytes_len(dimensions: Dimensions, frames: Seq<FrameData>)
    requires
        forall|i: int| 0 <= i < frames.len() ==> frame_fits(dimensions, #[trigger] frames[i]),
    ensures
        frames_bytes(frames).len() == frames.len() * frame_size_of(dimensions),
    decreases frames.len(),
{
    let size = frame_size_of(dimensions);
    if frames.len() > 0 {
        let earlier = frames.drop_last();
        assert forall|i: int| 0 <= i < earlier.len() implies frame_fits(
            dimensions,
            #[trigger] earlier[i],
        ) by {
            assert(earlier[i] == frames[i]);
        }
        lemma_frames_bytes_len(dimensions, earlier);
        assert(frame_fits(dimensions, frames[frames.len() - 1]));
        lemma_palette_bytes_len(frames.last().palette);
        assert(frames.len() * size == earlier.len() * size + size) by (nonlinear_arith)
            requires
                frames.len() == earlier.len() + 1,
        ;
    } else {
        assert(frames.len() * size == 0) by (nonlinear_arith)
            requires
                frames.len() == 0,
        ;
    }
}

/// A palette is told by its bytes: two palettes with the same bytes are the same.
pub proof fn lemma_palette_bytes_tell_palette(first: Seq<[u8; 3]>, second: Seq<[u8; 3]>)
    requires
        palette_bytes(first) == palette_bytes(second),
    ensures
        first == second,
    decreases first.len(),
{
    lemma_palette_bytes_len(first);
    lemma_palette_bytes_len(second);
    if first.len() > 0 {
        let a = palette_bytes(first.drop_last());
        let b = palette_bytes(second.drop_last());
        lemma_palette_bytes_len(first.drop_last());
        lemma_palette_bytes_len(second.drop_last());
        let whole = palette_bytes(first);
        assert(a =~= whole.take(a.len() as int));
        assert(b =~= whole.take(b.len() as int));
        lemma_palette_bytes_tell_palette(first.drop_last(), second.drop_last());
        let n = a.len() as int;
        assert(whole[n] == first.last()[0] && whole[n + 1] == first.last()[1] && whole[n + 2]
            == first.last()[2]);
        assert(whole[n] == second.last()[0] && whole[n + 1] == second.last()[1] && whole[n + 2]
            == second.last()[2]);
        assert(first.last() =~= second.last());
        assert(first =~= first.drop_last().push(first.last()));
        assert(second =~= second.drop_last().push(second.last()));
    } else {
        assert(first =~= second);
    }
}

/// A frame is told by its bytes and the number of its colors.
pub proof fn lemma_frame_bytes_tell_frame(first: FrameData, second: FrameData)
    requires
        frame_bytes(first.pixels, first.palette) == frame_bytes(second.pixels, second.palette),
        first.palette.len() == second.palette.len(),
    ensures
        first == second,
{
    lemma_palette_bytes_len(first.palette);
    lemma_palette_bytes_len(second.palette);
    let whole = frame_bytes(first.pixels, first.palette);
    let n = palette_bytes(first.palette).len() as int;
    assert(palette_bytes(first.palette) =~= whole.take(n));
    assert(palette_bytes(second.palette) =~= whole.take(n));
    assert(first.pixels =~= whole.skip(n));
    assert(second.pixels =~= whole.skip(n));
    lemma_palette_bytes_tell_palette(first.palette, second.palette);
}

/// What is written can be read: an archive made of the header and of frames that fit its
/// dimensions starts with the magic bytes, tells its dimensions and the number of its
/// frames, and holds the bytes of each frame at that frame's place.
pub proof fn lemma_archive_reads_back(dimensions: Dimensions, frames: Seq<FrameData>, index: int)
    requires
        forall|i: int| 0 <= i < frames.len() ==> frame_fits(dimensions, #[trigger] frames[i]),
        1 <= index <= frames.len(),
    ensures
        archive_bytes(dimensions, frames).len() == HEADER_SIZE + frames.len() * frame_size_of(
            dimensions,
        ),
        archive_bytes(dimensions, frames).take(8) == magic(),
        parsed_dimensions(archive_bytes(dimensions, frames)) == dimensions,
        (archive_bytes(dimensions, frames).len() - HEADER_SIZE) / frame_size_of(dimensions)
            == frames.len(),
        archive_bytes(dimensions, frames).subrange(
            frame_offset(dimensions, index),
            frame_offset(dimensions, index) + frame_size_of(dimensions),
        ) == frame_bytes(frames[index - 1].pixels, frames[index - 1].palette),
    decreases frames.len(),
{
    let data = archive_bytes(dimensions, frames);
    let size = frame_size_of(dimensions);
    let count = frames.len() as int;
    lemma_frame_size_bounds(dimensions);
    lemma_frames_bytes_len(dimensions, frames);
    assert(data.take(8) =~= magic());
    assert(data[8] == (dimensions.width % 256) as u8);
    assert(data[9] == (dimensions.width / 256) as u8);
    assert(data[10] == (dimensions.height % 256) as u8);
    assert(data[11] == (dimensions.height / 256) as u8);
    assert(data[12] == dimensions.palette_color_count);
    assert((count * size) / size == count) by (nonlinear_arith)
        requires
            size > 0,
            count >= 0,
    ;
    let earlier = frames.drop_last();
    assert forall|i: int| 0 <= i < earlier.len() implies frame_fits(
        dimensions,
        #[trigger] earlier[i],
    ) by {
        assert(earlier[i] == frames[i]);
    }
    lemma_frames_bytes_len(dimensions, earlier);
    assert(count * size == (count - 1) * size + size) by (nonlinear_arith);
    let last = frame_bytes(frames.last().pixels, frames.last().palette);
    assert(frame_fits(dimensions, frames[count - 1]));
    lemma_palette_bytes_len(frames.last().palette);
    if index == count {
        assert(data.subrange(frame_offset(dimensions, index), frame_offset(dimensions, index) + size)
            =~= last);
    } else {
        lemma_archive_reads_back(dimensions, earlier, index);
        let shorter = archive_bytes(dimensions, earlier);
        assert(index * size <= (count - 1) * size) by (nonlinear_arith)
            requires
                index <= count - 1,
                size > 0,
        ;
        assert((index - 1) * size + size == index * size) by (nonlinear_arith);
        assert(shorter =~= data.take(shorter.len() as int));
        assert(data.subrange(frame_offset(dimensions, index), frame_offset(dimensions, index) + size)
            =~= shorter.subrange(
            frame_offset(dimensions, index),
            frame_offset(dimensions, index) + size,
        ));
        assert(earlier[index - 1] == frames[index - 1]);
    }
}

/// Refuses to make a GIF of no frames.
pub fn check_frames(frames: usize) -> (checked: Result<(), Error>)
    ensures
        checked == (if frames == 0 {
            Err::<(), Error>(Error::EmptyGif)
        } else {
            Ok::<(), Error>(())
        }),
{
    if frames == 0 {
        Err(Error::EmptyGif)
    } else {
        Ok(())
    }
}

/// The time for which a frame of a GIF is shown, in hundredths of a second, at the given
/// number of frames per second.
pub fn frame_delay(fps: u32) -> (delay: Result<u16, Error>)
    requires
        fps > 0,
    ensures
        delay == Ok::<u16, Error>((100int / fps as int) as u16),
{
    let delay = 100 / fps;
    if delay > 65535 {
        Err(Error::InvalidFramerate)
    } else {
        Ok(delay as u16)
    }
}

} // verus!
