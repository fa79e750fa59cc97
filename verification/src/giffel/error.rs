//! Errors of the archive tool.

use crate::text::{decimal, decimal_text};
use vstd::prelude::*;
use vstd::string::StringExecFns;

verus! {

/// Everything that can go wrong while an archive is made or read. Variants that stem from
/// decoding, encoding or the operating system carry the text of the underlying failure.
#[derive(Debug, Clone, PartialEq, Eq)]
pub enum Error {
    Image(String),
    Io(String),
    GifEncode(String),
    PaletteTooBig,
    PaletteIsEmpty,
    FrameIncompatible,
    FrameOutOfBounds { got: usize, count: usize },
    FramesTooBig,
    InvalidMagic,
    InvalidFramerate,
    EmptyGif,
}

impl Error {
    /// The text that describes this error.
    pub open spec fn text(self) -> Seq<char> {
        match self {
            Error::Image(cause) => "Error while loading image: "@ + cause@,
            Error::Io(cause) => "I/O error: "@ + cause@,
            Error::GifEncode(cause) => "GIF encoding error: "@ + cause@,
            Error::PaletteTooBig => "Palette must not be larger than 256 colors"@,
            Error::PaletteIsEmpty => "Palette is empty"@,
            Error::FrameIncompatible =>
                "Frame is incompatible with this archive (dimensions and palette color count differs)"@,
            Error::FrameOutOfBounds { got, count } => "Frame index "@ + decimal_text(got as nat)
                + " is out of bounds ("@ + decimal_text(count as nat)
                + " frames are stored in the file)"@,
            Error::FramesTooBig => "Frames are too big to encode in a GIF"@,
            Error::InvalidMagic => "File does not appear to be a giffel archive"@,
            Error::InvalidFramerate =>
                "Invalid framerate supplied (frame delay exceeded 65536 - how?????)"@,
            Error::EmptyGif => "No frames provided"@,
        }
    }

    /// Renders the error as text.
    pub fn message(&self) -> (text: String)
        ensures
            text@ == self.text(),
    {
        match self {
            Error::Image(cause) => String::from_str("Error while loading image: ").concat(
                cause.as_str(),
            ),
            Error::Io(cause) => String::from_str("I/O error: ").concat(cause.as_str()),
            Error::GifEncode(cause) => String::from_str("GIF encoding error: ").concat(
                cause.as_str(),
            ),
            Error::PaletteTooBig => String::from_str("Palette must not be larger than 256 colors"),
            Error::PaletteIsEmpty => String::from_str("Palette is empty"),
            Error::FrameIncompatible => String::from_str(
                "Frame is incompatible with this archive (dimensions and palette color count differs)",
            ),
            Error::FrameOutOfBounds { got, count } => {
                let got = decimal(*got);
                let count = decimal(*count);
                String::from_str("Frame index ").concat(got.as_str()).concat(
                    " is out of bounds (",
                ).concat(count.as_str()).concat(" frames are stored in the file)")
            },
            Error::FramesTooBig => String::from_str("Frames are too big to encode in a GIF"),
            Error::InvalidMagic => String::from_str("File does not appear to be a giffel archive"),
            Error::InvalidFramerate => String::from_str(
                "Invalid framerate supplied (frame delay exceeded 65536 - how?????)",
            ),
            Error::EmptyGif => String::from_str("No frames provided"),
        }
    }
}

} // verus!
