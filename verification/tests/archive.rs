use smugdancer::giffel::archive::{
    check_frames, frame_delay, ArchiveReader, ArchiveWriter, Dimensions, HEADER_SIZE,
};
use smugdancer::giffel::error::Error;
use smugdancer::giffel::image::Image;

fn image(width: usize, height: usize, pixels: Vec<u8>) -> Image<u8> {
    Image { width, height, pixels }
}

fn archive_of_two_frames() -> Vec<u8> {
    let mut writer = ArchiveWriter::new();
    writer.write_frame(&image(2, 1, vec![0, 1]), &[[10, 11, 12], [20, 21, 22]]).unwrap();
    writer.write_frame(&image(2, 1, vec![1, 255]), &[[30, 31, 32], [40, 41, 42]]).unwrap();
    writer.take_bytes()
}

#[test]
fn header_size_is_thirteen() {
    assert_eq!(HEADER_SIZE, 13);
}

#[test]
fn dimensions_of_a_frame() {
    let frame = image(640, 360, vec![]);
    assert_eq!(
        Dimensions::of(&frame, &[[0, 0, 0]; 256]),
        Ok(Dimensions { width: 640, height: 360, palette_color_count: 255 })
    );
    assert_eq!(
        Dimensions::of(&frame, &[[0, 0, 0]]),
        Ok(Dimensions { width: 640, height: 360, palette_color_count: 0 })
    );
}

#[test]
fn dimensions_refuse_what_an_archive_cannot_hold() {
    assert_eq!(Dimensions::of(&image(1, 1, vec![0]), &[]), Err(Error::PaletteIsEmpty));
    assert_eq!(Dimensions::of(&image(65536, 1, vec![]), &[]), Err(Error::PaletteIsEmpty));
    assert_eq!(Dimensions::of(&image(65536, 1, vec![]), &[[0, 0, 0]]), Err(Error::FramesTooBig));
    assert_eq!(Dimensions::of(&image(1, 65536, vec![]), &[[0, 0, 0]]), Err(Error::FramesTooBig));
    assert_eq!(Dimensions::of(&image(1, 1, vec![0]), &[[0, 0, 0]; 257]), Err(Error::PaletteTooBig));
    assert_eq!(Dimensions::of(&image(65536, 1, vec![]), &[[0, 0, 0]; 257]), Err(Error::FramesTooBig));
    assert_eq!(
        Dimensions::of(&image(65535, 65535, vec![]), &[[0, 0, 0]]),
        Ok(Dimensions { width: 65535, height: 65535, palette_color_count: 0 })
    );
}

#[test]
fn dimensions_as_sizes() {
    let dimensions = Dimensions { width: 300, height: 200, palette_color_count: 255 };
    assert_eq!(dimensions.width(), 300);
    assert_eq!(dimensions.height(), 200);
    assert_eq!(dimensions.palette_color_count(), 256);
    assert_eq!(dimensions.frame_size(), 300 * 200 + 256 * 3);
    let smallest = Dimensions { width: 0, height: 0, palette_color_count: 0 };
    assert_eq!(smallest.palette_color_count(), 1);
    assert_eq!(smallest.frame_size(), 3);
}

#[test]
fn first_frame_is_preceded_by_the_header() {
    let mut writer = ArchiveWriter::new();
    assert_eq!(writer.write_frame(&image(2, 1, vec![0, 1]), &[[10, 11, 12], [20, 21, 22]]), Ok(()));
    assert_eq!(
        writer.take_bytes(),
        vec![b'G', b'I', b'F', b'F', b'E', b'L', b'2', b'2', 2, 0, 1, 0, 1, 10, 11, 12, 20, 21, 22, 0, 1]
    );
    assert_eq!(writer.write_frame(&image(2, 1, vec![1, 1]), &[[1, 2, 3], [4, 5, 6]]), Ok(()));
    assert_eq!(writer.take_bytes(), vec![1, 2, 3, 4, 5, 6, 1, 1]);
    assert_eq!(writer.take_bytes(), Vec::<u8>::new());
}

#[test]
fn header_holds_width_and_height_low_byte_first() {
    let mut writer = ArchiveWriter::new();
    writer.write_frame(&image(0x0123, 0x0456, vec![]), &[[0, 0, 0]; 3]).unwrap();
    let bytes = writer.take_bytes();
    assert_eq!(&bytes[..8], b"GIFFEL22");
    assert_eq!(&bytes[8..13], &[0x23, 0x01, 0x56, 0x04, 2]);
}

#[test]
fn frame_of_other_dimensions_is_refused() {
    let mut writer = ArchiveWriter::new();
    writer.write_frame(&image(2, 1, vec![0, 1]), &[[10, 11, 12]]).unwrap();
    let written = writer.take_bytes().len();
    assert_eq!(written, 13 + 3 + 2);
    assert_eq!(writer.write_frame(&image(1, 2, vec![0, 1]), &[[10, 11, 12]]), Err(Error::FrameIncompatible));
    assert_eq!(
        writer.write_frame(&image(2, 1, vec![0, 1]), &[[10, 11, 12], [0, 0, 0]]),
        Err(Error::FrameIncompatible)
    );
    assert_eq!(writer.write_frame(&image(2, 1, vec![0, 1]), &[]), Err(Error::PaletteIsEmpty));
    assert_eq!(writer.take_bytes(), Vec::<u8>::new());
    assert_eq!(writer.write_frame(&image(2, 1, vec![5, 6]), &[[1, 1, 1]]), Ok(()));
    assert_eq!(writer.take_bytes(), vec![1, 1, 1, 5, 6]);
}

#[test]
fn refused_first_frame_leaves_the_archive_open() {
    let mut writer = ArchiveWriter::new();
    assert_eq!(writer.write_frame(&image(70000, 1, vec![]), &[[0, 0, 0]]), Err(Error::FramesTooBig));
    assert_eq!(writer.take_bytes(), Vec::<u8>::new());
    assert_eq!(writer.write_frame(&image(1, 1, vec![9]), &[[0, 0, 0]]), Ok(()));
    assert_eq!(writer.take_bytes().len(), 13 + 3 + 1);
}

#[test]
fn reader_gives_back_what_the_writer_took() {
    let reader = ArchiveReader::new(archive_of_two_frames()).unwrap();
    assert_eq!(reader.get_dimensions(), Dimensions { width: 2, height: 1, palette_color_count: 1 });
    assert_eq!(reader.get_frame_count(), 2);
    assert_eq!(
        reader.read_frame(1),
        Ok((image(2, 1, vec![0, 1]), vec![[10, 11, 12], [20, 21, 22]]))
    );
    assert_eq!(
        reader.read_frame(2),
        Ok((image(2, 1, vec![1, 255]), vec![[30, 31, 32], [40, 41, 42]]))
    );
}

#[test]
fn frames_out_of_bounds_are_refused() {
    let reader = ArchiveReader::new(archive_of_two_frames()).unwrap();
    assert_eq!(reader.read_frame(0), Err(Error::FrameOutOfBounds { got: 0, count: 2 }));
    assert_eq!(reader.read_frame(3), Err(Error::FrameOutOfBounds { got: 3, count: 2 }));
    assert_eq!(
        reader.read_frame(usize::MAX),
        Err(Error::FrameOutOfBounds { got: usize::MAX, count: 2 })
    );
}

#[test]
fn frame_that_is_cut_off_does_not_count() {
    let mut bytes = archive_of_two_frames();
    bytes.pop();
    let reader = ArchiveReader::new(bytes).unwrap();
    assert_eq!(reader.get_frame_count(), 1);
    assert!(reader.read_frame(1).is_ok());
    assert_eq!(reader.read_frame(2), Err(Error::FrameOutOfBounds { got: 2, count: 1 }));
}

#[test]
fn archive_without_frames() {
    let mut bytes = b"GIFFEL22".to_vec();
    bytes.extend_from_slice(&[4, 0, 4, 0, 255]);
    let reader = ArchiveReader::new(bytes).unwrap();
    assert_eq!(reader.get_frame_count(), 0);
    assert_eq!(reader.get_dimensions(), Dimensions { width: 4, height: 4, palette_color_count: 255 });
    assert_eq!(reader.read_frame(1), Err(Error::FrameOutOfBounds { got: 1, count: 0 }));
}

#[test]
fn wrong_magic_is_refused() {
    let mut bytes = archive_of_two_frames();
    bytes[7] = b'3';
    assert!(matches!(ArchiveReader::new(bytes), Err(Error::InvalidMagic)));
    assert!(matches!(ArchiveReader::new(b"GIF89a\0\0".to_vec()), Err(Error::InvalidMagic)));
}

#[test]
fn short_archive_is_refused() {
    for bytes in [b"".to_vec(), b"GIFFEL2".to_vec(), b"GIFFEL22".to_vec(), b"GIFFEL22\x01\0\x01\0".to_vec()] {
        match ArchiveReader::new(bytes) {
            Err(Error::Io(text)) => assert_eq!(text, "failed to fill whole buffer"),
            _ => panic!("not refused as cut off"),
        }
    }
}

#[test]
fn messages_of_archive_errors() {
    assert_eq!(Error::PaletteTooBig.message(), "Palette must not be larger than 256 colors");
    assert_eq!(Error::PaletteIsEmpty.message(), "Palette is empty");
    assert_eq!(
        Error::FrameIncompatible.message(),
        "Frame is incompatible with this archive (dimensions and palette color count differs)"
    );
    assert_eq!(
        Error::FrameOutOfBounds { got: 12, count: 7 }.message(),
        "Frame index 12 is out of bounds (7 frames are stored in the file)"
    );
    assert_eq!(Error::FramesTooBig.message(), "Frames are too big to encode in a GIF");
    assert_eq!(Error::InvalidMagic.message(), "File does not appear to be a giffel archive");
    assert_eq!(
        Error::InvalidFramerate.message(),
        "Invalid framerate supplied (frame delay exceeded 65536 - how?????)"
    );
    assert_eq!(Error::EmptyGif.message(), "No frames provided");
    assert_eq!(Error::Io("broken pipe".to_string()).message(), "I/O error: broken pipe");
    assert_eq!(Error::Image("bad png".to_string()).message(), "Error while loading image: bad png");
    assert_eq!(Error::GifEncode("bad".to_string()).message(), "GIF encoding error: bad");
}

#[test]
fn gif_of_no_frames_is_refused() {
    assert_eq!(check_frames(0), Err(Error::EmptyGif));
    assert_eq!(check_frames(1), Ok(()));
    assert_eq!(check_frames(720), Ok(()));
}

#[test]
fn frame_delay_is_in_hundredths_of_a_second() {
    assert_eq!(frame_delay(25), Ok(4));
    assert_eq!(frame_delay(50), Ok(2));
    assert_eq!(frame_delay(1), Ok(100));
    assert_eq!(frame_delay(30), Ok(3));
    assert_eq!(frame_delay(100), Ok(1));
    assert_eq!(frame_delay(101), Ok(0));
    assert_eq!(frame_delay(u32::MAX), Ok(0));
}

#[test]
fn many_frames_read_back_as_written() {
    let mut writer = ArchiveWriter::new();
    let mut frames = Vec::new();
    for n in 0..20u8 {
        let picture = image(3, 2, (0..6).map(|p| n.wrapping_mul(7).wrapping_add(p)).collect());
        let palette: Vec<[u8; 3]> = (0..4).map(|c| [n, c, n ^ c]).collect();
        writer.write_frame(&picture, &palette).unwrap();
        frames.push((picture, palette));
    }
    let reader = ArchiveReader::new(writer.take_bytes()).unwrap();
    assert_eq!(reader.get_frame_count(), 20);
    for (index, frame) in frames.into_iter().enumerate() {
        assert_eq!(reader.read_frame(index + 1), Ok(frame));
    }
}
