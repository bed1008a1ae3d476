use imagequick::codec::{
    encoder_outcome, ColorSpace, DecodeError, EncodeError, PixelBuffer, MAX_DIMENSION,
};

fn gradient(width: usize, height: usize) -> Vec<u8> {
    let mut pixels = Vec::with_capacity(width * height * 4);
    for y in 0..height {
        for x in 0..width {
            pixels.push((x % 256) as u8);
            pixels.push((y % 256) as u8);
            pixels.push(((x + y) % 256) as u8);
            pixels.push(255);
        }
    }
    pixels
}

fn decoded_size(jpeg: &[u8]) -> (usize, usize) {
    let decoder = mozjpeg::Decompress::new_mem(jpeg).unwrap();
    decoder.size()
}

#[test]
fn pixel_buffer_rejects_zero_width() {
    let made = PixelBuffer::new(0, 3, ColorSpace::Rgb, vec![]);
    assert_eq!(made.err(), Some(DecodeError::BadDimensions));
}

#[test]
fn pixel_buffer_rejects_oversized_height() {
    let made = PixelBuffer::new(1, MAX_DIMENSION + 1, ColorSpace::Gray, vec![0]);
    assert_eq!(made.err(), Some(DecodeError::BadDimensions));
}

#[test]
fn pixel_buffer_rejects_wrong_length() {
    let made = PixelBuffer::new(2, 2, ColorSpace::Rgb, vec![0; 11]);
    assert_eq!(made.err(), Some(DecodeError::BadLength));
}

#[test]
fn pixel_buffer_from_failed_decoder_is_unreadable() {
    assert_eq!(PixelBuffer::from_decoder(None).err(), Some(DecodeError::Unreadable));
}

#[test]
fn pixel_buffer_keeps_what_it_was_given() {
    let buffer = PixelBuffer::new(2, 1, ColorSpace::Rgb, vec![1, 2, 3, 4, 5, 6]).unwrap();
    assert_eq!(buffer.width(), 2);
    assert_eq!(buffer.height(), 1);
    assert_eq!(buffer.color_space(), ColorSpace::Rgb);
    assert_eq!(buffer.pixels(), &vec![1, 2, 3, 4, 5, 6]);
}

#[test]
fn channels_per_color_space() {
    assert_eq!(ColorSpace::Gray.channels(), 1);
    assert_eq!(ColorSpace::Rgb.channels(), 3);
    assert_eq!(ColorSpace::Rgba.channels(), 4);
}

#[test]
fn resample_halves_a_row() {
    // 4x1 gray image: target column x takes source column x * 4 / 2.
    let buffer = PixelBuffer::new(4, 1, ColorSpace::Gray, vec![10, 20, 30, 40]).unwrap();
    let small = buffer.resample(2, 1).unwrap();
    assert_eq!(small.width(), 2);
    assert_eq!(small.height(), 1);
    assert_eq!(small.pixels(), &vec![10, 30]);
}

#[test]
fn resample_picks_whole_pixels() {
    // 2x2 RGB to 1x1 takes the top left pixel.
    let pixels = vec![1, 2, 3, 4, 5, 6, 7, 8, 9, 10, 11, 12];
    let buffer = PixelBuffer::new(2, 2, ColorSpace::Rgb, pixels).unwrap();
    let small = buffer.resample(1, 1).unwrap();
    assert_eq!(small.pixels(), &vec![1, 2, 3]);
}

#[test]
fn resample_enlarges_by_repeating() {
    let buffer = PixelBuffer::new(2, 1, ColorSpace::Gray, vec![7, 9]).unwrap();
    let large = buffer.resample(4, 2).unwrap();
    assert_eq!(large.pixels(), &vec![7, 7, 9, 9, 7, 7, 9, 9]);
}

#[test]
fn resample_to_same_size_changes_nothing() {
    let pixels = gradient(5, 3);
    let buffer = PixelBuffer::new(5, 3, ColorSpace::Rgba, pixels.clone()).unwrap();
    let same = buffer.resample(5, 3).unwrap();
    assert_eq!(same.pixels(), &pixels);
}

#[test]
fn resample_rejects_zero_target() {
    let buffer = PixelBuffer::new(1, 1, ColorSpace::Gray, vec![0]).unwrap();
    assert_eq!(buffer.resample(0, 1).err(), Some(EncodeError::BadTarget));
}

#[test]
fn encode_rejects_oversized_target() {
    let buffer = PixelBuffer::new(1, 1, ColorSpace::Gray, vec![0]).unwrap();
    assert_eq!(buffer.encode(Some(MAX_DIMENSION + 1), None).err(), Some(EncodeError::BadTarget));
}

#[test]
fn encode_gives_a_jpeg_of_the_target_size() {
    let buffer = PixelBuffer::new(40, 30, ColorSpace::Rgba, gradient(40, 30)).unwrap();
    let jpeg = buffer.encode(Some(8), Some(6)).unwrap();
    assert_eq!(&jpeg[..2], &[0xFF, 0xD8]);
    assert_eq!(decoded_size(&jpeg), (8, 6));
}

#[test]
fn encode_without_target_keeps_the_size() {
    let buffer = PixelBuffer::new(16, 9, ColorSpace::Rgb, vec![128; 16 * 9 * 3]).unwrap();
    let jpeg = buffer.encode(None, None).unwrap();
    assert_eq!(decoded_size(&jpeg), (16, 9));
}

#[test]
fn encode_with_one_dimension_keeps_the_other() {
    let buffer = PixelBuffer::new(16, 9, ColorSpace::Gray, vec![128; 16 * 9]).unwrap();
    let jpeg = buffer.encode(Some(4), None).unwrap();
    assert_eq!(decoded_size(&jpeg), (4, 9));
}

#[test]
fn encode_twice_gives_the_same_bytes() {
    let buffer = PixelBuffer::new(40, 30, ColorSpace::Rgba, gradient(40, 30)).unwrap();
    let first = buffer.encode(Some(20), Some(15)).unwrap();
    let second = buffer.encode(Some(20), Some(15)).unwrap();
    assert_eq!(first, second);
}

#[test]
fn thumbnail_of_large_photo_has_target_size() {
    let buffer = PixelBuffer::new(4000, 3000, ColorSpace::Rgba, gradient(4000, 3000)).unwrap();
    let jpeg = buffer.encode(Some(400), Some(300)).unwrap();
    assert_eq!(decoded_size(&jpeg), (400, 300));
}

#[test]
fn dimensions_are_checked_before_length() {
    let made = PixelBuffer::new(0, 1, ColorSpace::Gray, vec![1, 2, 3]);
    assert_eq!(made.err(), Some(DecodeError::BadDimensions));
}

#[test]
fn pixel_buffer_from_decoder_is_checked() {
    let good = PixelBuffer::from_decoder(Some((1, 2, ColorSpace::Rgb, vec![0; 6]))).unwrap();
    assert_eq!((good.width(), good.height()), (1, 2));
    let short = PixelBuffer::from_decoder(Some((1, 2, ColorSpace::Rgb, vec![0; 5])));
    assert_eq!(short.err(), Some(DecodeError::BadLength));
    let flat = PixelBuffer::from_decoder(Some((1, 0, ColorSpace::Rgb, vec![])));
    assert_eq!(flat.err(), Some(DecodeError::BadDimensions));
}

#[test]
fn largest_dimension_is_accepted() {
    let made = PixelBuffer::new(MAX_DIMENSION, 1, ColorSpace::Gray, vec![0; MAX_DIMENSION]);
    assert_eq!(made.unwrap().width(), 65500);
}

#[test]
fn encoder_failure_becomes_a_codec_error() {
    let failed = encoder_outcome(Err(std::io::Error::from(std::io::ErrorKind::InvalidInput)));
    assert_eq!(failed, Err(EncodeError::Codec));
    assert_eq!(encoder_outcome(Ok(vec![1, 2])), Ok(vec![1, 2]));
}

#[test]
fn encode_differs_with_the_pixels() {
    let dark = PixelBuffer::new(8, 8, ColorSpace::Gray, vec![10; 64]).unwrap();
    let light = PixelBuffer::new(8, 8, ColorSpace::Gray, vec![240; 64]).unwrap();
    let dark_jpeg = dark.encode(None, None).unwrap();
    assert_ne!(dark_jpeg, light.encode(None, None).unwrap());
    assert_ne!(&dark_jpeg, dark.pixels());
}
