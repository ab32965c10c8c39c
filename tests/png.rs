use cvr::png::{
    gray8_layout, pack_pixels, rgb8_layout, rgba8_layout, unpack_gray8, unpack_rgb8,
    unpack_rgba8, BitDepth, ColorType, Error,
};

#[test]
fn layouts_accept_expected_formats() {
    assert!(matches!(rgba8_layout(ColorType::Rgba, BitDepth::Eight), Ok(4)));
    assert!(matches!(rgb8_layout(ColorType::Rgb, BitDepth::Eight), Ok(3)));
    assert!(matches!(rgb8_layout(ColorType::Rgba, BitDepth::Eight), Ok(4)));
    assert!(matches!(gray8_layout(ColorType::Grayscale, BitDepth::Eight), Ok(1)));
    assert!(matches!(gray8_layout(ColorType::GrayscaleAlpha, BitDepth::Eight), Ok(2)));
}

#[test]
fn layouts_reject_wrong_color_type_first() {
    assert!(matches!(rgba8_layout(ColorType::Rgb, BitDepth::Eight), Err(Error::InvalidColorType)));
    assert!(matches!(
        rgb8_layout(ColorType::Grayscale, BitDepth::Sixteen),
        Err(Error::InvalidColorType)
    ));
    assert!(matches!(gray8_layout(ColorType::Indexed, BitDepth::Eight), Err(Error::InvalidColorType)));
}

#[test]
fn layouts_reject_wrong_bit_depth() {
    assert!(matches!(rgba8_layout(ColorType::Rgba, BitDepth::Sixteen), Err(Error::InvalidBitDepth)));
    assert!(matches!(rgb8_layout(ColorType::Rgb, BitDepth::One), Err(Error::InvalidBitDepth)));
    assert!(matches!(
        gray8_layout(ColorType::GrayscaleAlpha, BitDepth::Four),
        Err(Error::InvalidBitDepth)
    ));
}

#[test]
fn unpack_splits_channels() {
    let buf = [1_u8, 2, 3, 4, 5, 6, 7, 8];
    let img = unpack_rgba8(&buf, 2, 1);
    assert_eq!((img.width(), img.height()), (2, 1));
    assert_eq!(img.r(), &[1, 5]);
    assert_eq!(img.g(), &[2, 6]);
    assert_eq!(img.b(), &[3, 7]);
    assert_eq!(img.a(), &[4, 8]);
    let mut it = img.rgba_iter();
    assert_eq!(it.next(), Some([1, 2, 3, 4]));
    let mut it = img.rgb_iter();
    assert_eq!(it.next(), Some([1, 2, 3]));

    let rgb = unpack_rgb8(&buf, 4, 1, 2);
    assert_eq!((rgb.width(), rgb.height()), (1, 2));
    assert_eq!(rgb.r(), &[1, 5]);
    assert_eq!(rgb.b(), &[3, 7]);

    let rgb = unpack_rgb8(&buf[..6], 3, 2, 1);
    assert_eq!(rgb.r(), &[1, 4]);
    assert_eq!(rgb.g(), &[2, 5]);
    assert_eq!(rgb.b(), &[3, 6]);

    let gray = unpack_gray8(&buf, 2, 2, 2);
    assert_eq!(gray.v(), &[1, 3, 5, 7]);
    assert_eq!(gray.total(), 4);
    assert_eq!(gray.iter().copied().collect::<Vec<u8>>(), vec![1, 3, 5, 7]);
    let gray = unpack_gray8(&buf, 1, 4, 2);
    assert_eq!(gray.v(), &buf);
}

#[test]
fn pack_interleaves_and_zero_fills() {
    let pixels = [[1_u8, 2, 3], [4, 5, 6]];
    assert_eq!(pack_pixels(&pixels, 2), vec![1, 2, 3, 4, 5, 6]);
    assert_eq!(pack_pixels(&pixels, 3), vec![1, 2, 3, 4, 5, 6, 0, 0, 0]);
    assert_eq!(pack_pixels(&pixels, 1), vec![1, 2, 3]);
    let pairs = [[9_u8, 255]];
    assert_eq!(pack_pixels(&pairs, 1), vec![9, 255]);
}

#[test]
fn gray_image_starts_empty() {
    let img = cvr::gray::Image::<u8>::new();
    assert_eq!((img.width(), img.height(), img.total()), (0, 0, 0));
    assert!(img.v().is_empty());
}
