//! `png` holds the PNG-independent part of reading and writing 8-bit images: the error type,
//! the check of a decoded image's colour type and bit depth, splitting decoded pixel data into
//! planes and packing pixels into the byte layout that an encoder takes. The decoding and
//! encoding themselves are done by the `png` crate.

use vstd::prelude::*;

use crate::buffer::{bytes_as_mut_slice, empty_bytes, minivec_items, resize_bytes};
use crate::{gray, rgb, rgba};

verus! {

#[verifier::external_type_specification]
#[verifier::external_body]
pub struct ExDecodingError(png::DecodingError);

#[verifier::external_type_specification]
#[verifier::external_body]
pub struct ExEncodingError(png::EncodingError);

/// `Error` carries a decoding or encoding error of the `png` crate, or says that a decoded
/// image does not have the expected format.
#[derive(Debug)]
pub enum Error {
    /// Error during the PNG decoding process.
    Decoding(png::DecodingError),
    /// Error in the PNG encoding process.
    Encoding(png::EncodingError),
    /// The image's bit depth is not the one expected.
    InvalidBitDepth,
    /// The image's colour type is not the one expected.
    InvalidColorType,
}

impl From<png::DecodingError> for Error {
    fn from(err: png::DecodingError) -> (e: Error)
        ensures
            e == Error::Decoding(err),
    {
        Error::Decoding(err)
    }
}

impl vstd::std_specs::convert::FromSpecImpl<png::DecodingError> for Error {
    open spec fn obeys_from_spec() -> bool {
        true
    }

    open spec fn from_spec(err: png::DecodingError) -> Error {
        Error::Decoding(err)
    }
}

impl From<png::EncodingError> for Error {
    fn from(err: png::EncodingError) -> (e: Error)
        ensures
            e == Error::Encoding(err),
    {
        Error::Encoding(err)
    }
}

impl vstd::std_specs::convert::FromSpecImpl<png::EncodingError> for Error {
    open spec fn obeys_from_spec() -> bool {
        true
    }

    open spec fn from_spec(err: png::EncodingError) -> Error {
        Error::Encoding(err)
    }
}

/// The colour type of a decoded PNG image.
#[derive(Clone, Copy, PartialEq, Eq, Structural, Debug)]
pub enum ColorType {
    Grayscale,
    Rgb,
    Indexed,
    GrayscaleAlpha,
    Rgba,
}

/// The number of bits per sample of a decoded PNG image.
#[derive(Clone, Copy, PartialEq, Eq, Structural, Debug)]
pub enum BitDepth {
    One,
    Two,
    Four,
    Eight,
    Sixteen,
}

/// The samples per pixel of `color`.
pub open spec fn samples(color: ColorType) -> int {
    match color {
        ColorType::Grayscale => 1,
        ColorType::Rgb => 3,
        ColorType::Indexed => 1,
        ColorType::GrayscaleAlpha => 2,
        ColorType::Rgba => 4,
    }
}

/// Accepts an image of one of the colour types in `accepted` and a depth of eight bits, and
/// gives its samples per pixel; otherwise the colour type is reported before the depth.
pub open spec fn layout_result(
    color: ColorType,
    depth: BitDepth,
    accepted: Set<ColorType>,
    r: Result<usize, Error>,
) -> bool {
    if !accepted.contains(color) {
        r matches Err(Error::InvalidColorType)
    } else if depth != BitDepth::Eight {
        r matches Err(Error::InvalidBitDepth)
    } else {
        r matches Ok(n) && n == samples(color)
    }
}

fn samples_of(color: ColorType) -> (n: usize)
    ensures
        n == samples(color),
{
    match color {
        ColorType::Grayscale => 1,
        ColorType::Rgb => 3,
        ColorType::Indexed => 1,
        ColorType::GrayscaleAlpha => 2,
        ColorType::Rgba => 4,
    }
}

/// `rgba8_layout` checks that a decoded image is 8-bit RGBA and gives its samples per pixel.
pub fn rgba8_layout(color: ColorType, depth: BitDepth) -> (r: Result<usize, Error>)
    ensures
        layout_result(color, depth, set![ColorType::Rgba], r),
{
    if color != ColorType::Rgba {
        return Err(Error::InvalidColorType);
    }
    if depth != BitDepth::Eight {
        return Err(Error::InvalidBitDepth);
    }
    Ok(samples_of(color))
}

/// `rgb8_layout` checks that a decoded image is 8-bit RGB or RGBA and gives its samples per
/// pixel.
pub fn rgb8_layout(color: ColorType, depth: BitDepth) -> (r: Result<usize, Error>)
    ensures
        layout_result(color, depth, set![ColorType::Rgb, ColorType::Rgba], r),
{
    if color != ColorType::Rgba && color != ColorType::Rgb {
        return Err(Error::InvalidColorType);
    }
    if depth != BitDepth::Eight {
        return Err(Error::InvalidBitDepth);
    }
    Ok(samples_of(color))
}

/// `gray8_layout` checks that a decoded image is 8-bit grayscale, with or without alpha, and
/// gives its samples per pixel.
pub fn gray8_layout(color: ColorType, depth: BitDepth) -> (r: Result<usize, Error>)
    ensures
        layout_result(color, depth, set![ColorType::Grayscale, ColorType::GrayscaleAlpha], r),
{
    if color != ColorType::Grayscale && color != ColorType::GrayscaleAlpha {
        return Err(Error::InvalidColorType);
    }
    if depth != BitDepth::Eight {
        return Err(Error::InvalidBitDepth);
    }
    Ok(samples_of(color))
}

/// Sample `offset` of each of the first `n` pixels of `buf`, whose pixels are `channels`
/// samples each, one after another.
pub open spec fn plane_of(buf: Seq<u8>, channels: int, offset: int, n: int) -> Seq<u8> {
    Seq::new(n as nat, |k: int| buf[channels * k + offset])
}

fn split_plane(buf: &[u8], channels: usize, offset: usize, n: usize) -> (v: minivec::MiniVec<u8>)
    requires
        offset < channels,
        channels * n <= buf@.len(),
    ensures
        minivec_items(v) == plane_of(buf@, channels as int, offset as int, n as int),
{
    let mut v = empty_bytes();
    resize_bytes(&mut v, n, 0);
    let s = bytes_as_mut_slice(&mut v);
    assert(buf@.len() == buf.len());
    let mut k: usize = 0;
    while k < n
        invariant
            buf@.len() == buf.len(),
            offset < channels,
            channels * n <= buf@.len(),
            s@.len() == n,
            k <= n,
            forall|j: int| 0 <= j < k ==> s@[j] == buf@[channels * j + offset],
        decreases n - k,
    {
        proof {
            assert(0 <= channels * k && channels * k + offset < channels * n) by (nonlinear_arith)
                requires
                    k < n,
                    offset < channels,
            ;
        }
        s[k] = buf[channels * k + offset];
        k += 1;
    }
    assert(s@ =~= plane_of(buf@, channels as int, offset as int, n as int));
    v
}

/// `unpack_rgba8` builds the `width` x `height` RGBA image whose pixels are packed in `buf`,
/// four samples each, in row-major order.
pub fn unpack_rgba8(buf: &[u8], width: usize, height: usize) -> (img: rgba::Image<u8>)
    requires
        4 * (width * height) <= buf@.len(),
    ensures
        img.wf(),
        img.cols() == width,
        img.rows() == height,
        img.red() == plane_of(buf@, 4, 0, width * height),
        img.green() == plane_of(buf@, 4, 1, width * height),
        img.blue() == plane_of(buf@, 4, 2, width * height),
        img.alpha() == plane_of(buf@, 4, 3, width * height),
{
    proof {
        assert(buf@.len() == buf.len());
        assert(0 <= width * height <= 4 * (width * height)) by (nonlinear_arith);
    }
    let n = width * height;
    rgba::Image::from_planes(
        split_plane(buf, 4, 0, n),
        split_plane(buf, 4, 1, n),
        split_plane(buf, 4, 2, n),
        split_plane(buf, 4, 3, n),
        width,
        height,
    )
}

/// `unpack_rgb8` builds the `width` x `height` RGB image whose pixels are packed in `buf`,
/// `channels` samples each (3 for RGB, 4 for RGBA, whose alpha is dropped), in row-major order.
pub fn unpack_rgb8(buf: &[u8], channels: usize, width: usize, height: usize) -> (img: rgb::Image<
    u8,
>)
    requires
        channels == 3 || channels == 4,
        channels * (width * height) <= buf@.len(),
    ensures
        img.wf(),
        img.cols() == width,
        img.rows() == height,
        img.red() == plane_of(buf@, channels as int, 0, width * height),
        img.green() == plane_of(buf@, channels as int, 1, width * height),
        img.blue() == plane_of(buf@, channels as int, 2, width * height),
{
    proof {
        assert(buf@.len() == buf.len());
        assert(0 <= width * height <= channels * (width * height)) by (nonlinear_arith)
            requires
                channels >= 3,
        ;
    }
    let n = width * height;
    rgb::Image::from_planes(
        split_plane(buf, channels, 0, n),
        split_plane(buf, channels, 1, n),
        split_plane(buf, channels, 2, n),
        width,
        height,
    )
}

/// `unpack_gray8` builds the `width` x `height` grayscale image whose pixels are packed in
/// `buf`, `channels` samples each (1 for grayscale, 2 for grayscale with alpha, which is
/// dropped), in row-major order.
pub fn unpack_gray8(buf: &[u8], channels: usize, width: usize, height: usize) -> (img: gray::Image<
    u8,
>)
    requires
        channels == 1 || channels == 2,
        channels * (width * height) <= buf@.len(),
    ensures
        img.wf(),
        img.cols() == width,
        img.rows() == height,
        img.values() == plane_of(buf@, channels as int, 0, width * height),
{
    proof {
        assert(buf@.len() == buf.len());
        assert(0 <= width * height <= channels * (width * height)) by (nonlinear_arith)
            requires
                channels >= 1,
        ;
    }
    let n = width * height;
    gray::Image::from_values(split_plane(buf, channels, 0, n), width, height)
}

/// The `count * N` bytes that an encoder takes for `count` pixels of `N` samples each: the
/// samples of `pixels`, one pixel after another, then zeros for any pixel that `pixels` lacks.
pub open spec fn packed<const N: usize>(pixels: Seq<[u8; N]>, count: int) -> Seq<u8> {
    Seq::new(
        (N * count) as nat,
        |i: int|
            if i / (N as int) < pixels.len() {
                pixels[i / (N as int)]@[i % (N as int)]
            } else {
                0u8
            },
    )
}

/// `pack_pixels` lays out `count` pixels of `N` samples each for an encoder: the samples of
/// `pixels`, one pixel after another; pixels past the end of `pixels` are zero, and pixels
/// past `count` are left out.
pub fn pack_pixels<const N: usize>(pixels: &[[u8; N]], count: usize) -> (buf: Vec<u8>)
    requires
        N >= 1,
        N * count <= usize::MAX,
    ensures
        buf@ == packed(pixels@, count as int),
{
    let ghost want = packed(pixels@, count as int);
    let mut buf: Vec<u8> = Vec::new();
    let mut k: usize = 0;
    while k < count
        invariant
            N >= 1,
            N * count <= usize::MAX,
            want == packed(pixels@, count as int),
            k <= count,
            buf@.len() == N * k,
            forall|i: int| 0 <= i < buf@.len() ==> buf@[i] == want[i],
        decreases count - k,
    {
        let mut c: usize = 0;
        while c < N
            invariant
                N >= 1,
                N * count <= usize::MAX,
                want == packed(pixels@, count as int),
                k < count,
                c <= N,
                buf@.len() == N * k + c,
                forall|i: int| 0 <= i < buf@.len() ==> buf@[i] == want[i],
            decreases N - c,
        {
            proof {
                assert(N * k + c == k * N + c) by (nonlinear_arith);
                vstd::arithmetic::div_mod::lemma_fundamental_div_mod_converse(
                    N * k + c,
                    N as int,
                    k as int,
                    c as int,
                );
                assert(N * k + c < N * count) by (nonlinear_arith)
                    requires
                        k < count,
                        c < N,
                ;
            }
            if k < pixels.len() {
                buf.push(pixels[k][c]);
            } else {
                buf.push(0);
            }
            c += 1;
        }
        proof {
            assert(N * (k + 1) == N * k + N) by (nonlinear_arith);
        }
        k += 1;
    }
    assert(buf@ =~= want);
    buf
}

} // verus!
