//! `gray` contains the image container for single-channel (grayscale) images.

use vstd::prelude::*;

use crate::buffer::{bytes_as_slice, empty_bytes, minivec_items};
use crate::Numeric;
use vstd::std_specs::iter::IteratorSpec;

verus! {

/// `Image` represents a grayscale image: one sample per pixel, in row-major order.
#[verifier::reject_recursive_types(T)]
pub struct Image<T: Numeric> {
    pub(crate) v: minivec::MiniVec<T>,
    pub(crate) h: usize,
    pub(crate) w: usize,
}

impl<T: Numeric> Image<T> {
    /// The number of columns.
    pub closed spec fn cols(&self) -> nat {
        self.w as nat
    }

    /// The number of rows.
    pub closed spec fn rows(&self) -> nat {
        self.h as nat
    }

    /// `width` returns the number of columns in the image.
    pub fn width(&self) -> (w: usize)
        ensures
            w == self.cols(),
    {
        self.w
    }

    /// `height` returns the number of rows in the image.
    pub fn height(&self) -> (h: usize)
        ensures
            h == self.rows(),
    {
        self.h
    }

    /// `total` returns the number of pixels in the image, `width * height`.
    pub fn total(&self) -> (n: usize)
        requires
            self.cols() * self.rows() <= usize::MAX,
        ensures
            n == self.cols() * self.rows(),
    {
        self.w * self.h
    }
}

impl Image<u8> {
    /// The samples.
    pub closed spec fn values(&self) -> Seq<u8> {
        minivec_items(self.v)
    }

    /// The image holds one sample per pixel.
    pub open spec fn wf(&self) -> bool {
        &&& self.cols() * self.rows() <= usize::MAX
        &&& self.values().len() == self.cols() * self.rows()
    }

    /// An image of `width` x `height` pixels over the given samples.
    pub(crate) fn from_values(v: minivec::MiniVec<u8>, width: usize, height: usize) -> (img: Self)
        ensures
            img.values() == minivec_items(v),
            img.cols() == width,
            img.rows() == height,
    {
        Image { v, h: height, w: width }
    }

    /// `new` returns an empty `Image`.
    pub fn new() -> (img: Self)
        ensures
            img.wf(),
            img.cols() == 0,
            img.rows() == 0,
            img.values().len() == 0,
    {
        Image { v: empty_bytes(), h: 0, w: 0 }
    }

    /// `v` returns the samples.
    pub fn v(&self) -> (s: &[u8])
        ensures
            s@ == self.values(),
    {
        bytes_as_slice(&self.v)
    }

    /// `iter` returns an iterator over the samples.
    pub fn iter(&self) -> (it: std::slice::Iter<'_, u8>)
        ensures
            it.remaining() == self.values().as_ref(),
    {
        bytes_as_slice(&self.v).iter()
    }
}

impl Default for Image<u8> {
    /// An empty image.
    fn default() -> (img: Self)
        ensures
            img.wf(),
            img.cols() == 0,
            img.rows() == 0,
            img.values().len() == 0,
    {
        Image::new()
    }
}

} // verus!
