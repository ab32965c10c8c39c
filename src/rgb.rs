//! `rgb` contains the planar image container for the RGB colour space, and cursors that walk
//! three channel planes together in row-major order.

use vstd::prelude::*;

use crate::buffer::{bytes_as_mut_slice, bytes_as_slice, empty_bytes, minivec_items, resize_bytes};
use crate::Numeric;

verus! {

/// `Image` represents an RGB image. Each channel is its own allocation, which allows such
/// things as constant-time channel swapping and makes the data cheaper to hand to a consumer
/// that expects channel-major (`CHW`) rather than packed (`HWC`) ordering.
#[verifier::reject_recursive_types(T)]
pub struct Image<T: Numeric> {
    pub(crate) r: minivec::MiniVec<T>,
    pub(crate) g: minivec::MiniVec<T>,
    pub(crate) b: minivec::MiniVec<T>,
    pub(crate) h: usize,
    pub(crate) w: usize,
}

impl<T: Numeric> Image<T> {
    /// The number of columns.
    pub closed spec fn cols(&self) -> nat {
        self.w as nat
    }

    /// The number of rows.
    pub closed spec fn rows(&self) -> nat {
        self.h as nat
    }

    /// `width` returns the number of columns in the image.
    pub fn width(&self) -> (w: usize)
        ensures
            w == self.cols(),
    {
        self.w
    }

    /// `height` returns the number of rows in the image.
    pub fn height(&self) -> (h: usize)
        ensures
            h == self.rows(),
    {
        self.h
    }

    /// `total` returns the number of pixels in the image, `width * height`.
    pub fn total(&self) -> (n: usize)
        requires
            self.cols() * self.rows() <= usize::MAX,
        ensures
            n == self.cols() * self.rows(),
    {
        self.w * self.h
    }
}

impl Image<u8> {
    /// The red plane.
    pub closed spec fn red(&self) -> Seq<u8> {
        minivec_items(self.r)
    }

    /// The green plane.
    pub closed spec fn green(&self) -> Seq<u8> {
        minivec_items(self.g)
    }

    /// The blue plane.
    pub closed spec fn blue(&self) -> Seq<u8> {
        minivec_items(self.b)
    }

    /// Each plane holds one sample per pixel.
    pub open spec fn wf(&self) -> bool {
        &&& self.cols() * self.rows() <= usize::MAX
        &&& self.red().len() == self.cols() * self.rows()
        &&& self.green().len() == self.cols() * self.rows()
        &&& self.blue().len() == self.cols() * self.rows()
    }

    /// An image of `width` x `height` pixels over the given planes.
    pub(crate) fn from_planes(
        r: minivec::MiniVec<u8>,
        g: minivec::MiniVec<u8>,
        b: minivec::MiniVec<u8>,
        width: usize,
        height: usize,
    ) -> (img: Self)
        ensures
            img.red() == minivec_items(r),
            img.green() == minivec_items(g),
            img.blue() == minivec_items(b),
            img.cols() == width,
            img.rows() == height,
    {
        Image { r, g, b, h: height, w: width }
    }

    /// `new` returns an empty `Image`.
    pub fn new() -> (img: Self)
        ensures
            img.wf(),
            img.cols() == 0,
            img.rows() == 0,
            img.red().len() == 0,
            img.green().len() == 0,
            img.blue().len() == 0,
    {
        Image { r: empty_bytes(), g: empty_bytes(), b: empty_bytes(), h: 0, w: 0 }
    }

    /// `r` returns the red channel.
    pub fn r(&self) -> (s: &[u8])
        ensures
            s@ == self.red(),
    {
        bytes_as_slice(&self.r)
    }

    /// `g` returns the green channel.
    pub fn g(&self) -> (s: &[u8])
        ensures
            s@ == self.green(),
    {
        bytes_as_slice(&self.g)
    }

    /// `b` returns the blue channel.
    pub fn b(&self) -> (s: &[u8])
        ensures
            s@ == self.blue(),
    {
        bytes_as_slice(&self.b)
    }

    /// `rgb_mut` returns the three planes, in `RGB` order, for writing; the shape is kept.
    pub fn rgb_mut(&mut self) -> (planes: (&mut [u8], &mut [u8], &mut [u8]))
        ensures
            (*planes.0)@ == old(self).red(),
            (*planes.1)@ == old(self).green(),
            (*planes.2)@ == old(self).blue(),
            final(self).red() == (*final(planes.0))@,
            final(self).green() == (*final(planes.1))@,
            final(self).blue() == (*final(planes.2))@,
            final(self).cols() == old(self).cols(),
            final(self).rows() == old(self).rows(),
    {
        (bytes_as_mut_slice(&mut self.r), bytes_as_mut_slice(&mut self.g), bytes_as_mut_slice(&mut self.b))
    }

    /// `rgb_iter` returns a cursor that walks the image in row-major order, yielding each pixel
    /// as `[r, g, b]`.
    pub fn rgb_iter(&self) -> (it: Iter<'_, u8>)
        ensures
            it@ == pixels3(self.red(), self.green(), self.blue()),
    {
        make_iter(self.r(), self.g(), self.b())
    }

    /// `rgb_iter_mut` returns an [`IterMut`] that writes pixels into the image in row-major
    /// order; the shape is kept.
    pub fn rgb_iter_mut(&mut self) -> (it: IterMut<'_, u8>)
        ensures
            it.pos == 0,
            (*it.r)@ == old(self).red(),
            (*it.g)@ == old(self).green(),
            (*it.b)@ == old(self).blue(),
            final(self).red() == (*final(it.r))@,
            final(self).green() == (*final(it.g))@,
            final(self).blue() == (*final(it.b))@,
            final(self).cols() == old(self).cols(),
            final(self).rows() == old(self).rows(),
    {
        let (r, g, b) = self.rgb_mut();
        make_iter_mut(r, g, b)
    }

    /// `resize` sets the image to `width` columns and `height` rows, truncating each plane or
    /// extending it with zeros to `width * height` samples. The image's content should be taken
    /// as lost: samples are not moved to follow the new shape.
    pub fn resize(&mut self, width: usize, height: usize)
        requires
            width * height <= usize::MAX,
        ensures
            final(self).wf(),
            final(self).cols() == width,
            final(self).rows() == height,
            final(self).red() == resized(old(self).red(), (width * height) as nat),
            final(self).green() == resized(old(self).green(), (width * height) as nat),
            final(self).blue() == resized(old(self).blue(), (width * height) as nat),
    {
        let n = width * height;
        resize_bytes(&mut self.r, n, 0);
        resize_bytes(&mut self.g, n, 0);
        resize_bytes(&mut self.b, n, 0);
        self.h = height;
        self.w = width;
    }
}

impl Default for Image<u8> {
    /// An empty image.
    fn default() -> (img: Self)
        ensures
            img.wf(),
            img.cols() == 0,
            img.rows() == 0,
            img.red().len() == 0,
            img.green().len() == 0,
            img.blue().len() == 0,
    {
        Image::new()
    }
}

/// `s` truncated, or extended with zeros, to `n` samples.
pub open spec fn resized(s: Seq<u8>, n: nat) -> Seq<u8> {
    if n <= s.len() {
        s.take(n as int)
    } else {
        s + Seq::new((n - s.len()) as nat, |i: int| 0u8)
    }
}

/// The pixels of three planes in row-major order, as far as all three reach.
pub open spec fn pixels3<T>(r: Seq<T>, g: Seq<T>, b: Seq<T>) -> Seq<[T; 3]> {
    Seq::new(shortest(r.len(), g.len(), b.len()), |i: int| [r[i], g[i], b[i]])
}

/// `Iter` walks three channel planes together in row-major order, yielding each pixel as
/// `[r, g, b]`, and stops at the end of the shortest plane.
pub struct Iter<'a, T: Numeric> {
    r: &'a [T],
    g: &'a [T],
    b: &'a [T],
    pos: usize,
}

impl<'a, T: Numeric> View for Iter<'a, T> {
    type V = Seq<[T; 3]>;

    /// The pixels still to come.
    closed spec fn view(&self) -> Seq<[T; 3]> {
        pixels3(self.r@, self.g@, self.b@).skip(self.pos as int)
    }
}

impl<'a, T: Numeric> Iter<'a, T> {
    #[verifier::type_invariant]
    closed spec fn wf(&self) -> bool {
        self.pos <= pixels3(self.r@, self.g@, self.b@).len()
    }

    /// `new` returns an [`Iter`] over the given planes.
    pub fn new(r: &'a [T], g: &'a [T], b: &'a [T]) -> (it: Self)
        ensures
            it@ == pixels3(r@, g@, b@),
    {
        let it = Iter { r, g, b, pos: 0 };
        assert(it@ =~= pixels3(r@, g@, b@));
        it
    }

    /// `next` yields the next pixel, or `None` once the shortest plane is exhausted.
    pub fn next(&mut self) -> (px: Option<[T; 3]>)
        ensures
            old(self)@.len() == 0 ==> px is None && final(self)@ == old(self)@,
            old(self)@.len() > 0 ==> px == Some(old(self)@[0]) && final(self)@
                == old(self)@.drop_first(),
    {
        proof {
            use_type_invariant(&*self);
        }
        if self.pos < self.r.len() && self.pos < self.g.len() && self.pos < self.b.len() {
            let px = [self.r[self.pos], self.g[self.pos], self.b[self.pos]];
            self.pos = self.pos + 1;
            assert(self@ =~= old(self)@.drop_first());
            Some(px)
        } else {
            None
        }
    }
}

/// `make_iter` returns an [`Iter`] that walks the planes in row-major order, yielding each
/// pixel as `[r, g, b]`.
pub fn make_iter<'a, T: Numeric>(r: &'a [T], g: &'a [T], b: &'a [T]) -> (it: Iter<'a, T>)
    ensures
        it@ == pixels3(r@, g@, b@),
{
    Iter::new(r, g, b)
}

/// The number of pixels that three planes of these lengths hold together: the shortest length.
pub open spec fn shortest(r: nat, g: nat, b: nat) -> nat {
    if r <= g && r <= b {
        r
    } else if g <= b {
        g
    } else {
        b
    }
}

/// `IterMut` walks three channel planes together in row-major order and writes one pixel at a
/// time into them, up to the end of the shortest plane. `pos` is the index of the next pixel.
pub struct IterMut<'a, T: Numeric> {
    pub r: &'a mut [T],
    pub g: &'a mut [T],
    pub b: &'a mut [T],
    pub pos: usize,
}

impl<'a, T: Numeric> IterMut<'a, T> {
    /// `new` returns an [`IterMut`] that writes into the given planes from their first pixel;
    /// what it has written is what the planes hold once it is dropped.
    pub fn new(r: &'a mut [T], g: &'a mut [T], b: &'a mut [T]) -> (it: Self)
        ensures
            it.pos == 0,
            (*it.r)@ == old(r)@,
            (*it.g)@ == old(g)@,
            (*it.b)@ == old(b)@,
            (*final(r))@ == (*final(it.r))@,
            (*final(g))@ == (*final(it.g))@,
            (*final(b))@ == (*final(it.b))@,
    {
        IterMut { r, g, b, pos: 0 }
    }

    /// `put` writes `px` as the next pixel and returns `true`, or returns `false` and writes
    /// nothing once the shortest plane is full.
    pub fn put(&mut self, px: [T; 3]) -> (written: bool)
        ensures
            written == (old(self).pos < shortest(
                old(self).r@.len(),
                old(self).g@.len(),
                old(self).b@.len(),
            )),
            written ==> final(self).pos == old(self).pos + 1,
            written ==> (*final(self).r)@ == old(self).r@.update(old(self).pos as int, px[0]),
            written ==> (*final(self).g)@ == old(self).g@.update(old(self).pos as int, px[1]),
            written ==> (*final(self).b)@ == old(self).b@.update(old(self).pos as int, px[2]),
            !written ==> final(self).pos == old(self).pos && (*final(self).r)@ == old(self).r@
                && (*final(self).g)@ == old(self).g@ && (*final(self).b)@ == old(self).b@,
            (*final(final(self).r))@ == (*final(old(self).r))@,
            (*final(final(self).g))@ == (*final(old(self).g))@,
            (*final(final(self).b))@ == (*final(old(self).b))@,
    {
        if self.pos < self.r.len() && self.pos < self.g.len() && self.pos < self.b.len() {
            self.r[self.pos] = px[0];
            self.g[self.pos] = px[1];
            self.b[self.pos] = px[2];
            self.pos = self.pos + 1;
            true
        } else {
            false
        }
    }
}

/// `make_iter_mut` returns an [`IterMut`] that writes pixels into the planes in row-major
/// order.
pub fn make_iter_mut<'a, T: Numeric>(r: &'a mut [T], g: &'a mut [T], b: &'a mut [T]) -> (it:
    IterMut<'a, T>)
    ensures
        it.pos == 0,
        (*it.r)@ == old(r)@,
        (*it.g)@ == old(g)@,
        (*it.b)@ == old(b)@,
        (*final(r))@ == (*final(it.r))@,
        (*final(g))@ == (*final(it.g))@,
        (*final(b))@ == (*final(it.b))@,
{
    IterMut::new(r, g, b)
}

} // verus!
