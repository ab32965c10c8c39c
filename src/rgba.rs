//! `rgba` contains the planar image container for the RGBA colour space, and cursors that walk
//! four channel planes together in row-major order.

use vstd::prelude::*;

use crate::buffer::{bytes_as_slice, empty_bytes, minivec_items};
use crate::rgb::{pixels3, shortest};
use crate::Numeric;

verus! {

/// `Image` represents an RGBA image. Each channel is its own allocation, which allows such
/// things as constant-time channel swapping and makes the data cheaper to hand to a consumer
/// that expects channel-major (`CHW`) rather than packed (`HWC`) ordering.
#[verifier::reject_recursive_types(T)]
pub struct Image<T: Numeric> {
    pub(crate) r: minivec::MiniVec<T>,
    pub(crate) g: minivec::MiniVec<T>,
    pub(crate) b: minivec::MiniVec<T>,
    pub(crate) a: minivec::MiniVec<T>,
    pub(crate) h: usize,
    pub(crate) w: usize,
}

impl<T: Numeric> Image<T> {
    /// The number of columns.
    pub closed spec fn cols(&self) -> nat {
        self.w as nat
    }

    /// The number of rows.
    pub closed spec fn rows(&self) -> nat {
        self.h as nat
    }

    /// `width` returns the number of columns in the image.
    pub fn width(&self) -> (w: usize)
        ensures
            w == self.cols(),
    {
        self.w
    }

    /// `height` returns the number of rows in the image.
    pub fn height(&self) -> (h: usize)
        ensures
            h == self.rows(),
    {
        self.h
    }
}

impl Image<u8> {
    /// The red plane.
    pub closed spec fn red(&self) -> Seq<u8> {
        minivec_items(self.r)
    }

    /// The green plane.
    pub closed spec fn green(&self) -> Seq<u8> {
        minivec_items(self.g)
    }

    /// The blue plane.
    pub closed spec fn blue(&self) -> Seq<u8> {
        minivec_items(self.b)
    }

    /// The alpha plane.
    pub closed spec fn alpha(&self) -> Seq<u8> {
        minivec_items(self.a)
    }

    /// Each plane holds one sample per pixel.
    pub open spec fn wf(&self) -> bool {
        &&& self.cols() * self.rows() <= usize::MAX
        &&& self.red().len() == self.cols() * self.rows()
        &&& self.green().len() == self.cols() * self.rows()
        &&& self.blue().len() == self.cols() * self.rows()
        &&& self.alpha().len() == self.cols() * self.rows()
    }

    /// An image of `width` x `height` pixels over the given planes.
    pub(crate) fn from_planes(
        r: minivec::MiniVec<u8>,
        g: minivec::MiniVec<u8>,
        b: minivec::MiniVec<u8>,
        a: minivec::MiniVec<u8>,
        width: usize,
        height: usize,
    ) -> (img: Self)
        ensures
            img.red() == minivec_items(r),
            img.green() == minivec_items(g),
            img.blue() == minivec_items(b),
            img.alpha() == minivec_items(a),
            img.cols() == width,
            img.rows() == height,
    {
        Image { r, g, b, a, h: height, w: width }
    }

    /// `r` returns the red channel.
    pub fn r(&self) -> (s: &[u8])
        ensures
            s@ == self.red(),
    {
        bytes_as_slice(&self.r)
    }

    /// `g` returns the green channel.
    pub fn g(&self) -> (s: &[u8])
        ensures
            s@ == self.green(),
    {
        bytes_as_slice(&self.g)
    }

    /// `b` returns the blue channel.
    pub fn b(&self) -> (s: &[u8])
        ensures
            s@ == self.blue(),
    {
        bytes_as_slice(&self.b)
    }

    /// `a` returns the alpha channel.
    pub fn a(&self) -> (s: &[u8])
        ensures
            s@ == self.alpha(),
    {
        bytes_as_slice(&self.a)
    }

    /// `rgba_iter` returns an [`Iter`] over the pixels of the image in row-major order.
    pub fn rgba_iter(&self) -> (it: Iter<'_, u8>)
        ensures
            it@ == pixels4(self.red(), self.green(), self.blue(), self.alpha()),
    {
        Iter::new(self.r(), self.g(), self.b(), self.a())
    }

    /// `rgb_iter` returns a [`crate::rgb::Iter`] over the colour of each pixel, leaving out
    /// alpha.
    pub fn rgb_iter(&self) -> (it: crate::rgb::Iter<'_, u8>)
        ensures
            it@ == pixels3(self.red(), self.green(), self.blue()),
    {
        crate::rgb::Iter::new(self.r(), self.g(), self.b())
    }
}

impl Default for Image<u8> {
    /// An empty image.
    fn default() -> (img: Self)
        ensures
            img.wf(),
            img.cols() == 0,
            img.rows() == 0,
            img.red().len() == 0,
            img.green().len() == 0,
            img.blue().len() == 0,
            img.alpha().len() == 0,
    {
        let img = Image {
            r: empty_bytes(),
            g: empty_bytes(),
            b: empty_bytes(),
            a: empty_bytes(),
            h: 0,
            w: 0,
        };
        assert(img.cols() * img.rows() == 0);
        img
    }
}

/// The shortest of four plane lengths.
pub open spec fn shortest4(r: nat, g: nat, b: nat, a: nat) -> nat {
    let n = shortest(r, g, b);
    if n <= a {
        n
    } else {
        a
    }
}

/// The pixels of four planes in row-major order, as far as all four reach.
pub open spec fn pixels4<T>(r: Seq<T>, g: Seq<T>, b: Seq<T>, a: Seq<T>) -> Seq<[T; 4]> {
    Seq::new(
        shortest4(r.len(), g.len(), b.len(), a.len()),
        |i: int| [r[i], g[i], b[i], a[i]],
    )
}

/// `Iter` walks four channel planes together in row-major order, yielding each pixel as
/// `[r, g, b, a]`, and stops at the end of the shortest plane.
pub struct Iter<'a, N: Numeric> {
    r: &'a [N],
    g: &'a [N],
    b: &'a [N],
    a: &'a [N],
    pos: usize,
}

impl<'a, N: Numeric> View for Iter<'a, N> {
    type V = Seq<[N; 4]>;

    /// The pixels still to come.
    closed spec fn view(&self) -> Seq<[N; 4]> {
        pixels4(self.r@, self.g@, self.b@, self.a@).skip(self.pos as int)
    }
}

impl<'a, N: Numeric> Iter<'a, N> {
    #[verifier::type_invariant]
    closed spec fn wf(&self) -> bool {
        self.pos <= pixels4(self.r@, self.g@, self.b@, self.a@).len()
    }

    /// `new` returns an [`Iter`] that traverses the given planes.
    pub fn new(r: &'a [N], g: &'a [N], b: &'a [N], a: &'a [N]) -> (it: Self)
        ensures
            it@ == pixels4(r@, g@, b@, a@),
    {
        let it = Iter { r, g, b, a, pos: 0 };
        assert(it@ =~= pixels4(r@, g@, b@, a@));
        it
    }

    /// `next` yields the next pixel, or `None` once the shortest plane is exhausted.
    pub fn next(&mut self) -> (px: Option<[N; 4]>)
        ensures
            old(self)@.len() == 0 ==> px is None && final(self)@ == old(self)@,
            old(self)@.len() > 0 ==> px == Some(old(self)@[0]) && final(self)@
                == old(self)@.drop_first(),
    {
        proof {
            use_type_invariant(&*self);
        }
        if self.pos < self.r.len() && self.pos < self.g.len() && self.pos < self.b.len()
            && self.pos < self.a.len() {
            let px = [self.r[self.pos], self.g[self.pos], self.b[self.pos], self.a[self.pos]];
            self.pos = self.pos + 1;
            assert(self@ =~= old(self)@.drop_first());
            Some(px)
        } else {
            None
        }
    }
}

/// `IterMut` walks four channel planes together in row-major order and writes one pixel at a
/// time into them, up to the end of the shortest plane. `pos` is the index of the next pixel.
pub struct IterMut<'a, T: Numeric> {
    pub r: &'a mut [T],
    pub g: &'a mut [T],
    pub b: &'a mut [T],
    pub a: &'a mut [T],
    pub pos: usize,
}

impl<'a, T: Numeric> IterMut<'a, T> {
    /// `new` returns an [`IterMut`] that writes into the given planes from their first pixel;
    /// what it has written is what the planes hold once it is dropped.
    pub fn new(r: &'a mut [T], g: &'a mut [T], b: &'a mut [T], a: &'a mut [T]) -> (it: Self)
        ensures
            it.pos == 0,
            (*it.r)@ == old(r)@,
            (*it.g)@ == old(g)@,
            (*it.b)@ == old(b)@,
            (*it.a)@ == old(a)@,
            (*final(r))@ == (*final(it.r))@,
            (*final(g))@ == (*final(it.g))@,
            (*final(b))@ == (*final(it.b))@,
            (*final(a))@ == (*final(it.a))@,
    {
        IterMut { r, g, b, a, pos: 0 }
    }

    /// `put` writes `px` as the next pixel and returns `true`, or returns `false` and writes
    /// nothing once the shortest plane is full.
    pub fn put(&mut self, px: [T; 4]) -> (written: bool)
        ensures
            written == (old(self).pos < shortest4(
                old(self).r@.len(),
                old(self).g@.len(),
                old(self).b@.len(),
                old(self).a@.len(),
            )),
            written ==> final(self).pos == old(self).pos + 1,
            written ==> (*final(self).r)@ == old(self).r@.update(old(self).pos as int, px[0]),
            written ==> (*final(self).g)@ == old(self).g@.update(old(self).pos as int, px[1]),
            written ==> (*final(self).b)@ == old(self).b@.update(old(self).pos as int, px[2]),
            written ==> (*final(self).a)@ == old(self).a@.update(old(self).pos as int, px[3]),
            !written ==> final(self).pos == old(self).pos && (*final(self).r)@ == old(self).r@
                && (*final(self).g)@ == old(self).g@ && (*final(self).b)@ == old(self).b@
                && (*final(self).a)@ == old(self).a@,
            (*final(final(self).r))@ == (*final(old(self).r))@,
            (*final(final(self).g))@ == (*final(old(self).g))@,
            (*final(final(self).b))@ == (*final(old(self).b))@,
            (*final(final(self).a))@ == (*final(old(self).a))@,
    {
        if self.pos < self.r.len() && self.pos < self.g.len() && self.pos < self.b.len()
            && self.pos < self.a.len() {
            self.r[self.pos] = px[0];
            self.g[self.pos] = px[1];
            self.b[self.pos] = px[2];
            self.a[self.pos] = px[3];
            self.pos = self.pos + 1;
            true
        } else {
            false
        }
    }
}

} // verus!
