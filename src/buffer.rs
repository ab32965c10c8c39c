//! The contiguous channel storage of the image containers: `minivec::MiniVec`, with the
//! contracts that this crate relies on for the operations it uses.

use vstd::prelude::*;

verus! {

#[verifier::external_type_specification]
#[verifier::external_body]
#[verifier::reject_recursive_types(T)]
pub struct ExMiniVec<T>(minivec::MiniVec<T>);

/// The samples that a byte buffer holds, in order.
pub uninterp spec fn minivec_items(v: minivec::MiniVec<u8>) -> Seq<u8>;

/// Relies on `MiniVec::new`: a new buffer holds nothing.
#[verifier::external_body]
pub(crate) fn empty_bytes() -> (v: minivec::MiniVec<u8>)
    ensures
        minivec_items(v) == Seq::<u8>::empty(),
{
    minivec::MiniVec::new()
}

/// Relies on `MiniVec::resize`: truncates to `n` samples, or appends copies of `value` until
/// there are `n`.
#[verifier::external_body]
pub(crate) fn resize_bytes(v: &mut minivec::MiniVec<u8>, n: usize, value: u8)
    ensures
        minivec_items(*final(v)) == if n <= minivec_items(*old(v)).len() {
            minivec_items(*old(v)).take(n as int)
        } else {
            minivec_items(*old(v)) + Seq::new(
                (n - minivec_items(*old(v)).len()) as nat,
                |i: int| value,
            )
        },
{
    v.resize(n, value)
}

/// Relies on `MiniVec::as_slice`: a view of all the samples held.
#[verifier::external_body]
pub(crate) fn bytes_as_slice(v: &minivec::MiniVec<u8>) -> (s: &[u8])
    ensures
        s@ == minivec_items(*v),
{
    v.as_slice()
}

/// Relies on `MiniVec::as_mut_slice`: a mutable view of all the samples held, through which
/// the buffer is written.
#[verifier::external_body]
pub(crate) fn bytes_as_mut_slice(v: &mut minivec::MiniVec<u8>) -> (s: &mut [u8])
    ensures
        (*s)@ == minivec_items(*old(v)),
        minivec_items(*final(v)) == (*final(s))@,
{
    v.as_mut_slice()
}

} // verus!
