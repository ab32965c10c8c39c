//! `cvr` holds planar image containers and a verified debayering (demosaicing) engine that
//! rebuilds full three-channel colour from an `R G / G B` mosaic.

use vstd::prelude::*;

pub mod buffer;
pub mod debayer;
pub mod gray;
pub mod png;
pub mod rgb;
pub mod rgba;

verus! {

/// `Numeric` marks the sample types that the planar image containers hold.
pub trait Numeric: Copy {}

impl Numeric for u8 {}

} // verus!
