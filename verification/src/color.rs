//! Marker types and traits for supported color modes.

use vstd::prelude::*;

verus! {

/// Seals the set of supported color modes.
pub trait Sealed {

}

/// A marker trait for color modes the display driver supports.
pub trait DisplayColor: Sealed {

}

/// Marker for the 16-bit red-green-blue pixel layout (5-6-5 bits).
#[derive(Debug, Default, Clone, Copy, PartialEq, Eq)]
pub struct Rgb565;

impl Sealed for Rgb565 {

}

impl DisplayColor for Rgb565 {

}

/// Marker for the 18-bit red-green-blue pixel layout (6-6-6 bits).
#[derive(Debug, Default, Clone, Copy, PartialEq, Eq)]
pub struct Rgb666;

impl Sealed for Rgb666 {

}

impl DisplayColor for Rgb666 {

}

/// Marker for the 24-bit red-green-blue pixel layout (8-8-8 bits).
#[derive(Debug, Default, Clone, Copy, PartialEq, Eq)]
pub struct Rgb888;

impl Sealed for Rgb888 {

}

impl DisplayColor for Rgb888 {

}

} // verus!
