//! Marker types and traits for driver operation modes.

use vstd::prelude::*;

verus! {

/// Seals the set of driver operation modes.
pub trait Sealed {

}

/// A marker trait for driver operation modes.
pub trait DriverMode: Sealed {

}

/// A marker type for asynchronous drivers.
#[derive(Debug, Default, Clone, Copy, PartialEq, Eq)]
pub struct Async;

impl Sealed for Async {

}

impl DriverMode for Async {

}

/// A marker type for blocking drivers.
#[derive(Debug, Default, Clone, Copy, PartialEq, Eq)]
pub struct Blocking;

impl Sealed for Blocking {

}

impl DriverMode for Blocking {

}

} // verus!
