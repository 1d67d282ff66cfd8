//! The driver handle for a TCA9554 I2C I/O expander.

use core::marker::PhantomData;
use vstd::prelude::*;

verus! {

/// Seals the set of TCA9554 operating modes.
pub trait Sealed {

}

/// A marker trait for [`TCA9554`] operating modes.
pub trait TCA9554Mode: Sealed {

}

/// A marker type for a TCA9554 operating in blocking mode.
#[derive(Debug, Default, Clone, Copy, PartialEq, Eq)]
pub struct Blocking;

impl Sealed for Blocking {

}

impl TCA9554Mode for Blocking {

}

/// A marker type for a TCA9554 operating in asynchronous mode.
#[derive(Debug, Default, Clone, Copy, PartialEq, Eq)]
pub struct Async;

impl Sealed for Async {

}

impl TCA9554Mode for Async {

}

/// A driver for a TCA9554 I2C I/O expander. The `state` byte mirrors the
/// last output value written to the device.
pub struct TCA9554<I2C, MODE> {
    i2c: I2C,
    address: u8,
    state: u8,
    _mode: PhantomData<MODE>,
}

impl<I2C, MODE> TCA9554<I2C, MODE> {
    /// The I2C bus the driver owns.
    pub closed spec fn spec_i2c(&self) -> I2C {
        self.i2c
    }

    /// The device address the driver talks to.
    pub closed spec fn spec_address(&self) -> u8 {
        self.address
    }

    /// The mirrored output state of the device.
    pub closed spec fn spec_state(&self) -> u8 {
        self.state
    }

    /// Create a new [`TCA9554`] driver.
    pub fn new(i2c: I2C, address: u8) -> (r: TCA9554<I2C, MODE>)
        ensures
            r.spec_i2c() == i2c,
            r.spec_address() == address,
            r.spec_state() == 0,
    {
        TCA9554 { i2c, address, state: 0, _mode: PhantomData }
    }

    /// Get the I2C address of the TCA9554 device.
    pub fn address(&self) -> (a: u8)
        ensures
            a == self.spec_address(),
    {
        self.address
    }

    /// Get a reference to the I2C bus.
    pub fn i2c(&self) -> (r: &I2C)
        ensures
            *r == self.spec_i2c(),
    {
        &self.i2c
    }

    /// Get a mutable reference to the I2C bus.
    pub fn i2c_mut(&mut self) -> (r: &mut I2C)
        ensures
            *r == old(self).spec_i2c(),
            final(self).spec_i2c() == *final(r),
            final(self).spec_address() == old(self).spec_address(),
            final(self).spec_state() == old(self).spec_state(),
    {
        &mut self.i2c
    }

    /// Release the I2C bus.
    pub fn release(self) -> (r: I2C)
        ensures
            r == self.spec_i2c(),
    {
        self.i2c
    }
}

} // verus!
