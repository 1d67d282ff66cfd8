//! Register-level values of the GT911 touch sensor: the driver handle, its
//! errors, and the decoding of status and touch-point registers.

use vstd::prelude::*;

verus! {

/// A driver for a GT911 touch sensor.
pub struct GT911<I2C> {
    i2c: I2C,
    address: u8,
}

impl<I2C> GT911<I2C> {
    /// The I2C bus the driver owns.
    pub closed spec fn spec_i2c(&self) -> I2C {
        self.i2c
    }

    /// The device address the driver talks to.
    pub closed spec fn spec_address(&self) -> u8 {
        self.address
    }

    /// Create a new [`GT911`] driver.
    pub fn new(i2c: I2C, address: u8) -> (r: GT911<I2C>)
        ensures
            r.spec_i2c() == i2c,
            r.spec_address() == address,
    {
        GT911 { i2c, address }
    }

    /// Get the I2C address of the GT911 device.
    pub fn address(&self) -> (a: u8)
        ensures
            a == self.spec_address(),
    {
        self.address
    }

    /// Get a reference to the I2C bus.
    pub fn i2c(&self) -> (r: &I2C)
        ensures
            *r == self.spec_i2c(),
    {
        &self.i2c
    }

    /// Get a mutable reference to the I2C bus.
    pub fn i2c_mut(&mut self) -> (r: &mut I2C)
        ensures
            *r == old(self).spec_i2c(),
            final(self).spec_i2c() == *final(r),
            final(self).spec_address() == old(self).spec_address(),
    {
        &mut self.i2c
    }

    /// Release the I2C bus.
    pub fn release(self) -> (r: I2C)
        ensures
            r == self.spec_i2c(),
    {
        self.i2c
    }
}

/// An error that can occur when using the GT911 driver.
#[derive(Debug, Clone, Copy, PartialEq, Eq)]
pub enum GT911Error<E> {
    /// The device is not ready.
    DeviceNotReady,
    /// An invalid touch point was requested.
    InvalidPoint(u8),
    /// Unexpected product ID.
    ProductIdMismatch([u8; 4], u16),
    /// I2C bus error.
    I2C(E),
}

/// The 16-bit value stored little-endian in two register bytes.
pub open spec fn le16(lo: u8, hi: u8) -> u16 {
    (lo + 256 * hi) as u16
}

/// A touch point reported by the GT911.
#[derive(Debug, Clone, Copy, PartialEq, Eq, Structural)]
pub struct TouchPoint {
    /// The touch point ID
    pub point: u8,
    /// The X coordinate
    pub x: u16,
    /// The Y coordinate
    pub y: u16,
    /// The area of the touch
    pub area: u16,
}

impl TouchPoint {
    /// Create a touch point from raw data: the track ID, then the X and Y
    /// coordinates and the touch area, each 16 bits little-endian.
    pub fn from_bytes(data: [u8; 7]) -> (r: TouchPoint)
        ensures
            r.point == data@[0],
            r.x == le16(data@[1], data@[2]),
            r.y == le16(data@[3], data@[4]),
            r.area == le16(data@[5], data@[6]),
    {
        TouchPoint {
            point: data[0],
            x: data[1] as u16 + 256 * (data[2] as u16),
            y: data[3] as u16 + 256 * (data[4] as u16),
            area: data[5] as u16 + 256 * (data[6] as u16),
        }
    }
}

/// The status register of the GT911 device: flag bits in the high nibble,
/// the touch-point count in the low one.
#[derive(Debug, Clone, Copy, PartialEq, Eq, Structural)]
pub struct GT911Status(pub u8);

impl GT911Status {
    /// Returns `true` if the device is ready (bit 7).
    pub fn is_ready(self) -> (r: bool)
        ensures
            r == (self.0 & 0x80 != 0),
    {
        (self.0 & 0x80) != 0
    }

    /// Returns the number of touch points currently detected (bits 3-0).
    pub fn touch_count(self) -> (n: u8)
        ensures
            n == self.0 & 0x0F,
    {
        self.0 & 0x0F
    }

    /// Returns `true` if the device is being touched (bit 4).
    pub fn is_touched(self) -> (r: bool)
        ensures
            r == (self.0 & 0x10 != 0),
    {
        (self.0 & 0x10) != 0
    }

    /// Returns `true` if a large touch has been detected (bit 6).
    pub fn is_large_touched(self) -> (r: bool)
        ensures
            r == (self.0 & 0x40 != 0),
    {
        (self.0 & 0x40) != 0
    }

    /// Returns `true` if the proximity sensor has been triggered (bit 5).
    pub fn is_triggered(self) -> (r: bool)
        ensures
            r == (self.0 & 0x20 != 0),
    {
        (self.0 & 0x20) != 0
    }
}

} // verus!
