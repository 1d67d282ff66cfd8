//! Register-level values of the mode-aware GT911 touch driver: the handle
//! with its touch/gesture mode marker, and the decoding of the status,
//! touch-point, gesture and gesture-point registers.

use core::marker::PhantomData;
use vstd::prelude::*;

verus! {

/// Seals the set of GT911 operating modes.
pub trait Sealed {

}

/// A marker trait for GT911 operating modes.
pub trait GT911Mode: Sealed {

}

/// A marker struct for touch mode.
#[derive(Debug, Default, Clone, Copy, PartialEq, Eq)]
pub struct Touch;

impl Sealed for Touch {

}

impl GT911Mode for Touch {

}

/// A marker struct for gesture mode.
#[derive(Debug, Default, Clone, Copy, PartialEq, Eq)]
pub struct Gesture;

impl Sealed for Gesture {

}

impl GT911Mode for Gesture {

}

/// A driver for a GT911 touch sensor, in touch or gesture mode.
pub struct GT911<I2C, MODE> {
    i2c: I2C,
    address: u8,
    _mode: PhantomData<MODE>,
}

impl<I2C> GT911<I2C, Touch> {
    /// Create a new [`GT911`] driver in touch mode.
    pub fn new(i2c: I2C, address: u8) -> (r: GT911<I2C, Touch>)
        ensures
            r.spec_i2c() == i2c,
            r.spec_address() == address,
    {
        GT911 { i2c, address, _mode: PhantomData }
    }
}

impl<I2C, MODE> GT911<I2C, MODE> {
    /// The I2C bus the driver owns.
    pub closed spec fn spec_i2c(&self) -> I2C {
        self.i2c
    }

    /// The device address the driver talks to.
    pub closed spec fn spec_address(&self) -> u8 {
        self.address
    }

    /// Get the I2C address of the GT911 device.
    pub fn address(&self) -> (a: u8)
        ensures
            a == self.spec_address(),
    {
        self.address
    }

    /// Get a reference to the I2C bus.
    pub fn i2c(&self) -> (r: &I2C)
        ensures
            *r == self.spec_i2c(),
    {
        &self.i2c
    }

    /// Get a mutable reference to the I2C bus.
    pub fn i2c_mut(&mut self) -> (r: &mut I2C)
        ensures
            *r == old(self).spec_i2c(),
            final(self).spec_i2c() == *final(r),
            final(self).spec_address() == old(self).spec_address(),
    {
        &mut self.i2c
    }

    /// Release the I2C bus.
    pub fn release(self) -> (r: I2C)
        ensures
            r == self.spec_i2c(),
    {
        self.i2c
    }
}

/// Flags representing the current touch status: flag bits in the high
/// nibble, the touch-point count in the low one.
#[derive(Debug, Clone, Copy, PartialEq, Eq, Structural)]
pub struct DetectedTouch(pub u8);

impl DetectedTouch {
    /// Returns `true` if the device is ready (bit 7).
    pub fn is_ready(self) -> (r: bool)
        ensures
            r == (self.0 & 0x80 != 0),
    {
        (self.0 & 0x80) != 0
    }

    /// Returns the number of touch points currently detected (bits 3-0).
    pub fn touch_count(self) -> (n: u8)
        ensures
            n == self.0 & 0x0F,
    {
        self.0 & 0x0F
    }

    /// Returns `true` if the device has a touch key pressed (bit 4).
    pub fn has_touch_key(self) -> (r: bool)
        ensures
            r == (self.0 & 0x10 != 0),
    {
        (self.0 & 0x10) != 0
    }

    /// Returns `true` if a large touch has been detected (bit 6).
    pub fn is_large_touched(self) -> (r: bool)
        ensures
            r == (self.0 & 0x40 != 0),
    {
        (self.0 & 0x40) != 0
    }

    /// Returns `true` if the proximity sensor has been triggered (bit 5).
    pub fn is_triggered(self) -> (r: bool)
        ensures
            r == (self.0 & 0x20 != 0),
    {
        (self.0 & 0x20) != 0
    }
}

/// An error that can occur when using the GT911 driver.
#[derive(Debug, Clone, Copy, PartialEq, Eq)]
pub enum GT911Error<E> {
    /// The device is not ready.
    DeviceNotReady(DetectedTouch),
    /// An invalid touch or gesture point was requested.
    InvalidPoint(u8),
    /// Unexpected product ID.
    ProductIdMismatch([u8; 4], u16),
    /// I2C bus error.
    I2C(E),
}

/// The 16-bit value stored little-endian in two register bytes.
pub open spec fn le16(lo: u8, hi: u8) -> u16 {
    (lo + 256 * hi) as u16
}

/// A touch point reported by the GT911.
#[derive(Debug, Clone, Copy, PartialEq, Eq, Structural)]
pub struct TouchPoint {
    /// The touch point ID
    pub point: u8,
    /// The X coordinate
    pub x: u16,
    /// The Y coordinate
    pub y: u16,
    /// The area of the touch
    pub area: u16,
}

impl TouchPoint {
    /// Create a touch point from raw data: the track ID, then the X and Y
    /// coordinates and the touch area, each 16 bits little-endian.
    pub fn from_bytes(data: [u8; 7]) -> (r: TouchPoint)
        ensures
            r.point == data@[0],
            r.x == le16(data@[1], data@[2]),
            r.y == le16(data@[3], data@[4]),
            r.area == le16(data@[5], data@[6]),
    {
        TouchPoint {
            point: data[0],
            x: data[1] as u16 + 256 * (data[2] as u16),
            y: data[3] as u16 + 256 * (data[4] as u16),
            area: data[5] as u16 + 256 * (data[6] as u16),
        }
    }
}

/// A gesture detected by the GT911.
#[derive(Debug, Clone, Copy, PartialEq, Eq, Structural)]
pub enum DetectedGesture {
    /// No gesture detected.
    NoGesture,
    /// A character-shaped gesture.
    Char(char),
    /// A swipe to the right.
    SwipeRight,
    /// A swipe to the left.
    SwipeLeft,
    /// A swipe down.
    SwipeDown,
    /// A swipe up.
    SwipeUp,
    /// A double tap.
    DoubleTap,
}

/// The gesture encoded by the gesture register byte: printable characters
/// name character gestures, fixed codes name the swipes and the double
/// tap, everything else is no gesture.
pub open spec fn gesture_from_byte(byte: u8) -> DetectedGesture {
    if 0x27 <= byte && byte <= 0x7F {
        DetectedGesture::Char(byte as char)
    } else if byte == 0xAA {
        DetectedGesture::SwipeRight
    } else if byte == 0xBB {
        DetectedGesture::SwipeLeft
    } else if byte == 0xAB {
        DetectedGesture::SwipeDown
    } else if byte == 0xBA {
        DetectedGesture::SwipeUp
    } else if byte == 0xCC {
        DetectedGesture::DoubleTap
    } else {
        DetectedGesture::NoGesture
    }
}

impl DetectedGesture {
    /// Returns `true` if any gesture is detected.
    pub fn is_any(self) -> (r: bool)
        ensures
            r == !(self is NoGesture),
    {
        !matches!(self, DetectedGesture::NoGesture)
    }

    /// Create a `DetectedGesture` from a raw byte.
    pub fn from_byte(byte: u8) -> (r: DetectedGesture)
        ensures
            r == gesture_from_byte(byte),
    {
        if 0x27 <= byte && byte <= 0x7F {
            DetectedGesture::Char(byte as char)
        } else if byte == 0xAA {
            DetectedGesture::SwipeRight
        } else if byte == 0xBB {
            DetectedGesture::SwipeLeft
        } else if byte == 0xAB {
            DetectedGesture::SwipeDown
        } else if byte == 0xBA {
            DetectedGesture::SwipeUp
        } else if byte == 0xCC {
            DetectedGesture::DoubleTap
        } else {
            DetectedGesture::NoGesture
        }
    }
}

/// A gesture point reported by the GT911
#[derive(Debug, Clone, Copy, PartialEq, Eq, Structural)]
pub struct GesturePoint {
    /// The X coordinate
    pub x: u16,
    /// The Y coordinate
    pub y: u16,
}

impl GesturePoint {
    /// Create a gesture point from raw data: the X and Y coordinates,
    /// each 16 bits little-endian.
    pub fn from_bytes(data: [u8; 4]) -> (r: GesturePoint)
        ensures
            r.x == le16(data@[0], data@[1]),
            r.y == le16(data@[2], data@[3]),
    {
        GesturePoint {
            x: data[0] as u16 + 256 * (data[1] as u16),
            y: data[2] as u16 + 256 * (data[3] as u16),
        }
    }
}

} // verus!
