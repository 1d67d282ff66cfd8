//! Drivers for a small family of hardware peripherals, centred on the
//! command/data bit-framing codec that drives a serial display over a
//! transport without a dedicated command/data select line.
//!
//! The codec packs a logical stream of 9-bit units (one role bit plus one
//! payload byte) into 8-bit physical bytes, realigning the output to whole
//! 8-byte groups with no-op filler units. Everything the codec promises is
//! stated as a contract and proved.
#![verifier::loop_isolation(false)]

pub mod accel;
pub mod bits;
pub mod color;
pub mod display;
pub mod framing;
pub mod gps;
pub mod gt911;
pub mod mode;
pub mod tca9554;
pub mod touch;
pub mod transport;
